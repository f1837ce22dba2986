use std::path::PathBuf;

use confui::config::ConfigStore;
use confui::migrate::run;
use confui::schema::{
    ColorOverrides, DeleteOp, LangMode, Migration, RenameOp, Schema, ThemeMode, TransformKind,
    TransformOp, UiStrings,
};

fn store_from(src: &str) -> ConfigStore {
    match ConfigStore::from_source(src, PathBuf::from("config.toml")) {
        Ok(s) => s,
        Err(_) => panic!("test source must parse"),
    }
}

fn number(store: &ConfigStore, path: &str) -> Option<f64> {
    let item = store.get_item(path)?;
    item.as_float().or_else(|| item.as_integer().map(|i| i as f64))
}

fn schema(target: Option<u32>, migrations: Vec<Migration>) -> Schema {
    Schema {
        schema_version: target,
        migration_version_key: None,
        migrations,
        lang: LangMode::Os,
        lang_key: None,
        ui_strings: UiStrings::default(),
        theme: ThemeMode::Os,
        colors_light: ColorOverrides::default(),
        colors_dark: ColorOverrides::default(),
        tabs: Vec::new(),
        constraints: Vec::new(),
    }
}

fn rename(from: &str, to: &str) -> RenameOp {
    RenameOp { from: from.to_string(), to: to.to_string() }
}

fn schema_v2() -> Schema {
    schema(
        Some(2),
        vec![Migration {
            version: 2,
            rename: vec![
                rename("display.font_size", "general.font_size"),
                rename("display.sprite_size", "free_roam.sprite_size"),
            ],
            transform: vec![TransformOp {
                from: "mode".to_string(),
                to: "vivarium.enabled".to_string(),
                kind: TransformKind::EnumToBool,
                match_value: Some("vivarium".to_string()),
            }],
            delete: vec![DeleteOp { key: "display.tick_rate".to_string() }],
        }],
    )
}

#[test]
fn full_v2_migration() {
    let schema = schema_v2();
    let mut config = store_from(
        "mode = \"vivarium\"\n\n[display]\nfont_size = 14\nsprite_size = 32\ntick_rate = 60\n",
    );

    assert!(run(&schema, &mut config));

    let reloaded = store_from(&config.render());
    assert_eq!(number(&reloaded, "general.font_size"), Some(14.0));
    assert_eq!(number(&reloaded, "free_roam.sprite_size"), Some(32.0));
    assert_eq!(reloaded.get_bool("vivarium.enabled"), Some(true));
    assert!(!reloaded.contains("display"));
    assert!(!reloaded.contains("mode"));
    assert_eq!(reloaded.get_version("schema_version"), Some(2));
}

#[test]
fn idempotent_second_run_is_noop() {
    let schema = schema_v2();
    let mut config = store_from("mode = \"free\"\n\n[display]\nfont_size = 14\n");

    assert!(run(&schema, &mut config));
    let after_first = config.render();

    // A second run sees the recorded version and does nothing.
    let mut config = store_from(&after_first);
    assert!(!run(&schema, &mut config));
    let after_second = config.render();

    assert_eq!(after_first, after_second);
    assert_eq!(config.get_bool("vivarium.enabled"), Some(false));
}

#[test]
fn missing_version_treated_as_zero() {
    let schema = schema_v2();
    let mut config = store_from("[display]\nfont_size = 18\n");

    assert!(run(&schema, &mut config));
    assert_eq!(number(&config, "general.font_size"), Some(18.0));
    assert_eq!(config.get_version("schema_version"), Some(2));
}

#[test]
fn no_target_disables_migration() {
    let schema = schema(None, Vec::new());
    let mut config = store_from("[display]\nfont_size = 14\n");

    assert!(!run(&schema, &mut config));
    assert_eq!(number(&config, "display.font_size"), Some(14.0));
    assert!(!config.is_dirty());
}

#[test]
fn only_versions_above_current_apply() {
    let schema = schema(
        Some(2),
        vec![
            Migration {
                version: 1,
                rename: vec![rename("old.a", "new.a")],
                transform: Vec::new(),
                delete: Vec::new(),
            },
            Migration {
                version: 2,
                rename: vec![rename("old.b", "new.b")],
                transform: Vec::new(),
                delete: Vec::new(),
            },
        ],
    );
    let mut config = store_from("schema_version = 1\n\n[old]\na = 1\nb = 2\n");

    assert!(run(&schema, &mut config));
    assert_eq!(number(&config, "old.a"), Some(1.0));
    assert_eq!(number(&config, "new.b"), Some(2.0));
    assert!(!config.contains("old.b"));
    assert_eq!(config.get_version("schema_version"), Some(2));
}

#[test]
fn migrations_run_in_ascending_version_order() {
    // Declared out of order: version 1 must still run before version 2.
    let schema = schema(
        Some(2),
        vec![
            Migration {
                version: 2,
                rename: vec![rename("b", "c")],
                transform: Vec::new(),
                delete: Vec::new(),
            },
            Migration {
                version: 1,
                rename: vec![rename("a", "b")],
                transform: Vec::new(),
                delete: Vec::new(),
            },
        ],
    );
    let mut config = store_from("a = 5\n");
    assert!(run(&schema, &mut config));
    assert_eq!(number(&config, "c"), Some(5.0));
    assert!(!config.contains("a"));
    assert!(!config.contains("b"));
}

#[test]
fn target_recorded_even_without_matching_migration() {
    let schema = schema(Some(3), Vec::new());
    let mut config = store_from("x = 1\n");
    assert!(run(&schema, &mut config));
    assert_eq!(config.get_version("schema_version"), Some(3));
}

#[test]
fn custom_version_key_is_used() {
    let mut schema = schema(Some(1), Vec::new());
    schema.migration_version_key = Some("cfg_version".to_string());
    assert_eq!(schema.version_key(), "cfg_version");
    let mut config = store_from("x = 1\n");
    assert!(run(&schema, &mut config));
    assert_eq!(config.get_version("cfg_version"), Some(1));
    assert_eq!(config.get_version("schema_version"), None);
}

#[test]
fn newer_config_is_left_alone() {
    let schema = schema_v2();
    let mut config = store_from("schema_version = 5\nmode = \"vivarium\"\n");
    assert!(!run(&schema, &mut config));
    assert_eq!(config.get_str("mode"), Some("vivarium"));
    assert_eq!(config.get_version("schema_version"), Some(5));
}

#[test]
fn transform_rename_kind_moves_value() {
    let schema = schema(
        Some(1),
        vec![Migration {
            version: 1,
            rename: Vec::new(),
            transform: vec![TransformOp {
                from: "old".to_string(),
                to: "sec.new".to_string(),
                kind: TransformKind::Rename,
                match_value: None,
            }],
            delete: Vec::new(),
        }],
    );
    let mut config = store_from("old = \"v\"\n");
    assert!(run(&schema, &mut config));
    assert_eq!(config.get_str("sec.new"), Some("v"));
    assert!(!config.contains("old"));
}
