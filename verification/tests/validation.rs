use std::path::PathBuf;

use confui::config::ConfigStore;
use confui::schema::{
    ColorOverrides, Constraint, Field, LangMode, OptionState, Schema, SectionMap, Tab, ThemeMode,
    UiStrings,
};
use confui::validation::{
    field_errors, is_valid, iter_validated_field_paths, option_check, OptionCheck, RuleOutcome,
    ValidationEngine,
};

fn store_from(src: &str) -> ConfigStore {
    match ConfigStore::from_source(src, PathBuf::from("config.toml")) {
        Ok(s) => s,
        Err(_) => panic!("test source must parse"),
    }
}

fn field(key: &str, rules: &[&str]) -> Field {
    Field {
        key: key.to_string(),
        validate: rules.iter().map(|r| r.to_string()).collect(),
        option_states: Vec::new(),
    }
}

fn schema(tabs: Vec<Tab>, constraints: Vec<Constraint>) -> Schema {
    Schema {
        schema_version: None,
        migration_version_key: None,
        migrations: Vec::new(),
        lang: LangMode::Os,
        lang_key: None,
        ui_strings: UiStrings::default(),
        theme: ThemeMode::Os,
        colors_light: ColorOverrides::default(),
        colors_dark: ColorOverrides::default(),
        tabs,
        constraints,
    }
}

fn constraint(id: &str, expr: &str) -> Constraint {
    Constraint { id: id.to_string(), expr: expr.to_string() }
}

#[test]
fn validated_paths_of_plain_and_section_fields() {
    let s = schema(
        vec![
            Tab {
                fields: Some(vec![field("server.port", &["port_range"]), field("server.host", &[])]),
                section_map: None,
            },
            Tab {
                fields: None,
                section_map: Some(SectionMap {
                    key_prefix: "profiles".to_string(),
                    fields: vec![field("name", &["non_empty"]), field("note", &[])],
                }),
            },
        ],
        Vec::new(),
    );
    let config = store_from("[profiles.a]\nname = \"x\"\n[profiles.b]\nname = \"y\"\n");
    let paths: Vec<(String, String)> = iter_validated_field_paths(&s, &config)
        .into_iter()
        .map(|(f, p)| (f.key.clone(), p))
        .collect();
    assert_eq!(paths.len(), 3);
    assert_eq!(paths[0], ("server.port".to_string(), "server.port".to_string()));
    let mut rest: Vec<String> = paths[1..].iter().map(|(_, p)| p.clone()).collect();
    rest.sort();
    assert_eq!(rest, vec!["profiles.a.name".to_string(), "profiles.b.name".to_string()]);
}

#[test]
fn section_map_without_sections_checks_nothing() {
    let s = schema(
        vec![Tab {
            fields: None,
            section_map: Some(SectionMap {
                key_prefix: "profiles".to_string(),
                fields: vec![field("name", &["non_empty"])],
            }),
        }],
        Vec::new(),
    );
    let config = store_from("other = 1\n");
    assert!(iter_validated_field_paths(&s, &config).is_empty());
}

fn choice_field() -> Field {
    Field {
        key: "mode".to_string(),
        validate: Vec::new(),
        option_states: vec![
            OptionState {
                value: "fast".to_string(),
                when: Some("needs_gpu".to_string()),
                enabled: Some("ignored".to_string()),
            },
            OptionState { value: "slow".to_string(), when: None, enabled: Some("power > 1".to_string()) },
            OptionState { value: "odd".to_string(), when: Some("missing".to_string()), enabled: None },
            OptionState { value: "slow".to_string(), when: None, enabled: None },
        ],
    }
}

#[test]
fn option_check_cases() {
    let s = schema(Vec::new(), vec![constraint("other", "true"), constraint("needs_gpu", "gpu == true")]);
    let f = choice_field();
    assert!(matches!(option_check(&s, &f, "fast"), OptionCheck::Constraint(1)));
    match option_check(&s, &f, "slow") {
        OptionCheck::Expr(e) => assert_eq!(e, "power > 1"),
        _ => panic!("expected an expression"),
    }
    assert!(matches!(option_check(&s, &f, "odd"), OptionCheck::Always));
    assert!(matches!(option_check(&s, &f, "unlisted"), OptionCheck::Always));
}

#[test]
fn engine_compiles_constraints() {
    let s = schema(Vec::new(), vec![constraint("a", "x > 1"), constraint("b", "y == 'z'")]);
    let engine = match ValidationEngine::compile(&s) {
        Ok(e) => e,
        Err(m) => panic!("unexpected error: {m}"),
    };
    assert!(engine.constraint_program("a").is_some());
    assert!(engine.constraint_program("b").is_some());
    assert!(engine.constraint_program("c").is_none());
}

#[test]
fn engine_reports_first_bad_constraint() {
    let s = schema(Vec::new(), vec![constraint("a", "x > 1"), constraint("b", "x >"), constraint("c", "((")]);
    match ValidationEngine::compile(&s) {
        Ok(_) => panic!("expected a parse error"),
        Err(m) => {
            let direct = match cel::Program::compile("x >") {
                Err(e) => e.to_string(),
                Ok(_) => panic!("expression must not compile"),
            };
            assert_eq!(m, direct);
        }
    }
}

#[test]
fn engine_caches_inline_programs() {
    let mut engine = match ValidationEngine::compile(&schema(Vec::new(), Vec::new())) {
        Ok(e) => e,
        Err(m) => panic!("unexpected error: {m}"),
    };
    assert!(engine.program_for_expr("size(name) > 0").is_ok());
    assert!(engine.program_for_expr("size(name) > 0").is_ok());
    assert!(engine.program_for_expr("name ==").is_err());
}

#[test]
fn field_errors_lists_failed_rules_in_order() {
    let outcomes = vec![
        RuleOutcome { message: "Required".to_string(), passed: false },
        RuleOutcome { message: "Too long".to_string(), passed: true },
        RuleOutcome { message: "Must be a's".to_string(), passed: false },
    ];
    let errors = field_errors(&outcomes);
    assert_eq!(errors, vec!["Required".to_string(), "Must be a's".to_string()]);
    assert!(field_errors(&[]).is_empty());
    assert!(!is_valid(&[Vec::new(), errors]));
    assert!(is_valid(&[Vec::new(), Vec::new()]));
    assert!(is_valid(&[]));
}
