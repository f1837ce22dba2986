use std::path::PathBuf;

use confui::config::{ConfigStore, Error, NumberRepr};

fn store_from(src: &str) -> ConfigStore {
    match ConfigStore::from_source(src, PathBuf::from("config.toml")) {
        Ok(s) => s,
        Err(_) => panic!("test source must parse"),
    }
}

/// The number at `path`, read as the settings window reads numbers: a float,
/// or an integer widened to a float.
fn number(store: &ConfigStore, path: &str) -> Option<f64> {
    let item = store.get_item(path)?;
    item.as_float().or_else(|| item.as_integer().map(|i| i as f64))
}

#[test]
fn number_repr_from_options() {
    assert_eq!(
        NumberRepr::from_options(&["0".into(), "1".into(), "5".into()]),
        NumberRepr::WholeAsInteger
    );
    assert_eq!(
        NumberRepr::from_options(&["0.5".into(), "1.0".into()]),
        NumberRepr::AlwaysFloat
    );
}

#[test]
fn number_repr_from_no_options_is_integer() {
    assert_eq!(NumberRepr::from_options(&[]), NumberRepr::WholeAsInteger);
}

#[test]
fn rename_key_moves_value_and_prunes_empty_parent() {
    let mut store = store_from("[display]\nfont_size = 14\n");
    assert!(store.rename_key("display.font_size", "general.font_size"));
    assert_eq!(number(&store, "general.font_size"), Some(14.0));
    assert!(!store.contains("display.font_size"));
    assert!(!store.contains("display"));
}

#[test]
fn rename_key_skips_when_destination_exists() {
    let mut store = store_from("[display]\nfont_size = 14\n\n[general]\nfont_size = 20\n");
    assert!(!store.rename_key("display.font_size", "general.font_size"));
    assert_eq!(number(&store, "general.font_size"), Some(20.0));
    assert_eq!(number(&store, "display.font_size"), Some(14.0));
}

#[test]
fn rename_key_noop_when_source_absent() {
    let mut store = store_from("[general]\nx = 1\n");
    assert!(!store.rename_key("display.font_size", "general.font_size"));
    assert!(!store.is_dirty());
}

#[test]
fn delete_key_removes_and_prunes() {
    let mut store = store_from("[display]\ntick_rate = 60\n");
    assert!(store.delete_key("display.tick_rate"));
    assert!(!store.contains("display.tick_rate"));
    assert!(!store.contains("display"));
}

#[test]
fn delete_key_of_missing_key_is_noop() {
    let mut store = store_from("[display]\ntick_rate = 60\n");
    assert!(!store.delete_key("display.other"));
    assert!(store.contains("display.tick_rate"));
}

#[test]
fn transform_enum_to_bool_matches_true() {
    let mut store = store_from("mode = \"vivarium\"\n");
    assert!(store.transform_enum_to_bool("mode", "vivarium.enabled", Some("vivarium")));
    assert_eq!(store.get_bool("vivarium.enabled"), Some(true));
    assert!(!store.contains("mode"));
}

#[test]
fn transform_enum_to_bool_non_match_false() {
    let mut store = store_from("mode = \"free\"\n");
    assert!(store.transform_enum_to_bool("mode", "vivarium.enabled", Some("vivarium")));
    assert_eq!(store.get_bool("vivarium.enabled"), Some(false));
}

#[test]
fn transform_enum_to_bool_without_string_is_noop() {
    let mut store = store_from("mode = 3\n");
    assert!(!store.transform_enum_to_bool("mode", "vivarium.enabled", Some("vivarium")));
    assert!(store.contains("mode"));
    assert!(!store.contains("vivarium.enabled"));
}

#[test]
fn version_get_set_roundtrip() {
    let mut store = store_from("[general]\nfont_size = 14\n");
    assert_eq!(store.get_version("schema_version"), None);
    assert!(store.set_version("schema_version", 3));
    assert_eq!(store.get_version("schema_version"), Some(3));

    // Reload: the top-level key must round-trip at the document root, not
    // inside the [general] table.
    let reloaded = store_from(&store.render());
    assert_eq!(reloaded.get_version("schema_version"), Some(3));
    assert_eq!(number(&reloaded, "general.font_size"), Some(14.0));
    assert_eq!(reloaded.get_version("general.schema_version"), None);
}

#[test]
fn get_version_rejects_out_of_range() {
    let store = store_from("a = -1\nb = 4294967296\nc = \"3\"\n");
    assert_eq!(store.get_version("a"), None);
    assert_eq!(store.get_version("b"), None);
    assert_eq!(store.get_version("c"), None);
}

#[test]
fn set_then_get_str_and_bool() {
    let mut store = store_from("");
    assert!(store.set_str("a.b.c", "hello"));
    assert_eq!(store.get_str("a.b.c"), Some("hello"));
    assert!(store.set_bool("a.flag", true));
    assert_eq!(store.get_bool("a.flag"), Some(true));
    assert!(store.take_dirty());
    assert!(!store.take_dirty());
}

#[test]
fn set_through_a_value_fails() {
    let mut store = store_from("a = 1\n");
    assert!(!store.set_str("a.b", "x"));
    assert_eq!(store.get_str("a.b"), None);
    assert!(!store.is_dirty());
}

#[test]
fn reads_through_inline_tables() {
    let store = store_from("point = { x = 1, y = true, name = \"p\" }\n");
    assert_eq!(store.get_bool("point.y"), Some(true));
    assert_eq!(store.get_str("point.name"), Some("p"));
    assert!(store.contains("point.x"));
    let mut keys = store.child_keys("point");
    keys.sort();
    assert_eq!(keys, vec!["name".to_string(), "x".to_string(), "y".to_string()]);
}

#[test]
fn child_and_section_keys() {
    let store = store_from("top = 1\n[s.one]\nk = 1\n[s.two]\nk = 2\n");
    let mut keys = store.child_keys("s");
    keys.sort();
    assert_eq!(keys, vec!["one".to_string(), "two".to_string()]);
    let mut sections = store.section_keys("s");
    sections.sort();
    assert_eq!(sections, vec!["one".to_string(), "two".to_string()]);
    let mut root = store.child_keys("");
    root.sort();
    assert_eq!(root, vec!["s".to_string(), "top".to_string()]);
    assert!(store.child_keys("missing").is_empty());
}

#[test]
fn set_table_creates_empty_table() {
    let mut store = store_from("");
    assert!(store.set_table("sections.new"));
    assert!(store.contains("sections.new"));
    assert!(store.child_keys("sections.new").is_empty());
}

#[test]
fn remove_keeps_empty_parent() {
    let mut store = store_from("[display]\ntick_rate = 60\n");
    assert!(store.remove("display.tick_rate"));
    assert!(store.contains("display"));
    assert!(!store.remove("display.tick_rate"));
}

#[test]
fn parse_error_is_reported() {
    match ConfigStore::from_source("a = = 1\n", PathBuf::from("bad.toml")) {
        Err(Error::Parse(_)) => {}
        _ => panic!("expected a parse error"),
    }
}

#[test]
fn reload_replaces_contents_and_clears_dirty() {
    let mut store = store_from("a = 1\n");
    assert!(store.set_bool("b", true));
    assert!(store.reload_from_source("c = \"x\"\n").is_ok());
    assert!(!store.is_dirty());
    assert!(!store.contains("a"));
    assert_eq!(store.get_str("c"), Some("x"));
    assert!(store.reload_from_source("= broken").is_err());
    assert_eq!(store.get_str("c"), Some("x"));
}

#[test]
fn render_preserves_comments() {
    let src = "# leading comment\n[display]\nfont_size = 14 # inline\n";
    let store = store_from(src);
    assert_eq!(store.render(), src);
    assert_eq!(store.path(), &PathBuf::from("config.toml"));
}

#[test]
fn repeating_a_rename_changes_nothing() {
    let mut store = store_from("[display]\nfont_size = 14\n");
    assert!(store.rename_key("display.font_size", "general.font_size"));
    let after_first = store.render();
    assert!(!store.rename_key("display.font_size", "general.font_size"));
    assert_eq!(store.render(), after_first);
}

#[test]
fn write_then_read_at_unrelated_paths() {
    let mut store = store_from("[a]\nx = 1\n[b]\ny = \"keep\"\n");
    assert!(store.set_str("a.z", "new"));
    assert_eq!(store.get_str("a.z"), Some("new"));
    assert_eq!(store.get_str("b.y"), Some("keep"));
    assert_eq!(number(&store, "a.x"), Some(1.0));
}

#[test]
fn repeating_a_delete_changes_nothing() {
    let mut store = store_from("[display]\ntick_rate = 60\nfps = 30\n");
    assert!(store.delete_key("display.tick_rate"));
    let after_first = store.render();
    assert!(!store.delete_key("display.tick_rate"));
    assert_eq!(store.render(), after_first);
}

#[test]
fn repeating_an_enum_to_bool_changes_nothing() {
    let mut store = store_from("mode = \"vivarium\"\n");
    assert!(store.transform_enum_to_bool("mode", "vivarium.enabled", Some("vivarium")));
    let after_first = store.render();
    assert!(!store.transform_enum_to_bool("mode", "vivarium.enabled", Some("vivarium")));
    assert_eq!(store.render(), after_first);
}

#[test]
fn rename_through_a_value_changes_nothing() {
    let mut store = store_from("a = 1\nx = \"s\"\n");
    let before = store.render();
    assert!(!store.rename_key("a", "x.y"));
    assert!(!store.is_dirty());
    assert_eq!(store.render(), before);
    assert_eq!(number(&store, "a"), Some(1.0));
}

#[test]
fn rename_below_itself_moves_value_into_new_table() {
    let mut store = store_from("a = 1\n");
    assert!(store.rename_key("a", "a.b"));
    assert_eq!(number(&store, "a.b"), Some(1.0));
}

#[test]
fn enum_to_bool_below_its_source_changes_nothing() {
    let mut store = store_from("m = \"x\"\n");
    assert!(!store.transform_enum_to_bool("m", "m.e", Some("x")));
    assert_eq!(store.get_str("m"), Some("x"));
    assert!(!store.is_dirty());
}

#[test]
fn enum_to_bool_inside_inline_table_keeps_source() {
    let mut store = store_from("t = { m = \"x\" }\n");
    assert!(store.transform_enum_to_bool("t.m", "flag", Some("x")));
    assert_eq!(store.get_bool("flag"), Some(true));
    assert_eq!(store.get_str("t.m"), Some("x"));
    assert!(store.is_dirty());
}

#[test]
fn unsaved_flag_follows_the_latest_successful_edit() {
    let mut store = store_from("a = 1\nx = \"s\"\n");
    assert!(!store.is_dirty());
    assert!(!store.rename_key("a", "x.y"));
    let _ = store.get_str("x");
    assert!(!store.is_dirty());
    assert!(store.set_bool("b", true));
    assert!(store.is_dirty());
    assert!(store.take_dirty());
    assert!(!store.delete_key("missing"));
    assert!(!store.is_dirty());
    assert!(store.remove("b"));
    assert!(store.reload_from_source("c = 1\n").is_ok());
    assert!(!store.is_dirty());
}

#[test]
fn child_keys_come_in_file_order() {
    let store = store_from("zeta = 1\nalpha = 2\n[mid]\nb = 1\na = 2\n[mid.z]\n[mid.c]\n");
    assert_eq!(store.child_keys(""), vec!["zeta".to_string(), "alpha".to_string(), "mid".to_string()]);
    assert_eq!(
        store.child_keys("mid"),
        vec!["b".to_string(), "a".to_string(), "z".to_string(), "c".to_string()]
    );
    let inline = store_from("p = { y = 1, x = 2 }\n");
    assert_eq!(inline.child_keys("p"), vec!["y".to_string(), "x".to_string()]);
    assert!(store.child_keys("zeta").is_empty());
    assert_eq!(store.section_keys("mid"), store.child_keys("mid"));
}
