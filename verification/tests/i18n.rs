use confui::i18n::{active_lang_code, builtin, first_known_lang, init, parse_lang_tag, t, Lang};
use confui::schema::{LangMode, UiStrings};

const ALL: [Lang; 16] = [
    Lang::Ar,
    Lang::Zh,
    Lang::De,
    Lang::En,
    Lang::Fr,
    Lang::Hi,
    Lang::It,
    Lang::Ja,
    Lang::Ko,
    Lang::Nl,
    Lang::Pt,
    Lang::Ru,
    Lang::Es,
    Lang::Sv,
    Lang::Tr,
    Lang::Vi,
];

#[test]
fn code_values() {
    assert_eq!(Lang::Ja.code(), "ja");
    assert_eq!(Lang::En.code(), "en");
    assert_eq!(Lang::Zh.code(), "zh");
    assert_eq!(Lang::Vi.code(), "vi");
}

#[test]
fn every_code_parses_back() {
    for l in ALL {
        assert_eq!(parse_lang_tag(l.code()), Some(l));
    }
}

#[test]
fn region_and_script_subtags_are_ignored() {
    assert_eq!(parse_lang_tag("ja-JP"), Some(Lang::Ja));
    assert_eq!(parse_lang_tag("en_US"), Some(Lang::En));
    assert_eq!(parse_lang_tag("zh-Hant-TW"), Some(Lang::Zh));
    assert_eq!(parse_lang_tag("pt_BR.UTF-8"), Some(Lang::Pt));
    for l in ALL {
        let tag = format!("{}-XY", l.code());
        assert_eq!(parse_lang_tag(&tag), Some(l));
    }
}

#[test]
fn tags_are_trimmed_and_case_folded() {
    assert_eq!(parse_lang_tag("  DE  "), Some(Lang::De));
    assert_eq!(parse_lang_tag("\tFr_CA\n"), Some(Lang::Fr));
    assert_eq!(parse_lang_tag("\u{3000}ko\u{a0}"), Some(Lang::Ko));
}

#[test]
fn placeholder_and_unknown_tags_give_none() {
    assert_eq!(parse_lang_tag(""), None);
    assert_eq!(parse_lang_tag("   "), None);
    assert_eq!(parse_lang_tag("C"), None);
    assert_eq!(parse_lang_tag("POSIX"), None);
    assert_eq!(parse_lang_tag("c.UTF-8"), None);
    assert_eq!(parse_lang_tag("xx"), None);
    assert_eq!(parse_lang_tag("eng"), None);
    assert_eq!(parse_lang_tag("e"), None);
    assert_eq!(parse_lang_tag("-en"), None);
}

#[test]
fn first_known_lang_skips_unknown_tags() {
    let tags = vec!["C".to_string(), "xx_YY".to_string(), "sv_SE.UTF-8".to_string(), "de".to_string()];
    assert_eq!(first_known_lang(&tags), Some(Lang::Sv));
    assert_eq!(first_known_lang(&[]), None);
    assert_eq!(first_known_lang(&["POSIX".to_string()]), None);
}

#[test]
fn resolve_fixed_language() {
    let os = vec!["de_DE".to_string()];
    assert_eq!(Lang::resolve(&LangMode::Fixed("ja".to_string()), Some("fr"), &os), Lang::Ja);
    assert_eq!(Lang::resolve(&LangMode::Fixed("klingon".to_string()), Some("fr"), &os), Lang::En);
}

#[test]
fn resolve_os_prefers_parent_then_os_then_english() {
    let os = vec!["de_DE.UTF-8".to_string()];
    assert_eq!(Lang::resolve(&LangMode::Os, Some("fr"), &os), Lang::Fr);
    assert_eq!(Lang::resolve(&LangMode::Os, Some("unknown"), &os), Lang::De);
    assert_eq!(Lang::resolve(&LangMode::Os, None, &os), Lang::De);
    assert_eq!(Lang::resolve(&LangMode::Os, None, &[]), Lang::En);
    assert_eq!(Lang::resolve(&LangMode::Os, Some(""), &["C".to_string()]), Lang::En);
}

#[test]
fn builtin_tables_without_overrides() {
    let en = init(Lang::En, &UiStrings::default());
    assert_eq!(en.ok, "OK");
    assert_eq!(en.apply, "Apply");
    assert_eq!(en.window_title, "Settings");
    assert_eq!(en.keep_editing, "Keep Editing");
    let ja = init(Lang::Ja, &UiStrings::default());
    assert_eq!(ja.cancel, "キャンセル");
    let de = init(Lang::De, &UiStrings::default());
    assert_eq!(de.apply, "Übernehmen");
    assert_eq!(de.window_title, "Einstellungen");
}

#[test]
fn every_language_has_a_placeholder_in_delete_confirm() {
    for l in ALL {
        let s = init(l, &UiStrings::default());
        let msg = s.delete_confirm("NAME");
        assert!(msg.contains("NAME"), "{:?}", l);
        assert!(!msg.contains("{}"), "{:?}", l);
    }
}

#[test]
fn delete_confirm_fills_name() {
    let en = init(Lang::En, &UiStrings::default());
    assert_eq!(en.delete_confirm("profile"), "Delete \"profile\"?");
    let fr = init(Lang::Fr, &UiStrings::default());
    assert_eq!(fr.delete_confirm("a"), "Supprimer \"a\" ?");
}

#[test]
fn delete_confirm_override_replaces_every_placeholder() {
    let ov = UiStrings { delete_confirm: Some("{} / {} / {{}}".to_string()), ..UiStrings::default() };
    let s = init(Lang::En, &ov);
    assert_eq!(s.delete_confirm("x"), "x / x / {x}");
}

#[test]
fn overrides_replace_only_named_strings() {
    let ov = UiStrings {
        ok: Some("Fine".to_string()),
        window_title: Some("My App Settings".to_string()),
        ..UiStrings::default()
    };
    let s = init(Lang::En, &ov);
    assert_eq!(s.ok, "Fine");
    assert_eq!(s.window_title, "My App Settings");
    assert_eq!(s.apply, "Apply");
    assert_eq!(s.cancel, "Cancel");
    assert_eq!(s.delete_confirm("x"), "Delete \"x\"?");
}

#[test]
fn t_defaults_to_english() {
    let s = t(None);
    assert_eq!(s.ok, "OK");
    assert_eq!(s.window_title, "Settings");
    let ja = init(Lang::Ja, &UiStrings::default());
    assert_eq!(t(Some(ja)).window_title, ja.window_title);
}

#[test]
fn active_lang_code_defaults_to_english() {
    assert_eq!(active_lang_code(None), "en");
    assert_eq!(active_lang_code(Some(Lang::Ko)), "ko");
}

#[test]
fn builtin_tables_are_well_formed() {
    for l in ALL {
        let s = builtin(l);
        for f in [
            s.ok, s.apply, s.no_sections, s.add_section, s.section_name_label, s.add, s.cancel,
            s.enter_name, s.delete, s.delete_confirm_tmpl, s.browse, s.all_files, s.click_to_input,
            s.press_key, s.clear, s.show, s.hide, s.file_changed, s.reload, s.keep_editing,
            s.window_title,
        ] {
            assert!(!f.is_empty(), "{:?}", l);
        }
        assert_eq!(s.delete_confirm_tmpl.matches("{}").count(), 1, "{:?}", l);
    }
}
