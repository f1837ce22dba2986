use confui::schema::{ColorOverrides, LangMode, Schema, ThemeMode, UiStrings};
use confui::theme::{parse_hex_color, resolve_variant, Color, Palette, Variant};

fn rgb(r: u8, g: u8, b: u8) -> Color {
    Color { r, g, b, a: 255 }
}

fn schema(light: ColorOverrides, dark: ColorOverrides) -> Schema {
    Schema {
        schema_version: None,
        migration_version_key: None,
        migrations: Vec::new(),
        lang: LangMode::Os,
        lang_key: None,
        ui_strings: UiStrings::default(),
        theme: ThemeMode::Os,
        colors_light: light,
        colors_dark: dark,
        tabs: Vec::new(),
        constraints: Vec::new(),
    }
}

#[test]
fn parse_six_digit_colors() {
    assert_eq!(parse_hex_color("#ff8000"), Some(rgb(255, 128, 0)));
    assert_eq!(parse_hex_color("ff8000"), Some(rgb(255, 128, 0)));
    assert_eq!(parse_hex_color("##0a0B0c"), Some(rgb(10, 11, 12)));
}

#[test]
fn parse_eight_digit_colors() {
    assert_eq!(parse_hex_color("#102030ff"), Some(rgb(16, 32, 48)));
    assert_eq!(parse_hex_color("#10203000"), Some(Color { r: 0, g: 0, b: 0, a: 0 }));
    // Half alpha: the components are premultiplied.
    assert_eq!(parse_hex_color("#ff000080"), Some(Color { r: 128, g: 0, b: 0, a: 128 }));
}

#[test]
fn parse_rejects_malformed_colors() {
    assert_eq!(parse_hex_color(""), None);
    assert_eq!(parse_hex_color("#fff"), None);
    assert_eq!(parse_hex_color("#12345g"), None);
    assert_eq!(parse_hex_color("#1234567"), None);
    assert_eq!(parse_hex_color("#-12345"), None);
    assert_eq!(parse_hex_color("#é1234"), None);
}

#[test]
fn signs_and_other_characters_are_rejected() {
    assert_eq!(parse_hex_color("#+f+f+f"), None);
    assert_eq!(parse_hex_color("+fffff"), None);
    assert_eq!(parse_hex_color(" ffffff"), None);
}

#[test]
fn strings_with_multi_byte_characters_give_none() {
    assert_eq!(parse_hex_color("a€bc"), None);
    assert_eq!(parse_hex_color("12aé4"), None);
    assert_eq!(parse_hex_color("#12345é"), None);
    assert_eq!(parse_hex_color("é"), None);
}

#[test]
fn from_rgba_unmultiplied_matches_egui() {
    for &(r, g, b, a) in &[(255u8, 0u8, 0u8, 128u8), (10, 200, 99, 1), (255, 255, 255, 254), (7, 8, 9, 0), (7, 8, 9, 255)] {
        let mine = Color::from_rgba_unmultiplied(r, g, b, a);
        let [er, eg, eb, ea] = egui::Color32::from_rgba_unmultiplied(r, g, b, a).to_array();
        assert_eq!(mine, Color { r: er, g: eg, b: eb, a: ea });
    }
}

#[test]
fn bad_override_strings_are_ignored() {
    let light = ColorOverrides { accent_color: Some("a€bc".to_string()), ..ColorOverrides::default() };
    let s = schema(light, ColorOverrides::default());
    let (pal, _) = Palette::from_schema(&s, Variant::Light);
    assert_eq!(pal.accent, Palette::light().accent);
}

#[test]
fn base_palettes() {
    let light = Palette::light();
    assert_eq!(light.bg, rgb(255, 255, 255));
    assert_eq!(light.text, rgb(0, 0, 0));
    assert_eq!(light.accent, rgb(0, 155, 255));
    assert_eq!(light.shadow, Color { r: 0, g: 0, b: 0, a: 20 });
    let dark = Palette::dark();
    assert_eq!(dark.bg, rgb(30, 30, 30));
    assert_eq!(dark.error, rgb(255, 110, 110));
    assert_eq!(dark.shadow_strong, Color { r: 0, g: 0, b: 0, a: 90 });
}

#[test]
fn from_schema_without_overrides_is_base() {
    let s = schema(ColorOverrides::default(), ColorOverrides::default());
    let (pal, derive) = Palette::from_schema(&s, Variant::Dark);
    assert_eq!(pal, Palette::dark());
    assert!(derive);
}

#[test]
fn from_schema_applies_variant_overrides() {
    let light = ColorOverrides {
        background_color: Some("#101010".to_string()),
        accent_color: Some("#00ff00".to_string()),
        text_color: Some("not a color".to_string()),
        tab_text_color: None,
        selection_bg_color: Some("#11223344".to_string()),
    };
    let dark = ColorOverrides { accent_color: Some("#ff0000".to_string()), ..ColorOverrides::default() };
    let s = schema(light, dark);
    let (pal, derive) = Palette::from_schema(&s, Variant::Light);
    assert_eq!(pal.bg, rgb(16, 16, 16));
    assert_eq!(pal.surface, rgb(16, 16, 16));
    assert_eq!(pal.accent, rgb(0, 255, 0));
    assert_eq!(pal.text, Palette::light().text);
    assert_eq!(pal.muted_text, Palette::light().muted_text);
    assert_eq!(pal.selection_bg.a, 0x44);
    assert!(!derive);
    let (pal, derive) = Palette::from_schema(&s, Variant::Dark);
    assert_eq!(pal.accent, rgb(255, 0, 0));
    assert_eq!(pal.bg, Palette::dark().bg);
    assert!(derive);
}

#[test]
fn resolve_variant_follows_schema_then_os() {
    assert_eq!(resolve_variant(ThemeMode::Light, Some(Variant::Dark)), Variant::Light);
    assert_eq!(resolve_variant(ThemeMode::Dark, None), Variant::Dark);
    assert_eq!(resolve_variant(ThemeMode::Os, Some(Variant::Dark)), Variant::Dark);
    assert_eq!(resolve_variant(ThemeMode::Os, None), Variant::Light);
}

#[test]
fn from_rgb_is_opaque() {
    assert_eq!(Color::from_rgb(1, 2, 3), Color { r: 1, g: 2, b: 3, a: 255 });
}
