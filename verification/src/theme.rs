//! The color palette, with light and dark variants and the schema's color
//! overrides.

use vstd::prelude::*;

use crate::schema::{ColorOverrides, Schema, ThemeMode};

verus! {

/// Resolved theme variant (after combining the schema preference with the OS).
#[derive(Debug, Clone, Copy, PartialEq, Eq, Structural)]
pub enum Variant {
    Light,
    Dark,
}

/// An sRGBA color with premultiplied alpha, as the renderer stores it.
#[derive(Debug, Clone, Copy, PartialEq, Eq, Structural)]
pub struct Color {
    pub r: u8,
    pub g: u8,
    pub b: u8,
    pub a: u8,
}

/// An opaque color.
pub open spec fn rgb(r: u8, g: u8, b: u8) -> Color {
    Color { r, g, b, a: 255 }
}

/// The fully transparent color.
pub open spec fn transparent() -> Color {
    Color { r: 0, g: 0, b: 0, a: 0 }
}

impl Color {
    /// An opaque color from its red, green and blue components.
    pub fn from_rgb(r: u8, g: u8, b: u8) -> (c: Color)
        ensures
            c == rgb(r, g, b),
    {
        Color { r, g, b, a: 255 }
    }
}

/// `a * (v / 255)` rounded, in the fixed-point form `ecolor` computes it
/// with (`mul_frac_round`): no floating point, no division by 255.
pub open spec fn mul_frac_round(v: u8, a: u8) -> u8 {
    let p = v * a + 128;
    ((p + p / 256) / 256) as u8
}

/// `Color32::from_rgba_unmultiplied`: a color with separate alpha, with its
/// components premultiplied by the alpha.
pub open spec fn unmultiplied(r: u8, g: u8, b: u8, a: u8) -> Color {
    if a == 0 {
        transparent()
    } else if a == 255 {
        rgb(r, g, b)
    } else {
        Color { r: mul_frac_round(r, a), g: mul_frac_round(g, a), b: mul_frac_round(b, a), a }
    }
}

fn mul_frac_round_of(v: u8, a: u8) -> (r: u8)
    ensures
        r == mul_frac_round(v, a),
{
    let vv: u32 = v as u32;
    let aa: u32 = a as u32;
    assert(vv * aa <= 65025) by (nonlinear_arith)
        requires
            vv <= 255,
            aa <= 255,
    ;
    let p: u32 = vv * aa + 128;
    assert(p >> 8 == p / 256) by (bit_vector);
    let t: u32 = p + (p >> 8);
    let q: u32 = t >> 8;
    assert(t >> 8 == t / 256) by (bit_vector);
    assert(q < 256);
    q as u8
}

impl Color {
    /// A color with separate alpha, stored with premultiplied components.
    pub fn from_rgba_unmultiplied(r: u8, g: u8, b: u8, a: u8) -> (c: Color)
        ensures
            c == unmultiplied(r, g, b, a),
    {
        if a == 0 {
            Color { r: 0, g: 0, b: 0, a: 0 }
        } else if a == 255 {
            Color::from_rgb(r, g, b)
        } else {
            Color {
                r: mul_frac_round_of(r, a),
                g: mul_frac_round_of(g, a),
                b: mul_frac_round_of(b, a),
                a,
            }
        }
    }
}

/// Every semantic color the UI uses.
#[derive(Debug, Clone, Copy, PartialEq, Eq, Structural)]
pub struct Palette {
    /// Panel and window background fill.
    pub bg: Color,
    /// Raised control surfaces on top of `bg` (toggle knobs, selected segment,
    /// checkbox interior, table rows).
    pub surface: Color,
    /// Primary text color (labels, input text).
    pub text: Color,
    /// Secondary / inactive text (inactive sub-tabs).
    pub muted_text: Color,
    /// Color of unselected top-level tab icons and labels.
    pub tab_text: Color,
    /// Placeholder text inside empty inputs.
    pub placeholder: Color,
    /// Accent color for selected tabs and interactive highlights.
    pub accent: Color,
    /// Text / marks drawn on top of an `accent` fill (e.g. checkmark, button text).
    pub on_accent: Color,
    /// Background fill of the selected-tab highlight.
    pub selection_bg: Color,
    /// Idle border of input fields.
    pub field_border: Color,
    /// Track fill of segmented controls and generic hover backgrounds.
    pub control_track: Color,
    /// Border of a segmented-control track / selected segment.
    pub control_track_border: Color,
    /// "Off" track of toggles and the rail of sliders.
    pub control_off: Color,
    /// Thin separator line between field groups.
    pub separator: Color,
    /// Baseline underline under inactive sub-tabs.
    pub divider: Color,
    /// Header row background of `key_value_map` tables.
    pub header_bg: Color,
    /// Strong icon color (hovered close / reveal icons).
    pub icon: Color,
    /// Idle icon color.
    pub icon_weak: Color,
    /// Disabled icon color.
    pub icon_disabled: Color,
    /// Muted icon / secondary glyph color.
    pub icon_muted: Color,
    /// Error message color.
    pub error: Color,
    /// Soft drop shadow (premultiplied).
    pub shadow: Color,
    /// Stronger drop shadow for raised knobs (premultiplied).
    pub shadow_strong: Color,
}

/// The light base palette.
pub open spec fn light_palette() -> Palette {
    Palette {
        bg: Color { r: 255, g: 255, b: 255, a: 255 },
        surface: Color { r: 255, g: 255, b: 255, a: 255 },
        text: Color { r: 0, g: 0, b: 0, a: 255 },
        muted_text: Color { r: 110, g: 110, b: 110, a: 255 },
        tab_text: Color { r: 128, g: 128, b: 128, a: 255 },
        placeholder: Color { r: 180, g: 180, b: 180, a: 255 },
        accent: Color { r: 0, g: 155, b: 255, a: 255 },
        on_accent: Color { r: 255, g: 255, b: 255, a: 255 },
        selection_bg: Color { r: 0, g: 0, b: 0, a: 0 },
        field_border: Color { r: 210, g: 210, b: 210, a: 255 },
        control_track: Color { r: 230, g: 230, b: 230, a: 255 },
        control_track_border: Color { r: 200, g: 200, b: 200, a: 255 },
        control_off: Color { r: 210, g: 210, b: 210, a: 255 },
        separator: Color { r: 243, g: 243, b: 243, a: 255 },
        divider: Color { r: 220, g: 220, b: 220, a: 255 },
        header_bg: Color { r: 246, g: 246, b: 246, a: 255 },
        icon: Color { r: 60, g: 60, b: 60, a: 255 },
        icon_weak: Color { r: 170, g: 170, b: 170, a: 255 },
        icon_disabled: Color { r: 180, g: 180, b: 180, a: 255 },
        icon_muted: Color { r: 150, g: 150, b: 150, a: 255 },
        error: Color { r: 200, g: 0, b: 0, a: 255 },
        shadow: Color { r: 0, g: 0, b: 0, a: 20 },
        shadow_strong: Color { r: 0, g: 0, b: 0, a: 25 },
    }
}

/// The dark base palette.
pub open spec fn dark_palette() -> Palette {
    Palette {
        bg: Color { r: 30, g: 30, b: 30, a: 255 },
        surface: Color { r: 58, g: 58, b: 60, a: 255 },
        text: Color { r: 228, g: 228, b: 228, a: 255 },
        muted_text: Color { r: 150, g: 150, b: 150, a: 255 },
        tab_text: Color { r: 140, g: 140, b: 140, a: 255 },
        placeholder: Color { r: 110, g: 110, b: 110, a: 255 },
        accent: Color { r: 0, g: 155, b: 255, a: 255 },
        on_accent: Color { r: 255, g: 255, b: 255, a: 255 },
        selection_bg: Color { r: 0, g: 0, b: 0, a: 0 },
        field_border: Color { r: 80, g: 80, b: 80, a: 255 },
        control_track: Color { r: 64, g: 64, b: 66, a: 255 },
        control_track_border: Color { r: 96, g: 96, b: 98, a: 255 },
        control_off: Color { r: 80, g: 80, b: 82, a: 255 },
        separator: Color { r: 55, g: 55, b: 55, a: 255 },
        divider: Color { r: 72, g: 72, b: 72, a: 255 },
        header_bg: Color { r: 45, g: 45, b: 47, a: 255 },
        icon: Color { r: 220, g: 220, b: 220, a: 255 },
        icon_weak: Color { r: 120, g: 120, b: 120, a: 255 },
        icon_disabled: Color { r: 90, g: 90, b: 90, a: 255 },
        icon_muted: Color { r: 140, g: 140, b: 140, a: 255 },
        error: Color { r: 255, g: 110, b: 110, a: 255 },
        shadow: Color { r: 0, g: 0, b: 0, a: 60 },
        shadow_strong: Color { r: 0, g: 0, b: 0, a: 90 },
    }
}

impl Palette {
    /// The light base palette.
    pub fn light() -> (p: Palette)
        ensures
            p == light_palette(),
    {
        Palette {
            bg: Color { r: 255, g: 255, b: 255, a: 255 },
            surface: Color { r: 255, g: 255, b: 255, a: 255 },
            text: Color { r: 0, g: 0, b: 0, a: 255 },
            muted_text: Color { r: 110, g: 110, b: 110, a: 255 },
            tab_text: Color { r: 128, g: 128, b: 128, a: 255 },
            placeholder: Color { r: 180, g: 180, b: 180, a: 255 },
            accent: Color { r: 0, g: 155, b: 255, a: 255 },
            on_accent: Color { r: 255, g: 255, b: 255, a: 255 },
            selection_bg: Color { r: 0, g: 0, b: 0, a: 0 },
            field_border: Color { r: 210, g: 210, b: 210, a: 255 },
            control_track: Color { r: 230, g: 230, b: 230, a: 255 },
            control_track_border: Color { r: 200, g: 200, b: 200, a: 255 },
            control_off: Color { r: 210, g: 210, b: 210, a: 255 },
            separator: Color { r: 243, g: 243, b: 243, a: 255 },
            divider: Color { r: 220, g: 220, b: 220, a: 255 },
            header_bg: Color { r: 246, g: 246, b: 246, a: 255 },
            icon: Color { r: 60, g: 60, b: 60, a: 255 },
            icon_weak: Color { r: 170, g: 170, b: 170, a: 255 },
            icon_disabled: Color { r: 180, g: 180, b: 180, a: 255 },
            icon_muted: Color { r: 150, g: 150, b: 150, a: 255 },
            error: Color { r: 200, g: 0, b: 0, a: 255 },
            shadow: Color { r: 0, g: 0, b: 0, a: 20 },
            shadow_strong: Color { r: 0, g: 0, b: 0, a: 25 },
        }
    }

    /// The dark base palette.
    pub fn dark() -> (p: Palette)
        ensures
            p == dark_palette(),
    {
        Palette {
            bg: Color { r: 30, g: 30, b: 30, a: 255 },
            surface: Color { r: 58, g: 58, b: 60, a: 255 },
            text: Color { r: 228, g: 228, b: 228, a: 255 },
            muted_text: Color { r: 150, g: 150, b: 150, a: 255 },
            tab_text: Color { r: 140, g: 140, b: 140, a: 255 },
            placeholder: Color { r: 110, g: 110, b: 110, a: 255 },
            accent: Color { r: 0, g: 155, b: 255, a: 255 },
            on_accent: Color { r: 255, g: 255, b: 255, a: 255 },
            selection_bg: Color { r: 0, g: 0, b: 0, a: 0 },
            field_border: Color { r: 80, g: 80, b: 80, a: 255 },
            control_track: Color { r: 64, g: 64, b: 66, a: 255 },
            control_track_border: Color { r: 96, g: 96, b: 98, a: 255 },
            control_off: Color { r: 80, g: 80, b: 82, a: 255 },
            separator: Color { r: 55, g: 55, b: 55, a: 255 },
            divider: Color { r: 72, g: 72, b: 72, a: 255 },
            header_bg: Color { r: 45, g: 45, b: 47, a: 255 },
            icon: Color { r: 220, g: 220, b: 220, a: 255 },
            icon_weak: Color { r: 120, g: 120, b: 120, a: 255 },
            icon_disabled: Color { r: 90, g: 90, b: 90, a: 255 },
            icon_muted: Color { r: 140, g: 140, b: 140, a: 255 },
            error: Color { r: 255, g: 110, b: 110, a: 255 },
            shadow: Color { r: 0, g: 0, b: 0, a: 60 },
            shadow_strong: Color { r: 0, g: 0, b: 0, a: 90 },
        }
    }
}


/// The value of the hexadecimal digit `c`, if it is one.
pub open spec fn hex_digit(c: char) -> Option<u8> {
    if '0' <= c <= '9' {
        Some((c as u32 - 0x30) as u8)
    } else if 'a' <= c <= 'f' {
        Some((c as u32 - 0x61 + 10) as u8)
    } else if 'A' <= c <= 'F' {
        Some((c as u32 - 0x41 + 10) as u8)
    } else {
        None
    }
}

/// The byte written as the two hexadecimal digits `hi`, `lo`.
pub open spec fn hex_byte(hi: char, lo: char) -> Option<u8> {
    match (hex_digit(hi), hex_digit(lo)) {
        (Some(h), Some(l)) => Some((h * 16 + l) as u8),
        _ => None,
    }
}

/// `s` without its leading `'#'`s (`str::trim_start_matches('#')`).
pub open spec fn strip_hashes(s: Seq<char>) -> Seq<char>
    decreases s.len(),
{
    if s.len() > 0 && s[0] == '#' {
        strip_hashes(s.drop_first())
    } else {
        s
    }
}

/// The bytes written by the digit pairs `k..n` of `h`; nothing when one of
/// them is not a pair of hexadecimal digits.
pub open spec fn hex_bytes(h: Seq<char>, k: nat, n: nat) -> Option<Seq<u8>>
    decreases n - k,
{
    if k >= n {
        Some(Seq::empty())
    } else {
        match hex_byte(h[2 * k as int], h[2 * k + 1 as int]) {
            None => None,
            Some(v) => match hex_bytes(h, k + 1, n) {
                Some(rest) => Some(seq![v] + rest),
                None => None,
            },
        }
    }
}

/// The color that the CSS hex string `s` denotes: after its leading `'#'`s,
/// six hexadecimal digits give an opaque color and eight a color with
/// separate alpha; anything else is none.
pub open spec fn hex_color(s: Seq<char>) -> Option<Color> {
    let h = strip_hashes(s);
    if h.len() == 6 {
        match hex_bytes(h, 0, 3) {
            Some(v) => Some(rgb(v[0], v[1], v[2])),
            None => None,
        }
    } else if h.len() == 8 {
        match hex_bytes(h, 0, 4) {
            Some(v) => Some(unmultiplied(v[0], v[1], v[2], v[3])),
            None => None,
        }
    } else {
        None
    }
}

fn hex_digit_of(c: char) -> (r: Option<u8>)
    ensures
        r == hex_digit(c),
{
    if '0' <= c && c <= '9' {
        Some((c as u32 - 0x30) as u8)
    } else if 'a' <= c && c <= 'f' {
        Some((c as u32 - 0x61 + 10) as u8)
    } else if 'A' <= c && c <= 'F' {
        Some((c as u32 - 0x41 + 10) as u8)
    } else {
        None
    }
}

/// The byte written by the digits at `i` and `i + 1` of `h`.
fn hex_byte_at(h: &str, i: usize) -> (r: Option<u8>)
    requires
        i + 1 < h@.len(),
        h@.len() <= usize::MAX,
    ensures
        r == hex_byte(h@[i as int], h@[i + 1]),
{
    match (hex_digit_of(h.get_char(i)), hex_digit_of(h.get_char(i + 1))) {
        (Some(hi), Some(lo)) => Some(hi * 16 + lo),
        _ => None,
    }
}

/// Parses a CSS hex color (`#rrggbb` or `#rrggbbaa`); `None` when the string
/// is not one.
pub fn parse_hex_color(hex: &str) -> (r: Option<Color>)
    ensures
        r == hex_color(hex@),
{
    let n = hex.unicode_len();
    let ghost v = hex@;
    let mut p: usize = 0;
    assert(v.skip(0) =~= v);
    while p < n
        invariant
            n == v.len(),
            v == hex@,
            p <= n,
            strip_hashes(v) == strip_hashes(v.skip(p as int)),
        ensures
            p <= n,
            strip_hashes(v) == strip_hashes(v.skip(p as int)),
            p == n || v[p as int] != '#',
        decreases n - p,
    {
        if hex.get_char(p) != '#' {
            break;
        }
        assert(v.skip(p as int).drop_first() =~= v.skip(p + 1));
        p = p + 1;
    }
    let ghost h = v.skip(p as int);
    proof {
        if p < n {
            assert(h[0] == v[p as int]);
        }
        assert(strip_hashes(h) == h);
    }
    let len = n - p;
    assert(forall|i: int| 0 <= i < len ==> h[i] == hex@[p + i]);
    if len == 6 {
        reveal_with_fuel(hex_bytes, 4);
        let r = match hex_byte_at(hex, p) {
            None => return None,
            Some(x) => x,
        };
        let g = match hex_byte_at(hex, p + 2) {
            None => return None,
            Some(x) => x,
        };
        let b = match hex_byte_at(hex, p + 4) {
            None => return None,
            Some(x) => x,
        };
        assert(hex_bytes(h, 0, 3) == Some(seq![r, g, b]));
        Some(Color::from_rgb(r, g, b))
    } else if len == 8 {
        reveal_with_fuel(hex_bytes, 5);
        let r = match hex_byte_at(hex, p) {
            None => return None,
            Some(x) => x,
        };
        let g = match hex_byte_at(hex, p + 2) {
            None => return None,
            Some(x) => x,
        };
        let b = match hex_byte_at(hex, p + 4) {
            None => return None,
            Some(x) => x,
        };
        let a = match hex_byte_at(hex, p + 6) {
            None => return None,
            Some(x) => x,
        };
        assert(hex_bytes(h, 0, 4) == Some(seq![r, g, b, a]));
        Some(Color::from_rgba_unmultiplied(r, g, b, a))
    } else {
        None
    }
}

/// The color that an optional override string gives, if any.
pub open spec fn override_color(o: Option<String>) -> Option<Color> {
    match o {
        Some(s) => hex_color(s@),
        None => None,
    }
}


/// The base palette of `variant`.
pub open spec fn base_palette(variant: Variant) -> Palette {
    match variant {
        Variant::Light => light_palette(),
        Variant::Dark => dark_palette(),
    }
}

/// The schema's color overrides for `variant`.
pub open spec fn overrides_of(schema: Schema, variant: Variant) -> ColorOverrides {
    match variant {
        Variant::Light => schema.colors_light,
        Variant::Dark => schema.colors_dark,
    }
}

/// `base` with the overrides of `ov` that parse applied: the background color
/// also fills the surfaces; the selection background is the override, or is
/// left to be derived from the accent (the flag).
pub open spec fn apply_overrides(base: Palette, ov: ColorOverrides) -> (Palette, bool) {
    let p1 = match override_color(ov.background_color) {
        Some(c) => Palette { bg: c, surface: c, ..base },
        None => base,
    };
    let p2 = match override_color(ov.accent_color) {
        Some(c) => Palette { accent: c, ..p1 },
        None => p1,
    };
    let p3 = match override_color(ov.text_color) {
        Some(c) => Palette { text: c, ..p2 },
        None => p2,
    };
    let p4 = match override_color(ov.tab_text_color) {
        Some(c) => Palette { tab_text: c, ..p3 },
        None => p3,
    };
    match override_color(ov.selection_bg_color) {
        Some(c) => (Palette { selection_bg: c, ..p4 }, false),
        None => (p4, true),
    }
}

/// Parses an optional override string.
fn parse_override(o: &Option<String>) -> (r: Option<Color>)
    ensures
        r == override_color(*o),
{
    match o {
        Some(s) => parse_hex_color(s.as_str()),
        None => None,
    }
}

impl Palette {
    /// Builds the active palette: the light or dark base with the schema's
    /// overrides for that variant applied. The flag is `true` when the schema
    /// names no selection background, which is then to be derived from the
    /// accent color.
    pub fn from_schema(schema: &Schema, variant: Variant) -> (r: (Palette, bool))
        ensures
            r == apply_overrides(base_palette(variant), overrides_of(*schema, variant)),
    {
        let (mut pal, overrides) = match variant {
            Variant::Light => (Palette::light(), &schema.colors_light),
            Variant::Dark => (Palette::dark(), &schema.colors_dark),
        };
        if let Some(c) = parse_override(&overrides.background_color) {
            pal.bg = c;
            pal.surface = c;
        }
        if let Some(c) = parse_override(&overrides.accent_color) {
            pal.accent = c;
        }
        if let Some(c) = parse_override(&overrides.text_color) {
            pal.text = c;
        }
        if let Some(c) = parse_override(&overrides.tab_text_color) {
            pal.tab_text = c;
        }
        match parse_override(&overrides.selection_bg_color) {
            Some(c) => {
                pal.selection_bg = c;
                (pal, false)
            },
            None => (pal, true),
        }
    }
}

/// Which variant to use, given the schema's preference and the operating
/// system's theme (light when it reports none).
pub fn resolve_variant(mode: ThemeMode, system: Option<Variant>) -> (r: Variant)
    ensures
        r == match mode {
            ThemeMode::Light => Variant::Light,
            ThemeMode::Dark => Variant::Dark,
            ThemeMode::Os => match system {
                Some(v) => v,
                None => Variant::Light,
            },
        },
{
    match mode {
        ThemeMode::Light => Variant::Light,
        ThemeMode::Dark => Variant::Dark,
        ThemeMode::Os => match system {
            Some(v) => v,
            None => Variant::Light,
        },
    }
}


/// The lower-case hexadecimal digit of `d` (below 16).
pub open spec fn hex_digit_char(d: u8) -> char {
    if d < 10 {
        (0x30 + d) as char
    } else {
        (0x61 + d - 10) as char
    }
}

/// The two lower-case hexadecimal digits of `v`.
pub open spec fn hex_pair(v: u8) -> Seq<char> {
    seq![hex_digit_char(v / 16), hex_digit_char(v % 16)]
}

proof fn lemma_hex_pair_value(v: u8)
    ensures
        hex_byte(hex_pair(v)[0], hex_pair(v)[1]) == Some(v),
{
    assert(hex_digit(hex_digit_char(v / 16)) == Some((v / 16) as u8));
    assert(hex_digit(hex_digit_char(v % 16)) == Some((v % 16) as u8));
}

/// `#rrggbb` written with lower-case digits reads back as the opaque color.
pub proof fn law_hex_rgb_roundtrip(r: u8, g: u8, b: u8)
    ensures
        hex_color(seq!['#'] + hex_pair(r) + hex_pair(g) + hex_pair(b)) == Some(rgb(r, g, b)),
{
    let s = seq!['#'] + hex_pair(r) + hex_pair(g) + hex_pair(b);
    let h = hex_pair(r) + hex_pair(g) + hex_pair(b);
    assert(s.drop_first() =~= h);
    assert(h[0] != '#');
    assert(strip_hashes(h) == h);
    assert(strip_hashes(s) == h);
    lemma_hex_pair_value(r);
    lemma_hex_pair_value(g);
    lemma_hex_pair_value(b);
    reveal_with_fuel(hex_bytes, 4);
    assert(hex_bytes(h, 0, 3) == Some(seq![r, g, b]));
}

proof fn lemma_hex_bytes_digits(h: Seq<char>, k: nat, n: nat, i: int)
    requires
        hex_bytes(h, k, n) is Some,
        2 * k <= i < 2 * n,
    ensures
        hex_digit(h[i]) is Some,
    decreases n - k,
{
    if i >= 2 * k + 2 {
        lemma_hex_bytes_digits(h, k + 1, n, i);
    }
}

/// Only hexadecimal digits are read: a string whose digits, after the
/// leading `'#'`s, include any other character names no color.
pub proof fn law_only_hex_digits(s: Seq<char>, i: int)
    requires
        0 <= i < strip_hashes(s).len(),
        hex_digit(strip_hashes(s)[i]) is None,
    ensures
        hex_color(s) is None,
{
    let h = strip_hashes(s);
    if h.len() == 6 && hex_bytes(h, 0, 3) is Some {
        lemma_hex_bytes_digits(h, 0, 3, i);
    }
    if h.len() == 8 && hex_bytes(h, 0, 4) is Some {
        lemma_hex_bytes_digits(h, 0, 4, i);
    }
}

/// Each override sets its own color and no other: a parsed accent, text or
/// tab-text override becomes that color of the palette, and without one the
/// base palette's color stays; a parsed selection override is used as is,
/// otherwise the selection is left to be derived.
pub proof fn law_each_override_sets_its_color(base: Palette, ov: ColorOverrides)
    ensures
        apply_overrides(base, ov).0.accent == match override_color(ov.accent_color) {
            Some(c) => c,
            None => base.accent,
        },
        apply_overrides(base, ov).0.text == match override_color(ov.text_color) {
            Some(c) => c,
            None => base.text,
        },
        apply_overrides(base, ov).0.tab_text == match override_color(ov.tab_text_color) {
            Some(c) => c,
            None => base.tab_text,
        },
        apply_overrides(base, ov).0.bg == match override_color(ov.background_color) {
            Some(c) => c,
            None => base.bg,
        },
        apply_overrides(base, ov).0.surface == match override_color(ov.background_color) {
            Some(c) => c,
            None => base.surface,
        },
        match override_color(ov.selection_bg_color) {
            Some(c) => apply_overrides(base, ov).0.selection_bg == c && !apply_overrides(base, ov).1,
            None => apply_overrides(base, ov).0.selection_bg == base.selection_bg && apply_overrides(
                base,
                ov,
            ).1,
        },
{
}

/// A schema without color overrides gets the base palette as it is, with the
/// selection background left to be derived.
pub proof fn law_no_overrides_base_palette(base: Palette, ov: ColorOverrides)
    requires
        ov.background_color is None,
        ov.accent_color is None,
        ov.text_color is None,
        ov.tab_text_color is None,
        ov.selection_bg_color is None,
    ensures
        apply_overrides(base, ov) == (base, true),
{
}

/// The overrides change only the five high-level colors (background and
/// surface together, accent, text, tab text, selection background); every
/// other color of the base palette stays.
pub proof fn law_overrides_keep_other_colors(base: Palette, ov: ColorOverrides)
    ensures
        apply_overrides(base, ov).0.muted_text == base.muted_text,
        apply_overrides(base, ov).0.placeholder == base.placeholder,
        apply_overrides(base, ov).0.on_accent == base.on_accent,
        apply_overrides(base, ov).0.field_border == base.field_border,
        apply_overrides(base, ov).0.control_track == base.control_track,
        apply_overrides(base, ov).0.control_track_border == base.control_track_border,
        apply_overrides(base, ov).0.control_off == base.control_off,
        apply_overrides(base, ov).0.separator == base.separator,
        apply_overrides(base, ov).0.divider == base.divider,
        apply_overrides(base, ov).0.header_bg == base.header_bg,
        apply_overrides(base, ov).0.icon == base.icon,
        apply_overrides(base, ov).0.icon_weak == base.icon_weak,
        apply_overrides(base, ov).0.icon_disabled == base.icon_disabled,
        apply_overrides(base, ov).0.icon_muted == base.icon_muted,
        apply_overrides(base, ov).0.error == base.error,
        apply_overrides(base, ov).0.shadow == base.shadow,
        apply_overrides(base, ov).0.shadow_strong == base.shadow_strong,
{
}

/// A background override fills both the background and the raised surfaces.
pub proof fn law_background_fills_surface(base: Palette, ov: ColorOverrides, c: Color)
    requires
        override_color(ov.background_color) == Some(c),
    ensures
        apply_overrides(base, ov).0.bg == c,
        apply_overrides(base, ov).0.surface == c,
{
}


/// A leading `'#'` is optional: with or without it a string names the same
/// color.
pub proof fn law_hash_prefix_optional(s: Seq<char>)
    ensures
        hex_color(seq!['#'] + s) == hex_color(s),
{
    let t = seq!['#'] + s;
    assert(t[0] == '#');
    assert(t.drop_first() =~= s);
}

} // verus!




