//! The parts of the settings schema (`schema.toml`) that the library's logic
//! reads: migrations, language, UI string overrides and theme colors.

use vstd::prelude::*;

verus! {

/// Move the value at `from` to `to`.
pub struct RenameOp {
    pub from: String,
    pub to: String,
}

/// How a transform rewrites its source key.
#[derive(Clone, Copy, Debug, PartialEq, Eq, Structural)]
pub enum TransformKind {
    Rename,
    EnumToBool,
}

/// Rewrite the value at `from` into `to`.
pub struct TransformOp {
    pub from: String,
    pub to: String,
    pub kind: TransformKind,
    /// For `EnumToBool`: the string that maps to `true`.
    pub match_value: Option<String>,
}

/// Remove the key `key`.
pub struct DeleteOp {
    pub key: String,
}

/// The edits that bring a config file up to `version`.
pub struct Migration {
    pub version: u32,
    pub rename: Vec<RenameOp>,
    pub transform: Vec<TransformOp>,
    pub delete: Vec<DeleteOp>,
}

/// UI language preference.
pub enum LangMode {
    /// Follow the parent application, then the OS.
    Os,
    /// An explicit language tag.
    Fixed(String),
}

/// Theme preference.
#[derive(Clone, Copy, Debug, PartialEq, Eq, Structural)]
pub enum ThemeMode {
    Os,
    Light,
    Dark,
}

/// Schema overrides of the high-level theme colors, as `#rrggbb` or
/// `#rrggbbaa` strings.
#[derive(Default)]
pub struct ColorOverrides {
    pub background_color: Option<String>,
    pub accent_color: Option<String>,
    pub text_color: Option<String>,
    pub tab_text_color: Option<String>,
    pub selection_bg_color: Option<String>,
}

/// Schema overrides of the built-in UI strings.
#[derive(Default)]
pub struct UiStrings {
    pub ok: Option<String>,
    pub apply: Option<String>,
    pub no_sections: Option<String>,
    pub add_section: Option<String>,
    pub section_name_label: Option<String>,
    pub add: Option<String>,
    pub cancel: Option<String>,
    pub enter_name: Option<String>,
    pub delete: Option<String>,
    pub delete_confirm: Option<String>,
    pub browse: Option<String>,
    pub all_files: Option<String>,
    pub click_to_input: Option<String>,
    pub press_key: Option<String>,
    pub clear: Option<String>,
    pub show: Option<String>,
    pub hide: Option<String>,
    pub file_changed: Option<String>,
    pub reload: Option<String>,
    pub keep_editing: Option<String>,
    pub window_title: Option<String>,
}

/// One alternative of a choice field that is enabled only under a condition.
pub struct OptionState {
    /// The option this applies to.
    pub value: String,
    /// The id of a schema constraint that must hold with this option chosen.
    pub when: Option<String>,
    /// A CEL expression that must hold for the option to be offered.
    pub enabled: Option<String>,
}

/// A named cross-field constraint, written in CEL.
pub struct Constraint {
    pub id: String,
    pub expr: String,
}

/// A settings field, as far as validation reads it.
pub struct Field {
    /// The dot-separated config key (relative to its section in a section map).
    pub key: String,
    /// The field's validation rules, as written in the schema.
    pub validate: Vec<String>,
    pub option_states: Vec<OptionState>,
}

/// A tab whose fields repeat once per sub-table under `key_prefix`.
pub struct SectionMap {
    pub key_prefix: String,
    pub fields: Vec<Field>,
}

/// A tab of the settings window.
pub struct Tab {
    pub fields: Option<Vec<Field>>,
    pub section_map: Option<SectionMap>,
}

/// The settings schema, as far as migration, validation, localization and
/// theming read it.
pub struct Schema {
    /// The config version this schema expects; `None` disables migration.
    pub schema_version: Option<u32>,
    /// The config key that records the applied version.
    pub migration_version_key: Option<String>,
    pub migrations: Vec<Migration>,
    pub lang: LangMode,
    /// The parent application's language key in the config file.
    pub lang_key: Option<String>,
    pub ui_strings: UiStrings,
    pub theme: ThemeMode,
    pub colors_light: ColorOverrides,
    pub colors_dark: ColorOverrides,
    pub tabs: Vec<Tab>,
    pub constraints: Vec<Constraint>,
}

/// The version key used when the schema names none.
pub open spec fn default_version_key() -> Seq<char> {
    seq!['s', 'c', 'h', 'e', 'm', 'a', '_', 'v', 'e', 'r', 's', 'i', 'o', 'n']
}

/// The config key that records the applied migration version.
pub open spec fn version_key_of(s: Schema) -> Seq<char> {
    match s.migration_version_key {
        Some(k) => k@,
        None => default_version_key(),
    }
}

impl Schema {
    /// The config key that records the applied migration version
    /// (`"schema_version"` unless the schema names another).
    pub fn version_key(&self) -> (r: &str)
        ensures
            r@ == version_key_of(*self),
    {
        match &self.migration_version_key {
            Some(k) => k.as_str(),
            None => {
                proof {
                    reveal_strlit("schema_version");
                }
                "schema_version"
            },
        }
    }
}

} // verus!
