//! Verified core of a schema-driven settings window: config-document editing,
//! schema migrations, validation planning, UI-language resolution and string
//! tables, theme colors, and the single-instance lock's naming and decision.

pub mod config;
pub mod document;
pub mod edit;
pub mod i18n;
pub mod keypath;
pub mod laws;
pub mod migrate;
pub mod schema;
pub mod single_instance;
pub mod theme;
pub mod validation;
