//! Internationalisation for Bevy applications: translation lookup with a
//! fallback language, plural and gendered forms, and `{{..}}` placeholders.
//!
//! - [`keymap`]: the string-keyed maps that hold translations;
//! - [`section`]: translation values and the language/file/key maps;
//! - [`json`]: how a JSON document becomes translations;
//! - [`loading`]: what loaders make of what they read;
//! - [`placeholder`]: splitting templates and filling in arguments;
//! - [`config`]: the plugin and its settings;
//! - [`i18n`]: the translation resource and its lookups;
//! - [`laws`]: properties of the library as a whole.

pub mod config;
pub mod i18n;
pub mod json;
pub mod keymap;
pub mod laws;
pub mod loading;
pub mod placeholder;
pub mod section;

pub use config::{I18nConfig, I18nPlugin};
pub use i18n::{I18n, I18nPartial};
pub use json::JsonValue;
pub use keymap::{Duplicate, KeyMap};
pub use placeholder::I18nError;
pub use section::{SectionValue, Translations};
