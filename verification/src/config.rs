//! Settings of the plugin: where translations come from and which
//! languages to start with.

use vstd::prelude::*;

verus! {

/// Configuration of the internationalisation plugin: how translations are
/// loaded and which languages to use.
#[derive(Debug, Clone)]
pub struct I18nConfig {
    /// Whether to use bundled translations (true) or filesystem loading (false).
    pub use_bundled_translations: bool,
    /// Path to the messages folder containing translation files.
    pub messages_folder: String,
    /// Default language code to use.
    pub default_lang: String,
    /// Fallback language code when a translation is missing.
    pub fallback_lang: String,
}

/// The default configuration: filesystem loading from `messages`, with
/// English as both the default and the fallback language.
pub open spec fn is_default_config(c: I18nConfig) -> bool {
    &&& !c.use_bundled_translations
    &&& c.messages_folder@ == "messages"@
    &&& c.default_lang@ == "en"@
    &&& c.fallback_lang@ == "en"@
}

impl Default for I18nConfig {
    fn default() -> (res: Self)
        ensures
            is_default_config(res),
    {
        I18nConfig {
            use_bundled_translations: false,
            messages_folder: "messages".to_owned(),
            default_lang: "en".to_owned(),
            fallback_lang: "en".to_owned(),
        }
    }
}

impl I18nConfig {
    /// The default configuration, with bundled loading switched on or off
    /// (targets without a filesystem, such as WASM, use bundled loading).
    pub fn default_with_bundling(use_bundled_translations: bool) -> (res: Self)
        ensures
            res.use_bundled_translations == use_bundled_translations,
            res.messages_folder@ == "messages"@,
            res.default_lang@ == "en"@,
            res.fallback_lang@ == "en"@,
    {
        I18nConfig {
            use_bundled_translations,
            messages_folder: "messages".to_owned(),
            default_lang: "en".to_owned(),
            fallback_lang: "en".to_owned(),
        }
    }
}

/// The plugin that sets up translations for an application.
pub struct I18nPlugin {
    /// Configuration for the plugin.
    pub config: I18nConfig,
}

impl Default for I18nPlugin {
    fn default() -> (res: Self)
        ensures
            is_default_config(res.config),
    {
        I18nPlugin { config: I18nConfig::default() }
    }
}

impl I18nPlugin {
    /// A plugin with the default configuration.
    pub fn new() -> (res: Self)
        ensures
            is_default_config(res.config),
    {
        Self::default()
    }

    /// A plugin with the given configuration.
    pub fn with_config(config: I18nConfig) -> (res: Self)
        ensures
            res.config == config,
    {
        I18nPlugin { config }
    }
}

} // verus!
