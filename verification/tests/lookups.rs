use bevy_intl::config::I18nConfig;
use bevy_intl::i18n::{plural_key_of, I18n, I18nPartial};
use bevy_intl::keymap::KeyMap;
use bevy_intl::section::{FileMap, LangMap, SectionMap, SectionValue, Translations};

fn nested(pairs: &[(&str, &str)]) -> SectionValue {
    let mut m: KeyMap<String> = KeyMap::new();
    for (k, v) in pairs {
        m.insert(k.to_string(), v.to_string());
    }
    SectionValue::Nested(m)
}

fn text(s: &str) -> SectionValue {
    SectionValue::Text(s.to_string())
}

fn section(entries: Vec<(&str, SectionValue)>) -> SectionMap {
    let mut m: SectionMap = KeyMap::new();
    for (k, v) in entries {
        m.insert(k.to_string(), v);
    }
    m
}

fn sample_langs() -> LangMap {
    let en_ui = section(vec![
        ("hello", text("Hello")),
        ("welcome", text("Hello {{name}}!")),
        ("only_en", text("Only in English")),
        ("pair", text("{{a}} and {{b}}")),
        ("plain", text("No placeholder")),
        ("items", nested(&[("one", "One item"), ("many", "{{count}} items")])),
        ("title", nested(&[("male", "Mr."), ("female", "Ms.")])),
        ("greeting", nested(&[("male", "Hello Mr. {{name}}"), ("female", "Hello Ms. {{name}}")])),
        ("things", nested(&[("other", "{{count}} things")])),
        ("apples", nested(&[("0", "No apples"), ("few", "A few apples: {{n}}"), ("many", "Many apples")])),
    ]);
    let fr_ui = section(vec![
        ("hello", text("Bonjour")),
        ("welcome", text("Bonjour {{name}} !")),
        ("items", nested(&[("one", "Un objet")])),
        ("title", nested(&[("female", "Mme")])),
    ]);
    let mut en: FileMap = KeyMap::new();
    en.insert("ui".to_string(), en_ui);
    let mut fr: FileMap = KeyMap::new();
    fr.insert("ui".to_string(), fr_ui);
    let mut langs: LangMap = KeyMap::new();
    langs.insert("en".to_string(), en);
    langs.insert("fr".to_string(), fr);
    langs
}

fn sample_i18n(current: &str, fallback: &str) -> I18n {
    let config = I18nConfig {
        use_bundled_translations: false,
        messages_folder: "messages".to_string(),
        default_lang: current.to_string(),
        fallback_lang: fallback.to_string(),
    };
    I18n::new(&config, Translations { langs: sample_langs() }).unwrap()
}

fn ui(current: &str) -> I18nPartial {
    sample_i18n(current, "en").translation("ui")
}

fn args(list: &[&str]) -> Vec<String> {
    list.iter().map(|s| s.to_string()).collect()
}

#[test]
fn text_comes_from_current_language() {
    assert_eq!(ui("fr").t("hello"), "Bonjour");
    assert_eq!(ui("en").t("hello"), "Hello");
}

#[test]
fn text_falls_back_to_fallback_language() {
    assert_eq!(ui("fr").t("only_en"), "Only in English");
}

#[test]
fn text_missing_everywhere() {
    assert_eq!(ui("fr").t("nope"), "Missing translation");
}

#[test]
fn text_of_nested_key_is_missing() {
    assert_eq!(ui("en").t("items"), "Missing translation");
}

#[test]
fn placeholder_replaced_by_argument() {
    assert_eq!(ui("en").t_with_arg("welcome", &args(&["John"])), "Hello John!");
    assert_eq!(ui("fr").t_with_arg("welcome", &args(&["Jean"])), "Bonjour Jean !");
}

#[test]
fn placeholders_replaced_in_order() {
    assert_eq!(ui("en").t_with_arg("pair", &args(&["salt", "pepper"])), "salt and pepper");
}

#[test]
fn placeholders_dropped_without_arguments() {
    assert_eq!(ui("en").t_with_arg("welcome", &[]), "Hello !");
}

#[test]
fn arguments_beyond_placeholders_are_ignored() {
    assert_eq!(ui("en").t_with_arg("plain", &args(&["x", "y"])), "No placeholder");
    assert_eq!(ui("en").t_with_arg("hello", &args(&["John"])), "Hello");
    assert_eq!(ui("en").t_with_arg("nope", &args(&["John"])), "Missing translation");
    assert_eq!(ui("en").t_with_arg("welcome", &args(&["John", "extra"])), "Hello John!");
}

#[test]
fn plural_many_form() {
    assert_eq!(ui("en").t_with_plural("items", 5), "5 items");
    assert_eq!(ui("en").t_with_plural("items", 12345), "12345 items");
}

#[test]
fn plural_form_without_placeholder_is_unchanged() {
    assert_eq!(ui("en").t_with_plural("items", 1), "One item");
}

#[test]
fn plural_exact_count_first() {
    assert_eq!(ui("en").t_with_plural("apples", 0), "No apples");
}

#[test]
fn plural_category_before_basic() {
    assert_eq!(ui("en").t_with_plural("apples", 7), "A few apples: 7");
    assert_eq!(ui("en").t_with_plural("apples", 11), "Many apples");
}

#[test]
fn plural_basic_other_form() {
    assert_eq!(ui("en").t_with_plural("things", 2), "2 things");
    assert_eq!(ui("en").t_with_plural("things", 0), "0 things");
}

#[test]
fn plural_many_as_last_resort() {
    assert_eq!(ui("en").t_with_plural("apples", 1), "Many apples");
}

#[test]
fn plural_missing() {
    assert_eq!(ui("en").t_with_plural("things", 1), "Missing plural translation");
    assert_eq!(ui("en").t_with_plural("nope", 3), "Missing plural translation");
}

#[test]
fn plural_current_language_first_then_fallback() {
    assert_eq!(ui("fr").t_with_plural("items", 1), "Un objet");
    assert_eq!(ui("fr").t_with_plural("items", 4), "4 items");
}

#[test]
fn plural_keys() {
    assert_eq!(plural_key_of(0), "zero");
    assert_eq!(plural_key_of(1), "one");
    assert_eq!(plural_key_of(2), "two");
    assert_eq!(plural_key_of(3), "few");
    assert_eq!(plural_key_of(10), "few");
    assert_eq!(plural_key_of(11), "many");
}

#[test]
fn gendered_text() {
    assert_eq!(ui("en").t_with_gender("title", "female"), "Ms.");
    assert_eq!(ui("fr").t_with_gender("title", "female"), "Mme");
    assert_eq!(ui("fr").t_with_gender("title", "male"), "Mr.");
    assert_eq!(ui("en").t_with_gender("title", "neutral"), "Missing gender translation");
}

#[test]
fn gendered_text_with_argument() {
    assert_eq!(ui("en").t_with_gender_and_arg("greeting", "male", &args(&["Smith"])), "Hello Mr. Smith");
}

#[test]
fn missing_gender_message_takes_no_argument() {
    assert_eq!(
        ui("en").t_with_gender_and_arg("greeting", "neutral", &args(&["Smith"])),
        "Missing gender translation"
    );
}

#[test]
fn available_languages_are_the_loaded_languages() {
    let i18n = sample_i18n("en", "en");
    assert_eq!(i18n.available_languages(), &["en".to_string(), "fr".to_string()][..]);
}

#[test]
fn missing_file_reads_as_error_map() {
    let p = sample_i18n("en", "en").translation("menu");
    assert_eq!(p.t("error"), "Translation not found");
    assert_eq!(p.t("hello"), "Missing translation");
}

#[test]
fn missing_language_uses_fallback_file() {
    let p = sample_i18n("de", "en").translation("ui");
    assert_eq!(p.t("hello"), "Hello");
    assert_eq!(p.t("error"), "Translation not found");
}

#[test]
fn set_lang_to_available_language() {
    let mut i18n = sample_i18n("en", "en");
    i18n.set_lang("fr");
    assert_eq!(i18n.get_lang(), "fr");
    assert_eq!(i18n.translation("ui").t("hello"), "Bonjour");
}

#[test]
fn set_lang_to_unknown_language_changes_nothing() {
    let mut i18n = sample_i18n("en", "en");
    i18n.set_lang("de");
    assert_eq!(i18n.get_lang(), "en");
    assert_eq!(i18n.available_languages(), &["en".to_string(), "fr".to_string()][..]);
}

#[test]
fn set_fallback_lang_switches_fallback() {
    let mut i18n = sample_i18n("en", "en");
    i18n.set_fallback_lang("fr");
    i18n.set_lang("fr");
    assert_eq!(i18n.translation("ui").t("only_en"), "Missing translation");
    i18n.set_fallback_lang("xx");
    assert_eq!(i18n.translation("ui").t("only_en"), "Missing translation");
}

#[test]
fn available_languages_listed() {
    let i18n = sample_i18n("en", "en");
    assert_eq!(i18n.available_languages().len(), 2);
    assert_eq!(i18n.get_lang(), "en");
}

#[test]
fn text_without_braces_unchanged_by_arguments() {
    assert_eq!(ui("en").t_with_arg("only_en", &args(&["a", "b"])), "Only in English");
    assert_eq!(ui("en").t_with_gender_and_arg("title", "male", &args(&["x"])), "Mr.");
    assert_eq!(ui("en").t_with_plural("things", 1), "Missing plural translation");
}
