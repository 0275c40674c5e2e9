use bevy_intl::config::{I18nConfig, I18nPlugin};
use bevy_intl::json::{
    bundled_langs, load_bundled_data, parse_section_file, parse_translation_file, parse_translation_value, JsonValue,
};
use bevy_intl::keymap::{Duplicate, KeyMap};
use bevy_intl::loading::{
    create_error_translations, load_bundled_translations, load_filesystem_translations,
    translation_file_key, translations_from_langs, BundledStep,
};
use bevy_intl::placeholder::{decimal_string, fill_placeholders, CompiledPattern};
use bevy_intl::section::{LangMap, SectionValue};

fn s(x: &str) -> JsonValue {
    JsonValue::Str(x.to_string())
}

fn obj(members: Vec<(&str, JsonValue)>) -> JsonValue {
    JsonValue::Object(members.into_iter().map(|(k, v)| (k.to_string(), v)).collect())
}

fn text_of(v: Option<&SectionValue>) -> Option<String> {
    match v {
        Some(SectionValue::Text(t)) => Some(t.clone()),
        _ => None,
    }
}

#[test]
fn default_config() {
    let c = I18nConfig::default();
    assert!(!c.use_bundled_translations);
    assert_eq!(c.messages_folder, "messages");
    assert_eq!(c.default_lang, "en");
    assert_eq!(c.fallback_lang, "en");
}

#[test]
fn plugin_configs() {
    let p = I18nPlugin::new();
    assert_eq!(p.config.messages_folder, "messages");
    let mut c = I18nConfig::default();
    c.default_lang = "fr".to_string();
    let p = I18nPlugin::with_config(c);
    assert_eq!(p.config.default_lang, "fr");
    assert_eq!(p.config.fallback_lang, "en");
}

#[test]
fn parse_file_keeps_strings_and_string_maps() {
    let file = obj(vec![
        ("hello", s("Hello")),
        ("count", JsonValue::Number("3".to_string())),
        ("items", obj(vec![("one", s("One")), ("n", JsonValue::Null), ("many", s("Many"))])),
        ("list", JsonValue::Array(vec![s("a")])),
        ("flag", JsonValue::Bool(true)),
    ]);
    let m = parse_section_file(&file);
    assert_eq!(m.len(), 2);
    assert_eq!(text_of(m.get("hello")), Some("Hello".to_string()));
    assert!(m.get("count").is_none());
    assert!(m.get("list").is_none());
    match m.get("items") {
        Some(SectionValue::Nested(n)) => {
            assert_eq!(n.len(), 2);
            assert_eq!(n.get("one"), Some(&"One".to_string()));
            assert_eq!(n.get("many"), Some(&"Many".to_string()));
            assert!(n.get("n").is_none());
        }
        _ => panic!("items should be nested"),
    }
    assert_eq!(parse_section_file(&s("x")).len(), 0);
}

#[test]
fn parse_document_keeps_every_language_and_file() {
    let doc = obj(vec![
        ("en", obj(vec![("ui", obj(vec![("hello", s("Hello"))])), ("odd", s("not an object"))])),
        ("fr", JsonValue::Null),
    ]);
    let langs = parse_translation_value(&doc);
    assert_eq!(langs.keys(), vec!["en".to_string(), "fr".to_string()]);
    let en = langs.get("en").unwrap();
    assert_eq!(en.len(), 2);
    assert_eq!(en.get("odd").unwrap().len(), 0);
    assert_eq!(text_of(en.get("ui").unwrap().get("hello")), Some("Hello".to_string()));
    assert_eq!(langs.get("fr").unwrap().len(), 0);
    assert_eq!(parse_translation_value(&JsonValue::Array(vec![])).len(), 0);
}

#[test]
fn bundled_document_empty_or_not() {
    assert!(bundled_langs(&obj(vec![])).is_empty());
    assert!(bundled_langs(&s("x")).is_empty());
    let doc = obj(vec![("en", obj(vec![]))]);
    assert_eq!(bundled_langs(&doc).keys(), vec!["en".to_string()]);
}

#[test]
fn later_member_overrides_earlier() {
    let file = obj(vec![("k", s("first")), ("k", s("second"))]);
    let m = parse_section_file(&file);
    assert_eq!(m.len(), 1);
    assert_eq!(text_of(m.get("k")), Some("second".to_string()));
}

#[test]
fn error_translations() {
    let (t, locales) = create_error_translations();
    assert_eq!(locales, vec!["en".to_string()]);
    let file = t.langs.get("en").unwrap().get("error").unwrap();
    assert_eq!(text_of(file.get("error")), Some("Translation Error".to_string()));
}

fn two_langs() -> LangMap {
    let mut langs: LangMap = KeyMap::new();
    langs.insert("fr".to_string(), KeyMap::new());
    langs.insert("en".to_string(), KeyMap::new());
    langs
}

#[test]
fn filesystem_outcomes() {
    let (t, locales) = load_filesystem_translations(Some(two_langs()));
    assert_eq!(locales, vec!["fr".to_string(), "en".to_string()]);
    assert_eq!(t.langs.len(), 2);
    let (t, locales) = load_filesystem_translations(None);
    assert_eq!(locales, vec!["en".to_string()]);
    assert!(t.langs.get("en").unwrap().get("error").is_some());
}

#[test]
fn bundled_outcomes() {
    assert!(matches!(load_bundled_translations(Some(KeyMap::new())), BundledStep::UseFilesystem));
    match load_bundled_translations(Some(two_langs())) {
        BundledStep::Loaded(t, l) => {
            assert_eq!(l, vec!["fr".to_string(), "en".to_string()]);
            assert_eq!(t.langs.len(), 2);
        }
        BundledStep::UseFilesystem => panic!("bundle is not empty"),
    }
    match load_bundled_translations(None) {
        BundledStep::Loaded(_, l) => assert_eq!(l, vec!["en".to_string()]),
        BundledStep::UseFilesystem => panic!("failed bundle gives error translations"),
    }
}

#[test]
fn locales_from_langs_in_insertion_order() {
    let (_, l) = translations_from_langs(two_langs());
    assert_eq!(l, vec!["fr".to_string(), "en".to_string()]);
}

#[test]
fn keymap_insert_get_and_override() {
    let mut m: KeyMap<String> = KeyMap::new();
    assert!(m.is_empty());
    m.insert("a".to_string(), "1".to_string());
    m.insert("b".to_string(), "2".to_string());
    m.insert("a".to_string(), "3".to_string());
    assert_eq!(m.len(), 2);
    assert_eq!(m.get("a"), Some(&"3".to_string()));
    assert!(m.contains_key("b"));
    assert!(!m.contains_key("c"));
    assert_eq!(m.keys(), vec!["a".to_string(), "b".to_string()]);
    let d = m.duplicate();
    assert_eq!(d.keys(), m.keys());
    assert_eq!(d.get("b"), Some(&"2".to_string()));
}

#[test]
fn decimal_matches_to_string() {
    for n in [0usize, 1, 9, 10, 11, 99, 100, 1234567, usize::MAX] {
        assert_eq!(decimal_string(n), n.to_string());
    }
}

#[test]
fn fill_joins_pieces_and_arguments() {
    let parts = vec!["a".to_string(), "b".to_string(), "c".to_string()];
    assert_eq!(fill_placeholders(&parts, &["1".to_string()]), "a1bc");
    assert_eq!(fill_placeholders(&parts, &["1".to_string(), "2".to_string(), "3".to_string()]), "a1b2c");
    assert_eq!(fill_placeholders(&parts, &[]), "abc");
    assert_eq!(fill_placeholders(&vec!["only".to_string()], &["1".to_string()]), "only");
    assert_eq!(fill_placeholders(&vec![], &["1".to_string()]), "");
}

#[test]
fn placeholder_pattern_compiles() {
    assert!(CompiledPattern::placeholders().is_ok());
}

#[test]
fn translation_file_text_is_parsed() {
    let m = parse_translation_file(r#"{"hello": "Hello", "n": 3, "items": {"one": "One", "x": [1]}}"#).unwrap();
    assert_eq!(m.len(), 2);
    assert_eq!(text_of(m.get("hello")), Some("Hello".to_string()));
    match m.get("items") {
        Some(SectionValue::Nested(n)) => {
            assert_eq!(n.len(), 1);
            assert_eq!(n.get("one"), Some(&"One".to_string()));
        }
        _ => panic!("items should be nested"),
    }
    assert!(parse_translation_file("[1, 2]").unwrap().is_empty());
    assert!(parse_translation_file("{ not json").is_err());
}

#[test]
fn bundled_text_is_parsed() {
    assert!(load_bundled_data("{}").unwrap().is_empty());
    let langs = load_bundled_data(r#"{"fr": {"ui": {"hello": "Bonjour"}}, "en": {}}"#).unwrap();
    assert_eq!(langs.len(), 2);
    let ui = langs.get("fr").unwrap().get("ui").unwrap();
    assert_eq!(text_of(ui.get("hello")), Some("Bonjour".to_string()));
    assert!(load_bundled_data("").is_err());
}

#[test]
fn config_with_bundling() {
    let c = I18nConfig::default_with_bundling(true);
    assert!(c.use_bundled_translations);
    assert_eq!(c.messages_folder, "messages");
    assert_eq!(c.default_lang, "en");
    assert_eq!(c.fallback_lang, "en");
    assert!(!I18nConfig::default_with_bundling(false).use_bundled_translations);
}

#[test]
fn translation_file_keys_follow_path_stems() {
    let names = ["ui.json", "menu.JSON", ".json", "..json", "a.b.json", "notes.txt", "json", "x.json.bak", "é.json", ""];
    for name in names {
        let p = std::path::Path::new(name);
        let expected = if p.extension().and_then(|e| e.to_str()) == Some("json") {
            Some(p.file_stem().and_then(|s| s.to_str()).unwrap_or("unknown").to_string())
        } else {
            None
        };
        assert_eq!(translation_file_key(true, name), expected, "{}", name);
        assert_eq!(translation_file_key(false, name), None);
    }
    assert_eq!(translation_file_key(true, "ui.json"), Some("ui".to_string()));
    assert_eq!(translation_file_key(true, "..json"), Some(".".to_string()));
}
