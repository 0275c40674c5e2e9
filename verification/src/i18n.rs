//! The translation resource and the per-file view of it that answers
//! lookups.

use vstd::prelude::*;

use crate::config::I18nConfig;
use crate::keymap::{string_views, Duplicate, KeyMap};
use crate::loading::lists_languages;
use crate::placeholder::{
    decimal_spec, decimal_string, fill_spec, has_double_brace, placeholder_pattern, regex_split, replace_with,
    CompiledPattern, I18nError,
};
use crate::section::{LangMapView, SectionMap, SectionMapView, SectionValue, SectionView, Translations};

verus! {

/// The map a file is read as when it cannot be found.
pub open spec fn error_file() -> SectionMapView {
    Map::empty().insert("error"@, SectionView::Text("Translation not found"@))
}

/// The keys of `file` in language `lang`, or the error map when the
/// language or the file is missing.
pub open spec fn file_or_error(langs: LangMapView, lang: Seq<char>, file: Seq<char>) -> SectionMapView {
    if langs.contains_key(lang) && langs[lang].contains_key(file) {
        langs[lang][file]
    } else {
        error_file()
    }
}

/// The text that a section map binds `key` to, if it binds it to a text.
pub open spec fn text_in(m: SectionMapView, key: Seq<char>) -> Option<Seq<char>> {
    if m.contains_key(key) {
        match m[key] {
            SectionView::Text(s) => Some(s),
            SectionView::Nested(_) => None,
        }
    } else {
        None
    }
}

/// The text for `key`: from the current language, else from the fallback.
pub open spec fn text_lookup(cur: SectionMapView, fb: SectionMapView, key: Seq<char>) -> Option<Seq<char>> {
    match text_in(cur, key) {
        Some(s) => Some(s),
        None => text_in(fb, key),
    }
}

/// The nested text that a section map binds `key` and `sub` to, if any.
pub open spec fn nested_in(m: SectionMapView, key: Seq<char>, sub: Seq<char>) -> Option<Seq<char>> {
    if m.contains_key(key) {
        match m[key] {
            SectionView::Nested(n) => if n.contains_key(sub) {
                Some(n[sub])
            } else {
                None
            },
            SectionView::Text(_) => None,
        }
    } else {
        None
    }
}

/// The nested text for `key` and `sub`: from the current language, else from
/// the fallback.
pub open spec fn nested_lookup(cur: SectionMapView, fb: SectionMapView, key: Seq<char>, sub: Seq<char>) -> Option<Seq<char>> {
    match nested_in(cur, key, sub) {
        Some(s) => Some(s),
        None => nested_in(fb, key, sub),
    }
}

/// The value of an option, or `default` when there is none.
pub open spec fn or_default(o: Option<Seq<char>>, default: Seq<char>) -> Seq<char> {
    match o {
        Some(s) => s,
        None => default,
    }
}

/// The plural category of a count: `zero`, `one`, `two`, `few` (3 to 10) or
/// `many`.
pub open spec fn plural_category(count: nat) -> Seq<char> {
    if count == 0 {
        "zero"@
    } else if count == 1 {
        "one"@
    } else if count == 2 {
        "two"@
    } else if count <= 10 {
        "few"@
    } else {
        "many"@
    }
}

/// The basic English category of a count: `one` or `other`.
pub open spec fn basic_category(count: nat) -> Seq<char> {
    if count == 1 {
        "one"@
    } else {
        "other"@
    }
}

/// The template for a plural form, tried in this order: the exact count, the
/// plural category, the basic category, and finally `many`.
pub open spec fn plural_template(cur: SectionMapView, fb: SectionMapView, key: Seq<char>, count: nat) -> Option<Seq<char>> {
    let exact = nested_lookup(cur, fb, key, decimal_spec(count));
    let category = nested_lookup(cur, fb, key, plural_category(count));
    let basic = nested_lookup(cur, fb, key, basic_category(count));
    if exact is Some {
        exact
    } else if category is Some {
        category
    } else if basic is Some {
        basic
    } else {
        nested_lookup(cur, fb, key, "many"@)
    }
}

/// A template with its placeholders replaced by `args`.
pub open spec fn filled(template: Seq<char>, args: Seq<Seq<char>>) -> Seq<char> {
    fill_spec(regex_split(placeholder_pattern(), template), args)
}

/// The translations of an application, with its current and fallback
/// languages and the list of languages that were loaded.
pub struct I18n {
    translations: Translations,
    current_lang: String,
    locale_folders_list: Vec<String>,
    fallback_lang: String,
    placeholders: CompiledPattern,
}

impl I18n {
    /// The placeholder pattern is the one compiled, and the selectable
    /// languages are exactly the languages of the translations, each once.
    #[verifier::type_invariant]
    closed spec fn well_formed(self) -> bool {
        &&& self.placeholders.source() == placeholder_pattern()
        &&& lists_languages(string_views(self.locale_folders_list@), self.translations.langs@)
    }

    /// All translations: language, then file, then key.
    pub closed spec fn langs(self) -> LangMapView {
        self.translations.langs@
    }

    /// The current language.
    pub closed spec fn current(self) -> Seq<char> {
        self.current_lang@
    }

    /// The fallback language.
    pub closed spec fn fallback(self) -> Seq<char> {
        self.fallback_lang@
    }

    /// The languages that can be selected.
    pub closed spec fn available(self) -> Seq<Seq<char>> {
        string_views(self.locale_folders_list@)
    }

    /// Sets up the resource from a configuration and loaded translations: the
    /// current and fallback languages are the configuration's, and the
    /// selectable languages are the languages of the translations, in the
    /// order they were loaded. Fails only when the placeholder pattern cannot
    /// be compiled.
    pub fn new(config: &I18nConfig, translations: Translations) -> (res: Result<I18n, I18nError>)
        ensures
            res is Ok <==> crate::placeholder::regex_compiles(placeholder_pattern()),
            res matches Ok(i) ==> {
                &&& i.langs() == translations.langs@
                &&& i.current() == config.default_lang@
                &&& i.fallback() == config.fallback_lang@
                &&& i.available() == translations.langs.key_order()
                &&& lists_languages(i.available(), i.langs())
            },
    {
        let locales = translations.langs.keys();
        match CompiledPattern::placeholders() {
            Ok(placeholders) => Ok(
                I18n {
                    translations,
                    current_lang: config.default_lang.clone(),
                    locale_folders_list: locales,
                    fallback_lang: config.fallback_lang.clone(),
                    placeholders,
                },
            ),
            Err(e) => Err(e),
        }
    }

    /// The keys of `file` in `lang`, copied, or the error map.
    fn file_for(&self, lang: &String, file: &str) -> (res: SectionMap)
        ensures
            res@ == file_or_error(self.langs(), lang@, file@),
    {
        match self.translations.langs.get(lang.as_str()) {
            Some(files) => match files.get(file) {
                Some(sections) => sections.duplicate(),
                None => error_map(),
            },
            None => error_map(),
        }
    }

    /// The translations of one file, in the current language and in the
    /// fallback language. A file that a language lacks reads as a map with
    /// the single key `error`, bound to "Translation not found".
    pub fn translation(&self, translation_file: &str) -> (res: I18nPartial)
        ensures
            res.current_map() == file_or_error(self.langs(), self.current(), translation_file@),
            res.fallback_map() == file_or_error(self.langs(), self.fallback(), translation_file@),
    {
        proof {
            use_type_invariant(self);
        }
        let current_file = self.file_for(&self.current_lang, translation_file);
        let fallback_file = self.file_for(&self.fallback_lang, translation_file);
        I18nPartial {
            file_traductions: current_file,
            fallback_traduction: fallback_file,
            placeholders: self.placeholders.duplicate(),
        }
    }

    /// Whether `locale` is one of the selectable languages.
    fn is_available(&self, locale: &str) -> (res: bool)
        ensures
            res == self.available().contains(locale@),
    {
        let wanted = locale.to_owned();
        let mut i: usize = 0;
        while i < self.locale_folders_list.len()
            invariant
                i <= self.locale_folders_list@.len(),
                wanted@ == locale@,
                forall|j: int| 0 <= j < i ==> #[trigger] self.available()[j] != locale@,
            decreases self.locale_folders_list@.len() - i,
        {
            if self.locale_folders_list[i] == wanted {
                proof {
                    assert(self.available()[i as int] == locale@);
                }
                return true;
            }
            i = i + 1;
        }
        false
    }

    /// Sets the current language, if it is one of the selectable languages;
    /// otherwise nothing changes.
    pub fn set_lang(&mut self, locale: &str)
        ensures
            final(self).current() == if old(self).available().contains(locale@) {
                locale@
            } else {
                old(self).current()
            },
            final(self).fallback() == old(self).fallback(),
            final(self).langs() == old(self).langs(),
            final(self).available() == old(self).available(),
    {
        proof {
            use_type_invariant(&*self);
        }
        if self.is_available(locale) {
            self.current_lang = locale.to_owned();
        }
    }

    /// Sets the fallback language, if it is one of the selectable languages;
    /// otherwise nothing changes.
    pub fn set_fallback_lang(&mut self, locale: &str)
        ensures
            final(self).fallback() == if old(self).available().contains(locale@) {
                locale@
            } else {
                old(self).fallback()
            },
            final(self).current() == old(self).current(),
            final(self).langs() == old(self).langs(),
            final(self).available() == old(self).available(),
    {
        proof {
            use_type_invariant(&*self);
        }
        if self.is_available(locale) {
            self.fallback_lang = locale.to_owned();
        }
    }

    /// The current language code.
    pub fn get_lang(&self) -> (res: &str)
        ensures
            res@ == self.current(),
    {
        self.current_lang.as_str()
    }

    /// The selectable language codes: every language of the translations,
    /// each once.
    pub fn available_languages(&self) -> (res: &[String])
        ensures
            string_views(res@) == self.available(),
            lists_languages(string_views(res@), self.langs()),
    {
        proof {
            use_type_invariant(self);
        }
        self.locale_folders_list.as_slice()
    }
}

/// The map that stands for a file that could not be found.
fn error_map() -> (res: SectionMap)
    ensures
        res@ == error_file(),
{
    let mut map: SectionMap = KeyMap::new();
    map.insert("error".to_owned(), SectionValue::Text("Translation not found".to_owned()));
    map
}

/// The translations of one file, in the current and in the fallback
/// language, with lookups for texts, plurals, genders and placeholders.
pub struct I18nPartial {
    file_traductions: SectionMap,
    fallback_traduction: SectionMap,
    placeholders: CompiledPattern,
}

impl I18nPartial {
    #[verifier::type_invariant]
    closed spec fn pattern_is_placeholders(self) -> bool {
        self.placeholders.source() == placeholder_pattern()
    }

    /// The file in the current language.
    pub closed spec fn current_map(self) -> SectionMapView {
        self.file_traductions@
    }

    /// The file in the fallback language.
    pub closed spec fn fallback_map(self) -> SectionMapView {
        self.fallback_traduction@
    }

    /// The text for `key`, from the current language or else the fallback.
    pub open spec fn text_spec(self, key: Seq<char>) -> Seq<char> {
        or_default(text_lookup(self.current_map(), self.fallback_map(), key), "Missing translation"@)
    }

    /// The gendered text for `key`, from the current language or else the
    /// fallback.
    pub open spec fn gender_spec(self, key: Seq<char>, gender: Seq<char>) -> Seq<char> {
        or_default(nested_lookup(self.current_map(), self.fallback_map(), key, gender), "Missing gender translation"@)
    }

    /// The plural text for `key` and `count`.
    pub open spec fn plural_spec(self, key: Seq<char>, count: nat) -> Seq<char> {
        match plural_template(self.current_map(), self.fallback_map(), key, count) {
            Some(t) => filled(t, seq![decimal_spec(count)]),
            None => "Missing plural translation"@,
        }
    }

    /// The text bound to `key` in a section map, if it is a text.
    fn text_of(map: &SectionMap, key: &str) -> (res: Option<String>)
        ensures
            match res {
                Some(s) => text_in(map@, key@) == Some(s@),
                None => text_in(map@, key@) is None,
            },
    {
        match map.get(key) {
            Some(SectionValue::Text(s)) => Some(s.clone()),
            _ => None,
        }
    }

    /// The nested text bound to `key` and `sub` in a section map, if any.
    fn nested_of(map: &SectionMap, key: &str, sub: &str) -> (res: Option<String>)
        ensures
            match res {
                Some(s) => nested_in(map@, key@, sub@) == Some(s@),
                None => nested_in(map@, key@, sub@) is None,
            },
    {
        match map.get(key) {
            Some(SectionValue::Nested(m)) => match m.get(sub) {
                Some(s) => Some(s.clone()),
                None => None,
            },
            _ => None,
        }
    }

    fn get_text_value(&self, key: &str) -> (res: Option<String>)
        ensures
            match res {
                Some(s) => text_lookup(self.current_map(), self.fallback_map(), key@) == Some(s@),
                None => text_lookup(self.current_map(), self.fallback_map(), key@) is None,
            },
    {
        match Self::text_of(&self.file_traductions, key) {
            Some(s) => Some(s),
            None => Self::text_of(&self.fallback_traduction, key),
        }
    }

    fn get_nested_value(&self, key: &str, nested_key: &str) -> (res: Option<String>)
        ensures
            match res {
                Some(s) => nested_lookup(self.current_map(), self.fallback_map(), key@, nested_key@) == Some(s@),
                None => nested_lookup(self.current_map(), self.fallback_map(), key@, nested_key@) is None,
            },
    {
        match Self::nested_of(&self.file_traductions, key, nested_key) {
            Some(s) => Some(s),
            None => Self::nested_of(&self.fallback_traduction, key, nested_key),
        }
    }

    fn replace_placeholders(&self, template: &str, args: &[String]) -> (res: String)
        ensures
            res@ == filled(template@, string_views(args@)),
            !has_double_brace(template@) ==> res@ == template@,
    {
        proof {
            use_type_invariant(self);
        }
        replace_with(&self.placeholders, template, args)
    }

    /// The text for `key`: the current language's if it has a text for the
    /// key, else the fallback language's, else "Missing translation".
    pub fn t(&self, key: &str) -> (res: String)
        ensures
            res@ == self.text_spec(key@),
    {
        match self.get_text_value(key) {
            Some(s) => s,
            None => "Missing translation".to_owned(),
        }
    }

    /// The text for `key` with its placeholders replaced by `args`, in order;
    /// a text without `{{` comes out unchanged.
    pub fn t_with_arg(&self, key: &str, args: &[String]) -> (res: String)
        ensures
            res@ == filled(self.text_spec(key@), string_views(args@)),
            !has_double_brace(self.text_spec(key@)) ==> res@ == self.text_spec(key@),
    {
        let template = self.t(key);
        self.replace_placeholders(template.as_str(), args)
    }

    /// The plural form of `key` for `count`, tried in this order: the exact
    /// count ("0", "1", ...), the plural category ("zero", "one", "two",
    /// "few" for 3 to 10, "many"), the basic category ("one" or "other"), and
    /// "many". The template's placeholders are replaced by the count. Without
    /// any of these forms the result is "Missing plural translation".
    pub fn t_with_plural(&self, key: &str, count: usize) -> (res: String)
        ensures
            res@ == self.plural_spec(key@, count as nat),
            (match plural_template(self.current_map(), self.fallback_map(), key@, count as nat) {
                Some(template) => !has_double_brace(template) ==> res@ == template,
                None => true,
            }),
    {
        let count_str = decimal_string(count);
        let mut args: Vec<String> = Vec::new();
        args.push(count_str.clone());
        proof {
            assert(string_views(args@) =~= seq![decimal_spec(count as nat)]);
        }
        match self.get_nested_value(key, count_str.as_str()) {
            Some(template) => {
                return self.replace_placeholders(template.as_str(), args.as_slice());
            },
            None => {},
        }
        let plural_key = plural_key_of(count);
        match self.get_nested_value(key, plural_key) {
            Some(template) => {
                return self.replace_placeholders(template.as_str(), args.as_slice());
            },
            None => {},
        }
        let basic_key = if count == 1 {
            "one"
        } else {
            "other"
        };
        match self.get_nested_value(key, basic_key) {
            Some(template) => {
                return self.replace_placeholders(template.as_str(), args.as_slice());
            },
            None => {},
        }
        match self.get_nested_value(key, "many") {
            Some(template) => self.replace_placeholders(template.as_str(), args.as_slice()),
            None => "Missing plural translation".to_owned(),
        }
    }

    /// The gendered form of `key`: the nested text under `gender`, from the
    /// current language or else the fallback, else "Missing gender
    /// translation".
    pub fn t_with_gender(&self, key: &str, gender: &str) -> (res: String)
        ensures
            res@ == self.gender_spec(key@, gender@),
    {
        match self.get_nested_value(key, gender) {
            Some(s) => s,
            None => "Missing gender translation".to_owned(),
        }
    }

    /// The gendered form of `key` with its placeholders replaced by `args`.
    pub fn t_with_gender_and_arg(&self, key: &str, gender: &str, args: &[String]) -> (res: String)
        ensures
            res@ == filled(self.gender_spec(key@, gender@), string_views(args@)),
            !has_double_brace(self.gender_spec(key@, gender@)) ==> res@ == self.gender_spec(key@, gender@),
    {
        let template = self.t_with_gender(key, gender);
        self.replace_placeholders(template.as_str(), args)
    }
}

/// The plural category of a count, as a key.
pub fn plural_key_of(count: usize) -> (res: &'static str)
    ensures
        res@ == plural_category(count as nat),
{
    if count == 0 {
        "zero"
    } else if count == 1 {
        "one"
    } else if count == 2 {
        "two"
    } else if count <= 10 {
        "few"
    } else {
        "many"
    }
}

} // verus!
