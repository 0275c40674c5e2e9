//! What the loaders make of what they read: the translations and the list of
//! selectable languages, or the error translations when reading failed.

use vstd::prelude::*;
use vstd::string::StrSliceExecFns;

use crate::keymap::{string_views, KeyMap};
use crate::section::{FileMap, LangMap, LangMapView, SectionMap, SectionValue, SectionView, Translations};

verus! {

/// The translations used when none could be loaded: English, with a file
/// `error` whose key `error` reads "Translation Error".
pub open spec fn error_langs() -> LangMapView {
    Map::empty().insert(
        "en"@,
        Map::empty().insert("error"@, Map::empty().insert("error"@, SectionView::Text("Translation Error"@))),
    )
}

/// `locales` lists every language of `langs` exactly once.
pub open spec fn lists_languages(locales: Seq<Seq<char>>, langs: LangMapView) -> bool {
    &&& locales.no_duplicates()
    &&& locales.len() == langs.len()
    &&& forall|k: Seq<char>| langs.contains_key(k) <==> #[trigger] locales.contains(k)
}

/// The translations to fall back on when loading failed, with English as
/// the only selectable language.
pub fn create_error_translations() -> (res: (Translations, Vec<String>))
    ensures
        res.0.langs@ == error_langs(),
        string_views(res.1@) == seq!["en"@],
{
    let mut section_map: SectionMap = KeyMap::new();
    section_map.insert("error".to_owned(), SectionValue::Text("Translation Error".to_owned()));
    let mut file_map: FileMap = KeyMap::new();
    file_map.insert("error".to_owned(), section_map);
    let mut lang_map: LangMap = KeyMap::new();
    lang_map.insert("en".to_owned(), file_map);
    let mut locales: Vec<String> = Vec::new();
    locales.push("en".to_owned());
    proof {
        assert(string_views(locales@) =~= seq!["en"@]);
    }
    (Translations { langs: lang_map }, locales)
}

/// Loaded translations, with their languages as the selectable ones.
pub fn translations_from_langs(langs: LangMap) -> (res: (Translations, Vec<String>))
    ensures
        res.0.langs@ == langs@,
        string_views(res.1@) == langs.key_order(),
        lists_languages(string_views(res.1@), langs@),
{
    let locales = langs.keys();
    (Translations { langs }, locales)
}

/// The outcome of reading the translations from the filesystem: what was
/// read, or the error translations when reading failed.
pub fn load_filesystem_translations(loaded: Option<LangMap>) -> (res: (Translations, Vec<String>))
    ensures
        match loaded {
            Some(langs) => res.0.langs@ == langs@ && lists_languages(string_views(res.1@), langs@),
            None => res.0.langs@ == error_langs() && string_views(res.1@) == seq!["en"@],
        },
{
    match loaded {
        Some(langs) => translations_from_langs(langs),
        None => create_error_translations(),
    }
}

/// What to do with the translations bundled at build time.
pub enum BundledStep {
    /// Use these translations and languages.
    Loaded(Translations, Vec<String>),
    /// The bundle is empty: read the `messages` folder instead.
    UseFilesystem,
}

/// The decision on the bundled translations: when they could not be read,
/// the error translations; when they are empty, reading from the filesystem;
/// otherwise the bundled translations with their languages.
pub fn load_bundled_translations(bundled: Option<LangMap>) -> (res: BundledStep)
    ensures
        match bundled {
            None => res matches BundledStep::Loaded(t, l) && t.langs@ == error_langs()
                && string_views(l@) == seq!["en"@],
            Some(langs) => if langs@.len() == 0 {
                res is UseFilesystem
            } else {
                res matches BundledStep::Loaded(t, l) && t.langs@ == langs@
                    && lists_languages(string_views(l@), langs@)
            },
        },
{
    match bundled {
        None => {
            let (t, l) = create_error_translations();
            BundledStep::Loaded(t, l)
        },
        Some(langs) => {
            if langs.is_empty() {
                BundledStep::UseFilesystem
            } else {
                let (t, l) = translations_from_langs(langs);
                BundledStep::Loaded(t, l)
            }
        },
    }
}

/// The position of the last `.` in a file name, or -1 when it has none.
pub open spec fn last_dot(name: Seq<char>) -> int
    decreases name.len(),
{
    if name.len() == 0 {
        -1
    } else if name.last() == '.' {
        name.len() - 1
    } else {
        last_dot(name.drop_last())
    }
}

/// The key that a directory entry is read under: for a regular file whose
/// extension (the text after the last `.`, where that `.` is not the name's
/// first character) is `json`, its stem (the text before that `.`);
/// otherwise the entry is skipped.
pub open spec fn translation_file_key_spec(is_file: bool, name: Seq<char>) -> Option<Seq<char>> {
    let d = last_dot(name);
    if is_file && d > 0 && name.subrange(d + 1, name.len() as int) == "json"@ {
        Some(name.subrange(0, d))
    } else {
        None
    }
}

/// The last `.` is the `.` at `d` when no `.` follows it, and there is
/// none when no character is a `.`.
proof fn lemma_last_dot(name: Seq<char>, d: int)
    requires
        -1 <= d < name.len(),
        d >= 0 ==> name[d] == '.',
        forall|j: int| d < j < name.len() ==> #[trigger] name[j] != '.',
    ensures
        last_dot(name) == d,
    decreases name.len(),
{
    if name.len() > 0 && d < name.len() - 1 {
        assert(name[name.len() - 1] != '.');
        assert forall|j: int| d < j < name.drop_last().len() implies #[trigger] name.drop_last()[j] != '.' by {
            assert(name.drop_last()[j] == name[j]);
        }
        if d >= 0 {
            assert(name.drop_last()[d] == name[d]);
        }
        lemma_last_dot(name.drop_last(), d);
    }
}

/// The key of a directory entry in a language folder, as the filesystem
/// loader reads it: a regular `.json` file is keyed by its stem, and any
/// other entry is skipped. The stem and extension follow the rules of
/// `std::path::Path::file_stem` and `extension`.
pub fn translation_file_key(is_file: bool, file_name: &str) -> (res: Option<String>)
    ensures
        match res {
            Some(k) => translation_file_key_spec(is_file, file_name@) == Some(k@),
            None => translation_file_key_spec(is_file, file_name@) is None,
        },
{
    if !is_file {
        return None;
    }
    let n = file_name.unicode_len();
    let mut i: usize = n;
    while i > 0
        invariant
            i <= n,
            n == file_name@.len(),
            forall|j: int| i <= j < n ==> #[trigger] file_name@[j] != '.',
        ensures
            i == 0 || file_name@[i - 1] == '.',
        decreases i,
    {
        if file_name.get_char(i - 1) == '.' {
            break;
        }
        i = i - 1;
    }
    if i <= 1 {
        proof {
            if i == 1 {
                lemma_last_dot(file_name@, 0);
            } else {
                lemma_last_dot(file_name@, -1);
            }
        }
        return None;
    }
    let d = i - 1;
    proof {
        lemma_last_dot(file_name@, d as int);
    }
    let extension = file_name.substring_char(d + 1, n).to_owned();
    if extension == "json".to_owned() {
        Some(file_name.substring_char(0, d).to_owned())
    } else {
        None
    }
}

} // verus!
