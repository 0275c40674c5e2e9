//! A JSON document as the loaders read it, and how its objects become
//! translation maps: strings become texts, objects of strings become nested
//! maps, and everything else is skipped.

use vstd::prelude::*;

use crate::keymap::KeyMap;
use crate::placeholder::I18nError;
use crate::section::{FileMap, LangMap, LangMapView, SectionMap, SectionMapView, SectionValue, SectionView};

verus! {

/// A JSON value. Numbers are kept as the text of the number.
#[derive(Debug)]
pub enum JsonValue {
    Null,
    Bool(bool),
    Number(String),
    Str(String),
    Array(Vec<JsonValue>),
    /// The members of an object, in the order the parser gives them.
    Object(Vec<(String, JsonValue)>),
}

/// `serde_json::Value`, a parsed JSON value, carried as an opaque value.
#[verifier::external_type_specification]
#[verifier::external_body]
pub struct ExSerdeValue(serde_json::Value);

/// `serde_json::Error`, why a text is not JSON, carried as an opaque value.
#[verifier::external_type_specification]
#[verifier::external_body]
pub struct ExSerdeError(serde_json::Error);

/// The JSON value that `serde_json::from_str` reads from a text, or `None`
/// when it refuses the text.
pub uninterp spec fn json_parse(text: Seq<char>) -> Option<JsonValue>;

/// Changes a `serde_json::Value` into a [`JsonValue`], variant by variant
/// (a number becomes its `Display` text, an object its members in the map's
/// order). Only [`parse_json`]'s body uses it; nothing is claimed of it.
#[verifier::external_body]
fn json_from_value(value: serde_json::Value) -> JsonValue {
    match value {
        serde_json::Value::Null => JsonValue::Null,
        serde_json::Value::Bool(b) => JsonValue::Bool(b),
        serde_json::Value::Number(n) => JsonValue::Number(n.to_string()),
        serde_json::Value::String(s) => JsonValue::Str(s),
        serde_json::Value::Array(items) => JsonValue::Array(items.into_iter().map(json_from_value).collect()),
        serde_json::Value::Object(m) => JsonValue::Object(m.into_iter().map(|(k, v)| (k, json_from_value(v))).collect()),
    }
}

/// Parses `text` with `serde_json::from_str` into a `serde_json::Value`,
/// given back as a [`JsonValue`]. Claimed: the result is the named parse of
/// the text, and an error exactly when the parser refuses the text.
#[verifier::external_body]
fn parse_json(text: &str) -> (res: Result<JsonValue, serde_json::Error>)
    ensures
        match res {
            Ok(v) => json_parse(text@) == Some(v),
            Err(_) => json_parse(text@) is None,
        },
{
    match serde_json::from_str::<serde_json::Value>(text) {
        Ok(v) => Ok(json_from_value(v)),
        Err(e) => Err(e),
    }
}

/// The message of a `serde_json::Error`, as its `Display` writes it.
/// Nothing is claimed of the text.
#[verifier::external_body]
fn json_error_text(e: &serde_json::Error) -> String {
    e.to_string()
}

/// The nested map that the members of an object give: every member whose
/// value is a string, later members overriding earlier ones.
pub open spec fn nested_spec(members: Seq<(String, JsonValue)>) -> Map<Seq<char>, Seq<char>>
    decreases members.len(),
{
    if members.len() == 0 {
        Map::empty()
    } else {
        let m = nested_spec(members.drop_last());
        match members.last().1 {
            JsonValue::Str(s) => m.insert(members.last().0@, s@),
            _ => m,
        }
    }
}

/// What a single JSON value in a translation file stands for, if anything.
pub open spec fn section_entry_spec(v: JsonValue) -> Option<SectionView> {
    match v {
        JsonValue::Str(s) => Some(SectionView::Text(s@)),
        JsonValue::Object(members) => Some(SectionView::Nested(nested_spec(members@))),
        _ => None,
    }
}

/// The section map that the members of a translation file's object give.
pub open spec fn sections_spec(members: Seq<(String, JsonValue)>) -> SectionMapView
    decreases members.len(),
{
    if members.len() == 0 {
        Map::empty()
    } else {
        let m = sections_spec(members.drop_last());
        match section_entry_spec(members.last().1) {
            Some(e) => m.insert(members.last().0@, e),
            None => m,
        }
    }
}

/// The section map of a whole translation file: empty unless it is an object.
pub open spec fn section_file_spec(v: JsonValue) -> SectionMapView {
    match v {
        JsonValue::Object(members) => sections_spec(members@),
        _ => Map::empty(),
    }
}

/// The files of one language: every member becomes a file, whose sections
/// come from the member's value.
pub open spec fn files_spec(members: Seq<(String, JsonValue)>) -> Map<Seq<char>, SectionMapView>
    decreases members.len(),
{
    if members.len() == 0 {
        Map::empty()
    } else {
        files_spec(members.drop_last()).insert(members.last().0@, section_file_spec(members.last().1))
    }
}

/// The files of one language's value: empty unless it is an object.
pub open spec fn file_map_spec(v: JsonValue) -> Map<Seq<char>, SectionMapView> {
    match v {
        JsonValue::Object(members) => files_spec(members@),
        _ => Map::empty(),
    }
}

/// The languages of the members of the top-level object.
pub open spec fn langs_members_spec(members: Seq<(String, JsonValue)>) -> LangMapView
    decreases members.len(),
{
    if members.len() == 0 {
        Map::empty()
    } else {
        langs_members_spec(members.drop_last()).insert(members.last().0@, file_map_spec(members.last().1))
    }
}

/// All translations in a JSON document: empty unless it is an object.
pub open spec fn langs_spec(v: JsonValue) -> LangMapView {
    match v {
        JsonValue::Object(members) => langs_members_spec(members@),
        _ => Map::empty(),
    }
}

/// The translations of a bundled document: none unless it is an object with
/// at least one member.
pub open spec fn bundled_langs_spec(v: JsonValue) -> LangMapView {
    match v {
        JsonValue::Object(members) => if members.len() == 0 {
            Map::empty()
        } else {
            langs_members_spec(members@)
        },
        _ => Map::empty(),
    }
}

/// The nested map of an object's members.
fn nested_map(members: &Vec<(String, JsonValue)>) -> (res: KeyMap<String>)
    ensures
        res@ == nested_spec(members@),
{
    let mut res: KeyMap<String> = KeyMap::new();
    let mut i: usize = 0;
    while i < members.len()
        invariant
            i <= members@.len(),
            res@ == nested_spec(members@.take(i as int)),
        decreases members@.len() - i,
    {
        proof {
            assert(members@.take(i + 1).drop_last() =~= members@.take(i as int));
        }
        match &members[i].1 {
            JsonValue::Str(s) => {
                res.insert(members[i].0.clone(), s.clone());
            },
            _ => {},
        }
        i = i + 1;
    }
    proof {
        assert(members@.take(i as int) =~= members@);
    }
    res
}

/// The section map of the members of a translation file's object.
fn sections_map(members: &Vec<(String, JsonValue)>) -> (res: SectionMap)
    ensures
        res@ == sections_spec(members@),
{
    let mut res: SectionMap = KeyMap::new();
    let mut i: usize = 0;
    while i < members.len()
        invariant
            i <= members@.len(),
            res@ == sections_spec(members@.take(i as int)),
        decreases members@.len() - i,
    {
        proof {
            assert(members@.take(i + 1).drop_last() =~= members@.take(i as int));
        }
        match &members[i].1 {
            JsonValue::Str(s) => {
                res.insert(members[i].0.clone(), SectionValue::Text(s.clone()));
            },
            JsonValue::Object(nested) => {
                let m = nested_map(nested);
                res.insert(members[i].0.clone(), SectionValue::Nested(m));
            },
            _ => {},
        }
        i = i + 1;
    }
    proof {
        assert(members@.take(i as int) =~= members@);
    }
    res
}

/// Turns the JSON of one translation file into its section map: each string
/// member becomes a text, each object member a nested map of its string
/// members, and other members are skipped. A value that is not an object
/// gives an empty map.
pub fn parse_section_file(value: &JsonValue) -> (res: SectionMap)
    ensures
        res@ == section_file_spec(*value),
{
    match value {
        JsonValue::Object(members) => sections_map(members),
        _ => KeyMap::new(),
    }
}

/// The files of one language's JSON value.
fn parse_file_map(value: &JsonValue) -> (res: FileMap)
    ensures
        res@ == file_map_spec(*value),
{
    let mut res: FileMap = KeyMap::new();
    match value {
        JsonValue::Object(members) => {
            let mut i: usize = 0;
            while i < members.len()
                invariant
                    i <= members@.len(),
                    res@ == files_spec(members@.take(i as int)),
                decreases members@.len() - i,
            {
                proof {
                    assert(members@.take(i + 1).drop_last() =~= members@.take(i as int));
                }
                let sections = parse_section_file(&members[i].1);
                res.insert(members[i].0.clone(), sections);
                i = i + 1;
            }
            proof {
                assert(members@.take(i as int) =~= members@);
            }
        },
        _ => {},
    }
    res
}

/// Turns a JSON document of the form `{ lang: { file: { key: value } } }`
/// into all translations. Every language and every file of the document is
/// kept (with an empty map where the JSON is not an object); within a file,
/// strings become texts, objects become nested maps of their string members,
/// and other values are skipped.
pub fn parse_translation_value(value: &JsonValue) -> (res: LangMap)
    ensures
        res@ == langs_spec(*value),
{
    let mut res: LangMap = KeyMap::new();
    match value {
        JsonValue::Object(members) => {
            let mut i: usize = 0;
            while i < members.len()
                invariant
                    i <= members@.len(),
                    res@ == langs_members_spec(members@.take(i as int)),
                decreases members@.len() - i,
            {
                proof {
                    assert(members@.take(i + 1).drop_last() =~= members@.take(i as int));
                }
                let files = parse_file_map(&members[i].1);
                res.insert(members[i].0.clone(), files);
                i = i + 1;
            }
            proof {
                assert(members@.take(i as int) =~= members@);
            }
        },
        _ => {},
    }
    res
}

/// The translations of the document bundled at build time: none when the
/// document is not an object or is an empty object, otherwise as
/// [`parse_translation_value`] reads it.
pub fn bundled_langs(value: &JsonValue) -> (res: LangMap)
    ensures
        res@ == bundled_langs_spec(*value),
{
    match value {
        JsonValue::Object(members) => {
            if members.len() == 0 {
                KeyMap::new()
            } else {
                parse_translation_value(value)
            }
        },
        _ => KeyMap::new(),
    }
}

/// Reads the JSON text of one translation file into its section map, as
/// [`parse_section_file`] does; a text that is not JSON is an error.
pub fn parse_translation_file(text: &str) -> (res: Result<SectionMap, I18nError>)
    ensures
        match json_parse(text@) {
            None => res is Err,
            Some(v) => res matches Ok(m) && m@ == section_file_spec(v),
        },
{
    match parse_json(text) {
        Ok(v) => Ok(parse_section_file(&v)),
        Err(e) => Err(I18nError::InvalidJson(json_error_text(&e))),
    }
}

/// Reads the bundled JSON text into its translations, as [`bundled_langs`]
/// does; a text that is not JSON is an error.
pub fn load_bundled_data(bundle: &str) -> (res: Result<LangMap, I18nError>)
    ensures
        match json_parse(bundle@) {
            None => res is Err,
            Some(v) => res matches Ok(m) && m@ == bundled_langs_spec(v),
        },
{
    match parse_json(bundle) {
        Ok(v) => Ok(bundled_langs(&v)),
        Err(e) => Err(I18nError::InvalidJson(json_error_text(&e))),
    }
}

} // verus!
