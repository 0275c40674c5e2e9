//! The values that a translation file binds its keys to, and the maps that
//! hold all translations.

use vstd::prelude::*;

use crate::keymap::{Duplicate, KeyMap};

verus! {

/// A value in a translation file: a plain text, or a nested map from
/// sub-keys (plural forms, genders, ...) to texts.
#[derive(Debug)]
pub enum SectionValue {
    /// A simple text value.
    Text(String),
    /// A nested map of key-value pairs (for plurals, genders, etc.).
    Nested(KeyMap<String>),
}

/// The mathematical value of a [`SectionValue`].
pub ghost enum SectionView {
    Text(Seq<char>),
    Nested(Map<Seq<char>, Seq<char>>),
}

impl View for SectionValue {
    type V = SectionView;

    open spec fn view(&self) -> SectionView {
        match self {
            SectionValue::Text(s) => SectionView::Text(s@),
            SectionValue::Nested(m) => SectionView::Nested(m@),
        }
    }
}

impl Duplicate for SectionValue {
    fn duplicate(&self) -> (res: SectionValue) {
        match self {
            SectionValue::Text(s) => SectionValue::Text(s.clone()),
            SectionValue::Nested(m) => SectionValue::Nested(m.duplicate()),
        }
    }
}

/// The translation keys of one file, bound to their values.
pub type SectionMap = KeyMap<SectionValue>;

/// The files of one language, by file name.
pub type FileMap = KeyMap<SectionMap>;

/// All languages, by language code.
pub type LangMap = KeyMap<FileMap>;

/// The view of a [`SectionMap`].
pub type SectionMapView = Map<Seq<char>, SectionView>;

/// The view of a [`LangMap`]: language code, then file name, then key.
pub type LangMapView = Map<Seq<char>, Map<Seq<char>, SectionMapView>>;

/// All translations, organised as languages, then files, then keys.
#[derive(Debug)]
pub struct Translations {
    /// Map of language codes to their translation data.
    pub langs: LangMap,
}

} // verus!
