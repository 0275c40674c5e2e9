//! Properties of the library as a whole, stated over the specifications that
//! the functions' contracts use.

use vstd::prelude::*;

use crate::i18n::{
    basic_category, error_file, file_or_error, nested_in, nested_lookup, plural_category,
    plural_template, text_in, text_lookup, I18nPartial,
};
use crate::json::{file_map_spec, files_spec, langs_members_spec, nested_spec, section_file_spec, sections_spec, JsonValue};
use crate::keymap::distinct_keys;
use crate::placeholder::{decimal_spec, digit_chars, fill_spec};
use crate::section::{LangMapView, SectionMapView, SectionView};

verus! {

/// A text of the current language wins over the fallback language.
pub proof fn law_text_prefers_current(p: I18nPartial, key: Seq<char>)
    requires
        text_in(p.current_map(), key) is Some,
    ensures
        p.text_spec(key) == text_in(p.current_map(), key)->0,
{
}

/// A key that the current language lacks as a text is read from the
/// fallback language.
pub proof fn law_text_falls_back(p: I18nPartial, key: Seq<char>)
    requires
        text_in(p.current_map(), key) is None,
        text_in(p.fallback_map(), key) is Some,
    ensures
        p.text_spec(key) == text_in(p.fallback_map(), key)->0,
{
}

/// A key that neither language has as a text reads "Missing translation".
pub proof fn law_text_missing(p: I18nPartial, key: Seq<char>)
    requires
        text_in(p.current_map(), key) is None,
        text_in(p.fallback_map(), key) is None,
    ensures
        p.text_spec(key) == "Missing translation"@,
{
}

/// A nested form of the current language wins over the fallback language,
/// and a form it lacks is read from the fallback.
pub proof fn law_nested_falls_back(cur: SectionMapView, fb: SectionMapView, key: Seq<char>, sub: Seq<char>)
    ensures
        nested_in(cur, key, sub) is Some ==> nested_lookup(cur, fb, key, sub) == nested_in(cur, key, sub),
        nested_in(cur, key, sub) is None ==> nested_lookup(cur, fb, key, sub) == nested_in(fb, key, sub),
{
}

/// A form for the exact count is used before any plural category.
pub proof fn law_plural_exact_count_first(cur: SectionMapView, fb: SectionMapView, key: Seq<char>, count: nat)
    requires
        nested_lookup(cur, fb, key, decimal_spec(count)) is Some,
    ensures
        plural_template(cur, fb, key, count) == nested_lookup(cur, fb, key, decimal_spec(count)),
{
}

/// Without an exact-count form, the plural category comes next, then the
/// basic category, then `many`.
pub proof fn law_plural_priority(cur: SectionMapView, fb: SectionMapView, key: Seq<char>, count: nat)
    requires
        nested_lookup(cur, fb, key, decimal_spec(count)) is None,
    ensures
        nested_lookup(cur, fb, key, plural_category(count)) is Some ==> plural_template(cur, fb, key, count)
            == nested_lookup(cur, fb, key, plural_category(count)),
        nested_lookup(cur, fb, key, plural_category(count)) is None ==> (nested_lookup(
            cur,
            fb,
            key,
            basic_category(count),
        ) is Some ==> plural_template(cur, fb, key, count) == nested_lookup(cur, fb, key, basic_category(count))),
        nested_lookup(cur, fb, key, plural_category(count)) is None && nested_lookup(cur, fb, key, basic_category(count))
            is None ==> plural_template(cur, fb, key, count) == nested_lookup(cur, fb, key, "many"@),
{
}

/// Counts from 3 to 10 take the `few` form's category, and counts above 10
/// the `many` one.
pub proof fn law_plural_categories(count: nat)
    ensures
        3 <= count <= 10 ==> plural_category(count) == "few"@,
        count > 10 ==> plural_category(count) == "many"@,
        count == 1 ==> plural_category(count) == basic_category(count),
{
}

/// A language that has the file gives that file; a missing language or file
/// reads as the error map, whose key `error` says "Translation not found".
pub proof fn law_file_lookup(langs: LangMapView, lang: Seq<char>, file: Seq<char>)
    ensures
        langs.contains_key(lang) && langs[lang].contains_key(file) ==> file_or_error(langs, lang, file)
            == langs[lang][file],
        !(langs.contains_key(lang) && langs[lang].contains_key(file)) ==> text_in(
            file_or_error(langs, lang, file),
            "error"@,
        ) == Some("Translation not found"@),
{
    assert(error_file().contains_key("error"@));
}

/// Without arguments, placeholders are dropped: the pieces are joined as
/// they are.
pub proof fn law_fill_without_args(parts: Seq<Seq<char>>)
    ensures
        fill_spec(parts, Seq::empty()) == parts.fold_left(Seq::<char>::empty(), |acc: Seq<char>, p: Seq<char>| acc + p),
    decreases parts.len(),
{
    if parts.len() == 1 {
        assert(parts.drop_last() =~= Seq::<Seq<char>>::empty());
        assert(parts.drop_last().fold_left(Seq::<char>::empty(), |acc: Seq<char>, p: Seq<char>| acc + p)
            =~= Seq::<char>::empty());
        assert(Seq::<char>::empty() + parts[0] =~= parts[0]);
    } else if parts.len() > 1 {
        law_fill_without_args(parts.drop_last());
        assert(fill_spec(parts, Seq::empty()) =~= fill_spec(parts.drop_last(), Seq::empty()) + parts.last());
    }
}

/// A template without placeholders comes out unchanged, whatever the
/// arguments.
pub proof fn law_fill_no_placeholder(piece: Seq<char>, args: Seq<Seq<char>>)
    ensures
        fill_spec(seq![piece], args) == piece,
{
}

/// Only as many arguments are used as there are placeholders (one fewer
/// than the pieces); later ones are ignored.
pub proof fn law_fill_extra_args(parts: Seq<Seq<char>>, args: Seq<Seq<char>>)
    requires
        parts.len() >= 1,
        parts.len() - 1 <= args.len(),
    ensures
        fill_spec(parts, args) == fill_spec(parts, args.take(parts.len() - 1)),
{
    law_fill_same_prefix(parts, args, args.take(parts.len() - 1));
}

/// Arguments past the placeholders do not matter.
proof fn law_fill_same_prefix(parts: Seq<Seq<char>>, a: Seq<Seq<char>>, b: Seq<Seq<char>>)
    requires
        parts.len() >= 1,
        a.len() >= parts.len() - 1,
        b.len() >= parts.len() - 1,
        forall|i: int| 0 <= i < parts.len() - 1 ==> a[i] == b[i],
    ensures
        fill_spec(parts, a) == fill_spec(parts, b),
    decreases parts.len(),
{
    if parts.len() > 1 {
        law_fill_same_prefix(parts.drop_last(), a, b);
    }
}

/// Every language of a parsed document is a member of its top-level object,
/// and every member is a language.
pub proof fn law_parse_keeps_languages(members: Seq<(String, JsonValue)>, code: Seq<char>)
    ensures
        langs_members_spec(members).contains_key(code) <==> exists|i: int|
            0 <= i < members.len() && #[trigger] members[i].0@ == code,
    decreases members.len(),
{
    if members.len() > 0 {
        law_parse_keeps_languages(members.drop_last(), code);
        if langs_members_spec(members).contains_key(code) && members.last().0@ != code {
            let i = choose|i: int| 0 <= i < members.drop_last().len() && #[trigger] members.drop_last()[i].0@ == code;
            assert(members[i] == members.drop_last()[i]);
        }
        if members.last().0@ == code {
            assert(members[members.len() - 1].0@ == code);
        }
        if exists|i: int| 0 <= i < members.len() && #[trigger] members[i].0@ == code {
            let i = choose|i: int| 0 <= i < members.len() && #[trigger] members[i].0@ == code;
            if i < members.len() - 1 {
                assert(members.drop_last()[i] == members[i]);
            }
        }
    }
}

/// Every file of a language's object is kept, even one that is not an
/// object (it reads as empty).
pub proof fn law_parse_keeps_files(members: Seq<(String, JsonValue)>, name: Seq<char>)
    ensures
        files_spec(members).contains_key(name) <==> exists|i: int|
            0 <= i < members.len() && #[trigger] members[i].0@ == name,
    decreases members.len(),
{
    if members.len() > 0 {
        law_parse_keeps_files(members.drop_last(), name);
        if files_spec(members).contains_key(name) && members.last().0@ != name {
            let i = choose|i: int| 0 <= i < members.drop_last().len() && #[trigger] members.drop_last()[i].0@ == name;
            assert(members[i] == members.drop_last()[i]);
        }
        if members.last().0@ == name {
            assert(members[members.len() - 1].0@ == name);
        }
        if exists|i: int| 0 <= i < members.len() && #[trigger] members[i].0@ == name {
            let i = choose|i: int| 0 <= i < members.len() && #[trigger] members[i].0@ == name;
            if i < members.len() - 1 {
                assert(members.drop_last()[i] == members[i]);
            }
        }
    }
}

/// A text read from the current language is what the current language's
/// file binds the key to.
pub proof fn law_text_is_stored_text(cur: SectionMapView, fb: SectionMapView, key: Seq<char>, s: Seq<char>)
    requires
        cur.contains_key(key),
        cur[key] == SectionView::Text(s),
    ensures
        text_lookup(cur, fb, key) == Some(s),
{
}

/// With distinct language codes, a language's files are what its member's
/// value gives.
proof fn lemma_langs_member(members: Seq<(String, JsonValue)>, i: int)
    requires
        distinct_keys(members),
        0 <= i < members.len(),
    ensures
        langs_members_spec(members).contains_key(members[i].0@),
        langs_members_spec(members)[members[i].0@] == file_map_spec(members[i].1),
    decreases members.len(),
{
    if i < members.len() - 1 {
        let p = members.drop_last();
        assert(distinct_keys(p)) by {
            assert forall|a: int, b: int| 0 <= a < b < p.len() implies #[trigger] p[a].0@ != #[trigger] p[b].0@ by {
                assert(p[a] == members[a] && p[b] == members[b]);
            }
        }
        assert(p[i] == members[i]);
        lemma_langs_member(p, i);
        assert(members[i].0@ != members[members.len() - 1].0@);
    }
}

/// With distinct file names, a file's sections are what its member's value
/// gives.
proof fn lemma_files_member(members: Seq<(String, JsonValue)>, j: int)
    requires
        distinct_keys(members),
        0 <= j < members.len(),
    ensures
        files_spec(members).contains_key(members[j].0@),
        files_spec(members)[members[j].0@] == section_file_spec(members[j].1),
    decreases members.len(),
{
    if j < members.len() - 1 {
        let p = members.drop_last();
        assert(distinct_keys(p)) by {
            assert forall|a: int, b: int| 0 <= a < b < p.len() implies #[trigger] p[a].0@ != #[trigger] p[b].0@ by {
                assert(p[a] == members[a] && p[b] == members[b]);
            }
        }
        assert(p[j] == members[j]);
        lemma_files_member(p, j);
        assert(members[j].0@ != members[members.len() - 1].0@);
    }
}

/// Bundled and filesystem loading read a file alike: in a document whose
/// objects have distinct keys (as a parsed JSON object has), the sections
/// that the document gives for a language's file are what that file's JSON
/// gives when read on its own.
pub proof fn law_bundle_agrees_with_file_parse(
    members: Seq<(String, JsonValue)>,
    i: int,
    files: Vec<(String, JsonValue)>,
    j: int,
)
    requires
        distinct_keys(members),
        0 <= i < members.len(),
        members[i].1 == JsonValue::Object(files),
        distinct_keys(files@),
        0 <= j < files@.len(),
    ensures
        langs_members_spec(members).contains_key(members[i].0@),
        langs_members_spec(members)[members[i].0@].contains_key(files@[j].0@),
        langs_members_spec(members)[members[i].0@][files@[j].0@] == section_file_spec(files@[j].1),
{
    lemma_langs_member(members, i);
    lemma_files_member(files@, j);
}

/// The decimal text of a count is not empty and starts with a digit.
proof fn lemma_decimal_starts_with_digit(n: nat)
    ensures
        decimal_spec(n).len() >= 1,
        digit_chars().contains(decimal_spec(n)[0]),
    decreases n,
{
    if n < 10 {
        assert(digit_chars()[n as int] == decimal_spec(n)[0]);
    } else {
        lemma_decimal_starts_with_digit(n / 10);
        assert(decimal_spec(n)[0] == decimal_spec(n / 10)[0]);
    }
}

/// A key whose only plural form is `other` gives that form for every count
/// but 1, whichever plural category the count falls in (English plural
/// rules: "one" versus "other").
pub proof fn law_plural_other_for_counts_but_one(
    cur: SectionMapView,
    fb: SectionMapView,
    key: Seq<char>,
    forms: Map<Seq<char>, Seq<char>>,
    count: nat,
)
    requires
        cur.contains_key(key),
        cur[key] == SectionView::Nested(forms),
        !fb.contains_key(key),
        forms.contains_key("other"@),
        forall|k: Seq<char>| #[trigger] forms.contains_key(k) ==> k == "other"@,
        count != 1,
    ensures
        plural_template(cur, fb, key, count) == Some(forms["other"@]),
{
    reveal_strlit("other");
    reveal_strlit("zero");
    reveal_strlit("one");
    reveal_strlit("two");
    reveal_strlit("few");
    reveal_strlit("many");
    lemma_decimal_starts_with_digit(count);
    assert(decimal_spec(count) != "other"@) by {
        if decimal_spec(count) == "other"@ {
            assert(decimal_spec(count)[0] == 'o');
            assert(!digit_chars().contains('o')) by {
                assert forall|i: int| 0 <= i < digit_chars().len() implies digit_chars()[i] != 'o' by {}
            }
        }
    }
    assert(!forms.contains_key(decimal_spec(count)));
    assert(plural_category(count).len() != 5);
    assert(!forms.contains_key(plural_category(count)));
}

/// A gendered form that the current language lacks (the key is missing, or
/// bound to a text) is read from the fallback language.
pub proof fn law_gender_falls_back(
    p: I18nPartial,
    key: Seq<char>,
    gender: Seq<char>,
    forms: Map<Seq<char>, Seq<char>>,
)
    requires
        !p.current_map().contains_key(key) || p.current_map()[key] is Text,
        p.fallback_map().contains_key(key),
        p.fallback_map()[key] == SectionView::Nested(forms),
        forms.contains_key(gender),
    ensures
        p.gender_spec(key, gender) == forms[gender],
{
}

/// A gendered form of the current language wins over the fallback.
pub proof fn law_gender_prefers_current(
    p: I18nPartial,
    key: Seq<char>,
    gender: Seq<char>,
    forms: Map<Seq<char>, Seq<char>>,
)
    requires
        p.current_map().contains_key(key),
        p.current_map()[key] == SectionView::Nested(forms),
        forms.contains_key(gender),
    ensures
        p.gender_spec(key, gender) == forms[gender],
{
}

/// A gendered form that neither language has reads "Missing gender
/// translation".
pub proof fn law_gender_missing(p: I18nPartial, key: Seq<char>, gender: Seq<char>)
    requires
        !p.current_map().contains_key(key) || !(p.current_map()[key] matches SectionView::Nested(f)
            && f.contains_key(gender)),
        !p.fallback_map().contains_key(key) || !(p.fallback_map()[key] matches SectionView::Nested(f)
            && f.contains_key(gender)),
    ensures
        p.gender_spec(key, gender) == "Missing gender translation"@,
{
}

/// Every placeholder that has an argument gets it: with at least two pieces
/// and an argument for the last placeholder, the text is the text of the
/// earlier pieces, then that argument, then the last piece.
pub proof fn law_fill_last_placeholder(parts: Seq<Seq<char>>, args: Seq<Seq<char>>)
    requires
        parts.len() >= 2,
        parts.len() - 2 < args.len(),
    ensures
        fill_spec(parts, args) == fill_spec(parts.drop_last(), args) + args[parts.len() - 2] + parts.last(),
{
}

/// With an argument for every placeholder, the text is the pieces and the
/// arguments taken in turn: piece 0, argument 0, piece 1, argument 1, ...
pub proof fn law_fill_interleaves(parts: Seq<Seq<char>>, args: Seq<Seq<char>>, k: int)
    requires
        1 <= k < parts.len(),
        parts.len() - 1 <= args.len(),
    ensures
        fill_spec(parts.take(k + 1), args) == fill_spec(parts.take(k), args) + args[k - 1] + parts[k],
{
    assert(parts.take(k + 1).drop_last() =~= parts.take(k));
}

/// Three pieces and three arguments: each of the two placeholders gets its
/// argument, and the third argument is ignored.
pub proof fn law_fill_two_placeholders(a: Seq<char>, b: Seq<char>, c: Seq<char>, x: Seq<char>, y: Seq<char>, z: Seq<char>)
    ensures
        fill_spec(seq![a, b, c], seq![x, y, z]) == a + x + b + y + c,
{
    let args = seq![x, y, z];
    assert(seq![a, b, c].drop_last() =~= seq![a, b]);
    assert(seq![a, b].drop_last() =~= seq![a]);
    assert(fill_spec(seq![a], args) == a);
    assert(fill_spec(seq![a, b], args) =~= a + x + b);
    assert(fill_spec(seq![a, b, c], args) =~= a + x + b + y + c);
}

/// Four pieces: each of the three placeholders gets its argument.
pub proof fn law_fill_three_placeholders(
    a: Seq<char>,
    b: Seq<char>,
    c: Seq<char>,
    d: Seq<char>,
    x: Seq<char>,
    y: Seq<char>,
    z: Seq<char>,
)
    ensures
        fill_spec(seq![a, b, c, d], seq![x, y, z]) == a + x + b + y + c + z + d,
{
    let args = seq![x, y, z];
    assert(seq![a, b, c, d].drop_last() =~= seq![a, b, c]);
    assert(seq![a, b, c].drop_last() =~= seq![a, b]);
    assert(seq![a, b].drop_last() =~= seq![a]);
    assert(fill_spec(seq![a], args) == a);
    assert(fill_spec(seq![a, b], args) =~= a + x + b);
    assert(fill_spec(seq![a, b, c], args) =~= a + x + b + y + c);
    assert(fill_spec(seq![a, b, c, d], args) =~= a + x + b + y + c + z + d);
}

/// With distinct keys, a member whose value is an object of strings is read
/// as a nested map of those strings, however many members the object has.
proof fn lemma_sections_member(members: Seq<(String, JsonValue)>, i: int)
    requires
        distinct_keys(members),
        0 <= i < members.len(),
        members[i].1 is Object || members[i].1 is Str,
    ensures
        sections_spec(members).contains_key(members[i].0@),
        members[i].1 matches JsonValue::Object(ms) ==> sections_spec(members)[members[i].0@]
            == SectionView::Nested(nested_spec(ms@)),
        members[i].1 matches JsonValue::Str(t) ==> sections_spec(members)[members[i].0@] == SectionView::Text(t@),
    decreases members.len(),
{
    if i < members.len() - 1 {
        let p = members.drop_last();
        assert(distinct_keys(p)) by {
            assert forall|a: int, b: int| 0 <= a < b < p.len() implies #[trigger] p[a].0@ != #[trigger] p[b].0@ by {
                assert(p[a] == members[a] && p[b] == members[b]);
            }
        }
        assert(p[i] == members[i]);
        lemma_sections_member(p, i);
        assert(members[i].0@ != members[members.len() - 1].0@);
    }
}

/// With distinct keys, a string member of an object is one of its forms.
proof fn lemma_nested_member(members: Seq<(String, JsonValue)>, j: int)
    requires
        distinct_keys(members),
        0 <= j < members.len(),
        members[j].1 is Str,
    ensures
        members[j].1 matches JsonValue::Str(t) ==> nested_spec(members).contains_key(members[j].0@)
            && nested_spec(members)[members[j].0@] == t@,
    decreases members.len(),
{
    if j < members.len() - 1 {
        let p = members.drop_last();
        assert(distinct_keys(p)) by {
            assert forall|a: int, b: int| 0 <= a < b < p.len() implies #[trigger] p[a].0@ != #[trigger] p[b].0@ by {
                assert(p[a] == members[a] && p[b] == members[b]);
            }
        }
        assert(p[j] == members[j]);
        lemma_nested_member(p, j);
        assert(members[j].0@ != members[members.len() - 1].0@);
    }
}

/// Every object member of a translation file becomes a nested map holding
/// each of its string members, whatever the number of its members, and
/// every string member becomes a text (keys distinct, as in a parsed JSON
/// object).
pub proof fn law_file_objects_become_forms(
    members: Seq<(String, JsonValue)>,
    i: int,
    forms: Vec<(String, JsonValue)>,
    j: int,
    text: String,
)
    requires
        distinct_keys(members),
        0 <= i < members.len(),
        members[i].1 == JsonValue::Object(forms),
        distinct_keys(forms@),
        0 <= j < forms@.len(),
        forms@[j].1 == JsonValue::Str(text),
    ensures
        sections_spec(members).contains_key(members[i].0@),
        sections_spec(members)[members[i].0@] == SectionView::Nested(nested_spec(forms@)),
        nested_spec(forms@).contains_key(forms@[j].0@),
        nested_spec(forms@)[forms@[j].0@] == text@,
{
    lemma_sections_member(members, i);
    lemma_nested_member(forms@, j);
}

/// Every string member of a translation file becomes a text.
pub proof fn law_file_strings_become_texts(members: Seq<(String, JsonValue)>, i: int, text: String)
    requires
        distinct_keys(members),
        0 <= i < members.len(),
        members[i].1 == JsonValue::Str(text),
    ensures
        sections_spec(members).contains_key(members[i].0@),
        sections_spec(members)[members[i].0@] == SectionView::Text(text@),
{
    lemma_sections_member(members, i);
}

/// A language that lacks a file (or is missing) reads it as a map with the
/// single key `error`, bound to "Translation not found", and nothing else:
/// no other language's copy of the file shows through.
pub proof fn law_missing_file_is_only_error(langs: LangMapView, lang: Seq<char>, file: Seq<char>, key: Seq<char>)
    requires
        !(langs.contains_key(lang) && langs[lang].contains_key(file)),
    ensures
        file_or_error(langs, lang, file).contains_key(key) <==> key == "error"@,
        file_or_error(langs, lang, file)["error"@] == SectionView::Text("Translation not found"@),
        file_or_error(langs, lang, file).len() == 1,
{
    let m = file_or_error(langs, lang, file);
    assert(m == Map::<Seq<char>, SectionView>::empty().insert("error"@, SectionView::Text("Translation not found"@)));
    assert(m.dom() =~= Set::<Seq<char>>::empty().insert("error"@));
    assert(Set::<Seq<char>>::empty().insert("error"@).len() == 1);
}

} // verus!
