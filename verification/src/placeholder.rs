//! Placeholder replacement: a template is split around its `{{..}}`
//! placeholders, and the pieces are joined again with the arguments in
//! between.

use vstd::prelude::*;

use crate::keymap::string_views;

verus! {

/// `regex::Regex`, a compiled regular expression, carried as an opaque value.
#[verifier::external_type_specification]
#[verifier::external_body]
pub struct ExRegex(regex::Regex);

/// `regex::Error`, why a pattern was refused, carried as an opaque value.
#[verifier::external_type_specification]
#[verifier::external_body]
pub struct ExRegexError(regex::Error);

/// Whether `regex::Regex::new` accepts the pattern (it refuses invalid
/// syntax, and patterns that would exceed the default size limit).
pub uninterp spec fn regex_compiles(pattern: Seq<char>) -> bool;

/// The pieces that `regex::Regex::split` cuts a haystack into, for a regex
/// compiled from `pattern`: the parts of the haystack between matches.
pub uninterp spec fn regex_split(pattern: Seq<char>, haystack: Seq<char>) -> Seq<Seq<char>>;

/// The pattern of a placeholder: `{{`, a run of word characters, `}}`.
pub open spec fn placeholder_pattern() -> Seq<char> {
    "\\{\\{(\\w*)\\}\\}"@
}

/// What went wrong in the library.
#[derive(Debug)]
pub enum I18nError {
    /// The placeholder pattern was refused by the regex engine.
    InvalidPlaceholderPattern,
    /// A translation text is not valid JSON; the parser's message.
    InvalidJson(String),
}

/// Whether a text holds `{{` somewhere, where a placeholder could start.
pub open spec fn has_double_brace(text: Seq<char>) -> bool {
    exists|i: int| 0 <= i < text.len() - 1 && #[trigger] text[i] == '{' && text[i + 1] == '{'
}

/// A compiled regex together with the pattern it was compiled from.
pub struct CompiledPattern {
    re: regex::Regex,
    source: String,
}

impl CompiledPattern {
    /// The pattern this regex was compiled from.
    pub closed spec fn source(&self) -> Seq<char> {
        self.source@
    }

    /// Compiles `pattern` with `regex::Regex::new`. Claimed: the result is
    /// `Ok` exactly when the regex crate accepts the pattern, and then it
    /// records the pattern it was compiled from.
    #[verifier::external_body]
    fn compile(pattern: &str) -> (res: Result<CompiledPattern, regex::Error>)
        ensures
            res is Ok <==> regex_compiles(pattern@),
            res matches Ok(c) ==> c.source() == pattern@,
    {
        match regex::Regex::new(pattern) {
            Ok(re) => Ok(CompiledPattern { re, source: pattern.to_string() }),
            Err(e) => Err(e),
        }
    }

    /// Cuts `haystack` with `regex::Regex::split`, each piece copied into a
    /// `String`. Claimed: the pieces are the named split of the haystack by
    /// this pattern, and there is at least one (an empty haystack gives one
    /// empty piece, as the regex crate's documentation shows). A haystack
    /// in which the regex has no match is a single piece; the placeholder
    /// pattern starts with a literal `{{`, so it has no match in a haystack
    /// without `{{`.
    #[verifier::external_body]
    fn split(&self, haystack: &str) -> (res: Vec<String>)
        ensures
            string_views(res@) == regex_split(self.source(), haystack@),
            res@.len() >= 1,
            self.source() == placeholder_pattern() && !has_double_brace(haystack@) ==> string_views(res@)
                == seq![haystack@],
    {
        let mut pieces = Vec::new();
        for piece in self.re.split(haystack) {
            pieces.push(piece.to_string());
        }
        pieces
    }

    /// A copy made with `regex::Regex::clone`. Claimed: the copy stands for
    /// the same pattern.
    #[verifier::external_body]
    pub(crate) fn duplicate(&self) -> (res: CompiledPattern)
        ensures
            res.source() == self.source(),
    {
        CompiledPattern { re: self.re.clone(), source: self.source.clone() }
    }

    /// The compiled placeholder pattern `{{word}}`.
    pub fn placeholders() -> (res: Result<CompiledPattern, I18nError>)
        ensures
            res is Ok <==> regex_compiles(placeholder_pattern()),
            res matches Ok(c) ==> c.source() == placeholder_pattern(),
    {
        match Self::compile("\\{\\{(\\w*)\\}\\}") {
            Ok(c) => Ok(c),
            Err(_) => Err(I18nError::InvalidPlaceholderPattern),
        }
    }
}

/// The text that the pieces of a template and the arguments make: the
/// pieces in order, with argument `i` standing between piece `i` and piece
/// `i + 1` (the place of the `i`-th placeholder). A placeholder without an
/// argument is dropped, and arguments beyond the placeholders are ignored.
pub open spec fn fill_spec(parts: Seq<Seq<char>>, args: Seq<Seq<char>>) -> Seq<char>
    decreases parts.len(),
{
    if parts.len() == 0 {
        Seq::empty()
    } else if parts.len() == 1 {
        parts[0]
    } else {
        let i = parts.len() - 1;
        fill_spec(parts.drop_last(), args) + (if i - 1 < args.len() {
            args[i - 1]
        } else {
            Seq::empty()
        }) + parts[i]
    }
}

/// Joins the pieces of a template with the arguments: argument `i` goes
/// between piece `i` and piece `i + 1`; extra arguments are ignored.
pub fn fill_placeholders(parts: &Vec<String>, args: &[String]) -> (res: String)
    ensures
        res@ == fill_spec(string_views(parts@), string_views(args@)),
{
    let ghost ps = string_views(parts@);
    let ghost ars = string_views(args@);
    let mut res = String::new();
    let mut i: usize = 0;
    while i < parts.len()
        invariant
            i <= parts@.len(),
            ps == string_views(parts@),
            ars == string_views(args@),
            res@ == fill_spec(ps.take(i as int), ars),
        decreases parts@.len() - i,
    {
        proof {
            assert(ps.take(i + 1).drop_last() =~= ps.take(i as int));
            assert(ps.take(i + 1)[i as int] == parts@[i as int]@);
        }
        let ghost before = res@;
        if i > 0 && i - 1 < args.len() {
            proof {
                assert(ars[i - 1] == args@[i - 1]@);
            }
            res.append(args[i - 1].as_str());
        }
        res.append(parts[i].as_str());
        proof {
            if i == 0 {
                assert(before =~= Seq::<char>::empty());
            }
            assert(res@ =~= fill_spec(ps.take(i + 1), ars));
        }
        i = i + 1;
    }
    proof {
        assert(ps.take(i as int) =~= ps);
    }
    res
}

/// Replaces the placeholders of `template` with `args`: the template is
/// split around the pattern's matches and the pieces are joined with the
/// arguments in between.
pub fn replace_with(pattern: &CompiledPattern, template: &str, args: &[String]) -> (res: String)
    ensures
        res@ == fill_spec(regex_split(pattern.source(), template@), string_views(args@)),
        pattern.source() == placeholder_pattern() && !has_double_brace(template@) ==> res@ == template@,
{
    let parts = pattern.split(template);
    fill_placeholders(&parts, args)
}

/// The ten decimal digits.
pub open spec fn digit_chars() -> Seq<char> {
    seq!['0', '1', '2', '3', '4', '5', '6', '7', '8', '9']
}

/// The decimal notation of `n`, without leading zeros.
pub open spec fn decimal_spec(n: nat) -> Seq<char>
    decreases n,
{
    if n < 10 {
        seq![digit_chars()[n as int]]
    } else {
        decimal_spec(n / 10).push(digit_chars()[(n % 10) as int])
    }
}

/// The one-character text of a digit.
fn digit_str(d: usize) -> (res: &'static str)
    requires
        d < 10,
    ensures
        res@ == seq![digit_chars()[d as int]],
{
    proof {
        reveal_strlit("0");
        reveal_strlit("1");
        reveal_strlit("2");
        reveal_strlit("3");
        reveal_strlit("4");
        reveal_strlit("5");
        reveal_strlit("6");
        reveal_strlit("7");
        reveal_strlit("8");
        reveal_strlit("9");
    }
    if d == 0 {
        "0"
    } else if d == 1 {
        "1"
    } else if d == 2 {
        "2"
    } else if d == 3 {
        "3"
    } else if d == 4 {
        "4"
    } else if d == 5 {
        "5"
    } else if d == 6 {
        "6"
    } else if d == 7 {
        "7"
    } else if d == 8 {
        "8"
    } else {
        "9"
    }
}

/// The decimal notation of `n`, as `n.to_string()` writes it.
pub fn decimal_string(n: usize) -> (res: String)
    ensures
        res@ == decimal_spec(n as nat),
    decreases n,
{
    if n < 10 {
        let mut s = String::new();
        s.append(digit_str(n));
        s
    } else {
        let mut s = decimal_string(n / 10);
        s.append(digit_str(n % 10));
        s
    }
}

} // verus!
