use unicode_segmentation::UnicodeSegmentation;
use vstd::prelude::*;

verus! {

broadcast use vstd::string::axiom_spec_iter;

/// The text that `str::trim` leaves of `s`.
pub uninterp spec fn trim_of(s: Seq<char>) -> Seq<char>;

/// The number of extended grapheme clusters in `s`.
pub uninterp spec fn grapheme_count(s: Seq<char>) -> nat;

/// Relies on `str::trim`: leading and trailing white space removed.
#[verifier::external_body]
pub(crate) fn trim(s: &str) -> (r: &str)
    ensures
        r@ == trim_of(s@),
        s@.len() == 0 ==> r@.len() == 0,
{
    s.trim()
}

/// Relies on `UnicodeSegmentation::graphemes(s, true).count()`: the number of
/// extended grapheme clusters; an empty string has none.
#[verifier::external_body]
pub(crate) fn count_graphemes(s: &str) -> (r: usize)
    ensures
        r as nat == grapheme_count(s@),
        s@.len() == 0 ==> r == 0,
{
    s.graphemes(true).count()
}

/// Relies on `String::push`: appends one character.
#[verifier::external_body]
pub(crate) fn push_char(s: &mut String, c: char)
    ensures
        final(s)@ == old(s)@.push(c),
{
    s.push(c)
}

pub open spec fn is_forbidden(c: char) -> bool {
    c == '/' || c == '(' || c == ')' || c == '"' || c == '<' || c == '>' || c == '\\' || c == '{'
        || c == '}'
}

pub open spec fn has_forbidden(s: Seq<char>) -> bool {
    exists|i: int| 0 <= i < s.len() && is_forbidden(#[trigger] s[i])
}

pub fn contains_forbidden_characters(s: &str) -> (r: bool)
    ensures
        r == has_forbidden(s@),
{
    let mut found = false;
    for c in it: s.chars()
        invariant
            it.seq() == s@,
            found == exists|i: int| 0 <= i < it.index() && is_forbidden(#[trigger] s@[i]),
    {
        if c == '/' || c == '(' || c == ')' || c == '"' || c == '<' || c == '>' || c == '\\'
            || c == '{' || c == '}' {
            found = true;
        }
    }
    found
}

} // verus!
