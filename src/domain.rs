use vstd::prelude::*;

use crate::text::{count_graphemes, grapheme_count, trim, trim_of};

verus! {

broadcast use vstd::string::axiom_spec_iter;

/// Longest accepted subscriber name, in grapheme clusters.
pub const MAX_NAME_GRAPHEMES: usize = 256;

/// A name is accepted when something is left of it after trimming white
/// space and it has at most `MAX_NAME_GRAPHEMES` grapheme clusters.
pub open spec fn is_valid_name(s: Seq<char>) -> bool {
    &&& trim_of(s).len() > 0
    &&& grapheme_count(s) <= MAX_NAME_GRAPHEMES
}

/// An address is accepted when it has exactly one `@`, with a non-empty local
/// part before it and a non-empty domain after it, and no space or control
/// character.
pub open spec fn is_valid_email(s: Seq<char>) -> bool {
    &&& s.len() > 0
    &&& s[0] != '@'
    &&& s[s.len() - 1] != '@'
    &&& exists|p: int|
        0 <= p < s.len() && #[trigger] s[p] == '@' && forall|j: int|
            0 <= j < s.len() && j != p ==> s[j] != '@'
    &&& forall|j: int| 0 <= j < s.len() ==> (#[trigger] s[j]) > ' '
}

/// The name check, given `trimmed`, the name with white space trimmed, and
/// `graphemes`, the number of grapheme clusters in the name.
pub fn name_checks_pass(trimmed: &str, graphemes: usize) -> (r: bool)
    ensures
        r == (trimmed@.len() > 0 && graphemes <= MAX_NAME_GRAPHEMES),
{
    let is_empty_or_whitespace = trimmed.is_empty();
    let too_long = graphemes > MAX_NAME_GRAPHEMES;
    !(is_empty_or_whitespace || too_long)
}

/// A subscriber's display name, as given, once validated.
pub struct SubscriberName {
    name: String,
}

impl View for SubscriberName {
    type V = Seq<char>;

    closed spec fn view(&self) -> Seq<char> {
        self.name@
    }
}

impl SubscriberName {
    #[verifier::type_invariant]
    spec fn inv(&self) -> bool {
        is_valid_name(self.name@)
    }

    /// Accepts `s` when it is a valid name, and returns the reason otherwise.
    pub fn parse(s: String) -> (r: Result<SubscriberName, String>)
        ensures
            r is Ok <==> is_valid_name(s@),
            r matches Ok(n) ==> n@ == s@,
    {
        let trimmed = trim(s.as_str());
        let graphemes = count_graphemes(s.as_str());
        if !name_checks_pass(trimmed, graphemes) {
            Err(String::from_str("invalid subscriber name"))
        } else {
            Ok(SubscriberName { name: s })
        }
    }

    pub fn as_str(&self) -> (r: &str)
        ensures
            r@ == self@,
            is_valid_name(r@),
    {
        proof {
            use_type_invariant(self);
        }
        self.name.as_str()
    }
}

/// A subscriber's email address, once validated.
pub struct SubscriberEmail {
    email: String,
}

impl View for SubscriberEmail {
    type V = Seq<char>;

    closed spec fn view(&self) -> Seq<char> {
        self.email@
    }
}

/// Whether `s` has the shape of an email address (see `is_valid_email`).
pub fn is_email_shaped(s: &str) -> (r: bool)
    ensures
        r == is_valid_email(s@),
{
    let mut ats: usize = 0;
    let mut printable = true;
    let mut first_is_at = false;
    let mut last_is_at = false;
    let mut seen_any = false;
    let ghost mut pos: int = 0;
    let ghost mut pos2: int = 0;
    for c in it: s.chars()
        invariant
            it.seq() == s@,
            ats <= 2,
            ats == 0 ==> forall|j: int| 0 <= j < it.index() ==> s@[j] != '@',
            ats >= 1 ==> 0 <= pos < it.index() && s@[pos] == '@',
            ats == 1 ==> forall|j: int| 0 <= j < it.index() && j != pos ==> s@[j] != '@',
            ats == 2 ==> 0 <= pos2 < it.index() && pos2 != pos && s@[pos2] == '@',
            printable == forall|j: int| 0 <= j < it.index() ==> s@[j] > ' ',
            seen_any == (it.index() > 0),
            it.index() > 0 ==> first_is_at == (s@[0] == '@'),
            it.index() > 0 ==> last_is_at == (s@[it.index() - 1] == '@'),
    {
        let ghost idx = it.index();
        if c == '@' {
            if ats == 0 {
                proof {
                    pos = idx;
                }
                ats = 1;
            } else if ats == 1 {
                proof {
                    pos2 = idx;
                }
                ats = 2;
            }
        }
        if c <= ' ' {
            printable = false;
        }
        if !seen_any {
            first_is_at = c == '@';
            seen_any = true;
        }
        last_is_at = c == '@';
    }
    let r = seen_any && !first_is_at && !last_is_at && ats == 1 && printable;
    proof {
        if ats == 2 && s@.len() > 0 {
            assert forall|p: int|
                0 <= p < s@.len() && #[trigger] s@[p] == '@' implies !(forall|j: int|
                0 <= j < s@.len() && j != p ==> s@[j] != '@') by {
                if p == pos {
                    assert(s@[pos2] == '@');
                } else {
                    assert(s@[pos] == '@');
                }
            }
        }
        if ats == 1 {
            assert(s@[pos] == '@');
        }
    }
    r
}

impl SubscriberEmail {
    #[verifier::type_invariant]
    spec fn inv(&self) -> bool {
        is_valid_email(self.email@)
    }

    /// Accepts `s` when it has the shape of an email address, and returns the
    /// reason otherwise.
    pub fn parse(s: String) -> (r: Result<SubscriberEmail, String>)
        ensures
            r is Ok <==> is_valid_email(s@),
            r matches Ok(e) ==> e@ == s@,
    {
        if is_email_shaped(s.as_str()) {
            Ok(SubscriberEmail { email: s })
        } else {
            Err(String::from_str("invalid subscriber email"))
        }
    }

    pub fn as_str(&self) -> (r: &str)
        ensures
            r@ == self@,
            is_valid_email(r@),
    {
        proof {
            use_type_invariant(self);
        }
        self.email.as_str()
    }
}

} // verus!
