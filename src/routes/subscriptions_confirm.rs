use vstd::prelude::*;
use vstd::string::StringExecFns;

use crate::store::{StoreError, StoreView, SubscriberStore, SubscriptionStatus};
use crate::text::{contains_forbidden_characters, count_graphemes, grapheme_count, has_forbidden, trim, trim_of};
use crate::token::TOKEN_LENGTH;

verus! {

/// Why a confirmation was refused.
#[derive(Debug)]
pub enum ConfirmError {
    /// The token is malformed or was never issued; the two are not told apart.
    UnknownToken,
    /// The store failed; the text says what was being done.
    UnexpectedError(String),
}

impl ConfirmError {
    /// The HTTP status that the error is answered with.
    pub fn status_code(&self) -> (r: u16)
        ensures
            r == (match self {
                ConfirmError::UnknownToken => 401u16,
                ConfirmError::UnexpectedError(_) => 500u16,
            }),
    {
        match self {
            ConfirmError::UnknownToken => 401,
            ConfirmError::UnexpectedError(_) => 500,
        }
    }
}

/// The query of a confirmation link.
pub struct Parameters {
    pub subscription_token: String,
}

/// A token is looked up only when something is left of it after trimming,
/// what is left has exactly `TOKEN_LENGTH` grapheme clusters, and it holds none
/// of the characters `/ ( ) " < > \ { }`.
pub open spec fn token_accepted(s: Seq<char>) -> bool {
    &&& trim_of(s).len() > 0
    &&& grapheme_count(trim_of(s)) == TOKEN_LENGTH
    &&& !has_forbidden(s)
}

/// The token check, given `trimmed`, the token with white space trimmed, and
/// `graphemes`, the number of grapheme clusters in `trimmed`.
pub fn token_checks_pass(s: &str, trimmed: &str, graphemes: usize) -> (r: bool)
    ensures
        r == (trimmed@.len() > 0 && graphemes == TOKEN_LENGTH && !has_forbidden(s@)),
{
    let is_empty_or_whitespace = trimmed.is_empty();
    let invalid_length = graphemes != TOKEN_LENGTH;
    let contains_forbidden = contains_forbidden_characters(s);
    !(is_empty_or_whitespace || invalid_length || contains_forbidden)
}

pub fn token_is_valid(s: &str) -> (r: Result<(), ConfirmError>)
    ensures
        r is Ok <==> token_accepted(s@),
        r is Err ==> r->Err_0 is UnknownToken,
{
    let trimmed = trim(s);
    if token_checks_pass(s, trimmed, count_graphemes(trimmed)) {
        Ok(())
    } else {
        Err(ConfirmError::UnknownToken)
    }
}

/// Marks the subscriber `subscriber_id` confirmed; an id that no subscriber
/// has is not an error and changes nothing.
pub fn confirm_subscriber(store: &mut SubscriberStore, subscriber_id: u64) -> (r: Result<(), StoreError>)
    requires
        old(store)@.wf(),
    ensures
        final(store)@.wf(),
        r is Ok,
        final(store)@ == old(store)@.confirmed(subscriber_id),
{
    store.confirm(subscriber_id)
}

/// Whether visiting the link with `token` confirms someone.
pub open spec fn confirmation_succeeds(s: StoreView, token: Seq<char>) -> bool {
    token_accepted(token) && s.token_owner(token) is Some
}

/// The store after the link with `token` is visited.
pub open spec fn after_confirmation(s: StoreView, token: Seq<char>) -> StoreView {
    if confirmation_succeeds(s, token) {
        s.confirmed(s.token_owner(token)->0)
    } else {
        s
    }
}

/// Handles a visit of a confirmation link: the token is checked, resolved to
/// its subscriber, and that subscriber confirmed.
pub fn confirm_subscription(store: &mut SubscriberStore, token: &str) -> (r: Result<(), ConfirmError>)
    requires
        old(store)@.wf(),
    ensures
        final(store)@.wf(),
        r is Ok <==> confirmation_succeeds(old(store)@, token@),
        r is Err ==> r->Err_0 is UnknownToken,
        final(store)@ == after_confirmation(old(store)@, token@),
{
    if let Err(e) = token_is_valid(token) {
        return Err(e);
    }
    let id = match store.lookup_subscriber_by_token(token) {
        Some(id) => id,
        None => return Err(ConfirmError::UnknownToken),
    };
    match confirm_subscriber(store, id) {
        Ok(()) => Ok(()),
        Err(_) => Err(
            ConfirmError::UnexpectedError(
                String::from_str("Failed to update the subscriber's status to `confirmed`."),
            ),
        ),
    }
}


/// Visiting the same confirmation link twice: the first visit confirms the
/// subscriber, the second succeeds as well and changes nothing.
pub proof fn lemma_confirm_twice(s: StoreView, token: Seq<char>)
    requires
        s.wf(),
        confirmation_succeeds(s, token),
    ensures
        ({
            let s1 = after_confirmation(s, token);
            let id = s.token_owner(token)->0;
            &&& s1.wf()
            &&& s1.subscribers[id as int].status == SubscriptionStatus::Confirmed
            &&& confirmation_succeeds(s1, token)
            &&& after_confirmation(s1, token) == s1
        }),
{
    let id = s.token_owner(token)->0;
    s.lemma_owner_exists(token);
    let s1 = after_confirmation(s, token);
    assert(s1.tokens == s.tokens);
    assert(s1.confirmed(id).subscribers =~= s1.subscribers);
    assert(s1.confirmed(id) =~= s1);
    assert forall|i: int, j: int|
        0 <= i < s1.subscribers.len() && 0 <= j < s1.subscribers.len() && i != j
            implies #[trigger] s1.subscribers[i].email != #[trigger] s1.subscribers[j].email by {
        assert(s1.subscribers[i].email == s.subscribers[i].email);
        assert(s1.subscribers[j].email == s.subscribers[j].email);
    }
    assert forall|i: int| 0 <= i < s1.subscribers.len() implies #[trigger] s1.subscribers[i].id == i by {
        assert(s1.subscribers[i].id == s.subscribers[i].id);
    }
}

/// The text of an error followed by its chain of causes, one per line.
pub open spec fn chain_text(message: Seq<char>, causes: Seq<Seq<char>>) -> Seq<char>
    decreases causes.len(),
{
    if causes.len() == 0 {
        message + "\n\n"@
    } else {
        chain_text(message, causes.drop_last()) + "Caused by:\n\t"@ + causes.last() + "\n"@
    }
}

/// Renders an error whose text is `message`, caused by `causes` in order.
pub fn error_chain_fmt(message: &str, causes: &Vec<String>) -> (r: String)
    ensures
        r@ == chain_text(message@, causes@.map_values(|c: String| c@)),
{
    let ghost cs = causes@.map_values(|c: String| c@);
    let mut out = String::from_str(message);
    out.append("\n\n");
    let mut i: usize = 0;
    while i < causes.len()
        invariant
            i <= causes.len(),
            cs == causes@.map_values(|c: String| c@),
            out@ == chain_text(message@, cs.take(i as int)),
        decreases causes.len() - i,
    {
        proof {
            assert(cs.take(i + 1).drop_last() == cs.take(i as int));
            assert(cs.take(i + 1).last() == causes@[i as int]@);
        }
        out.append("Caused by:\n\t");
        out.append(causes[i].as_str());
        out.append("\n");
        i = i + 1;
    }
    assert(cs.take(i as int) == cs);
    out
}

} // verus!
