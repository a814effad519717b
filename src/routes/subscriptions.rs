use vstd::prelude::*;
use vstd::string::StringExecFns;

use crate::domain::{is_valid_email, is_valid_name, SubscriberEmail, SubscriberName};
use crate::store::{lemma_first_owner_push, StoreError, StoreView, SubscriberStore, SubscriptionStatus};
use crate::routes::subscriptions_confirm::{after_confirmation, confirmation_succeeds, token_accepted};
use crate::token::{generate_token, is_token_shaped};

verus! {

/// A validated sign-up.
pub struct NewSubscriber {
    pub email: SubscriberEmail,
    pub name: SubscriberName,
}

impl NewSubscriber {
    /// Validates the name and the email of a sign-up form.
    pub fn parse(name: String, email: String) -> (r: Result<NewSubscriber, String>)
        ensures
            r is Ok <==> is_valid_name(name@) && is_valid_email(email@),
            r matches Ok(n) ==> n.name@ == name@ && n.email@ == email@,
    {
        let name = SubscriberName::parse(name)?;
        let email = SubscriberEmail::parse(email)?;
        Ok(NewSubscriber { email, name })
    }
}

/// Why a sign-up was refused.
#[derive(Debug)]
pub enum SubscribeError {
    /// The name or the email is not acceptable.
    ValidationError(String),
    /// The store failed.
    StoreError(StoreError),
    /// The confirmation email could not be sent.
    EmailError(String),
    /// No token could be generated.
    UnexpectedError(String),
}

impl SubscribeError {
    /// The HTTP status that the error is answered with.
    pub fn status_code(&self) -> (r: u16)
        ensures
            r == (match self {
                SubscribeError::ValidationError(_) => 400u16,
                _ => 500u16,
            }),
    {
        match self {
            SubscribeError::ValidationError(_) => 400,
            _ => 500,
        }
    }
}

/// The email that asks a new subscriber to confirm.
#[derive(Debug)]
pub struct ConfirmationEmail {
    pub recipient: String,
    pub subject: String,
    pub html_body: String,
    pub text_body: String,
}

pub open spec fn link_for(base_url: Seq<char>, token: Seq<char>) -> Seq<char> {
    base_url + "/subscriptions/confirm?subscription_token="@ + token
}

pub open spec fn html_for(link: Seq<char>) -> Seq<char> {
    "Welcome to our newsletter!<br />Click <a href=\""@ + link
        + "\">here</a> to confirm your subscription."@
}

pub open spec fn text_for(link: Seq<char>) -> Seq<char> {
    "Welcome to our newsletter!\nVisit "@ + link + " to confirm your subscription."@
}

/// `m` asks `email` to confirm through the link for `token`, in both bodies.
pub open spec fn is_confirmation_email(
    m: ConfirmationEmail,
    email: Seq<char>,
    base_url: Seq<char>,
    token: Seq<char>,
) -> bool {
    &&& m.recipient@ == email
    &&& m.subject@ == "Welcome!"@
    &&& m.html_body@ == html_for(link_for(base_url, token))
    &&& m.text_body@ == text_for(link_for(base_url, token))
}

/// The link that confirms the subscription `token` was issued for.
pub fn confirmation_link(base_url: &str, token: &str) -> (r: String)
    ensures
        r@ == link_for(base_url@, token@),
{
    let mut link = String::from_str(base_url);
    link.append("/subscriptions/confirm?subscription_token=");
    link.append(token);
    link
}

pub fn confirmation_email(recipient: &str, base_url: &str, token: &str) -> (m: ConfirmationEmail)
    ensures
        is_confirmation_email(m, recipient@, base_url@, token@),
{
    let link = confirmation_link(base_url, token);
    let mut html_body = String::from_str("Welcome to our newsletter!<br />Click <a href=\"");
    html_body.append(link.as_str());
    html_body.append("\">here</a> to confirm your subscription.");
    let mut text_body = String::from_str("Welcome to our newsletter!\nVisit ");
    text_body.append(link.as_str());
    text_body.append(" to confirm your subscription.");
    ConfirmationEmail {
        recipient: String::from_str(recipient),
        subject: String::from_str("Welcome!"),
        html_body,
        text_body,
    }
}

/// Records a validated sign-up with `token` and returns the email to send.
/// The subscriber row stays even when the token cannot be stored because it
/// was already issued.
pub fn submit_subscription(
    store: &mut SubscriberStore,
    new_subscriber: &NewSubscriber,
    token: &str,
    base_url: &str,
    subscribed_at: u64,
) -> (r: Result<ConfirmationEmail, SubscribeError>)
    requires
        old(store)@.wf(),
    ensures
        final(store)@.wf(),
        r is Ok <==> old(store)@.token_owner(token@) is None,
        r is Ok ==> final(store)@ == old(store)@.subscribed(
            new_subscriber.email@,
            new_subscriber.name@,
            token@,
            subscribed_at,
        ),
        r matches Ok(m) ==> is_confirmation_email(m, new_subscriber.email@, base_url@, token@),
        r is Err ==> (r matches Err(SubscribeError::StoreError(StoreError::DuplicateToken))),
        r is Err ==> final(store)@ == old(store)@.upserted(
            new_subscriber.email@,
            new_subscriber.name@,
            subscribed_at,
        ),
{
    let id = store.upsert_pending(&new_subscriber.email, &new_subscriber.name, subscribed_at);
    if let Err(e) = store.store_token(id, token) {
        return Err(SubscribeError::StoreError(e));
    }
    Ok(confirmation_email(new_subscriber.email.as_str(), base_url, token))
}

/// Handles a sign-up form: validates it, records the subscriber, issues a
/// fresh token and returns the confirmation email to send.
pub fn subscribe(
    store: &mut SubscriberStore,
    name: String,
    email: String,
    base_url: &str,
    subscribed_at: u64,
) -> (r: Result<ConfirmationEmail, SubscribeError>)
    requires
        old(store)@.wf(),
    ensures
        final(store)@.wf(),
        r matches Err(SubscribeError::ValidationError(_)) <==> !(is_valid_name(name@)
            && is_valid_email(email@)),
        r matches Err(SubscribeError::ValidationError(_)) ==> final(store)@ == old(store)@,
        r matches Err(SubscribeError::UnexpectedError(_)) ==> final(store)@ == old(store)@,
        r matches Err(SubscribeError::StoreError(e)) ==> e == StoreError::DuplicateToken
            && final(store)@ == old(store)@.upserted(email@, name@, subscribed_at),
        !(r matches Err(SubscribeError::EmailError(_))),
        r matches Ok(m) ==> exists|t: Seq<char>|
            is_token_shaped(t) && old(store)@.token_owner(t) is None
                && #[trigger] old(store)@.subscribed(email@, name@, t, subscribed_at) == final(store)@
                && is_confirmation_email(m, email@, base_url@, t),
{
    let new_subscriber = match NewSubscriber::parse(name, email) {
        Ok(n) => n,
        Err(e) => return Err(SubscribeError::ValidationError(e)),
    };
    let token = match generate_token() {
        Some(t) => t,
        None => return Err(
            SubscribeError::UnexpectedError(String::from_str("Failed to generate a token")),
        ),
    };
    submit_subscription(store, &new_subscriber, token.as_str(), base_url, subscribed_at)
}


/// What a sign-up answers once the confirmation email was handed to the
/// email service: success when it was delivered.
pub fn email_delivery_outcome(delivered: bool) -> (r: Result<(), SubscribeError>)
    ensures
        r is Ok <==> delivered,
        r is Err ==> r->Err_0 is EmailError,
{
    if delivered {
        Ok(())
    } else {
        Err(SubscribeError::EmailError(String::from_str("Failed to send a confirmation email.")))
    }
}


/// Right after a valid sign-up that succeeded (its token was not issued
/// before), the token leads to the subscriber with that email, and a read of
/// that row shows the email, `pending_confirmation` unless the subscriber had
/// confirmed before, and, for a new email, the name given.
pub proof fn lemma_sign_up_leaves_pending(
    s: StoreView,
    name: Seq<char>,
    email: Seq<char>,
    token: Seq<char>,
    at: u64,
)
    requires
        s.wf(),
        s.subscribers.len() < u64::MAX,
        is_valid_name(name),
        is_valid_email(email),
        s.token_owner(token) is None,
        s.status_of(email) != Some(SubscriptionStatus::Confirmed),
    ensures
        ({
            let s1 = s.subscribed(email, name, token, at);
            let id = s.upserted_id(email);
            &&& s1.token_owner(token) == Some(id)
            &&& s1.index_of_email(email) == id
            &&& s1.subscribers[id as int].email == email
            &&& s1.status_of(email) == Some(SubscriptionStatus::PendingConfirmation)
            &&& !s.has_email(email) ==> s1.subscribers[id as int].name == name
        }),
{
    s.lemma_subscribed(email, name, token, at);
}

/// Two sign-ups with one email that both succeeded (their tokens were not
/// issued before): the second adds no row, a single row holds the email, each
/// sign-up adds one token row, both tokens lead to that subscriber, and every
/// older token keeps its owner.
pub proof fn lemma_subscribing_twice(
    s: StoreView,
    first_name: Seq<char>,
    second_name: Seq<char>,
    email: Seq<char>,
    first_token: Seq<char>,
    second_token: Seq<char>,
    first_at: u64,
    second_at: u64,
)
    requires
        s.wf(),
        s.subscribers.len() < u64::MAX - 1,
        is_valid_name(first_name),
        is_valid_name(second_name),
        is_valid_email(email),
        s.token_owner(first_token) is None,
        s.subscribed(email, first_name, first_token, first_at).token_owner(second_token) is None,
    ensures
        ({
            let s1 = s.subscribed(email, first_name, first_token, first_at);
            let s2 = s1.subscribed(email, second_name, second_token, second_at);
            let id = s.upserted_id(email);
            &&& s1.wf()
            &&& s2.wf()
            &&& first_token != second_token
            &&& s2.subscribers == s1.subscribers
            &&& s2.subscribers.len() == s.subscribers.len() + if s.has_email(email) {
                0int
            } else {
                1int
            }
            &&& s2.has_email(email)
            &&& forall|i: int|
                0 <= i < s2.subscribers.len() && #[trigger] s2.subscribers[i].email == email ==> i
                    == id
            &&& s2.tokens.len() == s.tokens.len() + 2
            &&& s2.token_owner(first_token) == Some(id)
            &&& s2.token_owner(second_token) == Some(id)
            &&& forall|t: Seq<char>|
                t != first_token && t != second_token ==> #[trigger] s2.token_owner(t)
                    == s.token_owner(t)
        }),
{
    let id = s.upserted_id(email);
    let s1 = s.subscribed(email, first_name, first_token, first_at);
    s.lemma_subscribed(email, first_name, first_token, first_at);
    s1.lemma_upserted(email, second_name, second_at);
    s1.lemma_subscribed(email, second_name, second_token, second_at);
    let s2 = s1.subscribed(email, second_name, second_token, second_at);
    assert(s1.upserted(email, second_name, second_at) == s1);
    assert forall|t: Seq<char>|
        t != first_token && t != second_token implies #[trigger] s2.token_owner(t)
            == s.token_owner(t) by {
        assert(s2.token_owner(t) == s1.token_owner(t));
        assert(s1.token_owner(t) == s.token_owner(t));
    }
    assert forall|i: int|
        0 <= i < s2.subscribers.len() && #[trigger] s2.subscribers[i].email == email implies i
            == id by {
        if i != id {
            assert(s2.subscribers[id as int].email == email);
        }
    }
}

/// Following the link that a valid, successful sign-up sent confirms that
/// subscriber: a read of the row with that email then shows `confirmed`, and,
/// for a new email, the name and email given at sign-up.
pub proof fn lemma_sign_up_then_confirm(
    s: StoreView,
    name: Seq<char>,
    email: Seq<char>,
    token: Seq<char>,
    at: u64,
)
    requires
        s.wf(),
        s.subscribers.len() < u64::MAX,
        is_valid_name(name),
        is_valid_email(email),
        token_accepted(token),
        s.token_owner(token) is None,
    ensures
        ({
            let s1 = s.subscribed(email, name, token, at);
            let s2 = after_confirmation(s1, token);
            let row = s2.subscribers[s2.index_of_email(email)];
            &&& confirmation_succeeds(s1, token)
            &&& s2.status_of(email) == Some(SubscriptionStatus::Confirmed)
            &&& row.email == email
            &&& !s.has_email(email) ==> row.name == name
        }),
{
    let id = s.upserted_id(email);
    s.lemma_subscribed(email, name, token, at);
    let s1 = s.subscribed(email, name, token, at);
    let s2 = after_confirmation(s1, token);
    assert(s2.subscribers[id as int].email == email);
    assert(s2.has_email(email));
    let k = s2.index_of_email(email);
    if k != id {
        assert(s1.subscribers[k].email == email);
        assert(s1.subscribers[id as int].email == email);
    }
}

} // verus!
