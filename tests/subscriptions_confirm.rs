use zero2prod::routes::subscriptions::subscribe;
use zero2prod::routes::subscriptions_confirm::{
    confirm_subscriber, confirm_subscription, error_chain_fmt, token_checks_pass, token_is_valid,
    ConfirmError, Parameters,
};
use zero2prod::store::{StoreError, SubscriberStore, SubscriptionStatus};

const BASE_URL: &str = "http://127.0.0.1:8000";

fn token_of(link_body: &str) -> String {
    let start = link_body.find("subscription_token=").unwrap() + "subscription_token=".len();
    link_body[start..start + 25].to_string()
}

fn signed_up_store() -> (SubscriberStore, String, String) {
    let mut store = SubscriberStore::new();
    let email = subscribe(
        &mut store,
        "sara kuzoi".to_string(),
        "sara_kuzoi@tuta.io".to_string(),
        BASE_URL,
        1,
    )
    .unwrap();
    let html = token_of(&email.html_body);
    let text = token_of(&email.text_body);
    (store, html, text)
}

#[test]
fn the_link_returned_by_subscribe_returns_a_200_if_called() {
    let (mut store, token, _) = signed_up_store();
    let params = Parameters { subscription_token: token };
    assert!(confirm_subscription(&mut store, &params.subscription_token).is_ok());
}

#[test]
fn clicking_on_the_confirmation_link_confirms_a_subscriber() {
    let (mut store, token, _) = signed_up_store();
    confirm_subscription(&mut store, &token).unwrap();
    let saved = store.find_by_email("sara_kuzoi@tuta.io").expect("Failed to fetch saved subscription.");
    assert_eq!(saved.email, "sara_kuzoi@tuta.io");
    assert_eq!(saved.name, "sara kuzoi");
    assert_eq!(saved.status.as_str(), "confirmed");
}

#[test]
fn clicking_twice_on_the_confirmation_link_confirms_a_subscriber() {
    let (mut store, html, text) = signed_up_store();
    confirm_subscription(&mut store, &html).unwrap();
    confirm_subscription(&mut store, &text).unwrap();
    let query = store.find_by_email("sara_kuzoi@tuta.io").expect("Failed to fetch saved subscriber");
    assert_eq!(query.email, "sara_kuzoi@tuta.io");
    assert_eq!(query.name, "sara kuzoi");
    assert_eq!(query.status.as_str(), "confirmed");
}

#[test]
fn an_unissued_well_formed_token_is_unauthorized() {
    let (mut store, _, _) = signed_up_store();
    let r = confirm_subscription(&mut store, "AAAAAAAAAAAAAAAAAAAAAAAAA");
    assert!(matches!(r, Err(ConfirmError::UnknownToken)));
    assert_eq!(r.unwrap_err().status_code(), 401);
    assert_eq!(
        store.find_by_email("sara_kuzoi@tuta.io").unwrap().status,
        SubscriptionStatus::PendingConfirmation
    );
}

#[test]
fn token_validation_follows_length_and_characters() {
    let ok = "abcdefghijklmnopqrstuvwxy";
    assert!(token_is_valid(ok).is_ok());
    assert!(token_is_valid("abcdefghijklmnopqrstuvwx").is_err());
    assert!(token_is_valid("abcdefghijklmnopqrstuvwxyz").is_err());
    assert!(token_is_valid("abcdefghijkl<nopqrstuvwxy").is_err());
    for c in ['/', '(', ')', '"', '<', '>', '\\', '{', '}'] {
        let t = format!("{}{}", &ok[..24], c);
        assert!(matches!(token_is_valid(&t), Err(ConfirmError::UnknownToken)));
    }
    assert!(token_is_valid("").is_err());
    assert!(token_is_valid("                         ").is_err());
    assert!(token_is_valid(" abcdefghijklmnopqrstuvwxy ").is_ok());
    assert!(token_is_valid("éééééééééééééééééééééééée").is_ok());
}

#[test]
fn token_checks_use_the_given_counts() {
    assert!(token_checks_pass("x", "x", 25));
    assert!(!token_checks_pass("x", "x", 24));
    assert!(!token_checks_pass("", "", 25));
    assert!(!token_checks_pass("x{", "x{", 25));
}

#[test]
fn confirming_an_unknown_subscriber_changes_nothing() {
    let (mut store, _, _) = signed_up_store();
    assert_eq!(confirm_subscriber(&mut store, 7), Ok(()));
    assert_eq!(store.subscriber_count(), 1);
    assert_eq!(
        store.find_by_email("sara_kuzoi@tuta.io").unwrap().status,
        SubscriptionStatus::PendingConfirmation
    );
    assert_eq!(confirm_subscriber(&mut store, 0), Ok(()));
    assert_eq!(store.find_by_email("sara_kuzoi@tuta.io").unwrap().status, SubscriptionStatus::Confirmed);
    assert_eq!(store.store_token(3, "abc"), Err(StoreError::UnknownSubscriber));
    assert_eq!(store.store_token(0, "abc"), Ok(()));
    assert_eq!(store.store_token(0, "abc"), Err(StoreError::DuplicateToken));
}

#[test]
fn error_chains_list_their_causes() {
    assert_eq!(error_chain_fmt("top", &vec![]), "top\n\n");
    assert_eq!(
        error_chain_fmt("top", &vec!["db down".to_string(), "io".to_string()]),
        "top\n\nCaused by:\n\tdb down\nCaused by:\n\tio\n"
    );
    assert_eq!(ConfirmError::UnexpectedError("x".to_string()).status_code(), 500);
}
