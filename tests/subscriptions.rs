use zero2prod::routes::subscriptions::{
    confirmation_email, confirmation_link, email_delivery_outcome, submit_subscription, subscribe,
    NewSubscriber, SubscribeError,
};
use zero2prod::store::{SubscriberStore, SubscriptionStatus};

const BASE_URL: &str = "http://127.0.0.1:8000";

fn sign_up(store: &mut SubscriberStore, name: &str, email: &str) -> Result<zero2prod::routes::subscriptions::ConfirmationEmail, SubscribeError> {
    subscribe(store, name.to_string(), email.to_string(), BASE_URL, 1_700_000_000)
}

fn token_of(link_body: &str) -> String {
    let start = link_body.find("subscription_token=").unwrap() + "subscription_token=".len();
    link_body[start..start + 25].to_string()
}

#[test]
fn subscribe_returns_a_200_for_valid_form_data() {
    let mut store = SubscriberStore::new();
    let r = sign_up(&mut store, "sara kuzoi", "sara_kuzoi@gmail.com");
    assert!(r.is_ok());
    assert_eq!(email_delivery_outcome(true).is_ok(), true);
}

#[test]
fn subscribe_persists_the_new_subscriber() {
    let mut store = SubscriberStore::new();
    sign_up(&mut store, "sara kuzoi", "sara_kuzoi@tuta.io").unwrap();
    let saved = store.find_by_email("sara_kuzoi@tuta.io").expect("Failed to fetch saved subscription");
    assert_eq!(saved.name, "sara kuzoi");
    assert_eq!(saved.email, "sara_kuzoi@tuta.io");
    assert_eq!(saved.status.as_str(), "pending_confirmation");
    assert_eq!(saved.subscribed_at, 1_700_000_000);
}

#[test]
fn subscribe_returns_a_400_when_fields_are_present_but_empty() {
    let test_cases = vec![
        ("", "karaiozus@gmail.com", "empty name"),
        ("kara iozus", "", "empty email"),
        ("Karaiozus", "invalid-email-address", "invalid email"),
    ];
    for (name, email, description) in test_cases {
        let mut store = SubscriberStore::new();
        let r = sign_up(&mut store, name, email);
        let status = match &r {
            Err(e) => e.status_code(),
            Ok(_) => 200,
        };
        assert_eq!(
            400, status,
            "The API did not return a 400 Bad Request when the payload was {}",
            description
        );
        assert!(matches!(r, Err(SubscribeError::ValidationError(_))));
        assert_eq!(store.subscriber_count(), 0);
    }
}

#[test]
fn subscribe_sends_a_confirmation_email_with_a_link() {
    let mut store = SubscriberStore::new();
    let email = sign_up(&mut store, "sara kuzoi", "sara_kuzoi@tuta.io").unwrap();
    assert_eq!(email.recipient, "sara_kuzoi@tuta.io");
    let html_token = token_of(&email.html_body);
    let text_token = token_of(&email.text_body);
    assert_eq!(html_token, text_token);
    let link = confirmation_link(BASE_URL, &html_token);
    assert!(email.html_body.contains(&link));
    assert!(email.text_body.contains(&link));
    assert_eq!(store.token_count(), 1);
}

#[test]
fn subscribing_twice_sends_two_confirmation_emails() {
    let mut store = SubscriberStore::new();
    let first = sign_up(&mut store, "sara kuzoi", "sara_kuzoi@tuta.io");
    let second = sign_up(&mut store, "sara kuzoi", "sara_kuzoi@tuta.io");
    assert!(first.is_ok());
    assert!(second.is_ok());
    let first_token = token_of(&first.unwrap().html_body);
    let second_token = token_of(&second.unwrap().html_body);
    assert_ne!(first_token, second_token);
    assert_eq!(store.subscriber_count(), 1);
    assert_eq!(store.token_count(), 2);
    assert_eq!(store.lookup_subscriber_by_token(&first_token), Some(0));
    assert_eq!(store.lookup_subscriber_by_token(&second_token), Some(0));
}

#[test]
fn submit_with_a_given_token_builds_the_expected_email() {
    let mut store = SubscriberStore::new();
    let new_subscriber =
        NewSubscriber::parse("sara kuzoi".to_string(), "sara_kuzoi@tuta.io".to_string()).unwrap();
    let token = "abcdefghijklmnopqrstuvwxy";
    let email = submit_subscription(&mut store, &new_subscriber, token, BASE_URL, 5).unwrap();
    let expected = confirmation_email("sara_kuzoi@tuta.io", BASE_URL, token);
    assert_eq!(email.subject, "Welcome!");
    assert_eq!(
        email.html_body,
        "Welcome to our newsletter!<br />Click <a href=\"http://127.0.0.1:8000/subscriptions/confirm?subscription_token=abcdefghijklmnopqrstuvwxy\">here</a> to confirm your subscription."
    );
    assert_eq!(
        email.text_body,
        "Welcome to our newsletter!\nVisit http://127.0.0.1:8000/subscriptions/confirm?subscription_token=abcdefghijklmnopqrstuvwxy to confirm your subscription."
    );
    assert_eq!(email.html_body, expected.html_body);
    assert_eq!(store.lookup_subscriber_by_token(token), Some(0));
}

#[test]
fn resubscribing_keeps_the_first_name_and_status() {
    let mut store = SubscriberStore::new();
    sign_up(&mut store, "sara kuzoi", "sara_kuzoi@tuta.io").unwrap();
    sign_up(&mut store, "someone else", "sara_kuzoi@tuta.io").unwrap();
    sign_up(&mut store, "kara iozus", "kara@example.com").unwrap();
    assert_eq!(store.subscriber_count(), 2);
    let saved = store.find_by_email("sara_kuzoi@tuta.io").unwrap();
    assert_eq!(saved.name, "sara kuzoi");
    assert_eq!(saved.id, 0);
    assert_eq!(saved.status, SubscriptionStatus::PendingConfirmation);
    assert_eq!(store.find_by_email("kara@example.com").unwrap().id, 1);
}

#[test]
fn failed_email_delivery_is_a_server_error() {
    let r = email_delivery_outcome(false);
    assert!(matches!(r, Err(SubscribeError::EmailError(_))));
    assert_eq!(r.unwrap_err().status_code(), 500);
}

#[test]
fn invalid_names_are_rejected() {
    assert!(NewSubscriber::parse("   ".to_string(), "a@b.io".to_string()).is_err());
    assert!(NewSubscriber::parse("Anne (Ann) Smith".to_string(), "a@b.io".to_string()).is_ok());
    assert!(NewSubscriber::parse("a/b <c> {d} \\ \"e\"".to_string(), "a@b.io".to_string()).is_ok());
    assert!(NewSubscriber::parse("a".repeat(257), "a@b.io".to_string()).is_err());
    assert!(NewSubscriber::parse("a".repeat(256), "a@b.io".to_string()).is_ok());
    assert!(NewSubscriber::parse("ë".repeat(256), "a@b.io".to_string()).is_ok());
}

#[test]
fn a_token_issued_twice_is_refused_and_the_row_stays() {
    let mut store = SubscriberStore::new();
    let first =
        NewSubscriber::parse("sara kuzoi".to_string(), "sara_kuzoi@tuta.io".to_string()).unwrap();
    let second =
        NewSubscriber::parse("kara iozus".to_string(), "kara@example.com".to_string()).unwrap();
    let token = "abcdefghijklmnopqrstuvwxy";
    submit_subscription(&mut store, &first, token, BASE_URL, 1).unwrap();
    let r = submit_subscription(&mut store, &second, token, BASE_URL, 2);
    assert!(matches!(
        r,
        Err(SubscribeError::StoreError(zero2prod::store::StoreError::DuplicateToken))
    ));
    assert_eq!(r.unwrap_err().status_code(), 500);
    assert_eq!(store.subscriber_count(), 2);
    assert_eq!(store.token_count(), 1);
    assert_eq!(store.lookup_subscriber_by_token(token), Some(0));
}
