use zero2prod::domain::{is_email_shaped, SubscriberEmail, SubscriberName};
use zero2prod::token::{generate_token, random_bytes_of_uuid, token_from_draws};

#[test]
fn generated_tokens_are_25_alphanumeric_characters() {
    for _ in 0..50 {
        let t = generate_token().unwrap();
        assert_eq!(t.chars().count(), 25);
        assert!(t.chars().all(|c| c.is_ascii_alphanumeric()));
    }
    assert_ne!(generate_token(), generate_token());
}

#[test]
fn draws_map_onto_the_alphabet() {
    let draws: Vec<u8> = (0u8..25).map(|k| k * 2).collect();
    assert_eq!(token_from_draws(&draws).unwrap(), "ACEGIKMOQSUWYacegikmoqsuw");
    let mut draws: Vec<u8> = vec![248, 255, 61, 62, 26, 52, 123];
    draws.extend(std::iter::repeat(0u8).take(20));
    assert_eq!(token_from_draws(&draws).unwrap(), "9Aa09AAAAAAAAAAAAAAAAAAAA");
    assert_eq!(token_from_draws(&vec![1u8; 24]), None);
    assert_eq!(token_from_draws(&vec![250u8; 100]), None);
}

#[test]
fn uuid_version_and_variant_bytes_are_dropped() {
    let b: [u8; 16] = [0, 1, 2, 3, 4, 5, 6, 7, 8, 9, 10, 11, 12, 13, 14, 15];
    assert_eq!(random_bytes_of_uuid(b), vec![0, 1, 2, 3, 4, 5, 7, 9, 10, 11, 12, 13, 14, 15]);
}

#[test]
fn email_shapes() {
    assert!(is_email_shaped("sara_kuzoi@tuta.io"));
    assert!(!is_email_shaped("invalid-email-address"));
    assert!(!is_email_shaped(""));
    assert!(!is_email_shaped("@tuta.io"));
    assert!(!is_email_shaped("sara@"));
    assert!(!is_email_shaped("a@b@c"));
    assert!(!is_email_shaped("sara kuzoi@tuta.io"));
    assert!(SubscriberEmail::parse("x@y".to_string()).is_ok());
    assert_eq!(SubscriberName::parse("sara kuzoi".to_string()).unwrap().as_str(), "sara kuzoi");
}
