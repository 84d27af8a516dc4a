use zero2prod::configuration::SessionSettings;
use zero2prod::domain::{SubscriberEmail, SubscriberName};
use zero2prod::store::{Store, StoreError};
use zero2prod::subscriptions::{
    confirmation_link, generate_subscription_token, subscribe, ApplicationBaseUrl, FormData,
    SubscribeError, TokenStore,
};
use zero2prod::tem::ProjectId;

fn valid_form() -> FormData {
    FormData {
        name: String::from("le guin"),
        email: String::from("ursula_le_guin@gmail.com"),
    }
}

#[test]
fn a_subscription_token_is_25_chars_long() {
    let token = generate_subscription_token();
    assert_eq!(token.len(), 25);
}

#[test]
fn a_subscription_token_is_alphanumeric() {
    let token = generate_subscription_token();
    assert!(token.chars().all(|c| c.is_ascii_alphanumeric()));
}

#[test]
fn subscribe_persists_the_new_subscriber() {
    let mut store = Store::new();
    let mut tokens = TokenStore::new();

    let result = subscribe(&mut store, &mut tokens, valid_form(), 0, 1, String::from("tok"));
    assert!(result.is_ok());

    assert_eq!(store.subscribers.len(), 1);
    assert_eq!(store.subscribers[0].email, "ursula_le_guin@gmail.com");
    assert_eq!(store.subscribers[0].name, "le guin");
    assert!(!store.subscribers[0].confirmed);
    assert_eq!(tokens.subscriber_id_of(&String::from("tok")), Some(1));
}

#[test]
fn subscribe_returns_400_when_data_is_invalid() {
    let cases = vec![
        FormData { name: String::new(), email: String::from("a@b.com") },
        FormData { name: String::from("x".repeat(257)), email: String::from("a@b.com") },
        FormData { name: String::from("le/guin"), email: String::from("a@b.com") },
        FormData { name: String::from("le guin"), email: String::new() },
        FormData { name: String::from("le guin"), email: String::from("definitely-not-an-email") },
        FormData { name: String::from("le guin"), email: String::from("@b.com") },
        FormData { name: String::from("le guin"), email: String::from("a@") },
    ];
    for form in cases {
        let mut store = Store::new();
        let mut tokens = TokenStore::new();
        let result = subscribe(&mut store, &mut tokens, form, 0, 1, String::from("tok"));
        assert!(matches!(result, Err(SubscribeError::Validation(_))));
        assert_eq!(store.subscribers.len(), 0);
    }
}

#[test]
fn subscribing_twice_with_one_email_is_refused() {
    let mut store = Store::new();
    let mut tokens = TokenStore::new();

    subscribe(&mut store, &mut tokens, valid_form(), 0, 1, String::from("tok1"))
        .expect("first subscribe failed");
    let second = subscribe(&mut store, &mut tokens, valid_form(), 1, 2, String::from("tok2"));
    assert!(matches!(
        second,
        Err(SubscribeError::Unexpected(StoreError::DuplicateSubscriber))
    ));
    assert_eq!(store.subscribers.len(), 1);
}

#[test]
fn a_duplicate_token_commits_nothing() {
    let mut store = Store::new();
    let mut tokens = TokenStore::new();

    subscribe(&mut store, &mut tokens, valid_form(), 0, 1, String::from("tok"))
        .expect("first subscribe failed");
    let other = FormData {
        name: String::from("le guin"),
        email: String::from("other@example.com"),
    };
    let second = subscribe(&mut store, &mut tokens, other, 1, 2, String::from("tok"));
    assert!(matches!(
        second,
        Err(SubscribeError::Unexpected(StoreError::DuplicateToken))
    ));
    assert_eq!(store.subscribers.len(), 1);
}

#[test]
fn clicking_on_confirmation_link_confirms_a_subscriber() {
    let mut store = Store::new();
    let mut tokens = TokenStore::new();
    subscribe(&mut store, &mut tokens, valid_form(), 0, 1, String::from("tok"))
        .expect("subscribe failed");

    let subscriber_id = tokens
        .subscriber_id_of(&String::from("tok"))
        .expect("token not found");
    store.confirm_subscriber(subscriber_id);

    assert!(store.subscribers[0].confirmed);
    assert_eq!(store.subscribers[0].email, "ursula_le_guin@gmail.com");
}

#[test]
fn an_unknown_token_confirms_nothing() {
    let tokens = TokenStore::new();
    assert_eq!(tokens.subscriber_id_of(&String::from("missing")), None);
}

#[test]
fn the_confirmation_link_carries_the_token() {
    let base = ApplicationBaseUrl(String::from("https://example.com"));
    let link = confirmation_link(&base, "tok123");
    assert_eq!(
        link,
        "https://example.com/subscriptions/confirm?subscription_token=tok123"
    );
}

#[test]
fn subscriber_emails_need_an_interior_at_sign() {
    assert!(SubscriberEmail::parse(String::from("a@b")).is_ok());
    assert!(SubscriberEmail::parse(String::from("ursula_le_guin@gmail.com")).is_ok());
    assert_eq!(
        SubscriberEmail::parse(String::from("missing-at")).err(),
        Some(String::from("missing-at"))
    );
    assert!(SubscriberEmail::parse(String::from("@b.com")).is_err());
    assert!(SubscriberEmail::parse(String::from("a@")).is_err());
    assert!(SubscriberEmail::parse(String::new()).is_err());
}

#[test]
fn subscriber_names_are_bounded_and_clean() {
    assert!(SubscriberName::parse(String::from("le guin")).is_ok());
    assert!(SubscriberName::parse(String::from("x".repeat(256))).is_ok());
    assert!(SubscriberName::parse(String::from("x".repeat(257))).is_err());
    assert!(SubscriberName::parse(String::new()).is_err());
    assert!(SubscriberName::parse(String::from("le<guin>")).is_err());
    assert!(SubscriberName::parse(String::from("{le guin}")).is_err());
}

#[test]
fn a_project_id_keeps_its_text() {
    let id = ProjectId::new(String::from("project-7"));
    assert_eq!(id.as_str(), "project-7");
}

#[test]
fn session_settings_hand_back_their_intervals() {
    let settings = SessionSettings {
        cleanup_enabled: true,
        cleanup_interval_milliseconds: 250,
        ttl: 60_000,
    };
    assert_eq!(settings.cleanup_interval(), 250);
    assert_eq!(settings.ttl(), 60_000);
}
