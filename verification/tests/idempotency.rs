use zero2prod::idempotency::{
    HeaderPair, IdempotencyError, IdempotencyKey, IdempotencyStore, KeyError, NextAction,
    StoredResponse,
};

fn sample_response() -> StoredResponse {
    StoredResponse {
        status: 303,
        headers: vec![HeaderPair {
            name: String::from("location"),
            value: Vec::from(*b"/admin/newsletters"),
        }],
        body: Vec::from(*b"ok"),
    }
}

#[test]
fn an_empty_idempotency_key_is_rejected() {
    let result = IdempotencyKey::try_new(String::new());
    assert_eq!(result.err(), Some(KeyError::Empty));
}

#[test]
fn an_idempotency_key_of_fifty_characters_is_rejected() {
    let result = IdempotencyKey::try_new("a".repeat(50));
    assert_eq!(result.err(), Some(KeyError::TooLong));
}

#[test]
fn an_idempotency_key_of_forty_nine_characters_passes() {
    let raw = "a".repeat(49);
    let key = IdempotencyKey::try_new(raw.clone()).expect("key was rejected");
    assert_eq!(key.as_str(), raw);
}

#[test]
fn a_fresh_key_may_proceed() {
    let mut table = IdempotencyStore::new();
    let key = IdempotencyKey::try_new(String::from("K")).unwrap();
    let action = table.try_processing(9, &key, 0).expect("unexpected gap");
    assert!(matches!(action, NextAction::StartProcessing));
}

#[test]
fn a_claimed_but_incomplete_key_is_a_gap() {
    let mut table = IdempotencyStore::new();
    let key = IdempotencyKey::try_new(String::from("K")).unwrap();
    table.try_processing(9, &key, 0).expect("unexpected gap");
    let second = table.try_processing(9, &key, 1);
    assert_eq!(second.err(), Some(IdempotencyError::IncompleteRecord));
}

#[test]
fn a_completed_key_replays_the_exact_response() {
    let mut table = IdempotencyStore::new();
    let key = IdempotencyKey::try_new(String::from("K")).unwrap();
    table.try_processing(9, &key, 0).expect("unexpected gap");

    let returned = table.save_response(9, &key, sample_response());
    assert_eq!(returned, sample_response());

    match table.try_processing(9, &key, 1).expect("unexpected gap") {
        NextAction::ReturnSavedResponse(replayed) => {
            assert_eq!(replayed, sample_response());
        }
        NextAction::StartProcessing => panic!("the completed key was allowed to proceed again"),
    }
}

#[test]
fn distinct_users_do_not_share_idempotency_records() {
    let mut table = IdempotencyStore::new();
    let key = IdempotencyKey::try_new(String::from("K")).unwrap();
    table.try_processing(9, &key, 0).expect("unexpected gap");
    table.save_response(9, &key, sample_response());
    let action = table.try_processing(10, &key, 1).expect("unexpected gap");
    assert!(matches!(action, NextAction::StartProcessing));
}

#[test]
fn get_saved_response_reads_back_the_stored_bytes() {
    let mut table = IdempotencyStore::new();
    let key = IdempotencyKey::try_new(String::from("K")).unwrap();
    assert!(table.get_saved_response(9, &key).is_none());
    table.try_processing(9, &key, 0).expect("unexpected gap");
    assert!(table.get_saved_response(9, &key).is_none());
    table.save_response(9, &key, sample_response());
    assert_eq!(table.get_saved_response(9, &key), Some(sample_response()));
}
