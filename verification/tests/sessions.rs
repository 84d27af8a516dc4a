use zero2prod::sessions::{
    cleanup_step_action, session_key_of, session_key_to_id, CleanupAction, CleanupConfig,
    SessionEntry, SessionError, SessionStore,
};
use zero2prod::store::StoreFault;

fn make_state() -> Vec<SessionEntry> {
    vec![
        SessionEntry { name: String::from("foo"), value: String::from("bar") },
        SessionEntry { name: String::from("bar"), value: String::from("baz") },
    ]
}

#[test]
fn loading_a_missing_session_returns_none() {
    let store = SessionStore::new();
    let result = store.load(42, 0);
    assert!(result.is_none());
}

#[test]
fn loading_an_existing_session_returns_its_state() {
    let mut store = SessionStore::new();
    let state = make_state();

    let session_id = store
        .save(make_state(), 10, 0, 7)
        .expect("Unable to save the session");
    assert!(session_key_of(session_id).len() == 36);

    let loaded_state = store
        .load(session_id, 5)
        .expect("Unable to load the session");

    assert_eq!(state, loaded_state);
}

#[test]
fn updating_then_loading_an_existing_session_returns_its_updated_state() {
    let mut store = SessionStore::new();
    let mut state = make_state();

    let session_id = store
        .save(make_state(), 10, 0, 7)
        .expect("Unable to save the session");

    state.push(SessionEntry { name: String::from("name"), value: String::from("vincent") });
    let mut updated_state = make_state();
    updated_state.push(SessionEntry { name: String::from("name"), value: String::from("vincent") });
    let session_id = store
        .update(session_id, updated_state, 10, 1, 8)
        .expect("Unable to update the session");

    let loaded_state = store
        .load(session_id, 5)
        .expect("Unable to load the session");

    assert_eq!(state, loaded_state);
}

#[test]
fn loading_a_session_saved_with_a_negative_ttl_returns_none() {
    let mut store = SessionStore::new();

    let session_id = store
        .save(make_state(), -10, 100, 7)
        .expect("Unable to save the session");

    let loaded_state = store.load(session_id, 100);

    assert!(loaded_state.is_none());
}

#[test]
fn loading_a_deleted_session_returns_none() {
    let mut store = SessionStore::new();

    let session_id = store
        .save(make_state(), 10, 0, 7)
        .expect("Unable to save the session");

    store.delete(session_id);

    let loaded_state = store.load(session_id, 1);

    assert!(loaded_state.is_none());
}

#[test]
fn loading_an_expired_session_returns_none() {
    let mut store = SessionStore::new();

    let session_id = store
        .save(make_state(), 50, 100, 7)
        .expect("Unable to save the session");

    let loaded_state = store.load(session_id, 300);

    assert!(loaded_state.is_none());
}

#[test]
fn loading_at_the_expiry_deadline_still_returns_the_state() {
    let mut store = SessionStore::new();

    let session_id = store
        .save(make_state(), 50, 100, 7)
        .expect("Unable to save the session");

    assert_eq!(store.load(session_id, 150), Some(make_state()));
    assert!(store.load(session_id, 151).is_none());
}

#[test]
fn updating_a_vanished_session_issues_a_fresh_id() {
    let mut store = SessionStore::new();

    let session_id = store
        .update(42, make_state(), 10, 0, 43)
        .expect("Unable to update the session");

    assert_eq!(session_id, 43);
    assert_ne!(session_id, 42);
    assert_eq!(store.load(session_id, 5), Some(make_state()));
}

#[test]
fn deleting_a_missing_session_is_not_an_error() {
    let mut store = SessionStore::new();
    store.delete(42);
    store.delete(42);
}

#[test]
fn saving_under_an_existing_id_reports_the_collision() {
    let mut store = SessionStore::new();
    store.save(make_state(), 10, 0, 7).expect("Unable to save the session");
    let result = store.save(make_state(), 10, 0, 7);
    assert_eq!(result, Err(SessionError::DuplicateId));
}

#[test]
fn an_overflowing_expiry_is_reported() {
    let mut store = SessionStore::new();
    let result = store.save(make_state(), i64::MAX, 1, 7);
    assert_eq!(result, Err(SessionError::ExpiryOverflow));
    let result = store.update(42, make_state(), i64::MAX, 1, 43);
    assert_eq!(result, Err(SessionError::ExpiryOverflow));
}

#[test]
fn the_reaper_deletes_expired_rows_and_keeps_live_ones() {
    let mut store = SessionStore::new();
    store.save(make_state(), 50, 0, 1).expect("Unable to save the session");
    store.save(make_state(), 500, 0, 2).expect("Unable to save the session");
    store.save(make_state(), 100, 0, 3).expect("Unable to save the session");

    let removed = store.reap(100);

    assert_eq!(removed, 2);
    assert!(store.load(1, 100).is_none());
    assert_eq!(store.load(2, 100), Some(make_state()));
    assert!(store.load(3, 100).is_none());
}

#[test]
fn the_reaper_stops_only_on_a_closed_pool() {
    assert_eq!(cleanup_step_action(&Ok(3)), CleanupAction::KeepRunning);
    assert_eq!(
        cleanup_step_action(&Err(StoreFault::Transient)),
        CleanupAction::KeepRunning
    );
    assert_eq!(cleanup_step_action(&Err(StoreFault::PoolClosed)), CleanupAction::Stop);
}

#[test]
fn cleanup_config_defaults_to_disabled_thirty_seconds() {
    let config = CleanupConfig::default();
    assert!(!config.enabled);
    assert_eq!(config.interval_milliseconds, 30000);
    let config = CleanupConfig::new(true, 100);
    assert!(config.enabled);
    assert_eq!(config.interval_milliseconds, 100);
}

#[test]
fn a_session_key_parses_back_to_its_id() {
    let id = 0x0123_4567_89ab_cdef_0123_4567_89ab_cdefu128;
    let key = session_key_of(id);
    assert_eq!(key.len(), 36);
    assert_eq!(session_key_to_id(&key), Some(id));
    assert_eq!(session_key_to_id("not-a-session-key"), None);
}

#[test]
fn save_now_persists_the_state_under_the_returned_id() {
    let mut store = SessionStore::new();
    let id = store
        .save_now(make_state(), 60_000)
        .expect("Unable to save the session");
    let key = session_key_of(id);
    assert_eq!(key.len(), 36);
}
