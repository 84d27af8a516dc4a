use zero2prod::newsletters::{
    insert_newsletter_issue, publish_newsletter, see_other, NewsletterData, PublishError,
    PublishFault, PublishOutcome,
};
use zero2prod::store::{Store, StoreError};
use zero2prod::worker::{drain_queue, EmailLog};

fn form(key: &str) -> NewsletterData {
    NewsletterData {
        title: String::from("Newsletter title"),
        text_content: String::from("Newsletter body as plain text"),
        html_content: String::from("<p>Newsletter body as HTML</p>"),
        idempotency_key: String::from(key),
    }
}

fn store_with_subscribers(confirmed: usize, unconfirmed: usize) -> Store {
    let mut store = Store::new();
    let mut id: u128 = 1;
    for i in 0..confirmed {
        let email = format!("confirmed{}@example.com", i);
        store
            .add_subscriber(id, email, String::from("le guin"), 0)
            .expect("could not insert subscriber");
        store.confirm_subscriber(id);
        id += 1;
    }
    for i in 0..unconfirmed {
        let email = format!("pending{}@example.com", i);
        store
            .add_subscriber(id, email, String::from("le guin"), 0)
            .expect("could not insert subscriber");
        id += 1;
    }
    store
}

#[test]
fn admin_newsletters_newsletters_are_not_delivered_to_unconfirmed_subscribers() {
    let mut store = store_with_subscribers(0, 1);
    let outcome = publish_newsletter(&mut store, 9, form("K"), 0, 100).expect("publish failed");
    assert!(matches!(outcome, PublishOutcome::Published(_)));
    assert_eq!(store.queue.len(), 0);

    let mut mail = EmailLog::new();
    drain_queue(&mut store, &mut mail);
    assert_eq!(mail.len(), 0);
}

#[test]
fn admin_newsletters_newsletters_are_delivered_to_confirmed_subscribers() {
    let mut store = store_with_subscribers(1, 0);
    let outcome = publish_newsletter(&mut store, 9, form("K"), 0, 100).expect("publish failed");
    assert!(matches!(outcome, PublishOutcome::Published(_)));
    assert_eq!(store.queue.len(), 1);

    let mut mail = EmailLog::new();
    drain_queue(&mut store, &mut mail);
    assert_eq!(mail.len(), 1);
    assert_eq!(mail.sent[0].recipient, "confirmed0@example.com");
    assert_eq!(mail.sent[0].subject, "Newsletter title");
    assert_eq!(mail.sent[0].text, "Newsletter body as plain text");
    assert_eq!(mail.sent[0].html, "<p>Newsletter body as HTML</p>");
}

#[test]
fn admin_newsletters_newsletters_returns_400_for_invalid_data() {
    let mut store = store_with_subscribers(1, 0);

    let mut missing_title = form("K1");
    missing_title.title = String::new();
    let err = publish_newsletter(&mut store, 9, missing_title, 0, 100).unwrap_err();
    assert_eq!(err, PublishError::MissingTitle);

    let mut missing_text = form("K2");
    missing_text.text_content = String::new();
    let err = publish_newsletter(&mut store, 9, missing_text, 0, 101).unwrap_err();
    assert_eq!(err, PublishError::MissingContent);

    let mut missing_html = form("K3");
    missing_html.html_content = String::new();
    let err = publish_newsletter(&mut store, 9, missing_html, 0, 102).unwrap_err();
    assert_eq!(err, PublishError::MissingContent);

    // nothing committed: no issue, no tasks, and the keys are still free
    assert_eq!(store.issues.len(), 0);
    assert_eq!(store.queue.len(), 0);
    let ok = publish_newsletter(&mut store, 9, form("K1"), 0, 103).expect("publish failed");
    assert!(matches!(ok, PublishOutcome::Published(_)));
}

#[test]
fn an_invalid_idempotency_key_is_rejected_up_front() {
    let mut store = store_with_subscribers(1, 0);
    let err = publish_newsletter(&mut store, 9, form(""), 0, 100).unwrap_err();
    assert_eq!(err, PublishError::Unexpected(PublishFault::InvalidIdempotencyKey));
    assert_eq!(store.issues.len(), 0);
}

#[test]
fn a_claimed_but_incomplete_key_fails_the_publish() {
    let mut store = store_with_subscribers(1, 0);
    let key = zero2prod::idempotency::IdempotencyKey::try_new(String::from("K")).unwrap();
    store.idempotency.try_processing(9, &key, 0).expect("unexpected gap");

    let err = publish_newsletter(&mut store, 9, form("K"), 1, 100).unwrap_err();
    assert_eq!(
        err,
        PublishError::Unexpected(PublishFault::IncompleteIdempotencyRecord)
    );
    assert_eq!(store.issues.len(), 0);
}

#[test]
fn a_colliding_issue_id_commits_nothing() {
    let mut store = store_with_subscribers(1, 0);
    publish_newsletter(&mut store, 9, form("K1"), 0, 100).expect("publish failed");

    let err = publish_newsletter(&mut store, 9, form("K2"), 1, 100).unwrap_err();
    assert_eq!(err, PublishError::Unexpected(PublishFault::DuplicateIssueId));
    assert_eq!(store.issues.len(), 1);

    // the claim rolled back with the transaction, so the key is still free
    let ok = publish_newsletter(&mut store, 9, form("K2"), 2, 101).expect("publish failed");
    assert!(matches!(ok, PublishOutcome::Published(_)));
}

#[test]
fn newsletter_creation_is_idempotent() {
    let mut store = store_with_subscribers(1, 1);

    let first = publish_newsletter(&mut store, 9, form("K"), 0, 100).expect("publish failed");
    let first_response = match first {
        PublishOutcome::Published(resp) => resp,
        PublishOutcome::Replayed(_) => panic!("the first publish replayed"),
    };
    assert_eq!(store.issues.len(), 1);
    assert_eq!(store.queue.len(), 1);

    let second = publish_newsletter(&mut store, 9, form("K"), 5, 200).expect("publish failed");
    match second {
        PublishOutcome::Replayed(resp) => assert_eq!(resp, first_response),
        PublishOutcome::Published(_) => panic!("the second publish was not deduplicated"),
    }
    assert_eq!(store.issues.len(), 1);
    assert_eq!(store.queue.len(), 1);
}

#[test]
fn newsletter_creation_concurrent_form_submission_is_handled_gracefully() {
    // two submissions racing on one key resolve by row contention: the one
    // that claimed the key publishes, the other replays its response
    let mut store = store_with_subscribers(2, 0);

    publish_newsletter(&mut store, 9, form("K"), 0, 100).expect("publish failed");
    let second = publish_newsletter(&mut store, 9, form("K"), 0, 101).expect("publish failed");
    assert!(matches!(second, PublishOutcome::Replayed(_)));

    assert_eq!(store.issues.len(), 1);
    assert_eq!(store.queue.len(), 2);
    let mut mail = EmailLog::new();
    drain_queue(&mut store, &mut mail);
    assert_eq!(mail.len(), 2);
}

#[test]
fn publishing_under_one_key_delivers_once_and_replays() {
    // three confirmed subscribers, one unconfirmed, the collaborator happy
    let mut store = store_with_subscribers(3, 1);

    let first = publish_newsletter(&mut store, 9, form("K"), 0, 100).expect("publish failed");
    let first_response = match first {
        PublishOutcome::Published(resp) => resp,
        PublishOutcome::Replayed(_) => panic!("the first publish replayed"),
    };
    assert_eq!(store.issues.len(), 1);
    assert_eq!(store.queue.len(), 3);

    let mut mail = EmailLog::new();
    let drained = drain_queue(&mut store, &mut mail);
    assert_eq!(drained, 3);
    assert_eq!(mail.len(), 3);
    assert_eq!(store.queue.len(), 0);

    let second = publish_newsletter(&mut store, 9, form("K"), 9, 200).expect("publish failed");
    match second {
        PublishOutcome::Replayed(resp) => assert_eq!(resp, first_response),
        PublishOutcome::Published(_) => panic!("the second publish was not deduplicated"),
    }
    assert_eq!(store.issues.len(), 1);
    assert_eq!(store.queue.len(), 0);
}

#[test]
fn inserting_an_issue_under_a_taken_id_is_refused() {
    let mut store = Store::new();
    insert_newsletter_issue(
        &mut store,
        String::from("Issue one"),
        String::from("text"),
        String::from("html"),
        0,
        100,
    )
    .expect("insert failed");
    let second = insert_newsletter_issue(
        &mut store,
        String::from("Issue two"),
        String::from("text"),
        String::from("html"),
        1,
        100,
    );
    assert_eq!(second, Err(StoreError::DuplicateIssue));
    assert_eq!(store.issues.len(), 1);
}

#[test]
fn see_other_builds_the_redirect_response() {
    let response = see_other("/admin/newsletters");
    assert_eq!(response.status, 303);
    assert_eq!(response.headers.len(), 1);
    assert_eq!(response.headers[0].name, "location");
    assert_eq!(response.headers[0].value, b"/admin/newsletters".to_vec());
    assert!(response.body.is_empty());
}
