use zero2prod::newsletters::publish_newsletter;
use zero2prod::newsletters::NewsletterData;
use zero2prod::store::{Store, StoreFault};
use zero2prod::worker::{
    drain_queue, try_execute_task, worker_loop_action, EmailLog, ExecutionOutcome, LoopAction,
    WORKER_BACKOFF_SECONDS,
};

fn published_store(emails: &[&str]) -> Store {
    let mut store = Store::new();
    let mut id: u128 = 1;
    for email in emails {
        store
            .add_subscriber(id, String::from(*email), String::from("le guin"), 0)
            .expect("could not insert subscriber");
        store.confirm_subscriber(id);
        id += 1;
    }
    let form = NewsletterData {
        title: String::from("Newsletter title"),
        text_content: String::from("Newsletter body as plain text"),
        html_content: String::from("<p>Newsletter body as HTML</p>"),
        idempotency_key: String::from("K"),
    };
    publish_newsletter(&mut store, 9, form, 0, 100).expect("publish failed");
    store
}

#[test]
fn a_claimed_row_is_skipped_by_the_next_claimant() {
    let mut store = published_store(&["a@example.com", "b@example.com"]);

    let first = store.claim_task().expect("nothing to claim");
    let second = store.claim_task().expect("nothing to claim");
    assert_ne!(first.1, second.1);
    assert!(store.claim_task().is_none());
}

#[test]
fn a_released_row_becomes_claimable_again() {
    let mut store = published_store(&["a@example.com"]);

    let (issue_id, email) = store.claim_task().expect("nothing to claim");
    assert!(store.claim_task().is_none());

    // the claimant crashes; its transaction rolls back
    store.release_task(issue_id, &email);
    let again = store.claim_task().expect("nothing to claim");
    assert_eq!(again.1, email);
}

#[test]
fn a_retired_row_is_gone_for_good() {
    let mut store = published_store(&["a@example.com"]);

    let (issue_id, email) = store.claim_task().expect("nothing to claim");
    store.delete_task(issue_id, &email);
    assert_eq!(store.queue.len(), 0);
    assert!(store.claim_task().is_none());
}

#[test]
fn one_iteration_delivers_and_retires() {
    let mut store = published_store(&["a@example.com"]);
    let mut mail = EmailLog::new();

    let outcome = try_execute_task(&mut store, &mut mail, true);
    assert_eq!(outcome, ExecutionOutcome::TaskCompleted);
    assert_eq!(mail.len(), 1);
    assert_eq!(mail.sent[0].recipient, "a@example.com");
    assert_eq!(store.queue.len(), 0);

    let outcome = try_execute_task(&mut store, &mut mail, true);
    assert_eq!(outcome, ExecutionOutcome::EmptyQueue);
    assert_eq!(mail.len(), 1);
}

#[test]
fn a_transport_failure_still_retires_the_task() {
    let mut store = published_store(&["a@example.com"]);
    let mut mail = EmailLog::new();

    let outcome = try_execute_task(&mut store, &mut mail, false);
    assert_eq!(outcome, ExecutionOutcome::TaskCompleted);
    assert_eq!(mail.len(), 1);
    assert_eq!(store.queue.len(), 0);
}

#[test]
fn a_poisoned_address_is_skipped_without_a_send() {
    let mut store = published_store(&["not-an-address"]);
    let mut mail = EmailLog::new();

    let outcome = try_execute_task(&mut store, &mut mail, true);
    assert_eq!(outcome, ExecutionOutcome::TaskCompleted);
    assert_eq!(mail.len(), 0);
    assert_eq!(store.queue.len(), 0);
}

#[test]
fn draining_retires_every_row_in_order() {
    let mut store = published_store(&["a@example.com", "bad", "c@example.com"]);
    let mut mail = EmailLog::new();

    let drained = drain_queue(&mut store, &mut mail);
    assert_eq!(drained, 3);
    assert_eq!(store.queue.len(), 0);
    assert_eq!(mail.len(), 2);
    assert_eq!(mail.sent[0].recipient, "a@example.com");
    assert_eq!(mail.sent[1].recipient, "c@example.com");
}

#[test]
fn get_issue_returns_the_immutable_content() {
    let store = published_store(&["a@example.com"]);
    let issue = store.get_issue(100).expect("missing issue");
    assert_eq!(issue.title, "Newsletter title");
    assert_eq!(issue.text_content, "Newsletter body as plain text");
    assert_eq!(issue.html_content, "<p>Newsletter body as HTML</p>");
    assert!(store.get_issue(999).is_none());
}

#[test]
fn the_loop_backs_off_only_when_there_is_nothing_to_do() {
    assert_eq!(
        worker_loop_action(&Ok(ExecutionOutcome::TaskCompleted)),
        LoopAction::Immediate
    );
    assert_eq!(
        worker_loop_action(&Ok(ExecutionOutcome::EmptyQueue)),
        LoopAction::Backoff
    );
    assert_eq!(
        worker_loop_action(&Err(StoreFault::Transient)),
        LoopAction::Backoff
    );
    assert_eq!(WORKER_BACKOFF_SECONDS, 1);
}
