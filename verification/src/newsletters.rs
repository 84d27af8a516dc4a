//! The publish path: validate the form, pass it through the idempotency
//! cache, store the immutable issue, and enqueue one delivery task per
//! confirmed subscriber — all as one transition on the store, since one
//! transaction commits all of it together.

use vstd::prelude::*;
use vstd::string::StringExecFns;
use vstd::utf8::encode_utf8;

use crate::clock::now_unix_seconds;
use crate::ids::fresh_id;
use crate::idempotency::{
    has_record, key_valid, lemma_record_index_unique,
    record_at, record_index, table_wf, HeaderPair, HeaderPairModel, IdempotencyKey, NextAction,
    RecordModel, ResponseModel, StoredResponse,
};
use crate::store::{
    confirmed_count, delivery_tasks_for, has_issue, has_task_for_issue, lemma_outbox_count,
    lemma_outbox_distinct, lemma_outbox_membership, store_wf, DeliveryTask, IssueModel,
    NewsletterIssue, Store, StoreError, StoreModel, TaskModel,
};

verus! {

/// The publish form: the issue content plus the client-supplied idempotency
/// key.
pub struct NewsletterData {
    pub title: String,
    pub text_content: String,
    pub html_content: String,
    pub idempotency_key: String,
}

/// The mathematical image of the publish form.
pub struct NewsletterDataModel {
    pub title: Seq<char>,
    pub text_content: Seq<char>,
    pub html_content: Seq<char>,
    pub idempotency_key: Seq<char>,
}

impl View for NewsletterData {
    type V = NewsletterDataModel;

    open spec fn view(&self) -> NewsletterDataModel {
        NewsletterDataModel {
            title: self.title@,
            text_content: self.text_content@,
            html_content: self.html_content@,
            idempotency_key: self.idempotency_key@,
        }
    }
}

/// The faults the publish path can report besides plain form validation.
#[derive(PartialEq, Eq, Structural, Debug, Clone, Copy)]
pub enum PublishFault {
    /// The idempotency key failed validation.
    InvalidIdempotencyKey,
    /// An idempotency row exists but was never completed; there is nothing to
    /// replay and no defined recovery.
    IncompleteIdempotencyRecord,
    /// The freshly drawn issue id collided with an existing issue row.
    DuplicateIssueId,
}

/// Why a publish request failed.
#[derive(PartialEq, Eq, Structural, Debug, Clone, Copy)]
pub enum PublishError {
    MissingTitle,
    MissingContent,
    Unexpected(PublishFault),
}

/// A successful publish: either performed now, or the byte-identical replay
/// of an earlier completion under the same key.
#[derive(Debug)]
pub enum PublishOutcome {
    Published(StoredResponse),
    Replayed(StoredResponse),
}

/// The mathematical image of a publish result.
pub enum PublishResultModel {
    Published(ResponseModel),
    Replayed(ResponseModel),
    Rejected(PublishError),
}

/// How an exec publish result reads as a `PublishResultModel`.
pub open spec fn publish_result_of(r: Result<PublishOutcome, PublishError>) -> PublishResultModel {
    match r {
        Ok(PublishOutcome::Published(resp)) => PublishResultModel::Published(resp@),
        Ok(PublishOutcome::Replayed(resp)) => PublishResultModel::Replayed(resp@),
        Err(e) => PublishResultModel::Rejected(e),
    }
}

/// A redirect response: status 303 with a single `location` header and an
/// empty body.
pub open spec fn see_other_model(location: Seq<char>) -> ResponseModel {
    ResponseModel {
        status: 303,
        headers: seq![HeaderPairModel { name: "location"@, value: encode_utf8(location) }],
        body: Seq::<u8>::empty(),
    }
}

/// Builds the redirect that the publish handler returns.
pub fn see_other(location: &str) -> (r: StoredResponse)
    ensures
        r@ == see_other_model(location@),
{
    let mut headers: Vec<HeaderPair> = Vec::new();
    headers.push(HeaderPair { name: String::from_str("location"), value: location.as_bytes_vec() });
    let r = StoredResponse { status: 303, headers, body: Vec::new() };
    proof {
        assert(r.headers.deep_view() =~= see_other_model(location@).headers);
        assert(r.body@ =~= Seq::<u8>::empty());
    }
    r
}

/// The response a fresh publish captures and a replay reproduces.
pub open spec fn publish_response() -> ResponseModel {
    see_other_model("/admin/newsletters"@)
}

/// Stores the immutable issue row under the freshly drawn `id`, refusing a
/// colliding id as the primary key would.
pub fn insert_newsletter_issue(
    store: &mut Store,
    title: String,
    text_content: String,
    html_content: String,
    now: i64,
    id: u128,
) -> (r: Result<u128, StoreError>)
    requires
        store_wf(old(store)@),
    ensures
        store_wf(final(store)@),
        final(store)@.idem == old(store)@.idem,
        final(store)@.subscribers == old(store)@.subscribers,
        final(store)@.queue == old(store)@.queue,
        match r {
            Ok(rid) => rid == id && !has_issue(old(store)@.issues, id) && final(store)@.issues
                == old(store)@.issues.push(
                IssueModel {
                    id,
                    title: title@,
                    text_content: text_content@,
                    html_content: html_content@,
                    published_at: now,
                },
            ),
            Err(e) => e == StoreError::DuplicateIssue && has_issue(old(store)@.issues, id)
                && final(store)@ == old(store)@,
        },
{
    match store.find_issue(id) {
        Some(i) => {
            proof {
                assert(store@.issues[i as int].id == id);
            }
            Err(StoreError::DuplicateIssue)
        },
        None => {
            let ghost prev = store@;
            store.issues.push(
                NewsletterIssue { id, title, text_content, html_content, published_at: now },
            );
            proof {
                let added = IssueModel {
                    id,
                    title: title@,
                    text_content: text_content@,
                    html_content: html_content@,
                    published_at: now,
                };
                assert(store@.issues =~= prev.issues.push(added));
                assert(store@.idem == prev.idem);
                assert(store@.subscribers =~= prev.subscribers);
                assert(store@.subscribers == prev.subscribers);
                assert(store@.queue =~= prev.queue);
                assert(store@.queue == prev.queue);
                let post = store@.issues;
                assert forall|a: int, b: int| 0 <= a < b < post.len() implies post[a].id
                    != post[b].id by {
                    if b == post.len() - 1 {
                        assert(prev.issues[a].id != id);
                    }
                }
                assert forall|k: int| 0 <= k < store@.queue.len() implies has_issue(
                    store@.issues,
                    #[trigger] store@.queue[k].issue_id,
                ) by {
                    assert(has_issue(prev.issues, prev.queue[k].issue_id));
                    let w = choose|i: int|
                        0 <= i < prev.issues.len() && prev.issues[i].id == prev.queue[k].issue_id;
                    assert(post[w].id == prev.queue[k].issue_id);
                }
            }
            Ok(id)
        },
    }
}

/// Within the publishing transition, inserts one delivery task per subscriber
/// currently confirmed — the snapshot a single insert-select statement
/// observes.
pub fn enqueue_delivery_tasks(store: &mut Store, issue_id: u128)
    requires
        store_wf(old(store)@),
        has_issue(old(store)@.issues, issue_id),
        !has_task_for_issue(old(store)@.queue, issue_id),
    ensures
        store_wf(final(store)@),
        final(store)@.idem == old(store)@.idem,
        final(store)@.subscribers == old(store)@.subscribers,
        final(store)@.issues == old(store)@.issues,
        final(store)@.queue == old(store)@.queue + delivery_tasks_for(
            old(store)@.subscribers,
            issue_id,
        ),
{
    let ghost subs = old(store)@.subscribers;
    let n = store.subscribers.len();
    let mut i: usize = 0;
    while i < n
        invariant
            i <= n,
            n == store.subscribers.len(),
            store@.idem == old(store)@.idem,
            store@.subscribers == subs,
            store@.issues == old(store)@.issues,
            store@.queue == old(store)@.queue + delivery_tasks_for(
                subs.take(i as int),
                issue_id,
            ),
        decreases n - i,
    {
        let confirmed = store.subscribers[i].confirmed;
        if confirmed {
            let email = store.subscribers[i].email.clone();
            let ghost prev = store@;
            store.queue.push(DeliveryTask { issue_id, email, claimed: false });
            proof {
                assert(store@.queue =~= prev.queue.push(
                    TaskModel { issue_id, email: subs[i as int].email, claimed: false },
                ));
                assert(store@.idem == prev.idem);
                assert(store@.subscribers =~= prev.subscribers);
                assert(store@.subscribers == prev.subscribers);
                assert(store@.issues =~= prev.issues);
                assert(store@.issues == prev.issues);
            }
        }
        i = i + 1;
        proof {
            let t = i as int;
            assert(subs.take(t).drop_last() =~= subs.take(t - 1));
            assert(subs.take(t).last() == subs[t - 1]);
            assert(store@.queue =~= old(store)@.queue + delivery_tasks_for(
                subs.take(t),
                issue_id,
            ));
        }
    }
    proof {
        assert(subs.take(n as int) =~= subs);
        lemma_outbox_membership(subs, issue_id);
        lemma_outbox_distinct(subs, issue_id);
        let tasks = delivery_tasks_for(subs, issue_id);
        let post = store@.queue;
        let base = old(store)@.queue;
        assert forall|k: int, l: int|
            0 <= k < l < post.len() && post[k].issue_id == post[l].issue_id implies post[k].email
            != post[l].email by {
            if l >= base.len() {
                assert(post[l] == tasks[l - base.len()]);
                assert(post[l].issue_id == issue_id);
                if k < base.len() {
                    assert(post[k] == base[k]);
                    assert(has_task_for_issue(base, issue_id));
                } else {
                    assert(post[k] == tasks[k - base.len()]);
                }
            } else {
                assert(post[k] == base[k] && post[l] == base[l]);
            }
        }
        assert forall|k: int| 0 <= k < post.len() implies has_issue(
            store@.issues,
            #[trigger] post[k].issue_id,
        ) by {
            if k < base.len() {
                assert(post[k] == base[k]);
                assert(has_issue(old(store)@.issues, base[k].issue_id));
            } else {
                assert(post[k] == tasks[k - base.len()]);
                assert(post[k].issue_id == issue_id);
            }
        }
    }
}

/// The store after a publish request: what the handler's single transaction
/// commits, or the store unchanged where nothing committed.
pub open spec fn after_publish(
    s: StoreModel,
    user: u128,
    form: NewsletterDataModel,
    now: i64,
    fresh: u128,
) -> StoreModel {
    if !key_valid(form.idempotency_key) {
        s
    } else if has_record(s.idem, user, form.idempotency_key) {
        s
    } else if form.title.len() == 0 {
        s
    } else if form.text_content.len() == 0 || form.html_content.len() == 0 {
        s
    } else if has_issue(s.issues, fresh) {
        s
    } else {
        StoreModel {
            idem: s.idem.push(
                RecordModel {
                    user,
                    key: form.idempotency_key,
                    created_at: now,
                    response: Some(publish_response()),
                },
            ),
            subscribers: s.subscribers,
            issues: s.issues.push(
                IssueModel {
                    id: fresh,
                    title: form.title,
                    text_content: form.text_content,
                    html_content: form.html_content,
                    published_at: now,
                },
            ),
            queue: s.queue + delivery_tasks_for(s.subscribers, fresh),
        }
    }
}

/// What a publish request returns, as a function of the store it found.
pub open spec fn publish_result(
    s: StoreModel,
    user: u128,
    form: NewsletterDataModel,
    fresh: u128,
) -> PublishResultModel {
    if !key_valid(form.idempotency_key) {
        PublishResultModel::Rejected(PublishError::Unexpected(PublishFault::InvalidIdempotencyKey))
    } else if has_record(s.idem, user, form.idempotency_key) {
        match record_at(s.idem, user, form.idempotency_key).response {
            Some(resp) => PublishResultModel::Replayed(resp),
            None => PublishResultModel::Rejected(
                PublishError::Unexpected(PublishFault::IncompleteIdempotencyRecord),
            ),
        }
    } else if form.title.len() == 0 {
        PublishResultModel::Rejected(PublishError::MissingTitle)
    } else if form.text_content.len() == 0 || form.html_content.len() == 0 {
        PublishResultModel::Rejected(PublishError::MissingContent)
    } else if has_issue(s.issues, fresh) {
        PublishResultModel::Rejected(PublishError::Unexpected(PublishFault::DuplicateIssueId))
    } else {
        PublishResultModel::Published(publish_response())
    }
}

/// The publish handler as one transition on the store. `now` is the commit
/// time and `issue_id` the freshly drawn id for the issue row; the handler
/// decides everything else from the store it finds.
pub fn publish_newsletter(
    store: &mut Store,
    user: u128,
    form: NewsletterData,
    now: i64,
    issue_id: u128,
) -> (r: Result<PublishOutcome, PublishError>)
    requires
        store_wf(old(store)@),
    ensures
        store_wf(final(store)@),
        final(store)@ == after_publish(old(store)@, user, form@, now, issue_id),
        publish_result_of(r) == publish_result(old(store)@, user, form@, issue_id),
{
    let NewsletterData { title, text_content, html_content, idempotency_key } = form;
    let key = match IdempotencyKey::try_new(idempotency_key) {
        Ok(k) => k,
        Err(_) => {
            return Err(PublishError::Unexpected(PublishFault::InvalidIdempotencyKey));
        },
    };
    match store.idempotency.try_processing(user, &key, now) {
        Err(_) => {
            proof {
                assert(store@ == old(store)@);
            }
            return Err(PublishError::Unexpected(PublishFault::IncompleteIdempotencyRecord));
        },
        Ok(NextAction::ReturnSavedResponse(resp)) => {
            proof {
                assert(store@ == old(store)@);
            }
            return Ok(PublishOutcome::Replayed(resp));
        },
        Ok(NextAction::StartProcessing) => {},
    }
    let ghost claimed = RecordModel {
        user,
        key: key@,
        created_at: now,
        response: None,
    };
    proof {
        assert(store@.idem == old(store)@.idem.push(claimed));
        assert(store@.subscribers =~= old(store)@.subscribers);
        assert(store@.subscribers == old(store)@.subscribers);
        assert(store@.issues =~= old(store)@.issues);
        assert(store@.issues == old(store)@.issues);
        assert(store@.queue =~= old(store)@.queue);
        assert(store@.queue == old(store)@.queue);
    }
    if title.as_str().is_empty() {
        store.idempotency.rollback_claim();
        proof {
            assert(store@.idem =~= old(store)@.idem);
            assert(store@ == old(store)@);
        }
        return Err(PublishError::MissingTitle);
    }
    if text_content.as_str().is_empty() || html_content.as_str().is_empty() {
        store.idempotency.rollback_claim();
        proof {
            assert(store@.idem =~= old(store)@.idem);
            assert(store@ == old(store)@);
        }
        return Err(PublishError::MissingContent);
    }
    proof {
        assert(store_wf(store@));
    }
    let ghost with_claim = store@;
    match insert_newsletter_issue(store, title, text_content, html_content, now, issue_id) {
        Err(_) => {
            store.idempotency.rollback_claim();
            proof {
                assert(store@.idem =~= old(store)@.idem);
                assert(store@ == old(store)@);
            }
            return Err(PublishError::Unexpected(PublishFault::DuplicateIssueId));
        },
        Ok(_) => {},
    }
    proof {
        assert(store@.issues[store@.issues.len() - 1].id == issue_id);
        assert(has_issue(store@.issues, issue_id));
        assert(!has_task_for_issue(store@.queue, issue_id)) by {
            if has_task_for_issue(old(store)@.queue, issue_id) {
                let k = choose|k: int|
                    0 <= k < old(store)@.queue.len() && old(store)@.queue[k].issue_id == issue_id;
                assert(has_issue(old(store)@.issues, old(store)@.queue[k].issue_id));
            }
        }
    }
    enqueue_delivery_tasks(store, issue_id);
    let response = see_other("/admin/newsletters");
    let ghost before_save = store@;
    let returned = store.idempotency.save_response(user, &key, response);
    proof {
        lemma_record_index_unique(
            before_save.idem,
            user,
            key@,
            old(store)@.idem.len() as int,
        );
        let completed = RecordModel {
            user,
            key: key@,
            created_at: now,
            response: Some(publish_response()),
        };
        assert(store@.idem =~= old(store)@.idem.push(completed));
        assert(store@.subscribers == old(store)@.subscribers);
        assert(store@.issues == after_publish(old(store)@, user, form@, now, issue_id).issues);
        assert(store@.queue == after_publish(old(store)@, user, form@, now, issue_id).queue);
        assert(store@ == after_publish(old(store)@, user, form@, now, issue_id));
    }
    Ok(PublishOutcome::Published(returned))
}

/// `publish_newsletter` with the issue id drawn from the process randomness
/// and the commit time read from the process clock — the signature the route
/// handler calls. Both are arbitrary to the proof, so the contract holds for
/// every reading.
pub fn publish_newsletter_now(store: &mut Store, user: u128, form: NewsletterData) -> (r: Result<
    PublishOutcome,
    PublishError,
>)
    requires
        store_wf(old(store)@),
    ensures
        store_wf(final(store)@),
        exists|now: i64, fresh: u128|
            final(store)@ == after_publish(old(store)@, user, form@, now, fresh)
                && publish_result_of(r) == publish_result(old(store)@, user, form@, fresh),
{
    let now = now_unix_seconds();
    let fresh = fresh_id();
    let r = publish_newsletter(store, user, form, now, fresh);
    proof {
        assert(final(store)@ == after_publish(old(store)@, user, form@, now, fresh)
            && publish_result_of(r) == publish_result(old(store)@, user, form@, fresh));
    }
    r
}

/// Idempotency of the publish path: under a fresh valid key a first request
/// commits the issue row, its delivery tasks and the captured response
/// exactly once; a second request with the same user and key replays the
/// byte-identical response and changes nothing.
pub proof fn lemma_publish_idempotent(
    s0: StoreModel,
    user: u128,
    form: NewsletterDataModel,
    now1: i64,
    now2: i64,
    id1: u128,
    id2: u128,
)
    requires
        store_wf(s0),
        key_valid(form.idempotency_key),
        !has_record(s0.idem, user, form.idempotency_key),
        form.title.len() > 0,
        form.text_content.len() > 0,
        form.html_content.len() > 0,
        !has_issue(s0.issues, id1),
    ensures
        ({
            let s1 = after_publish(s0, user, form, now1, id1);
            let r1 = publish_result(s0, user, form, id1);
            let s2 = after_publish(s1, user, form, now2, id2);
            let r2 = publish_result(s1, user, form, id2);
            &&& r1 == PublishResultModel::Published(publish_response())
            &&& r2 == PublishResultModel::Replayed(publish_response())
            &&& s2 == s1
            &&& s1.issues.len() == s0.issues.len() + 1
            &&& s1.queue.len() == s0.queue.len() + confirmed_count(s0.subscribers)
        }),
{
    let key = form.idempotency_key;
    let s1 = after_publish(s0, user, form, now1, id1);
    let rec = RecordModel { user, key, created_at: now1, response: Some(publish_response()) };
    assert(s1.idem == s0.idem.push(rec));
    assert(s1.idem[s1.idem.len() - 1] == rec);
    assert(has_record(s1.idem, user, key));
    assert forall|i: int, j: int|
        0 <= i < j < s1.idem.len() && s1.idem[i].user == s1.idem[j].user implies s1.idem[i].key
        != s1.idem[j].key by {
        if j == s1.idem.len() - 1 {
            if s0.idem[i].user == user && s0.idem[i].key == key {
                assert(has_record(s0.idem, user, key));
            }
        }
    }
    lemma_record_index_unique(s1.idem, user, key, s1.idem.len() - 1);
    assert(record_at(s1.idem, user, key) == rec);
    lemma_outbox_count(s0.subscribers, id1);
}

} // verus!
