//! The business-state tables that the publish path and the delivery worker
//! share: subscribers, immutable newsletter issues, and the outbox of
//! per-recipient delivery tasks.

use vstd::prelude::*;

use crate::idempotency::{table_wf, IdempotencyStore, RecordModel};

verus! {

/// A subscriber row. `confirmed` mirrors the `status` column: only confirmed
/// subscribers receive newsletter issues.
pub struct Subscriber {
    pub id: u128,
    pub email: String,
    pub name: String,
    pub subscribed_at: i64,
    pub confirmed: bool,
}

/// The mathematical image of a subscriber row.
pub struct SubscriberModel {
    pub id: u128,
    pub email: Seq<char>,
    pub name: Seq<char>,
    pub subscribed_at: i64,
    pub confirmed: bool,
}

impl View for Subscriber {
    type V = SubscriberModel;

    open spec fn view(&self) -> SubscriberModel {
        SubscriberModel {
            id: self.id,
            email: self.email@,
            name: self.name@,
            subscribed_at: self.subscribed_at,
            confirmed: self.confirmed,
        }
    }
}

impl DeepView for Subscriber {
    type V = SubscriberModel;

    open spec fn deep_view(&self) -> SubscriberModel {
        self.view()
    }
}

/// A newsletter issue. Immutable once created; read-only input to delivery.
pub struct NewsletterIssue {
    pub id: u128,
    pub title: String,
    pub text_content: String,
    pub html_content: String,
    pub published_at: i64,
}

/// The mathematical image of an issue row.
pub struct IssueModel {
    pub id: u128,
    pub title: Seq<char>,
    pub text_content: Seq<char>,
    pub html_content: Seq<char>,
    pub published_at: i64,
}

impl View for NewsletterIssue {
    type V = IssueModel;

    open spec fn view(&self) -> IssueModel {
        IssueModel {
            id: self.id,
            title: self.title@,
            text_content: self.text_content@,
            html_content: self.html_content@,
            published_at: self.published_at,
        }
    }
}

impl DeepView for NewsletterIssue {
    type V = IssueModel;

    open spec fn deep_view(&self) -> IssueModel {
        self.view()
    }
}

/// One pending unit of delivery work: deliver issue `issue_id` to
/// `email`. `claimed` models the row lock a worker holds while it works;
/// absence of the row means delivered or intentionally skipped.
pub struct DeliveryTask {
    pub issue_id: u128,
    pub email: String,
    pub claimed: bool,
}

/// The mathematical image of an outbox row.
pub struct TaskModel {
    pub issue_id: u128,
    pub email: Seq<char>,
    pub claimed: bool,
}

impl View for DeliveryTask {
    type V = TaskModel;

    open spec fn view(&self) -> TaskModel {
        TaskModel { issue_id: self.issue_id, email: self.email@, claimed: self.claimed }
    }
}

impl DeepView for DeliveryTask {
    type V = TaskModel;

    open spec fn deep_view(&self) -> TaskModel {
        self.view()
    }
}

/// The relational store as one value: the idempotency table plus the three
/// business tables. All coordination in the system is row contention here.
pub struct Store {
    pub idempotency: IdempotencyStore,
    pub subscribers: Vec<Subscriber>,
    pub issues: Vec<NewsletterIssue>,
    pub queue: Vec<DeliveryTask>,
}

/// The mathematical image of the whole store.
pub struct StoreModel {
    pub idem: Seq<RecordModel>,
    pub subscribers: Seq<SubscriberModel>,
    pub issues: Seq<IssueModel>,
    pub queue: Seq<TaskModel>,
}

impl View for Store {
    type V = StoreModel;

    open spec fn view(&self) -> StoreModel {
        StoreModel {
            idem: self.idempotency@,
            subscribers: self.subscribers.deep_view(),
            issues: self.issues.deep_view(),
            queue: self.queue.deep_view(),
        }
    }
}

/// Whether some issue row carries `id`.
pub open spec fn has_issue(issues: Seq<IssueModel>, id: u128) -> bool {
    exists|i: int| 0 <= i < issues.len() && issues[i].id == id
}

/// The index of the issue row carrying `id`; meaningful only when `has_issue`
/// holds, and unique under `store_wf`.
pub open spec fn issue_index(issues: Seq<IssueModel>, id: u128) -> int {
    choose|i: int| 0 <= i < issues.len() && issues[i].id == id
}

/// The issue row carrying `id`; meaningful only when `has_issue` holds.
pub open spec fn issue_at(issues: Seq<IssueModel>, id: u128) -> IssueModel {
    issues[issue_index(issues, id)]
}

/// Whether some outbox row is keyed `(issue_id, email)`.
pub open spec fn has_task(queue: Seq<TaskModel>, issue_id: u128, email: Seq<char>) -> bool {
    exists|i: int| 0 <= i < queue.len() && queue[i].issue_id == issue_id && queue[i].email == email
}

/// Whether any outbox row carries `issue_id`.
pub open spec fn has_task_for_issue(queue: Seq<TaskModel>, issue_id: u128) -> bool {
    exists|i: int| 0 <= i < queue.len() && queue[i].issue_id == issue_id
}

/// The store's row invariants: unique idempotency slots, unique subscriber
/// ids and emails, unique issue ids, unique outbox keys, and every outbox row
/// referring to an existing issue.
pub open spec fn store_wf(s: StoreModel) -> bool {
    &&& table_wf(s.idem)
    &&& forall|i: int, j: int|
        0 <= i < j < s.subscribers.len() ==> s.subscribers[i].id != s.subscribers[j].id
            && s.subscribers[i].email != s.subscribers[j].email
    &&& forall|i: int, j: int| 0 <= i < j < s.issues.len() ==> s.issues[i].id != s.issues[j].id
    &&& forall|i: int, j: int|
        0 <= i < j < s.queue.len() && s.queue[i].issue_id == s.queue[j].issue_id
            ==> s.queue[i].email != s.queue[j].email
    &&& forall|i: int| 0 <= i < s.queue.len() ==> has_issue(s.issues, #[trigger] s.queue[i].issue_id)
}

/// The delivery tasks that enqueueing `issue_id` creates: one per confirmed
/// subscriber, in table order, snapshotted at the moment of the statement.
pub open spec fn delivery_tasks_for(subs: Seq<SubscriberModel>, issue_id: u128) -> Seq<TaskModel>
    decreases subs.len(),
{
    if subs.len() == 0 {
        Seq::empty()
    } else {
        let head = delivery_tasks_for(subs.drop_last(), issue_id);
        if subs.last().confirmed {
            head.push(TaskModel { issue_id, email: subs.last().email, claimed: false })
        } else {
            head
        }
    }
}

/// How many subscribers are confirmed.
pub open spec fn confirmed_count(subs: Seq<SubscriberModel>) -> nat
    decreases subs.len(),
{
    if subs.len() == 0 {
        0
    } else {
        confirmed_count(subs.drop_last()) + if subs.last().confirmed {
            1nat
        } else {
            0nat
        }
    }
}

/// Whether some subscriber row is confirmed and carries `email`.
pub open spec fn has_confirmed_subscriber(subs: Seq<SubscriberModel>, email: Seq<char>) -> bool {
    exists|i: int| 0 <= i < subs.len() && subs[i].confirmed && subs[i].email == email
}

/// Outbox completeness, counted: enqueueing creates exactly one task per
/// confirmed subscriber.
pub proof fn lemma_outbox_count(subs: Seq<SubscriberModel>, issue_id: u128)
    ensures
        delivery_tasks_for(subs, issue_id).len() == confirmed_count(subs),
    decreases subs.len(),
{
    if subs.len() > 0 {
        lemma_outbox_count(subs.drop_last(), issue_id);
    }
}

/// Outbox completeness, membership: a task for `(issue_id, email)` is created
/// if and only if a confirmed subscriber carries `email`; every created task
/// carries `issue_id` and is unclaimed.
pub proof fn lemma_outbox_membership(subs: Seq<SubscriberModel>, issue_id: u128)
    ensures
        forall|email: Seq<char>|
            has_task(delivery_tasks_for(subs, issue_id), issue_id, email)
                <==> #[trigger] has_confirmed_subscriber(subs, email),
        forall|k: int|
            0 <= k < delivery_tasks_for(subs, issue_id).len()
                ==> (#[trigger] delivery_tasks_for(subs, issue_id)[k]).issue_id == issue_id
                && !delivery_tasks_for(subs, issue_id)[k].claimed,
    decreases subs.len(),
{
    let tasks = delivery_tasks_for(subs, issue_id);
    if subs.len() == 0 {
        assert forall|email: Seq<char>| #[trigger]
            has_confirmed_subscriber(subs, email) implies has_task(
            tasks,
            issue_id,
            email,
        ) by {
            let i = choose|i: int| 0 <= i < subs.len() && subs[i].confirmed && subs[i].email
                == email;
            assert(false);
        }
    } else {
        let rest = subs.drop_last();
        lemma_outbox_membership(rest, issue_id);
        let prior = delivery_tasks_for(rest, issue_id);
        assert forall|email: Seq<char>| #[trigger]
            has_confirmed_subscriber(subs, email) implies has_task(tasks, issue_id, email) by {
            let i = choose|i: int| 0 <= i < subs.len() && subs[i].confirmed && subs[i].email
                == email;
            if i < subs.len() - 1 {
                assert(rest[i] == subs[i]);
                assert(has_confirmed_subscriber(rest, email));
                let k = choose|k: int|
                    0 <= k < prior.len() && prior[k].issue_id == issue_id && prior[k].email
                        == email;
                assert(tasks[k] == prior[k]);
            } else {
                assert(subs.last().confirmed && subs.last().email == email);
                assert(tasks.last().issue_id == issue_id && tasks.last().email == email);
            }
        }
        assert forall|email: Seq<char>|
            has_task(tasks, issue_id, email) implies #[trigger] has_confirmed_subscriber(
            subs,
            email,
        ) by {
            let k = choose|k: int|
                0 <= k < tasks.len() && tasks[k].issue_id == issue_id && tasks[k].email == email;
            if subs.last().confirmed && k == tasks.len() - 1 {
                assert(subs.last().confirmed && subs.last().email == email);
            } else {
                assert(tasks[k] == prior[k]);
                assert(has_task(prior, issue_id, email));
                assert(has_confirmed_subscriber(rest, email));
                let i = choose|i: int|
                    0 <= i < rest.len() && rest[i].confirmed && rest[i].email == email;
                assert(subs[i] == rest[i]);
            }
        }
    }
}

/// Under unique subscriber emails the created tasks carry pairwise distinct
/// emails, so the outbox key `(issue_id, email)` stays unique.
pub proof fn lemma_outbox_distinct(subs: Seq<SubscriberModel>, issue_id: u128)
    requires
        forall|i: int, j: int|
            0 <= i < j < subs.len() ==> (#[trigger] subs[i]).email != (#[trigger] subs[j]).email,
    ensures
        forall|k: int, l: int|
            0 <= k < l < delivery_tasks_for(subs, issue_id).len()
                ==> (#[trigger] delivery_tasks_for(subs, issue_id)[k]).email
                != (#[trigger] delivery_tasks_for(subs, issue_id)[l]).email,
    decreases subs.len(),
{
    let tasks = delivery_tasks_for(subs, issue_id);
    if subs.len() > 0 {
        let rest = subs.drop_last();
        assert(forall|i: int| 0 <= i < rest.len() ==> rest[i] == subs[i]);
        lemma_outbox_distinct(rest, issue_id);
        let prior = delivery_tasks_for(rest, issue_id);
        if subs.last().confirmed {
            lemma_outbox_membership(rest, issue_id);
            assert forall|k: int, l: int| 0 <= k < l < tasks.len() implies (#[trigger] tasks[k]).email
                != (#[trigger] tasks[l]).email by {
                if l == tasks.len() - 1 {
                    assert(tasks[k] == prior[k]);
                    assert(has_task(prior, issue_id, prior[k].email));
                    assert(has_confirmed_subscriber(rest, prior[k].email));
                    let i = choose|i: int|
                        0 <= i < rest.len() && rest[i].confirmed && rest[i].email
                            == prior[k].email;
                    assert(subs[i].email != subs.last().email);
                } else {
                    assert(tasks[k] == prior[k] && tasks[l] == prior[l]);
                }
            }
        }
    }
}

/// A store-level failure as the background loops classify it: either the
/// connection pool is closed for good, or the error is transient and the
/// loop should keep going.
#[derive(PartialEq, Eq, Structural, Debug, Clone, Copy)]
pub enum StoreFault {
    PoolClosed,
    Transient,
}

/// Why an insert was refused: the unique constraint it would have broken.
#[derive(PartialEq, Eq, Structural, Debug, Clone, Copy)]
pub enum StoreError {
    DuplicateSubscriber,
    DuplicateIssue,
    DuplicateToken,
}

/// Whether some subscriber row carries `id`.
pub open spec fn has_subscriber(subs: Seq<SubscriberModel>, id: u128) -> bool {
    exists|i: int| 0 <= i < subs.len() && subs[i].id == id
}

/// The index of the subscriber row carrying `id`; meaningful only when
/// `has_subscriber` holds, and unique under `store_wf`.
pub open spec fn subscriber_index(subs: Seq<SubscriberModel>, id: u128) -> int {
    choose|i: int| 0 <= i < subs.len() && subs[i].id == id
}

/// The subscriber row carrying `id`; meaningful only when `has_subscriber`
/// holds.
pub open spec fn subscriber_at(subs: Seq<SubscriberModel>, id: u128) -> SubscriberModel {
    subs[subscriber_index(subs, id)]
}

/// Under `store_wf`, any index holding subscriber `id` is the
/// `subscriber_index`.
pub proof fn lemma_subscriber_index_unique(subs: Seq<SubscriberModel>, id: u128, i: int)
    requires
        forall|k: int, l: int| 0 <= k < l < subs.len() ==> subs[k].id != subs[l].id,
        0 <= i < subs.len(),
        subs[i].id == id,
    ensures
        has_subscriber(subs, id),
        subscriber_index(subs, id) == i,
{
    assert(has_subscriber(subs, id));
    let j = subscriber_index(subs, id);
    assert(0 <= j < subs.len() && subs[j].id == id);
    if i < j {
        assert(subs[i].id != subs[j].id);
    } else if j < i {
        assert(subs[j].id != subs[i].id);
    }
}

impl Store {
    pub fn new() -> (s: Store)
        ensures
            store_wf(s@),
            s@.idem == Seq::<RecordModel>::empty(),
            s@.subscribers == Seq::<SubscriberModel>::empty(),
            s@.issues == Seq::<IssueModel>::empty(),
            s@.queue == Seq::<TaskModel>::empty(),
    {
        let s = Store {
            idempotency: IdempotencyStore::new(),
            subscribers: Vec::new(),
            issues: Vec::new(),
            queue: Vec::new(),
        };
        proof {
            assert(s.subscribers.deep_view() =~= Seq::<SubscriberModel>::empty());
            assert(s.issues.deep_view() =~= Seq::<IssueModel>::empty());
            assert(s.queue.deep_view() =~= Seq::<TaskModel>::empty());
        }
        s
    }

    /// Inserts a subscriber in `pending_confirmation` status, refusing a
    /// duplicate id or email as the unique constraints would.
    pub fn add_subscriber(
        &mut self,
        id: u128,
        email: String,
        name: String,
        now: i64,
    ) -> (r: Result<(), StoreError>)
        requires
            store_wf(old(self)@),
        ensures
            store_wf(final(self)@),
            final(self)@.idem == old(self)@.idem,
            final(self)@.issues == old(self)@.issues,
            final(self)@.queue == old(self)@.queue,
            match r {
                Ok(()) => (forall|i: int|
                    0 <= i < old(self)@.subscribers.len()
                        ==> (#[trigger] old(self)@.subscribers[i]).id != id
                        && old(self)@.subscribers[i].email != email@) && final(self)@.subscribers
                    == old(self)@.subscribers.push(
                    SubscriberModel {
                        id,
                        email: email@,
                        name: name@,
                        subscribed_at: now,
                        confirmed: false,
                    },
                ),
                Err(e) => e == StoreError::DuplicateSubscriber && final(self)@ == old(self)@
                    && (exists|i: int|
                    0 <= i < old(self)@.subscribers.len()
                        && ((#[trigger] old(self)@.subscribers[i]).id == id
                        || old(self)@.subscribers[i].email == email@)),
            },
    {
        match self.find_subscriber_conflict(id, &email) {
            Some(i) => {
                proof {
                    let w = i as int;
                    assert(self@.subscribers[w].id == id || self@.subscribers[w].email == email@);
                }
                Err(StoreError::DuplicateSubscriber)
            },
            None => {
                let ghost prev = self@;
                self.subscribers.push(
                    Subscriber { id, email, name, subscribed_at: now, confirmed: false },
                );
                proof {
                    let added = SubscriberModel {
                        id,
                        email: email@,
                        name: name@,
                        subscribed_at: now,
                        confirmed: false,
                    };
                    assert(self@.subscribers =~= prev.subscribers.push(added));
                    assert(self@.issues =~= prev.issues);
                    assert(self@.issues == prev.issues);
                    assert(self@.queue =~= prev.queue);
                    assert(self@.queue == prev.queue);
                    let post = self@.subscribers;
                    assert forall|a: int, b: int| 0 <= a < b < post.len() implies post[a].id
                        != post[b].id && post[a].email != post[b].email by {
                        if b == post.len() - 1 {
                            assert(prev.subscribers[a].id != id && prev.subscribers[a].email
                                != email@);
                        }
                    }
                }
                Ok(())
            },
        }
    }

    /// Marks the subscriber row `id` as confirmed, as clicking the
    /// confirmation link does. A missing id changes nothing.
    pub fn confirm_subscriber(&mut self, id: u128)
        requires
            store_wf(old(self)@),
        ensures
            store_wf(final(self)@),
            final(self)@.idem == old(self)@.idem,
            final(self)@.issues == old(self)@.issues,
            final(self)@.queue == old(self)@.queue,
            has_subscriber(old(self)@.subscribers, id) ==> final(self)@.subscribers == old(
                self,
            )@.subscribers.update(
                subscriber_index(old(self)@.subscribers, id),
                SubscriberModel {
                    confirmed: true,
                    ..old(self)@.subscribers[subscriber_index(old(self)@.subscribers, id)]
                },
            ),
            !has_subscriber(old(self)@.subscribers, id) ==> final(self)@ == old(self)@,
    {
        let n = self.subscribers.len();
        let mut i: usize = 0;
        while i < n
            invariant
                i <= n,
                n == self.subscribers.len(),
                self@ == old(self)@,
                forall|j: int| 0 <= j < i ==> (#[trigger] self@.subscribers[j]).id != id,
            decreases n - i,
        {
            if self.subscribers[i].id == id {
                proof {
                    lemma_subscriber_index_unique(self@.subscribers, id, i as int);
                }
                let row = &self.subscribers[i];
                let updated = Subscriber {
                    id: row.id,
                    email: row.email.clone(),
                    name: row.name.clone(),
                    subscribed_at: row.subscribed_at,
                    confirmed: true,
                };
                let ghost prev = self@;
                self.subscribers.set(i, updated);
                proof {
                    assert(self@.subscribers =~= prev.subscribers.update(
                        i as int,
                        SubscriberModel { confirmed: true, ..prev.subscribers[i as int] },
                    ));
                    assert(self@.idem == prev.idem);
                    assert(self@.issues =~= prev.issues);
                    assert(self@.issues == prev.issues);
                    assert(self@.queue =~= prev.queue);
                    assert(self@.queue == prev.queue);
                    assert forall|a: int, b: int| 0 <= a < b < self@.subscribers.len() implies self@
                        .subscribers[a].id != self@.subscribers[b].id && self@.subscribers[a].email
                        != self@.subscribers[b].email by {
                        assert(self@.subscribers[a].id == prev.subscribers[a].id
                            && self@.subscribers[a].email == prev.subscribers[a].email);
                        assert(self@.subscribers[b].id == prev.subscribers[b].id
                            && self@.subscribers[b].email == prev.subscribers[b].email);
                    }
                }
                return ;
            }
            i = i + 1;
        }
    }

    /// Linear scan for the issue row carrying `id`.
    pub fn find_issue(&self, id: u128) -> (r: Option<usize>)
        ensures
            match r {
                Some(i) => i < self@.issues.len() && self@.issues[i as int].id == id,
                None => !has_issue(self@.issues, id),
            },
    {
        let n = self.issues.len();
        let mut i: usize = 0;
        while i < n
            invariant
                i <= n,
                forall|j: int| 0 <= j < i ==> (#[trigger] self@.issues[j]).id != id,
            decreases n - i,
        {
            if self.issues[i].id == id {
                return Some(i);
            }
            i = i + 1;
        }
        None
    }

    /// Linear scan for a subscriber row sharing `id` or `email`.
    fn find_subscriber_conflict(&self, id: u128, email: &String) -> (r: Option<usize>)
        ensures
            match r {
                Some(i) => i < self@.subscribers.len() && (self@.subscribers[i as int].id == id
                    || self@.subscribers[i as int].email == email@),
                None => forall|j: int|
                    0 <= j < self@.subscribers.len() ==> (#[trigger] self@.subscribers[j]).id != id
                        && self@.subscribers[j].email != email@,
            },
    {
        let n = self.subscribers.len();
        let mut i: usize = 0;
        while i < n
            invariant
                i <= n,
                forall|j: int|
                    0 <= j < i ==> (#[trigger] self@.subscribers[j]).id != id
                        && self@.subscribers[j].email != email@,
            decreases n - i,
        {
            if self.subscribers[i].id == id || self.subscribers[i].email == *email {
                return Some(i);
            }
            i = i + 1;
        }
        None
    }
}

} // verus!
