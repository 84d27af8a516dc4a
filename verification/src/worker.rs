//! The delivery worker: claim one outbox row, perform the send, retire the
//! row. The claim is a claim-or-skip lock, so any number of workers drain the
//! same queue with no coordination and no double delivery; the retire is the
//! only commit point, so delivery is at-least-once.

use vstd::prelude::*;
use vstd::pervasive::VecAdditionalExecFns;

use crate::domain::{email_is_valid, email_valid};
use crate::store::{
    has_issue, has_task, issue_at, store_wf, DeliveryTask, IssueModel, NewsletterIssue, Store,
    StoreFault, StoreModel, TaskModel,
};

verus! {

/// What one worker iteration did.
#[derive(PartialEq, Eq, Structural, Debug)]
pub enum ExecutionOutcome {
    TaskCompleted,
    EmptyQueue,
}

/// One call recorded against the email collaborator.
pub struct SentEmail {
    pub recipient: String,
    pub subject: String,
    pub html: String,
    pub text: String,
}

/// The mathematical image of one recorded send.
pub struct SentEmailModel {
    pub recipient: Seq<char>,
    pub subject: Seq<char>,
    pub html: Seq<char>,
    pub text: Seq<char>,
}

impl View for SentEmail {
    type V = SentEmailModel;

    open spec fn view(&self) -> SentEmailModel {
        SentEmailModel {
            recipient: self.recipient@,
            subject: self.subject@,
            html: self.html@,
            text: self.text@,
        }
    }
}

impl DeepView for SentEmail {
    type V = SentEmailModel;

    open spec fn deep_view(&self) -> SentEmailModel {
        self.view()
    }
}

/// The observable trace of the email collaborator: every send call, in order.
pub struct EmailLog {
    pub sent: Vec<SentEmail>,
}

impl View for EmailLog {
    type V = Seq<SentEmailModel>;

    open spec fn view(&self) -> Seq<SentEmailModel> {
        self.sent.deep_view()
    }
}

impl EmailLog {
    pub fn new() -> (log: EmailLog)
        ensures
            log@ == Seq::<SentEmailModel>::empty(),
    {
        let log = EmailLog { sent: Vec::new() };
        proof {
            assert(log@ =~= Seq::<SentEmailModel>::empty());
        }
        log
    }

    pub fn len(&self) -> (n: usize)
        ensures
            n == self@.len(),
    {
        self.sent.len()
    }
}

/// Whether any outbox row is still unclaimed.
pub open spec fn has_unclaimed(queue: Seq<TaskModel>) -> bool {
    exists|i: int| 0 <= i < queue.len() && !queue[i].claimed
}

/// The index a claim takes: the first row no other claimant holds.
pub open spec fn first_unclaimed(queue: Seq<TaskModel>) -> int
    decreases queue.len(),
{
    if queue.len() == 0 {
        0
    } else if !queue[0].claimed {
        0
    } else {
        1 + first_unclaimed(queue.drop_first())
    }
}

/// Where a claim lands when some row is unclaimed: in range, on an unclaimed
/// row, and skipping exactly the claimed prefix.
pub proof fn lemma_first_unclaimed(queue: Seq<TaskModel>)
    requires
        has_unclaimed(queue),
    ensures
        0 <= first_unclaimed(queue) < queue.len(),
        !queue[first_unclaimed(queue)].claimed,
        forall|j: int| 0 <= j < first_unclaimed(queue) ==> queue[j].claimed,
    decreases queue.len(),
{
    if queue.len() > 0 && queue[0].claimed {
        let rest = queue.drop_first();
        let i = choose|i: int| 0 <= i < queue.len() && !queue[i].claimed;
        assert(rest[i - 1] == queue[i]);
        assert(has_unclaimed(rest));
        lemma_first_unclaimed(rest);
        assert(queue[first_unclaimed(queue)] == rest[first_unclaimed(rest)]);
        assert forall|j: int| 0 <= j < first_unclaimed(queue) implies queue[j].claimed by {
            if j > 0 {
                assert(rest[j - 1] == queue[j]);
                assert(rest[j - 1].claimed);
            }
        }
    }
}

/// The queue after a claim: the first unclaimed row is locked, everything
/// else untouched; an all-claimed or empty queue is left as it stands.
pub open spec fn after_claim(queue: Seq<TaskModel>) -> Seq<TaskModel> {
    if has_unclaimed(queue) {
        let i = first_unclaimed(queue);
        queue.update(i, TaskModel { claimed: true, ..queue[i] })
    } else {
        queue
    }
}

/// No double claim: a claim takes a row no other claimant holds, holds it,
/// and a second claim before the first retires lands on a different row.
pub proof fn lemma_no_double_claim(queue: Seq<TaskModel>)
    requires
        has_unclaimed(queue),
    ensures
        !queue[first_unclaimed(queue)].claimed,
        after_claim(queue)[first_unclaimed(queue)].claimed,
        has_unclaimed(after_claim(queue)) ==> first_unclaimed(after_claim(queue))
            != first_unclaimed(queue),
{
    lemma_first_unclaimed(queue);
    let claimed = after_claim(queue);
    if has_unclaimed(claimed) {
        lemma_first_unclaimed(claimed);
    }
}

impl Store {
    /// The claim: selects one pending outbox row under a lock that makes
    /// other claimants skip it rather than wait, and reports an empty queue
    /// when every row is locked or gone.
    pub fn claim_task(&mut self) -> (r: Option<(u128, String)>)
        requires
            store_wf(old(self)@),
        ensures
            store_wf(final(self)@),
            final(self)@.idem == old(self)@.idem,
            final(self)@.subscribers == old(self)@.subscribers,
            final(self)@.issues == old(self)@.issues,
            final(self)@.queue == after_claim(old(self)@.queue),
            match r {
                Some(t) => has_unclaimed(old(self)@.queue) && t.0 == old(self)@.queue[
                    first_unclaimed(old(self)@.queue)
                ].issue_id && t.1@ == old(self)@.queue[first_unclaimed(old(self)@.queue)].email,
                None => !has_unclaimed(old(self)@.queue),
            },
    {
        let n = self.queue.len();
        let mut i: usize = 0;
        while i < n
            invariant
                i <= n,
                n == self.queue.len(),
                self@ == old(self)@,
                forall|j: int| 0 <= j < i ==> (#[trigger] self@.queue[j]).claimed,
            decreases n - i,
        {
            if !self.queue[i].claimed {
                proof {
                    assert(!self@.queue[i as int].claimed);
                    assert(has_unclaimed(self@.queue));
                    lemma_first_unclaimed(self@.queue);
                    let f = first_unclaimed(self@.queue);
                    if f < i as int {
                        assert(self@.queue[f].claimed);
                    }
                    if (i as int) < f {
                        assert(self@.queue[i as int].claimed);
                    }
                }
                let issue_id = self.queue[i].issue_id;
                let email = self.queue[i].email.clone();
                let locked = DeliveryTask { issue_id, email: email.clone(), claimed: true };
                let ghost prev = self@;
                self.queue.set(i, locked);
                proof {
                    assert(self@.queue =~= prev.queue.update(
                        i as int,
                        TaskModel { claimed: true, ..prev.queue[i as int] },
                    ));
                    assert(self@.idem == prev.idem);
                    assert(self@.subscribers =~= prev.subscribers);
                    assert(self@.subscribers == prev.subscribers);
                    assert(self@.issues =~= prev.issues);
                    assert(self@.issues == prev.issues);
                    assert forall|k: int, l: int|
                        0 <= k < l < self@.queue.len() && self@.queue[k].issue_id
                            == self@.queue[l].issue_id implies self@.queue[k].email
                        != self@.queue[l].email by {
                        assert(self@.queue[k].issue_id == prev.queue[k].issue_id
                            && self@.queue[k].email == prev.queue[k].email);
                        assert(self@.queue[l].issue_id == prev.queue[l].issue_id
                            && self@.queue[l].email == prev.queue[l].email);
                    }
                    assert forall|k: int| 0 <= k < self@.queue.len() implies has_issue(
                        self@.issues,
                        #[trigger] self@.queue[k].issue_id,
                    ) by {
                        assert(self@.queue[k].issue_id == prev.queue[k].issue_id);
                        assert(has_issue(prev.issues, prev.queue[k].issue_id));
                    }
                }
                return Some((issue_id, email));
            }
            i = i + 1;
        }
        None
    }

    /// The retire: deletes the outbox row and commits. Absence of the row
    /// afterwards means delivered or intentionally skipped.
    pub fn delete_task(&mut self, issue_id: u128, email: &String)
        requires
            store_wf(old(self)@),
        ensures
            store_wf(final(self)@),
            final(self)@.idem == old(self)@.idem,
            final(self)@.subscribers == old(self)@.subscribers,
            final(self)@.issues == old(self)@.issues,
            !has_task(final(self)@.queue, issue_id, email@),
            has_task(old(self)@.queue, issue_id, email@) ==> final(self)@.queue == old(
                self,
            )@.queue.remove(task_index(old(self)@.queue, issue_id, email@)),
            !has_task(old(self)@.queue, issue_id, email@) ==> final(self)@.queue == old(
                self,
            )@.queue,
    {
        let n = self.queue.len();
        let mut i: usize = 0;
        while i < n
            invariant
                i <= n,
                n == self.queue.len(),
                self@ == old(self)@,
                forall|j: int|
                    0 <= j < i ==> !((#[trigger] self@.queue[j]).issue_id == issue_id
                        && self@.queue[j].email == email@),
            decreases n - i,
        {
            if self.queue[i].issue_id == issue_id && self.queue[i].email == *email {
                proof {
                    lemma_task_index_unique(self@.queue, issue_id, email@, i as int);
                }
                let ghost prev = self@;
                self.queue.remove(i);
                proof {
                    assert(self@.queue =~= prev.queue.remove(i as int));
                    assert(self@.idem == prev.idem);
                    assert(self@.subscribers =~= prev.subscribers);
                    assert(self@.subscribers == prev.subscribers);
                    assert(self@.issues =~= prev.issues);
                    assert(self@.issues == prev.issues);
                    lemma_queue_remove_keeps_wf(prev, i as int);
                    assert forall|k: int|
                        0 <= k < self@.queue.len() && self@.queue[k].issue_id == issue_id implies
                        self@.queue[k].email != email@ by {
                        if k < i as int {
                            assert(self@.queue[k] == prev.queue[k]);
                        } else {
                            assert(self@.queue[k] == prev.queue[k + 1]);
                        }
                    }
                }
                return ;
            }
            i = i + 1;
        }
    }

    /// Returns the claim of an outbox row without retiring it: what the store
    /// does when a claimant's transaction ends without committing, as after a
    /// worker crash. The row becomes claimable again.
    pub fn release_task(&mut self, issue_id: u128, email: &String)
        requires
            store_wf(old(self)@),
        ensures
            store_wf(final(self)@),
            final(self)@.idem == old(self)@.idem,
            final(self)@.subscribers == old(self)@.subscribers,
            final(self)@.issues == old(self)@.issues,
            has_task(old(self)@.queue, issue_id, email@) ==> final(self)@.queue == old(
                self,
            )@.queue.update(
                task_index(old(self)@.queue, issue_id, email@),
                TaskModel {
                    claimed: false,
                    ..old(self)@.queue[task_index(old(self)@.queue, issue_id, email@)]
                },
            ),
            !has_task(old(self)@.queue, issue_id, email@) ==> final(self)@.queue == old(
                self,
            )@.queue,
    {
        let n = self.queue.len();
        let mut i: usize = 0;
        while i < n
            invariant
                i <= n,
                n == self.queue.len(),
                self@ == old(self)@,
                forall|j: int|
                    0 <= j < i ==> !((#[trigger] self@.queue[j]).issue_id == issue_id
                        && self@.queue[j].email == email@),
            decreases n - i,
        {
            if self.queue[i].issue_id == issue_id && self.queue[i].email == *email {
                proof {
                    lemma_task_index_unique(self@.queue, issue_id, email@, i as int);
                }
                let released = DeliveryTask {
                    issue_id,
                    email: self.queue[i].email.clone(),
                    claimed: false,
                };
                let ghost prev = self@;
                self.queue.set(i, released);
                proof {
                    assert(self@.queue =~= prev.queue.update(
                        i as int,
                        TaskModel { claimed: false, ..prev.queue[i as int] },
                    ));
                    assert(self@.idem == prev.idem);
                    assert(self@.subscribers =~= prev.subscribers);
                    assert(self@.subscribers == prev.subscribers);
                    assert(self@.issues =~= prev.issues);
                    assert(self@.issues == prev.issues);
                    assert forall|k: int, l: int|
                        0 <= k < l < self@.queue.len() && self@.queue[k].issue_id
                            == self@.queue[l].issue_id implies self@.queue[k].email
                        != self@.queue[l].email by {
                        assert(self@.queue[k].issue_id == prev.queue[k].issue_id
                            && self@.queue[k].email == prev.queue[k].email);
                        assert(self@.queue[l].issue_id == prev.queue[l].issue_id
                            && self@.queue[l].email == prev.queue[l].email);
                    }
                    assert forall|k: int| 0 <= k < self@.queue.len() implies has_issue(
                        self@.issues,
                        #[trigger] self@.queue[k].issue_id,
                    ) by {
                        assert(self@.queue[k].issue_id == prev.queue[k].issue_id);
                        assert(has_issue(prev.issues, prev.queue[k].issue_id));
                    }
                }
                return ;
            }
            i = i + 1;
        }
    }

    /// Fetches the immutable content of an issue.
    pub fn get_issue(&self, issue_id: u128) -> (r: Option<NewsletterIssue>)
        requires
            store_wf(self@),
        ensures
            match r {
                Some(issue) => has_issue(self@.issues, issue_id) && issue@ == issue_at(
                    self@.issues,
                    issue_id,
                ),
                None => !has_issue(self@.issues, issue_id),
            },
    {
        match self.find_issue(issue_id) {
            None => None,
            Some(i) => {
                proof {
                    lemma_issue_index_unique(self@.issues, issue_id, i as int);
                }
                Some(self.issues[i].clone())
            },
        }
    }
}

/// Whether some outbox row carries `issue_id` and `email`; the index of that
/// row, unique under `store_wf`.
pub open spec fn task_index(queue: Seq<TaskModel>, issue_id: u128, email: Seq<char>) -> int {
    choose|i: int| 0 <= i < queue.len() && queue[i].issue_id == issue_id && queue[i].email == email
}

/// Under the outbox key uniqueness of `store_wf`, any index holding
/// `(issue_id, email)` is the `task_index`.
pub proof fn lemma_task_index_unique(
    queue: Seq<TaskModel>,
    issue_id: u128,
    email: Seq<char>,
    i: int,
)
    requires
        forall|k: int, l: int|
            0 <= k < l < queue.len() && queue[k].issue_id == queue[l].issue_id ==> queue[k].email
                != queue[l].email,
        0 <= i < queue.len(),
        queue[i].issue_id == issue_id,
        queue[i].email == email,
    ensures
        has_task(queue, issue_id, email),
        task_index(queue, issue_id, email) == i,
{
    assert(has_task(queue, issue_id, email));
    let j = task_index(queue, issue_id, email);
    assert(0 <= j < queue.len() && queue[j].issue_id == issue_id && queue[j].email == email);
    if i < j {
        assert(queue[i].email != queue[j].email);
    } else if j < i {
        assert(queue[j].email != queue[i].email);
    }
}

/// Under the issue id uniqueness of `store_wf`, any index holding `id` is the
/// `issue_index`.
pub proof fn lemma_issue_index_unique(issues: Seq<IssueModel>, id: u128, i: int)
    requires
        forall|k: int, l: int| 0 <= k < l < issues.len() ==> issues[k].id != issues[l].id,
        0 <= i < issues.len(),
        issues[i].id == id,
    ensures
        has_issue(issues, id),
        crate::store::issue_index(issues, id) == i,
{
    assert(has_issue(issues, id));
    let j = crate::store::issue_index(issues, id);
    assert(0 <= j < issues.len() && issues[j].id == id);
    if i < j {
        assert(issues[i].id != issues[j].id);
    } else if j < i {
        assert(issues[j].id != issues[i].id);
    }
}

/// Removing one outbox row keeps key uniqueness and the issue reference of
/// every remaining row.
proof fn lemma_queue_remove_keeps_wf(s: StoreModel, i: int)
    requires
        store_wf(s),
        0 <= i < s.queue.len(),
    ensures
        forall|k: int, l: int|
            0 <= k < l < s.queue.remove(i).len() && s.queue.remove(i)[k].issue_id == s.queue.remove(
                i,
            )[l].issue_id ==> s.queue.remove(i)[k].email != s.queue.remove(i)[l].email,
        forall|k: int|
            0 <= k < s.queue.remove(i).len() ==> has_issue(
                s.issues,
                #[trigger] s.queue.remove(i)[k].issue_id,
            ),
{
    let post = s.queue.remove(i);
    assert forall|k: int, l: int|
        0 <= k < l < post.len() && post[k].issue_id == post[l].issue_id implies post[k].email
        != post[l].email by {
        let k0 = if k < i {
            k
        } else {
            k + 1
        };
        let l0 = if l < i {
            l
        } else {
            l + 1
        };
        assert(post[k] == s.queue[k0]);
        assert(post[l] == s.queue[l0]);
    }
    assert forall|k: int| 0 <= k < post.len() implies has_issue(
        s.issues,
        #[trigger] post[k].issue_id,
    ) by {
        let k0 = if k < i {
            k
        } else {
            k + 1
        };
        assert(post[k] == s.queue[k0]);
        assert(has_issue(s.issues, s.queue[k0].issue_id));
    }
}

/// The send that retiring task `t` records, given the issue table it reads.
pub open spec fn sent_for(issues: Seq<IssueModel>, t: TaskModel) -> SentEmailModel {
    SentEmailModel {
        recipient: t.email,
        subject: issue_at(issues, t.issue_id).title,
        html: issue_at(issues, t.issue_id).html_content,
        text: issue_at(issues, t.issue_id).text_content,
    }
}

/// The queue after one worker iteration: the first unclaimed row is claimed
/// and retired; with nothing to claim, nothing changes.
pub open spec fn after_worker_step(queue: Seq<TaskModel>) -> Seq<TaskModel> {
    if has_unclaimed(queue) {
        queue.remove(first_unclaimed(queue))
    } else {
        queue
    }
}

/// The send log after one worker iteration: the claimed task records one
/// call when its address is valid, and none when the address is poisoned.
pub open spec fn worker_step_log(s: StoreModel, log: Seq<SentEmailModel>) -> Seq<SentEmailModel> {
    if has_unclaimed(s.queue) {
        let t = s.queue[first_unclaimed(s.queue)];
        if email_valid(t.email) {
            log.push(sent_for(s.issues, t))
        } else {
            log
        }
    } else {
        log
    }
}

/// One worker iteration: claim, deliver or skip an invalid address, retire.
///
/// `transport_ok` is the transport-level result of the send the collaborator
/// reported. The contract does not depend on it: a failed send is logged by
/// the caller and the task is retired all the same, so one poisoned or
/// unreachable recipient can never block the queue.
#[allow(unused_variables)]
pub fn try_execute_task(store: &mut Store, mail: &mut EmailLog, transport_ok: bool) -> (r:
    ExecutionOutcome)
    requires
        store_wf(old(store)@),
    ensures
        store_wf(final(store)@),
        final(store)@.idem == old(store)@.idem,
        final(store)@.subscribers == old(store)@.subscribers,
        final(store)@.issues == old(store)@.issues,
        final(store)@.queue == after_worker_step(old(store)@.queue),
        final(mail)@ == worker_step_log(old(store)@, old(mail)@),
        r == (if has_unclaimed(old(store)@.queue) {
            ExecutionOutcome::TaskCompleted
        } else {
            ExecutionOutcome::EmptyQueue
        }),
{
    let claimed = store.claim_task();
    match claimed {
        None => ExecutionOutcome::EmptyQueue,
        Some((issue_id, email)) => {
            let ghost f = first_unclaimed(old(store)@.queue);
            proof {
                lemma_first_unclaimed(old(store)@.queue);
                assert(store@.queue[f].issue_id == issue_id);
                assert(has_issue(store@.issues, store@.queue[f].issue_id));
            }
            if email_is_valid(email.as_str()) {
                match store.get_issue(issue_id) {
                    Some(issue) => {
                        let ghost mail_prev = mail@;
                        mail.sent.push(
                            SentEmail {
                                recipient: email.clone(),
                                subject: issue.title,
                                html: issue.html_content,
                                text: issue.text_content,
                            },
                        );
                        proof {
                            assert(mail@ =~= mail_prev.push(
                                sent_for(old(store)@.issues, old(store)@.queue[f]),
                            ));
                        }
                    },
                    None => {
                        proof {
                            assert(false);
                        }
                    },
                }
            }
            let ghost before_delete = store@;
            store.delete_task(issue_id, &email);
            proof {
                lemma_task_index_unique(before_delete.queue, issue_id, email@, f);
                assert(store@.queue =~= old(store)@.queue.remove(f));
            }
            ExecutionOutcome::TaskCompleted
        },
    }
}

/// The sends that draining a queue of unclaimed rows records, in queue order.
pub open spec fn drain_sends(issues: Seq<IssueModel>, queue: Seq<TaskModel>) -> Seq<SentEmailModel>
    decreases queue.len(),
{
    if queue.len() == 0 {
        Seq::empty()
    } else {
        let head = drain_sends(issues, queue.drop_last());
        if email_valid(queue.last().email) {
            head.push(sent_for(issues, queue.last()))
        } else {
            head
        }
    }
}

/// Drains the whole outbox: every row is retired, and one send is recorded
/// per valid recipient, in queue order. This is the worker loop run to the
/// empty queue by a single instance on a quiet store.
pub fn drain_queue(store: &mut Store, mail: &mut EmailLog) -> (n: usize)
    requires
        store_wf(old(store)@),
        forall|i: int|
            0 <= i < old(store)@.queue.len() ==> !(#[trigger] old(store)@.queue[i]).claimed,
    ensures
        store_wf(final(store)@),
        final(store)@.idem == old(store)@.idem,
        final(store)@.subscribers == old(store)@.subscribers,
        final(store)@.issues == old(store)@.issues,
        final(store)@.queue.len() == 0,
        final(mail)@ == old(mail)@ + drain_sends(old(store)@.issues, old(store)@.queue),
        n == old(store)@.queue.len(),
{
    let ghost q0 = old(store)@.queue;
    let ghost issues0 = old(store)@.issues;
    let total = store.queue.len();
    while store.queue.len() > 0
        invariant
            store_wf(store@),
            store@.idem == old(store)@.idem,
            store@.subscribers == old(store)@.subscribers,
            store@.issues == issues0,
            total == q0.len(),
            store@.queue.len() <= q0.len(),
            store@.queue == q0.skip(q0.len() - store@.queue.len()),
            forall|i: int| 0 <= i < store@.queue.len() ==> !(#[trigger] store@.queue[i]).claimed,
            mail@ == old(mail)@ + drain_sends(issues0, q0.take(q0.len() - store@.queue.len())),
        decreases store@.queue.len(),
    {
        let ghost before = store@;
        let ghost t = q0.len() - before.queue.len();
        let r = try_execute_task(store, mail, true);
        proof {
            assert(!before.queue[0].claimed);
            assert(has_unclaimed(before.queue));
            assert(first_unclaimed(before.queue) == 0);
            assert(0 <= t < q0.len());
            assert(before.queue[0] == q0.skip(t)[0]);
            assert(q0.skip(t)[0] == q0[t]);
            assert forall|k: int| 0 <= k < store@.queue.len() implies store@.queue[k] == q0.skip(
                t + 1,
            )[k] by {
                assert(store@.queue[k] == before.queue[k + 1]);
                assert(before.queue[k + 1] == q0[t + 1 + k]);
                assert(q0.skip(t + 1)[k] == q0[k + (t + 1)]);
            }
            assert(store@.queue =~= q0.skip(t + 1));
            assert forall|i: int| 0 <= i < store@.queue.len() implies !(#[trigger] store@.queue[
                i
            ]).claimed by {
                assert(store@.queue[i] == before.queue[i + 1]);
            }
            assert(q0.take(t + 1).drop_last() =~= q0.take(t));
            assert(q0.take(t + 1).last() == q0[t]);
            assert(mail@ =~= old(mail)@ + drain_sends(issues0, q0.take(t + 1)));
        }
    }
    proof {
        assert(q0.take(q0.len() as int) =~= q0);
        assert(q0.skip(q0.len() as int) =~= store@.queue);
    }
    total
}

/// What the worker's outer loop does after one iteration.
#[derive(PartialEq, Eq, Structural, Debug)]
pub enum LoopAction {
    /// Loop again at once, to drain a backlog quickly.
    Immediate,
    /// Sleep the fixed backoff interval first.
    Backoff,
}

/// The fixed backoff of the worker loop, in seconds. Deliberately a constant
/// delay, not an exponential backoff.
pub const WORKER_BACKOFF_SECONDS: u64 = 1;

/// The loop policy: after a completed task loop immediately; on an empty
/// queue or any store fault, back off for the fixed interval.
pub fn worker_loop_action(outcome: &Result<ExecutionOutcome, StoreFault>) -> (r: LoopAction)
    ensures
        r == (match outcome {
            Ok(ExecutionOutcome::TaskCompleted) => LoopAction::Immediate,
            _ => LoopAction::Backoff,
        }),
{
    match outcome {
        Ok(ExecutionOutcome::TaskCompleted) => LoopAction::Immediate,
        _ => LoopAction::Backoff,
    }
}

impl Clone for NewsletterIssue {
    fn clone(&self) -> (r: Self)
        ensures
            r@ == self@,
    {
        NewsletterIssue {
            id: self.id,
            title: self.title.clone(),
            text_content: self.text_content.clone(),
            html_content: self.html_content.clone(),
            published_at: self.published_at,
        }
    }
}

} // verus!
