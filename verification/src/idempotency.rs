//! Idempotency cache: maps `(user, key)` to a captured HTTP response and
//! deduplicates re-entrant execution of a write-triggering handler.

use vstd::prelude::*;
use vstd::pervasive::VecAdditionalExecFns;
use vstd::string::StrSliceExecFns;

verus! {

/// A client-supplied idempotency key: a non-empty string of fewer than 50
/// characters.
pub struct IdempotencyKey {
    key: String,
}

/// The validity rule for raw idempotency keys.
pub open spec fn key_valid(s: Seq<char>) -> bool {
    1 <= s.len() < 50
}

/// Why a raw idempotency key was rejected.
#[derive(PartialEq, Eq, Structural, Debug)]
pub enum KeyError {
    Empty,
    TooLong,
}

impl View for IdempotencyKey {
    type V = Seq<char>;

    closed spec fn view(&self) -> Seq<char> {
        self.key@
    }
}

impl IdempotencyKey {
    /// Validates a raw key: rejects the empty string and any string of 50 or
    /// more characters.
    pub fn try_new(raw: String) -> (r: Result<IdempotencyKey, KeyError>)
        ensures
            key_valid(raw@) ==> (r matches Ok(k) && k@ == raw@),
            raw@.len() == 0 ==> (r matches Err(e) && e == KeyError::Empty),
            raw@.len() >= 50 ==> (r matches Err(e) && e == KeyError::TooLong),
    {
        let n = raw.as_str().unicode_len();
        if n == 0 {
            Err(KeyError::Empty)
        } else if n >= 50 {
            Err(KeyError::TooLong)
        } else {
            Ok(IdempotencyKey { key: raw })
        }
    }

    pub fn as_str(&self) -> (r: &str)
        ensures
            r@ == self@,
    {
        self.key.as_str()
    }
}

/// One response header as captured: a name and a raw byte value. Values are
/// not assumed to be UTF-8.
#[derive(Debug, PartialEq)]
pub struct HeaderPair {
    pub name: String,
    pub value: Vec<u8>,
}

/// The mathematical image of a captured header.
pub struct HeaderPairModel {
    pub name: Seq<char>,
    pub value: Seq<u8>,
}

impl View for HeaderPair {
    type V = HeaderPairModel;

    open spec fn view(&self) -> HeaderPairModel {
        HeaderPairModel { name: self.name@, value: self.value@ }
    }
}

impl DeepView for HeaderPair {
    type V = HeaderPairModel;

    open spec fn deep_view(&self) -> HeaderPairModel {
        self.view()
    }
}

impl Clone for HeaderPair {
    fn clone(&self) -> (r: Self)
        ensures
            r@ == self@,
    {
        HeaderPair { name: self.name.clone(), value: self.value.clone() }
    }
}

/// A captured HTTP response: status line, every header in order, and the full
/// body. Replay must reproduce all three byte for byte.
#[derive(Debug, PartialEq)]
pub struct StoredResponse {
    pub status: u16,
    pub headers: Vec<HeaderPair>,
    pub body: Vec<u8>,
}

/// The mathematical image of a captured response.
pub struct ResponseModel {
    pub status: u16,
    pub headers: Seq<HeaderPairModel>,
    pub body: Seq<u8>,
}

impl View for StoredResponse {
    type V = ResponseModel;

    open spec fn view(&self) -> ResponseModel {
        ResponseModel {
            status: self.status,
            headers: self.headers.deep_view(),
            body: self.body@,
        }
    }
}

impl DeepView for StoredResponse {
    type V = ResponseModel;

    open spec fn deep_view(&self) -> ResponseModel {
        self.view()
    }
}

impl Clone for StoredResponse {
    fn clone(&self) -> (r: Self)
        ensures
            r@ == self@,
    {
        let r = StoredResponse {
            status: self.status,
            headers: self.headers.clone(),
            body: self.body.clone(),
        };
        proof {
            assert(r.headers.deep_view() =~= self.headers.deep_view());
            assert(r.body@ =~= self.body@);
        }
        r
    }
}

/// One row of the idempotency table. It is created in the "claimed, no
/// response yet" state by `try_processing` and completed by `save_response`;
/// it is never updated after completion and never deleted.
pub struct IdempotencyRecord {
    pub user: u128,
    pub key: String,
    pub created_at: i64,
    pub response: Option<StoredResponse>,
}

/// The mathematical image of an idempotency row.
pub struct RecordModel {
    pub user: u128,
    pub key: Seq<char>,
    pub created_at: i64,
    pub response: Option<ResponseModel>,
}

impl View for IdempotencyRecord {
    type V = RecordModel;

    open spec fn view(&self) -> RecordModel {
        RecordModel {
            user: self.user,
            key: self.key@,
            created_at: self.created_at,
            response: self.response.deep_view(),
        }
    }
}

impl DeepView for IdempotencyRecord {
    type V = RecordModel;

    open spec fn deep_view(&self) -> RecordModel {
        self.view()
    }
}

/// At most one row per `(user, key)`.
pub open spec fn table_wf(rows: Seq<RecordModel>) -> bool {
    forall|i: int, j: int|
        0 <= i < j < rows.len() && rows[i].user == rows[j].user ==> rows[i].key != rows[j].key
}

/// Whether the table holds a row for `(user, key)`.
pub open spec fn has_record(rows: Seq<RecordModel>, user: u128, key: Seq<char>) -> bool {
    exists|i: int| 0 <= i < rows.len() && rows[i].user == user && rows[i].key == key
}

/// The index of the row for `(user, key)`; meaningful only when `has_record`
/// holds, and unique under `table_wf`.
pub open spec fn record_index(rows: Seq<RecordModel>, user: u128, key: Seq<char>) -> int {
    choose|i: int| 0 <= i < rows.len() && rows[i].user == user && rows[i].key == key
}

/// The row for `(user, key)`; meaningful only when `has_record` holds.
pub open spec fn record_at(rows: Seq<RecordModel>, user: u128, key: Seq<char>) -> RecordModel {
    rows[record_index(rows, user, key)]
}

/// What `try_processing` decides, as seen from the table alone: a fresh key
/// proceeds, a completed key replays its captured response, and a claimed but
/// incomplete key is an invariant gap with no defined recovery.
pub enum TryOutcome {
    Started,
    Replayed(ResponseModel),
    Incomplete,
}

/// The table after `try_processing`: the insert-if-absent of a claim row.
pub open spec fn after_try_processing(
    rows: Seq<RecordModel>,
    user: u128,
    key: Seq<char>,
    now: i64,
) -> Seq<RecordModel> {
    if has_record(rows, user, key) {
        rows
    } else {
        rows.push(RecordModel { user, key, created_at: now, response: None })
    }
}

/// What `try_processing` returns, as a function of the table it saw.
pub open spec fn try_processing_outcome(
    rows: Seq<RecordModel>,
    user: u128,
    key: Seq<char>,
) -> TryOutcome {
    if has_record(rows, user, key) {
        match record_at(rows, user, key).response {
            Some(r) => TryOutcome::Replayed(r),
            None => TryOutcome::Incomplete,
        }
    } else {
        TryOutcome::Started
    }
}

/// The table after `save_response`: the row for `(user, key)` now carries the
/// captured response; a missing row is left missing, as a SQL update of an
/// absent row affects nothing.
pub open spec fn after_save_response(
    rows: Seq<RecordModel>,
    user: u128,
    key: Seq<char>,
    resp: ResponseModel,
) -> Seq<RecordModel> {
    if has_record(rows, user, key) {
        let i = record_index(rows, user, key);
        rows.update(i, RecordModel { response: Some(resp), ..rows[i] })
    } else {
        rows
    }
}

/// The caller's view of `try_processing`: either proceed, holding the claim,
/// or hand back the previously captured response.
pub enum NextAction {
    StartProcessing,
    ReturnSavedResponse(StoredResponse),
}

/// The one failure the cache itself can report: a claim row exists but was
/// never completed, so there is nothing to replay.
#[derive(PartialEq, Eq, Structural, Debug)]
pub enum IdempotencyError {
    IncompleteRecord,
}

/// How an exec `try_processing` result reads as a `TryOutcome`.
pub open spec fn next_action_outcome(r: Result<NextAction, IdempotencyError>) -> TryOutcome {
    match r {
        Ok(NextAction::StartProcessing) => TryOutcome::Started,
        Ok(NextAction::ReturnSavedResponse(resp)) => TryOutcome::Replayed(resp@),
        Err(_) => TryOutcome::Incomplete,
    }
}

/// The idempotency table itself.
pub struct IdempotencyStore {
    rows: Vec<IdempotencyRecord>,
}

impl View for IdempotencyStore {
    type V = Seq<RecordModel>;

    closed spec fn view(&self) -> Seq<RecordModel> {
        self.rows.deep_view()
    }
}

impl IdempotencyStore {
    pub fn new() -> (s: Self)
        ensures
            s@ == Seq::<RecordModel>::empty(),
            table_wf(s@),
    {
        let s = IdempotencyStore { rows: Vec::new() };
        proof {
            assert(s.rows.deep_view() =~= Seq::<RecordModel>::empty());
        }
        s
    }

    /// Linear scan for the row of `(user, key)`.
    fn find(&self, user: u128, key: &IdempotencyKey) -> (r: Option<usize>)
        ensures
            match r {
                Some(i) => i < self@.len() && self@[i as int].user == user && self@[i as int].key
                    == key@,
                None => !has_record(self@, user, key@),
            },
    {
        let n = self.rows.len();
        let mut i: usize = 0;
        while i < n
            invariant
                n == self.rows.len(),
                i <= n,
                forall|j: int|
                    0 <= j < i ==> !(self@[j].user == user && self@[j].key == key@),
            decreases n - i,
        {
            if self.rows[i].user == user && self.rows[i].key == key.key {
                return Some(i);
            }
            i = i + 1;
        }
        None
    }

    /// The insert-if-absent claim: lets a fresh `(user, key)` proceed,
    /// replays the captured response of a completed one, and reports the gap
    /// of a claimed-but-incomplete one.
    pub fn try_processing(&mut self, user: u128, key: &IdempotencyKey, now: i64) -> (r: Result<
        NextAction,
        IdempotencyError,
    >)
        requires
            table_wf(old(self)@),
        ensures
            table_wf(final(self)@),
            final(self)@ == after_try_processing(old(self)@, user, key@, now),
            next_action_outcome(r) == try_processing_outcome(old(self)@, user, key@),
    {
        match self.find(user, key) {
            None => {
                let rec = IdempotencyRecord {
                    user,
                    key: key.key.clone(),
                    created_at: now,
                    response: None,
                };
                let ghost prev = self@;
                self.rows.push(rec);
                proof {
                    assert(self@ =~= prev.push(
                        RecordModel { user, key: key@, created_at: now, response: None },
                    ));
                }
                Ok(NextAction::StartProcessing)
            },
            Some(i) => {
                proof {
                    lemma_record_index_unique(self@, user, key@, i as int);
                }
                match &self.rows[i].response {
                    Some(resp) => Ok(NextAction::ReturnSavedResponse(resp.clone())),
                    None => Err(IdempotencyError::IncompleteRecord),
                }
            },
        }
    }

    /// Completes the claim row of `(user, key)` with the captured response
    /// and returns that very response, so the caller's in-memory response and
    /// the persisted one are byte-identical.
    pub fn save_response(
        &mut self,
        user: u128,
        key: &IdempotencyKey,
        response: StoredResponse,
    ) -> (r: StoredResponse)
        requires
            table_wf(old(self)@),
        ensures
            table_wf(final(self)@),
            final(self)@ == after_save_response(old(self)@, user, key@, response@),
            r@ == response@,
    {
        match self.find(user, key) {
            None => response,
            Some(i) => {
                proof {
                    lemma_record_index_unique(self@, user, key@, i as int);
                }
                let stored = response.clone();
                let row = &self.rows[i];
                let updated = IdempotencyRecord {
                    user: row.user,
                    key: row.key.clone(),
                    created_at: row.created_at,
                    response: Some(stored),
                };
                let ghost prev = self@;
                self.rows.set(i, updated);
                proof {
                    let k = record_index(prev, user, key@);
                    assert(self@ =~= prev.update(
                        k,
                        RecordModel { response: Some(response@), ..prev[k] },
                    ));
                }
                response
            },
        }
    }

    /// Models the rollback of a claim transaction that never committed: the
    /// claim row that `try_processing` just inserted at the end of the table
    /// is discarded with the transaction.
    pub(crate) fn rollback_claim(&mut self)
        requires
            old(self)@.len() > 0,
        ensures
            final(self)@ == old(self)@.drop_last(),
    {
        self.rows.pop();
        proof {
            assert(self@ =~= old(self)@.drop_last());
        }
    }

    /// Reads back the captured response of `(user, key)`, if the row exists
    /// and is complete.
    pub fn get_saved_response(&self, user: u128, key: &IdempotencyKey) -> (r: Option<
        StoredResponse,
    >)
        requires
            table_wf(self@),
        ensures
            match r {
                Some(resp) => has_record(self@, user, key@) && record_at(self@, user, key@).response
                    == Some(resp@),
                None => !has_record(self@, user, key@) || record_at(
                    self@,
                    user,
                    key@,
                ).response is None,
            },
    {
        match self.find(user, key) {
            None => None,
            Some(i) => {
                proof {
                    lemma_record_index_unique(self@, user, key@, i as int);
                }
                match &self.rows[i].response {
                    Some(resp) => Some(resp.clone()),
                    None => None,
                }
            },
        }
    }
}

/// Under `table_wf`, any index holding `(user, key)` is the `record_index`.
pub proof fn lemma_record_index_unique(rows: Seq<RecordModel>, user: u128, key: Seq<char>, i: int)
    requires
        table_wf(rows),
        0 <= i < rows.len(),
        rows[i].user == user,
        rows[i].key == key,
    ensures
        has_record(rows, user, key),
        record_index(rows, user, key) == i,
{
    assert(has_record(rows, user, key));
    let j = record_index(rows, user, key);
    assert(0 <= j < rows.len() && rows[j].user == user && rows[j].key == key);
    if i < j {
        assert(rows[i].key != rows[j].key);
    } else if j < i {
        assert(rows[j].key != rows[i].key);
    }
}

} // verus!
