//! TTL-backed session store: the load/save/update/delete contract a
//! cookie-session middleware expects, against the same relational store, with
//! lazy expiry on load and a background reaper for eager deletion.
//!
//! All timestamps and TTLs are integers in one caller-chosen unit; the store
//! only ever compares and adds them.

use vstd::prelude::*;
use vstd::pervasive::VecAdditionalExecFns;

use crate::clock::now_unix_seconds;
use crate::ids::{fresh_id, uuid_parse, uuid_text, uuid_text_of};
use crate::store::StoreFault;

verus! {

/// One key/value pair of a session's state map.
#[derive(Debug, PartialEq)]
pub struct SessionEntry {
    pub name: String,
    pub value: String,
}

/// The mathematical image of one state entry.
pub struct EntryModel {
    pub name: Seq<char>,
    pub value: Seq<char>,
}

impl View for SessionEntry {
    type V = EntryModel;

    open spec fn view(&self) -> EntryModel {
        EntryModel { name: self.name@, value: self.value@ }
    }
}

impl DeepView for SessionEntry {
    type V = EntryModel;

    open spec fn deep_view(&self) -> EntryModel {
        self.view()
    }
}

impl Clone for SessionEntry {
    fn clone(&self) -> (r: Self)
        ensures
            r@ == self@,
    {
        SessionEntry { name: self.name.clone(), value: self.value.clone() }
    }
}

/// A session's state: the entries of the map, in insertion order.
pub type SessionState = Vec<SessionEntry>;

/// One session row. The id is the only state the client ever holds; a row
/// with `expires_at` in the past is logically absent even while it still
/// physically exists.
pub struct SessionRecord {
    pub id: u128,
    pub state: SessionState,
    pub created_at: i64,
    pub expires_at: i64,
}

/// The mathematical image of a session row.
pub struct SessionRecordModel {
    pub id: u128,
    pub state: Seq<EntryModel>,
    pub created_at: i64,
    pub expires_at: i64,
}

impl View for SessionRecord {
    type V = SessionRecordModel;

    open spec fn view(&self) -> SessionRecordModel {
        SessionRecordModel {
            id: self.id,
            state: self.state.deep_view(),
            created_at: self.created_at,
            expires_at: self.expires_at,
        }
    }
}

impl DeepView for SessionRecord {
    type V = SessionRecordModel;

    open spec fn deep_view(&self) -> SessionRecordModel {
        self.view()
    }
}

impl Clone for SessionRecord {
    fn clone(&self) -> (r: Self)
        ensures
            r@ == self@,
    {
        let r = SessionRecord {
            id: self.id,
            state: self.state.clone(),
            created_at: self.created_at,
            expires_at: self.expires_at,
        };
        proof {
            assert(r.state.deep_view() =~= self.state.deep_view());
        }
        r
    }
}

/// At most one row per session id.
pub open spec fn sessions_wf(rows: Seq<SessionRecordModel>) -> bool {
    forall|i: int, j: int| 0 <= i < j < rows.len() ==> rows[i].id != rows[j].id
}

/// Whether some row carries `id`.
pub open spec fn has_session(rows: Seq<SessionRecordModel>, id: u128) -> bool {
    exists|i: int| 0 <= i < rows.len() && rows[i].id == id
}

/// The index of the row carrying `id`; meaningful only when `has_session`
/// holds, and unique under `sessions_wf`.
pub open spec fn session_index(rows: Seq<SessionRecordModel>, id: u128) -> int {
    choose|i: int| 0 <= i < rows.len() && rows[i].id == id
}

/// The row carrying `id`; meaningful only when `has_session` holds.
pub open spec fn session_at(rows: Seq<SessionRecordModel>, id: u128) -> SessionRecordModel {
    rows[session_index(rows, id)]
}

/// Under `sessions_wf`, any index holding `id` is the `session_index`.
pub proof fn lemma_session_index_unique(rows: Seq<SessionRecordModel>, id: u128, i: int)
    requires
        sessions_wf(rows),
        0 <= i < rows.len(),
        rows[i].id == id,
    ensures
        has_session(rows, id),
        session_index(rows, id) == i,
{
    assert(has_session(rows, id));
    let j = session_index(rows, id);
    assert(0 <= j < rows.len() && rows[j].id == id);
    if i < j {
        assert(rows[i].id != rows[j].id);
    } else if j < i {
        assert(rows[j].id != rows[i].id);
    }
}

/// Whether `now + ttl` stays within the timestamp range.
pub open spec fn session_expiry_ok(now: i64, ttl: i64) -> bool {
    i64::MIN <= now + ttl <= i64::MAX
}

/// Why a session operation failed.
#[derive(PartialEq, Eq, Structural, Debug, Clone, Copy)]
pub enum SessionError {
    /// `now + ttl` does not fit a timestamp.
    ExpiryOverflow,
    /// The freshly drawn id collided with an existing row.
    DuplicateId,
}

/// What `load` returns: the state of the row carrying `id`, unless the row
/// is missing or has logically expired. Expired rows are not deleted here;
/// that is the reaper's job.
pub open spec fn load_result(rows: Seq<SessionRecordModel>, id: u128, now: i64) -> Option<
    Seq<EntryModel>,
> {
    if has_session(rows, id) && session_at(rows, id).expires_at >= now {
        Some(session_at(rows, id).state)
    } else {
        None
    }
}

/// The table after `save`: a new row under the freshly drawn id, unless the
/// expiry overflows or the id collides.
pub open spec fn after_save(
    rows: Seq<SessionRecordModel>,
    state: Seq<EntryModel>,
    ttl: i64,
    now: i64,
    id: u128,
) -> Seq<SessionRecordModel> {
    if !session_expiry_ok(now, ttl) {
        rows
    } else if has_session(rows, id) {
        rows
    } else {
        rows.push(
            SessionRecordModel { id, state, created_at: now, expires_at: (now + ttl) as i64 },
        )
    }
}

/// What `save` returns, as a function of the table it saw.
pub open spec fn save_result(rows: Seq<SessionRecordModel>, ttl: i64, now: i64, id: u128) -> Result<
    u128,
    SessionError,
> {
    if !session_expiry_ok(now, ttl) {
        Err(SessionError::ExpiryOverflow)
    } else if has_session(rows, id) {
        Err(SessionError::DuplicateId)
    } else {
        Ok(id)
    }
}

/// The table after `update`: the row overwritten in place when it still
/// exists, and the fallback to `save` semantics under `fresh` when it is
/// gone.
pub open spec fn after_update(
    rows: Seq<SessionRecordModel>,
    id: u128,
    state: Seq<EntryModel>,
    ttl: i64,
    now: i64,
    fresh: u128,
) -> Seq<SessionRecordModel> {
    if !session_expiry_ok(now, ttl) {
        rows
    } else if has_session(rows, id) {
        let i = session_index(rows, id);
        rows.update(i, SessionRecordModel { state, expires_at: (now + ttl) as i64, ..rows[i] })
    } else {
        after_save(rows, state, ttl, now, fresh)
    }
}

/// What `update` returns: the input id when the row still existed, else what
/// the fallback `save` returns. Callers must treat the returned id as
/// authoritative.
pub open spec fn update_result(
    rows: Seq<SessionRecordModel>,
    id: u128,
    ttl: i64,
    now: i64,
    fresh: u128,
) -> Result<u128, SessionError> {
    if !session_expiry_ok(now, ttl) {
        Err(SessionError::ExpiryOverflow)
    } else if has_session(rows, id) {
        Ok(id)
    } else {
        save_result(rows, ttl, now, fresh)
    }
}

/// The table after the reaper's sweep at `now`: exactly the rows that have
/// not yet expired, in order.
pub open spec fn after_reap(rows: Seq<SessionRecordModel>, now: i64) -> Seq<SessionRecordModel>
    decreases rows.len(),
{
    if rows.len() == 0 {
        Seq::empty()
    } else {
        let head = after_reap(rows.drop_last(), now);
        if rows.last().expires_at > now {
            head.push(rows.last())
        } else {
            head
        }
    }
}

/// How an exec `load` result reads at the model level.
pub open spec fn state_of(r: Option<SessionState>) -> Option<Seq<EntryModel>> {
    match r {
        Some(v) => Some(v.deep_view()),
        None => None,
    }
}

/// The session table itself.
pub struct SessionStore {
    rows: Vec<SessionRecord>,
}

impl View for SessionStore {
    type V = Seq<SessionRecordModel>;

    closed spec fn view(&self) -> Seq<SessionRecordModel> {
        self.rows.deep_view()
    }
}

impl SessionStore {
    pub fn new() -> (s: Self)
        ensures
            s@ == Seq::<SessionRecordModel>::empty(),
            sessions_wf(s@),
    {
        let s = SessionStore { rows: Vec::new() };
        proof {
            assert(s.rows.deep_view() =~= Seq::<SessionRecordModel>::empty());
        }
        s
    }

    /// Linear scan for the row carrying `id`.
    fn find_session(&self, id: u128) -> (r: Option<usize>)
        ensures
            match r {
                Some(i) => i < self@.len() && self@[i as int].id == id,
                None => !has_session(self@, id),
            },
    {
        let n = self.rows.len();
        let mut i: usize = 0;
        while i < n
            invariant
                i <= n,
                n == self.rows.len(),
                forall|j: int| 0 <= j < i ==> (#[trigger] self@[j]).id != id,
            decreases n - i,
        {
            if self.rows[i].id == id {
                return Some(i);
            }
            i = i + 1;
        }
        None
    }

    /// Returns the state of the session, or `None` when the row is absent or
    /// has expired. An expired row is treated as absent without being
    /// deleted; eager deletion is deferred to the reaper.
    pub fn load(&self, id: u128, now: i64) -> (r: Option<SessionState>)
        requires
            sessions_wf(self@),
        ensures
            state_of(r) == load_result(self@, id, now),
    {
        match self.find_session(id) {
            None => None,
            Some(i) => {
                proof {
                    lemma_session_index_unique(self@, id, i as int);
                }
                if self.rows[i].expires_at >= now {
                    let state = self.rows[i].state.clone();
                    proof {
                        assert(state.deep_view() =~= session_at(self@, id).state);
                    }
                    Some(state)
                } else {
                    None
                }
            },
        }
    }

    /// Inserts a new row under the freshly drawn `id`, with
    /// `expires_at = now + ttl`, and returns the id to be handed to the
    /// client.
    pub fn save(&mut self, state: SessionState, ttl: i64, now: i64, id: u128) -> (r: Result<
        u128,
        SessionError,
    >)
        requires
            sessions_wf(old(self)@),
        ensures
            sessions_wf(final(self)@),
            final(self)@ == after_save(old(self)@, state.deep_view(), ttl, now, id),
            r == save_result(old(self)@, ttl, now, id),
    {
        let expires_at = match now.checked_add(ttl) {
            Some(v) => v,
            None => {
                return Err(SessionError::ExpiryOverflow);
            },
        };
        match self.find_session(id) {
            Some(i) => {
                proof {
                    assert(self@[i as int].id == id);
                }
                Err(SessionError::DuplicateId)
            },
            None => {
                let ghost prev = self@;
                self.rows.push(SessionRecord { id, state, created_at: now, expires_at });
                proof {
                    let added = SessionRecordModel {
                        id,
                        state: state.deep_view(),
                        created_at: now,
                        expires_at: (now + ttl) as i64,
                    };
                    assert(self@ =~= prev.push(added));
                    assert forall|a: int, b: int| 0 <= a < b < self@.len() implies self@[a].id
                        != self@[b].id by {
                        if b == self@.len() - 1 {
                            assert(prev[a].id != id);
                        }
                    }
                }
                Ok(id)
            },
        }
    }

    /// Recomputes the expiry and overwrites the state in place when the row
    /// still exists; when it has vanished between session issuance and this
    /// call, falls back to `save` semantics under `fresh`, and the caller
    /// must treat the returned id as authoritative.
    pub fn update(
        &mut self,
        id: u128,
        state: SessionState,
        ttl: i64,
        now: i64,
        fresh: u128,
    ) -> (r: Result<u128, SessionError>)
        requires
            sessions_wf(old(self)@),
        ensures
            sessions_wf(final(self)@),
            final(self)@ == after_update(old(self)@, id, state.deep_view(), ttl, now, fresh),
            r == update_result(old(self)@, id, ttl, now, fresh),
    {
        let expires_at = match now.checked_add(ttl) {
            Some(v) => v,
            None => {
                return Err(SessionError::ExpiryOverflow);
            },
        };
        match self.find_session(id) {
            Some(i) => {
                proof {
                    lemma_session_index_unique(self@, id, i as int);
                }
                let created_at = self.rows[i].created_at;
                let updated = SessionRecord { id, state, created_at, expires_at };
                let ghost prev = self@;
                self.rows.set(i, updated);
                proof {
                    let k = session_index(prev, id);
                    assert(self@ =~= prev.update(
                        k,
                        SessionRecordModel {
                            state: state.deep_view(),
                            expires_at: (now + ttl) as i64,
                            ..prev[k]
                        },
                    ));
                    assert forall|a: int, b: int| 0 <= a < b < self@.len() implies self@[a].id
                        != self@[b].id by {
                        assert(self@[a].id == prev[a].id);
                        assert(self@[b].id == prev[b].id);
                    }
                }
                Ok(id)
            },
            None => self.save(state, ttl, now, fresh),
        }
    }

    /// Unconditional deletion, as on logout; deleting an absent id is not an
    /// error.
    pub fn delete(&mut self, id: u128)
        requires
            sessions_wf(old(self)@),
        ensures
            sessions_wf(final(self)@),
            !has_session(final(self)@, id),
            has_session(old(self)@, id) ==> final(self)@ == old(self)@.remove(
                session_index(old(self)@, id),
            ),
            !has_session(old(self)@, id) ==> final(self)@ == old(self)@,
    {
        match self.find_session(id) {
            None => (),
            Some(i) => {
                proof {
                    lemma_session_index_unique(self@, id, i as int);
                }
                let ghost prev = self@;
                self.rows.remove(i);
                proof {
                    assert(self@ =~= prev.remove(i as int));
                    assert forall|a: int, b: int| 0 <= a < b < self@.len() implies self@[a].id
                        != self@[b].id by {
                        let a0 = if a < i as int {
                            a
                        } else {
                            a + 1
                        };
                        let b0 = if b < i as int {
                            b
                        } else {
                            b + 1
                        };
                        assert(self@[a] == prev[a0]);
                        assert(self@[b] == prev[b0]);
                    }
                    assert forall|k: int| 0 <= k < self@.len() implies (#[trigger] self@[k]).id
                        != id by {
                        let k0 = if k < i as int {
                            k
                        } else {
                            k + 1
                        };
                        assert(self@[k] == prev[k0]);
                    }
                }
            },
        }
    }

    /// The reaper's sweep: deletes every row with `expires_at <= now` in one
    /// pass and reports how many went.
    pub fn reap(&mut self, now: i64) -> (removed: usize)
        requires
            sessions_wf(old(self)@),
        ensures
            sessions_wf(final(self)@),
            final(self)@ == after_reap(old(self)@, now),
            removed == old(self)@.len() - final(self)@.len(),
    {
        let ghost rows0 = self@;
        let n = self.rows.len();
        let mut kept: Vec<SessionRecord> = Vec::new();
        let mut i: usize = 0;
        proof {
            assert(kept.deep_view() =~= after_reap(rows0.take(0), now));
        }
        while i < n
            invariant
                i <= n,
                n == self.rows.len(),
                self@ == rows0,
                kept.deep_view() == after_reap(rows0.take(i as int), now),
                kept.len() <= i,
            decreases n - i,
        {
            let ghost t = i as int;
            if self.rows[i].expires_at > now {
                let row = self.rows[i].clone();
                let ghost kept_prev = kept.deep_view();
                kept.push(row);
                proof {
                    assert(kept.deep_view() =~= kept_prev.push(rows0[t]));
                }
            }
            i = i + 1;
            proof {
                assert(rows0.take(t + 1).drop_last() =~= rows0.take(t));
                assert(rows0.take(t + 1).last() == rows0[t]);
                assert(kept.deep_view() =~= after_reap(rows0.take(t + 1), now));
            }
        }
        proof {
            assert(rows0.take(n as int) =~= rows0);
            lemma_after_reap_props(rows0, now);
        }
        let removed = n - kept.len();
        self.rows = kept;
        removed
    }
}

impl SessionStore {
    /// `save` with the id drawn from the process randomness and `now` read
    /// from the process clock, converted to milliseconds — the signature the
    /// session middleware calls. The TTL is in milliseconds. Clock and id are
    /// arbitrary to the proof, so the contract holds for every reading.
    pub fn save_now(&mut self, state: SessionState, ttl: i64) -> (r: Result<u128, SessionError>)
        requires
            sessions_wf(old(self)@),
        ensures
            sessions_wf(final(self)@),
            (exists|now: i64, id: u128|
                final(self)@ == after_save(old(self)@, state.deep_view(), ttl, now, id) && r
                    == save_result(old(self)@, ttl, now, id)) || (r == Err::<
                u128,
                SessionError,
            >(SessionError::ExpiryOverflow) && final(self)@ == old(self)@),
    {
        let now_s = now_unix_seconds();
        let now_ms = match now_s.checked_mul(1000) {
            Some(v) => v,
            None => {
                return Err(SessionError::ExpiryOverflow);
            },
        };
        let id = fresh_id();
        let r = self.save(state, ttl, now_ms, id);
        proof {
            assert(final(self)@ == after_save(old(self)@, state.deep_view(), ttl, now_ms, id) && r
                == save_result(old(self)@, ttl, now_ms, id));
        }
        r
    }
}

/// The configuration of the background reaper.
#[derive(PartialEq, Eq, Structural, Debug, Clone, Copy)]
pub struct CleanupConfig {
    pub enabled: bool,
    pub interval_milliseconds: i64,
}

impl CleanupConfig {
    pub fn new(enabled: bool, interval_milliseconds: i64) -> (r: Self)
        ensures
            r.enabled == enabled,
            r.interval_milliseconds == interval_milliseconds,
    {
        CleanupConfig { enabled, interval_milliseconds }
    }
}

impl Default for CleanupConfig {
    /// Disabled, with a thirty-second interval.
    fn default() -> (r: Self)
        ensures
            !r.enabled,
            r.interval_milliseconds == 30000,
    {
        CleanupConfig::new(false, 30000)
    }
}

/// What the reaper loop does after a sweep attempt fails.
#[derive(PartialEq, Eq, Structural, Debug, Clone, Copy)]
pub enum CleanupAction {
    /// Transient fault: log it and keep looping.
    KeepRunning,
    /// The connection pool is closed for good: exit quietly.
    Stop,
}

/// The reaper's loop policy: only a closed pool ends the loop; any other
/// fault is survived. This branch is first-class, not a catch-all.
pub fn cleanup_step_action(result: &Result<u64, StoreFault>) -> (r: CleanupAction)
    ensures
        r == (match result {
            Err(StoreFault::PoolClosed) => CleanupAction::Stop,
            _ => CleanupAction::KeepRunning,
        }),
{
    match result {
        Err(StoreFault::PoolClosed) => CleanupAction::Stop,
        _ => CleanupAction::KeepRunning,
    }
}

/// The opaque cookie token for a session id: its canonical 36-character text
/// form.
pub fn session_key_of(id: u128) -> (s: String)
    ensures
        s@ == uuid_text_of(id),
        s@.len() == 36,
{
    uuid_text(id)
}

/// Reads a session id back from a cookie token. The text form of any id
/// parses back to that id; other tokens are rejected.
pub fn session_key_to_id(s: &str) -> (r: Option<u128>)
    ensures
        forall|id: u128| s@ == uuid_text_of(id) ==> r == Some(id),
{
    uuid_parse(s)
}

/// What the reaper's sweep leaves: only unexpired rows, all of them drawn
/// from the table, every live row kept, never more rows than before, and the
/// id uniqueness invariant intact.
pub proof fn lemma_after_reap_props(rows: Seq<SessionRecordModel>, now: i64)
    requires
        sessions_wf(rows),
    ensures
        after_reap(rows, now).len() <= rows.len(),
        forall|k: int|
            0 <= k < after_reap(rows, now).len() ==> (#[trigger] after_reap(rows, now)[
                k
            ]).expires_at > now,
        forall|k: int|
            0 <= k < after_reap(rows, now).len() ==> exists|j: int|
                0 <= j < rows.len() && #[trigger] after_reap(rows, now)[k] == rows[j],
        forall|j: int|
            0 <= j < rows.len() && (#[trigger] rows[j]).expires_at > now ==> exists|k: int|
                0 <= k < after_reap(rows, now).len() && after_reap(rows, now)[k] == rows[j],
        sessions_wf(after_reap(rows, now)),
    decreases rows.len(),
{
    let ar = after_reap(rows, now);
    if rows.len() > 0 {
        let rest = rows.drop_last();
        lemma_after_reap_props(rest, now);
        let head = after_reap(rest, now);
        assert forall|k: int| 0 <= k < ar.len() implies exists|j: int|
            0 <= j < rows.len() && #[trigger] ar[k] == rows[j] by {
            if k < head.len() {
                assert(ar[k] == head[k]);
                let j = choose|j: int| 0 <= j < rest.len() && head[k] == rest[j];
                assert(ar[k] == rows[j]);
            } else {
                assert(ar[k] == rows.last());
            }
        }
        assert forall|j: int|
            0 <= j < rows.len() && (#[trigger] rows[j]).expires_at > now implies exists|k: int|
            0 <= k < ar.len() && ar[k] == rows[j] by {
            if j < rows.len() - 1 {
                assert(rest[j] == rows[j]);
                let k = choose|k: int| 0 <= k < head.len() && head[k] == rest[j];
                assert(ar[k] == rows[j]);
            } else {
                assert(ar[ar.len() - 1] == rows.last());
            }
        }
        assert forall|a: int, b: int| 0 <= a < b < ar.len() implies ar[a].id != ar[b].id by {
            if b == ar.len() - 1 && rows.last().expires_at > now {
                assert(ar[a] == head[a]);
                let j = choose|j: int| 0 <= j < rest.len() && head[a] == rest[j];
                assert(rows[j].id != rows[rows.len() - 1].id);
            } else {
                assert(ar[a] == head[a] && ar[b] == head[b]);
            }
        }
    }
}

/// Session expiry, both ways: after `save` with TTL `ttl` at time `t0`, a
/// `load` strictly after the TTL has elapsed finds nothing, and a `load` at
/// or before the deadline returns exactly the saved state.
pub proof fn lemma_session_expiry(
    rows: Seq<SessionRecordModel>,
    state: Seq<EntryModel>,
    ttl: i64,
    t0: i64,
    id: u128,
    t: i64,
)
    requires
        sessions_wf(rows),
        !has_session(rows, id),
        session_expiry_ok(t0, ttl),
    ensures
        save_result(rows, ttl, t0, id) == Ok::<u128, SessionError>(id),
        t > t0 + ttl ==> load_result(after_save(rows, state, ttl, t0, id), id, t) is None,
        t <= t0 + ttl ==> load_result(after_save(rows, state, ttl, t0, id), id, t) == Some(state),
{
    let rows1 = after_save(rows, state, ttl, t0, id);
    let added = SessionRecordModel {
        id,
        state,
        created_at: t0,
        expires_at: (t0 + ttl) as i64,
    };
    assert(rows1 == rows.push(added));
    assert(rows1[rows1.len() - 1] == added);
    assert(has_session(rows1, id));
    assert forall|a: int, b: int| 0 <= a < b < rows1.len() implies rows1[a].id != rows1[b].id by {
        if b == rows1.len() - 1 {
            if rows[a].id == id {
                assert(has_session(rows, id));
            }
        }
    }
    lemma_session_index_unique(rows1, id, rows1.len() - 1);
}

/// Session update fallback: `update` on an id that no longer exists succeeds
/// under the freshly drawn id — a different one from the input — and
/// persists the given state under it.
pub proof fn lemma_update_fallback(
    rows: Seq<SessionRecordModel>,
    id: u128,
    state: Seq<EntryModel>,
    ttl: i64,
    now: i64,
    fresh: u128,
)
    requires
        sessions_wf(rows),
        !has_session(rows, id),
        !has_session(rows, fresh),
        fresh != id,
        session_expiry_ok(now, ttl),
    ensures
        update_result(rows, id, ttl, now, fresh) == Ok::<u128, SessionError>(fresh),
        has_session(after_update(rows, id, state, ttl, now, fresh), fresh),
        session_at(after_update(rows, id, state, ttl, now, fresh), fresh).state == state,
        !has_session(after_update(rows, id, state, ttl, now, fresh), id),
{
    let rows1 = after_update(rows, id, state, ttl, now, fresh);
    let added = SessionRecordModel {
        id: fresh,
        state,
        created_at: now,
        expires_at: (now + ttl) as i64,
    };
    assert(rows1 == rows.push(added));
    assert(rows1[rows1.len() - 1] == added);
    assert(has_session(rows1, fresh));
    assert forall|a: int, b: int| 0 <= a < b < rows1.len() implies rows1[a].id != rows1[b].id by {
        if b == rows1.len() - 1 {
            if rows[a].id == fresh {
                assert(has_session(rows, fresh));
            }
        }
    }
    lemma_session_index_unique(rows1, fresh, rows1.len() - 1);
    assert forall|k: int| 0 <= k < rows1.len() implies (#[trigger] rows1[k]).id != id by {
        if k < rows1.len() - 1 {
            if rows[k].id == id {
                assert(has_session(rows, id));
            }
        }
    }
}

} // verus!
