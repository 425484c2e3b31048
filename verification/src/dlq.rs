//! Dead-letter queue for failed asynchronous deliveries.
//!
//! A delivery that exhausts its retries is captured here, so that operators
//! can inspect what was lost and replay it once the downstream target
//! recovers. A replay alternates decisions with requests: a `ReplayRun` says
//! which entry is to be sent next and is told what came back.

use crate::clock::{fresh_id, Timestamp};
use crate::json::Json;
use crate::order;
use crate::order::ranked;
use crate::strmap::StrMap;
use crate::text;
use crate::text::{contains, copied, joined, str_eq};
use vstd::prelude::*;

verus! {

/// Where an entry stands.
#[derive(Debug, Clone, Copy, PartialEq, Eq, Structural)]
pub enum DlqStatus {
    /// Awaiting operator action or automatic replay.
    Pending,
    /// Replay was attempted and the downstream target accepted it.
    Replayed,
    /// Replay was attempted and the downstream target rejected it again.
    ReplayFailed,
}

impl DlqStatus {
    /// The name of the status.
    pub open spec fn spec_name(self) -> Seq<char> {
        match self {
            DlqStatus::Pending => "pending"@,
            DlqStatus::Replayed => "replayed"@,
            DlqStatus::ReplayFailed => "replay_failed"@,
        }
    }

    /// The name of the status.
    pub fn name(&self) -> (r: &'static str)
        ensures
            r@ == self.spec_name(),
    {
        match self {
            DlqStatus::Pending => "pending",
            DlqStatus::Replayed => "replayed",
            DlqStatus::ReplayFailed => "replay_failed",
        }
    }
}

/// A single failed delivery captured in the dead-letter queue.
#[derive(Debug)]
pub struct DlqEntry {
    pub id: String,
    /// Where the failure originated, e.g. "webhook:<registration_id>".
    pub source: String,
    /// The downstream URL/endpoint the payload was destined for, if replayable.
    pub target: Option<String>,
    pub payload: Json,
    pub error: String,
    pub attempts: u32,
    pub status: DlqStatus,
    pub created_at: Timestamp,
    pub last_attempt_at: Timestamp,
}

impl Clone for DlqEntry {
    fn clone(&self) -> (r: Self)
        ensures
            r == *self,
    {
        DlqEntry {
            id: self.id.clone(),
            source: self.source.clone(),
            target: copied(&self.target),
            payload: self.payload.clone(),
            error: self.error.clone(),
            attempts: self.attempts,
            status: self.status,
            created_at: self.created_at,
            last_attempt_at: self.last_attempt_at,
        }
    }
}

/// What is asked to be listed.
#[derive(Debug)]
pub struct ListDlqQuery {
    pub status: Option<String>,
    pub source: Option<String>,
    pub limit: Option<usize>,
}

/// What is asked to be replayed.
#[derive(Debug)]
pub struct ReplayDlqRequest {
    /// Replay a specific entry by id.
    pub id: Option<String>,
    /// Replay every pending entry.
    pub replay_all: bool,
}

/// How the replay of one entry ended.
#[derive(Debug)]
pub struct ReplayResult {
    pub id: String,
    pub success: bool,
    pub detail: String,
}

/// How a replay ended.
#[derive(Debug)]
pub struct ReplayResponse {
    pub attempted: usize,
    pub succeeded: usize,
    pub failed: usize,
    pub results: Vec<ReplayResult>,
}

/// Why a replay is refused.
#[derive(Debug, Clone, Copy, PartialEq, Eq, Structural)]
pub enum DlqError {
    /// No entry has the given id.
    NotFound,
    /// Neither an id nor all entries were asked for.
    NothingSpecified,
}

impl DlqError {
    /// The HTTP status of the refusal.
    pub fn status(&self) -> (r: u16)
        ensures
            r == match *self {
                DlqError::NotFound => 404u16,
                DlqError::NothingSpecified => 422u16,
            },
    {
        match self {
            DlqError::NotFound => 404,
            DlqError::NothingSpecified => 422,
        }
    }

    /// The refusal in words.
    pub fn message(&self) -> (r: &'static str)
        ensures
            r@ == match *self {
                DlqError::NotFound => "dlq entry not found"@,
                DlqError::NothingSpecified => "must specify id or replay_all"@,
            },
    {
        match self {
            DlqError::NotFound => "dlq entry not found",
            DlqError::NothingSpecified => "must specify id or replay_all",
        }
    }
}

/// An empty store.
pub fn create_dlq_store() -> (r: StrMap<DlqEntry>)
    ensures
        r@ == Map::<Seq<char>, DlqEntry>::empty(),
        r.order() == Seq::<Seq<char>>::empty(),
{
    StrMap::new()
}

/// The dead-letter queue.
pub struct DlqState {
    pub store: StrMap<DlqEntry>,
}

impl Default for DlqState {
    fn default() -> (r: Self)
        ensures
            r.store@ == Map::<Seq<char>, DlqEntry>::empty(),
    {
        DlqState::new()
    }
}

impl DlqState {
    /// An empty queue.
    pub fn new() -> (r: Self)
        ensures
            r.store@ == Map::<Seq<char>, DlqEntry>::empty(),
    {
        DlqState { store: create_dlq_store() }
    }
}

/// Whether `e` is the entry of a failed delivery.
pub open spec fn captures(
    e: DlqEntry,
    id: Seq<char>,
    source: Seq<char>,
    target: Option<String>,
    payload: Json,
    error: Seq<char>,
    attempts: u32,
    now: Timestamp,
) -> bool {
    &&& e.id@ == id
    &&& e.source@ == source
    &&& e.target == target
    &&& e.payload == payload
    &&& e.error@ == error
    &&& e.attempts == attempts
    &&& e.status == DlqStatus::Pending
    &&& e.created_at == now
    &&& e.last_attempt_at == now
}

impl DlqState {
    /// Captures a failed delivery under an id at a given time.
    pub fn route_at(
        &mut self,
        id: String,
        source: &str,
        target: Option<String>,
        payload: Json,
        error: &str,
        attempts: u32,
        now: Timestamp,
    ) -> (r: DlqEntry)
        ensures
            captures(r, id@, source@, target, payload, error@, attempts, now),
            final(self).store@ == old(self).store@.insert(id@, r),
    {
        let key = id.clone();
        let entry = DlqEntry {
            id,
            source: source.to_owned(),
            target,
            payload,
            error: error.to_owned(),
            attempts,
            status: DlqStatus::Pending,
            created_at: now,
            last_attempt_at: now,
        };
        let copy = entry.clone();
        let _old = self.store.insert(key, copy);
        entry
    }
}

/// Route a permanently failed delivery into the dead-letter queue.
///
/// Callers invoke this once their own retry budget is exhausted, so the
/// payload isn't silently discarded.
pub fn route_to_dlq(
    state: &mut DlqState,
    source: &str,
    target: Option<String>,
    payload: Json,
    error: &str,
    attempts: u32,
) -> (r: DlqEntry)
    ensures
        r.id@.len() == 36,
        exists|now: Timestamp| #[trigger]
            captures(r, r.id@, source@, target, payload, error@, attempts, now),
        final(state).store@ == old(state).store@.insert(r.id@, r),
{
    let id = fresh_id();
    let now = Timestamp::now();
    state.route_at(id, source, target, payload, error, attempts, now)
}

/// Whether an entry is wanted: it has the status asked for, where that names
/// one, and the source asked for occurs in its own.
pub open spec fn wanted(query: ListDlqQuery, e: DlqEntry) -> bool {
    &&& match query.status {
        Some(s) => if s@ == "pending"@ {
            e.status == DlqStatus::Pending
        } else if s@ == "replayed"@ {
            e.status == DlqStatus::Replayed
        } else if s@ == "replay_failed"@ {
            e.status == DlqStatus::ReplayFailed
        } else {
            true
        },
        None => true,
    }
    &&& match query.source {
        Some(s) => text::occurs(e.source@, s@),
        None => true,
    }
}

/// Whether an entry is wanted.
fn is_wanted(query: &ListDlqQuery, e: &DlqEntry) -> (r: bool)
    ensures
        r == wanted(*query, *e),
{
    let fits: bool = match &query.status {
        Some(s) => {
            if str_eq(s.as_str(), "pending") {
                e.status == DlqStatus::Pending
            } else if str_eq(s.as_str(), "replayed") {
                e.status == DlqStatus::Replayed
            } else if str_eq(s.as_str(), "replay_failed") {
                e.status == DlqStatus::ReplayFailed
            } else {
                true
            }
        },
        None => true,
    };
    if !fits {
        return false;
    }
    match &query.source {
        Some(s) => contains(e.source.as_str(), s.as_str()),
        None => true,
    }
}

/// When some entries were captured.
pub open spec fn creation_keys(v: Seq<DlqEntry>) -> Seq<i128> {
    Seq::new(v.len(), |i: int| v[i].created_at.moment())
}

/// The entries at the given positions.
pub open spec fn picked(v: Seq<DlqEntry>, perm: Seq<usize>) -> Seq<DlqEntry> {
    Seq::new(perm.len(), |i: int| v[perm[i] as int])
}

/// How many of `n` are within a limit.
pub open spec fn within(limit: Option<usize>, n: nat) -> int {
    match limit {
        Some(l) => if l < n {
            l as int
        } else {
            n as int
        },
        None => n as int,
    }
}

/// Whether `r` lists those of `all` that are wanted, the newest first, as many
/// as the limit admits; entries of the same moment keep their order.
pub open spec fn lists(query: ListDlqQuery, all: Seq<DlqEntry>, r: Seq<DlqEntry>) -> bool {
    let hits = all.filter(|e: DlqEntry| wanted(query, e));
    exists|perm: Seq<usize>| #[trigger]
        order::stable_order(creation_keys(hits), true, perm) && r == picked(hits, perm).take(
            within(query.limit, hits.len()),
        )
}

/// Inspect dead-lettered entries, optionally filtered.
pub fn list_dlq_entries(state: &DlqState, query: &ListDlqQuery) -> (r: Vec<DlqEntry>)
    ensures
        lists(*query, state.store.contents(), r@),
{
    let n: usize = state.store.len();
    let ghost all = state.store.contents();
    let ghost pred = |e: DlqEntry| wanted(*query, e);
    let mut hits: Vec<DlqEntry> = Vec::new();
    let mut keys: Vec<i128> = Vec::new();
    let mut i: usize = 0;
    proof {
        reveal(Seq::filter);
        assert(all.take(0).filter(pred) =~= Seq::<DlqEntry>::empty());
    }
    while i < n
        invariant
            i <= n,
            all == state.store.contents(),
            pred == (|e: DlqEntry| wanted(*query, e)),
            n == state.store.order().len(),
            n == all.len(),
            hits@ == all.take(i as int).filter(pred),
            keys@ == creation_keys(hits@),
        decreases n - i,
    {
        proof {
            reveal(Seq::filter);
            assert(all.take(i + 1).drop_last() =~= all.take(i as int));
            assert(all.take(i + 1).last() == all[i as int]);
        }
        let e = state.store.value_at(i);
        if is_wanted(query, e) {
            hits.push(e.clone());
            keys.push(e.created_at.order_key());
            assert(keys@ =~= creation_keys(hits@));
        }
        i += 1;
    }
    assert(all.take(i as int) =~= all);
    let perm = ranked(&keys, true);
    let limit: usize = match query.limit {
        Some(l) => if l < perm.len() {
            l
        } else {
            perm.len()
        },
        None => perm.len(),
    };
    let mut out: Vec<DlqEntry> = Vec::new();
    let mut k: usize = 0;
    while k < limit
        invariant
            k <= limit <= perm@.len(),
            order::stable_order(creation_keys(hits@), true, perm@),
            out@ == picked(hits@, perm@).take(k as int),
        decreases limit - k,
    {
        out.push(hits[perm[k]].clone());
        k += 1;
        assert(out@ =~= picked(hits@, perm@).take(k as int));
    }
    out
}

/// Fetch a single entry.
pub fn get_dlq_entry(state: &DlqState, id: &str) -> (r: Option<DlqEntry>)
    ensures
        match r {
            Some(e) => state.store@.contains_key(id@) && e == state.store@[id@],
            None => !state.store@.contains_key(id@),
        },
{
    match state.store.get(id) {
        Some(e) => Some(e.clone()),
        None => None,
    }
}

/// The entries that await a replay.
pub open spec fn pending_of(all: Seq<DlqEntry>) -> Seq<DlqEntry> {
    all.filter(|e: DlqEntry| e.status == DlqStatus::Pending)
}

/// The entries that a request asks to be replayed.
pub fn replay_targets(state: &DlqState, body: &ReplayDlqRequest) -> (r: Result<
    Vec<DlqEntry>,
    DlqError,
>)
    ensures
        if body.replay_all {
            r is Ok && r->Ok_0@ == pending_of(state.store.contents())
        } else {
            match body.id {
                Some(id) => if state.store@.contains_key(id@) {
                    r is Ok && r->Ok_0@ == seq![state.store@[id@]]
                } else {
                    r == Err::<Vec<DlqEntry>, DlqError>(DlqError::NotFound)
                },
                None => r == Err::<Vec<DlqEntry>, DlqError>(DlqError::NothingSpecified),
            }
        },
{
    if body.replay_all {
        let n: usize = state.store.len();
        let ghost all = state.store.contents();
        let ghost pred = |e: DlqEntry| e.status == DlqStatus::Pending;
        let mut out: Vec<DlqEntry> = Vec::new();
        let mut i: usize = 0;
        proof {
            reveal(Seq::filter);
            assert(all.take(0).filter(pred) =~= Seq::<DlqEntry>::empty());
        }
        while i < n
            invariant
                i <= n,
                all == state.store.contents(),
                pred == (|e: DlqEntry| e.status == DlqStatus::Pending),
                n == state.store.order().len(),
                n == all.len(),
                out@ == all.take(i as int).filter(pred),
            decreases n - i,
        {
            proof {
                reveal(Seq::filter);
                assert(all.take(i + 1).drop_last() =~= all.take(i as int));
                assert(all.take(i + 1).last() == all[i as int]);
            }
            let e = state.store.value_at(i);
            if e.status == DlqStatus::Pending {
                out.push(e.clone());
            }
            i += 1;
        }
        assert(all.take(i as int) =~= all);
        Ok(out)
    } else {
        match &body.id {
            Some(id) => match state.store.get(id.as_str()) {
                Some(e) => {
                    let mut out: Vec<DlqEntry> = Vec::new();
                    out.push(e.clone());
                    assert(out@ =~= seq![state.store@[id@]]);
                    Ok(out)
                },
                None => Err(DlqError::NotFound),
            },
            None => Err(DlqError::NothingSpecified),
        }
    }
}

/// What came back of a request.
#[derive(Debug)]
pub enum Reply {
    /// The target answered with a status; `text` is the status as it is written.
    Answered { status: u16, text: String },
    /// No answer, for the given reason.
    Lost(String),
}

/// Whether a target accepted what was sent.
pub open spec fn accepted(reply: Reply) -> bool {
    match reply {
        Reply::Answered { status, .. } => 200 <= status < 300,
        Reply::Lost(_) => false,
    }
}

/// Whether the replay of an entry succeeds.
pub open spec fn succeeds(e: DlqEntry, reply: Reply) -> bool {
    e.target is Some && accepted(reply)
}

/// What is said of the replay of an entry.
pub open spec fn verdict(e: DlqEntry, reply: Reply) -> Seq<char> {
    if e.target is None {
        "no replay target recorded for this entry"@
    } else {
        match reply {
            Reply::Answered { status, text } => if 200 <= status < 300 {
                "replay accepted with status "@ + text@
            } else {
                "replay rejected with status "@ + text@
            },
            Reply::Lost(why) => "replay request error: "@ + why@,
        }
    }
}

/// The result of the replay of one entry; where the entry has no target
/// nothing is sent, and the reply does not matter.
pub fn replay_one(e: &DlqEntry, reply: &Reply) -> (r: ReplayResult)
    ensures
        r.id == e.id,
        r.success == succeeds(*e, *reply),
        r.detail@ == verdict(*e, *reply),
{
    if e.target.is_none() {
        return ReplayResult {
            id: e.id.clone(),
            success: false,
            detail: "no replay target recorded for this entry".to_owned(),
        };
    }
    match reply {
        Reply::Answered { status, text } => {
            if 200 <= *status && *status < 300 {
                ReplayResult {
                    id: e.id.clone(),
                    success: true,
                    detail: joined("replay accepted with status ", text.as_str()),
                }
            } else {
                ReplayResult {
                    id: e.id.clone(),
                    success: false,
                    detail: joined("replay rejected with status ", text.as_str()),
                }
            }
        },
        Reply::Lost(why) => ReplayResult {
            id: e.id.clone(),
            success: false,
            detail: joined("replay request error: ", why.as_str()),
        },
    }
}

/// An entry after one more attempt; the number of attempts wraps around.
pub open spec fn marked(e: DlqEntry, status: DlqStatus, now: Timestamp) -> DlqEntry {
    DlqEntry {
        status,
        last_attempt_at: now,
        attempts: if e.attempts == u32::MAX {
            0
        } else {
            (e.attempts + 1) as u32
        },
        ..e
    }
}

/// The entries with one of them marked, where it is there.
pub open spec fn marked_in(
    m: Map<Seq<char>, DlqEntry>,
    id: Seq<char>,
    status: DlqStatus,
    now: Timestamp,
) -> Map<Seq<char>, DlqEntry> {
    if m.contains_key(id) {
        m.insert(id, marked(m[id], status, now))
    } else {
        m
    }
}

/// Records an attempt on an entry.
pub fn mark_status(state: &mut DlqState, id: &str, status: DlqStatus, now: Timestamp)
    ensures
        final(state).store@ == marked_in(old(state).store@, id@, status, now),
        final(state).store.order() == old(state).store.order(),
{
    if let Some(e) = state.store.get_mut(id) {
        e.status = status;
        e.last_attempt_at = now;
        e.attempts = e.attempts.wrapping_add(1);
    }
}

/// The status of an entry after its replay.
pub open spec fn status_after(success: bool) -> DlqStatus {
    if success {
        DlqStatus::Replayed
    } else {
        DlqStatus::ReplayFailed
    }
}

/// How many results are successes.
pub open spec fn successes(results: Seq<ReplayResult>) -> nat
    decreases results.len(),
{
    if results.len() == 0 {
        0
    } else {
        successes(results.drop_last()) + if results.last().success {
            1nat
        } else {
            0
        }
    }
}

/// There are no more successes than results.
proof fn lemma_successes(results: Seq<ReplayResult>)
    ensures
        successes(results) <= results.len(),
    decreases results.len(),
{
    if results.len() > 0 {
        lemma_successes(results.drop_last());
    }
}

/// A replay under way: the entries to be replayed, and the results of the first
/// of them.
#[derive(Debug)]
pub struct ReplayRun {
    pub targets: Vec<DlqEntry>,
    pub results: Vec<ReplayResult>,
    pub succeeded: usize,
    pub failed: usize,
}

impl ReplayRun {
    /// Whether the counts fit the results.
    pub open spec fn wf(self) -> bool {
        &&& self.results@.len() <= self.targets@.len()
        &&& self.succeeded == successes(self.results@)
        &&& self.failed == self.results@.len() - successes(self.results@)
    }

    /// A replay of the given entries.
    pub fn new(targets: Vec<DlqEntry>) -> (r: Self)
        ensures
            r.wf(),
            r.targets == targets,
            r.results@.len() == 0,
    {
        ReplayRun { targets, results: Vec::new(), succeeded: 0, failed: 0 }
    }

    /// The entry that is to be sent next, if there is one left.
    pub fn next_entry(&self) -> (r: Option<&DlqEntry>)
        requires
            self.wf(),
        ensures
            match r {
                Some(e) => self.results@.len() < self.targets@.len() && *e
                    == self.targets@[self.results@.len() as int],
                None => self.results@.len() == self.targets@.len(),
            },
    {
        if self.results.len() < self.targets.len() {
            Some(&self.targets[self.results.len()])
        } else {
            None
        }
    }

    /// Takes in what came back for the next entry: its result is recorded, and
    /// its status is marked in the queue.
    pub fn record(&mut self, state: &mut DlqState, reply: &Reply, now: Timestamp)
        requires
            old(self).wf(),
            old(self).results@.len() < old(self).targets@.len(),
        ensures
            final(self).wf(),
            final(self).targets == old(self).targets,
            final(self).results@.len() == old(self).results@.len() + 1,
            final(self).results@.drop_last() == old(self).results@,
            ({
                let e = old(self).targets@[old(self).results@.len() as int];
                let result = final(self).results@.last();
                &&& result.id == e.id
                &&& result.success == succeeds(e, *reply)
                &&& result.detail@ == verdict(e, *reply)
                &&& final(state).store@ == marked_in(
                    old(state).store@,
                    e.id@,
                    status_after(succeeds(e, *reply)),
                    now,
                )
            }),
    {
        let _total: usize = self.targets.len();
        let result = replay_one(&self.targets[self.results.len()], reply);
        proof {
            lemma_successes(self.results@);
        }
        if result.success {
            self.succeeded = self.succeeded + 1;
            mark_status(state, result.id.as_str(), DlqStatus::Replayed, now);
        } else {
            self.failed = self.failed + 1;
            mark_status(state, result.id.as_str(), DlqStatus::ReplayFailed, now);
        }
        self.results.push(result);
        assert(self.results@.drop_last() =~= old(self).results@);
    }

    /// The answer, once every entry has its result.
    pub fn finish(self) -> (r: ReplayResponse)
        requires
            self.wf(),
            self.results@.len() == self.targets@.len(),
        ensures
            r.attempted == self.targets@.len(),
            r.succeeded == successes(self.results@),
            r.failed == self.targets@.len() - successes(self.results@),
            r.results == self.results,
    {
        ReplayResponse {
            attempted: self.targets.len(),
            succeeded: self.succeeded,
            failed: self.failed,
            results: self.results,
        }
    }
}

/// Begin to replay a specific entry, or every pending entry.
pub fn begin_replay(state: &DlqState, body: &ReplayDlqRequest) -> (r: Result<ReplayRun, DlqError>)
    ensures
        match r {
            Ok(run) => run.wf() && run.results@.len() == 0,
            Err(_) => true,
        },
        if body.replay_all {
            r is Ok && r->Ok_0.targets@ == pending_of(state.store.contents())
        } else {
            match body.id {
                Some(id) => if state.store@.contains_key(id@) {
                    r is Ok && r->Ok_0.targets@ == seq![state.store@[id@]]
                } else {
                    r is Err && r->Err_0 == DlqError::NotFound
                },
                None => r is Err && r->Err_0 == DlqError::NothingSpecified,
            }
        },
{
    match replay_targets(state, body) {
        Ok(targets) => Ok(ReplayRun::new(targets)),
        Err(e) => Err(e),
    }
}

/// Whether `result` is that of an entry for a reply that `send` may give.
pub open spec fn result_of<F: Fn(&DlqEntry) -> Reply>(
    send: F,
    e: DlqEntry,
    result: ReplayResult,
) -> bool {
    exists|reply: Reply| #[trigger]
        send.ensures((&e,), reply) && result.id == e.id && result.success == succeeds(e, reply)
            && result.detail@ == verdict(e, reply)
}

/// The entries after each of the first `n` results has been marked.
pub open spec fn marked_all(
    m: Map<Seq<char>, DlqEntry>,
    results: Seq<ReplayResult>,
    now: Timestamp,
) -> Map<Seq<char>, DlqEntry>
    decreases results.len(),
{
    if results.len() == 0 {
        m
    } else {
        marked_in(
            marked_all(m, results.drop_last(), now),
            results.last().id@,
            status_after(results.last().success),
            now,
        )
    }
}

/// Replay a specific entry, or every pending entry, at a given time: `send`
/// hands an entry to its target and says what came back.
pub fn replay_dlq_entries<F: Fn(&DlqEntry) -> Reply>(
    state: &mut DlqState,
    body: &ReplayDlqRequest,
    send: F,
    now: Timestamp,
) -> (r: Result<ReplayResponse, DlqError>)
    requires
        forall|e: DlqEntry| #[trigger] send.requires((&e,)),
    ensures
        match r {
            Err(e) => final(state).store@ == old(state).store@ && !body.replay_all && match body.id {
                Some(id) => !old(state).store@.contains_key(id@) && e == DlqError::NotFound,
                None => e == DlqError::NothingSpecified,
            },
            Ok(response) => {
                let targets = if body.replay_all {
                    pending_of(old(state).store.contents())
                } else {
                    seq![old(state).store@[body.id->0@]]
                };
                &&& body.replay_all || body.id is Some && old(state).store@.contains_key(
                    body.id->0@,
                )
                &&& response.attempted == targets.len()
                &&& response.results@.len() == targets.len()
                &&& response.succeeded == successes(response.results@)
                &&& response.failed == targets.len() - successes(response.results@)
                &&& forall|i: int|
                    0 <= i < targets.len() ==> result_of(
                        send,
                        targets[i],
                        #[trigger] response.results@[i],
                    )
                &&& final(state).store@ == marked_all(old(state).store@, response.results@, now)
            },
        },
{
    let mut run = match begin_replay(state, body) {
        Ok(run) => run,
        Err(e) => {
            return Err(e);
        },
    };
    let ghost targets = run.targets@;
    let n: usize = run.targets.len();
    let mut i: usize = 0;
    while i < n
        invariant
            run.wf(),
            run.targets@ == targets,
            n == targets.len(),
            run.results@.len() == i,
            i <= n,
            forall|e: DlqEntry| #[trigger] send.requires((&e,)),
            forall|j: int|
                0 <= j < i ==> result_of(send, targets[j], #[trigger] run.results@[j]),
            state.store@ == marked_all(old(state).store@, run.results@, now),
        decreases n - i,
    {
        let reply = send(&run.targets[i]);
        let ghost before = run.results@;
        run.record(state, &reply, now);
        proof {
            assert(run.results@.drop_last() == before);
            assert forall|j: int| 0 <= j < i + 1 implies result_of(
                send,
                targets[j],
                #[trigger] run.results@[j],
            ) by {
                if j < i {
                    assert(run.results@[j] == before[j]);
                } else {
                    assert(run.results@[j] == run.results@.last());
                    assert(send.ensures((&targets[j],), reply));
                }
            }
        }
        i += 1;
    }
    Ok(run.finish())
}

/// Every entry that is attempted either succeeds or fails.
pub proof fn law_replay_counts_add_up(run: ReplayRun)
    requires
        run.wf(),
    ensures
        run.succeeded + run.failed == run.results@.len(),
{
}

/// An entry that is replayed is no longer pending, one more attempt is counted
/// and nothing else of the queue changes.
pub proof fn law_replay_touches_one_entry(
    m: Map<Seq<char>, DlqEntry>,
    id: Seq<char>,
    other: Seq<char>,
    success: bool,
    now: Timestamp,
)
    requires
        m.contains_key(id),
    ensures
        marked_in(m, id, status_after(success), now)[id].status != DlqStatus::Pending,
        marked_in(m, id, status_after(success), now)[id].payload == m[id].payload,
        m[id].attempts < u32::MAX ==> marked_in(m, id, status_after(success), now)[id].attempts
            == m[id].attempts + 1,
        marked_in(m, id, status_after(success), now).contains_key(other) == m.contains_key(other),
        other != id ==> marked_in(m, id, status_after(success), now)[other] == m[other],
{
}

/// A listed entry meets what is asked for: its status is the one that is named,
/// where a known status is named, and its source holds the text that is given.
pub proof fn law_listing_meets_the_query(query: ListDlqQuery, e: DlqEntry)
    ensures
        query.status is Some && query.status->0@ == "pending"@ && e.status != DlqStatus::Pending
            ==> !wanted(query, e),
        query.status is Some && query.status->0@ == "replayed"@ && e.status != DlqStatus::Replayed
            ==> !wanted(query, e),
        query.status is Some && query.status->0@ == "replay_failed"@ && e.status
            != DlqStatus::ReplayFailed ==> !wanted(query, e),
        query.source is Some && !text::occurs(e.source@, query.source->0@) ==> !wanted(query, e),
        (query.status is None || query.status->0@ == e.status.spec_name()) && (query.source is None
            || text::occurs(e.source@, query.source->0@)) ==> wanted(query, e),
        query.status is Some && query.status->0@ != "pending"@ && query.status->0@ != "replayed"@
            && query.status->0@ != "replay_failed"@ && query.source is None ==> wanted(query, e),
{
    reveal_strlit("pending");
    reveal_strlit("replayed");
    reveal_strlit("replay_failed");
    assert("pending"@.len() == 7 && "replayed"@.len() == 8 && "replay_failed"@.len() == 13);
}

/// A list shows the entries that are wanted and no others, the latest first, and no
/// more than the limit; without a limit it shows all of them.
pub proof fn law_list_is_latest_first(
    query: ListDlqQuery,
    all: Seq<DlqEntry>,
    r: Seq<DlqEntry>,
    i: int,
    j: int,
)
    requires
        lists(query, all, r),
        all.len() <= usize::MAX,
    ensures
        0 <= i < r.len() ==> all.contains(r[i]) && wanted(query, r[i]),
        0 <= i < j < r.len() ==> !r[i].created_at.before(r[j].created_at),
        query.limit is Some ==> r.len() <= query.limit->0,
        query.limit is None ==> r.len() == all.filter(|e: DlqEntry| wanted(query, e)).len(),
        query.limit is Some && query.limit->0 <= all.filter(|e: DlqEntry| wanted(query, e)).len()
            ==> r.len() == query.limit->0,
{
    let pred = |e: DlqEntry| wanted(query, e);
    let hits = all.filter(pred);
    let keys = creation_keys(hits);
    let perm = choose|perm: Seq<usize>| #[trigger]
        order::stable_order(keys, true, perm) && r == picked(hits, perm).take(
            within(query.limit, hits.len()),
        );
    assert(perm.len() == hits.len());
    if 0 <= i < r.len() {
        assert(perm[i] < keys.len());
        assert(r[i] == hits[perm[i] as int]);
        assert(hits.contains(r[i]));
        crate::sequences::lemma_filter_counts(all, pred, r[i]);
    }
    if 0 <= i < j < r.len() {
        order::law_stable_order_sorts(keys, true, perm, i, j);
        assert(perm[j] < keys.len());
        assert(r[j] == hits[perm[j] as int]);
        crate::clock::law_moments_are_ordered(r[i].created_at, r[j].created_at);
    }
}

/// A replay succeeds exactly if the entry has a target and the target answered
/// with a status from 200 to 299; the words on it say which of these failed.
pub proof fn law_replay_needs_an_accepting_target(
    e: DlqEntry,
    status: u16,
    text: String,
    why: String,
)
    ensures
        e.target is None ==> !succeeds(e, Reply::Answered { status, text }),
        !succeeds(e, Reply::Lost(why)),
        e.target is Some ==> (succeeds(e, Reply::Answered { status, text }) <==> 200 <= status
            <= 299),
        e.target is None ==> verdict(e, Reply::Lost(why))
            == "no replay target recorded for this entry"@,
        e.target is Some ==> verdict(e, Reply::Lost(why)) == "replay request error: "@ + why@,
        e.target is Some && 200 <= status <= 299 ==> verdict(e, Reply::Answered { status, text })
            == "replay accepted with status "@ + text@,
        e.target is Some && !(200 <= status <= 299) ==> verdict(
            e,
            Reply::Answered { status, text },
        ) == "replay rejected with status "@ + text@,
{
}

/// A replay is remembered: the entry counts as replayed or as failed, at the given
/// moment, with one attempt more, and keeps everything else.
pub proof fn law_replay_is_remembered(e: DlqEntry, now: Timestamp)
    ensures
        status_after(true) == DlqStatus::Replayed,
        status_after(false) == DlqStatus::ReplayFailed,
        marked(e, status_after(true), now).status == DlqStatus::Replayed,
        marked(e, status_after(true), now).last_attempt_at == now,
        marked(e, status_after(true), now).created_at == e.created_at,
        marked(e, status_after(true), now).id == e.id,
        marked(e, status_after(true), now).target == e.target,
        marked(e, status_after(true), now).error == e.error,
        e.attempts < u32::MAX ==> marked(e, status_after(false), now).attempts == e.attempts + 1,
{
}

/// All pending entries and no others are replayed when everything is.
pub proof fn law_only_pending_entries_are_replayed(all: Seq<DlqEntry>, e: DlqEntry)
    ensures
        pending_of(all).contains(e) <==> all.contains(e) && e.status == DlqStatus::Pending,
{
    crate::sequences::lemma_filter_counts(all, |x: DlqEntry| x.status == DlqStatus::Pending, e);
}

/// Successes are counted one by one.
pub proof fn law_replay_successes_are_counted(results: Seq<ReplayResult>, r: ReplayResult)
    ensures
        successes(Seq::<ReplayResult>::empty()) == 0,
        successes(results.push(r)) == successes(results) + if r.success {
            1nat
        } else {
            0
        },
{
    assert(results.push(r).drop_last() =~= results);
}

/// What is captured is pending, with the error and the attempts that led there.
pub proof fn law_captured_message_is_pending(
    e: DlqEntry,
    id: Seq<char>,
    source: Seq<char>,
    target: Option<String>,
    payload: Json,
    error: Seq<char>,
    attempts: u32,
    now: Timestamp,
)
    requires
        captures(e, id, source, target, payload, error, attempts, now),
    ensures
        e.status == DlqStatus::Pending,
        e.id@ == id && e.source@ == source && e.target == target && e.payload == payload,
        e.error@ == error && e.attempts == attempts,
        e.created_at == now && e.last_attempt_at == now,
{
}

/// A replayed entry is reported with its own name, and marked in the store as the
/// report says.
pub proof fn law_report_and_store_agree<F: Fn(&DlqEntry) -> Reply>(
    send: F,
    e: DlqEntry,
    result: ReplayResult,
    m: Map<Seq<char>, DlqEntry>,
    now: Timestamp,
)
    requires
        result_of(send, e, result),
        m.contains_key(e.id@),
    ensures
        result.id@ == e.id@,
        e.target is None ==> !result.success,
        marked_all(m, Seq::<ReplayResult>::empty(), now) == m,
        marked_all(m, seq![result], now).contains_key(e.id@),
        result.success ==> marked_all(m, seq![result], now)[e.id@].status == DlqStatus::Replayed,
        !result.success ==> marked_all(m, seq![result], now)[e.id@].status
            == DlqStatus::ReplayFailed,
        marked_all(m, seq![result], now)[e.id@].last_attempt_at == now,
{
    reveal_with_fuel(marked_all, 2);
    assert(seq![result].drop_last() =~= Seq::<ReplayResult>::empty());
    assert(seq![result].last() == result);
}

/// Results are marked one after the other.
pub proof fn law_results_are_marked_in_order(
    m: Map<Seq<char>, DlqEntry>,
    results: Seq<ReplayResult>,
    r: ReplayResult,
    now: Timestamp,
)
    ensures
        marked_all(m, results.push(r), now) == marked_in(
            marked_all(m, results, now),
            r.id@,
            status_after(r.success),
            now,
        ),
{
    assert(results.push(r).drop_last() =~= results);
}

/// The names of the statuses.
pub proof fn law_statuses_by_name()
    ensures
        DlqStatus::Pending.spec_name() == "pending"@,
        DlqStatus::Replayed.spec_name() == "replayed"@,
        DlqStatus::ReplayFailed.spec_name() == "replay_failed"@,
{
}

} // verus!
