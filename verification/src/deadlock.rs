//! Database deadlock detection and prevention utilities.
//!
//! - `DeadlockDetector` tracks which resources are currently locked and by
//!   whom, performs cycle detection, and records statistics.
//! - `RetryConfig` configures exponential-backoff retry behaviour.
//! - `LOCK_ORDER` is the canonical ordering of shared resources that all
//!   callers should follow to prevent lock-order inversion deadlocks.

use crate::cache_metrics;
use crate::clock::{Clock, Instant};
use crate::graph;
use crate::graph::{name_listed, reachable, Link};
use crate::strmap::StrMap;
use crate::text;
use crate::text::{copy_list, decimal_text, join_list, joined, str_eq};
use vstd::prelude::*;
use vstd::string::*;

verus! {

/// The canonical order in which shared resources must be acquired.
///
/// All code that needs to hold more than one lock simultaneously **must**
/// acquire those locks in the order they appear here. Acquiring them in a
/// different order risks a lock-order inversion deadlock.
pub const LOCK_ORDER: [&'static str; 4] = ["vaults", "subscriptions", "audit_logs", "tenants"];

/// Metadata about a resource that is currently held by a lock-holder.
#[derive(Debug)]
pub struct LockEntry {
    /// The resource name (e.g. `"vaults"`).
    pub resource: String,
    /// Identity of the current lock holder (e.g. a task or request ID).
    pub holder: String,
    /// When the lock was acquired.
    pub acquired_at: Instant,
    /// Identities waiting to acquire this resource.
    pub waiters: Vec<String>,
}

/// What is known of a held resource.
#[verifier::ext_equal]
pub struct LockModel {
    pub resource: Seq<char>,
    pub holder: Seq<char>,
    pub acquired_at: Instant,
    pub waiters: Seq<Seq<char>>,
}

impl View for LockEntry {
    type V = LockModel;

    open spec fn view(&self) -> LockModel {
        LockModel {
            resource: self.resource@,
            holder: self.holder@,
            acquired_at: self.acquired_at,
            waiters: text::texts(self.waiters@),
        }
    }
}

impl Clone for LockEntry {
    fn clone(&self) -> (r: Self)
        ensures
            r@ == self@,
    {
        LockEntry {
            resource: self.resource.clone(),
            holder: self.holder.clone(),
            acquired_at: self.acquired_at,
            waiters: copy_list(&self.waiters),
        }
    }
}

/// Errors that can occur during lock acquisition or query execution.
#[derive(Debug, PartialEq)]
pub enum DeadlockError {
    /// A deadlock cycle was detected among the named resources.
    Deadlock { resources: Vec<String> },
    /// The lock could not be acquired within the permitted timeout.
    Timeout { resource: String, waited_ms: u64 },
    /// The caller attempted to acquire locks in the wrong order.
    LockOrderViolation { expected: String, got: String },
}

/// What an error says.
pub enum ErrorModel {
    Deadlock { resources: Seq<Seq<char>> },
    Timeout { resource: Seq<char>, waited_ms: u64 },
    LockOrderViolation { expected: Seq<char>, got: Seq<char> },
}

impl View for DeadlockError {
    type V = ErrorModel;

    open spec fn view(&self) -> ErrorModel {
        match self {
            DeadlockError::Deadlock { resources } => ErrorModel::Deadlock {
                resources: text::texts(resources@),
            },
            DeadlockError::Timeout { resource, waited_ms } => ErrorModel::Timeout {
                resource: resource@,
                waited_ms: *waited_ms,
            },
            DeadlockError::LockOrderViolation { expected, got } => ErrorModel::LockOrderViolation {
                expected: expected@,
                got: got@,
            },
        }
    }
}

impl Clone for DeadlockError {
    fn clone(&self) -> (r: Self)
        ensures
            r@ == self@,
    {
        match self {
            DeadlockError::Deadlock { resources } => DeadlockError::Deadlock {
                resources: copy_list(resources),
            },
            DeadlockError::Timeout { resource, waited_ms } => DeadlockError::Timeout {
                resource: resource.clone(),
                waited_ms: *waited_ms,
            },
            DeadlockError::LockOrderViolation {
                expected,
                got,
            } => DeadlockError::LockOrderViolation {
                expected: expected.clone(),
                got: got.clone(),
            },
        }
    }
}

impl ErrorModel {
    /// The error in words.
    pub open spec fn message(self) -> Seq<char> {
        match self {
            ErrorModel::Deadlock { resources } => "deadlock detected among resources: "@
                + text::join(resources, ", "@),
            ErrorModel::Timeout { resource, waited_ms } => "timeout acquiring lock on '"@ + resource
                + "' after "@ + text::decimal(waited_ms as nat) + "ms"@,
            ErrorModel::LockOrderViolation {
                expected,
                got,
            } => "lock order violation: expected '"@ + expected + "' before '"@ + got + "'"@,
        }
    }
}

impl DeadlockError {
    /// The error in words.
    pub fn to_string(&self) -> (r: String)
        ensures
            r@ == self@.message(),
    {
        match self {
            DeadlockError::Deadlock { resources } => {
                let list = join_list(resources, ", ");
                joined("deadlock detected among resources: ", list.as_str())
            },
            DeadlockError::Timeout { resource, waited_ms } => {
                let waited = decimal_text(*waited_ms as u128);
                let mut r: String = "timeout acquiring lock on '".to_owned();
                r.append(resource.as_str());
                r.append("' after ");
                r.append(waited.as_str());
                r.append("ms");
                r
            },
            DeadlockError::LockOrderViolation { expected, got } => {
                let mut r: String = "lock order violation: expected '".to_owned();
                r.append(expected.as_str());
                r.append("' before '");
                r.append(got.as_str());
                r.append("'");
                r
            },
        }
    }
}

/// Configuration for the retry helpers.
#[derive(Debug, Clone, Copy, PartialEq, Eq, Structural)]
pub struct RetryConfig {
    /// Maximum number of retry attempts (not counting the first try).
    pub max_retries: u32,
    /// Base backoff in milliseconds; doubles on each subsequent retry.
    pub backoff_ms: u64,
    /// Overall timeout in milliseconds across all attempts.
    pub timeout_ms: u64,
}

impl Default for RetryConfig {
    fn default() -> (r: Self)
        ensures
            r == (RetryConfig { max_retries: 3, backoff_ms: 50, timeout_ms: 5_000 }),
    {
        RetryConfig { max_retries: 3, backoff_ms: 50, timeout_ms: 5_000 }
    }
}

impl RetryConfig {
    /// The overall timeout in nanoseconds.
    pub open spec fn timeout_nanos(self) -> int {
        self.timeout_ms * 1_000_000
    }

    /// The pause before retry `n` in milliseconds: twice the one before, up to
    /// the largest number.
    pub open spec fn backoff_at(self, n: nat) -> u64
        decreases n,
    {
        if n == 0 {
            self.backoff_ms
        } else {
            let before = self.backoff_at((n - 1) as nat);
            if 2 * before > u64::MAX {
                u64::MAX
            } else {
                (2 * before) as u64
            }
        }
    }
}

/// Point-in-time snapshot of deadlock-detector statistics.
#[derive(Debug, Clone, Copy, PartialEq, Eq, Structural)]
pub struct DeadlockStats {
    /// Total number of deadlock cycles detected since the detector was created.
    pub deadlocks_detected: u64,
    /// Total number of retries performed.
    pub retries_performed: u64,
    /// Number of resources currently held by any lock-holder.
    pub active_locks: usize,
}

/// Held resources by name.
pub type Locks = Map<Seq<char>, LockModel>;

/// Whether one party waits for another: it waits on a resource that the other
/// holds.
pub open spec fn waits_for(locks: Locks, a: Seq<char>, b: Seq<char>) -> bool {
    exists|r: Seq<char>| #[trigger]
        locks.contains_key(r) && locks[r].holder == b && locks[r].waiters.contains(a)
}

/// The wait-for graph.
pub open spec fn wait_graph(locks: Locks) -> spec_fn(Seq<char>, Seq<char>) -> bool {
    |a: Seq<char>, b: Seq<char>| waits_for(locks, a, b)
}

/// Whether acquiring `resource` on behalf of `holder` would close a cycle: its
/// current holder waits, directly or through others, for `holder`.
pub open spec fn closes_cycle(locks: Locks, resource: Seq<char>, holder: Seq<char>) -> bool {
    locks.contains_key(resource) && graph::reaches(
        wait_graph(locks),
        locks[resource].holder,
        holder,
    )
}

/// What a detector knows.
#[verifier::ext_equal]
pub struct DetectorModel {
    /// The held resources.
    pub locks: Locks,
    /// Deadlock cycles detected.
    pub deadlocks: u64,
    /// Retries performed.
    pub retries: u64,
}

impl DetectorModel {
    /// A detector that has seen nothing.
    pub open spec fn empty() -> DetectorModel {
        DetectorModel { locks: Map::empty(), deadlocks: 0, retries: 0 }
    }

    /// Whether `holder` holds `resource`.
    pub open spec fn holds(self, resource: Seq<char>, holder: Seq<char>) -> bool {
        self.locks.contains_key(resource) && self.locks[resource].holder == holder
    }

    /// The detector after a free resource was acquired at `now`.
    pub open spec fn acquired(self, resource: Seq<char>, holder: Seq<char>, now: Instant) -> Self {
        DetectorModel {
            locks: self.locks.insert(
                resource,
                LockModel { resource, holder, acquired_at: now, waiters: Seq::empty() },
            ),
            ..self
        }
    }

    /// The detector after `holder` began to wait for a held resource.
    pub open spec fn queued(self, resource: Seq<char>, holder: Seq<char>) -> Self {
        let lock = self.locks[resource];
        DetectorModel {
            locks: self.locks.insert(
                resource,
                LockModel { waiters: lock.waiters.push(holder), ..lock },
            ),
            ..self
        }
    }

    /// The detector after `holder` released `resource`.
    pub open spec fn released(self, resource: Seq<char>, holder: Seq<char>) -> Self {
        if self.holds(resource, holder) {
            DetectorModel { locks: self.locks.remove(resource), ..self }
        } else {
            self
        }
    }
}

/// What is known of the held resources of a map.
pub open spec fn models(map: Map<Seq<char>, LockEntry>) -> Locks {
    Map::new(|k: Seq<char>| map.contains_key(k), |k: Seq<char>| map[k]@)
}

/// The held resources, and how often operations on them were retried.
pub struct LockTable {
    active_locks: StrMap<LockEntry>,
    retry_count: u64,
    clock: Clock,
}

impl LockTable {
    /// What is known of the held resources.
    pub closed spec fn locks(self) -> Locks {
        models(self.active_locks@)
    }

    /// Retries performed.
    pub closed spec fn retries(self) -> u64 {
        self.retry_count
    }
}

/// Tracks active resource locks and provides deadlock detection helpers.
pub struct DeadlockDetector {
    /// The held resources.
    pub table: LockTable,
    /// Deadlock cycles detected since the detector was created.
    pub deadlock_count: u64,
}

impl View for DeadlockDetector {
    type V = DetectorModel;

    open spec fn view(&self) -> DetectorModel {
        DetectorModel {
            locks: self.table.locks(),
            deadlocks: self.deadlock_count,
            retries: self.table.retries(),
        }
    }
}

impl Default for DeadlockDetector {
    fn default() -> (r: Self)
        ensures
            r@ == DetectorModel::empty(),
    {
        Self::new()
    }
}

/// Whether `r` is what an attempt to acquire `resource` may return, and
/// `after` what it leaves.
pub open spec fn acquires(
    d: DetectorModel,
    after: DetectorModel,
    resource: Seq<char>,
    holder: Seq<char>,
    now: Instant,
    r: Result<(), DeadlockError>,
) -> bool {
    if d.holds(resource, holder) {
        r is Ok && after == d
    } else if !d.locks.contains_key(resource) {
        r is Ok && after == d.acquired(resource, holder, now)
    } else if closes_cycle(d.locks, resource, holder) {
        &&& r is Err && r->Err_0 is Deadlock
        &&& text::texts(r->Err_0->resources@).no_duplicates()
        &&& text::texts(r->Err_0->resources@).to_set() == d.locks.dom()
        &&& after == (DetectorModel {
            deadlocks: cache_metrics::wrapping_sum(d.deadlocks, 1),
            ..d
        })
    } else {
        &&& r is Err && r->Err_0@ == (ErrorModel::Timeout { resource, waited_ms: 0 })
        &&& after == d.queued(resource, holder)
    }
}

impl DeadlockDetector {
    /// Create a new detector with zeroed counters.
    pub fn new() -> (r: Self)
        ensures
            r@ == DetectorModel::empty(),
    {
        let r = DeadlockDetector {
            table: LockTable { active_locks: StrMap::new(), retry_count: 0, clock: Clock::new() },
            deadlock_count: 0,
        };
        assert(r@ =~= DetectorModel::empty());
        r
    }

    /// Attempt to acquire `resource` on behalf of `holder`.
    ///
    /// - If the resource is free, it is recorded as held by `holder` and
    ///   `Ok(())` is returned.
    /// - If `holder` already holds `resource`, `Ok(())` is returned
    ///   (re-entrant acquisition).
    /// - If it is held by a **different** holder and waiting for it would
    ///   create a cycle, a `DeadlockError::Deadlock` is returned and the
    ///   deadlock counter is incremented.
    /// - Otherwise `holder` is added to the waiter list.
    pub fn acquire_lock(&mut self, resource: &str, holder: &str) -> (r: Result<(), DeadlockError>)
        ensures
            exists|now: Instant| #[trigger]
                acquires(old(self)@, final(self)@, resource@, holder@, now, r),
    {
        let now = self.table.clock.now();
        self.acquire_lock_at(resource, holder, now)
    }

    /// Attempt to acquire `resource` on behalf of `holder` at `now`.
    pub fn acquire_lock_at(&mut self, resource: &str, holder: &str, now: Instant) -> (r: Result<
        (),
        DeadlockError,
    >)
        ensures
            acquires(old(self)@, final(self)@, resource@, holder@, now, r),
    {
        match self.table.active_locks.get(resource) {
            Some(entry) => {
                if str_eq(entry.holder.as_str(), holder) {
                    return Ok(());
                }
            },
            None => {
                let _old = self.table.active_locks.insert(
                    resource.to_owned(),
                    LockEntry {
                        resource: resource.to_owned(),
                        holder: holder.to_owned(),
                        acquired_at: now,
                        waiters: Vec::new(),
                    },
                );
                proof {
                    assert(self.table.active_locks@[resource@]@.waiters =~= Seq::<Seq<char>>::empty());
                    assert(self@ =~= old(self)@.acquired(resource@, holder@, now));
                }
                return Ok(());
            },
        }
        if self.detect_cycle(resource, holder) {
            self.deadlock_count = self.deadlock_count.wrapping_add(1);
            let resources = self.locked_resources();
            return Err(DeadlockError::Deadlock { resources });
        }
        let ghost before = self.table.active_locks@;
        match self.table.active_locks.get_mut(resource) {
            Some(entry) => entry.waiters.push(holder.to_owned()),
            None => {},
        }
        proof {
            assert(self.table.active_locks@[resource@]@.waiters =~= before[resource@]@.waiters.push(
                holder@,
            ));
            assert(self@ =~= old(self)@.queued(resource@, holder@));
        }
        Err(DeadlockError::Timeout { resource: resource.to_owned(), waited_ms: 0 })
    }

    /// The held resources, each once.
    fn locked_resources(&self) -> (r: Vec<String>)
        ensures
            text::texts(r@).no_duplicates(),
            text::texts(r@).to_set() == self@.locks.dom(),
    {
        let n: usize = self.table.active_locks.len();
        let ghost order = self.table.active_locks.order();
        let mut r: Vec<String> = Vec::new();
        let mut i: usize = 0;
        while i < n
            invariant
                i <= n,
                n == order.len(),
                order == self.table.active_locks.order(),
                r@.len() == i,
                forall|j: int| 0 <= j < i ==> (#[trigger] r@[j])@ == order[j],
            decreases n - i,
        {
            r.push(self.table.active_locks.key_at(i).clone());
            i += 1;
        }
        assert(text::texts(r@) =~= order);
        assert(self@.locks.dom() =~= self.table.active_locks@.dom());
        r
    }

    /// Release the lock on `resource` held by `holder`.
    ///
    /// If `holder` is not the current holder the call is silently ignored.
    pub fn release_lock(&mut self, resource: &str, holder: &str)
        ensures
            final(self)@ == old(self)@.released(resource@, holder@),
            old(self)@.holds(resource@, holder@) ==> final(self)@.locks.len() == old(
                self,
            )@.locks.len() - 1,
    {
        proof {
            law_held_resources_are_finite(*self);
        }
        let mine: bool = match self.table.active_locks.get(resource) {
            Some(entry) => str_eq(entry.holder.as_str(), holder),
            None => false,
        };
        if mine {
            let _old = self.table.active_locks.remove(resource);
        }
        assert(self@ =~= old(self)@.released(resource@, holder@));
    }

    /// Return `true` if acquiring `resource` on behalf of `holder` would create
    /// a wait-for cycle: the current holder of `resource` is waiting, directly
    /// or transitively, on a resource that `holder` holds.
    pub fn detect_cycle(&self, resource: &str, holder: &str) -> (r: bool)
        ensures
            r == closes_cycle(self@.locks, resource@, holder@),
    {
        match self.table.active_locks.get(resource) {
            Some(entry) => {
                let links = self.wait_links();
                let reached = reachable(&links, entry.holder.as_str());
                proof {
                    let a = graph::relation(links@);
                    let b = wait_graph(self@.locks);
                    assert forall|x: Seq<char>, y: Seq<char>| #[trigger] a(x, y) == b(x, y) by {
                        assert(graph::linked(links@, x, y) == waits_for(self@.locks, x, y));
                    }
                    graph::lemma_reaches_agree(a, b, entry.holder@, holder@);
                    assert(text::texts(reached@).contains(holder@) == graph::reaches(
                        a,
                        entry.holder@,
                        holder@,
                    ));
                }
                name_listed(&reached, holder)
            },
            None => false,
        }
    }

    /// Adds an edge from each waiter of a resource to its holder.
    fn add_waiters(entry: &LockEntry, links: &mut Vec<Link>)
        ensures
            forall|a: Seq<char>, b: Seq<char>| #[trigger]
                graph::linked(final(links)@, a, b) <==> graph::linked(old(links)@, a, b) || (b
                    == entry@.holder && entry@.waiters.contains(a)),
    {
        let ghost start = links@;
        let ghost names = entry@.waiters;
        let mut i: usize = 0;
        while i < entry.waiters.len()
            invariant
                i <= entry.waiters@.len(),
                start == old(links)@,
                names == text::texts(entry.waiters@),
                forall|a: Seq<char>, b: Seq<char>| #[trigger]
                    graph::linked(links@, a, b) <==> graph::linked(start, a, b) || (b
                        == entry.holder@ && names.take(i as int).contains(a)),
            decreases entry.waiters@.len() - i,
        {
            let ghost before = links@;
            links.push(Link { from: entry.waiters[i].clone(), to: entry.holder.clone() });
            proof {
                let done = names.take(i as int);
                let more = names.take(i + 1);
                let w = names[i as int];
                assert(more =~= done.push(w));
                assert forall|a: Seq<char>, b: Seq<char>| #[trigger] graph::linked(links@, a, b)
                    <==> graph::linked(start, a, b) || (b == entry.holder@ && more.contains(a)) by {
                    assert(graph::linked(before, a, b) <==> graph::linked(start, a, b) || (b
                        == entry.holder@ && done.contains(a)));
                    if graph::linked(before, a, b) {
                        let k = choose|k: int|
                            0 <= k < before.len() && (#[trigger] before[k]).from@ == a
                                && before[k].to@ == b;
                        assert(links@[k] == before[k]);
                    }
                    if graph::linked(links@, a, b) {
                        let k = choose|k: int|
                            0 <= k < links@.len() && (#[trigger] links@[k]).from@ == a
                                && links@[k].to@ == b;
                        if k < before.len() {
                            assert(before[k] == links@[k]);
                        } else {
                            assert(more[i as int] == a);
                        }
                    }
                    if more.contains(a) {
                        let k = more.index_of(a);
                        if k < i {
                            assert(done[k] == a);
                        } else if b == entry.holder@ {
                            assert(links@[before.len() as int].from@ == a);
                        }
                    }
                    if done.contains(a) {
                        let k = done.index_of(a);
                        assert(more[k] == a);
                    }
                }
            }
            i += 1;
        }
        assert(names.take(i as int) =~= names);
    }

    /// The edges of the wait-for graph.
    fn wait_links(&self) -> (r: Vec<Link>)
        ensures
            forall|a: Seq<char>, b: Seq<char>| #[trigger]
                graph::linked(r@, a, b) == waits_for(self@.locks, a, b),
    {
        let n: usize = self.table.active_locks.len();
        let ghost order = self.table.active_locks.order();
        let ghost locks = self@.locks;
        let mut links: Vec<Link> = Vec::new();
        let mut i: usize = 0;
        while i < n
            invariant
                i <= n,
                n == order.len(),
                order == self.table.active_locks.order(),
                locks == self@.locks,
                forall|k: Seq<char>| #[trigger]
                    order.contains(k) <==> self.table.active_locks@.contains_key(k),
                forall|a: Seq<char>, b: Seq<char>| #[trigger]
                    graph::linked(links@, a, b) <==> waits_among(locks, order, i as int, a, b),
            decreases n - i,
        {
            let ghost before = links@;
            assert(order.contains(order[i as int]));
            Self::add_waiters(self.table.active_locks.value_at(i), &mut links);
            proof {
                let r = order[i as int];
                assert(locks[r] == self.table.active_locks@[r]@);
                assert forall|a: Seq<char>, b: Seq<char>| #[trigger] graph::linked(links@, a, b)
                    <==> waits_among(locks, order, i + 1, a, b) by {
                    assert(graph::linked(before, a, b) <==> waits_among(
                        locks,
                        order,
                        i as int,
                        a,
                        b,
                    ));
                    if waits_among(locks, order, i + 1, a, b) {
                        let k = choose|k: int|
                            0 <= k < i + 1 && locks[#[trigger] order[k]].holder == b
                                && locks[order[k]].waiters.contains(a);
                        if k < i {
                            assert(waits_among(locks, order, i as int, a, b));
                        }
                    }
                }
            }
            i += 1;
        }
        proof {
            assert forall|a: Seq<char>, b: Seq<char>| #[trigger] graph::linked(links@, a, b)
                == waits_for(locks, a, b) by {
                if waits_for(locks, a, b) {
                    let r = choose|r: Seq<char>| #[trigger]
                        locks.contains_key(r) && locks[r].holder == b && locks[r].waiters.contains(
                            a,
                        );
                    assert(order.contains(r));
                    let k = order.index_of(r);
                    assert(order[k] == r);
                    assert(waits_among(locks, order, n as int, a, b));
                }
                if waits_among(locks, order, n as int, a, b) {
                    let k = choose|k: int|
                        0 <= k < n && locks[#[trigger] order[k]].holder == b
                            && locks[order[k]].waiters.contains(a);
                    assert(order.contains(order[k]));
                    assert(locks.contains_key(order[k]));
                }
            }
        }
        links
    }

    /// Execute `f`, retrying on `DeadlockError::Deadlock` with exponential
    /// backoff, which `pause` waits out. `elapsed` reads how many nanoseconds
    /// have passed; once that reaches the overall timeout, nothing more is
    /// tried. On any other error, or after `max_retries` retries, the error is
    /// returned immediately. Returns the number of retries beside the outcome.
    pub fn retry_timed<F, T, P, C>(config: &RetryConfig, f: F, pause: P, elapsed: C) -> (r: (
        Result<T, DeadlockError>,
        u32,
    )) where F: Fn() -> Result<T, DeadlockError>, P: Fn(u64), C: Fn() -> u128
        requires
            call_requires(f, ()),
            call_requires(elapsed, ()),
            forall|ms: u64| #[trigger] call_requires(pause, (ms,)),
        ensures
            exists|readings: Seq<u128>|
                {
                    &&& retried(*config, f, pause, r.0, readings)
                    &&& readings.len() == r.1 + 1
                    &&& #[trigger] read_from(elapsed, readings)
                },
    {
        let timeout: u128 = config.timeout_ms as u128 * 1_000_000;
        let mut backoff: u64 = config.backoff_ms;
        let mut attempt: u32 = 0;
        let ghost mut fails: Seq<DeadlockError> = Seq::empty();
        let ghost mut readings: Seq<u128> = Seq::empty();
        loop
            invariant
                attempt <= config.max_retries,
                fails.len() == attempt,
                readings.len() == attempt,
                timeout == config.timeout_nanos(),
                backoff == config.backoff_at(attempt as nat),
                call_requires(f, ()),
                call_requires(elapsed, ()),
                forall|ms: u64| #[trigger] call_requires(pause, (ms,)),
                deadlocked_times(*config, f, pause, fails),
                forall|i: int|
                    0 <= i < readings.len() ==> (#[trigger] readings[i]) < timeout && call_ensures(
                        elapsed,
                        (),
                        readings[i],
                    ),
            decreases config.max_retries - attempt,
        {
            let now: u128 = elapsed();
            let ghost all = readings.push(now);
            assert(read_from(elapsed, all)) by {
                assert forall|i: int| 0 <= i < all.len() implies call_ensures(
                    elapsed,
                    (),
                    #[trigger] all[i],
                ) by {
                    if i < readings.len() {
                        assert(all[i] == readings[i]);
                    }
                }
            }
            if now >= timeout {
                let waited: u128 = (now / 1_000_000) % 0x1_0000_0000_0000_0000;
                let e = DeadlockError::Timeout {
                    resource: "unknown".to_owned(),
                    waited_ms: waited as u64,
                };
                let r: Result<T, DeadlockError> = Err(e);
                assert(deadlocked_times(*config, f, pause, fails));
                assert(retried(*config, f, pause, r, all));
                return (r, attempt);
            }
            let outcome = f();
            let again: bool = match &outcome {
                Err(DeadlockError::Deadlock { .. }) => attempt < config.max_retries,
                _ => false,
            };
            if !again {
                assert(deadlocked_times(*config, f, pause, fails));
                assert(retried(*config, f, pause, outcome, all));
                return (outcome, attempt);
            }
            pause(backoff);
            proof {
                let e = outcome->Err_0;
                let more = fails.push(e);
                assert forall|i: int| 0 <= i < more.len() implies (#[trigger] more[i]) is Deadlock
                    && call_ensures(f, (), Err(more[i])) && call_ensures(
                    pause,
                    (config.backoff_at(i as nat),),
                    (),
                ) by {
                    if i < fails.len() {
                        assert(more[i] == fails[i]);
                    }
                }
                fails = more;
                readings = all;
            }
            backoff = if backoff > u64::MAX / 2 {
                u64::MAX
            } else {
                backoff * 2
            };
            attempt += 1;
        }
    }

    /// Execute `f`, retrying on `DeadlockError::Deadlock` with exponential
    /// backoff, which `pause` waits out.
    ///
    /// On `Timeout` or `LockOrderViolation` errors, or after `max_retries`
    /// attempts, the error is returned immediately.
    pub fn with_retry<F, T, P>(config: &RetryConfig, f: F, pause: P) -> (r: Result<
        T,
        DeadlockError,
    >) where F: Fn() -> Result<T, DeadlockError>, P: Fn(u64)
        requires
            call_requires(f, ()),
            forall|ms: u64| #[trigger] call_requires(pause, (ms,)),
        ensures
            exists|readings: Seq<u128>| #[trigger] retried(*config, f, pause, r, readings),
    {
        let clock = Clock::new();
        let (r, _retries) = Self::retry_timed(config, f, pause, || clock.now().nanos);
        r
    }

    /// The same on behalf of this detector, whose retry counter is incremented
    /// on each retry.
    pub fn with_counted_retry<F, T, P>(&mut self, config: &RetryConfig, f: F, pause: P) -> (r:
        Result<T, DeadlockError>) where F: Fn() -> Result<T, DeadlockError>, P: Fn(u64)
        requires
            call_requires(f, ()),
            forall|ms: u64| #[trigger] call_requires(pause, (ms,)),
        ensures
            exists|readings: Seq<u128>|
                {
                    &&& #[trigger] retried(*config, f, pause, r, readings)
                    &&& final(self)@ == (DetectorModel {
                        retries: cache_metrics::wrapping_sum(
                            old(self)@.retries,
                            (readings.len() - 1) as u64,
                        ),
                        ..old(self)@
                    })
                },
    {
        let clock = Clock::new();
        let (r, retries) = Self::retry_timed(config, f, pause, || clock.now().nanos);
        self.table.retry_count = self.table.retry_count.wrapping_add(retries as u64);
        r
    }

    /// Execute `f` and return its result, or `DeadlockError::Timeout` if the
    /// call takes longer than `timeout_ms` milliseconds.
    ///
    /// The closure is executed on the calling thread; this is a wall-clock
    /// measurement rather than an OS-level timeout.
    pub fn enforce_query_timeout<F, T>(timeout_ms: u64, f: F) -> (r: Result<T, DeadlockError>)
        where F: FnOnce() -> T
        requires
            call_requires(f, ()),
        ensures
            exists|result: T, elapsed_ms: u64|
                call_ensures(f, (), result) && #[trigger] in_time(
                    timeout_ms,
                    elapsed_ms,
                    result,
                    r,
                ),
    {
        let clock = Clock::new();
        let result = f();
        let ghost g = result;
        let millis: u128 = (clock.now().nanos / 1_000_000) % 0x1_0000_0000_0000_0000;
        let r = Self::judge_query(timeout_ms, millis as u64, result);
        assert(in_time(timeout_ms, millis as u64, g, r));
        r
    }

    /// What a query that took `elapsed_ms` milliseconds comes to.
    pub fn judge_query<T>(timeout_ms: u64, elapsed_ms: u64, result: T) -> (r: Result<
        T,
        DeadlockError,
    >)
        ensures
            in_time(timeout_ms, elapsed_ms, result, r),
    {
        if elapsed_ms > timeout_ms {
            return Err(
                DeadlockError::Timeout { resource: "query".to_owned(), waited_ms: elapsed_ms },
            );
        }
        Ok(result)
    }

    /// Return a point-in-time snapshot of detector statistics.
    pub fn stats(&self) -> (r: DeadlockStats)
        ensures
            r.deadlocks_detected == self@.deadlocks,
            r.retries_performed == self@.retries,
            r.active_locks == self@.locks.len(),
            self@.locks.dom().finite(),
    {
        let n: usize = self.table.active_locks.len();
        assert(self@.locks.dom() =~= self.table.active_locks@.dom());
        DeadlockStats {
            deadlocks_detected: self.deadlock_count,
            retries_performed: self.table.retry_count,
            active_locks: n,
        }
    }
}

/// Whether one party waits for another on one of the first `n` resources.
spec fn waits_among(
    locks: Locks,
    order: Seq<Seq<char>>,
    n: int,
    a: Seq<char>,
    b: Seq<char>,
) -> bool {
    exists|k: int|
        0 <= k < n && locks[#[trigger] order[k]].holder == b && locks[order[k]].waiters.contains(a)
}

/// Whether `r` is what a query that took `elapsed_ms` comes to: its result, or
/// a timeout when that exceeds `timeout_ms`.
pub open spec fn in_time<T>(
    timeout_ms: u64,
    elapsed_ms: u64,
    result: T,
    r: Result<T, DeadlockError>,
) -> bool {
    if elapsed_ms > timeout_ms {
        r is Err && r->Err_0@ == (ErrorModel::Timeout {
            resource: "query"@,
            waited_ms: elapsed_ms,
        })
    } else {
        r == Ok::<T, DeadlockError>(result)
    }
}

/// Whether `f` may have failed with these deadlocks in turn, with the pause of
/// the configuration after each.
pub open spec fn deadlocked_times<
    F: Fn() -> Result<T, DeadlockError>,
    T,
    P: Fn(u64),
>(config: RetryConfig, f: F, pause: P, fails: Seq<DeadlockError>) -> bool {
    forall|i: int|
        0 <= i < fails.len() ==> (#[trigger] fails[i]) is Deadlock && call_ensures(
            f,
            (),
            Err(fails[i]),
        ) && call_ensures(pause, (config.backoff_at(i as nat),), ())
}

/// Whether a clock may have read as given.
pub open spec fn read_from<C: Fn() -> u128>(clock: C, readings: Seq<u128>) -> bool {
    forall|i: int| 0 <= i < readings.len() ==> call_ensures(clock, (), #[trigger] readings[i])
}

/// Whether running `f` may end in `r` where the clock read as given before each
/// attempt: until the last reading there was time, and `f` deadlocked each time.
/// If the last reading reaches the timeout, that is what comes back, and
/// otherwise the last call gave `r`, which is a deadlock only when no retry was
/// left.
pub open spec fn retried<F: Fn() -> Result<T, DeadlockError>, T, P: Fn(u64)>(
    config: RetryConfig,
    f: F,
    pause: P,
    r: Result<T, DeadlockError>,
    readings: Seq<u128>,
) -> bool {
    &&& 0 < readings.len() <= config.max_retries + 1
    &&& forall|i: int|
        0 <= i < readings.len() - 1 ==> (#[trigger] readings[i]) < config.timeout_nanos()
    &&& exists|fails: Seq<DeadlockError>|
        {
            &&& fails.len() == readings.len() - 1
            &&& #[trigger] deadlocked_times(config, f, pause, fails)
        }
    &&& if readings.last() >= config.timeout_nanos() {
        r is Err && r->Err_0@ == (ErrorModel::Timeout {
            resource: "unknown"@,
            waited_ms: ((readings.last() / 1_000_000) % 0x1_0000_0000_0000_0000) as u64,
        })
    } else {
        &&& call_ensures(f, (), r)
        &&& r is Err && r->Err_0 is Deadlock ==> readings.len() == config.max_retries + 1
    }
}

/// A resource that was acquired is held, is not held by anyone else, and after
/// its release by the holder it is free; a release by anyone else changes
/// nothing.
pub proof fn law_acquire_then_release(
    d: DetectorModel,
    resource: Seq<char>,
    holder: Seq<char>,
    other: Seq<char>,
    now: Instant,
)
    requires
        !d.locks.contains_key(resource),
    ensures
        d.acquired(resource, holder, now).holds(resource, holder),
        other != holder ==> !d.acquired(resource, holder, now).holds(resource, other),
        other != holder ==> d.acquired(resource, holder, now).released(resource, other)
            == d.acquired(resource, holder, now),
        d.acquired(resource, holder, now).released(resource, holder) == d,
{
    assert(d.acquired(resource, holder, now).released(resource, holder).locks =~= d.locks);
}

/// The held resources of a detector are finitely many.
pub proof fn law_held_resources_are_finite(d: DeadlockDetector)
    ensures
        d@.locks.dom().finite(),
{
    d.table.active_locks.lemma_finite();
    assert(d@.locks.dom() =~= d.table.active_locks@.dom());
}

/// A release by the holder frees the resource: one lock fewer is active, and the
/// next attempt on it succeeds, whoever makes it. A release by anyone else
/// changes nothing. Either way the locks on other resources and both counters
/// stay as they were.
pub proof fn law_release_frees_one(
    d: DeadlockDetector,
    resource: Seq<char>,
    holder: Seq<char>,
    other: Seq<char>,
    after: DetectorModel,
    next: Seq<char>,
    now: Instant,
    r: Result<(), DeadlockError>,
)
    ensures
        d@.holds(resource, holder) ==> !d@.released(resource, holder).locks.contains_key(resource),
        d@.holds(resource, holder) ==> d@.released(resource, holder).locks.len() == d@.locks.len()
            - 1,
        d@.holds(resource, holder) && acquires(
            d@.released(resource, holder),
            after,
            resource,
            next,
            now,
            r,
        ) ==> r is Ok && after.holds(resource, next),
        !d@.holds(resource, holder) ==> d@.released(resource, holder) == d@,
        other != resource ==> d@.released(resource, holder).locks.contains_key(other)
            == d@.locks.contains_key(other) && d@.released(resource, holder).locks[other]
            == d@.locks[other],
        d@.released(resource, holder).deadlocks == d@.deadlocks,
        d@.released(resource, holder).retries == d@.retries,
{
    law_held_resources_are_finite(d);
}

/// When two parties each hold a resource and one already waits for the other,
/// the other's attempt on the first one's resource closes a cycle.
pub proof fn law_mutual_waiting_is_a_deadlock(
    locks: Locks,
    mine: Seq<char>,
    theirs: Seq<char>,
)
    requires
        locks.contains_key(mine),
        locks.contains_key(theirs),
        locks[mine].waiters.contains(locks[theirs].holder),
    ensures
        closes_cycle(locks, theirs, locks[mine].holder),
{
    let rel = wait_graph(locks);
    assert(waits_for(locks, locks[theirs].holder, locks[mine].holder));
    graph::lemma_step_reaches(rel, locks[theirs].holder, locks[mine].holder);
}

/// A chain of waiting parties is followed to its end: if waiting on one
/// resource closes a cycle, it does so too on every resource whose holder
/// waits for the first one's holder.
pub proof fn law_cycles_are_found_through_chains(
    locks: Locks,
    near: Seq<char>,
    far: Seq<char>,
    holder: Seq<char>,
)
    requires
        closes_cycle(locks, near, holder),
        locks.contains_key(far),
        waits_for(locks, locks[far].holder, locks[near].holder),
    ensures
        closes_cycle(locks, far, holder),
{
    let rel = wait_graph(locks);
    graph::lemma_step_reaches(rel, locks[far].holder, locks[near].holder);
    graph::law_reaches_is_transitive(rel, locks[far].holder, locks[near].holder, holder);
}

/// Pauses never get shorter.
pub proof fn law_backoff_grows(config: RetryConfig, n: nat)
    ensures
        config.backoff_at(n + 1) >= config.backoff_at(n),
        config.backoff_at(0) == config.backoff_ms,
{
}

/// A free resource is granted; one that the holder has already stays theirs; for
/// one that another has, the request waits behind those that wait, unless that would
/// close a circle of waiting, which is refused and counted.
pub proof fn law_request_is_granted_queued_or_refused(
    d: DetectorModel,
    after: DetectorModel,
    resource: Seq<char>,
    holder: Seq<char>,
    now: Instant,
    r: Result<(), DeadlockError>,
)
    requires
        acquires(d, after, resource, holder, now, r),
        d.deadlocks < u64::MAX,
    ensures
        !d.locks.contains_key(resource) ==> r is Ok && after.locks.contains_key(resource)
            && after.locks[resource].holder == holder && after.locks[resource].acquired_at == now
            && after.locks[resource].waiters.len() == 0 && after.deadlocks == d.deadlocks,
        d.locks.contains_key(resource) && d.locks[resource].holder == holder ==> r is Ok && after
            == d,
        d.locks.contains_key(resource) && d.locks[resource].holder != holder ==> r is Err
            && after.locks[resource].holder == d.locks[resource].holder,
        r is Err && r->Err_0 is Timeout ==> after.locks[resource].waiters
            == d.locks[resource].waiters.push(holder) && after.deadlocks == d.deadlocks,
        r is Err && r->Err_0 is Deadlock ==> after.locks == d.locks && after.deadlocks
            == d.deadlocks + 1,
        r is Err ==> (r->Err_0 is Deadlock <==> closes_cycle(d.locks, resource, holder)),
        after.retries == d.retries,
{
}

/// Where nobody waits for anything, nothing can be a deadlock.
pub proof fn law_no_waiting_no_deadlock(locks: Locks, resource: Seq<char>, holder: Seq<char>)
    requires
        forall|r: Seq<char>| #[trigger] locks.contains_key(r) ==> locks[r].waiters.len() == 0,
    ensures
        !closes_cycle(locks, resource, holder),
{
    if closes_cycle(locks, resource, holder) {
        let leads = wait_graph(locks);
        let p = choose|p: Seq<Seq<char>>| #[trigger]
            graph::is_path(leads, p) && p[0] == locks[resource].holder && p.last() == holder;
        assert(leads(p[0], p[1]));
        assert(waits_for(locks, p[0], p[1]));
    }
}

/// The pause before a retry doubles from one retry to the next, as long as the
/// number of milliseconds can be held.
pub proof fn law_backoff_doubles(config: RetryConfig, n: nat)
    ensures
        2 * config.backoff_at(n) <= u64::MAX ==> config.backoff_at(n + 1) == 2
            * config.backoff_at(n),
        2 * config.backoff_at(n) > u64::MAX ==> config.backoff_at(n + 1) == u64::MAX,
{
}

/// A query that took longer than it may is answered with a timeout that says how
/// long it took; any other with its result.
pub proof fn law_slow_query_times_out<T>(
    timeout_ms: u64,
    elapsed_ms: u64,
    result: T,
    r: Result<T, DeadlockError>,
)
    requires
        in_time(timeout_ms, elapsed_ms, result, r),
    ensures
        elapsed_ms <= timeout_ms ==> r is Ok && r->Ok_0 == result,
        elapsed_ms > timeout_ms ==> r is Err && r->Err_0 is Timeout && r->Err_0->waited_ms
            == elapsed_ms && r->Err_0->resource@ == "query"@,
{
}

/// An operation is tried at most once more than it may be retried, and again only
/// after a deadlock and within the time: a success or another error ends it at once.
pub proof fn law_only_deadlocks_are_retried<F: Fn() -> Result<T, DeadlockError>, T, P: Fn(u64)>(
    config: RetryConfig,
    f: F,
    pause: P,
    r: Result<T, DeadlockError>,
    readings: Seq<u128>,
)
    requires
        retried(config, f, pause, r, readings),
    ensures
        1 <= readings.len() <= config.max_retries + 1,
        forall|i: int|
            0 <= i < readings.len() - 1 ==> #[trigger] readings[i] < config.timeout_ms * 1_000_000,
        readings.last() >= config.timeout_ms * 1_000_000 ==> r is Err && r->Err_0 is Timeout,
        readings.last() < config.timeout_ms * 1_000_000 && readings.len() <= config.max_retries
            ==> !(r is Err && r->Err_0 is Deadlock),
        readings.last() < config.timeout_ms * 1_000_000 ==> call_ensures(f, (), r),
{
}

/// The words on errors of locking.
pub proof fn law_errors_are_put_into_words(
    resources: Seq<Seq<char>>,
    resource: Seq<char>,
    other: Seq<char>,
    ms: u64,
)
    ensures
        (ErrorModel::Deadlock { resources }).message() == "deadlock detected among resources: "@
            + text::join(resources, ", "@),
        (ErrorModel::Timeout { resource, waited_ms: ms }).message()
            == "timeout acquiring lock on '"@ + resource + "' after "@ + text::decimal(ms as nat)
            + "ms"@,
        (ErrorModel::LockOrderViolation { expected: resource, got: other }).message()
            == "lock order violation: expected '"@ + resource + "' before '"@ + other + "'"@,
{
}

} // verus!
