//! Cache fault recovery: failure detection, failover to the source of truth,
//! rebuild, and a bounded record of failures.

use crate::clock::{Clock, Instant};
use crate::ring;
use crate::ring::push_bounded;
use crate::strmap::StrMap;
use crate::text;
use crate::text::{joined, numbered};
use vstd::prelude::*;
use vstd::string::*;

verus! {

/// A single recorded cache failure event.
#[derive(Debug)]
pub struct CacheFailureEvent {
    /// Human-readable description of the failure.
    pub description: String,
    /// Monotonic timestamp when the failure was detected.
    pub occurred_at: Instant,
}

impl Clone for CacheFailureEvent {
    fn clone(&self) -> (r: Self)
        ensures
            r == *self,
    {
        CacheFailureEvent { description: self.description.clone(), occurred_at: self.occurred_at }
    }
}

/// What a failure event says.
pub struct FailureModel {
    /// Its description.
    pub description: Seq<char>,
    /// When it was recorded.
    pub occurred_at: Instant,
}

impl View for CacheFailureEvent {
    type V = FailureModel;

    open spec fn view(&self) -> FailureModel {
        FailureModel { description: self.description@, occurred_at: self.occurred_at }
    }
}

/// What a list of failure events says.
pub open spec fn failures(events: Seq<CacheFailureEvent>) -> Seq<FailureModel> {
    Seq::new(events.len(), |i: int| events[i]@)
}

/// The observed health of the cache backend.
#[derive(Debug, Clone, Copy, PartialEq, Eq, Structural)]
pub enum CacheHealth {
    /// Cache is operating normally.
    Healthy,
    /// One or more failures have been detected; reads fall back to source.
    Degraded,
}

/// What a failure tracker holds.
#[verifier::ext_equal]
pub struct TrackerModel {
    /// The recorded failures, oldest first.
    pub events: Seq<FailureModel>,
    /// How many are kept.
    pub capacity: usize,
}

impl TrackerModel {
    /// The tracker after a failure was recorded at `now`.
    pub open spec fn recorded(self, description: Seq<char>, now: Instant) -> TrackerModel {
        TrackerModel {
            events: ring::keep_last(
                self.events.push(FailureModel { description, occurred_at: now }),
                self.capacity as nat,
            ),
            ..self
        }
    }
}

/// Bounded record of recent cache failure events.
///
/// Keeps the most recent `capacity` events; older ones are dropped, so memory
/// is bounded.
pub struct FailureTracker {
    events: Vec<CacheFailureEvent>,
    capacity: usize,
    clock: Clock,
}

impl View for FailureTracker {
    type V = TrackerModel;

    closed spec fn view(&self) -> TrackerModel {
        TrackerModel { events: failures(self.events@), capacity: self.capacity }
    }
}

impl FailureTracker {
    /// A tracker that keeps the last `capacity` events.
    pub fn new(capacity: usize) -> (r: Self)
        ensures
            r@ == (TrackerModel { events: Seq::empty(), capacity }),
    {
        let r = FailureTracker { events: Vec::new(), capacity, clock: Clock::new() };
        assert(r@.events =~= Seq::<FailureModel>::empty());
        r
    }

    /// Record a new failure event.
    pub fn record(&mut self, description: &str)
        ensures
            exists|now: Instant| final(self)@ == #[trigger] old(self)@.recorded(description@, now),
    {
        let now = self.clock.now();
        self.record_at(description, now);
    }

    /// Record a new failure event at `now`.
    pub fn record_at(&mut self, description: &str, now: Instant)
        ensures
            final(self)@ == old(self)@.recorded(description@, now),
    {
        let event = CacheFailureEvent { description: description.to_owned(), occurred_at: now };
        push_bounded(&mut self.events, event, self.capacity);
        assert(self@ =~= old(self)@.recorded(description@, now));
    }

    /// Return a snapshot of all recorded events.
    pub fn events(&self) -> (r: Vec<CacheFailureEvent>)
        ensures
            failures(r@) == self@.events,
    {
        let r = self.events.clone();
        assert(r@ =~= self.events@);
        r
    }

    /// Number of failures currently stored.
    pub fn failure_count(&self) -> (r: usize)
        ensures
            r == self@.events.len(),
    {
        self.events.len()
    }

    /// Remove all recorded events.
    pub fn clear(&mut self)
        ensures
            final(self)@ == (TrackerModel { events: Seq::empty(), ..old(self)@ }),
    {
        self.events.clear();
        assert(self@.events =~= Seq::<FailureModel>::empty());
    }
}

/// The most recent failures are kept: the newest one is always last, and there
/// are never more than the capacity.
pub proof fn law_newest_failure_is_kept(t: TrackerModel, description: Seq<char>, now: Instant)
    requires
        t.capacity > 0,
    ensures
        t.recorded(description, now).events.last() == (FailureModel {
            description,
            occurred_at: now,
        }),
        t.recorded(description, now).events.len() <= t.capacity,
{
}

/// What a fault-tolerant cache holds.
#[verifier::ext_equal]
pub struct RecoveryModel<V> {
    /// The entries, or nothing when the backend is unavailable.
    pub store: Option<Map<Seq<char>, V>>,
    /// The observed health.
    pub health: CacheHealth,
    /// The recorded failures.
    pub tracker: TrackerModel,
}

impl<V> RecoveryModel<V> {
    /// The value stored under `key`.
    pub open spec fn cached(self, key: Seq<char>) -> Option<V> {
        match self.store {
            Some(map) => if map.contains_key(key) {
                Some(map[key])
            } else {
                None
            },
            None => None,
        }
    }

    /// The cache with `value` under `key`, where there is a backend.
    pub open spec fn inserted(self, key: Seq<char>, value: V) -> Self {
        match self.store {
            Some(map) => RecoveryModel { store: Some(map.insert(key, value)), ..self },
            None => self,
        }
    }

    /// The cache after a failure was recorded at `now`.
    pub open spec fn failed(self, description: Seq<char>, now: Instant) -> Self {
        RecoveryModel {
            health: CacheHealth::Degraded,
            tracker: self.tracker.recorded(description, now),
            ..self
        }
    }

    /// The cache after a lookup of `key` at `now` found nothing.
    pub open spec fn missed(self, key: Seq<char>, now: Instant) -> Self {
        if self.store is None && self.health == CacheHealth::Healthy {
            self.failed(unavailable("get failed: cache unavailable for key '"@, key), now)
        } else {
            self
        }
    }

    /// The cache with an empty backend, whatever it held.
    pub open spec fn emptied(self) -> Self {
        RecoveryModel { store: Some(Map::empty()), ..self }
    }

    /// The cache after the found values of `keys` were stored in turn.
    pub open spec fn filled(self, keys: Seq<&str>, found: Seq<Option<V>>) -> Self
        decreases found.len(),
    {
        if found.len() == 0 {
            self
        } else {
            let before = self.filled(keys, found.drop_last());
            match found.last() {
                Some(value) => before.inserted(keys[found.len() - 1]@, value),
                None => before,
            }
        }
    }

    /// The cache after a rebuild that loaded `loaded` keys ended at `now`.
    pub open spec fn rebuilt(self, loaded: nat, now: Instant) -> Self {
        RecoveryModel {
            health: CacheHealth::Healthy,
            tracker: self.tracker.recorded(
                "cache rebuilt: "@ + text::decimal(loaded) + " keys loaded"@,
                now,
            ),
            ..self
        }
    }

    /// Whether a rebuild that loaded `loaded` keys ended with `after`.
    pub open spec fn ends_rebuilt(self, loaded: nat, after: Self) -> bool {
        exists|now: Instant| after == #[trigger] self.rebuilt(loaded, now)
    }
}

/// The description of a failure on a key.
pub open spec fn unavailable(what: Seq<char>, key: Seq<char>) -> Seq<char> {
    what + key + "'"@
}

/// How many values were found.
pub open spec fn loaded<V>(found: Seq<Option<V>>) -> nat
    decreases found.len(),
{
    if found.len() == 0 {
        0
    } else {
        loaded(found.drop_last()) + if found.last() is Some {
            1nat
        } else {
            0nat
        }
    }
}

/// Whether `found` is what the source may have answered for the first of `keys`.
pub open spec fn answered<V, E, F: Fn(&str) -> Result<Option<V>, E>>(
    source_fn: F,
    keys: Seq<&str>,
    found: Seq<Option<V>>,
) -> bool {
    &&& found.len() <= keys.len()
    &&& forall|i: int|
        0 <= i < found.len() ==> call_ensures(source_fn, (keys[i],), Ok(#[trigger] found[i]))
}

/// The entries of a cache, while its backend is available, and its observed
/// health.
pub struct Backend<V> {
    store: Option<StrMap<V>>,
    healthy: bool,
}

impl<V> Backend<V> {
    /// The entries, or nothing when the backend is unavailable.
    pub closed spec fn entries(self) -> Option<Map<Seq<char>, V>> {
        match self.store {
            Some(map) => Some(map@),
            None => None,
        }
    }

    /// The observed health.
    pub closed spec fn health(self) -> CacheHealth {
        if self.healthy {
            CacheHealth::Healthy
        } else {
            CacheHealth::Degraded
        }
    }
}

/// A cache layer that detects failures, records them, falls back to source,
/// and supports full cache rebuild.
pub struct FaultTolerantCache<V: Clone> {
    /// The entries and the health.
    pub backend: Backend<V>,
    /// The recorded failures.
    pub tracker: FailureTracker,
}

impl<V: Clone> View for FaultTolerantCache<V> {
    type V = RecoveryModel<V>;

    open spec fn view(&self) -> RecoveryModel<V> {
        RecoveryModel {
            store: self.backend.entries(),
            health: self.backend.health(),
            tracker: self.tracker@,
        }
    }
}

impl<V: Clone> FaultTolerantCache<V> {
    /// Create a new fault-tolerant cache with the given failure-event capacity.
    pub fn new(event_capacity: usize) -> (r: Self)
        ensures
            r@ == (RecoveryModel::<V> {
                store: Some(Map::empty()),
                health: CacheHealth::Healthy,
                tracker: TrackerModel { events: Seq::empty(), capacity: event_capacity },
            }),
    {
        FaultTolerantCache {
            backend: Backend { store: Some(StrMap::new()), healthy: true },
            tracker: FailureTracker::new(event_capacity),
        }
    }

    /// Current cache health.
    pub fn health(&self) -> (r: CacheHealth)
        ensures
            r == self@.health,
    {
        if self.backend.healthy {
            CacheHealth::Healthy
        } else {
            CacheHealth::Degraded
        }
    }

    /// Mark the cache as degraded and record a failure event.
    pub fn record_failure(&mut self, description: &str)
        ensures
            exists|now: Instant| final(self)@ == #[trigger] old(self)@.failed(description@, now),
    {
        self.backend.healthy = false;
        self.tracker.record(description);
        proof {
            let now = choose|now: Instant|
                self.tracker@ == #[trigger] old(self).tracker@.recorded(description@, now);
            assert(self@ =~= old(self)@.failed(description@, now));
        }
    }

    /// Simulate a cache backend becoming unavailable. Drops the store and
    /// marks health as degraded.
    pub fn simulate_backend_failure(&mut self, reason: &str)
        ensures
            exists|now: Instant|
                final(self)@ == (RecoveryModel { store: None, ..#[trigger] old(self)@.failed(
                    reason@,
                    now,
                ) }),
    {
        self.backend.store = None;
        let ghost mid = self@;
        self.record_failure(reason);
        proof {
            let now = choose|now: Instant| self@ == #[trigger] mid.failed(reason@, now);
            assert(self@ =~= (RecoveryModel { store: None, ..old(self)@.failed(reason@, now) }));
        }
    }

    /// Insert a value into the cache.
    ///
    /// If the cache backend is unavailable, the failure is recorded and the
    /// write is dropped.
    pub fn set(&mut self, key: &str, value: V)
        ensures
            old(self)@.store is Some ==> final(self)@ == old(self)@.inserted(key@, value),
            old(self)@.store is None ==> exists|now: Instant|
                final(self)@ == #[trigger] old(self)@.failed(
                    unavailable("set failed: cache unavailable for key '"@, key@),
                    now,
                ),
    {
        match &mut self.backend.store {
            Some(map) => {
                let _old = map.insert(key.to_owned(), value);
            },
            None => {
                let start = joined("set failed: cache unavailable for key '", key);
                let description = joined(start.as_str(), "'");
                assert(description@ =~= unavailable(
                    "set failed: cache unavailable for key '"@,
                    key@,
                ));
                self.record_failure(description.as_str());
            },
        }
    }

    /// Return the cached value for `key`, or fall back to `source_fn` if the
    /// cache is unavailable or the key is not present in it.
    ///
    /// If `source_fn` succeeds and returns `Some(value)`, the value is written
    /// back into the cache (if the backend is available).
    ///
    /// Returns `Err` only if `source_fn` itself returns an error.
    pub fn get_or_fallback<F, E>(&mut self, key: &str, source_fn: F) -> (r: Result<Option<V>, E>)
        where F: FnOnce(&str) -> Result<Option<V>, E>
        requires
            old(self)@.cached(key@) is None ==> call_requires(source_fn, (key,)),
        ensures
            match old(self)@.cached(key@) {
                Some(value) => {
                    &&& final(self)@ == old(self)@
                    &&& r is Ok && r->Ok_0 is Some && cloned::<V>(value, r->Ok_0->0)
                },
                None => {
                    &&& call_ensures(source_fn, (key,), r)
                    &&& exists|now: Instant|
                        {
                            let missed = #[trigger] old(self)@.missed(key@, now);
                            if r is Ok && r->Ok_0 is Some {
                                exists|copy: V|
                                    cloned::<V>(r->Ok_0->0, copy) && final(self)@
                                        == #[trigger] missed.inserted(key@, copy)
                            } else {
                                final(self)@ == missed
                            }
                        }
                },
            },
    {
        let mut down: bool = false;
        match &self.backend.store {
            Some(map) => match map.get(key) {
                Some(v) => {
                    return Ok(Some(v.clone()));
                },
                None => {},
            },
            None => {
                down = true;
            },
        }
        let ghost mut seen: Instant = arbitrary();
        if down && self.backend.healthy {
            let start = joined("get failed: cache unavailable for key '", key);
            let description = joined(start.as_str(), "'");
            self.record_failure(description.as_str());
            proof {
                seen = choose|now: Instant|
                    self@ == #[trigger] old(self)@.failed(description@, now);
            }
        }
        let ghost mid = self@;
        assert(mid == old(self)@.missed(key@, seen));
        let r = source_fn(key);
        match &r {
            Ok(Some(v)) => {
                let copy = v.clone();
                let ghost c = copy;
                match &mut self.backend.store {
                    Some(map) => {
                        let _old = map.insert(key.to_owned(), copy);
                    },
                    None => {},
                }
                assert(self@ =~= mid.inserted(key@, c));
            },
            _ => {},
        }
        r
    }

    /// Remove a key from the cache.
    pub fn remove(&mut self, key: &str)
        ensures
            final(self)@ == (RecoveryModel {
                store: match old(self)@.store {
                    Some(map) => Some(map.remove(key@)),
                    None => None,
                },
                ..old(self)@
            }),
    {
        match &mut self.backend.store {
            Some(map) => {
                let _old = map.remove(key);
            },
            None => {},
        }
    }

    /// Rebuild the cache from scratch by calling `source_fn` for each of the
    /// provided `keys`, in turn, until one call fails. What was cached before is
    /// dropped.
    ///
    /// On success the cache health is reset to `Healthy` and an event is
    /// recorded. On failure the health remains as it was.
    ///
    /// Returns the number of keys successfully loaded, or the error of the
    /// first `source_fn` call that fails. The cache is then left with what was
    /// loaded before it.
    pub fn rebuild<F, E>(&mut self, keys: &[&str], source_fn: F) -> (r: Result<usize, E>)
        where F: Fn(&str) -> Result<Option<V>, E>
        requires
            forall|i: int| 0 <= i < keys@.len() ==> call_requires(source_fn, (#[trigger] keys@[i],)),
        ensures
            exists|found: Seq<Option<V>>|
                {
                    &&& #[trigger] answered(source_fn, keys@, found)
                    &&& match r {
                        Ok(n) => {
                            &&& found.len() == keys@.len()
                            &&& n == loaded(found)
                            &&& old(self)@.emptied().filled(keys@, found).ends_rebuilt(
                                n as nat,
                                final(self)@,
                            )
                        },
                        Err(e) => {
                            &&& found.len() < keys@.len()
                            &&& call_ensures(source_fn, (keys@[found.len() as int],), Err(e))
                            &&& final(self)@ == old(self)@.emptied().filled(keys@, found)
                        },
                    }
                },
    {
        self.backend.store = Some(StrMap::new());
        let ghost start = self@;
        assert(start =~= old(self)@.emptied());
        let ghost mut found: Seq<Option<V>> = Seq::empty();
        let mut count: usize = 0;
        let mut i: usize = 0;
        assert(self@ == start.filled(keys@, found));
        while i < keys.len()
            invariant
                i <= keys@.len(),
                found.len() == i,
                answered(source_fn, keys@, found),
                count == loaded(found),
                count <= i,
                start == old(self)@.emptied(),
                self@ == start.filled(keys@, found),
                self@.store is Some,
                forall|j: int|
                    0 <= j < keys@.len() ==> call_requires(source_fn, (#[trigger] keys@[j],)),
            decreases keys@.len() - i,
        {
            let key: &str = keys[i];
            let answer = source_fn(key);
            match answer {
                Err(e) => {
                    return Err(e);
                },
                Ok(value) => {
                    let ghost now_found = found.push(value);
                    assert(now_found.drop_last() =~= found);
                    match value {
                        Some(v) => {
                            match &mut self.backend.store {
                                Some(map) => {
                                    let _old = map.insert(key.to_owned(), v);
                                    count += 1;
                                },
                                None => {},
                            }
                            assert(self@ =~= start.filled(keys@, now_found));
                        },
                        None => {},
                    }
                    proof {
                        found = now_found;
                    }
                },
            }
            i += 1;
        }
        self.backend.healthy = true;
        let ghost mid = self@;
        let description = numbered("cache rebuilt: ", count as u64, " keys loaded");
        self.tracker.record(description.as_str());
        proof {
            let now = choose|now: Instant|
                self.tracker@ == #[trigger] mid.tracker.recorded(description@, now);
            assert(description@ =~= "cache rebuilt: "@ + text::decimal(count as nat)
                + " keys loaded"@);
            assert(self@ =~= old(self)@.emptied().filled(keys@, found).rebuilt(count as nat, now));
            assert(old(self)@.emptied().filled(keys@, found).ends_rebuilt(count as nat, self@));
            assert(answered(source_fn, keys@, found));
        }
        Ok(count)
    }

    /// Return the number of entries currently stored (0 if backend is down).
    pub fn entry_count(&self) -> (r: usize)
        ensures
            r == match self@.store {
                Some(map) => map.len(),
                None => 0,
            },
    {
        match &self.backend.store {
            Some(map) => map.len(),
            None => 0,
        }
    }
}

/// A rebuilt cache is healthy and answers every loaded key from what the source
/// gave for it; where a key occurs twice the later answer counts.
pub proof fn law_rebuild_loads_the_answers<V>(
    c: RecoveryModel<V>,
    keys: Seq<&str>,
    found: Seq<Option<V>>,
    i: int,
)
    requires
        0 <= i < found.len() <= keys.len(),
        found[i] is Some,
        forall|j: int| i < j < found.len() ==> (#[trigger] keys[j])@ != keys[i]@,
    ensures
        c.emptied().filled(keys, found).cached(keys[i]@) == found[i],
    decreases found.len(),
{
    lemma_filled_has_store(c.emptied(), keys, found.drop_last());
    if i < found.len() - 1 {
        law_rebuild_loads_the_answers(c, keys, found.drop_last(), i);
        assert(keys[found.len() - 1]@ != keys[i]@);
    }
}

/// A rebuild starts from scratch: afterwards only keys are cached that the source
/// was asked for and had a value for.
pub proof fn law_rebuild_starts_from_scratch<V>(
    c: RecoveryModel<V>,
    keys: Seq<&str>,
    found: Seq<Option<V>>,
    key: Seq<char>,
)
    requires
        found.len() <= keys.len(),
    ensures
        c.emptied().filled(keys, found).cached(key) is Some ==> exists|i: int|
            0 <= i < found.len() && (#[trigger] keys[i])@ == key && found[i] is Some,
    decreases found.len(),
{
    if found.len() > 0 {
        let short = found.drop_last();
        law_rebuild_starts_from_scratch(c, keys, short, key);
        if c.emptied().filled(keys, short).cached(key) is Some {
            let i = choose|i: int|
                0 <= i < short.len() && (#[trigger] keys[i])@ == key && short[i] is Some;
            assert(keys[i]@ == key && found[i] is Some);
        } else if c.emptied().filled(keys, found).cached(key) is Some {
            let last = found.len() - 1;
            assert(keys[last]@ == key && found[last] is Some);
        }
    }
}

/// Storing values keeps the backend.
proof fn lemma_filled_has_store<V>(c: RecoveryModel<V>, keys: Seq<&str>, found: Seq<Option<V>>)
    requires
        c.store is Some,
    ensures
        c.filled(keys, found).store is Some,
    decreases found.len(),
{
    if found.len() > 0 {
        lemma_filled_has_store(c, keys, found.drop_last());
    }
}

/// A write is read back while the backend is there, and is dropped when it is
/// not.
pub proof fn law_write_then_lookup<V>(c: RecoveryModel<V>, key: Seq<char>, value: V)
    ensures
        c.store is Some ==> c.inserted(key, value).cached(key) == Some(value),
        c.store is None ==> c.inserted(key, value) == c,
{
}

/// Only a rebuild makes a degraded cache healthy again: recording failures,
/// lookups and writes leave it degraded.
pub proof fn law_degraded_until_rebuilt<V>(
    c: RecoveryModel<V>,
    key: Seq<char>,
    value: V,
    description: Seq<char>,
    now: Instant,
)
    requires
        c.health == CacheHealth::Degraded,
    ensures
        c.failed(description, now).health == CacheHealth::Degraded,
        c.missed(key, now).health == CacheHealth::Degraded,
        c.inserted(key, value).health == CacheHealth::Degraded,
        c.rebuilt(0, now).health == CacheHealth::Healthy,
{
}

/// A failure is recorded with its description and moment and marks the cache as
/// degraded; the values stay as they are. A rebuild marks it as healthy, says how
/// many keys it loaded, and leaves the values that were loaded.
pub proof fn law_failure_and_rebuild_set_the_health<V>(
    c: RecoveryModel<V>,
    description: Seq<char>,
    loaded: nat,
    now: Instant,
)
    requires
        c.tracker.capacity > 0,
    ensures
        c.failed(description, now).health == CacheHealth::Degraded,
        c.failed(description, now).store == c.store,
        c.failed(description, now).tracker.events.last().description == description,
        c.failed(description, now).tracker.events.last().occurred_at == now,
        c.rebuilt(loaded, now).health == CacheHealth::Healthy,
        c.rebuilt(loaded, now).store == c.store,
        c.rebuilt(loaded, now).tracker.events.last().description == "cache rebuilt: "@
            + text::decimal(loaded) + " keys loaded"@,
{
    law_newest_failure_is_kept(c.tracker, description, now);
    law_newest_failure_is_kept(
        c.tracker,
        "cache rebuilt: "@ + text::decimal(loaded) + " keys loaded"@,
        now,
    );
}

/// A miss is a failure only where the backend is gone and this was not noticed
/// before: it is then reported once.
pub proof fn law_lost_backend_is_reported_once<V>(
    c: RecoveryModel<V>,
    key: Seq<char>,
    other: Seq<char>,
    now: Instant,
    later: Instant,
)
    ensures
        c.store is Some ==> c.missed(key, now) == c,
        c.health == CacheHealth::Degraded ==> c.missed(key, now) == c,
        c.store is None ==> c.missed(key, now).health == CacheHealth::Degraded,
        c.missed(key, now).missed(other, later) == c.missed(key, now),
        c.store is None && c.health == CacheHealth::Healthy && c.tracker.capacity > 0 ==> c.missed(
            key,
            now,
        ).tracker.events.last().description == "get failed: cache unavailable for key '"@ + key
            + "'"@,
{
    if c.tracker.capacity > 0 {
        law_newest_failure_is_kept(
            c.tracker,
            unavailable("get failed: cache unavailable for key '"@, key),
            now,
        );
    }
}

/// A rebuild counts the keys for which the source had a value, and no others.
pub proof fn law_loaded_keys_are_counted<V>(found: Seq<Option<V>>, answer: Option<V>)
    ensures
        loaded(Seq::<Option<V>>::empty()) == 0,
        loaded(found.push(answer)) == loaded(found) + if answer is Some {
            1nat
        } else {
            0nat
        },
{
    assert(found.push(answer).drop_last() =~= found);
}

/// Values of other keys are kept by a write.
pub proof fn law_write_keeps_other_keys<V>(
    c: RecoveryModel<V>,
    key: Seq<char>,
    value: V,
    other: Seq<char>,
)
    requires
        other != key,
    ensures
        c.inserted(key, value).cached(other) == c.cached(other),
        c.inserted(key, value).health == c.health,
        c.inserted(key, value).tracker == c.tracker,
{
}

} // verus!
