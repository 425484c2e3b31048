//! Event-driven cache invalidation with dependency tracking.

use crate::cache;
use crate::cache::VaultCache;
use crate::cache_metrics;
use crate::strmap::StrMap;
use vstd::prelude::*;

verus! {

/// Something that makes cached values outdated.
#[derive(Debug, PartialEq, Eq)]
pub enum CacheEvent {
    /// Vault state changed (check-in, deposit, withdrawal, etc.).
    VaultStateChanged { vault_id: String },
    /// Beneficiary updated.
    BeneficiaryUpdated { vault_id: String },
    /// Vault released to beneficiary.
    VaultReleased { vault_id: String },
    /// Owner changed (rare, but possible).
    OwnerChanged { vault_id: String, new_owner: String },
    /// Reminder preferences updated.
    ReminderPreferencesUpdated { vault_id: String },
    /// Subscription settings changed.
    SubscriptionChanged { vault_id: String },
    /// Global cache flush requested.
    GlobalFlush,
}

impl CacheEvent {
    /// The vault that the event is about; `None` when it is about all.
    pub open spec fn about(self) -> Option<Seq<char>> {
        match self {
            CacheEvent::VaultStateChanged { vault_id } => Some(vault_id@),
            CacheEvent::BeneficiaryUpdated { vault_id } => Some(vault_id@),
            CacheEvent::VaultReleased { vault_id } => Some(vault_id@),
            CacheEvent::OwnerChanged { vault_id, .. } => Some(vault_id@),
            CacheEvent::ReminderPreferencesUpdated { vault_id } => Some(vault_id@),
            CacheEvent::SubscriptionChanged { vault_id } => Some(vault_id@),
            CacheEvent::GlobalFlush => None,
        }
    }

    /// Extract the vault ID from the event, if applicable.
    pub fn vault_id(&self) -> (r: Option<&str>)
        ensures
            match r {
                Some(id) => self.about() == Some(id@),
                None => self.about() is None,
            },
    {
        match self {
            CacheEvent::VaultStateChanged { vault_id } => Some(vault_id.as_str()),
            CacheEvent::BeneficiaryUpdated { vault_id } => Some(vault_id.as_str()),
            CacheEvent::VaultReleased { vault_id } => Some(vault_id.as_str()),
            CacheEvent::OwnerChanged { vault_id, .. } => Some(vault_id.as_str()),
            CacheEvent::ReminderPreferencesUpdated { vault_id } => Some(vault_id.as_str()),
            CacheEvent::SubscriptionChanged { vault_id } => Some(vault_id.as_str()),
            CacheEvent::GlobalFlush => None,
        }
    }
}

/// The kinds of values that can be cached.
#[derive(Debug, Clone, Copy, PartialEq, Eq, Structural)]
pub enum CacheKey {
    Vault,
    TtlRemaining,
    Summary,
    ReminderPreferences,
    Subscription,
}

/// A set of kinds.
#[derive(Debug, Clone, Copy, PartialEq, Eq, Structural)]
pub struct KeySet {
    vault: bool,
    ttl_remaining: bool,
    summary: bool,
    reminder_preferences: bool,
    subscription: bool,
}

impl View for KeySet {
    type V = Set<CacheKey>;

    closed spec fn view(&self) -> Set<CacheKey> {
        Set::new(|k: CacheKey| self.has(k))
    }
}

/// One for a kind that is there, zero for one that is not.
spec fn one(b: bool) -> nat {
    if b {
        1
    } else {
        0
    }
}

impl KeySet {
    spec fn has(self, k: CacheKey) -> bool {
        match k {
            CacheKey::Vault => self.vault,
            CacheKey::TtlRemaining => self.ttl_remaining,
            CacheKey::Summary => self.summary,
            CacheKey::ReminderPreferences => self.reminder_preferences,
            CacheKey::Subscription => self.subscription,
        }
    }

    /// No kinds.
    pub fn new() -> (r: Self)
        ensures
            r@ == Set::<CacheKey>::empty(),
    {
        let r = KeySet {
            vault: false,
            ttl_remaining: false,
            summary: false,
            reminder_preferences: false,
            subscription: false,
        };
        assert(r@ =~= Set::<CacheKey>::empty());
        r
    }

    /// Adds a kind.
    pub fn insert(&mut self, key: CacheKey)
        ensures
            final(self)@ == old(self)@.insert(key),
    {
        match key {
            CacheKey::Vault => {
                self.vault = true;
            },
            CacheKey::TtlRemaining => {
                self.ttl_remaining = true;
            },
            CacheKey::Summary => {
                self.summary = true;
            },
            CacheKey::ReminderPreferences => {
                self.reminder_preferences = true;
            },
            CacheKey::Subscription => {
                self.subscription = true;
            },
        }
        assert(self@ =~= old(self)@.insert(key));
    }

    /// The same kinds and one more.
    fn with(self, key: CacheKey) -> (r: Self)
        ensures
            r@ == self@.insert(key),
    {
        let mut r = self;
        r.insert(key);
        r
    }

    /// Whether a kind is there.
    pub fn contains(&self, key: &CacheKey) -> (r: bool)
        ensures
            r == self@.contains(*key),
    {
        match key {
            CacheKey::Vault => self.vault,
            CacheKey::TtlRemaining => self.ttl_remaining,
            CacheKey::Summary => self.summary,
            CacheKey::ReminderPreferences => self.reminder_preferences,
            CacheKey::Subscription => self.subscription,
        }
    }

    /// How many kinds there are.
    pub fn len(&self) -> (r: usize)
        ensures
            r == self@.len(),
            self@.finite(),
    {
        let mut n: usize = 0;
        let ghost mut s: Set<CacheKey> = Set::empty();
        if self.vault {
            n += 1;
            proof {
                s = s.insert(CacheKey::Vault);
            }
        }
        if self.ttl_remaining {
            n += 1;
            proof {
                s = s.insert(CacheKey::TtlRemaining);
            }
        }
        if self.summary {
            n += 1;
            proof {
                s = s.insert(CacheKey::Summary);
            }
        }
        if self.reminder_preferences {
            n += 1;
            proof {
                s = s.insert(CacheKey::ReminderPreferences);
            }
        }
        if self.subscription {
            n += 1;
            proof {
                s = s.insert(CacheKey::Subscription);
            }
        }
        assert(s =~= self@);
        n
    }

    /// Whether there are no kinds.
    pub fn is_empty(&self) -> (r: bool)
        ensures
            r == (self@ == Set::<CacheKey>::empty()),
    {
        let r: bool = !self.vault && !self.ttl_remaining && !self.summary
            && !self.reminder_preferences && !self.subscription;
        proof {
            if r {
                assert(self@ =~= Set::<CacheKey>::empty());
            } else if self.vault {
                assert(self@.contains(CacheKey::Vault));
            } else if self.ttl_remaining {
                assert(self@.contains(CacheKey::TtlRemaining));
            } else if self.summary {
                assert(self@.contains(CacheKey::Summary));
            } else if self.reminder_preferences {
                assert(self@.contains(CacheKey::ReminderPreferences));
            } else {
                assert(self@.contains(CacheKey::Subscription));
            }
        }
        r
    }
}

/// Tracks which kinds of cached values depend on which vault.
pub struct DependencyGraph {
    dependencies: StrMap<KeySet>,
}

impl View for DependencyGraph {
    type V = Map<Seq<char>, Set<CacheKey>>;

    closed spec fn view(&self) -> Map<Seq<char>, Set<CacheKey>> {
        Map::new(
            |id: Seq<char>| self.dependencies@.contains_key(id),
            |id: Seq<char>| self.dependencies@[id]@,
        )
    }
}

/// The kinds that depend on a vault.
pub open spec fn dependents(
    graph: Map<Seq<char>, Set<CacheKey>>,
    vault_id: Seq<char>,
) -> Set<CacheKey> {
    if graph.contains_key(vault_id) {
        graph[vault_id]
    } else {
        Set::empty()
    }
}

impl DependencyGraph {
    /// A graph without dependencies.
    pub fn new() -> (r: Self)
        ensures
            r@ == Map::<Seq<char>, Set<CacheKey>>::empty(),
    {
        let r = DependencyGraph { dependencies: StrMap::new() };
        assert(r@ =~= Map::<Seq<char>, Set<CacheKey>>::empty());
        r
    }

    /// Register that a cache key depends on a vault.
    pub fn add_dependency(&mut self, vault_id: &str, key: CacheKey)
        ensures
            final(self)@ == old(self)@.insert(
                vault_id@,
                dependents(old(self)@, vault_id@).insert(key),
            ),
    {
        let mut keys = self.get_dependents(vault_id);
        keys.insert(key);
        let _previous = self.dependencies.insert(vault_id.to_owned(), keys);
        assert(self@ =~= old(self)@.insert(
            vault_id@,
            dependents(old(self)@, vault_id@).insert(key),
        ));
    }

    /// Get all cache keys that depend on a vault.
    pub fn get_dependents(&self, vault_id: &str) -> (r: KeySet)
        ensures
            r@ == dependents(self@, vault_id@),
    {
        match self.dependencies.get(vault_id) {
            Some(keys) => *keys,
            None => KeySet::new(),
        }
    }

    /// Remove all dependencies for a vault (used during invalidation).
    pub fn clear_vault(&mut self, vault_id: &str)
        ensures
            final(self)@ == old(self)@.remove(vault_id@),
    {
        let _removed = self.dependencies.remove(vault_id);
        assert(self@ =~= old(self)@.remove(vault_id@));
    }

    /// Clear all dependencies.
    pub fn clear_all(&mut self)
        ensures
            final(self)@ == Map::<Seq<char>, Set<CacheKey>>::empty(),
    {
        self.dependencies.clear();
        assert(self@ =~= Map::<Seq<char>, Set<CacheKey>>::empty());
    }
}

/// Determines which cache entries to invalidate based on event type.
pub struct InvalidationStrategy;

/// The kinds of values that an event makes outdated.
pub open spec fn outdated(event: CacheEvent) -> Set<CacheKey> {
    match event {
        CacheEvent::VaultStateChanged { .. } => set![
            CacheKey::Vault,
            CacheKey::TtlRemaining,
            CacheKey::Summary,
        ],
        CacheEvent::BeneficiaryUpdated { .. } => set![CacheKey::Vault, CacheKey::Summary],
        CacheEvent::VaultReleased { .. } => set![
            CacheKey::Vault,
            CacheKey::TtlRemaining,
            CacheKey::Summary,
        ],
        CacheEvent::OwnerChanged { .. } => set![CacheKey::Vault, CacheKey::Summary],
        CacheEvent::ReminderPreferencesUpdated { .. } => set![CacheKey::ReminderPreferences],
        CacheEvent::SubscriptionChanged { .. } => set![CacheKey::Subscription],
        CacheEvent::GlobalFlush => set![
            CacheKey::Vault,
            CacheKey::TtlRemaining,
            CacheKey::Summary,
            CacheKey::ReminderPreferences,
            CacheKey::Subscription,
        ],
    }
}

impl InvalidationStrategy {
    /// Determine which cache keys should be invalidated for a given event.
    pub fn keys_to_invalidate(event: &CacheEvent) -> (r: KeySet)
        ensures
            r@ == outdated(*event),
    {
        let r = match event {
            // State change affects vault, TTL, and summary.
            CacheEvent::VaultStateChanged { .. } => KeySet::new().with(CacheKey::Vault).with(
                CacheKey::TtlRemaining,
            ).with(CacheKey::Summary),
            // Beneficiary change affects vault and summary.
            CacheEvent::BeneficiaryUpdated { .. } => KeySet::new().with(CacheKey::Vault).with(
                CacheKey::Summary,
            ),
            // Release affects all vault-related caches.
            CacheEvent::VaultReleased { .. } => KeySet::new().with(CacheKey::Vault).with(
                CacheKey::TtlRemaining,
            ).with(CacheKey::Summary),
            // Owner change affects vault and summary.
            CacheEvent::OwnerChanged { .. } => KeySet::new().with(CacheKey::Vault).with(
                CacheKey::Summary,
            ),
            // Preferences don't affect vault cache, only external systems.
            CacheEvent::ReminderPreferencesUpdated { .. } => KeySet::new().with(
                CacheKey::ReminderPreferences,
            ),
            CacheEvent::SubscriptionChanged { .. } => KeySet::new().with(CacheKey::Subscription),
            // Flush everything.
            CacheEvent::GlobalFlush => KeySet::new().with(CacheKey::Vault).with(
                CacheKey::TtlRemaining,
            ).with(CacheKey::Summary).with(CacheKey::ReminderPreferences).with(
                CacheKey::Subscription,
            ),
        };
        assert(r@ =~= outdated(*event));
        r
    }
}

/// Counts of what was invalidated and why.
#[derive(Debug, Clone, Copy, PartialEq, Eq, Structural)]
pub struct InvalidationStats {
    pub total_events: u64,
    pub total_invalidations: u64,
    pub cascade_invalidations: u64,
    pub global_flushes: u64,
}

impl InvalidationStats {
    /// Counts that have seen nothing.
    pub open spec fn zero() -> InvalidationStats {
        InvalidationStats {
            total_events: 0,
            total_invalidations: 0,
            cascade_invalidations: 0,
            global_flushes: 0,
        }
    }
}

impl Default for InvalidationStats {
    fn default() -> (r: Self)
        ensures
            r == InvalidationStats::zero(),
    {
        InvalidationStats {
            total_events: 0,
            total_invalidations: 0,
            cascade_invalidations: 0,
            global_flushes: 0,
        }
    }
}

/// Invalidates cached values on events.
pub struct CacheInvalidator {
    dependency_graph: DependencyGraph,
    stats: InvalidationStats,
}

/// What there is to know of an invalidator.
pub struct InvalidatorModel {
    pub graph: Map<Seq<char>, Set<CacheKey>>,
    pub stats: InvalidationStats,
}

impl View for CacheInvalidator {
    type V = InvalidatorModel;

    closed spec fn view(&self) -> InvalidatorModel {
        InvalidatorModel { graph: self.dependency_graph@, stats: self.stats }
    }
}

/// A counter plus `n`, wrapping around.
pub open spec fn plus(a: u64, n: u64) -> u64 {
    cache_metrics::wrapping_sum(a, n)
}

/// The invalidator after an event.
pub open spec fn after_event(m: InvalidatorModel, event: CacheEvent) -> InvalidatorModel {
    match event.about() {
        None => InvalidatorModel {
            graph: Map::empty(),
            stats: InvalidationStats {
                total_events: plus(m.stats.total_events, 1),
                total_invalidations: plus(m.stats.total_invalidations, 1),
                global_flushes: plus(m.stats.global_flushes, 1),
                ..m.stats
            },
        },
        Some(id) => InvalidatorModel {
            graph: m.graph.remove(id),
            stats: InvalidationStats {
                total_events: plus(m.stats.total_events, 1),
                total_invalidations: plus(m.stats.total_invalidations, 1),
                cascade_invalidations: plus(
                    m.stats.cascade_invalidations,
                    dependents(m.graph, id).len() as u64,
                ),
                ..m.stats
            },
        },
    }
}

/// The cache after an event: without the vault it is about, or empty.
pub open spec fn cache_after(c: cache::CacheModel, event: CacheEvent) -> cache::CacheModel {
    match event.about() {
        None => cache::CacheModel { entries: Map::empty(), ..c },
        Some(id) => c.invalidated(id),
    }
}

impl CacheInvalidator {
    /// An invalidator without dependencies.
    pub fn new() -> (r: Self)
        ensures
            r@ == (InvalidatorModel { graph: Map::empty(), stats: InvalidationStats::zero() }),
    {
        CacheInvalidator {
            dependency_graph: DependencyGraph::new(),
            stats: InvalidationStats::default(),
        }
    }

    /// Process a cache event and invalidate affected entries.
    pub fn handle_event(&mut self, cache: &mut VaultCache, event: CacheEvent)
        ensures
            final(self)@ == after_event(old(self)@, event),
            final(cache)@ == cache_after(old(cache)@, event),
    {
        self.stats.total_events = self.stats.total_events.wrapping_add(1);
        self.stats.total_invalidations = self.stats.total_invalidations.wrapping_add(1);
        match event.vault_id() {
            None => {
                cache.invalidate_all();
                self.dependency_graph.clear_all();
                self.stats.global_flushes = self.stats.global_flushes.wrapping_add(1);
            },
            Some(vault_id) => {
                cache.invalidate(vault_id);
                let dependents = self.dependency_graph.get_dependents(vault_id);
                self.stats.cascade_invalidations =
                    self.stats.cascade_invalidations.wrapping_add(dependents.len() as u64);
                self.dependency_graph.clear_vault(vault_id);
            },
        }
    }

    /// Register a dependency between a vault and a cache key.
    pub fn register_dependency(&mut self, vault_id: &str, key: CacheKey)
        ensures
            final(self)@ == (InvalidatorModel {
                graph: old(self)@.graph.insert(
                    vault_id@,
                    dependents(old(self)@.graph, vault_id@).insert(key),
                ),
                ..old(self)@
            }),
    {
        self.dependency_graph.add_dependency(vault_id, key);
    }

    /// Get invalidation statistics.
    pub fn get_stats(&self) -> (r: InvalidationStats)
        ensures
            r == self@.stats,
    {
        self.stats
    }

    /// Reset statistics.
    pub fn reset_stats(&mut self)
        ensures
            final(self)@ == (InvalidatorModel { stats: InvalidationStats::zero(), ..old(self)@ }),
    {
        self.stats = InvalidationStats::default();
    }
}

/// Helper to emit cache events from application code.
pub struct CacheEventEmitter {
    pub invalidator: CacheInvalidator,
}

impl CacheEventEmitter {
    /// An emitter for the given invalidator.
    pub fn new(invalidator: CacheInvalidator) -> (r: Self)
        ensures
            r.invalidator == invalidator,
    {
        CacheEventEmitter { invalidator }
    }

    /// Whether an event about `vault_id` was processed.
    pub open spec fn emitted(
        before: InvalidatorModel,
        after: InvalidatorModel,
        cache_before: cache::CacheModel,
        cache_after: cache::CacheModel,
        vault_id: Seq<char>,
    ) -> bool {
        &&& after.graph == before.graph.remove(vault_id)
        &&& after.stats.total_events == plus(before.stats.total_events, 1)
        &&& after.stats.total_invalidations == plus(before.stats.total_invalidations, 1)
        &&& after.stats.cascade_invalidations == plus(
            before.stats.cascade_invalidations,
            dependents(before.graph, vault_id).len() as u64,
        )
        &&& after.stats.global_flushes == before.stats.global_flushes
        &&& cache_after == cache_before.invalidated(vault_id)
    }

    /// Emit a vault state change event.
    pub fn vault_state_changed(&mut self, cache: &mut VaultCache, vault_id: &str)
        ensures
            Self::emitted(
                old(self).invalidator@,
                final(self).invalidator@,
                old(cache)@,
                final(cache)@,
                vault_id@,
            ),
    {
        self.invalidator.handle_event(
            cache,
            CacheEvent::VaultStateChanged { vault_id: vault_id.to_owned() },
        );
    }

    /// Emit a beneficiary updated event.
    pub fn beneficiary_updated(&mut self, cache: &mut VaultCache, vault_id: &str)
        ensures
            Self::emitted(
                old(self).invalidator@,
                final(self).invalidator@,
                old(cache)@,
                final(cache)@,
                vault_id@,
            ),
    {
        self.invalidator.handle_event(
            cache,
            CacheEvent::BeneficiaryUpdated { vault_id: vault_id.to_owned() },
        );
    }

    /// Emit a vault released event.
    pub fn vault_released(&mut self, cache: &mut VaultCache, vault_id: &str)
        ensures
            Self::emitted(
                old(self).invalidator@,
                final(self).invalidator@,
                old(cache)@,
                final(cache)@,
                vault_id@,
            ),
    {
        self.invalidator.handle_event(
            cache,
            CacheEvent::VaultReleased { vault_id: vault_id.to_owned() },
        );
    }

    /// Emit an owner changed event.
    pub fn owner_changed(&mut self, cache: &mut VaultCache, vault_id: &str, new_owner: &str)
        ensures
            Self::emitted(
                old(self).invalidator@,
                final(self).invalidator@,
                old(cache)@,
                final(cache)@,
                vault_id@,
            ),
    {
        self.invalidator.handle_event(
            cache,
            CacheEvent::OwnerChanged {
                vault_id: vault_id.to_owned(),
                new_owner: new_owner.to_owned(),
            },
        );
    }

    /// Emit a reminder preferences updated event.
    pub fn reminder_preferences_updated(&mut self, cache: &mut VaultCache, vault_id: &str)
        ensures
            Self::emitted(
                old(self).invalidator@,
                final(self).invalidator@,
                old(cache)@,
                final(cache)@,
                vault_id@,
            ),
    {
        self.invalidator.handle_event(
            cache,
            CacheEvent::ReminderPreferencesUpdated { vault_id: vault_id.to_owned() },
        );
    }

    /// Emit a subscription changed event.
    pub fn subscription_changed(&mut self, cache: &mut VaultCache, vault_id: &str)
        ensures
            Self::emitted(
                old(self).invalidator@,
                final(self).invalidator@,
                old(cache)@,
                final(cache)@,
                vault_id@,
            ),
    {
        self.invalidator.handle_event(
            cache,
            CacheEvent::SubscriptionChanged { vault_id: vault_id.to_owned() },
        );
    }

    /// Emit a global flush event.
    pub fn global_flush(&mut self, cache: &mut VaultCache)
        ensures
            final(self).invalidator@ == after_event(
                old(self).invalidator@,
                CacheEvent::GlobalFlush,
            ),
            final(cache)@ == (cache::CacheModel { entries: Map::empty(), ..old(cache)@ }),
    {
        self.invalidator.handle_event(cache, CacheEvent::GlobalFlush);
    }
}

/// After an event nothing of the vault it is about is read from the cache, and
/// after a flush nothing at all.
pub proof fn law_event_clears_cache(
    c: cache::CacheModel,
    event: CacheEvent,
    id: Seq<char>,
    slot: cache::Slot,
    now: crate::clock::Instant,
)
    requires
        event.about() is None || event.about() == Some(id),
    ensures
        cache_after(c, event).read(slot, id, now) is None,
{
}

/// An event about one vault leaves the cached values and the dependencies of
/// the others alone.
pub proof fn law_events_are_local(
    m: InvalidatorModel,
    c: cache::CacheModel,
    event: CacheEvent,
    other: Seq<char>,
    slot: cache::Slot,
    now: crate::clock::Instant,
)
    requires
        event.about() is Some,
        event.about() != Some(other),
    ensures
        cache_after(c, event).read(slot, other, now) == c.read(slot, other, now),
        dependents(after_event(m, event).graph, other) == dependents(m.graph, other),
{
}

/// What an event makes outdated: a change of state or a release everything that
/// is derived from the vault, a new beneficiary or owner all of that but the
/// remaining time, preferences and subscriptions themselves alone, and a flush
/// everything.
pub proof fn law_event_outdates_what_it_touches(event: CacheEvent)
    ensures
        ({
            let k = outdated(event);
            &&& k.contains(CacheKey::Vault) <==> !(event is ReminderPreferencesUpdated)
                && !(event is SubscriptionChanged)
            &&& k.contains(CacheKey::Summary) <==> k.contains(CacheKey::Vault)
            &&& k.contains(CacheKey::TtlRemaining) <==> event is VaultStateChanged
                || event is VaultReleased || event is GlobalFlush
            &&& k.contains(CacheKey::ReminderPreferences) <==> event is ReminderPreferencesUpdated
                || event is GlobalFlush
            &&& k.contains(CacheKey::Subscription) <==> event is SubscriptionChanged
                || event is GlobalFlush
        }),
{
}

/// Every event is about the vault that it names; a flush is about none.
pub proof fn law_event_names_its_vault(vault_id: String, new_owner: String)
    ensures
        (CacheEvent::VaultStateChanged { vault_id }).about() == Some(vault_id@),
        (CacheEvent::BeneficiaryUpdated { vault_id }).about() == Some(vault_id@),
        (CacheEvent::VaultReleased { vault_id }).about() == Some(vault_id@),
        (CacheEvent::OwnerChanged { vault_id, new_owner }).about() == Some(vault_id@),
        (CacheEvent::ReminderPreferencesUpdated { vault_id }).about() == Some(vault_id@),
        (CacheEvent::SubscriptionChanged { vault_id }).about() == Some(vault_id@),
        (CacheEvent::GlobalFlush).about() is None,
{
}

/// Events are counted: each as one event and one invalidation, one about a vault
/// with the values that depended on the vault, and a flush as a flush. After an event nothing
/// is known to depend on its vault, after a flush on any.
pub proof fn law_events_are_counted(m: InvalidatorModel, event: CacheEvent, id: Seq<char>)
    requires
        m.stats.total_events < u64::MAX,
        m.stats.total_invalidations < u64::MAX,
        m.stats.global_flushes < u64::MAX,
        event.about() is None || event.about() == Some(id),
        dependents(m.graph, id).len() <= 5,
        m.stats.cascade_invalidations <= u64::MAX - 5,
    ensures
        ({
            let a = after_event(m, event);
            &&& a.stats.total_events == m.stats.total_events + 1
            &&& a.stats.total_invalidations == m.stats.total_invalidations + 1
            &&& event is GlobalFlush ==> a.stats.global_flushes == m.stats.global_flushes + 1
                && a.stats.cascade_invalidations == m.stats.cascade_invalidations
            &&& !(event is GlobalFlush) ==> a.stats.global_flushes == m.stats.global_flushes
                && a.stats.cascade_invalidations == m.stats.cascade_invalidations + dependents(
                m.graph,
                id,
            ).len()
            &&& dependents(a.graph, id) == Set::<CacheKey>::empty()
        }),
{
}

/// A flush empties the cache and leaves its settings and figures.
pub proof fn law_flush_empties_the_cache(c: cache::CacheModel, id: Seq<char>)
    ensures
        !cache_after(c, CacheEvent::GlobalFlush).entries.contains_key(id),
        cache_after(c, CacheEvent::GlobalFlush).config == c.config,
        cache_after(c, CacheEvent::GlobalFlush).metrics == c.metrics,
{
}

/// A change that is announced for a vault forgets what depended on the vault, clears its
/// values, and is counted; other vaults keep theirs.
pub proof fn law_announcement_clears_the_vault(
    before: InvalidatorModel,
    after: InvalidatorModel,
    c: cache::CacheModel,
    d: cache::CacheModel,
    vault_id: Seq<char>,
    other: Seq<char>,
)
    requires
        CacheEventEmitter::emitted(before, after, c, d, vault_id),
        before.stats.total_events < u64::MAX,
        before.stats.total_invalidations < u64::MAX,
    ensures
        dependents(after.graph, vault_id) == Set::<CacheKey>::empty(),
        other != vault_id ==> dependents(after.graph, other) == dependents(before.graph, other),
        after.stats.total_events == before.stats.total_events + 1,
        after.stats.total_invalidations == before.stats.total_invalidations + 1,
        after.stats.global_flushes == before.stats.global_flushes,
        !d.entries.contains_key(vault_id),
        other != vault_id ==> d.of(other) == c.of(other),
        dependents(before.graph, vault_id).len() + before.stats.cascade_invalidations <= u64::MAX
            ==> after.stats.cascade_invalidations == before.stats.cascade_invalidations
            + dependents(before.graph, vault_id).len(),
{
}

} // verus!
