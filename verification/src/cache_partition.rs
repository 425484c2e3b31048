//! Cache partitioning for multi-tenant isolation.
//!
//! Each tenant operates within its own partition of the cache, so that keys of
//! one tenant can neither collide with nor leak into the data of another.

use crate::cache_metrics;
use crate::clock;
use crate::clock::{Clock, Duration, Instant};
use crate::ratio::Ratio;
use crate::strmap::StrMap;
use crate::text;
use crate::text::{chars_of, position_of};
use vstd::prelude::*;
use vstd::string::*;

verus! {

/// Separator used between tenant ID and cache key.
pub const KEY_SEP: char = ':';

/// The name of a key of a tenant.
pub open spec fn namespaced(tenant_id: Seq<char>, key: Seq<char>) -> Seq<char> {
    tenant_id + seq![KEY_SEP] + key
}

/// Return a namespaced cache key for the given tenant and logical key.
pub fn namespaced_key(tenant_id: &str, key: &str) -> (r: String)
    ensures
        r@ == namespaced(tenant_id@, key@),
{
    let mut r: String = tenant_id.to_owned();
    r.push(KEY_SEP);
    assert(r@ =~= tenant_id@ + seq![KEY_SEP]);
    r.append(key);
    r
}

/// Extract the tenant ID and original key from a namespaced key, which is
/// split at its first separator. Returns `None` if the key does not contain
/// the separator.
pub fn parse_namespaced_key<'a>(namespaced: &'a str) -> (r: Option<(&'a str, &'a str)>)
    ensures
        match r {
            Some((tenant_id, key)) => {
                &&& namespaced@ == self::namespaced(tenant_id@, key@)
                &&& !tenant_id@.contains(KEY_SEP)
            },
            None => !namespaced@.contains(KEY_SEP),
        },
{
    let chars = chars_of(namespaced);
    let n: usize = chars.len();
    let at: usize = position_of(&chars, KEY_SEP, 0);
    proof {
        text::lemma_first_at(chars@, KEY_SEP, 0);
    }
    if at == n {
        return None;
    }
    let tenant_id = namespaced.substring_char(0, at);
    let key = namespaced.substring_char(at + 1, n);
    proof {
        assert(namespaced@ =~= self::namespaced(tenant_id@, key@));
        assert(!tenant_id@.contains(KEY_SEP));
    }
    Some((tenant_id, key))
}

/// A namespaced key determines its tenant and its key, so keys of different
/// tenants never collide, whatever the keys are.
pub proof fn law_namespaces_do_not_collide(
    tenant_a: Seq<char>,
    key_a: Seq<char>,
    tenant_b: Seq<char>,
    key_b: Seq<char>,
)
    requires
        !tenant_a.contains(KEY_SEP),
        !tenant_b.contains(KEY_SEP),
        namespaced(tenant_a, key_a) == namespaced(tenant_b, key_b),
    ensures
        tenant_a == tenant_b,
        key_a == key_b,
{
    let a = namespaced(tenant_a, key_a);
    let b = namespaced(tenant_b, key_b);
    if tenant_a.len() < tenant_b.len() {
        assert(a[tenant_a.len() as int] == KEY_SEP);
        assert(b[tenant_a.len() as int] == tenant_b[tenant_a.len() as int]);
        assert(tenant_b.contains(KEY_SEP));
    } else if tenant_b.len() < tenant_a.len() {
        assert(b[tenant_b.len() as int] == KEY_SEP);
        assert(a[tenant_b.len() as int] == tenant_a[tenant_b.len() as int]);
        assert(tenant_a.contains(KEY_SEP));
    } else {
        assert forall|i: int| 0 <= i < tenant_a.len() implies tenant_a[i] == tenant_b[i] by {
            assert(a[i] == tenant_a[i]);
            assert(b[i] == tenant_b[i]);
        }
        assert(tenant_a =~= tenant_b);
        assert(a.len() == b.len());
        assert forall|i: int| 0 <= i < key_a.len() implies key_a[i] == key_b[i] by {
            assert(a[tenant_a.len() + 1 + i] == key_a[i]);
            assert(b[tenant_b.len() + 1 + i] == key_b[i]);
        }
        assert(key_a =~= key_b);
    }
}

/// A cached value.
pub struct PartitionEntry {
    /// The value.
    pub value: String,
    /// When it was stored.
    pub inserted_at: Instant,
    /// How long it stays alive.
    pub ttl: Duration,
}

impl PartitionEntry {
    /// Whether the entry has outlived its TTL at `now`.
    pub open spec fn expired(self, now: Instant) -> bool {
        clock::elapsed_nanos(self.inserted_at, now) >= self.ttl.nanos
    }

    /// Whether the entry has outlived its TTL at `now`.
    pub fn is_expired_at(&self, now: Instant) -> (r: bool)
        ensures
            r == self.expired(now),
    {
        now.duration_since(self.inserted_at).nanos >= self.ttl.nanos
    }
}

/// Statistics for a single tenant partition.
#[derive(Debug, Clone, Copy, PartialEq, Eq, Structural)]
pub struct PartitionStats {
    /// Number of keys currently alive (non-expired) in this partition.
    pub live_keys: usize,
    /// Cumulative cache hits for this partition since creation.
    pub hits: u64,
    /// Cumulative cache misses for this partition since creation.
    pub misses: u64,
    /// Cumulative evictions (expired entries removed on read) for this partition.
    pub evictions: u64,
}

impl Default for PartitionStats {
    fn default() -> (r: Self)
        ensures
            r == (PartitionStats { live_keys: 0, hits: 0, misses: 0, evictions: 0 }),
    {
        PartitionStats { live_keys: 0, hits: 0, misses: 0, evictions: 0 }
    }
}

impl PartitionStats {
    /// Cache-hit ratio between zero and one. Returns `None` when no accesses
    /// have been recorded yet.
    pub fn hit_ratio(&self) -> (r: Option<Ratio>)
        requires
            self.hits + self.misses <= u64::MAX,
        ensures
            r == if self.hits + self.misses == 0 {
                None
            } else {
                Some(Ratio { num: self.hits, den: (self.hits + self.misses) as u64 })
            },
    {
        let total: u64 = self.hits + self.misses;
        if total == 0 {
            None
        } else {
            Some(Ratio { num: self.hits, den: total })
        }
    }
}

/// What a partition holds.
pub struct PartitionModel {
    /// The entries by key.
    pub data: Map<Seq<char>, PartitionEntry>,
    /// Reads that found a live entry.
    pub hits: u64,
    /// Reads that did not.
    pub misses: u64,
    /// Expired entries removed on read.
    pub evictions: u64,
}

impl PartitionModel {
    /// A partition that was just created.
    pub open spec fn empty() -> PartitionModel {
        PartitionModel { data: Map::empty(), hits: 0, misses: 0, evictions: 0 }
    }

    /// What a read of `key` at `now` returns.
    pub open spec fn read(self, key: Seq<char>, now: Instant) -> Option<Seq<char>> {
        if self.data.contains_key(key) && !self.data[key].expired(now) {
            Some(self.data[key].value@)
        } else {
            None
        }
    }

    /// The partition after a read of `key` at `now`.
    pub open spec fn after_read(self, key: Seq<char>, now: Instant) -> PartitionModel {
        if !self.data.contains_key(key) {
            PartitionModel { misses: cache_metrics::wrapping_sum(self.misses, 1), ..self }
        } else if self.data[key].expired(now) {
            PartitionModel {
                data: self.data.remove(key),
                misses: cache_metrics::wrapping_sum(self.misses, 1),
                evictions: cache_metrics::wrapping_sum(self.evictions, 1),
                ..self
            }
        } else {
            PartitionModel { hits: cache_metrics::wrapping_sum(self.hits, 1), ..self }
        }
    }

    /// The keys whose entries are alive at `now`.
    pub open spec fn live(self, now: Instant) -> Set<Seq<char>> {
        self.data.dom().filter(|k: Seq<char>| !self.data[k].expired(now))
    }

    /// The statistics at `now`.
    pub open spec fn stats(self, now: Instant) -> PartitionStats {
        PartitionStats {
            live_keys: self.live(now).len() as usize,
            hits: self.hits,
            misses: self.misses,
            evictions: self.evictions,
        }
    }
}

/// The partition of one tenant.
pub struct TenantPartition {
    data: StrMap<PartitionEntry>,
    hits: u64,
    misses: u64,
    evictions: u64,
}

impl View for TenantPartition {
    type V = PartitionModel;

    closed spec fn view(&self) -> PartitionModel {
        PartitionModel {
            data: self.data@,
            hits: self.hits,
            misses: self.misses,
            evictions: self.evictions,
        }
    }
}

/// Whether `r` holds the text `want`.
pub open spec fn same_text(r: Option<String>, want: Option<Seq<char>>) -> bool {
    match r {
        Some(s) => want == Some(s@),
        None => want is None,
    }
}

impl TenantPartition {
    fn new() -> (r: Self)
        ensures
            r@ == PartitionModel::empty(),
    {
        TenantPartition { data: StrMap::new(), hits: 0, misses: 0, evictions: 0 }
    }

    /// Insert a value under the given key.
    fn insert_at(&mut self, key: &str, value: String, ttl: Duration, now: Instant)
        ensures
            final(self)@ == (PartitionModel {
                data: old(self)@.data.insert(
                    key@,
                    PartitionEntry { value, inserted_at: now, ttl },
                ),
                ..old(self)@
            }),
    {
        let _old = self.data.insert(
            key.to_owned(),
            PartitionEntry { value, inserted_at: now, ttl },
        );
    }

    /// Get a value. Returns `None` on miss or expiry, and bumps the eviction
    /// counter if the entry was expired.
    fn get_at(&mut self, key: &str, now: Instant) -> (r: Option<String>)
        ensures
            same_text(r, old(self)@.read(key@, now)),
            final(self)@ == old(self)@.after_read(key@, now),
    {
        let mut expired: bool = false;
        match self.data.get(key) {
            Some(entry) => {
                if !entry.is_expired_at(now) {
                    self.hits = self.hits.wrapping_add(1);
                    return Some(entry.value.clone());
                }
                expired = true;
            },
            None => {},
        }
        self.misses = self.misses.wrapping_add(1);
        if expired {
            self.evictions = self.evictions.wrapping_add(1);
            let _old = self.data.remove(key);
        }
        None
    }

    /// Remove a single key from the partition.
    fn remove(&mut self, key: &str)
        ensures
            final(self)@ == (PartitionModel { data: old(self)@.data.remove(key@), ..old(self)@ }),
    {
        let _old = self.data.remove(key);
    }

    /// Remove all entries from the partition.
    fn clear(&mut self)
        ensures
            final(self)@ == (PartitionModel { data: Map::empty(), ..old(self)@ }),
    {
        self.data.clear();
    }

    /// Count the keys that are alive at `now`.
    fn live_key_count_at(&self, now: Instant) -> (r: usize)
        ensures
            r == self@.live(now).len(),
    {
        let n: usize = self.data.len();
        let ghost order = self.data.order();
        let ghost mut seen: Set<Seq<char>> = Set::empty();
        let mut count: usize = 0;
        let mut i: usize = 0;
        while i < n
            invariant
                i <= n,
                count <= i,
                n == order.len(),
                order == self.data.order(),
                order.no_duplicates(),
                seen.finite(),
                count == seen.len(),
                forall|k: Seq<char>| #[trigger]
                    seen.contains(k) <==> exists|j: int|
                        0 <= j < i && order[j] == k && !self.data@[k].expired(now),
            decreases n - i,
        {
            if !self.data.value_at(i).is_expired_at(now) {
                proof {
                    let k = order[i as int];
                    assert(!seen.contains(k));
                    seen = seen.insert(k);
                }
                count += 1;
            }
            i += 1;
        }
        proof {
            assert forall|k: Seq<char>| #[trigger] seen.contains(k) <==> self@.live(now).contains(
                k,
            ) by {
                if self@.live(now).contains(k) {
                    assert(order.contains(k));
                    let j = order.index_of(k);
                    assert(order[j] == k);
                }
                if seen.contains(k) {
                    let j = choose|j: int|
                        0 <= j < n && order[j] == k && !self.data@[k].expired(now);
                    assert(order.contains(order[j]));
                }
            }
            assert(seen =~= self@.live(now));
        }
        count
    }

    fn stats_at(&self, now: Instant) -> (r: PartitionStats)
        ensures
            r == self@.stats(now),
            r.live_keys == self@.live(now).len(),
    {
        PartitionStats {
            live_keys: self.live_key_count_at(now),
            hits: self.hits,
            misses: self.misses,
            evictions: self.evictions,
        }
    }
}

/// The contents of every partition of a map.
pub open spec fn models(map: Map<Seq<char>, TenantPartition>) -> Map<Seq<char>, PartitionModel> {
    Map::new(|k: Seq<char>| map.contains_key(k), |k: Seq<char>| map[k]@)
}

/// What a partitioned cache holds.
#[verifier::ext_equal]
pub struct PartitionedModel {
    /// The partitions by tenant.
    pub partitions: Map<Seq<char>, PartitionModel>,
    /// The TTL of entries stored without one.
    pub default_ttl: Duration,
}

impl PartitionedModel {
    /// The partition of a tenant, empty for one that has none.
    pub open spec fn of(self, tenant_id: Seq<char>) -> PartitionModel {
        if self.partitions.contains_key(tenant_id) {
            self.partitions[tenant_id]
        } else {
            PartitionModel::empty()
        }
    }

    /// The cache with another partition for a tenant.
    pub open spec fn with(self, tenant_id: Seq<char>, p: PartitionModel) -> PartitionedModel {
        PartitionedModel { partitions: self.partitions.insert(tenant_id, p), ..self }
    }

    /// The cache after `value` was stored for a tenant at `now`.
    pub open spec fn stored(
        self,
        tenant_id: Seq<char>,
        key: Seq<char>,
        value: String,
        ttl: Duration,
        now: Instant,
    ) -> PartitionedModel {
        let p = self.of(tenant_id);
        self.with(
            tenant_id,
            PartitionModel {
                data: p.data.insert(key, PartitionEntry { value, inserted_at: now, ttl }),
                ..p
            },
        )
    }

    /// What a tenant reads under `key` at `now`.
    pub open spec fn read(self, tenant_id: Seq<char>, key: Seq<char>, now: Instant) -> Option<
        Seq<char>,
    > {
        self.of(tenant_id).read(key, now)
    }

    /// The cache after a tenant read `key` at `now`.
    pub open spec fn after_read(
        self,
        tenant_id: Seq<char>,
        key: Seq<char>,
        now: Instant,
    ) -> PartitionedModel {
        self.with(tenant_id, self.of(tenant_id).after_read(key, now))
    }

    /// The cache without one key of a tenant.
    pub open spec fn removed(self, tenant_id: Seq<char>, key: Seq<char>) -> PartitionedModel {
        if self.partitions.contains_key(tenant_id) {
            let p = self.partitions[tenant_id];
            self.with(tenant_id, PartitionModel { data: p.data.remove(key), ..p })
        } else {
            self
        }
    }

    /// The cache without the entries of a tenant.
    pub open spec fn cleared(self, tenant_id: Seq<char>) -> PartitionedModel {
        if self.partitions.contains_key(tenant_id) {
            self.with(
                tenant_id,
                PartitionModel { data: Map::empty(), ..self.partitions[tenant_id] },
            )
        } else {
            self
        }
    }

    /// The cache without any entry.
    pub open spec fn all_cleared(self) -> PartitionedModel {
        PartitionedModel {
            partitions: self.partitions.map_values(
                |p: PartitionModel| PartitionModel { data: Map::empty(), ..p },
            ),
            ..self
        }
    }

    /// The statistics of every partition at `now`.
    pub open spec fn all_stats(self, now: Instant) -> Map<Seq<char>, PartitionStats> {
        self.partitions.map_values(|p: PartitionModel| p.stats(now))
    }
}

/// Whether a tenant ID is acceptable: neither empty nor with a separator.
pub open spec fn valid_tenant_id(tenant_id: Seq<char>) -> bool {
    tenant_id.len() > 0 && !tenant_id.contains(KEY_SEP)
}

/// Why a tenant ID is refused.
pub open spec fn tenant_id_refusal(tenant_id: Seq<char>) -> Seq<char> {
    if tenant_id.len() == 0 {
        "tenant_id must not be empty"@
    } else {
        "tenant_id must not contain the separator character ':'"@
    }
}

/// A tenant-partitioned cache.
///
/// Each tenant has a partition of its own, created lazily on its first read
/// or write, which gives strict isolation between tenants.
pub struct PartitionedCache {
    partitions: StrMap<TenantPartition>,
    default_ttl: Duration,
    clock: Clock,
}

impl View for PartitionedCache {
    type V = PartitionedModel;

    closed spec fn view(&self) -> PartitionedModel {
        PartitionedModel { partitions: models(self.partitions@), default_ttl: self.default_ttl }
    }
}

impl Default for PartitionedCache {
    fn default() -> (r: Self)
        ensures
            r@.partitions == Map::<Seq<char>, PartitionModel>::empty(),
            r@.default_ttl.nanos == 300_000_000_000,
    {
        Self::with_default_ttl()
    }
}

impl PartitionedCache {
    /// Create a new cache with the given default TTL.
    pub fn new(default_ttl: Duration) -> (r: Self)
        ensures
            r@ == (PartitionedModel { partitions: Map::empty(), default_ttl }),
    {
        let r = PartitionedCache { partitions: StrMap::new(), default_ttl, clock: Clock::new() };
        assert(models(r.partitions@) =~= Map::<Seq<char>, PartitionModel>::empty());
        r
    }

    /// Create with the default 5-minute TTL.
    pub fn with_default_ttl() -> (r: Self)
        ensures
            r@.partitions == Map::<Seq<char>, PartitionModel>::empty(),
            r@.default_ttl.nanos == 300_000_000_000,
    {
        Self::new(Duration::from_secs(300))
    }

    /// Creates the partition of a tenant that has none.
    fn ensure_partition(&mut self, tenant_id: &str)
        ensures
            final(self)@ == old(self)@.with(tenant_id@, old(self)@.of(tenant_id@)),
            final(self).partitions@.contains_key(tenant_id@),
    {
        if !self.partitions.contains_key(tenant_id) {
            let _old = self.partitions.insert(tenant_id.to_owned(), TenantPartition::new());
        }
        assert(self@ =~= old(self)@.with(tenant_id@, old(self)@.of(tenant_id@)));
    }

    /// Insert a value for the given tenant and key using the default TTL.
    pub fn set(&mut self, tenant_id: &str, key: &str, value: String)
        ensures
            exists|now: Instant|
                final(self)@ == #[trigger] old(self)@.stored(
                    tenant_id@,
                    key@,
                    value,
                    old(self)@.default_ttl,
                    now,
                ),
    {
        let ttl = self.default_ttl;
        self.set_with_ttl(tenant_id, key, value, ttl);
    }

    /// Insert a value with a custom TTL.
    pub fn set_with_ttl(&mut self, tenant_id: &str, key: &str, value: String, ttl: Duration)
        ensures
            exists|now: Instant|
                final(self)@ == #[trigger] old(self)@.stored(tenant_id@, key@, value, ttl, now),
    {
        let now = self.clock.now();
        self.set_at(tenant_id, key, value, ttl, now);
    }

    /// Insert a value with a custom TTL at `now`.
    pub fn set_at(
        &mut self,
        tenant_id: &str,
        key: &str,
        value: String,
        ttl: Duration,
        now: Instant,
    )
        ensures
            final(self)@ == old(self)@.stored(tenant_id@, key@, value, ttl, now),
    {
        self.ensure_partition(tenant_id);
        assert(self@.partitions[tenant_id@] == self.partitions@[tenant_id@]@);
        let ghost mid = self@;
        match self.partitions.get_mut(tenant_id) {
            Some(p) => p.insert_at(key, value, ttl, now),
            None => {},
        }
        assert(self@ =~= mid.with(tenant_id@, self.partitions@[tenant_id@]@));
        assert(self@ =~= old(self)@.stored(tenant_id@, key@, value, ttl, now));
    }

    /// Retrieve a value for the given tenant and key.
    ///
    /// Returns `None` on cache miss or if the entry has expired.
    pub fn get(&mut self, tenant_id: &str, key: &str) -> (r: Option<String>)
        ensures
            exists|now: Instant|
                {
                    &&& same_text(r, #[trigger] old(self)@.read(tenant_id@, key@, now))
                    &&& final(self)@ == old(self)@.after_read(tenant_id@, key@, now)
                },
    {
        let now = self.clock.now();
        self.get_at(tenant_id, key, now)
    }

    /// Retrieve a value for the given tenant and key at `now`.
    pub fn get_at(&mut self, tenant_id: &str, key: &str, now: Instant) -> (r: Option<String>)
        ensures
            same_text(r, old(self)@.read(tenant_id@, key@, now)),
            final(self)@ == old(self)@.after_read(tenant_id@, key@, now),
    {
        self.ensure_partition(tenant_id);
        assert(self@.partitions[tenant_id@] == self.partitions@[tenant_id@]@);
        let ghost mid = self@;
        let r = match self.partitions.get_mut(tenant_id) {
            Some(p) => p.get_at(key, now),
            None => None,
        };
        assert(self@ =~= mid.with(tenant_id@, self.partitions@[tenant_id@]@));
        assert(self@ =~= old(self)@.after_read(tenant_id@, key@, now));
        r
    }

    /// Remove a single key from the given tenant's partition.
    pub fn remove(&mut self, tenant_id: &str, key: &str)
        ensures
            final(self)@ == old(self)@.removed(tenant_id@, key@),
    {
        match self.partitions.get_mut(tenant_id) {
            Some(p) => p.remove(key),
            None => {},
        }
        assert(self@ =~= old(self)@.removed(tenant_id@, key@));
    }

    /// Remove all entries for the given tenant.
    pub fn clear_tenant(&mut self, tenant_id: &str)
        ensures
            final(self)@ == old(self)@.cleared(tenant_id@),
    {
        match self.partitions.get_mut(tenant_id) {
            Some(p) => p.clear(),
            None => {},
        }
        assert(self@ =~= old(self)@.cleared(tenant_id@));
    }

    /// Remove all entries across all tenants.
    pub fn clear_all(&mut self)
        ensures
            final(self)@ == old(self)@.all_cleared(),
    {
        let n: usize = self.partitions.len();
        let ghost order = self.partitions.order();
        let ghost before = models(self.partitions@);
        let mut i: usize = 0;
        while i < n
            invariant
                i <= n,
                n == order.len(),
                order == self.partitions.order(),
                order.no_duplicates(),
                before == old(self)@.partitions,
                self.default_ttl == old(self)@.default_ttl,
                forall|k: Seq<char>| #[trigger] order.contains(k) <==> before.contains_key(k),
                forall|k: Seq<char>| #[trigger]
                    self.partitions@.contains_key(k) <==> before.contains_key(k),
                forall|j: int|
                    0 <= j < i ==> (#[trigger] self.partitions@[order[j]])@ == (PartitionModel {
                        data: Map::empty(),
                        ..before[order[j]]
                    }),
                forall|j: int|
                    i <= j < n ==> (#[trigger] self.partitions@[order[j]])@ == before[order[j]],
            decreases n - i,
        {
            let ghost mid = self.partitions@;
            assert(order.contains(order[i as int]));
            let p = self.partitions.value_at_mut(i);
            p.clear();
            assert forall|j: int| 0 <= j < n && j != i implies #[trigger] self.partitions@[order[j]]
                == mid[order[j]] by {}
            i += 1;
        }
        proof {
            assert forall|k: Seq<char>| before.contains_key(k) implies (
            #[trigger] self.partitions@[k])@ == (PartitionModel { data: Map::empty(), ..before[k] }) by {
                assert(order.contains(k));
                let j = order.index_of(k);
                assert(order[j] == k);
                assert(self.partitions@[order[j]]@ == (PartitionModel {
                    data: Map::empty(),
                    ..before[order[j]]
                }));
            }
            assert(self@ =~= old(self)@.all_cleared());
        }
    }

    /// Verify that `tenant_id` is not empty and does not contain the
    /// key-separator character, which could be used to craft a key that
    /// crosses tenant boundaries.
    ///
    /// Returns `Err` if the tenant ID is invalid.
    pub fn validate_tenant_id(tenant_id: &str) -> (r: Result<(), String>)
        ensures
            match r {
                Ok(_) => valid_tenant_id(tenant_id@),
                Err(e) => !valid_tenant_id(tenant_id@) && e@ == tenant_id_refusal(tenant_id@),
            },
    {
        let chars = chars_of(tenant_id);
        if chars.len() == 0 {
            return Err("tenant_id must not be empty".to_owned());
        }
        let at: usize = position_of(&chars, KEY_SEP, 0);
        proof {
            text::lemma_first_at(chars@, KEY_SEP, 0);
        }
        if at < chars.len() {
            assert(tenant_id@[at as int] == KEY_SEP);
            return Err("tenant_id must not contain the separator character ':'".to_owned());
        }
        Ok(())
    }

    /// Like `set`, but returns `Err` if the tenant ID is invalid.
    pub fn set_safe(&mut self, tenant_id: &str, key: &str, value: String) -> (r: Result<
        (),
        String,
    >)
        ensures
            match r {
                Ok(_) => valid_tenant_id(tenant_id@) && exists|now: Instant|
                    final(self)@ == #[trigger] old(self)@.stored(
                        tenant_id@,
                        key@,
                        value,
                        old(self)@.default_ttl,
                        now,
                    ),
                Err(e) => !valid_tenant_id(tenant_id@) && e@ == tenant_id_refusal(tenant_id@)
                    && *final(self) == *old(self),
            },
    {
        match Self::validate_tenant_id(tenant_id) {
            Ok(_) => {},
            Err(e) => {
                return Err(e);
            },
        }
        self.set(tenant_id, key, value);
        Ok(())
    }

    /// Like `get`, but returns `Err` if the tenant ID is invalid.
    pub fn get_safe(&mut self, tenant_id: &str, key: &str) -> (r: Result<Option<String>, String>)
        ensures
            match r {
                Ok(v) => valid_tenant_id(tenant_id@) && exists|now: Instant|
                    {
                        &&& same_text(v, #[trigger] old(self)@.read(tenant_id@, key@, now))
                        &&& final(self)@ == old(self)@.after_read(tenant_id@, key@, now)
                    },
                Err(e) => !valid_tenant_id(tenant_id@) && e@ == tenant_id_refusal(tenant_id@)
                    && *final(self) == *old(self),
            },
    {
        match Self::validate_tenant_id(tenant_id) {
            Ok(_) => {},
            Err(e) => {
                return Err(e);
            },
        }
        Ok(self.get(tenant_id, key))
    }

    /// Return statistics for a single tenant's partition.
    ///
    /// Returns `None` if the tenant has never accessed the cache.
    pub fn partition_stats(&self, tenant_id: &str) -> (r: Option<PartitionStats>)
        ensures
            r is Some <==> self@.partitions.contains_key(tenant_id@),
            r is Some ==> exists|now: Instant|
                r == Some(#[trigger] self@.partitions[tenant_id@].stats(now)),
    {
        self.partition_stats_at(tenant_id, self.clock.now())
    }

    /// Return statistics for a single tenant's partition at `now`.
    pub fn partition_stats_at(&self, tenant_id: &str, now: Instant) -> (r: Option<PartitionStats>)
        ensures
            r == if self@.partitions.contains_key(tenant_id@) {
                Some(self@.partitions[tenant_id@].stats(now))
            } else {
                None
            },
            r is Some ==> r->0.live_keys == self@.partitions[tenant_id@].live(now).len(),
    {
        match self.partitions.get(tenant_id) {
            Some(p) => Some(p.stats_at(now)),
            None => None,
        }
    }

    /// Return statistics for every tenant that has a partition.
    pub fn all_partition_stats(&self) -> (r: StrMap<PartitionStats>)
        ensures
            exists|now: Instant| r@ == #[trigger] self@.all_stats(now),
    {
        self.all_partition_stats_at(self.clock.now())
    }

    /// Return statistics at `now` for every tenant that has a partition.
    pub fn all_partition_stats_at(&self, now: Instant) -> (r: StrMap<PartitionStats>)
        ensures
            r@ == self@.all_stats(now),
    {
        let n: usize = self.partitions.len();
        let ghost order = self.partitions.order();
        let mut r: StrMap<PartitionStats> = StrMap::new();
        let mut i: usize = 0;
        while i < n
            invariant
                i <= n,
                n == order.len(),
                order == self.partitions.order(),
                forall|k: Seq<char>| #[trigger]
                    r@.contains_key(k) <==> exists|j: int| 0 <= j < i && order[j] == k,
                forall|j: int|
                    0 <= j < i ==> r@[#[trigger] order[j]] == self.partitions@[order[j]]@.stats(
                        now,
                    ),
            decreases n - i,
        {
            let s = self.partitions.value_at(i).stats_at(now);
            let _old = r.insert(self.partitions.key_at(i).clone(), s);
            i += 1;
        }
        proof {
            let want = self@.all_stats(now);
            assert forall|k: Seq<char>| #[trigger] r@.contains_key(k) <==> want.contains_key(k) by {
                if want.contains_key(k) {
                    assert(order.contains(k));
                    let j = order.index_of(k);
                    assert(order[j] == k);
                }
                if r@.contains_key(k) {
                    let j = choose|j: int| 0 <= j < n && order[j] == k;
                    assert(order.contains(order[j]));
                }
            }
            assert forall|k: Seq<char>| #[trigger] r@.contains_key(k) implies r@[k] == want[k] by {
                let j = choose|j: int| 0 <= j < n && order[j] == k;
                assert(r@[order[j]] == self.partitions@[order[j]]@.stats(now));
            }
            assert(r@ =~= want);
        }
        r
    }

    /// Return the number of tenant partitions currently tracked.
    pub fn tenant_count(&self) -> (r: usize)
        ensures
            r == self@.partitions.len(),
    {
        let n: usize = self.partitions.len();
        assert(self@.partitions.dom() =~= self.partitions@.dom());
        n
    }
}

/// A tenant reads back what it stored until the TTL has passed.
pub proof fn law_stored_value_is_read_back(
    c: PartitionedModel,
    tenant_id: Seq<char>,
    key: Seq<char>,
    value: String,
    ttl: Duration,
    stored_at: Instant,
    now: Instant,
)
    ensures
        clock::elapsed_nanos(stored_at, now) < ttl.nanos ==> c.stored(
            tenant_id,
            key,
            value,
            ttl,
            stored_at,
        ).read(tenant_id, key, now) == Some(value@),
        clock::elapsed_nanos(stored_at, now) >= ttl.nanos ==> c.stored(
            tenant_id,
            key,
            value,
            ttl,
            stored_at,
        ).read(tenant_id, key, now) is None,
{
}

/// Nothing that one tenant does changes the partition of another: not a write,
/// not a read, not a removal, not a clearing.
pub proof fn law_tenants_are_isolated(
    c: PartitionedModel,
    tenant_id: Seq<char>,
    other: Seq<char>,
    key: Seq<char>,
    value: String,
    ttl: Duration,
    now: Instant,
)
    requires
        tenant_id != other,
    ensures
        c.stored(tenant_id, key, value, ttl, now).of(other) == c.of(other),
        c.after_read(tenant_id, key, now).of(other) == c.of(other),
        c.removed(tenant_id, key).of(other) == c.of(other),
        c.cleared(tenant_id).of(other) == c.of(other),
{
}

/// After a removal or a clearing a tenant reads nothing.
pub proof fn law_removed_is_a_miss(
    c: PartitionedModel,
    tenant_id: Seq<char>,
    key: Seq<char>,
    now: Instant,
)
    ensures
        c.removed(tenant_id, key).read(tenant_id, key, now) is None,
        c.cleared(tenant_id).read(tenant_id, key, now) is None,
        c.all_cleared().read(tenant_id, key, now) is None,
{
}

/// Every read counts as exactly one hit or one miss, and it is a hit exactly
/// when it returned a value.
pub proof fn law_every_read_is_counted(p: PartitionModel, key: Seq<char>, now: Instant)
    ensures
        p.read(key, now) is Some ==> p.after_read(key, now).hits == cache_metrics::wrapping_sum(
            p.hits,
            1,
        ) && p.after_read(key, now).misses == p.misses,
        p.read(key, now) is None ==> p.after_read(key, now).misses == cache_metrics::wrapping_sum(
            p.misses,
            1,
        ) && p.after_read(key, now).hits == p.hits,
{
}

/// A stored value lives for its TTL from the moment it was stored, and no
/// longer; a read after that clears it and counts an eviction.
pub proof fn law_value_lives_for_its_ttl(p: PartitionModel, key: Seq<char>, now: Instant)
    requires
        p.data.contains_key(key),
        p.data[key].inserted_at.nanos <= now.nanos,
        p.evictions < u64::MAX,
        p.hits < u64::MAX,
        p.misses < u64::MAX,
    ensures
        now.nanos - p.data[key].inserted_at.nanos < p.data[key].ttl.nanos ==> p.read(key, now)
            == Some(p.data[key].value@) && p.after_read(key, now).data == p.data && p.after_read(
            key,
            now,
        ).evictions == p.evictions && p.after_read(key, now).hits == p.hits + 1,
        now.nanos - p.data[key].inserted_at.nanos >= p.data[key].ttl.nanos ==> p.read(key, now)
            is None && !p.after_read(key, now).data.contains_key(key) && p.after_read(
            key,
            now,
        ).evictions == p.evictions + 1 && p.after_read(key, now).misses == p.misses + 1,
        p.live(now).contains(key) <==> now.nanos - p.data[key].inserted_at.nanos
            < p.data[key].ttl.nanos,
{
}

/// The namespaced key of a tenant begins with the tenant and ends with the key,
/// with the separator in between.
pub proof fn law_namespaced_key_holds_both(tenant_id: Seq<char>, key: Seq<char>)
    ensures
        namespaced(tenant_id, key).len() == tenant_id.len() + 1 + key.len(),
        namespaced(tenant_id, key).take(tenant_id.len() as int) == tenant_id,
        namespaced(tenant_id, key)[tenant_id.len() as int] == ':',
        namespaced(tenant_id, key).skip(tenant_id.len() as int + 1) == key,
{
    let n = namespaced(tenant_id, key);
    assert(n.take(tenant_id.len() as int) =~= tenant_id);
    assert(n.skip(tenant_id.len() as int + 1) =~= key);
}

/// A tenant needs a name, and one without the separator.
pub proof fn law_tenant_names(tenant_id: Seq<char>, i: int)
    ensures
        !valid_tenant_id(Seq::<char>::empty()),
        0 <= i < tenant_id.len() && tenant_id[i] == ':' ==> !valid_tenant_id(tenant_id),
        tenant_id.len() > 0 && (forall|j: int|
            0 <= j < tenant_id.len() ==> tenant_id[j] != ':') ==> valid_tenant_id(tenant_id),
        tenant_id_refusal(Seq::<char>::empty()) == "tenant_id must not be empty"@,
{
}

/// Storing a value changes no figure of the tenant, and clearing a tenant keeps
/// its figures.
pub proof fn law_figures_outlive_the_values(
    c: PartitionedModel,
    tenant_id: Seq<char>,
    key: Seq<char>,
    value: String,
    ttl: Duration,
    now: Instant,
)
    ensures
        c.stored(tenant_id, key, value, ttl, now).of(tenant_id).hits == c.of(tenant_id).hits,
        c.stored(tenant_id, key, value, ttl, now).of(tenant_id).misses == c.of(tenant_id).misses,
        c.stored(tenant_id, key, value, ttl, now).of(tenant_id).data[key].inserted_at == now,
        c.stored(tenant_id, key, value, ttl, now).of(tenant_id).data[key].ttl == ttl,
        c.cleared(tenant_id).of(tenant_id).hits == c.of(tenant_id).hits,
        c.cleared(tenant_id).of(tenant_id).misses == c.of(tenant_id).misses,
        c.cleared(tenant_id).of(tenant_id).evictions == c.of(tenant_id).evictions,
        c.all_cleared().of(tenant_id).hits == c.of(tenant_id).hits,
{
}

/// A value that is stored or removed is the only one that changes.
pub proof fn law_other_keys_are_left_alone(
    c: PartitionedModel,
    tenant_id: Seq<char>,
    key: Seq<char>,
    other: Seq<char>,
    value: String,
    ttl: Duration,
    at: Instant,
    now: Instant,
)
    requires
        other != key,
    ensures
        c.stored(tenant_id, key, value, ttl, at).read(tenant_id, other, now) == c.read(
            tenant_id,
            other,
            now,
        ),
        c.removed(tenant_id, key).read(tenant_id, other, now) == c.read(tenant_id, other, now),
        c.after_read(tenant_id, key, at).read(tenant_id, other, now) == c.read(
            tenant_id,
            other,
            now,
        ),
{
}

/// The figures of a tenant: the keys that have not expired and the three
/// counters.
pub proof fn law_figures_of_a_tenant(c: PartitionedModel, tenant_id: Seq<char>, now: Instant)
    requires
        c.partitions.contains_key(tenant_id),
        c.partitions[tenant_id].live(now).len() <= usize::MAX,
    ensures
        c.all_stats(now).contains_key(tenant_id),
        c.all_stats(now)[tenant_id].hits == c.partitions[tenant_id].hits,
        c.all_stats(now)[tenant_id].misses == c.partitions[tenant_id].misses,
        c.all_stats(now)[tenant_id].evictions == c.partitions[tenant_id].evictions,
        c.all_stats(now)[tenant_id].live_keys == c.partitions[tenant_id].live(now).len(),
{
}

/// A result that holds the text that is wanted holds nothing else.
pub proof fn law_text_is_the_wanted_one(r: Option<String>, want: Option<Seq<char>>)
    requires
        same_text(r, want),
    ensures
        r is Some <==> want is Some,
        r is Some ==> r->0@ == want->0,
{
}

} // verus!
