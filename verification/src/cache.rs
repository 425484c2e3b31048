//! In-memory vault cache with expiry, staleness bypass, versioned
//! invalidation and compressed storage of large values.
//!
//! Values are kept in serialised form. Up to three of them are cached per
//! vault: the vault itself, its remaining TTL and its summary.

use crate::cache_metrics;
use crate::clock;
use crate::clock::{Clock, Duration, Instant, NANOS_PER_SEC};
use crate::ratio::Ratio;
use crate::strmap::StrMap;
use vstd::prelude::*;

verus! {

/// Default cache time-to-live: 5 minutes.
pub const TTL_SECS: u64 = 300;

/// Default maximum number of vault entries kept in the cache.
pub const DEFAULT_MAX_ENTRIES: usize = 1_000;

/// Default compression threshold in bytes. Larger serialised values are stored
/// compressed.
pub const DEFAULT_COMPRESSION_THRESHOLD: usize = 1_024;

/// One, as a staleness ratio: ratios are given in parts per million.
pub const FULL_RATIO: u32 = 1_000_000;

/// Default staleness threshold: entries older than this fraction of their TTL
/// are considered stale for bypass purposes (90 %).
pub const DEFAULT_STALENESS_RATIO: u32 = 900_000;

/// Minimum TTL the auto-tuner will shrink to.
pub const MIN_TTL_SECS: u64 = 30;

/// Maximum TTL the auto-tuner will grow to.
pub const MAX_TTL_SECS: u64 = 3_600;

/// Counters collected per cache instance.
#[derive(Debug, Clone, Copy, PartialEq, Eq, Structural)]
pub struct CacheMetrics {
    pub hits: u64,
    pub misses: u64,
    pub evictions: u64,
    pub stale_bypasses: u64,
    pub compressed_entries: u64,
    pub decompressions: u64,
}

/// A counter plus one, wrapping around.
pub open spec fn next(n: u64) -> u64 {
    cache_metrics::wrapping_sum(n, 1)
}

impl CacheMetrics {
    /// Counters that have seen nothing.
    pub open spec fn zero() -> CacheMetrics {
        CacheMetrics {
            hits: 0,
            misses: 0,
            evictions: 0,
            stale_bypasses: 0,
            compressed_entries: 0,
            decompressions: 0,
        }
    }

    /// Requests answered and not answered.
    pub open spec fn requests(self) -> u64 {
        cache_metrics::wrapping_sum(self.hits, self.misses)
    }

    /// Hits as a fraction of all requests: zero when there were none.
    pub open spec fn spec_hit_ratio(self) -> Ratio {
        if self.requests() == 0 {
            Ratio { num: 0, den: 1 }
        } else {
            Ratio { num: self.hits, den: self.requests() }
        }
    }

    /// Hits as a fraction of all requests. Zero when no requests have been
    /// recorded yet.
    pub fn hit_ratio(&self) -> (r: Ratio)
        ensures
            r == self.spec_hit_ratio(),
    {
        let total: u64 = self.hits.wrapping_add(self.misses);
        if total == 0 {
            Ratio { num: 0, den: 1 }
        } else {
            Ratio { num: self.hits, den: total }
        }
    }
}

/// The most bytes that one stored deflate block holds.
pub const MAX_BLOCK: usize = 65_535;

/// One stored deflate block: a header that says whether it is the last, the
/// length and its complement in little-endian order, and the bytes themselves.
pub open spec fn stored_block(last: bool, data: Seq<u8>) -> Seq<u8> {
    let n = data.len();
    let c = 65_535 - n;
    seq![
        if last {
            1u8
        } else {
            0u8
        },
        (n % 256) as u8,
        (n / 256) as u8,
        (c % 256) as u8,
        (c / 256) as u8,
    ] + data
}

/// `data` as a deflate stream of stored blocks.
pub open spec fn deflated(data: Seq<u8>) -> Seq<u8>
    decreases data.len(),
{
    if data.len() <= 65_535 {
        stored_block(true, data)
    } else {
        stored_block(false, data.take(65_535)) + deflated(data.skip(65_535))
    }
}

/// The length that the header of the first block states.
pub open spec fn block_len(s: Seq<u8>) -> int {
    s[1] as int + 256 * s[2]
}

/// Whether `s` begins with a whole stored block.
pub open spec fn has_block(s: Seq<u8>) -> bool {
    &&& s.len() >= 5
    &&& block_len(s) + (s[3] as int + 256 * s[4]) == 65_535
    &&& s.len() >= 5 + block_len(s)
}

/// What a deflate stream of stored blocks holds; `None` when it is malformed.
/// A block with the header zero is followed by another one.
pub open spec fn inflated(s: Seq<u8>) -> Option<Seq<u8>>
    decreases s.len(),
{
    if !has_block(s) {
        None
    } else {
        let head = s.subrange(5, 5 + block_len(s));
        if s[0] != 0 {
            Some(head)
        } else {
            match inflated(s.skip(5 + block_len(s))) {
                Some(rest) => Some(head + rest),
                None => None,
            }
        }
    }
}

/// Decompressing what was compressed gives the data back.
pub proof fn law_compression_round_trip(data: Seq<u8>)
    ensures
        inflated(deflated(data)) == Some(data),
    decreases data.len(),
{
    if data.len() <= 65_535 {
        let s = stored_block(true, data);
        assert(s.subrange(5, 5 + data.len() as int) =~= data);
        assert(block_len(s) == data.len());
    } else {
        let head = data.take(65_535);
        let rest = data.skip(65_535);
        law_compression_round_trip(rest);
        let b = stored_block(false, head);
        let s = b + deflated(rest);
        assert(b.len() == 5 + 65_535);
        assert(s[0] == 0 && s[1] == b[1] && s[2] == b[2] && s[3] == b[3] && s[4] == b[4]);
        assert(block_len(s) == 65_535);
        assert(s.subrange(5, 65_540) =~= head);
        assert(s.skip(65_540) =~= deflated(rest));
        assert(head + rest =~= data);
    }
}

/// Compress `data` with raw deflate, as stored blocks. Returns the compressed
/// bytes.
pub fn compress(data: &[u8]) -> (r: Vec<u8>)
    ensures
        r@ == deflated(data@),
{
    let mut out: Vec<u8> = Vec::new();
    let mut i: usize = 0;
    assert(data@.skip(0) =~= data@);
    while data.len() - i > MAX_BLOCK
        invariant
            i <= data@.len(),
            out@ + deflated(data@.skip(i as int)) == deflated(data@),
        decreases data.len() - i,
    {
        let ghost before = out@;
        let ghost left = data@.skip(i as int);
        push_block(&mut out, false, data, i, i + MAX_BLOCK);
        proof {
            assert(left.take(65_535) =~= data@.subrange(i as int, i + 65_535));
            assert(left.skip(65_535) =~= data@.skip(i + 65_535));
            assert(out@ + deflated(data@.skip(i + 65_535)) =~= before + deflated(left));
        }
        i += MAX_BLOCK;
    }
    let ghost before = out@;
    push_block(&mut out, true, data, i, data.len());
    proof {
        assert(data@.skip(i as int) =~= data@.subrange(i as int, data@.len() as int));
        assert(out@ =~= before + deflated(data@.skip(i as int)));
    }
    out
}

/// Appends `data[from .. to]` as one stored block.
fn push_block(out: &mut Vec<u8>, last: bool, data: &[u8], from: usize, to: usize)
    requires
        from <= to <= data@.len(),
        to - from <= 65_535,
    ensures
        final(out)@ == old(out)@ + stored_block(last, data@.subrange(from as int, to as int)),
{
    let n: usize = to - from;
    let c: usize = MAX_BLOCK - n;
    let ghost start = out@;
    out.push(
        if last {
            1
        } else {
            0
        },
    );
    out.push((n % 256) as u8);
    out.push((n / 256) as u8);
    out.push((c % 256) as u8);
    out.push((c / 256) as u8);
    let ghost header = stored_block(last, data@.subrange(from as int, to as int)).take(5);
    assert(out@ =~= start + header);
    let mut i: usize = from;
    while i < to
        invariant
            from <= i <= to <= data@.len(),
            out@ == start + header + data@.subrange(from as int, i as int),
        decreases to - i,
    {
        out.push(data[i]);
        i += 1;
        assert(out@ =~= start + header + data@.subrange(from as int, i as int));
    }
    assert(out@ =~= start + stored_block(last, data@.subrange(from as int, to as int)));
}

/// Decompress data that was compressed with [`compress`].
///
/// Returns `None` if the data is malformed.
pub fn decompress(data: &[u8]) -> (r: Option<Vec<u8>>)
    ensures
        match r {
            Some(out) => inflated(data@) == Some(out@),
            None => inflated(data@) is None,
        },
{
    let mut out: Vec<u8> = Vec::new();
    let mut i: usize = 0;
    assert(data@.skip(0) =~= data@);
    loop
        invariant
            i <= data@.len(),
            match inflated(data@.skip(i as int)) {
                Some(rest) => inflated(data@) == Some(out@ + rest),
                None => inflated(data@) is None,
            },
        decreases data.len() - i,
    {
        let ghost s = data@.skip(i as int);
        let left: usize = data.len() - i;
        if left < 5 {
            return None;
        }
        let len: usize = data[i + 1] as usize + 256 * data[i + 2] as usize;
        let check: usize = data[i + 3] as usize + 256 * data[i + 4] as usize;
        assert(len == block_len(s));
        if len + check != MAX_BLOCK || left - 5 < len {
            return None;
        }
        let ghost before = out@;
        let mut j: usize = i + 5;
        let end: usize = i + 5 + len;
        while j < end
            invariant
                i + 5 <= j <= end <= data@.len(),
                out@ == before + data@.subrange(i + 5, j as int),
            decreases end - j,
        {
            out.push(data[j]);
            j += 1;
            assert(out@ =~= before + data@.subrange(i + 5, j as int));
        }
        assert(data@.subrange(i + 5, j as int) =~= s.subrange(5, 5 + len as int));
        if data[i] != 0 {
            return Some(out);
        }
        assert(s.skip(5 + len) =~= data@.skip(j as int));
        proof {
            match inflated(s.skip(5 + len)) {
                Some(rest) => {
                    assert(before + (s.subrange(5, 5 + len) + rest) =~= out@ + rest);
                },
                None => {},
            }
        }
        i = j;
    }
}

/// A serialised value, raw or compressed.
pub enum MaybeCompressed {
    Raw(Vec<u8>),
    Compressed(Vec<u8>),
}

/// The bytes of a serialised value, raw or compressed.
pub enum Stored {
    Raw(Seq<u8>),
    Compressed(Seq<u8>),
}

impl View for MaybeCompressed {
    type V = Stored;

    open spec fn view(&self) -> Stored {
        match *self {
            MaybeCompressed::Raw(b) => Stored::Raw(b@),
            MaybeCompressed::Compressed(b) => Stored::Compressed(b@),
        }
    }
}

/// How a serialised value is stored: compressed when larger than the threshold.
pub open spec fn packed(raw: Seq<u8>, threshold: usize) -> Stored {
    if raw.len() > threshold {
        Stored::Compressed(deflated(raw))
    } else {
        Stored::Raw(raw)
    }
}

/// The serialised value that is stored.
pub open spec fn content(s: Stored) -> Option<Seq<u8>> {
    match s {
        Stored::Raw(b) => Some(b),
        Stored::Compressed(b) => inflated(b),
    }
}

/// Storing a value and reading it gives the value back, whatever the
/// threshold.
pub proof fn law_storage_is_transparent(raw: Seq<u8>, threshold: usize)
    ensures
        content(packed(raw, threshold)) == Some(raw),
{
    law_compression_round_trip(raw);
}

impl MaybeCompressed {
    /// Stores a serialised value, compressed when larger than the threshold.
    pub fn encode(raw: Vec<u8>, threshold: usize, metrics: &mut CacheMetrics) -> (r: Self)
        ensures
            r@ == packed(raw@, threshold),
            *final(metrics) == if raw@.len() > threshold {
                CacheMetrics {
                    compressed_entries: next(old(metrics).compressed_entries),
                    ..*old(metrics)
                }
            } else {
                *old(metrics)
            },
    {
        if raw.len() > threshold {
            let compressed = compress(raw.as_slice());
            metrics.compressed_entries = metrics.compressed_entries.wrapping_add(1);
            MaybeCompressed::Compressed(compressed)
        } else {
            MaybeCompressed::Raw(raw)
        }
    }

    /// The serialised value, decompressed if necessary.
    pub fn decode(&self, metrics: &mut CacheMetrics) -> (r: Option<Vec<u8>>)
        ensures
            match r {
                Some(b) => content(self@) == Some(b@),
                None => content(self@) is None,
            },
            *final(metrics) == if self@ is Compressed {
                CacheMetrics {
                    decompressions: next(old(metrics).decompressions),
                    ..*old(metrics)
                }
            } else {
                *old(metrics)
            },
    {
        match self {
            MaybeCompressed::Raw(b) => {
                let copy = b.clone();
                assert(copy@ =~= b@);
                Some(copy)
            },
            MaybeCompressed::Compressed(b) => {
                metrics.decompressions = metrics.decompressions.wrapping_add(1);
                decompress(b.as_slice())
            },
        }
    }

    /// Whether the value is stored compressed.
    pub fn is_compressed(&self) -> (r: bool)
        ensures
            r == (self@ is Compressed),
    {
        match self {
            MaybeCompressed::Raw(_) => false,
            MaybeCompressed::Compressed(_) => true,
        }
    }
}

/// One cached value.
pub struct CacheEntry {
    value: MaybeCompressed,
    inserted_at: Instant,
    ttl: Duration,
    version: u64,
}

/// What there is to know of a cached value.
pub struct EntryModel {
    pub stored: Stored,
    pub inserted_at: Instant,
    pub ttl: Duration,
    /// Token for coherence tracking; later writes have larger ones.
    pub version: u64,
}

impl View for CacheEntry {
    type V = EntryModel;

    closed spec fn view(&self) -> EntryModel {
        EntryModel {
            stored: self.value@,
            inserted_at: self.inserted_at,
            ttl: self.ttl,
            version: self.version,
        }
    }
}

/// How old an entry is at `now`, in nanoseconds.
pub open spec fn age(e: EntryModel, now: Instant) -> nat {
    clock::elapsed_nanos(e.inserted_at, now)
}

/// Whether an entry has outlived its TTL at `now`.
pub open spec fn expired(e: EntryModel, now: Instant) -> bool {
    age(e, now) >= e.ttl.nanos
}

/// The age from which on an entry with this TTL is stale, to the nearest
/// nanosecond.
pub open spec fn stale_age(ttl: Duration, staleness_ratio: u32) -> nat {
    let ratio = if staleness_ratio > 1_000_000 {
        1_000_000
    } else {
        staleness_ratio as int
    };
    ((ttl.nanos * ratio + 500_000) / 1_000_000) as nat
}

/// Whether an entry has consumed the given part of its TTL at `now`.
pub open spec fn stale(e: EntryModel, staleness_ratio: u32, now: Instant) -> bool {
    age(e, now) >= stale_age(e.ttl, staleness_ratio)
}

/// A part of a span, to the nearest nanosecond.
fn stale_nanos(ttl: Duration, staleness_ratio: u32) -> (r: u128)
    ensures
        r == stale_age(ttl, staleness_ratio),
{
    let ratio: u128 = if staleness_ratio > FULL_RATIO {
        FULL_RATIO as u128
    } else {
        staleness_ratio as u128
    };
    let q: u128 = ttl.nanos / 1_000_000;
    let m: u128 = ttl.nanos % 1_000_000;
    proof {
        let n = ttl.nanos as int;
        assert(n == q * 1_000_000 + m);
        assert((q * 1_000_000 + m) * ratio == (q * ratio) * 1_000_000 + m * ratio)
            by (nonlinear_arith);
        let whole = q * ratio;
        let rest = m * ratio;
        assert(rest >= 0) by (nonlinear_arith)
            requires
                rest == m * ratio,
        ;
        assert((whole * 1_000_000 + rest + 500_000) / 1_000_000 == whole + (rest + 500_000)
            / 1_000_000);
        assert(whole <= q * 1_000_000) by (nonlinear_arith)
            requires
                whole == q * ratio,
                ratio <= 1_000_000,
        ;
        assert(rest <= m * 1_000_000) by (nonlinear_arith)
            requires
                rest == m * ratio,
                ratio <= 1_000_000,
        ;
    }
    q * ratio + (m * ratio + 500_000) / 1_000_000
}

impl CacheEntry {
    /// An entry inserted at `now`.
    pub fn new_at(value: MaybeCompressed, ttl: Duration, version: u64, now: Instant) -> (r: Self)
        ensures
            r@ == (EntryModel { stored: value@, inserted_at: now, ttl, version }),
    {
        CacheEntry { value, inserted_at: now, ttl, version }
    }

    /// Whether the entry has outlived its TTL at `now`.
    pub fn is_expired_at(&self, now: Instant) -> (r: bool)
        ensures
            r == expired(self@, now),
    {
        now.duration_since(self.inserted_at).nanos >= self.ttl.nanos
    }

    /// Whether the entry has consumed the given part of its TTL at `now`.
    pub fn is_stale_at(&self, staleness_ratio: u32, now: Instant) -> (r: bool)
        ensures
            r == stale(self@, staleness_ratio, now),
    {
        now.duration_since(self.inserted_at).nanos >= stale_nanos(self.ttl, staleness_ratio)
    }

    /// How old the entry is at `now`.
    pub fn age_at(&self, now: Instant) -> (r: Duration)
        ensures
            r.nanos == age(self@, now),
    {
        now.duration_since(self.inserted_at)
    }
}

/// The three values that can be cached for a vault.
#[derive(Debug, Clone, Copy, PartialEq, Eq, Structural)]
pub enum Slot {
    Vault,
    TtlRemaining,
    Summary,
}

/// What is cached for one vault.
pub struct VaultCacheEntries {
    vault: Option<CacheEntry>,
    ttl_remaining: Option<CacheEntry>,
    summary: Option<CacheEntry>,
}

/// What is cached for one vault.
pub struct EntriesModel {
    pub vault: Option<EntryModel>,
    pub ttl_remaining: Option<EntryModel>,
    pub summary: Option<EntryModel>,
}

/// What there is to know of an optional entry.
pub open spec fn slot_view(e: Option<CacheEntry>) -> Option<EntryModel> {
    match e {
        Some(x) => Some(x@),
        None => None,
    }
}

impl View for VaultCacheEntries {
    type V = EntriesModel;

    closed spec fn view(&self) -> EntriesModel {
        EntriesModel {
            vault: slot_view(self.vault),
            ttl_remaining: slot_view(self.ttl_remaining),
            summary: slot_view(self.summary),
        }
    }
}

impl EntriesModel {
    /// A vault for which nothing is cached.
    pub open spec fn empty() -> EntriesModel {
        EntriesModel { vault: None, ttl_remaining: None, summary: None }
    }

    /// The entry in the given slot.
    pub open spec fn at(self, slot: Slot) -> Option<EntryModel> {
        match slot {
            Slot::Vault => self.vault,
            Slot::TtlRemaining => self.ttl_remaining,
            Slot::Summary => self.summary,
        }
    }

    /// The same with another entry in the given slot.
    pub open spec fn with(self, slot: Slot, e: Option<EntryModel>) -> EntriesModel {
        match slot {
            Slot::Vault => EntriesModel { vault: e, ..self },
            Slot::TtlRemaining => EntriesModel { ttl_remaining: e, ..self },
            Slot::Summary => EntriesModel { summary: e, ..self },
        }
    }

    /// Whether anything is cached for the vault.
    pub open spec fn occupied(self) -> bool {
        self.vault is Some || self.ttl_remaining is Some || self.summary is Some
    }

    /// Whether something that has not expired is cached for the vault.
    pub open spec fn live(self, now: Instant) -> bool {
        ||| self.vault is Some && !expired(self.vault->0, now)
        ||| self.ttl_remaining is Some && !expired(self.ttl_remaining->0, now)
        ||| self.summary is Some && !expired(self.summary->0, now)
    }
}

/// The greater of two optional ages.
pub open spec fn older(a: Option<nat>, b: Option<nat>) -> Option<nat> {
    match (a, b) {
        (Some(x), Some(y)) => if x >= y {
            Some(x)
        } else {
            Some(y)
        },
        (Some(x), None) => Some(x),
        (None, y) => y,
    }
}

/// The age of an optional entry.
pub open spec fn slot_age(e: Option<EntryModel>, now: Instant) -> Option<nat> {
    match e {
        Some(x) => Some(age(x, now)),
        None => None,
    }
}

/// The age of the oldest value cached for a vault.
pub open spec fn oldest_age(e: EntriesModel, now: Instant) -> Option<nat> {
    older(older(slot_age(e.vault, now), slot_age(e.ttl_remaining, now)), slot_age(e.summary, now))
}

/// The greater of an age and that of an optional entry.
fn older_of(a: Option<u128>, e: &Option<CacheEntry>, now: Instant) -> (r: Option<u128>)
    ensures
        (match r {
            Some(x) => Some(x as nat),
            None => None,
        }) == older(
            match a {
                Some(x) => Some(x as nat),
                None => None,
            },
            slot_age(slot_view(*e), now),
        ),
{
    match e {
        Some(x) => {
            let n: u128 = x.age_at(now).nanos;
            match a {
                Some(m) => if m >= n {
                    Some(m)
                } else {
                    Some(n)
                },
                None => Some(n),
            }
        },
        None => a,
    }
}

impl VaultCacheEntries {
    /// A vault for which nothing is cached.
    pub fn new() -> (r: Self)
        ensures
            r@ == EntriesModel::empty(),
    {
        VaultCacheEntries { vault: None, ttl_remaining: None, summary: None }
    }

    /// Whether something that has not expired is cached for the vault.
    pub fn has_live_entry_at(&self, now: Instant) -> (r: bool)
        ensures
            r == self@.live(now),
    {
        let a: bool = match &self.vault {
            Some(e) => !e.is_expired_at(now),
            None => false,
        };
        let b: bool = match &self.ttl_remaining {
            Some(e) => !e.is_expired_at(now),
            None => false,
        };
        let c: bool = match &self.summary {
            Some(e) => !e.is_expired_at(now),
            None => false,
        };
        a || b || c
    }

    /// The age of the oldest value cached for the vault.
    fn oldest_age_at(&self, now: Instant) -> (r: Option<u128>)
        ensures
            (match r {
                Some(x) => Some(x as nat),
                None => None,
            }) == oldest_age(self@, now),
    {
        let a = older_of(None, &self.vault, now);
        let b = older_of(a, &self.ttl_remaining, now);
        older_of(b, &self.summary, now)
    }

    /// The entry in the given slot.
    fn at(&self, slot: Slot) -> (r: &Option<CacheEntry>)
        ensures
            slot_view(*r) == self@.at(slot),
    {
        match slot {
            Slot::Vault => &self.vault,
            Slot::TtlRemaining => &self.ttl_remaining,
            Slot::Summary => &self.summary,
        }
    }

    /// Puts another entry into the given slot.
    fn put(&mut self, slot: Slot, e: Option<CacheEntry>)
        ensures
            final(self)@ == old(self)@.with(slot, slot_view(e)),
    {
        match slot {
            Slot::Vault => {
                self.vault = e;
            },
            Slot::TtlRemaining => {
                self.ttl_remaining = e;
            },
            Slot::Summary => {
                self.summary = e;
            },
        }
    }
}

/// A coherence token identifies a specific version of a cached value across
/// cache instances.
#[derive(Debug, PartialEq, Eq)]
pub struct CoherenceToken {
    pub vault_id: String,
    pub version: u64,
}

impl Clone for CoherenceToken {
    fn clone(&self) -> (r: Self)
        ensures
            r == *self,
    {
        CoherenceToken { vault_id: self.vault_id.clone(), version: self.version }
    }
}

/// Result of a quorum-consistency check.
#[derive(Debug, PartialEq, Eq)]
pub enum QuorumResult {
    /// All queried versions agree.
    Consistent,
    /// At least one version disagreed; the outdated vault IDs are listed.
    Inconsistent(Vec<String>),
}

/// The vault IDs of the tokens whose version is not `version`.
pub open spec fn disagreeing(tokens: Seq<CoherenceToken>, version: u64) -> Seq<Seq<char>>
    decreases tokens.len(),
{
    if tokens.len() == 0 {
        Seq::empty()
    } else if tokens.last().version != version {
        disagreeing(tokens.drop_last(), version).push(tokens.last().vault_id@)
    } else {
        disagreeing(tokens.drop_last(), version)
    }
}

/// Configuration knobs for `VaultCache`.
#[derive(Debug, Clone, Copy, PartialEq, Eq, Structural)]
pub struct CacheConfig {
    /// Base TTL for new entries.
    pub ttl: Duration,
    /// Cap on the number of vaults cached simultaneously.
    pub max_entries: usize,
    /// Compression threshold in bytes.
    pub compression_threshold: usize,
    /// Part of the TTL after which an entry is considered stale, in parts per
    /// million.
    pub staleness_ratio: u32,
}

impl Default for CacheConfig {
    fn default() -> (r: Self)
        ensures
            r.ttl.nanos == 300_000_000_000,
            r.max_entries == 1_000,
            r.compression_threshold == 1_024,
            r.staleness_ratio == 900_000,
    {
        CacheConfig {
            ttl: Duration::from_secs(TTL_SECS),
            max_entries: DEFAULT_MAX_ENTRIES,
            compression_threshold: DEFAULT_COMPRESSION_THRESHOLD,
            staleness_ratio: DEFAULT_STALENESS_RATIO,
        }
    }
}

/// Cache keyed by vault ID.
pub struct VaultCache {
    map: StrMap<VaultCacheEntries>,
    config: CacheConfig,
    metrics: CacheMetrics,
    global_version: u64,
    clock: Clock,
}

/// What there is to know of a cache.
pub struct CacheModel {
    pub entries: Map<Seq<char>, EntriesModel>,
    pub config: CacheConfig,
    pub metrics: CacheMetrics,
    /// The version of the latest write.
    pub global_version: u64,
}

/// What is cached for every vault of a map.
pub open spec fn models(map: Map<Seq<char>, VaultCacheEntries>) -> Map<Seq<char>, EntriesModel> {
    Map::new(|k: Seq<char>| map.contains_key(k), |k: Seq<char>| map[k]@)
}

impl View for VaultCache {
    type V = CacheModel;

    closed spec fn view(&self) -> CacheModel {
        CacheModel {
            entries: models(self.map@),
            config: self.config,
            metrics: self.metrics,
            global_version: self.global_version,
        }
    }
}

/// A cache that holds nothing.
pub open spec fn empty_cache(config: CacheConfig) -> CacheModel {
    CacheModel {
        entries: Map::empty(),
        config,
        metrics: CacheMetrics::zero(),
        global_version: 0,
    }
}

/// What a read finds in a slot.
pub enum Lookup {
    /// Entry present and fresh.
    Hit(Stored),
    /// Entry present but past its TTL.
    Expired,
    /// Entry present but beyond the staleness ratio.
    Stale,
    /// No entry.
    Miss,
}

/// What a read at `now` finds in a slot.
pub open spec fn classify(e: Option<EntryModel>, staleness_ratio: u32, now: Instant) -> Lookup {
    match e {
        None => Lookup::Miss,
        Some(x) => if expired(x, now) {
            Lookup::Expired
        } else if stale(x, staleness_ratio, now) {
            Lookup::Stale
        } else {
            Lookup::Hit(x.stored)
        },
    }
}

impl CacheModel {
    /// What is cached for a vault.
    pub open spec fn of(self, id: Seq<char>) -> EntriesModel {
        if self.entries.contains_key(id) {
            self.entries[id]
        } else {
            EntriesModel::empty()
        }
    }

    /// What a read at `now` finds.
    pub open spec fn find(self, slot: Slot, id: Seq<char>, now: Instant) -> Lookup {
        classify(self.of(id).at(slot), self.config.staleness_ratio, now)
    }

    /// The serialised value that a read at `now` returns.
    pub open spec fn read(self, slot: Slot, id: Seq<char>, now: Instant) -> Option<Seq<u8>> {
        match self.find(slot, id, now) {
            Lookup::Hit(s) => content(s),
            _ => None,
        }
    }

    /// The cache after a read at `now`: the read is counted, and an expired
    /// entry is cleared.
    pub open spec fn after_read(self, slot: Slot, id: Seq<char>, now: Instant) -> CacheModel {
        match self.find(slot, id, now) {
            Lookup::Hit(s) => CacheModel {
                metrics: CacheMetrics {
                    hits: next(self.metrics.hits),
                    decompressions: if s is Compressed {
                        next(self.metrics.decompressions)
                    } else {
                        self.metrics.decompressions
                    },
                    ..self.metrics
                },
                ..self
            },
            Lookup::Stale => CacheModel {
                metrics: CacheMetrics {
                    stale_bypasses: next(self.metrics.stale_bypasses),
                    misses: next(self.metrics.misses),
                    ..self.metrics
                },
                ..self
            },
            Lookup::Expired => CacheModel {
                entries: self.entries.insert(id, self.of(id).with(slot, None)),
                metrics: CacheMetrics { misses: next(self.metrics.misses), ..self.metrics },
                ..self
            },
            Lookup::Miss => CacheModel {
                metrics: CacheMetrics { misses: next(self.metrics.misses), ..self.metrics },
                ..self
            },
        }
    }

    /// Whether `id` has the oldest value of all vaults at `now`.
    pub open spec fn is_oldest(self, id: Seq<char>, now: Instant) -> bool {
        &&& self.entries.contains_key(id)
        &&& oldest_age(self.entries[id], now) is Some
        &&& forall|other: Seq<char>| #[trigger]
            self.entries.contains_key(other) && oldest_age(self.entries[other], now) is Some
                ==> oldest_age(self.entries[other], now)->0 <= oldest_age(self.entries[id], now)->0
    }

    /// The cache without the vault `id`, which was evicted.
    pub open spec fn without_evicted(self, id: Seq<char>) -> CacheModel {
        CacheModel {
            entries: self.entries.remove(id),
            metrics: CacheMetrics { evictions: next(self.metrics.evictions), ..self.metrics },
            ..self
        }
    }

    /// Whether `after` is what making room at `now` leaves: a cache at
    /// capacity loses a vault with the oldest value, where any has a value.
    pub open spec fn made_room(self, after: CacheModel, now: Instant) -> bool {
        if self.entries.dom().len() < self.config.max_entries || forall|id: Seq<char>| #[trigger]
            self.entries.contains_key(id) ==> oldest_age(self.entries[id], now) is None {
            after == self
        } else {
            exists|id: Seq<char>| #[trigger]
                self.is_oldest(id, now) && after == self.without_evicted(id)
        }
    }

    /// The cache with a value written at `now`. Where the cap is zero the write is
    /// counted and nothing is kept.
    pub open spec fn written(
        self,
        slot: Slot,
        id: Seq<char>,
        raw: Seq<u8>,
        now: Instant,
    ) -> CacheModel {
        let entry = EntryModel {
            stored: packed(raw, self.config.compression_threshold),
            inserted_at: now,
            ttl: self.config.ttl,
            version: next(self.global_version),
        };
        if self.config.max_entries == 0 {
            CacheModel { global_version: next(self.global_version), ..self }
        } else {
            CacheModel {
                entries: self.entries.insert(id, self.of(id).with(slot, Some(entry))),
                metrics: CacheMetrics {
                    compressed_entries: if raw.len() > self.config.compression_threshold {
                        next(self.metrics.compressed_entries)
                    } else {
                        self.metrics.compressed_entries
                    },
                    ..self.metrics
                },
                global_version: next(self.global_version),
                ..self
            }
        }
    }

    /// Whether `after` is what writing a value at `now` leaves.
    pub open spec fn after_write(
        self,
        after: CacheModel,
        slot: Slot,
        id: Seq<char>,
        raw: Seq<u8>,
        now: Instant,
    ) -> bool {
        exists|room: CacheModel| #[trigger]
            self.made_room(room, now) && after == room.written(slot, id, raw, now)
    }

    /// The version of the cached vault, zero where there is none.
    pub open spec fn version(self, id: Seq<char>) -> u64 {
        match self.of(id).vault {
            Some(e) => e.version,
            None => 0,
        }
    }

    /// The cache without a vault.
    pub open spec fn invalidated(self, id: Seq<char>) -> CacheModel {
        CacheModel { entries: self.entries.remove(id), ..self }
    }

    /// The vaults with something that has not expired at `now`.
    pub open spec fn live_ids(self, now: Instant) -> Set<Seq<char>> {
        self.entries.dom().filter(|id: Seq<char>| self.entries[id].live(now))
    }

    /// The TTL in seconds after tuning: a fifth longer from four hits in five
    /// requests on, a fifth shorter below one hit in two, within bounds.
    pub open spec fn tuned_secs(self) -> nat {
        let secs = (self.config.ttl.nanos / 1_000_000_000) as nat;
        let r = self.metrics.spec_hit_ratio();
        if 5 * r.num >= 4 * r.den {
            let grown = secs + secs / 5;
            if grown > 3_600 {
                3_600
            } else {
                grown
            }
        } else if 2 * r.num < r.den {
            let shrunk = (secs - secs / 5) as nat;
            if shrunk < 30 {
                30
            } else {
                shrunk
            }
        } else {
            secs
        }
    }
}

/// Whether a result holds exactly the given bytes.
pub open spec fn same_bytes(r: Option<Vec<u8>>, want: Option<Seq<u8>>) -> bool {
    match r {
        Some(b) => want == Some(b@),
        None => want is None,
    }
}

impl VaultCache {
    /// Create a new cache with default configuration.
    pub fn new() -> (r: Self)
        ensures
            r@ == empty_cache(r@.config),
            r@.config.ttl.nanos == 300_000_000_000,
            r@.config.max_entries == 1_000,
            r@.config.compression_threshold == 1_024,
            r@.config.staleness_ratio == 900_000,
    {
        Self::with_config(CacheConfig::default())
    }

    /// Create a cache with a custom TTL.
    pub fn with_ttl(ttl: Duration) -> (r: Self)
        ensures
            r@ == empty_cache(r@.config),
            r@.config.ttl == ttl,
            r@.config.max_entries == 1_000,
            r@.config.compression_threshold == 1_024,
            r@.config.staleness_ratio == 900_000,
    {
        let mut config = CacheConfig::default();
        config.ttl = ttl;
        Self::with_config(config)
    }

    /// Create a cache with full configuration control.
    pub fn with_config(config: CacheConfig) -> (r: Self)
        ensures
            r@ == empty_cache(config),
    {
        let r = VaultCache {
            map: StrMap::new(),
            config,
            metrics: CacheMetrics {
                hits: 0,
                misses: 0,
                evictions: 0,
                stale_bypasses: 0,
                compressed_entries: 0,
                decompressions: 0,
            },
            global_version: 0,
            clock: Clock::new(),
        };
        assert(models(r.map@) =~= Map::<Seq<char>, EntriesModel>::empty());
        r
    }

    /// A reading of the cache's clock. Nothing is known of it.
    pub fn now(&self) -> Instant {
        self.clock.now()
    }

    /// Snapshot of current hit/miss and other metrics.
    pub fn metrics(&self) -> (r: CacheMetrics)
        ensures
            r == self@.metrics,
    {
        self.metrics
    }

    /// Read-only view of the current configuration.
    pub fn config(&self) -> (r: CacheConfig)
        ensures
            r == self@.config,
    {
        self.config
    }

    /// Adjust the cache TTL based on the current hit ratio.
    ///
    /// - Hit ratio of at least 0.8: grow TTL by 20 % (up to `MAX_TTL_SECS`).
    /// - Hit ratio below 0.5: shrink TTL by 20 % (down to `MIN_TTL_SECS`).
    /// - Otherwise: no change.
    ///
    /// Returns the new TTL after tuning, in whole seconds.
    pub fn auto_tune(&mut self) -> (r: Duration)
        ensures
            r.nanos == old(self)@.tuned_secs() * 1_000_000_000,
            final(self)@ == (CacheModel {
                config: CacheConfig { ttl: r, ..old(self)@.config },
                ..old(self)@
            }),
    {
        let ratio = self.metrics.hit_ratio();
        let secs: u128 = self.config.ttl.nanos / NANOS_PER_SEC;
        let new_secs: u128 = if 5 * ratio.num as u128 >= 4 * ratio.den as u128 {
            let grown: u128 = secs + secs / 5;
            if grown > MAX_TTL_SECS as u128 {
                MAX_TTL_SECS as u128
            } else {
                grown
            }
        } else if 2 * (ratio.num as u128) < ratio.den as u128 {
            let shrunk: u128 = secs - secs / 5;
            if shrunk < MIN_TTL_SECS as u128 {
                MIN_TTL_SECS as u128
            } else {
                shrunk
            }
        } else {
            secs
        };
        self.config.ttl = Duration { nanos: new_secs * NANOS_PER_SEC };
        self.config.ttl
    }

    /// Return the cached value in a slot of `vault_id` at `now`, if present
    /// and neither expired nor bypassed due to staleness.
    pub fn get_at(&mut self, slot: Slot, vault_id: &str, now: Instant) -> (r: Option<Vec<u8>>)
        ensures
            same_bytes(r, old(self)@.read(slot, vault_id@, now)),
            final(self)@ == old(self)@.after_read(slot, vault_id@, now),
    {
        let ratio: u32 = self.config.staleness_ratio;
        let ghost before = self@;
        let mut clear: bool = false;
        match self.map.get(vault_id) {
            Some(entries) => match entries.at(slot) {
                Some(entry) => if entry.is_expired_at(now) {
                    clear = true;
                } else if entry.is_stale_at(ratio, now) {
                    self.metrics.stale_bypasses = self.metrics.stale_bypasses.wrapping_add(1);
                    self.metrics.misses = self.metrics.misses.wrapping_add(1);
                    return None;
                } else {
                    self.metrics.hits = self.metrics.hits.wrapping_add(1);
                    return entry.value.decode(&mut self.metrics);
                },
                None => {},
            },
            None => {},
        }
        self.metrics.misses = self.metrics.misses.wrapping_add(1);
        if clear {
            let ghost map0 = self.map@;
            match self.map.get_mut(vault_id) {
                Some(entries) => {
                    entries.put(slot, None);
                },
                None => {},
            }
            assert(models(self.map@) =~= models(map0).insert(
                vault_id@,
                map0[vault_id@]@.with(slot, None),
            ));
        }
        None
    }

    /// Insert or update the value in a slot of `vault_id` at `now`. Nothing is
    /// kept where the cap on entries is zero.
    pub fn set_at(&mut self, slot: Slot, vault_id: &str, encoded: Vec<u8>, now: Instant)
        ensures
            old(self)@.after_write(final(self)@, slot, vault_id@, encoded@, now),
    {
        let ghost before = self@;
        self.evict_if_needed_at(now);
        let ghost room = self@;
        let ttl = self.config.ttl;
        let threshold: usize = self.config.compression_threshold;
        let version: u64 = self.global_version.wrapping_add(1);
        self.global_version = version;
        let ghost raw = encoded@;
        if self.config.max_entries == 0 {
            proof {
                assert(before.made_room(room, now));
                assert(self@ == room.written(slot, vault_id@, raw, now));
            }
            return;
        }
        let value = MaybeCompressed::encode(encoded, threshold, &mut self.metrics);
        let entry = CacheEntry::new_at(value, ttl, version, now);
        let ghost map0 = self.map@;
        let ghost put = entry@;
        if self.map.contains_key(vault_id) {
            match self.map.get_mut(vault_id) {
                Some(entries) => {
                    entries.put(slot, Some(entry));
                },
                None => {},
            }
        } else {
            let mut entries = VaultCacheEntries::new();
            entries.put(slot, Some(entry));
            let _none = self.map.insert(vault_id.to_owned(), entries);
        }
        proof {
            assert(models(self.map@) =~= models(map0).insert(
                vault_id@,
                room.of(vault_id@).with(slot, Some(put)),
            ));
            assert(before.made_room(room, now));
            assert(self@ == room.written(slot, vault_id@, raw, now));
        }
    }

    /// Evict a vault with the oldest value when the map is at capacity.
    pub fn evict_if_needed_at(&mut self, now: Instant)
        ensures
            old(self)@.made_room(final(self)@, now),
    {
        let n: usize = self.map.len();
        let ghost start = self@;
        assert(start.entries.dom() =~= self.map@.dom());
        if n < self.config.max_entries {
            return;
        }
        let mut best: Option<(usize, u128)> = None;
        let mut i: usize = 0;
        while i < n
            invariant
                i <= n,
                n == self.map.order().len(),
                start == self@,
                match best {
                    None => forall|j: int|
                        0 <= j < i ==> oldest_age(
                            self.map@[#[trigger] self.map.order()[j]]@,
                            now,
                        ) is None,
                    Some((k, a)) => {
                        &&& k < i
                        &&& oldest_age(self.map@[self.map.order()[k as int]]@, now) == Some(
                            a as nat,
                        )
                        &&& forall|j: int|
                            0 <= j < i && oldest_age(
                                self.map@[#[trigger] self.map.order()[j]]@,
                                now,
                            ) is Some ==> oldest_age(self.map@[self.map.order()[j]]@, now)->0 <= a
                    },
                },
            decreases n - i,
        {
            match self.map.value_at(i).oldest_age_at(now) {
                Some(a) => {
                    let better: bool = match best {
                        None => true,
                        Some((_, b)) => a >= b,
                    };
                    if better {
                        best = Some((i, a));
                    }
                },
                None => {},
            }
            i += 1;
        }
        let ghost order = self.map.order();
        let ghost map0 = self.map@;
        proof {
            assert forall|id: Seq<char>| #[trigger] start.entries.contains_key(id) implies exists|j: int|
                0 <= j < n && order[j] == id by {
                assert(order.contains(id));
            }
        }
        match best {
            Some((k, a)) => {
                let ghost gone = order[k as int];
                let _removed = self.map.remove_at(k);
                self.metrics.evictions = self.metrics.evictions.wrapping_add(1);
                proof {
                    assert(order.contains(gone));
                    assert(start.is_oldest(gone, now));
                    assert(models(self.map@) =~= models(map0).remove(gone));
                    assert(self@ == start.without_evicted(gone));
                }
            },
            None => {},
        }
    }

    /// Return the cached vault for `vault_id`, if present, not expired and not
    /// bypassed due to staleness.
    pub fn get_vault(&mut self, vault_id: &str) -> (r: Option<Vec<u8>>)
        ensures
            exists|now: Instant| #[trigger]
                same_bytes(r, old(self)@.read(Slot::Vault, vault_id@, now)) && final(self)@ == old(
                    self,
                )@.after_read(Slot::Vault, vault_id@, now),
    {
        let now = self.clock.now();
        let ghost before = self@;
        let r = self.get_at(Slot::Vault, vault_id, now);
        assert(same_bytes(r, before.read(Slot::Vault, vault_id@, now)));
        r
    }

    /// Insert or update the cached vault for `vault_id`.
    pub fn set_vault(&mut self, vault_id: &str, encoded: Vec<u8>)
        ensures
            exists|now: Instant| #[trigger]
                old(self)@.after_write(final(self)@, Slot::Vault, vault_id@, encoded@, now),
    {
        let now = self.clock.now();
        self.set_at(Slot::Vault, vault_id, encoded, now);
    }

    /// Return the cached TTL-remaining value for `vault_id`, if present, not
    /// expired and not bypassed due to staleness.
    pub fn get_ttl_remaining(&mut self, vault_id: &str) -> (r: Option<Vec<u8>>)
        ensures
            exists|now: Instant| #[trigger]
                same_bytes(r, old(self)@.read(Slot::TtlRemaining, vault_id@, now)) && final(self)@
                    == old(self)@.after_read(Slot::TtlRemaining, vault_id@, now),
    {
        let now = self.clock.now();
        let ghost before = self@;
        let r = self.get_at(Slot::TtlRemaining, vault_id, now);
        assert(same_bytes(r, before.read(Slot::TtlRemaining, vault_id@, now)));
        r
    }

    /// Insert or update the cached TTL-remaining value for `vault_id`.
    pub fn set_ttl_remaining(&mut self, vault_id: &str, encoded: Vec<u8>)
        ensures
            exists|now: Instant| #[trigger]
                old(self)@.after_write(final(self)@, Slot::TtlRemaining, vault_id@, encoded@, now),
    {
        let now = self.clock.now();
        self.set_at(Slot::TtlRemaining, vault_id, encoded, now);
    }

    /// Return the cached summary for `vault_id`, if present, not expired and
    /// not bypassed due to staleness.
    pub fn get_vault_summary(&mut self, vault_id: &str) -> (r: Option<Vec<u8>>)
        ensures
            exists|now: Instant| #[trigger]
                same_bytes(r, old(self)@.read(Slot::Summary, vault_id@, now)) && final(self)@
                    == old(self)@.after_read(Slot::Summary, vault_id@, now),
    {
        let now = self.clock.now();
        let ghost before = self@;
        let r = self.get_at(Slot::Summary, vault_id, now);
        assert(same_bytes(r, before.read(Slot::Summary, vault_id@, now)));
        r
    }

    /// Insert or update the cached summary for `vault_id`.
    pub fn set_vault_summary(&mut self, vault_id: &str, encoded: Vec<u8>)
        ensures
            exists|now: Instant| #[trigger]
                old(self)@.after_write(final(self)@, Slot::Summary, vault_id@, encoded@, now),
    {
        let now = self.clock.now();
        self.set_at(Slot::Summary, vault_id, encoded, now);
    }

    /// Remove all cached entries for `vault_id`.
    pub fn invalidate(&mut self, vault_id: &str)
        ensures
            final(self)@ == old(self)@.invalidated(vault_id@),
    {
        let ghost map0 = self.map@;
        let _removed = self.map.remove(vault_id);
        assert(models(self.map@) =~= models(map0).remove(vault_id@));
    }

    /// Remove all entries from the cache.
    pub fn invalidate_all(&mut self)
        ensures
            final(self)@ == (CacheModel { entries: Map::empty(), ..old(self)@ }),
    {
        self.map.clear();
        assert(models(self.map@) =~= Map::<Seq<char>, EntriesModel>::empty());
    }

    /// Return how many vault IDs currently have at least one live entry.
    pub fn live_entry_count(&self) -> (r: usize)
        ensures
            exists|now: Instant| r == #[trigger] self@.live_ids(now).len(),
    {
        self.live_entry_count_at(self.clock.now())
    }

    /// Return how many vault IDs have at least one live entry at `now`.
    pub fn live_entry_count_at(&self, now: Instant) -> (r: usize)
        ensures
            r == self@.live_ids(now).len(),
    {
        let n: usize = self.map.len();
        let ghost order = self.map.order();
        let ghost mut seen: Set<Seq<char>> = Set::empty();
        let mut count: usize = 0;
        let mut i: usize = 0;
        while i < n
            invariant
                i <= n,
                count <= i,
                n == order.len(),
                order == self.map.order(),
                order.no_duplicates(),
                seen.finite(),
                count == seen.len(),
                forall|id: Seq<char>| #[trigger]
                    seen.contains(id) <==> exists|j: int|
                        0 <= j < i && order[j] == id && self.map@[id]@.live(now),
            decreases n - i,
        {
            if self.map.value_at(i).has_live_entry_at(now) {
                proof {
                    let id = order[i as int];
                    assert(!seen.contains(id));
                    seen = seen.insert(id);
                }
                count += 1;
            }
            i += 1;
        }
        proof {
            assert forall|id: Seq<char>| #[trigger] seen.contains(id) <==> self@.live_ids(
                now,
            ).contains(id) by {
                if self@.live_ids(now).contains(id) {
                    assert(order.contains(id));
                    let j = order.index_of(id);
                    assert(order[j] == id);
                }
                if seen.contains(id) {
                    let j = choose|j: int| 0 <= j < n && order[j] == id && self.map@[id]@.live(now);
                    assert(order.contains(order[j]));
                }
            }
            assert(seen =~= self@.live_ids(now));
        }
        count
    }

    /// Return the coherence token for a cached vault, if present.
    pub fn get_coherence_token(&self, vault_id: &str) -> (r: Option<CoherenceToken>)
        ensures
            match r {
                Some(t) => self@.of(vault_id@).vault is Some && t.vault_id@ == vault_id@
                    && t.version == self@.version(vault_id@),
                None => self@.of(vault_id@).vault is None,
            },
    {
        match self.map.get(vault_id) {
            Some(entries) => match &entries.vault {
                Some(e) => Some(
                    CoherenceToken { vault_id: vault_id.to_owned(), version: e.version },
                ),
                None => None,
            },
            None => None,
        }
    }

    /// Invalidate `vault_id` only if the local version is older than or equal
    /// to `remote_version`.
    ///
    /// Returns `true` if an invalidation occurred, `false` otherwise.
    pub fn invalidate_if_older(&mut self, vault_id: &str, remote_version: u64) -> (r: bool)
        ensures
            r == (old(self)@.entries.contains_key(vault_id@) && old(self)@.version(vault_id@)
                <= remote_version),
            final(self)@ == if r {
                old(self)@.invalidated(vault_id@)
            } else {
                old(self)@
            },
    {
        let older: bool = match self.map.get(vault_id) {
            Some(entries) => {
                let local: u64 = match &entries.vault {
                    Some(e) => e.version,
                    None => 0,
                };
                local <= remote_version
            },
            None => false,
        };
        if older {
            self.invalidate(vault_id);
        }
        older
    }

    /// Check consistency of `vault_id` against a set of remote tokens.
    ///
    /// Returns `QuorumResult::Consistent` if all tokens agree with the local
    /// version, or `QuorumResult::Inconsistent(vault_ids)` listing the vault
    /// IDs that disagreed.
    pub fn verify_quorum(&self, vault_id: &str, remote_tokens: &[CoherenceToken]) -> (r:
        QuorumResult)
        ensures
            match r {
                QuorumResult::Consistent => disagreeing(
                    remote_tokens@,
                    self@.version(vault_id@),
                ).len() == 0,
                QuorumResult::Inconsistent(ids) => ids@.len() > 0 && crate::text::texts(ids@)
                    == disagreeing(remote_tokens@, self@.version(vault_id@)),
            },
    {
        let local: u64 = match self.map.get(vault_id) {
            Some(entries) => match &entries.vault {
                Some(e) => e.version,
                None => 0,
            },
            None => 0,
        };
        let mut ids: Vec<String> = Vec::new();
        let mut i: usize = 0;
        assert(crate::text::texts(ids@) =~= disagreeing(remote_tokens@.take(0), local));
        while i < remote_tokens.len()
            invariant
                i <= remote_tokens@.len(),
                crate::text::texts(ids@) == disagreeing(remote_tokens@.take(i as int), local),
            decreases remote_tokens.len() - i,
        {
            assert(remote_tokens@.take(i + 1).drop_last() =~= remote_tokens@.take(i as int));
            if remote_tokens[i].version != local {
                let ghost before = crate::text::texts(ids@);
                let id = remote_tokens[i].vault_id.clone();
                ids.push(id);
                assert(crate::text::texts(ids@) =~= before.push(id@));
            }
            i += 1;
        }
        assert(remote_tokens@.take(i as int) =~= remote_tokens@);
        if ids.len() == 0 {
            QuorumResult::Consistent
        } else {
            QuorumResult::Inconsistent(ids)
        }
    }

    /// Return whether the cached vault entry for `vault_id` is currently stale
    /// (i.e. past the configured staleness ratio but not yet expired).
    ///
    /// Returns `false` if the entry is absent or already expired.
    pub fn is_stale(&self, vault_id: &str) -> (r: bool)
        ensures
            exists|now: Instant| r == #[trigger]
                self@.find(Slot::Vault, vault_id@, now) is Stale,
    {
        self.is_stale_at(vault_id, self.clock.now())
    }

    /// Return whether the cached vault entry for `vault_id` is stale at `now`.
    pub fn is_stale_at(&self, vault_id: &str, now: Instant) -> (r: bool)
        ensures
            r == (self@.find(Slot::Vault, vault_id@, now) is Stale),
    {
        match self.map.get(vault_id) {
            Some(entries) => match &entries.vault {
                Some(e) => !e.is_expired_at(now) && e.is_stale_at(
                    self.config.staleness_ratio,
                    now,
                ),
                None => false,
            },
            None => false,
        }
    }

    /// Force the cache to bypass the next read for `vault_id` by evicting all
    /// its entries.
    pub fn force_bypass(&mut self, vault_id: &str)
        ensures
            final(self)@ == old(self)@.invalidated(vault_id@),
    {
        self.invalidate(vault_id);
    }

    /// Update the staleness ratio at runtime, in parts per million. Values
    /// above one are clamped.
    pub fn set_staleness_ratio(&mut self, ratio: u32)
        ensures
            final(self)@ == (CacheModel {
                config: CacheConfig {
                    staleness_ratio: if ratio > 1_000_000 {
                        1_000_000
                    } else {
                        ratio
                    },
                    ..old(self)@.config
                },
                ..old(self)@
            }),
    {
        self.config.staleness_ratio = if ratio > FULL_RATIO {
            FULL_RATIO
        } else {
            ratio
        };
    }

    /// Return whether the vault entry for `vault_id` is currently stored
    /// compressed.
    pub fn is_vault_compressed(&self, vault_id: &str) -> (r: bool)
        ensures
            r == match self@.of(vault_id@).vault {
                Some(e) => e.stored is Compressed,
                None => false,
            },
    {
        match self.map.get(vault_id) {
            Some(entries) => match &entries.vault {
                Some(e) => e.value.is_compressed(),
                None => false,
            },
            None => false,
        }
    }

    /// Update the compression threshold at runtime. Values already stored are
    /// not re-encoded; the new threshold applies to subsequent writes.
    pub fn set_compression_threshold(&mut self, threshold: usize)
        ensures
            final(self)@ == (CacheModel {
                config: CacheConfig { compression_threshold: threshold, ..old(self)@.config },
                ..old(self)@
            }),
    {
        self.config.compression_threshold = threshold;
    }
}

impl Default for VaultCache {
    fn default() -> (r: Self)
        ensures
            r@ == empty_cache(r@.config),
            r@.config.ttl.nanos == 300_000_000_000,
            r@.config.max_entries == 1_000,
            r@.config.compression_threshold == 1_024,
            r@.config.staleness_ratio == 900_000,
    {
        Self::new()
    }
}

/// A value that was written to a cache with room for one is read back, as long
/// as it has neither expired nor become stale; afterwards the read is a miss.
pub proof fn law_write_then_read(
    c: CacheModel,
    after: CacheModel,
    slot: Slot,
    id: Seq<char>,
    raw: Seq<u8>,
    at: Instant,
    now: Instant,
)
    requires
        c.config.max_entries > 0,
        c.after_write(after, slot, id, raw, at),
    ensures
        clock::elapsed_nanos(at, now) < c.config.ttl.nanos && clock::elapsed_nanos(at, now)
            < stale_age(c.config.ttl, c.config.staleness_ratio) ==> after.read(slot, id, now)
            == Some(raw),
        clock::elapsed_nanos(at, now) >= c.config.ttl.nanos || clock::elapsed_nanos(at, now)
            >= stale_age(c.config.ttl, c.config.staleness_ratio) ==> after.read(slot, id, now)
            is None,
{
    law_storage_is_transparent(raw, c.config.compression_threshold);
}

/// Once a vault is invalidated, nothing of it is read until it is written
/// again, and the other vaults are as they were.
pub proof fn law_invalidated_is_a_miss(
    c: CacheModel,
    id: Seq<char>,
    slot: Slot,
    other: Seq<char>,
    now: Instant,
)
    ensures
        c.invalidated(id).read(slot, id, now) is None,
        other != id ==> c.invalidated(id).read(slot, other, now) == c.read(slot, other, now),
{
}

/// A read of one value changes no other value.
pub proof fn law_reads_do_not_interfere(
    c: CacheModel,
    slot: Slot,
    id: Seq<char>,
    slot2: Slot,
    id2: Seq<char>,
    now: Instant,
    later: Instant,
)
    requires
        slot != slot2 || id != id2,
    ensures
        c.after_read(slot, id, now).read(slot2, id2, later) == c.read(slot2, id2, later),
{
}

/// Whether two caches hold the same for every vault but `id` and `gone`.
pub open spec fn same_elsewhere(
    c: CacheModel,
    after: CacheModel,
    id: Seq<char>,
    gone: Seq<char>,
) -> bool {
    forall|other: Seq<char>| other != id && other != gone ==> #[trigger] after.of(other) == c.of(other)
}

/// A write changes the values of no other vault, save one that it evicts.
pub proof fn law_writes_do_not_interfere(
    c: CacheModel,
    after: CacheModel,
    slot: Slot,
    id: Seq<char>,
    raw: Seq<u8>,
    at: Instant,
)
    requires
        c.after_write(after, slot, id, raw, at),
    ensures
        exists|gone: Seq<char>| #[trigger] same_elsewhere(c, after, id, gone),
{
    let room = choose|room: CacheModel| #[trigger]
        c.made_room(room, at) && after == room.written(slot, id, raw, at);
    if room == c {
        assert(same_elsewhere(c, after, id, id));
    } else {
        let gone = choose|gone: Seq<char>| #[trigger]
            c.is_oldest(gone, at) && room == c.without_evicted(gone);
        assert(same_elsewhere(c, after, id, gone));
    }
}

/// The vaults for which something is cached.
pub open spec fn occupied_ids(c: CacheModel) -> Set<Seq<char>> {
    c.entries.dom().filter(|id: Seq<char>| c.entries[id].occupied())
}

/// Whether the cache keeps to its cap: no more vaults than configured have
/// something cached.
pub open spec fn within_cap(c: CacheModel) -> bool {
    &&& c.entries.dom().finite()
    &&& occupied_ids(c).len() <= c.config.max_entries
}

/// An empty cache keeps to its cap, and reads, writes and invalidations keep
/// it there.
pub proof fn law_cap_is_kept(
    config: CacheConfig,
    c: CacheModel,
    after: CacheModel,
    slot: Slot,
    id: Seq<char>,
    raw: Seq<u8>,
    now: Instant,
)
    requires
        within_cap(c),
        c.after_write(after, slot, id, raw, now),
    ensures
        within_cap(empty_cache(config)),
        within_cap(c.after_read(slot, id, now)),
        within_cap(c.invalidated(id)),
        within_cap(after),
{
    let none = occupied_ids(empty_cache(config));
    assert(none =~= Set::<Seq<char>>::empty());
    let occ = occupied_ids(c);
    assert(occ.finite());
    let read = occupied_ids(c.after_read(slot, id, now));
    assert(read.subset_of(occ));
    vstd::set_lib::lemma_len_subset(read, occ);
    let inv = occupied_ids(c.invalidated(id));
    assert(inv.subset_of(occ));
    vstd::set_lib::lemma_len_subset(inv, occ);
    let room = choose|room: CacheModel| #[trigger]
        c.made_room(room, now) && after == room.written(slot, id, raw, now);
    let occ_room = occupied_ids(room);
    assert(occ_room.finite());
    let fin = occupied_ids(after);
    if c.config.max_entries == 0 {
        assert(fin =~= occ_room);
    } else {
        assert(fin.subset_of(occ_room.insert(id)));
        vstd::set_lib::lemma_len_subset(fin, occ_room.insert(id));
    }
    if c.entries.dom().len() < c.config.max_entries {
        assert(occ.subset_of(c.entries.dom()));
        vstd::set_lib::lemma_len_subset(occ, c.entries.dom());
    } else if forall|k: Seq<char>| #[trigger]
        c.entries.contains_key(k) ==> oldest_age(c.entries[k], now) is None {
        assert(occ =~= Set::<Seq<char>>::empty());
    } else {
        let gone = choose|gone: Seq<char>| #[trigger]
            c.is_oldest(gone, now) && room == c.without_evicted(gone);
        assert(occ.contains(gone));
        assert(occ_room =~= occ.remove(gone));
    }
}

/// Whether no version is larger than that of the latest write.
pub open spec fn versions_in_step(c: CacheModel) -> bool {
    forall|id: Seq<char>| #[trigger] c.version(id) <= c.global_version
}

/// Each write of a vault that is kept gives it a version larger than all before
/// it, as long as the count of writes has not run out.
pub proof fn law_versions_grow(
    c: CacheModel,
    after: CacheModel,
    id: Seq<char>,
    raw: Seq<u8>,
    now: Instant,
    other: Seq<char>,
)
    requires
        versions_in_step(c),
        c.config.max_entries > 0,
        c.after_write(after, Slot::Vault, id, raw, now),
        c.global_version < u64::MAX,
    ensures
        versions_in_step(after),
        after.version(id) > c.version(other),
{
    let room = choose|room: CacheModel| #[trigger]
        c.made_room(room, now) && after == room.written(Slot::Vault, id, raw, now);
    assert forall|k: Seq<char>| #[trigger] after.version(k) <= after.global_version by {
        assert(c.version(k) <= c.global_version);
    }
    assert(c.version(other) <= c.global_version);
}

/// The TTL stays between the auto-tuner's bounds once it is within them.
pub proof fn law_tuned_ttl_is_bounded(c: CacheModel)
    requires
        30 <= c.config.ttl.nanos / 1_000_000_000 <= 3_600,
    ensures
        30 <= c.tuned_secs() <= 3_600,
{
}

/// Making room removes a vault only from a cache at capacity, one vault and no
/// more, and never one whose values are all younger than a value that stays:
/// the removed vault holds a value written no later than any that is kept.
pub proof fn law_eviction_removes_the_oldest(
    c: CacheModel,
    after: CacheModel,
    now: Instant,
    gone: Seq<char>,
    kept: Seq<char>,
    slot: Slot,
)
    requires
        c.made_room(after, now),
        c.entries.contains_key(gone),
        !after.entries.contains_key(gone),
        after.entries.contains_key(kept),
        c.entries[kept].at(slot) is Some,
    ensures
        c.entries.dom().len() >= c.config.max_entries,
        after.entries == c.entries.remove(gone),
        c.metrics.evictions < u64::MAX ==> after.metrics.evictions == c.metrics.evictions + 1,
        exists|held: Slot|
            (#[trigger] c.entries[gone].at(held)) is Some && clock::elapsed_nanos(
                c.entries[kept].at(slot)->0.inserted_at,
                now,
            ) <= clock::elapsed_nanos(c.entries[gone].at(held)->0.inserted_at, now),
        c.entries[kept].at(slot)->0.inserted_at.nanos < now.nanos ==> exists|held: Slot|
            (#[trigger] c.entries[gone].at(held)) is Some && c.entries[gone].at(
                held,
            )->0.inserted_at.nanos <= c.entries[kept].at(slot)->0.inserted_at.nanos,
{
    let id = choose|id: Seq<char>| #[trigger]
        c.is_oldest(id, now) && after == c.without_evicted(id);
    assert(id == gone);
    assert(c.entries.contains_key(kept));
    let a = c.entries[gone];
    let k = c.entries[kept].at(slot)->0;
    assert(c.entries[kept].at(slot) == c.entries[kept].vault || c.entries[kept].at(slot)
        == c.entries[kept].ttl_remaining || c.entries[kept].at(slot) == c.entries[kept].summary);
    let held = if a.at(Slot::Vault) is Some && oldest_age(a, now) == Some(
        clock::elapsed_nanos(a.at(Slot::Vault)->0.inserted_at, now),
    ) {
        Slot::Vault
    } else if a.at(Slot::TtlRemaining) is Some && oldest_age(a, now) == Some(
        clock::elapsed_nanos(a.at(Slot::TtlRemaining)->0.inserted_at, now),
    ) {
        Slot::TtlRemaining
    } else {
        Slot::Summary
    };
    assert(a.at(held) is Some);
    assert(clock::elapsed_nanos(k.inserted_at, now) <= clock::elapsed_nanos(
        a.at(held)->0.inserted_at,
        now,
    ));
}

/// A cache below its cap is left alone by making room; one at its cap in which
/// any vault has a value holds one vault fewer afterwards.
pub proof fn law_full_cache_loses_one_vault(
    c: CacheModel,
    after: CacheModel,
    now: Instant,
    id: Seq<char>,
    slot: Slot,
)
    requires
        c.entries.dom().finite(),
        c.made_room(after, now),
        c.entries.contains_key(id),
        c.entries[id].at(slot) is Some,
    ensures
        c.entries.dom().len() < c.config.max_entries ==> after == c,
        c.entries.dom().len() >= c.config.max_entries ==> after.entries.dom().len() + 1
            == c.entries.dom().len(),
        after.config == c.config,
        after.global_version == c.global_version,
        after.metrics.hits == c.metrics.hits,
        after.metrics.misses == c.metrics.misses,
{
    assert(oldest_age(c.entries[id], now) is Some);
    if c.entries.dom().len() >= c.config.max_entries {
        let gone = choose|gone: Seq<char>| #[trigger]
            c.is_oldest(gone, now) && after == c.without_evicted(gone);
        assert(after.entries.dom() =~= c.entries.dom().remove(gone));
    }
}

/// The first vault written is the first pushed out: when a third vault is
/// written to a cache that holds two at most, the vault written earlier is
/// a miss from then on, and the one written later is read back for as long as it
/// is fresh.
pub proof fn law_third_write_pushes_out_the_first(
    config: CacheConfig,
    one: CacheModel,
    two: CacheModel,
    three: CacheModel,
    ids: (Seq<char>, Seq<char>, Seq<char>),
    raws: (Seq<u8>, Seq<u8>, Seq<u8>),
    times: (Instant, Instant, Instant),
    now: Instant,
)
    requires
        config.max_entries == 2,
        ids.0 != ids.1 && ids.0 != ids.2 && ids.1 != ids.2,
        times.0.nanos < times.1.nanos <= times.2.nanos,
        empty_cache(config).after_write(one, Slot::Vault, ids.0, raws.0, times.0),
        one.after_write(two, Slot::Vault, ids.1, raws.1, times.1),
        two.after_write(three, Slot::Vault, ids.2, raws.2, times.2),
    ensures
        three.read(Slot::Vault, ids.0, now) is None,
        clock::elapsed_nanos(times.1, now) < config.ttl.nanos && clock::elapsed_nanos(times.1, now)
            < stale_age(config.ttl, config.staleness_ratio) ==> three.read(
            Slot::Vault,
            ids.1,
            now,
        ) == Some(raws.1),
        clock::elapsed_nanos(times.2, now) < config.ttl.nanos && clock::elapsed_nanos(times.2, now)
            < stale_age(config.ttl, config.staleness_ratio) ==> three.read(
            Slot::Vault,
            ids.2,
            now,
        ) == Some(raws.2),
{
    let none = empty_cache(config);
    assert(none.entries.dom() =~= Set::<Seq<char>>::empty());
    let r1 = choose|room: CacheModel| #[trigger]
        none.made_room(room, times.0) && one == room.written(
            Slot::Vault,
            ids.0,
            raws.0,
            times.0,
        );
    assert(r1 == none);
    assert(one.entries.dom() =~= Set::<Seq<char>>::empty().insert(ids.0));
    let r2 = choose|room: CacheModel| #[trigger]
        one.made_room(room, times.1) && two == room.written(Slot::Vault, ids.1, raws.1, times.1);
    assert(r2 == one);
    assert(two.entries.dom() =~= Set::<Seq<char>>::empty().insert(ids.0).insert(ids.1));
    let r3 = choose|room: CacheModel| #[trigger]
        two.made_room(room, times.2) && three == room.written(Slot::Vault, ids.2, raws.2, times.2);
    assert(two.entries[ids.0].vault is Some);
    assert(two.entries[ids.1].vault is Some);
    assert(oldest_age(two.entries[ids.0], times.2) is Some);
    assert(two.entries.contains_key(ids.0) && two.entries.contains_key(ids.1));
    law_full_cache_loses_one_vault(two, r3, times.2, ids.0, Slot::Vault);
    if r3.entries.contains_key(ids.0) {
        assert(!r3.entries.contains_key(ids.1)) by {
            if r3.entries.contains_key(ids.1) {
                let gone = choose|gone: Seq<char>| #[trigger]
                    two.is_oldest(gone, times.2) && r3 == two.without_evicted(gone);
                assert(two.entries.contains_key(gone));
            }
        }
        law_eviction_removes_the_oldest(two, r3, times.2, ids.1, ids.0, Slot::Vault);
    }
    law_storage_is_transparent(raws.1, config.compression_threshold);
    law_storage_is_transparent(raws.2, config.compression_threshold);
    assert(r3.entries.contains_key(ids.1)) by {
        let gone = choose|gone: Seq<char>| #[trigger]
            two.is_oldest(gone, times.2) && r3 == two.without_evicted(gone);
        assert(gone == ids.0);
    }
}

/// An entry is fresh for its TTL and no longer, and is bypassed from the given
/// part of the TTL on: with a ratio of nine tenths, an entry is read at any age
/// below nine tenths of its TTL and at none above.
pub proof fn law_entry_lives_for_its_ttl(e: EntryModel, ratio: u32, now: Instant)
    requires
        e.inserted_at.nanos <= now.nanos,
    ensures
        expired(e, now) <==> now.nanos - e.inserted_at.nanos >= e.ttl.nanos,
        ratio >= 1_000_000 ==> (stale(e, ratio, now) <==> expired(e, now)),
        ratio <= 1_000_000 && 1_000_000 * (now.nanos - e.inserted_at.nanos) >= e.ttl.nanos * ratio
            + 500_000 ==> stale(e, ratio, now),
        ratio <= 1_000_000 && 1_000_000 * (now.nanos - e.inserted_at.nanos) <= e.ttl.nanos * ratio
            - 500_001 ==> !stale(e, ratio, now),
{
    let t = e.ttl.nanos as int;
    let r = if ratio > 1_000_000 {
        1_000_000
    } else {
        ratio as int
    };
    assert(t * r >= 0) by (nonlinear_arith)
        requires
            t >= 0,
            r >= 0,
    ;
    assert(stale_age(e.ttl, ratio) == (t * r + 500_000) / 1_000_000);
    if ratio >= 1_000_000 {
        assert(t * r == t * 1_000_000) by (nonlinear_arith)
            requires
                r == 1_000_000,
        ;
    }
}

/// Every read is counted once: a read that returns an entry is a hit, any other
/// a miss, and a miss on an entry that is there but stale is a bypass too. Only an
/// expired entry is cleared by a read.
pub proof fn law_reads_are_counted(c: CacheModel, slot: Slot, id: Seq<char>, now: Instant)
    requires
        c.metrics.hits < u64::MAX,
        c.metrics.misses < u64::MAX,
        c.metrics.stale_bypasses < u64::MAX,
    ensures
        ({
            let m = c.after_read(slot, id, now).metrics;
            let e = c.of(id).at(slot);
            let fresh = e is Some && clock::elapsed_nanos(e->0.inserted_at, now) < e->0.ttl.nanos
                && clock::elapsed_nanos(e->0.inserted_at, now) < stale_age(
                e->0.ttl,
                c.config.staleness_ratio,
            );
            let gone = e is Some && clock::elapsed_nanos(e->0.inserted_at, now) >= e->0.ttl.nanos;
            &&& fresh ==> m.hits == c.metrics.hits + 1 && m.misses == c.metrics.misses
            &&& !fresh ==> m.hits == c.metrics.hits && m.misses == c.metrics.misses + 1
            &&& m.stale_bypasses == c.metrics.stale_bypasses + if e is Some && !fresh && !gone {
                1int
            } else {
                0int
            }
            &&& m.evictions == c.metrics.evictions
            &&& m.compressed_entries == c.metrics.compressed_entries
            &&& gone ==> c.after_read(slot, id, now).of(id).at(slot) is None
            &&& !gone ==> c.after_read(slot, id, now).entries == c.entries
            &&& !fresh ==> c.read(slot, id, now) is None
            &&& c.after_read(slot, id, now).config == c.config
        }),
{
}

/// Only a value larger than the threshold is compressed.
pub proof fn law_only_large_values_are_compressed(raw: Seq<u8>, threshold: usize)
    ensures
        packed(raw, threshold) is Compressed <==> raw.len() > threshold,
        raw.len() <= threshold ==> packed(raw, threshold) == Stored::Raw(raw),
{
}

/// The TTL grows by a fifth when at least four requests in five were hits,
/// shrinks by a fifth when fewer than half were, and otherwise stays; it neither
/// grows past an hour nor shrinks below half a minute.
pub proof fn law_ttl_follows_the_hit_ratio(c: CacheModel, secs: nat)
    requires
        c.metrics.hits + c.metrics.misses <= u64::MAX,
        secs == c.config.ttl.nanos / 1_000_000_000,
    ensures
        ({
            let hits = c.metrics.hits as int;
            let all = c.metrics.hits + c.metrics.misses;
            &&& all > 0 && 5 * hits >= 4 * all && secs + secs / 5 <= 3_600 ==> c.tuned_secs()
                == secs + secs / 5
            &&& all > 0 && 5 * hits >= 4 * all && secs + secs / 5 > 3_600 ==> c.tuned_secs()
                == 3_600
            &&& (all == 0 || 2 * hits < all) && secs - secs / 5 >= 30 ==> c.tuned_secs() == secs
                - secs / 5
            &&& (all == 0 || 2 * hits < all) && secs - secs / 5 < 30 ==> c.tuned_secs() == 30
            &&& all > 0 && 2 * hits >= all && 5 * hits < 4 * all ==> c.tuned_secs() == secs
        }),
{
}

/// A vault counts as live exactly while one of its three values has not
/// outlived its TTL.
pub proof fn law_live_means_unexpired(c: CacheModel, id: Seq<char>, now: Instant)
    requires
        c.entries.dom().finite(),
    ensures
        c.live_ids(now).contains(id) <==> c.entries.contains_key(id) && exists|slot: Slot|
            (#[trigger] c.entries[id].at(slot)) is Some && clock::elapsed_nanos(
                c.entries[id].at(slot)->0.inserted_at,
                now,
            ) < c.entries[id].at(slot)->0.ttl.nanos,
{
    let e = c.entries[id];
    assert(e.at(Slot::Vault) == e.vault && e.at(Slot::TtlRemaining) == e.ttl_remaining && e.at(
        Slot::Summary,
    ) == e.summary);
}

/// A quorum lists the vaults of exactly those tokens whose version differs from
/// the expected one, in their order.
pub proof fn law_disagreeing_tokens_are_listed(
    tokens: Seq<CoherenceToken>,
    t: CoherenceToken,
    version: u64,
)
    ensures
        disagreeing(Seq::<CoherenceToken>::empty(), version).len() == 0,
        t.version == version ==> disagreeing(tokens.push(t), version) == disagreeing(
            tokens,
            version,
        ),
        t.version != version ==> disagreeing(tokens.push(t), version) == disagreeing(
            tokens,
            version,
        ).push(t.vault_id@),
{
    assert(tokens.push(t).drop_last() =~= tokens);
}

/// A result that holds the bytes that are wanted holds nothing else.
pub proof fn law_bytes_are_the_wanted_ones(r: Option<Vec<u8>>, want: Option<Seq<u8>>)
    requires
        same_bytes(r, want),
    ensures
        r is Some <==> want is Some,
        r is Some ==> r->0@ == want->0,
{
}

/// A write counts one version more, stores the value with the moment and the
/// configured TTL, and counts a compressed value.
pub proof fn law_write_is_stamped(
    c: CacheModel,
    slot: Slot,
    id: Seq<char>,
    raw: Seq<u8>,
    now: Instant,
)
    requires
        c.config.max_entries > 0,
        c.global_version < u64::MAX,
        c.metrics.compressed_entries < u64::MAX,
    ensures
        ({
            let a = c.written(slot, id, raw, now);
            let e = a.of(id).at(slot);
            &&& a.global_version == c.global_version + 1
            &&& e is Some && e->0.inserted_at == now && e->0.ttl == c.config.ttl
            &&& e->0.version == c.global_version + 1
            &&& content(e->0.stored) == Some(raw)
            &&& raw.len() > c.config.compression_threshold ==> a.metrics.compressed_entries
                == c.metrics.compressed_entries + 1
            &&& raw.len() <= c.config.compression_threshold ==> a.metrics == c.metrics
            &&& slot == Slot::Vault ==> a.version(id) == c.global_version + 1 && a.of(id).summary
                == c.of(id).summary && a.of(id).ttl_remaining == c.of(id).ttl_remaining
            &&& slot != Slot::Vault ==> a.version(id) == c.version(id)
        }),
{
    law_storage_is_transparent(raw, c.config.compression_threshold);
}

/// The layout of a compressed value: a stream of stored blocks, each with a byte
/// that says whether it is the last, its length and the complement of its length in
/// little-endian order, and the bytes themselves, 65535 of them in every block but the last.
pub proof fn law_compressed_layout(last: bool, data: Seq<u8>)
    requires
        data.len() <= 65_535,
    ensures
        stored_block(last, data).len() == data.len() + 5,
        stored_block(last, data)[0] == if last {
            1u8
        } else {
            0u8
        },
        stored_block(last, data)[1] + 256 * stored_block(last, data)[2] == data.len(),
        stored_block(last, data)[3] + 256 * stored_block(last, data)[4] == 65_535 - data.len(),
        stored_block(last, data).skip(5) == data,
        deflated(data) == stored_block(true, data),
        data.len() == 65_535 ==> deflated(data.push(7u8)).take(65_540) == stored_block(false, data),
{
    assert(stored_block(last, data).skip(5) =~= data);
    if data.len() == 65_535 {
        let more = data.push(7u8);
        assert(more.take(65_535) =~= data);
        let rest = deflated(more.skip(65_535));
        assert((stored_block(false, data) + rest).take(65_540) =~= stored_block(false, data));
    }
}

} // verus!
