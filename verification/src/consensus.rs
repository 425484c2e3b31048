//! Distributed cache consensus: versioned entries shared across nodes, and the
//! resolution of conflicts between a node's cache and the shared backend.

use crate::clock::{fresh_id, Timestamp};
use crate::strmap::StrMap;
use crate::text;
use crate::text::{eq_ignore_case, is_before, str_eq};
use vstd::prelude::*;
use vstd::string::*;

verus! {

/// A versioned cache entry shared across backend nodes.
#[derive(Debug, PartialEq, Eq)]
pub struct CacheEntry {
    pub key: String,
    pub value: String,
    pub node_id: String,
    pub updated_at: Timestamp,
    pub version: u64,
}

impl Clone for CacheEntry {
    fn clone(&self) -> (r: Self)
        ensures
            r == *self,
    {
        CacheEntry {
            key: self.key.clone(),
            value: self.value.clone(),
            node_id: self.node_id.clone(),
            updated_at: self.updated_at,
            version: self.version,
        }
    }
}

/// What an entry says.
pub struct EntryModel {
    pub key: Seq<char>,
    pub value: Seq<char>,
    pub node_id: Seq<char>,
    pub updated_at: Timestamp,
    pub version: u64,
}

impl View for CacheEntry {
    type V = EntryModel;

    open spec fn view(&self) -> EntryModel {
        EntryModel {
            key: self.key@,
            value: self.value@,
            node_id: self.node_id@,
            updated_at: self.updated_at,
            version: self.version,
        }
    }
}

/// What an optional entry says.
pub open spec fn said(e: Option<CacheEntry>) -> Option<EntryModel> {
    match e {
        Some(x) => Some(x@),
        None => None,
    }
}

/// How a conflict between two entries is decided.
#[derive(Clone, Copy, Debug, PartialEq, Eq, Structural)]
pub enum ConflictStrategy {
    LastWriteWins,
    Voting,
}

/// A conflict on one key and its resolution.
#[derive(Debug, PartialEq, Eq)]
pub struct ConflictDetail {
    pub key: String,
    pub local: Option<CacheEntry>,
    pub remote: Option<CacheEntry>,
    pub winner: Option<CacheEntry>,
}

/// What a check found and did.
#[derive(Debug, PartialEq, Eq)]
pub struct ConsensusReport {
    pub consistent: bool,
    pub node_id: String,
    pub strategy: ConflictStrategy,
    pub conflicts: Vec<ConflictDetail>,
    pub conflicts_resolved: usize,
    pub keys_checked: usize,
}

/// Entries by key.
pub type Entries = Map<Seq<char>, EntryModel>;

/// The entry of a key.
pub open spec fn entry_of(m: Entries, key: Seq<char>) -> Option<EntryModel> {
    if m.contains_key(key) {
        Some(m[key])
    } else {
        None
    }
}

/// Whether every entry stands under its own key.
pub open spec fn keyed(m: Entries) -> bool {
    forall|k: Seq<char>| #[trigger] m.contains_key(k) ==> m[k].key == k
}

/// Whether `v` lists every entry exactly once.
pub open spec fn lists(v: Seq<CacheEntry>, m: Entries) -> bool {
    &&& forall|i: int|
        0 <= i < v.len() ==> m.contains_key((#[trigger] v[i])@.key) && m[v[i]@.key] == v[i]@
    &&& forall|k: Seq<char>| #[trigger]
        m.contains_key(k) ==> exists|i: int| 0 <= i < v.len() && (#[trigger] v[i])@.key == k
    &&& forall|i: int, j: int|
        0 <= i < j < v.len() ==> (#[trigger] v[i])@.key != (#[trigger] v[j])@.key
}

/// A store that nodes share. What is said of it holds as long as no other node
/// writes in between.
pub trait CacheBackend {
    /// The entries by key.
    spec fn entries(&self) -> Entries;

    /// Whether backends of this kind always answer.
    spec fn always_answers() -> bool;

    /// The entry of a key.
    fn get_entry(&self, key: &str) -> (r: Result<Option<CacheEntry>, String>)
        ensures
            r is Ok ==> said(r->Ok_0) == entry_of(self.entries(), key@),
            Self::always_answers() ==> r is Ok,
    ;

    /// Stores an entry under its key.
    fn set_entry(&mut self, entry: &CacheEntry) -> (r: Result<(), String>)
        ensures
            r is Ok ==> final(self).entries() == old(self).entries().insert(entry@.key, entry@),
            Self::always_answers() ==> r is Ok,
    ;

    /// All entries, in any order.
    fn all_entries(&self) -> (r: Result<Vec<CacheEntry>, String>)
        ensures
            r is Ok ==> lists(r->Ok_0@, self.entries()),
            Self::always_answers() ==> r is Ok,
    ;
}

/// The entries of a map.
pub open spec fn models(map: Map<Seq<char>, CacheEntry>) -> Entries {
    Map::new(|k: Seq<char>| map.contains_key(k), |k: Seq<char>| map[k]@)
}

/// In-memory backend used for tests and single-node deployments.
pub struct InMemoryBackend {
    store: StrMap<CacheEntry>,
}

impl Default for InMemoryBackend {
    fn default() -> (r: Self)
        ensures
            r.entries() == Map::<Seq<char>, EntryModel>::empty(),
    {
        Self::new()
    }
}

impl InMemoryBackend {
    #[verifier::type_invariant]
    spec fn under_own_keys(self) -> bool {
        keyed(models(self.store@))
    }

    /// A backend without entries.
    pub fn new() -> (r: Self)
        ensures
            r.entries() == Map::<Seq<char>, EntryModel>::empty(),
    {
        let r = InMemoryBackend { store: StrMap::new() };
        assert(r.entries() =~= Map::<Seq<char>, EntryModel>::empty());
        r
    }
}

impl CacheBackend for InMemoryBackend {
    closed spec fn entries(&self) -> Entries {
        models(self.store@)
    }

    open spec fn always_answers() -> bool {
        true
    }

    fn get_entry(&self, key: &str) -> (r: Result<Option<CacheEntry>, String>) {
        match self.store.get(key) {
            Some(e) => Ok(Some(e.clone())),
            None => Ok(None),
        }
    }

    fn set_entry(&mut self, entry: &CacheEntry) -> (r: Result<(), String>) {
        proof {
            use_type_invariant(&*self);
        }
        let ghost before = self.store@;
        let mut store: StrMap<CacheEntry> = StrMap::new();
        assert(models(store@) =~= Map::<Seq<char>, EntryModel>::empty());
        std::mem::swap(&mut store, &mut self.store);
        let _old = store.insert(entry.key.clone(), entry.clone());
        assert(models(store@) =~= models(before).insert(entry@.key, entry@));
        self.store = store;
        Ok(())
    }

    fn all_entries(&self) -> (r: Result<Vec<CacheEntry>, String>) {
        proof {
            use_type_invariant(self);
        }
        let n: usize = self.store.len();
        let ghost order = self.store.order();
        let mut v: Vec<CacheEntry> = Vec::new();
        let mut i: usize = 0;
        while i < n
            invariant
                i <= n,
                n == order.len(),
                order == self.store.order(),
                v@.len() == i,
                forall|j: int| 0 <= j < i ==> #[trigger] v@[j] == self.store@[order[j]],
            decreases n - i,
        {
            v.push(self.store.value_at(i).clone());
            i += 1;
        }
        proof {
            let m = self.entries();
            assert forall|j: int| 0 <= j < v@.len() implies m.contains_key((#[trigger] v@[j])@.key)
                && m[v@[j]@.key] == v@[j]@ && v@[j]@.key == order[j] by {
                assert(order.contains(order[j]));
                assert(m.contains_key(order[j]));
            }
            assert forall|k: Seq<char>| #[trigger] m.contains_key(k) implies exists|j: int|
                0 <= j < v@.len() && (#[trigger] v@[j])@.key == k by {
                assert(order.contains(k));
                let j = order.index_of(k);
                assert(order[j] == k);
                assert(v@[j]@.key == k);
            }
        }
        Ok(v)
    }
}

/// The later of two entries; the local one when they are equally late.
pub open spec fn latest(local: EntryModel, remote: EntryModel) -> EntryModel {
    if local.updated_at.before(remote.updated_at) {
        remote
    } else {
        local
    }
}

/// The entry with the higher version; of equal versions that of the node whose
/// name comes first.
pub open spec fn voted(local: EntryModel, remote: EntryModel) -> EntryModel {
    if local.version > remote.version {
        local
    } else if remote.version > local.version {
        remote
    } else if text::before(remote.node_id, local.node_id) {
        remote
    } else {
        local
    }
}

/// The entry that stands after a conflict.
pub open spec fn winner(
    local: Option<EntryModel>,
    remote: Option<EntryModel>,
    strategy: ConflictStrategy,
) -> Option<EntryModel> {
    match (local, remote) {
        (None, None) => None,
        (None, Some(r)) => Some(r),
        (Some(l), None) => Some(l),
        (Some(l), Some(r)) => match strategy {
            ConflictStrategy::LastWriteWins => Some(latest(l, r)),
            ConflictStrategy::Voting => Some(voted(l, r)),
        },
    }
}

/// Decides which of two entries stands.
pub fn resolve_conflict(
    local: Option<&CacheEntry>,
    remote: Option<&CacheEntry>,
    strategy: ConflictStrategy,
) -> (r: Option<CacheEntry>)
    ensures
        said(r) == winner(
            match local {
                Some(e) => Some(e@),
                None => None,
            },
            match remote {
                Some(e) => Some(e@),
                None => None,
            },
            strategy,
        ),
{
    match (local, remote) {
        (None, None) => None,
        (None, Some(r)) => Some(r.clone()),
        (Some(l), None) => Some(l.clone()),
        (Some(l), Some(r)) => match strategy {
            ConflictStrategy::LastWriteWins => Some(pick_latest_by_timestamp(l, r)),
            ConflictStrategy::Voting => Some(pick_by_voting(l, r)),
        },
    }
}

fn pick_latest_by_timestamp(local: &CacheEntry, remote: &CacheEntry) -> (r: CacheEntry)
    ensures
        r@ == latest(local@, remote@),
{
    if local.updated_at.is_before(&remote.updated_at) {
        remote.clone()
    } else {
        local.clone()
    }
}

fn pick_by_voting(local: &CacheEntry, remote: &CacheEntry) -> (r: CacheEntry)
    ensures
        r@ == voted(local@, remote@),
{
    if local.version > remote.version {
        local.clone()
    } else if remote.version > local.version {
        remote.clone()
    } else if is_before(remote.node_id.as_str(), local.node_id.as_str()) {
        remote.clone()
    } else {
        local.clone()
    }
}

/// Whether two optional entries say the same.
fn entries_equal(a: Option<&CacheEntry>, b: Option<&CacheEntry>) -> (r: bool)
    ensures
        r == match (a, b) {
            (None, None) => true,
            (Some(x), Some(y)) => x@ == y@,
            _ => false,
        },
{
    match (a, b) {
        (None, None) => true,
        (Some(x), Some(y)) => str_eq(x.key.as_str(), y.key.as_str()) && str_eq(
            x.value.as_str(),
            y.value.as_str(),
        ) && str_eq(x.node_id.as_str(), y.node_id.as_str()) && x.updated_at == y.updated_at
            && x.version == y.version,
        _ => false,
    }
}

/// What two sets of entries become when every conflict is resolved.
pub open spec fn merged(local: Entries, remote: Entries, strategy: ConflictStrategy) -> Entries {
    Map::new(
        |k: Seq<char>| local.contains_key(k) || remote.contains_key(k),
        |k: Seq<char>| winner(entry_of(local, k), entry_of(remote, k), strategy)->0,
    )
}

/// Whether the two sides say different things of a key.
pub open spec fn disputed(local: Entries, remote: Entries, key: Seq<char>) -> bool {
    entry_of(local, key) != entry_of(remote, key)
}

/// Whether a detail describes the conflict on its key.
pub open spec fn describes(
    d: ConflictDetail,
    local: Entries,
    remote: Entries,
    strategy: ConflictStrategy,
) -> bool {
    &&& disputed(local, remote, d.key@)
    &&& said(d.local) == entry_of(local, d.key@)
    &&& said(d.remote) == entry_of(remote, d.key@)
    &&& said(d.winner) == winner(entry_of(local, d.key@), entry_of(remote, d.key@), strategy)
}

/// Whether `v` has one detail for every conflict.
pub open spec fn lists_conflicts(
    v: Seq<ConflictDetail>,
    local: Entries,
    remote: Entries,
    strategy: ConflictStrategy,
) -> bool {
    &&& forall|i: int| 0 <= i < v.len() ==> describes(#[trigger] v[i], local, remote, strategy)
    &&& forall|i: int, j: int|
        0 <= i < j < v.len() ==> (#[trigger] v[i]).key@ != (#[trigger] v[j]).key@
    &&& forall|k: Seq<char>| #[trigger]
        disputed(local, remote, k) ==> exists|i: int| 0 <= i < v.len() && (#[trigger] v[i]).key@ == k
}

/// Per-node cache that mirrors the distributed backend and resolves conflicts.
pub struct NodeCache {
    node_id: String,
    local: StrMap<CacheEntry>,
    strategy: ConflictStrategy,
}

/// What a node knows.
#[verifier::ext_equal]
pub struct NodeModel {
    /// Its name.
    pub node_id: Seq<char>,
    /// Its entries by key.
    pub local: Entries,
    /// How it decides conflicts.
    pub strategy: ConflictStrategy,
}

impl View for NodeCache {
    type V = NodeModel;

    closed spec fn view(&self) -> NodeModel {
        NodeModel {
            node_id: self.node_id@,
            local: models(self.local@),
            strategy: self.strategy,
        }
    }
}

/// The milliseconds of a moment, as an unsigned number of 64 bits.
pub open spec fn version_at(now: Timestamp) -> u64 {
    ((now.secs * 1_000 + now.nanos / 1_000_000) % 0x1_0000_0000_0000_0000) as u64
}

/// The entry that a node writes at `now`.
pub open spec fn written(
    node_id: Seq<char>,
    key: Seq<char>,
    value: Seq<char>,
    now: Timestamp,
) -> EntryModel {
    EntryModel { key, value, node_id, updated_at: now, version: version_at(now) }
}

/// The strategy that a setting asks for: voting if it says so in any case of
/// its letters, and otherwise the last write.
pub open spec fn strategy_setting(vars: Map<Seq<char>, String>) -> ConflictStrategy {
    if vars.contains_key("CONSENSUS_STRATEGY"@) && text::same_ignoring_case(
        vars["CONSENSUS_STRATEGY"@]@,
        "voting"@,
    ) {
        ConflictStrategy::Voting
    } else {
        ConflictStrategy::LastWriteWins
    }
}

impl NodeCache {
    #[verifier::type_invariant]
    spec fn under_own_keys(self) -> bool {
        keyed(models(self.local@))
    }

    /// A node with an empty cache.
    pub fn new(node_id: &str, strategy: ConflictStrategy) -> (r: Self)
        ensures
            r@ == (NodeModel { node_id: node_id@, local: Map::empty(), strategy }),
    {
        let local: StrMap<CacheEntry> = StrMap::new();
        assert(models(local@) =~= Map::<Seq<char>, EntryModel>::empty());
        NodeCache { node_id: node_id.to_owned(), local, strategy }
    }

    /// The name of the node.
    pub fn node_id(&self) -> (r: &str)
        ensures
            r@ == self@.node_id,
    {
        self.node_id.as_str()
    }

    /// How the node decides conflicts.
    pub fn strategy(&self) -> (r: ConflictStrategy)
        ensures
            r == self@.strategy,
    {
        self.strategy
    }

    /// A node as the environment describes it; without a name it gets a fresh
    /// one.
    pub fn from_env(vars: &StrMap<String>) -> (r: Self)
        ensures
            r@.local == Map::<Seq<char>, EntryModel>::empty(),
            r@.strategy == strategy_setting(vars@),
            vars@.contains_key("NODE_ID"@) ==> r@.node_id == vars@["NODE_ID"@]@,
            !vars@.contains_key("NODE_ID"@) ==> r@.node_id.len() == 36,
    {
        let node_id = match vars.get("NODE_ID") {
            Some(v) => v.clone(),
            None => fresh_id(),
        };
        let strategy = match vars.get("CONSENSUS_STRATEGY") {
            Some(v) => if eq_ignore_case(v.as_str(), "voting") {
                ConflictStrategy::Voting
            } else {
                ConflictStrategy::LastWriteWins
            },
            None => ConflictStrategy::LastWriteWins,
        };
        Self::new(node_id.as_str(), strategy)
    }

    /// Writes a value to the backend and, once that has succeeded, to the
    /// node's cache.
    pub fn put<B: CacheBackend>(&mut self, backend: &mut B, key: &str, value: &str) -> (r: Result<
        CacheEntry,
        String,
    >)
        ensures
            match r {
                Ok(e) => {
                    &&& exists|now: Timestamp|
                        e@ == #[trigger] written(old(self)@.node_id, key@, value@, now)
                    &&& final(backend).entries() == old(backend).entries().insert(key@, e@)
                    &&& final(self)@ == (NodeModel {
                        local: old(self)@.local.insert(key@, e@),
                        ..old(self)@
                    })
                },
                Err(_) => final(self)@ == old(self)@,
            },
            B::always_answers() ==> r is Ok,
    {
        let now = Timestamp::now();
        self.put_at(backend, key, value, now)
    }

    /// Writes a value at `now`.
    pub fn put_at<B: CacheBackend>(
        &mut self,
        backend: &mut B,
        key: &str,
        value: &str,
        now: Timestamp,
    ) -> (r: Result<CacheEntry, String>)
        ensures
            match r {
                Ok(e) => {
                    &&& e@ == written(old(self)@.node_id, key@, value@, now)
                    &&& final(backend).entries() == old(backend).entries().insert(key@, e@)
                    &&& final(self)@ == (NodeModel {
                        local: old(self)@.local.insert(key@, e@),
                        ..old(self)@
                    })
                },
                Err(_) => final(self)@ == old(self)@,
            },
            B::always_answers() ==> r is Ok,
    {
        let entry = self.make_entry(key, value, now);
        match backend.set_entry(&entry) {
            Ok(_) => {},
            Err(e) => {
                return Err(e);
            },
        }
        self.set_local_entry(entry.clone());
        Ok(entry)
    }

    /// The backend's entry of a key.
    pub fn get<B: CacheBackend>(&self, backend: &B, key: &str) -> (r: Result<
        Option<CacheEntry>,
        String,
    >)
        ensures
            r is Ok ==> said(r->Ok_0) == entry_of(backend.entries(), key@),
            B::always_answers() ==> r is Ok,
    {
        backend.get_entry(key)
    }

    /// Replaces the node's cache with the backend's entries.
    pub fn sync_local_from_remote<B: CacheBackend>(&mut self, backend: &B) -> (r: Result<
        (),
        String,
    >)
        ensures
            match r {
                Ok(_) => final(self)@ == (NodeModel {
                    local: backend.entries(),
                    ..old(self)@
                }),
                Err(_) => final(self)@ == old(self)@,
            },
            B::always_answers() ==> r is Ok,
    {
        let entries = match backend.all_entries() {
            Ok(v) => v,
            Err(e) => {
                return Err(e);
            },
        };
        let map = by_key(&entries);
        proof {
            lemma_by_key(entries@, backend.entries(), models(map@));
        }
        self.local = map;
        Ok(())
    }

    /// Compare local cache against the distributed backend and resolve
    /// conflicts. Stops at the first write that the backend refuses.
    pub fn check_and_resolve<B: CacheBackend>(&mut self, backend: &mut B) -> (r: Result<
        ConsensusReport,
        String,
    >)
        ensures
            match r {
                Ok(report) => {
                    let local = old(self)@.local;
                    let remote = old(backend).entries();
                    let strategy = old(self)@.strategy;
                    &&& final(self)@ == (NodeModel {
                        local: merged(local, remote, strategy),
                        ..old(self)@
                    })
                    &&& final(backend).entries() == merged(local, remote, strategy)
                    &&& lists_conflicts(report.conflicts@, local, remote, strategy)
                    &&& report.conflicts_resolved == report.conflicts@.len()
                    &&& report.consistent == (report.conflicts@.len() == 0)
                    &&& report.keys_checked == local.dom().union(remote.dom()).len()
                    &&& report.node_id@ == old(self)@.node_id
                    &&& report.strategy == strategy
                },
                Err(_) => {
                    &&& final(self)@.node_id == old(self)@.node_id
                    &&& final(self)@.strategy == old(self)@.strategy
                    &&& forall|k: Seq<char>| #[trigger]
                        entry_of(final(self)@.local, k) == entry_of(old(self)@.local, k)
                            || entry_of(final(self)@.local, k) == winner(
                            entry_of(old(self)@.local, k),
                            entry_of(old(backend).entries(), k),
                            old(self)@.strategy,
                        )
                },
            },
            B::always_answers() ==> r is Ok,
    {
        proof {
            use_type_invariant(&*self);
        }
        let entries = match backend.all_entries() {
            Ok(v) => v,
            Err(e) => {
                return Err(e);
            },
        };
        let remote_map = by_key(&entries);
        let ghost local = self@.local;
        let ghost remote = backend.entries();
        let strategy = self.strategy;
        proof {
            lemma_by_key(entries@, remote, models(remote_map@));
        }
        let keys = self.all_keys(&remote_map);
        let n: usize = keys.len();
        let ghost names = text::texts(keys@);
        let mut conflicts: Vec<ConflictDetail> = Vec::new();
        let mut i: usize = 0;
        assert(names.take(0) =~= Seq::<Seq<char>>::empty());
        while i < n
            invariant
                i <= n,
                n == keys@.len(),
                names == text::texts(keys@),
                names.no_duplicates(),
                forall|k: Seq<char>| #[trigger]
                    names.contains(k) <==> local.contains_key(k) || remote.contains_key(k),
                local == old(self)@.local,
                remote == old(backend).entries(),
                strategy == old(self)@.strategy,
                models(remote_map@) == remote,
                keyed(local),
                keyed(remote),
                self.strategy == strategy,
                self.node_id@ == old(self)@.node_id,
                forall|k: Seq<char>|
                    #![trigger entry_of(self@.local, k)]
                    #![trigger entry_of(backend.entries(), k)]
                    if names.take(i as int).contains(k) {
                        &&& entry_of(self@.local, k) == winner(
                            entry_of(local, k),
                            entry_of(remote, k),
                            strategy,
                        )
                        &&& entry_of(backend.entries(), k) == entry_of(self@.local, k)
                    } else {
                        &&& entry_of(self@.local, k) == entry_of(local, k)
                        &&& entry_of(backend.entries(), k) == entry_of(remote, k)
                    },
                forall|x: int|
                    0 <= x < conflicts@.len() ==> describes(
                        #[trigger] conflicts@[x],
                        local,
                        remote,
                        strategy,
                    ) && names.take(i as int).contains(conflicts@[x].key@),
                forall|x: int, y: int|
                    0 <= x < y < conflicts@.len() ==> (#[trigger] conflicts@[x]).key@ != (
                    #[trigger] conflicts@[y]).key@,
                forall|k: Seq<char>| #[trigger]
                    disputed(local, remote, k) && names.take(i as int).contains(k)
                        ==> exists|x: int|
                        0 <= x < conflicts@.len() && (#[trigger] conflicts@[x]).key@ == k,
            decreases n - i,
        {
            let key: &str = keys[i].as_str();
            let ghost k0 = key@;
            let ghost done = names.take(i as int);
            let ghost more = names.take(i + 1);
            proof {
                assert(names[i as int] == k0);
                assert(names.contains(k0));
                assert forall|k: Seq<char>| #[trigger] more.contains(k) <==> done.contains(k) || k
                    == k0 by {
                    if more.contains(k) {
                        let x = more.index_of(k);
                        if x < i {
                            assert(done[x] == k);
                        }
                    }
                    if done.contains(k) {
                        let x = done.index_of(k);
                        assert(more[x] == k);
                    }
                    if k == k0 {
                        assert(more[i as int] == k0);
                    }
                }
                if done.contains(k0) {
                    let x = done.index_of(k0);
                    assert(names[x] == names[i as int]);
                }
                assert(entry_of(self@.local, k0) == entry_of(local, k0));
            }
            let ghost mid = self@.local;
            let ghost mid_remote = backend.entries();
            let local_entry = match self.local.get(key) {
                Some(e) => Some(e.clone()),
                None => None,
            };
            let remote_entry = remote_map.get(key);
            let ghost old_conflicts = conflicts@;
            if entries_equal(local_entry.as_ref(), remote_entry) {
                assert(entry_of(local, k0) == entry_of(remote, k0));
                assert(!disputed(local, remote, k0));
                i += 1;
                continue ;
            }
            let resolved = resolve_conflict(local_entry.as_ref(), remote_entry, strategy);
            assert(disputed(local, remote, k0));
            let remote_copy = match remote_entry {
                Some(e) => Some(e.clone()),
                None => None,
            };
            let winner_copy = match &resolved {
                Some(e) => Some(e.clone()),
                None => None,
            };
            conflicts.push(
                ConflictDetail {
                    key: keys[i].clone(),
                    local: local_entry,
                    remote: remote_copy,
                    winner: winner_copy,
                },
            );
            match resolved {
                Some(e) => {
                    assert(e@.key == k0);
                    match backend.set_entry(&e) {
                        Ok(_) => {},
                        Err(err) => {
                            return Err(err);
                        },
                    }
                    let ghost won = e@;
                    self.set_local_entry(e);
                    assert(self@.local == mid.insert(k0, won));
                    assert forall|k: Seq<char>| #[trigger] entry_of(self@.local, k) == if k == k0 {
                        Some(e@)
                    } else {
                        entry_of(mid, k)
                    } by {}
                    assert forall|k: Seq<char>| #[trigger] entry_of(backend.entries(), k) == if k
                        == k0 {
                        Some(e@)
                    } else {
                        entry_of(mid_remote, k)
                    } by {}
                },
                None => {
                    assert(false);
                },
            }
            proof {
                assert forall|k: Seq<char>|
                    #![trigger entry_of(self@.local, k)]
                    #![trigger entry_of(backend.entries(), k)]
                    if more.contains(k) {
                        &&& entry_of(self@.local, k) == winner(
                            entry_of(local, k),
                            entry_of(remote, k),
                            strategy,
                        )
                        &&& entry_of(backend.entries(), k) == entry_of(self@.local, k)
                    } else {
                        &&& entry_of(self@.local, k) == entry_of(local, k)
                        &&& entry_of(backend.entries(), k) == entry_of(remote, k)
                    } by {
                    let a = entry_of(self@.local, k);
                    let b = entry_of(backend.entries(), k);
                    let c = entry_of(mid, k);
                    let d = entry_of(mid_remote, k);
                    assert(more.contains(k) <==> done.contains(k) || k == k0);
                }
                assert forall|x: int| 0 <= x < conflicts@.len() implies describes(
                    #[trigger] conflicts@[x],
                    local,
                    remote,
                    strategy,
                ) && more.contains(conflicts@[x].key@) by {
                    if x < old_conflicts.len() {
                        assert(conflicts@[x] == old_conflicts[x]);
                    }
                }
                assert forall|x: int, y: int| 0 <= x < y < conflicts@.len() implies (
                #[trigger] conflicts@[x]).key@ != (#[trigger] conflicts@[y]).key@ by {
                    assert(conflicts@[x] == old_conflicts[x]);
                    if y < old_conflicts.len() {
                        assert(conflicts@[y] == old_conflicts[y]);
                    } else {
                        assert(done.contains(old_conflicts[x].key@));
                    }
                }
                assert forall|k: Seq<char>| #[trigger] disputed(local, remote, k) && more.contains(
                    k,
                ) implies exists|x: int|
                    0 <= x < conflicts@.len() && (#[trigger] conflicts@[x]).key@ == k by {
                    if k == k0 {
                        assert(conflicts@[old_conflicts.len() as int].key@ == k0);
                    } else {
                        let x = choose|x: int|
                            0 <= x < old_conflicts.len() && (#[trigger] old_conflicts[x]).key@ == k;
                        assert(conflicts@[x].key@ == k);
                    }
                }
            }
            i += 1;
        }
        proof {
            assert(names.take(n as int) =~= names);
            let m = merged(local, remote, strategy);
            assert forall|k: Seq<char>| #[trigger] entry_of(m, k) == entry_of(self@.local, k)
                && entry_of(m, k) == entry_of(backend.entries(), k) by {}
            lemma_same_entries(m, self@.local);
            lemma_same_entries(m, backend.entries());
            names.unique_seq_to_set();
            assert(names.to_set() =~= local.dom().union(remote.dom()));
            assert forall|k: Seq<char>| #[trigger] disputed(local, remote, k) implies exists|x: int|
                0 <= x < conflicts@.len() && (#[trigger] conflicts@[x]).key@ == k by {
                assert(names.contains(k));
            }
        }
        let resolved_count: usize = conflicts.len();
        Ok(
            ConsensusReport {
                consistent: conflicts.len() == 0,
                node_id: self.node_id.clone(),
                strategy,
                conflicts,
                conflicts_resolved: resolved_count,
                keys_checked: n,
            },
        )
    }

    /// The keys of the node's cache, and those of `remote` that it lacks.
    fn all_keys(&self, remote: &StrMap<CacheEntry>) -> (r: Vec<String>)
        ensures
            text::texts(r@).no_duplicates(),
            forall|k: Seq<char>| #[trigger]
                text::texts(r@).contains(k) <==> self@.local.contains_key(k) || models(
                    remote@,
                ).contains_key(k),
    {
        let mut keys: Vec<String> = Vec::new();
        let n: usize = self.local.len();
        let ghost order = self.local.order();
        let mut i: usize = 0;
        while i < n
            invariant
                i <= n,
                n == order.len(),
                order == self.local.order(),
                keys@.len() == i,
                forall|j: int| 0 <= j < i ==> (#[trigger] keys@[j])@ == order[j],
            decreases n - i,
        {
            keys.push(self.local.key_at(i).clone());
            i += 1;
        }
        let m: usize = remote.len();
        let ghost rorder = remote.order();
        let ghost first = text::texts(keys@);
        assert(first =~= order);
        let mut j: usize = 0;
        assert(rorder.take(0) =~= Seq::<Seq<char>>::empty());
        while j < m
            invariant
                j <= m,
                m == rorder.len(),
                rorder == remote.order(),
                rorder.no_duplicates(),
                order == self.local.order(),
                forall|k: Seq<char>| #[trigger] order.contains(k) <==> self.local@.contains_key(k),
                text::texts(keys@).no_duplicates(),
                forall|k: Seq<char>| #[trigger]
                    text::texts(keys@).contains(k) <==> order.contains(k) || rorder.take(
                        j as int,
                    ).contains(k),
            decreases m - j,
        {
            let key = remote.key_at(j);
            let ghost k0 = key@;
            let ghost before = text::texts(keys@);
            let ghost done = rorder.take(j as int);
            let ghost more = rorder.take(j + 1);
            proof {
                assert(more =~= done.push(k0));
                assert forall|k: Seq<char>| #[trigger] more.contains(k) <==> done.contains(k) || k
                    == k0 by {
                    if done.contains(k) {
                        let x = done.index_of(k);
                        assert(more[x] == k);
                    }
                    if k == k0 {
                        assert(more[j as int] == k0);
                    }
                    if more.contains(k) {
                        let x = more.index_of(k);
                        if x < j {
                            assert(done[x] == k);
                        }
                    }
                }
                if done.contains(k0) {
                    let x = done.index_of(k0);
                    assert(rorder[x] == rorder[j as int]);
                }
            }
            if !self.local.contains_key(key.as_str()) {
                keys.push(key.clone());
                proof {
                    let now = text::texts(keys@);
                    assert(now =~= before.push(k0));
                    assert(!before.contains(k0));
                    assert forall|k: Seq<char>| #[trigger] now.contains(k) <==> before.contains(k)
                        || k == k0 by {
                        if before.contains(k) {
                            let x = before.index_of(k);
                            assert(now[x] == k);
                        }
                        if k == k0 {
                            assert(now[before.len() as int] == k0);
                        }
                        if now.contains(k) {
                            let x = now.index_of(k);
                            if x < before.len() {
                                assert(before[x] == k);
                            }
                        }
                    }
                    assert forall|x: int, y: int|
                        0 <= x < now.len() && 0 <= y < now.len() && x != y implies now[x]
                        != now[y] by {
                        if x < before.len() && y < before.len() {
                            assert(before[x] != before[y]);
                        } else if x < before.len() {
                            assert(before.contains(before[x]));
                        } else if y < before.len() {
                            assert(before.contains(before[y]));
                        }
                    }
                }
            }
            j += 1;
        }
        assert(rorder.take(m as int) =~= rorder);
        keys
    }

    /// The entry that the node writes at `now`.
    fn make_entry(&self, key: &str, value: &str, now: Timestamp) -> (r: CacheEntry)
        ensures
            r@ == written(self@.node_id, key@, value@, now),
    {
        let millis: i128 = now.secs as i128 * 1_000 + (now.nanos / 1_000_000) as i128;
        let wide: i128 = 0x1_0000_0000_0000_0000;
        let version: u64 = if millis >= 0 {
            (millis % wide) as u64
        } else {
            let back: i128 = (-millis) % wide;
            proof {
                assert(millis % wide == if back == 0 {
                    0
                } else {
                    wide - back
                });
            }
            if back == 0 {
                0
            } else {
                (wide - back) as u64
            }
        };
        CacheEntry {
            key: key.to_owned(),
            value: value.to_owned(),
            node_id: self.node_id.clone(),
            updated_at: now,
            version,
        }
    }

    /// Directly seed a local cache entry, bypassing the backend.
    pub fn set_local_entry(&mut self, entry: CacheEntry)
        ensures
            final(self)@ == (NodeModel {
                local: old(self)@.local.insert(entry@.key, entry@),
                ..old(self)@
            }),
    {
        proof {
            use_type_invariant(&*self);
        }
        let ghost before = self.local@;
        let key = entry.key.clone();
        let mut local: StrMap<CacheEntry> = StrMap::new();
        assert(models(local@) =~= Map::<Seq<char>, EntryModel>::empty());
        std::mem::swap(&mut local, &mut self.local);
        let _old = local.insert(key, entry);
        assert(models(local@) =~= models(before).insert(entry@.key, entry@));
        self.local = local;
    }
}

/// Entries that agree on every key are the same.
proof fn lemma_same_entries(a: Entries, b: Entries)
    requires
        forall|k: Seq<char>| #[trigger] entry_of(a, k) == entry_of(b, k),
    ensures
        a == b,
{
    assert forall|k: Seq<char>| #[trigger] a.contains_key(k) <==> b.contains_key(k) by {
        assert(entry_of(a, k) == entry_of(b, k));
    }
    assert forall|k: Seq<char>| #[trigger] a.contains_key(k) implies a[k] == b[k] by {
        assert(entry_of(a, k) == entry_of(b, k));
    }
    assert(a =~= b);
}

/// What the entries of a list are by key; of several with one key the last
/// counts.
pub open spec fn indexed(v: Seq<CacheEntry>) -> Entries
    decreases v.len(),
{
    if v.len() == 0 {
        Map::empty()
    } else {
        indexed(v.drop_last()).insert(v.last()@.key, v.last()@)
    }
}

/// The entries of a list by key.
fn by_key(v: &Vec<CacheEntry>) -> (r: StrMap<CacheEntry>)
    ensures
        models(r@) == indexed(v@),
{
    let mut r: StrMap<CacheEntry> = StrMap::new();
    let mut i: usize = 0;
    assert(models(r@) =~= indexed(v@.take(0)));
    while i < v.len()
        invariant
            i <= v@.len(),
            models(r@) == indexed(v@.take(i as int)),
        decreases v@.len() - i,
    {
        let ghost before = r@;
        let _old = r.insert(v[i].key.clone(), v[i].clone());
        proof {
            let longer = v@.take(i + 1);
            assert(longer.drop_last() =~= v@.take(i as int));
            assert(models(r@) =~= models(before).insert(v@[i as int]@.key, v@[i as int]@));
        }
        i += 1;
    }
    assert(v@.take(i as int) =~= v@);
    r
}

/// A list of all entries, by key, is the map that it lists, in which every
/// entry stands under its own key.
proof fn lemma_by_key(v: Seq<CacheEntry>, m: Entries, r: Entries)
    requires
        lists(v, m),
        r == indexed(v),
    ensures
        r == m,
        keyed(m),
{
    lemma_indexed(v);
    assert forall|k: Seq<char>| r.contains_key(k) <==> m.contains_key(k) by {
        if m.contains_key(k) {
            let i = choose|i: int| 0 <= i < v.len() && (#[trigger] v[i])@.key == k;
            assert(r.contains_key(v[i]@.key));
        }
    }
    assert forall|k: Seq<char>| #[trigger] m.contains_key(k) implies r[k] == m[k] by {
        assert(r.contains_key(k));
        let i = choose|i: int| 0 <= i < v.len() && (#[trigger] v[i])@.key == k && v[i]@ == r[k];
        assert(m[v[i]@.key] == v[i]@);
    }
    assert(r =~= m);
}

/// Every value of an indexed list comes from the list, and every key is there.
proof fn lemma_indexed(v: Seq<CacheEntry>)
    ensures
        forall|i: int| 0 <= i < v.len() ==> indexed(v).contains_key((#[trigger] v[i])@.key),
        forall|k: Seq<char>| #[trigger]
            indexed(v).contains_key(k) ==> exists|i: int|
                0 <= i < v.len() && (#[trigger] v[i])@.key == k && v[i]@ == indexed(v)[k],
    decreases v.len(),
{
    if v.len() > 0 {
        let short = v.drop_last();
        lemma_indexed(short);
        assert forall|i: int| 0 <= i < v.len() implies indexed(v).contains_key(
            (#[trigger] v[i])@.key,
        ) by {
            if i < short.len() {
                assert(short[i] == v[i]);
            }
        }
        assert forall|k: Seq<char>| #[trigger] indexed(v).contains_key(k) implies exists|i: int|
            0 <= i < v.len() && (#[trigger] v[i])@.key == k && v[i]@ == indexed(v)[k] by {
            if k == v.last()@.key {
                assert(v[v.len() - 1]@.key == k);
            } else {
                assert(indexed(short).contains_key(k));
                let i = choose|i: int|
                    0 <= i < short.len() && (#[trigger] short[i])@.key == k && short[i]@
                        == indexed(short)[k];
                assert(v[i] == short[i]);
            }
        }
    }
}

/// After a check the node and the backend agree on every key, and a second
/// check finds nothing to resolve and changes nothing.
pub proof fn law_check_converges(
    local: Entries,
    remote: Entries,
    strategy: ConflictStrategy,
    key: Seq<char>,
)
    ensures
        ({
            let m = merged(local, remote, strategy);
            &&& merged(m, m, strategy) == m
            &&& !disputed(m, m, key)
        }),
{
    let m = merged(local, remote, strategy);
    assert(merged(m, m, strategy) =~= m);
}

/// Keys on which both sides agree are left as they are.
pub proof fn law_agreement_is_kept(
    local: Entries,
    remote: Entries,
    strategy: ConflictStrategy,
    key: Seq<char>,
)
    requires
        !disputed(local, remote, key),
    ensures
        entry_of(merged(local, remote, strategy), key) == entry_of(local, key),
{
}

/// The last write wins: the entry that stands is never older than either side.
pub proof fn law_last_write_wins(local: EntryModel, remote: EntryModel)
    ensures
        !latest(local, remote).updated_at.before(local.updated_at),
        !latest(local, remote).updated_at.before(remote.updated_at),
{
}

/// Voting picks the highest version, and two nodes that vote on the same pair
/// of entries of different nodes pick the same one.
pub proof fn law_voting_is_fair(a: EntryModel, b: EntryModel)
    ensures
        voted(a, b).version >= a.version,
        voted(a, b).version >= b.version,
        a.node_id != b.node_id ==> voted(a, b) == voted(b, a),
{
    if a.node_id != b.node_id {
        text::lemma_before_total(a.node_id, b.node_id);
        if text::before(a.node_id, b.node_id) && text::before(b.node_id, a.node_id) {
            text::lemma_before_transitive(a.node_id, b.node_id, a.node_id);
            text::lemma_before_irreflexive(a.node_id);
        }
    }
}

/// With two entries for a key the later write wins under the one strategy, and
/// the local one where both were written at once; under the other the higher
/// version wins, and between equal versions the node whose name comes first.
pub proof fn law_winner_of_two(l: EntryModel, r: EntryModel)
    ensures
        ({
            let w = winner(Some(l), Some(r), ConflictStrategy::LastWriteWins);
            &&& l.updated_at.moment() > r.updated_at.moment() ==> w == Some(l)
            &&& l.updated_at.moment() < r.updated_at.moment() ==> w == Some(r)
            &&& l.updated_at.moment() == r.updated_at.moment() ==> w == Some(l)
        }),
        ({
            let w = winner(Some(l), Some(r), ConflictStrategy::Voting);
            &&& l.version > r.version ==> w == Some(l)
            &&& l.version < r.version ==> w == Some(r)
            &&& l.version == r.version && text::before(l.node_id, r.node_id) ==> w == Some(l)
            &&& l.version == r.version && text::before(r.node_id, l.node_id) ==> w == Some(r)
        }),
{
    crate::clock::law_moments_are_ordered(l.updated_at, r.updated_at);
    crate::clock::law_moments_are_ordered(r.updated_at, l.updated_at);
    if text::before(l.node_id, r.node_id) && text::before(r.node_id, l.node_id) {
        text::lemma_before_transitive(l.node_id, r.node_id, l.node_id);
        text::lemma_before_irreflexive(l.node_id);
    }
}

/// An entry that only one side has wins, whatever the strategy.
pub proof fn law_only_entry_wins(e: EntryModel, strategy: ConflictStrategy)
    ensures
        winner(Some(e), None, strategy) == Some(e),
        winner(None, Some(e), strategy) == Some(e),
        winner(None, None, strategy) is None,
{
}

/// Reconciling loses no key and invents none, and takes every entry from one of
/// the two sides.
pub proof fn law_merge_loses_nothing(
    local: Entries,
    remote: Entries,
    strategy: ConflictStrategy,
    key: Seq<char>,
)
    ensures
        merged(local, remote, strategy).contains_key(key) <==> local.contains_key(key)
            || remote.contains_key(key),
        merged(local, remote, strategy).contains_key(key) ==> local.contains_key(key) && merged(
            local,
            remote,
            strategy,
        )[key] == local[key] || remote.contains_key(key) && merged(local, remote, strategy)[key]
            == remote[key],
        disputed(local, remote, key) ==> local.contains_key(key) != remote.contains_key(key)
            || local[key] != remote[key],
{
}

/// What a node writes carries the node, the moment and a version that counts the
/// milliseconds.
pub proof fn law_write_is_stamped(
    node_id: Seq<char>,
    key: Seq<char>,
    value: Seq<char>,
    now: Timestamp,
)
    requires
        0 <= now.secs <= 9_000_000_000,
        now.nanos < 1_000_000_000,
    ensures
        written(node_id, key, value, now).key == key,
        written(node_id, key, value, now).value == value,
        written(node_id, key, value, now).node_id == node_id,
        written(node_id, key, value, now).updated_at == now,
        written(node_id, key, value, now).version == now.secs * 1_000 + now.nanos / 1_000_000,
{
}

/// The word for voting in any case chooses voting, and everything else the last
/// write.
pub proof fn law_strategy_is_set_by_word(vars: Map<Seq<char>, String>)
    ensures
        !vars.contains_key("CONSENSUS_STRATEGY"@) ==> strategy_setting(vars)
            == ConflictStrategy::LastWriteWins,
        vars.contains_key("CONSENSUS_STRATEGY"@) && text::same_ignoring_case(
            vars["CONSENSUS_STRATEGY"@]@,
            "voting"@,
        ) ==> strategy_setting(vars) == ConflictStrategy::Voting,
        vars.contains_key("CONSENSUS_STRATEGY"@) && !text::same_ignoring_case(
            vars["CONSENSUS_STRATEGY"@]@,
            "voting"@,
        ) ==> strategy_setting(vars) == ConflictStrategy::LastWriteWins,
{
}

/// A check lists one conflict for every key on which the two sides differ, with
/// both entries and the one that wins, and none for a key on which they agree.
pub proof fn law_conflicts_are_the_differences(
    v: Seq<ConflictDetail>,
    local: Entries,
    remote: Entries,
    strategy: ConflictStrategy,
    i: int,
    key: Seq<char>,
)
    requires
        lists_conflicts(v, local, remote, strategy),
    ensures
        0 <= i < v.len() ==> (local.contains_key(v[i].key@) != remote.contains_key(v[i].key@)
            || local[v[i].key@] != remote[v[i].key@]),
        0 <= i < v.len() && local.contains_key(v[i].key@) && !remote.contains_key(v[i].key@)
            ==> v[i].winner is Some && v[i].winner->0@ == local[v[i].key@] && v[i].remote is None,
        0 <= i < v.len() && remote.contains_key(v[i].key@) && !local.contains_key(v[i].key@)
            ==> v[i].winner is Some && v[i].winner->0@ == remote[v[i].key@] && v[i].local is None,
        (local.contains_key(key) != remote.contains_key(key) || (local.contains_key(key)
            && local[key] != remote[key])) ==> exists|j: int|
            0 <= j < v.len() && (#[trigger] v[j]).key@ == key,
        v.len() == 0 && local.contains_key(key) ==> remote.contains_key(key) && local[key]
            == remote[key],
{
    if 0 <= i < v.len() {
        assert(describes(v[i], local, remote, strategy));
    }
    if local.contains_key(key) != remote.contains_key(key) || (local.contains_key(key) && local[key]
        != remote[key]) {
        assert(disputed(local, remote, key));
    }
}

/// Entries that are stored by key are found by key, the last one where two have
/// the same.
pub proof fn law_last_entry_of_a_key_counts(v: Seq<CacheEntry>, e: CacheEntry, other: Seq<char>)
    ensures
        indexed(Seq::<CacheEntry>::empty()) == Map::<Seq<char>, EntryModel>::empty(),
        indexed(v.push(e)).contains_key(e.key@),
        indexed(v.push(e))[e.key@] == e@,
        other != e.key@ ==> entry_of(indexed(v.push(e)), other) == entry_of(indexed(v), other),
{
    assert(v.push(e).drop_last() =~= v);
}

} // verus!
