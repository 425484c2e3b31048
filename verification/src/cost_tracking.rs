//! Operational cost tracking and attribution.
//!
//! Records a cost entry per billable operation, tags it (team, vault, operation
//! type, region, ...), and groups the entries for reports and for proportional
//! allocation. Amounts are floating point numbers and are added up by the
//! caller, group by group.

use crate::clock::{fresh_id, Timestamp};
use crate::models::ApiError;
use crate::strmap::StrMap;
use crate::text;
use crate::text::trimmed;
use vstd::prelude::*;
use vstd::string::*;

verus! {

/// A single recorded cost entry.
pub struct CostEntry {
    pub id: String,
    pub operation: String,
    /// Arbitrary attribution tags.
    pub tags: StrMap<String>,
    /// Cost amount in the currency's decimal form, by its place in the order of
    /// the floating point numbers: negative amounts have negative places, and
    /// for the others it is their bit pattern.
    pub amount: i64,
    pub currency: String,
    pub recorded_at: Timestamp,
}

/// What an entry says.
#[verifier::ext_equal]
pub struct EntryModel {
    pub id: Seq<char>,
    pub operation: Seq<char>,
    pub tags: Map<Seq<char>, String>,
    pub amount: i64,
    pub currency: Seq<char>,
    pub recorded_at: Timestamp,
}

impl View for CostEntry {
    type V = EntryModel;

    open spec fn view(&self) -> EntryModel {
        EntryModel {
            id: self.id@,
            operation: self.operation@,
            tags: self.tags@,
            amount: self.amount,
            currency: self.currency@,
            recorded_at: self.recorded_at,
        }
    }
}

impl Clone for CostEntry {
    fn clone(&self) -> (r: Self)
        ensures
            r@ == self@,
    {
        CostEntry {
            id: self.id.clone(),
            operation: self.operation.clone(),
            tags: self.tags.copy(),
            amount: self.amount,
            currency: self.currency.clone(),
            recorded_at: self.recorded_at,
        }
    }
}

impl EntryModel {
    /// Whether the entry carries a tag with the given value.
    pub open spec fn tagged(self, key: Seq<char>, value: Seq<char>) -> bool {
        self.tags.contains_key(key) && self.tags[key]@ == value
    }
}

/// What a list of entries says.
pub open spec fn models(entries: Seq<CostEntry>) -> Seq<EntryModel> {
    Seq::new(entries.len(), |i: int| entries[i]@)
}

/// What is asked to be recorded.
pub struct RecordCostRequest {
    pub operation: String,
    pub tags: StrMap<String>,
    pub amount: i64,
    pub currency: String,
}

/// The currency of entries that name none.
pub fn default_currency() -> (r: String)
    ensures
        r@ == "USD"@,
{
    "USD".to_owned()
}

/// The positions, in order, at which a predicate holds among the first `n`.
pub open spec fn places(n: nat, pred: spec_fn(int) -> bool) -> Seq<usize>
    decreases n,
{
    if n == 0 {
        Seq::empty()
    } else {
        let before = places((n - 1) as nat, pred);
        if pred(n - 1) {
            before.push((n - 1) as usize)
        } else {
            before
        }
    }
}

/// The positions of the entries of an operation.
pub open spec fn operation_places(entries: Seq<EntryModel>, operation: Seq<char>) -> Seq<usize> {
    places(entries.len(), |i: int| entries[i].operation == operation)
}

/// The positions of the entries with a tag value.
pub open spec fn tag_places(entries: Seq<EntryModel>, key: Seq<char>, value: Seq<char>) -> Seq<
    usize,
> {
    places(entries.len(), |i: int| entries[i].tagged(key, value))
}

/// The group of a name, empty where there is none.
pub open spec fn group(m: Map<Seq<char>, Vec<usize>>, name: Seq<char>) -> Seq<usize> {
    if m.contains_key(name) {
        m[name]@
    } else {
        Seq::empty()
    }
}

/// The group of a tag value, empty where there is none.
pub open spec fn tag_group(
    m: Map<Seq<char>, StrMap<Vec<usize>>>,
    key: Seq<char>,
    value: Seq<char>,
) -> Seq<usize> {
    if m.contains_key(key) {
        group(m[key]@, value)
    } else {
        Seq::empty()
    }
}

/// Whether there is a group for a tag value.
pub open spec fn has_tag_group(
    m: Map<Seq<char>, StrMap<Vec<usize>>>,
    key: Seq<char>,
    value: Seq<char>,
) -> bool {
    m.contains_key(key) && m[key]@.contains_key(value)
}

/// Aggregate cost report: which entries belong together, by their positions.
/// Each total is the sum of the amounts at the positions.
pub struct CostReport {
    pub currency: String,
    pub entry_count: usize,
    /// The entries of each operation.
    pub by_operation: StrMap<Vec<usize>>,
    /// The entries of each value of each tag.
    pub by_tag: StrMap<StrMap<Vec<usize>>>,
}

/// What a shared cost is allocated by.
pub struct AllocateCostRequest {
    /// The shared cost amount to split up.
    pub total_amount: i64,
    /// Tag key to allocate by (e.g. "team"). Allocation is proportional to
    /// each tag value's share of previously recorded cost under that key.
    pub tag_key: String,
}

/// How a shared cost is allocated: each tag value's share is what its entries
/// cost out of what all of them cost.
pub struct CostAllocation {
    pub tag_key: String,
    pub total_amount: i64,
    /// The entries of each tag value, by their positions.
    pub allocations: StrMap<Vec<usize>>,
}

/// Puts a position at the end of the group of a name.
fn append_to(m: &mut StrMap<Vec<usize>>, name: &str, at: usize)
    ensures
        forall|k: Seq<char>| #[trigger]
            group(final(m)@, k) == if k == name@ {
                group(old(m)@, k).push(at)
            } else {
                group(old(m)@, k)
            },
        final(m)@.dom() == old(m)@.dom().insert(name@),
{
    if !m.contains_key(name) {
        let _old = m.insert(name.to_owned(), Vec::new());
    }
    let ghost mid = m@;
    match m.get_mut(name) {
        Some(v) => v.push(at),
        None => {},
    }
    assert(m@.dom() =~= old(m)@.dom().insert(name@));
    assert forall|k: Seq<char>| #[trigger] group(m@, k) == if k == name@ {
        group(old(m)@, k).push(at)
    } else {
        group(old(m)@, k)
    } by {
        assert(group(mid, k) =~= group(old(m)@, k));
    }
}

/// Puts a position at the end of the group of a tag value.
fn append_to_tag(m: &mut StrMap<StrMap<Vec<usize>>>, key: &str, value: &str, at: usize)
    ensures
        forall|k: Seq<char>, v: Seq<char>| #[trigger]
            tag_group(final(m)@, k, v) == if k == key@ && v == value@ {
                tag_group(old(m)@, k, v).push(at)
            } else {
                tag_group(old(m)@, k, v)
            },
        forall|k: Seq<char>, v: Seq<char>| #[trigger]
            has_tag_group(final(m)@, k, v) <==> has_tag_group(old(m)@, k, v) || (k == key@ && v
                == value@),
        final(m)@.dom() == old(m)@.dom().insert(key@),
{
    if !m.contains_key(key) {
        let _old = m.insert(key.to_owned(), StrMap::new());
    }
    let ghost mid = m@;
    assert forall|k: Seq<char>, v: Seq<char>| #[trigger] tag_group(mid, k, v) =~= tag_group(
        old(m)@,
        k,
        v,
    ) by {}
    assert forall|k: Seq<char>, v: Seq<char>| #[trigger] has_tag_group(mid, k, v)
        <==> has_tag_group(old(m)@, k, v) by {}
    match m.get_mut(key) {
        Some(inner) => append_to(inner, value, at),
        None => {},
    }
    assert(m@.dom() =~= old(m)@.dom().insert(key@));
    assert forall|k: Seq<char>, v: Seq<char>| #[trigger] tag_group(m@, k, v) == if k == key@ && v
        == value@ {
        tag_group(old(m)@, k, v).push(at)
    } else {
        tag_group(old(m)@, k, v)
    } by {
        assert(tag_group(mid, k, v) == tag_group(old(m)@, k, v));
        assert(group(m@[key@]@, v) == if v == value@ {
            group(mid[key@]@, v).push(at)
        } else {
            group(mid[key@]@, v)
        });
    }
    assert forall|k: Seq<char>, v: Seq<char>| #[trigger] has_tag_group(m@, k, v)
        <==> has_tag_group(old(m)@, k, v) || (k == key@ && v == value@) by {
        assert(has_tag_group(mid, k, v) <==> has_tag_group(old(m)@, k, v));
    }
}

/// Whether some of the first `n` entries are of an operation.
pub open spec fn operation_seen(entries: Seq<EntryModel>, n: int, operation: Seq<char>) -> bool {
    exists|i: int| 0 <= i < n && (#[trigger] entries[i]).operation == operation
}

/// Whether some of the first `n` entries carry a tag value.
pub open spec fn tag_seen(
    entries: Seq<EntryModel>,
    n: int,
    key: Seq<char>,
    value: Seq<char>,
) -> bool {
    exists|i: int| 0 <= i < n && (#[trigger] entries[i]).tagged(key, value)
}

/// Whether some of the first `n` entries carry a tag.
pub open spec fn key_seen(entries: Seq<EntryModel>, n: int, key: Seq<char>) -> bool {
    exists|i: int| 0 <= i < n && (#[trigger] entries[i]).tags.contains_key(key)
}

impl CostReport {
    /// Whether the report groups the entries as it should.
    pub open spec fn groups(self, entries: Seq<EntryModel>) -> bool {
        let n = entries.len() as int;
        &&& forall|op: Seq<char>| #[trigger]
            self.by_operation@.contains_key(op) <==> operation_seen(entries, n, op)
        &&& forall|op: Seq<char>| #[trigger]
            group(self.by_operation@, op) == operation_places(entries, op)
        &&& forall|k: Seq<char>| #[trigger] self.by_tag@.contains_key(k) <==> key_seen(entries, n, k)
        &&& forall|k: Seq<char>, v: Seq<char>| #[trigger]
            has_tag_group(self.by_tag@, k, v) <==> tag_seen(entries, n, k, v)
        &&& forall|k: Seq<char>, v: Seq<char>| #[trigger]
            tag_group(self.by_tag@, k, v) == tag_places(entries, k, v)
    }
}

/// The recorded entries.
pub struct CostState {
    entries: Vec<CostEntry>,
}

impl View for CostState {
    type V = Seq<EntryModel>;

    closed spec fn view(&self) -> Seq<EntryModel> {
        models(self.entries@)
    }
}

impl Default for CostState {
    fn default() -> (r: Self)
        ensures
            r@ == Seq::<EntryModel>::empty(),
    {
        Self::new()
    }
}

impl CostState {
    /// A state without entries.
    pub fn new() -> (r: Self)
        ensures
            r@ == Seq::<EntryModel>::empty(),
    {
        let r = CostState { entries: Vec::new() };
        assert(r@ =~= Seq::<EntryModel>::empty());
        r
    }

    /// Records an entry.
    pub fn record(&mut self, entry: CostEntry)
        ensures
            final(self)@ == old(self)@.push(entry@),
    {
        self.entries.push(entry);
        assert(self@ =~= old(self)@.push(entry@));
    }

    /// The recorded entries.
    pub fn snapshot(&self) -> (r: Vec<CostEntry>)
        ensures
            models(r@) == self@,
    {
        let mut r: Vec<CostEntry> = Vec::new();
        let mut i: usize = 0;
        while i < self.entries.len()
            invariant
                i <= self.entries@.len(),
                r@.len() == i,
                forall|j: int| 0 <= j < i ==> (#[trigger] r@[j])@ == self.entries@[j]@,
            decreases self.entries@.len() - i,
        {
            r.push(self.entries[i].clone());
            i += 1;
        }
        assert(models(r@) =~= self@);
        r
    }

    /// Adds position `i` to the groups of the tags of its entry.
    fn group_tags(&self, m: &mut StrMap<StrMap<Vec<usize>>>, i: usize)
        requires
            i < self@.len(),
        ensures
            forall|k: Seq<char>, v: Seq<char>| #[trigger]
                tag_group(final(m)@, k, v) == if self@[i as int].tagged(k, v) {
                    tag_group(old(m)@, k, v).push(i)
                } else {
                    tag_group(old(m)@, k, v)
                },
            forall|k: Seq<char>, v: Seq<char>| #[trigger]
                has_tag_group(final(m)@, k, v) <==> has_tag_group(old(m)@, k, v)
                    || self@[i as int].tagged(k, v),
            forall|k: Seq<char>| #[trigger]
                final(m)@.contains_key(k) <==> old(m)@.contains_key(k)
                    || self@[i as int].tags.contains_key(k),
    {
        let tags = &self.entries[i].tags;
        let n: usize = tags.len();
        let ghost e = self@[i as int];
        let ghost order = tags.order();
        let mut j: usize = 0;
        assert(order.take(0) =~= Seq::<Seq<char>>::empty());
        while j < n
            invariant
                j <= n,
                n == order.len(),
                order == tags.order(),
                order.no_duplicates(),
                e.tags == tags@,
                forall|k: Seq<char>| #[trigger] order.contains(k) <==> tags@.contains_key(k),
                forall|k: Seq<char>, v: Seq<char>| #[trigger]
                    tag_group(m@, k, v) == if order.take(j as int).contains(k) && e.tagged(k, v) {
                        tag_group(old(m)@, k, v).push(i)
                    } else {
                        tag_group(old(m)@, k, v)
                    },
                forall|k: Seq<char>, v: Seq<char>| #[trigger]
                    has_tag_group(m@, k, v) <==> has_tag_group(old(m)@, k, v) || (order.take(
                        j as int,
                    ).contains(k) && e.tagged(k, v)),
                forall|k: Seq<char>| #[trigger]
                    m@.contains_key(k) <==> old(m)@.contains_key(k) || order.take(
                        j as int,
                    ).contains(k),
            decreases n - j,
        {
            let ghost done = order.take(j as int);
            let ghost more = order.take(j + 1);
            let ghost k0 = order[j as int];
            let ghost mid = m@;
            proof {
                assert(more =~= done.push(k0));
                if done.contains(k0) {
                    let x = done.index_of(k0);
                    assert(order[x] == order[j as int]);
                }
                assert forall|k: Seq<char>| #[trigger] more.contains(k) <==> done.contains(k) || k
                    == k0 by {
                    if done.contains(k) {
                        let x = done.index_of(k);
                        assert(more[x] == k);
                    }
                    if k == k0 {
                        assert(more[j as int] == k);
                    }
                    if more.contains(k) {
                        let x = more.index_of(k);
                        if x < j {
                            assert(done[x] == k);
                        }
                    }
                }
                assert(order.contains(k0));
            }
            append_to_tag(m, tags.key_at(j).as_str(), tags.value_at(j).as_str(), i);
            proof {
                assert forall|k: Seq<char>, v: Seq<char>| #[trigger] tag_group(m@, k, v)
                    == if more.contains(k) && e.tagged(k, v) {
                    tag_group(old(m)@, k, v).push(i)
                } else {
                    tag_group(old(m)@, k, v)
                } by {
                    assert(tag_group(mid, k, v) == if done.contains(k) && e.tagged(k, v) {
                        tag_group(old(m)@, k, v).push(i)
                    } else {
                        tag_group(old(m)@, k, v)
                    });
                }
                assert forall|k: Seq<char>, v: Seq<char>| #[trigger] has_tag_group(m@, k, v)
                    <==> has_tag_group(old(m)@, k, v) || (more.contains(k) && e.tagged(k, v)) by {
                    assert(has_tag_group(mid, k, v) <==> has_tag_group(old(m)@, k, v) || (
                    done.contains(k) && e.tagged(k, v)));
                }
                assert forall|k: Seq<char>| #[trigger] m@.contains_key(k) <==> old(
                    m,
                )@.contains_key(k) || more.contains(k) by {
                    assert(mid.contains_key(k) <==> old(m)@.contains_key(k) || done.contains(k));
                }
            }
            j += 1;
        }
        assert(order.take(n as int) =~= order);
    }

    /// Build an aggregate report across all recorded cost entries.
    pub fn report(&self) -> (r: CostReport)
        ensures
            r.groups(self@),
            r.entry_count == self@.len(),
            r.currency@ == if self@.len() > 0 {
                self@[0].currency
            } else {
                "USD"@
            },
    {
        let n: usize = self.entries.len();
        let ghost all = self@;
        let currency = if n > 0 {
            self.entries[0].currency.clone()
        } else {
            default_currency()
        };
        let mut by_operation: StrMap<Vec<usize>> = StrMap::new();
        let mut by_tag: StrMap<StrMap<Vec<usize>>> = StrMap::new();
        let mut i: usize = 0;
        while i < n
            invariant
                i <= n,
                n == all.len(),
                n == self.entries@.len(),
                all == self@,
                forall|op: Seq<char>| #[trigger]
                    by_operation@.contains_key(op) <==> operation_seen(all, i as int, op),
                forall|op: Seq<char>| #[trigger]
                    group(by_operation@, op) == places(
                        i as nat,
                        |x: int| all[x].operation == op,
                    ),
                forall|k: Seq<char>| #[trigger]
                    by_tag@.contains_key(k) <==> key_seen(all, i as int, k),
                forall|k: Seq<char>, v: Seq<char>| #[trigger]
                    has_tag_group(by_tag@, k, v) <==> tag_seen(all, i as int, k, v),
                forall|k: Seq<char>, v: Seq<char>| #[trigger]
                    tag_group(by_tag@, k, v) == places(i as nat, |x: int| all[x].tagged(k, v)),
            decreases n - i,
        {
            let ghost ops = by_operation@;
            let ghost tags = by_tag@;
            append_to(&mut by_operation, self.entries[i].operation.as_str(), i);
            self.group_tags(&mut by_tag, i);
            proof {
                let e = all[i as int];
                assert forall|op: Seq<char>| #[trigger] by_operation@.contains_key(op)
                    <==> operation_seen(all, i + 1, op) by {
                    assert(ops.contains_key(op) <==> operation_seen(all, i as int, op));
                    if operation_seen(all, i + 1, op) {
                        let x = choose|x: int|
                            0 <= x < i + 1 && (#[trigger] all[x]).operation == op;
                        if x < i {
                            assert(operation_seen(all, i as int, op));
                        }
                    }
                }
                assert forall|op: Seq<char>| #[trigger] group(by_operation@, op) == places(
                    (i + 1) as nat,
                    |x: int| all[x].operation == op,
                ) by {
                    assert(group(ops, op) == places(i as nat, |x: int| all[x].operation == op));
                }
                assert forall|k: Seq<char>| #[trigger] by_tag@.contains_key(k) <==> key_seen(
                    all,
                    i + 1,
                    k,
                ) by {
                    assert(tags.contains_key(k) <==> key_seen(all, i as int, k));
                    if key_seen(all, i + 1, k) {
                        let x = choose|x: int|
                            0 <= x < i + 1 && (#[trigger] all[x]).tags.contains_key(k);
                        if x < i {
                            assert(key_seen(all, i as int, k));
                        }
                    }
                }
                assert forall|k: Seq<char>, v: Seq<char>| #[trigger] has_tag_group(by_tag@, k, v)
                    <==> tag_seen(all, i + 1, k, v) by {
                    assert(has_tag_group(tags, k, v) <==> tag_seen(all, i as int, k, v));
                    if tag_seen(all, i + 1, k, v) {
                        let x = choose|x: int| 0 <= x < i + 1 && (#[trigger] all[x]).tagged(k, v);
                        if x < i {
                            assert(tag_seen(all, i as int, k, v));
                        }
                    }
                }
                assert forall|k: Seq<char>, v: Seq<char>| #[trigger] tag_group(by_tag@, k, v)
                    == places((i + 1) as nat, |x: int| all[x].tagged(k, v)) by {
                    assert(tag_group(tags, k, v) == places(
                        i as nat,
                        |x: int| all[x].tagged(k, v),
                    ));
                }
            }
            i += 1;
        }
        CostReport { currency, entry_count: n, by_operation, by_tag }
    }

    /// Which entries share in a cost that is allocated across the values of
    /// `tag_key`, proportional to each value's historical share of recorded
    /// cost.
    pub fn allocate(&self, total_amount: i64, tag_key: &str) -> (r: CostAllocation)
        ensures
            r.tag_key@ == tag_key@,
            r.total_amount == total_amount,
            forall|v: Seq<char>| #[trigger]
                r.allocations@.contains_key(v) <==> tag_seen(
                    self@,
                    self@.len() as int,
                    tag_key@,
                    v,
                ),
            forall|v: Seq<char>| #[trigger]
                group(r.allocations@, v) == tag_places(self@, tag_key@, v),
    {
        let n: usize = self.entries.len();
        let ghost all = self@;
        let mut allocations: StrMap<Vec<usize>> = StrMap::new();
        let mut i: usize = 0;
        while i < n
            invariant
                i <= n,
                n == all.len(),
                n == self.entries@.len(),
                all == self@,
                forall|v: Seq<char>| #[trigger]
                    allocations@.contains_key(v) <==> tag_seen(all, i as int, tag_key@, v),
                forall|v: Seq<char>| #[trigger]
                    group(allocations@, v) == places(
                        i as nat,
                        |x: int| all[x].tagged(tag_key@, v),
                    ),
            decreases n - i,
        {
            let ghost before = allocations@;
            match self.entries[i].tags.get(tag_key) {
                Some(value) => append_to(&mut allocations, value.as_str(), i),
                None => {},
            }
            proof {
                let e = all[i as int];
                assert forall|v: Seq<char>| #[trigger] allocations@.contains_key(v) <==> tag_seen(
                    all,
                    i + 1,
                    tag_key@,
                    v,
                ) by {
                    assert(before.contains_key(v) <==> tag_seen(all, i as int, tag_key@, v));
                    if tag_seen(all, i + 1, tag_key@, v) {
                        let x = choose|x: int|
                            0 <= x < i + 1 && (#[trigger] all[x]).tagged(tag_key@, v);
                        if x < i {
                            assert(tag_seen(all, i as int, tag_key@, v));
                        }
                    }
                }
                assert forall|v: Seq<char>| #[trigger] group(allocations@, v) == places(
                    (i + 1) as nat,
                    |x: int| all[x].tagged(tag_key@, v),
                ) by {
                    assert(group(before, v) == places(
                        i as nat,
                        |x: int| all[x].tagged(tag_key@, v),
                    ));
                }
            }
            i += 1;
        }
        CostAllocation { tag_key: tag_key.to_owned(), total_amount, allocations }
    }
}

/// Whether a request names an operation and no negative amount.
pub open spec fn recordable(body: RecordCostRequest) -> bool {
    text::trim(body.operation@).len() > 0 && body.amount >= 0
}

/// The entry that a request asks for, with the given identifier and time.
pub open spec fn entry_of(body: RecordCostRequest, id: Seq<char>, now: Timestamp) -> EntryModel {
    EntryModel {
        id,
        operation: body.operation@,
        tags: body.tags@,
        amount: body.amount,
        currency: body.currency@,
        recorded_at: now,
    }
}

/// Whether a request to record a cost may end in `r` and leave `after`, where
/// the entry gets the given identifier and time.
pub open spec fn records(
    before: Seq<EntryModel>,
    after: Seq<EntryModel>,
    body: RecordCostRequest,
    id: Seq<char>,
    now: Timestamp,
    r: Result<CostEntry, ApiError>,
) -> bool {
    match r {
        Ok(e) => {
            &&& recordable(body)
            &&& e@ == entry_of(body, id, now)
            &&& after == before.push(e@)
        },
        Err(e) => {
            &&& !recordable(body)
            &&& after == before
            &&& e.status == 422
            &&& e.code@ == "unprocessable_entity"@
            &&& e.message@ == if text::trim(body.operation@).len() == 0 {
                "operation must not be empty"@
            } else {
                "amount must be non-negative"@
            }
        },
    }
}

/// Record a cost entry, under a fresh identifier and at the present time.
pub fn record_cost_entry(state: &mut CostState, body: RecordCostRequest) -> (r: Result<
    CostEntry,
    ApiError,
>)
    ensures
        exists|id: Seq<char>, now: Timestamp|
            id.len() == 36 && #[trigger] records(
                old(state)@,
                final(state)@,
                body,
                id,
                now,
                r,
            ),
{
    let id = fresh_id();
    record_cost_entry_as(state, body, id, Timestamp::now())
}

/// Record a cost entry with the given identifier and time.
pub fn record_cost_entry_as(
    state: &mut CostState,
    body: RecordCostRequest,
    id: String,
    now: Timestamp,
) -> (r: Result<CostEntry, ApiError>)
    ensures
        records(old(state)@, final(state)@, body, id@, now, r),
{
    let operation = trimmed(body.operation.as_str());
    if operation.as_str().unicode_len() == 0 {
        return Err(ApiError::new(422, "unprocessable_entity", "operation must not be empty"));
    }
    if body.amount < 0 {
        return Err(ApiError::new(422, "unprocessable_entity", "amount must be non-negative"));
    }
    let entry = CostEntry {
        id,
        operation: body.operation,
        tags: body.tags,
        amount: body.amount,
        currency: body.currency,
        recorded_at: now,
    };
    let copy = entry.clone();
    state.record(entry);
    Ok(copy)
}

/// Allocate a shared cost across tag values.
pub fn allocate_cost(state: &CostState, body: &AllocateCostRequest) -> (r: Result<
    CostAllocation,
    ApiError,
>)
    ensures
        match r {
            Ok(a) => {
                &&& text::trim(body.tag_key@).len() > 0
                &&& a.tag_key@ == body.tag_key@
                &&& a.total_amount == body.total_amount
                &&& forall|v: Seq<char>| #[trigger]
                    a.allocations@.contains_key(v) <==> tag_seen(
                        state@,
                        state@.len() as int,
                        body.tag_key@,
                        v,
                    )
                &&& forall|v: Seq<char>| #[trigger]
                    group(a.allocations@, v) == tag_places(state@, body.tag_key@, v)
            },
            Err(e) => {
                &&& text::trim(body.tag_key@).len() == 0
                &&& e.status == 422
                &&& e.code@ == "unprocessable_entity"@
                &&& e.message@ == "tag_key must not be empty"@
            },
        },
{
    let key = trimmed(body.tag_key.as_str());
    if key.as_str().unicode_len() == 0 {
        return Err(ApiError::new(422, "unprocessable_entity", "tag_key must not be empty"));
    }
    Ok(state.allocate(body.total_amount, body.tag_key.as_str()))
}

/// Whether a position occurs in a list of positions.
pub open spec fn listed(s: Seq<usize>, i: int) -> bool {
    exists|x: int| 0 <= x < s.len() && #[trigger] s[x] == i
}

/// A group holds exactly the positions that belong to it, each once and in
/// order, so that no cost is attributed twice or lost.
pub proof fn law_groups_are_exact(n: nat, pred: spec_fn(int) -> bool)
    requires
        n <= usize::MAX,
    ensures
        forall|i: int| 0 <= i < n ==> (#[trigger] listed(places(n, pred), i) <==> pred(i)),
        forall|x: int, y: int|
            0 <= x < y < places(n, pred).len() ==> (#[trigger] places(n, pred)[x]) < (
            #[trigger] places(n, pred)[y]),
        forall|x: int| 0 <= x < places(n, pred).len() ==> #[trigger] places(n, pred)[x] < n,
    decreases n,
{
    if n > 0 {
        let before = places((n - 1) as nat, pred);
        let all = places(n, pred);
        law_groups_are_exact((n - 1) as nat, pred);
        assert forall|i: int| 0 <= i < n implies (#[trigger] listed(all, i) <==> pred(i)) by {
            if i < n - 1 {
                assert(listed(before, i) <==> pred(i));
                if listed(before, i) {
                    let x = choose|x: int| 0 <= x < before.len() && #[trigger] before[x] == i;
                    assert(all[x] == i);
                }
                if listed(all, i) {
                    let x = choose|x: int| 0 <= x < all.len() && #[trigger] all[x] == i;
                    assert(x < before.len());
                    assert(before[x] == i);
                }
            } else if pred(n - 1) {
                assert(all[before.len() as int] == n - 1);
            } else if listed(all, i) {
                let x = choose|x: int| 0 <= x < all.len() && #[trigger] all[x] == i;
                assert(before[x] < n - 1);
            }
        }
    }
}

/// A cost is recorded with the operation, tags, amount and currency of the
/// request, behind those that were recorded before; one without an operation or with a
/// negative amount is refused and leaves nothing behind.
pub proof fn law_cost_is_recorded_or_refused(
    before: Seq<EntryModel>,
    after: Seq<EntryModel>,
    body: RecordCostRequest,
    id: Seq<char>,
    now: Timestamp,
    r: Result<CostEntry, ApiError>,
)
    requires
        records(before, after, body, id, now, r),
    ensures
        text::trim(body.operation@).len() == 0 ==> r is Err && after == before,
        body.amount < 0 ==> r is Err && after == before,
        text::trim(body.operation@).len() > 0 && body.amount >= 0 ==> r is Ok,
        r is Ok ==> {
            &&& after.len() == before.len() + 1
            &&& after.last().id == id
            &&& after.last().operation == body.operation@
            &&& after.last().tags == body.tags@
            &&& after.last().amount == body.amount
            &&& after.last().currency == body.currency@
            &&& after.last().recorded_at == now
            &&& after.drop_last() == before
        },
        r is Err ==> r->Err_0.status == 422,
        text::trim(body.operation@).len() == 0 ==> r->Err_0.message@
            == "operation must not be empty"@,
        text::trim(body.operation@).len() > 0 && body.amount < 0 ==> r->Err_0.message@
            == "amount must be non-negative"@,
{
    if r is Ok {
        assert(after.drop_last() =~= before);
    }
}

/// A report groups the entries exactly: an entry is in the group of an operation
/// if and only if that is its operation, and in the group of a tag if and only if it
/// carries the tag with that value.
pub proof fn law_groups_hold_their_entries(
    entries: Seq<EntryModel>,
    operation: Seq<char>,
    key: Seq<char>,
    value: Seq<char>,
    i: int,
)
    requires
        entries.len() <= usize::MAX,
        0 <= i < entries.len(),
    ensures
        listed(operation_places(entries, operation), i) <==> entries[i].operation == operation,
        listed(tag_places(entries, key, value), i) <==> entries[i].tags.contains_key(key)
            && entries[i].tags[key]@ == value,
{
    let by_op = |j: int| entries[j].operation == operation;
    let by_tag = |j: int| entries[j].tagged(key, value);
    law_groups_are_exact(entries.len(), by_op);
    law_groups_are_exact(entries.len(), by_tag);
    assert(listed(places(entries.len(), by_op), i) <==> by_op(i));
    assert(listed(places(entries.len(), by_tag), i) <==> by_tag(i));
}

/// A report has a group for every operation and every value of a tag that occurs,
/// and for no other, and every group lists its entries.
pub proof fn law_report_has_every_group(
    r: CostReport,
    entries: Seq<EntryModel>,
    i: int,
    operation: Seq<char>,
    key: Seq<char>,
)
    requires
        r.groups(entries),
    ensures
        0 <= i < entries.len() ==> r.by_operation@.contains_key(entries[i].operation),
        (forall|j: int| 0 <= j < entries.len() ==> (#[trigger] entries[j]).operation != operation)
            ==> !r.by_operation@.contains_key(operation),
        r.by_operation@.contains_key(operation) ==> r.by_operation@[operation]@
            == operation_places(entries, operation),
        0 <= i < entries.len() && entries[i].tags.contains_key(key) ==> r.by_tag@.contains_key(key)
            && r.by_tag@[key]@.contains_key(entries[i].tags[key]@) && r.by_tag@[key]@[entries[i].tags[key]@]@
            == tag_places(entries, key, entries[i].tags[key]@),
{
    let n = entries.len() as int;
    if 0 <= i < entries.len() {
        let op = entries[i].operation;
        assert(operation_seen(entries, n, op));
        if entries[i].tags.contains_key(key) {
            let v = entries[i].tags[key]@;
            assert(entries[i].tagged(key, v));
            assert(tag_seen(entries, n, key, v));
            assert(has_tag_group(r.by_tag@, key, v));
            assert(tag_group(r.by_tag@, key, v) == tag_places(entries, key, v));
            assert(group(r.by_tag@[key]@, v) == r.by_tag@[key]@[v]@);
        }
    }
    assert(group(r.by_operation@, operation) == operation_places(entries, operation));
    if forall|j: int| 0 <= j < entries.len() ==> (#[trigger] entries[j]).operation != operation {
        assert(!operation_seen(entries, n, operation));
    }
}

} // verus!
