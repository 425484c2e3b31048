//! Change data capture for event sourcing.
//!
//! Changes to critical tables are captured as events, kept in a bounded store,
//! dispatched to subscribers, transformed into domain events, and can be
//! replayed to rebuild state.

use crate::clock::Timestamp;
use crate::json::Json;
use crate::ring;
use crate::ring::push_bounded;
use crate::sequences;
use crate::text::{copied, str_eq};
use vstd::prelude::*;
use vstd::string::*;

verus! {

/// The operation type that produced an event.
#[derive(Debug, Clone, Copy, PartialEq, Eq, Structural)]
pub enum ChangeOperation {
    Insert,
    Update,
    Delete,
}

impl ChangeOperation {
    /// The name of the operation.
    pub open spec fn spec_name(self) -> Seq<char> {
        match self {
            ChangeOperation::Insert => "Insert"@,
            ChangeOperation::Update => "Update"@,
            ChangeOperation::Delete => "Delete"@,
        }
    }

    /// The name of the operation.
    pub fn name(&self) -> (r: &'static str)
        ensures
            r@ == self.spec_name(),
    {
        match self {
            ChangeOperation::Insert => "Insert",
            ChangeOperation::Update => "Update",
            ChangeOperation::Delete => "Delete",
        }
    }
}

/// A raw change captured from a critical table.
#[derive(Debug)]
pub struct CdcEvent {
    /// Monotonically increasing sequence number within a store.
    pub seq: u64,
    /// Wall-clock timestamp (RFC 3339).
    pub timestamp: String,
    /// Source table name (e.g. `"vaults"`, `"audit_logs"`).
    pub table: String,
    /// Operation that caused the change.
    pub operation: ChangeOperation,
    /// Snapshot of the row before the change (`None` for inserts).
    pub before: Option<Json>,
    /// Snapshot of the row after the change (`None` for deletes).
    pub after: Option<Json>,
    /// Optional transaction / correlation ID.
    pub tx_id: Option<String>,
}

/// A copy of an optional row.
fn copied_row(row: &Option<Json>) -> (r: Option<Json>)
    ensures
        r == *row,
{
    match row {
        Some(v) => Some(v.clone()),
        None => None,
    }
}

impl Clone for CdcEvent {
    fn clone(&self) -> (r: Self)
        ensures
            r == *self,
    {
        CdcEvent {
            seq: self.seq,
            timestamp: self.timestamp.clone(),
            table: self.table.clone(),
            operation: self.operation,
            before: copied_row(&self.before),
            after: copied_row(&self.after),
            tx_id: copied(&self.tx_id),
        }
    }
}

/// A higher-level event derived from a raw change.
#[derive(Debug, PartialEq, Eq)]
pub enum DomainEvent {
    VaultCreated { vault_id: String },
    VaultUpdated { vault_id: String },
    VaultDeleted { vault_id: String },
    AuditLogAppended { resource: String },
    SubscriptionChanged { vault_id: String },
    GenericChange { table: String, operation: String },
}

/// What a domain event says.
pub enum DomainModel {
    VaultCreated { vault_id: Seq<char> },
    VaultUpdated { vault_id: Seq<char> },
    VaultDeleted { vault_id: Seq<char> },
    AuditLogAppended { resource: Seq<char> },
    SubscriptionChanged { vault_id: Seq<char> },
    GenericChange { table: Seq<char>, operation: Seq<char> },
}

impl View for DomainEvent {
    type V = DomainModel;

    open spec fn view(&self) -> DomainModel {
        match self {
            DomainEvent::VaultCreated { vault_id } => DomainModel::VaultCreated {
                vault_id: vault_id@,
            },
            DomainEvent::VaultUpdated { vault_id } => DomainModel::VaultUpdated {
                vault_id: vault_id@,
            },
            DomainEvent::VaultDeleted { vault_id } => DomainModel::VaultDeleted {
                vault_id: vault_id@,
            },
            DomainEvent::AuditLogAppended { resource } => DomainModel::AuditLogAppended {
                resource: resource@,
            },
            DomainEvent::SubscriptionChanged { vault_id } => DomainModel::SubscriptionChanged {
                vault_id: vault_id@,
            },
            DomainEvent::GenericChange { table, operation } => DomainModel::GenericChange {
                table: table@,
                operation: operation@,
            },
        }
    }
}

impl Clone for DomainEvent {
    fn clone(&self) -> (r: Self)
        ensures
            r == *self,
    {
        match self {
            DomainEvent::VaultCreated { vault_id } => DomainEvent::VaultCreated {
                vault_id: vault_id.clone(),
            },
            DomainEvent::VaultUpdated { vault_id } => DomainEvent::VaultUpdated {
                vault_id: vault_id.clone(),
            },
            DomainEvent::VaultDeleted { vault_id } => DomainEvent::VaultDeleted {
                vault_id: vault_id.clone(),
            },
            DomainEvent::AuditLogAppended { resource } => DomainEvent::AuditLogAppended {
                resource: resource.clone(),
            },
            DomainEvent::SubscriptionChanged { vault_id } => DomainEvent::SubscriptionChanged {
                vault_id: vault_id.clone(),
            },
            DomainEvent::GenericChange { table, operation } => DomainEvent::GenericChange {
                table: table.clone(),
                operation: operation.clone(),
            },
        }
    }
}

/// The text under `key` in a row, or `unknown`.
pub open spec fn named(row: Option<Json>, key: Seq<char>) -> Seq<char> {
    match row {
        Some(v) => match v.member_text(key) {
            Some(s) => s,
            None => "unknown"@,
        },
        None => "unknown"@,
    }
}

/// The row after the change, or before it where there is none after.
pub open spec fn latest_row(event: CdcEvent) -> Option<Json> {
    match event.after {
        Some(v) => Some(v),
        None => event.before,
    }
}

/// The domain event that a raw change stands for.
pub open spec fn meaning(event: CdcEvent) -> DomainModel {
    if event.table@ == "vaults"@ {
        let vault_id = named(latest_row(event), "id"@);
        match event.operation {
            ChangeOperation::Insert => DomainModel::VaultCreated { vault_id },
            ChangeOperation::Update => DomainModel::VaultUpdated { vault_id },
            ChangeOperation::Delete => DomainModel::VaultDeleted { vault_id },
        }
    } else if event.table@ == "audit_logs"@ {
        DomainModel::AuditLogAppended { resource: named(event.after, "resource"@) }
    } else if event.table@ == "vault_subscriptions"@ {
        DomainModel::SubscriptionChanged { vault_id: named(latest_row(event), "vault_id"@) }
    } else {
        DomainModel::GenericChange {
            table: event.table@,
            operation: event.operation.spec_name(),
        }
    }
}

/// The text under `key` in a row, or `unknown`.
fn name_in(row: &Option<Json>, key: &str) -> (r: String)
    ensures
        r@ == named(*row, key@),
{
    match row {
        Some(v) => match v.get_str(key) {
            Some(s) => s.to_owned(),
            None => "unknown".to_owned(),
        },
        None => "unknown".to_owned(),
    }
}

/// Transform a raw change into a typed domain event.
///
/// The mapping is best-effort; unknown tables fall through to
/// `DomainEvent::GenericChange`.
pub fn transform_event(event: &CdcEvent) -> (r: DomainEvent)
    ensures
        r@ == meaning(*event),
{
    let latest = if event.after.is_some() {
        &event.after
    } else {
        &event.before
    };
    let table = event.table.as_str();
    proof {
        reveal_strlit("vaults");
        reveal_strlit("audit_logs");
        reveal_strlit("vault_subscriptions");
    }
    if str_eq(table, "vaults") {
        let vault_id = name_in(latest, "id");
        match event.operation {
            ChangeOperation::Insert => DomainEvent::VaultCreated { vault_id },
            ChangeOperation::Update => DomainEvent::VaultUpdated { vault_id },
            ChangeOperation::Delete => DomainEvent::VaultDeleted { vault_id },
        }
    } else if str_eq(table, "audit_logs") {
        DomainEvent::AuditLogAppended { resource: name_in(&event.after, "resource") }
    } else if str_eq(table, "vault_subscriptions") {
        DomainEvent::SubscriptionChanged { vault_id: name_in(latest, "vault_id") }
    } else {
        DomainEvent::GenericChange {
            table: event.table.clone(),
            operation: event.operation.name().to_owned(),
        }
    }
}

/// What an event store holds.
#[verifier::ext_equal]
pub struct StoreModel {
    /// The buffered events, oldest first.
    pub events: Seq<CdcEvent>,
    /// The sequence number of the next event.
    pub next_seq: u64,
    /// How many events are kept.
    pub max_events: usize,
}

impl StoreModel {
    /// A store without events.
    pub open spec fn empty(max_events: usize) -> StoreModel {
        StoreModel { events: Seq::empty(), next_seq: 0, max_events }
    }

    /// The store after an event was appended.
    pub open spec fn appended(self, event: CdcEvent) -> StoreModel {
        StoreModel {
            events: ring::keep_last(
                self.events.push(CdcEvent { seq: self.next_seq, ..event }),
                self.max_events as nat,
            ),
            next_seq: (self.next_seq + 1) as u64,
            ..self
        }
    }

    /// The events from a sequence number on.
    pub open spec fn since(self, from_seq: u64) -> Seq<CdcEvent> {
        self.events.filter(|e: CdcEvent| e.seq >= from_seq)
    }

    /// Whether the buffered events have the sequence numbers up to the next
    /// one, without gaps and in order.
    pub open spec fn contiguous(self) -> bool {
        &&& self.events.len() <= self.next_seq
        &&& forall|i: int|
            0 <= i < self.events.len() ==> (#[trigger] self.events[i]).seq == self.next_seq
                - self.events.len() + i
    }
}

/// Whether some event has the given sequence number.
pub open spec fn present(events: Seq<CdcEvent>, seq: u64) -> bool {
    exists|i: int| 0 <= i < events.len() && (#[trigger] events[i]).seq == seq
}

/// Whether a sequence number lies between those of two events.
pub open spec fn between(events: Seq<CdcEvent>, seq: u64) -> bool {
    &&& exists|i: int| 0 <= i < events.len() && (#[trigger] events[i]).seq <= seq
    &&& exists|i: int| 0 <= i < events.len() && (#[trigger] events[i]).seq >= seq
}

/// Whether `r` lists the missing sequence numbers in ascending order.
pub open spec fn lists_gaps(events: Seq<CdcEvent>, r: Seq<u64>) -> bool {
    &&& forall|i: int, j: int| 0 <= i < j < r.len() ==> #[trigger] r[i] < #[trigger] r[j]
    &&& forall|s: u64| #[trigger] r.contains(s) <==> between(events, s) && !present(events, s)
}

/// In-memory bounded store for captured events.
///
/// Older events beyond `max_events` are discarded from the front.
pub struct CdcEventStore {
    events: Vec<CdcEvent>,
    next_seq: u64,
    max_events: usize,
}

impl View for CdcEventStore {
    type V = StoreModel;

    closed spec fn view(&self) -> StoreModel {
        StoreModel {
            events: self.events@,
            next_seq: self.next_seq,
            max_events: self.max_events,
        }
    }
}

impl CdcEventStore {
    /// A store that keeps the last `max_events` events.
    pub fn new(max_events: usize) -> (r: Self)
        ensures
            r@ == StoreModel::empty(max_events),
            r@.contiguous(),
    {
        CdcEventStore { events: Vec::new(), next_seq: 0, max_events }
    }

    /// Append an event, which gets the next sequence number. Trims the oldest
    /// entry when the buffer is full.
    pub fn append(&mut self, event: CdcEvent)
        requires
            old(self)@.max_events > 0,
            old(self)@.next_seq < u64::MAX,
        ensures
            final(self)@ == old(self)@.appended(event),
            old(self)@.contiguous() ==> final(self)@.contiguous(),
    {
        let mut numbered = event;
        numbered.seq = self.next_seq;
        self.next_seq = self.next_seq + 1;
        push_bounded(&mut self.events, numbered, self.max_events);
    }

    /// Number of events currently stored.
    pub fn len(&self) -> (r: usize)
        ensures
            r == self@.events.len(),
    {
        self.events.len()
    }

    /// Whether no event is stored.
    pub fn is_empty(&self) -> (r: bool)
        ensures
            r == (self@.events.len() == 0),
    {
        self.events.len() == 0
    }

    /// The events with `seq >= from_seq`, in the order in which they are to be
    /// replayed.
    pub fn replay(&self, from_seq: u64) -> (r: Vec<CdcEvent>)
        ensures
            r@ == self@.since(from_seq),
    {
        let ghost pred = |e: CdcEvent| e.seq >= from_seq;
        let mut r: Vec<CdcEvent> = Vec::new();
        let mut i: usize = 0;
        proof {
            reveal(Seq::filter);
            assert(self.events@.take(0).filter(pred) =~= Seq::<CdcEvent>::empty());
        }
        while i < self.events.len()
            invariant
                i <= self.events@.len(),
                pred == (|e: CdcEvent| e.seq >= from_seq),
                r@ == self.events@.take(i as int).filter(pred),
            decreases self.events@.len() - i,
        {
            proof {
                reveal(Seq::filter);
                assert(self.events@.take(i + 1).drop_last() =~= self.events@.take(i as int));
                assert(self.events@.take(i + 1).last() == self.events@[i as int]);
            }
            if self.events[i].seq >= from_seq {
                r.push(self.events[i].clone());
            }
            i += 1;
        }
        assert(self.events@.take(i as int) =~= self.events@);
        r
    }

    /// Return all events matching a specific table name.
    pub fn events_for_table(&self, table: &str) -> (r: Vec<CdcEvent>)
        ensures
            r@ == self@.events.filter(|e: CdcEvent| e.table@ == table@),
    {
        let ghost pred = |e: CdcEvent| e.table@ == table@;
        let mut r: Vec<CdcEvent> = Vec::new();
        let mut i: usize = 0;
        proof {
            reveal(Seq::filter);
            assert(self.events@.take(0).filter(pred) =~= Seq::<CdcEvent>::empty());
        }
        while i < self.events.len()
            invariant
                i <= self.events@.len(),
                pred == (|e: CdcEvent| e.table@ == table@),
                r@ == self.events@.take(i as int).filter(pred),
            decreases self.events@.len() - i,
        {
            proof {
                reveal(Seq::filter);
                assert(self.events@.take(i + 1).drop_last() =~= self.events@.take(i as int));
                assert(self.events@.take(i + 1).last() == self.events@[i as int]);
            }
            if str_eq(self.events[i].table.as_str(), table) {
                r.push(self.events[i].clone());
            }
            i += 1;
        }
        assert(self.events@.take(i as int) =~= self.events@);
        r
    }

    /// Return events with a sequence number of at least `from` and below `to`.
    pub fn range(&self, from: u64, to: u64) -> (r: Vec<CdcEvent>)
        ensures
            r@ == self@.events.filter(|e: CdcEvent| from <= e.seq < to),
    {
        let ghost pred = |e: CdcEvent| from <= e.seq < to;
        let mut r: Vec<CdcEvent> = Vec::new();
        let mut i: usize = 0;
        proof {
            reveal(Seq::filter);
            assert(self.events@.take(0).filter(pred) =~= Seq::<CdcEvent>::empty());
        }
        while i < self.events.len()
            invariant
                i <= self.events@.len(),
                pred == (|e: CdcEvent| from <= e.seq < to),
                r@ == self.events@.take(i as int).filter(pred),
            decreases self.events@.len() - i,
        {
            proof {
                reveal(Seq::filter);
                assert(self.events@.take(i + 1).drop_last() =~= self.events@.take(i as int));
                assert(self.events@.take(i + 1).last() == self.events@[i as int]);
            }
            if self.events[i].seq >= from && self.events[i].seq < to {
                r.push(self.events[i].clone());
            }
            i += 1;
        }
        assert(self.events@.take(i as int) =~= self.events@);
        r
    }

    /// Whether some event has the given sequence number.
    fn has_seq(&self, seq: u64) -> (r: bool)
        ensures
            r == present(self.events@, seq),
    {
        let mut i: usize = 0;
        while i < self.events.len()
            invariant
                i <= self.events@.len(),
                forall|j: int| 0 <= j < i ==> (#[trigger] self.events@[j]).seq != seq,
            decreases self.events@.len() - i,
        {
            if self.events[i].seq == seq {
                return true;
            }
            i += 1;
        }
        false
    }

    /// Check consistency: returns the sequence numbers that are missing from
    /// the contiguous sequence starting at the earliest stored event.
    pub fn check_consistency(&self) -> (r: Vec<u64>)
        ensures
            lists_gaps(self@.events, r@),
            self@.contiguous() ==> r@.len() == 0,
    {
        let mut gaps: Vec<u64> = Vec::new();
        if self.events.len() == 0 {
            return gaps;
        }
        let mut lo: u64 = self.events[0].seq;
        let mut hi: u64 = self.events[0].seq;
        let mut i: usize = 1;
        while i < self.events.len()
            invariant
                1 <= i <= self.events@.len(),
                present(self.events@, lo),
                present(self.events@, hi),
                forall|j: int| 0 <= j < i ==> lo <= (#[trigger] self.events@[j]).seq <= hi,
            decreases self.events@.len() - i,
        {
            let s: u64 = self.events[i].seq;
            if s < lo {
                lo = s;
            }
            if s > hi {
                hi = s;
            }
            i += 1;
        }
        let mut s: u64 = lo;
        while s < hi
            invariant
                lo <= s <= hi,
                present(self.events@, lo),
                present(self.events@, hi),
                forall|j: int|
                    0 <= j < self.events@.len() ==> lo <= (#[trigger] self.events@[j]).seq <= hi,
                forall|x: int, y: int|
                    0 <= x < y < gaps@.len() ==> #[trigger] gaps@[x] < #[trigger] gaps@[y],
                forall|x: int| 0 <= x < gaps@.len() ==> #[trigger] gaps@[x] < s,
                forall|g: u64| #[trigger]
                    gaps@.contains(g) <==> lo <= g < s && !present(self.events@, g),
            decreases hi - s,
        {
            let ghost before = gaps@;
            if !self.has_seq(s) {
                gaps.push(s);
                proof {
                    assert forall|g: u64| #[trigger] gaps@.contains(g) <==> lo <= g < s + 1
                        && !present(self.events@, g) by {
                        if before.contains(g) {
                            let x = before.index_of(g);
                            assert(gaps@[x] == g);
                        }
                        if g == s {
                            assert(gaps@[before.len() as int] == s);
                        }
                        if gaps@.contains(g) {
                            let x = gaps@.index_of(g);
                            if x < before.len() {
                                assert(before[x] == g);
                            }
                        }
                    }
                }
            }
            s += 1;
        }
        proof {
            assert forall|g: u64| #[trigger] gaps@.contains(g) <==> between(self.events@, g)
                && !present(self.events@, g) by {
                if between(self.events@, g) && !present(self.events@, g) {
                    assert(lo <= g <= hi);
                }
                if lo <= g <= hi {
                    let a = choose|a: int|
                        0 <= a < self.events@.len() && (#[trigger] self.events@[a]).seq == lo;
                    let b = choose|b: int|
                        0 <= b < self.events@.len() && (#[trigger] self.events@[b]).seq == hi;
                    assert(between(self.events@, g));
                }
            }
            if self@.contiguous() && gaps@.len() > 0 {
                let g = gaps@[0];
                assert(gaps@.contains(g));
                let first = self@.next_seq - self@.events.len();
                let k = g - first;
                assert(self@.events[k].seq == g);
                assert(present(self.events@, g));
            }
        }
        gaps
    }

    /// Snapshot all currently buffered events.
    pub fn snapshot(&self) -> (r: Vec<CdcEvent>)
        ensures
            r@ == self@.events,
    {
        let r = self.events.clone();
        assert(r@ =~= self.events@);
        r
    }
}

/// What names a subscriber.
pub type SubscriberId = u64;

/// A registered subscriber.
pub struct Subscription<F> {
    /// Its name.
    pub id: SubscriberId,
    /// What is called for each event.
    pub call: F,
}

/// Who listens on a bus.
#[verifier::ext_equal]
pub struct BusModel<F> {
    /// The subscribers, in the order of their registration.
    pub subscribers: Seq<Subscription<F>>,
    /// The name of the next subscriber.
    pub next_id: SubscriberId,
}

impl<F> BusModel<F> {
    /// A bus without subscribers.
    pub open spec fn empty() -> Self {
        BusModel { subscribers: Seq::empty(), next_id: 0 }
    }

    /// Whether the subscribers have different names, all given out already.
    pub open spec fn named_apart(self) -> bool {
        &&& forall|i: int|
            0 <= i < self.subscribers.len() ==> (#[trigger] self.subscribers[i]).id < self.next_id
        &&& forall|i: int, j: int|
            0 <= i < j < self.subscribers.len() ==> (#[trigger] self.subscribers[i]).id != (
            #[trigger] self.subscribers[j]).id
    }

    /// The bus without the subscriber of a name.
    pub open spec fn without(self, id: SubscriberId) -> Self {
        BusModel { subscribers: self.subscribers.filter(|s: Subscription<F>| s.id != id), ..self }
    }
}

/// Names that are apart stay so when one of them goes.
proof fn lemma_filtered_apart<F>(bus: BusModel<F>, id: SubscriberId)
    requires
        bus.named_apart(),
    ensures
        bus.without(id).named_apart(),
    decreases bus.subscribers.len(),
{
    reveal(Seq::filter);
    let pred = |s: Subscription<F>| s.id != id;
    let all = bus.subscribers;
    if all.len() > 0 {
        let short = BusModel { subscribers: all.drop_last(), ..bus };
        assert forall|i: int| 0 <= i < short.subscribers.len() implies short.subscribers[i]
            == #[trigger] all[i] by {}
        lemma_filtered_apart(short, id);
        let kept = short.subscribers.filter(pred);
        assert forall|i: int| 0 <= i < kept.len() implies (#[trigger] kept[i]).id != all.last().id by {
            sequences::lemma_filter_member(short.subscribers, pred, i);
            let j = choose|j: int|
                0 <= j < short.subscribers.len() && #[trigger] short.subscribers[j] == kept[i];
            assert(all[j] == kept[i]);
        }
        assert(short.without(id).subscribers == kept);
        let left = bus.without(id).subscribers;
        assert(left == if pred(all.last()) {
            kept.push(all.last())
        } else {
            kept
        });
        assert forall|i: int| 0 <= i < left.len() implies (#[trigger] left[i]).id < bus.next_id by {
            if i < kept.len() {
                assert(left[i] == kept[i]);
            } else {
                assert(left[i] == all[all.len() - 1]);
            }
        }
        assert forall|i: int, j: int| 0 <= i < j < left.len() implies (#[trigger] left[i]).id != (
        #[trigger] left[j]).id by {
            assert(left[i] == kept[i]);
            if j < kept.len() {
                assert(left[j] == kept[j]);
            } else {
                assert(left[j] == all.last());
            }
        }
    }
}

/// Simple synchronous publish-subscribe bus for events.
///
/// Subscribers are registered with `subscribe` and called for each published
/// event.
pub struct CdcBus<F> {
    subscribers: Vec<Subscription<F>>,
    next_id: SubscriberId,
}

impl<F> View for CdcBus<F> {
    type V = BusModel<F>;

    closed spec fn view(&self) -> BusModel<F> {
        BusModel { subscribers: self.subscribers@, next_id: self.next_id }
    }
}

impl<F: Fn(&CdcEvent)> Default for CdcBus<F> {
    fn default() -> (r: Self)
        ensures
            r@ == BusModel::<F>::empty(),
    {
        Self::new()
    }
}

impl<F: Fn(&CdcEvent)> CdcBus<F> {
    /// A bus without subscribers.
    pub fn new() -> (r: Self)
        ensures
            r@ == BusModel::<F>::empty(),
            r@.named_apart(),
    {
        CdcBus { subscribers: Vec::new(), next_id: 0 }
    }

    /// Register a subscriber. Returns an ID that can be used to unsubscribe.
    pub fn subscribe(&mut self, f: F) -> (r: SubscriberId)
        requires
            old(self)@.next_id < u64::MAX,
        ensures
            r == old(self)@.next_id,
            final(self)@ == (BusModel {
                subscribers: old(self)@.subscribers.push(Subscription { id: r, call: f }),
                next_id: (r + 1) as u64,
            }),
            old(self)@.named_apart() ==> final(self)@.named_apart(),
    {
        let id: u64 = self.next_id;
        self.next_id = id + 1;
        self.subscribers.push(Subscription { id, call: f });
        id
    }

    /// Unregister a previously registered subscriber.
    pub fn unsubscribe(&mut self, id: SubscriberId)
        ensures
            final(self)@ == old(self)@.without(id),
            old(self)@.named_apart() ==> final(self)@.named_apart(),
    {
        let ghost pred = |s: Subscription<F>| s.id != id;
        let ghost all = self.subscribers@;
        let ghost mut seen: int = 0;
        let mut i: usize = 0;
        proof {
            sequences::lemma_filter_none(all.take(0), pred);
            assert(all.take(0) + all.skip(0) =~= all);
        }
        while i < self.subscribers.len()
            invariant
                pred == (|s: Subscription<F>| s.id != id),
                0 <= seen <= all.len(),
                i == all.take(seen).filter(pred).len(),
                self.subscribers@ == all.take(seen).filter(pred) + all.skip(seen),
                self.next_id == old(self)@.next_id,
                all == old(self)@.subscribers,
            decreases self.subscribers@.len() - i,
        {
            proof {
                assert(self.subscribers@[i as int] == all[seen]);
                assert(all.take(seen + 1).drop_last() =~= all.take(seen));
                reveal(Seq::filter);
            }
            if self.subscribers[i].id == id {
                let _gone = self.subscribers.remove(i);
                assert(self.subscribers@ =~= all.take(seen + 1).filter(pred) + all.skip(seen + 1));
            } else {
                i += 1;
                assert(self.subscribers@ =~= all.take(seen + 1).filter(pred) + all.skip(seen + 1));
            }
            proof {
                seen = seen + 1;
            }
        }
        proof {
            assert(seen == all.len());
            assert(all.take(seen) =~= all);
            assert(all.skip(seen) =~= Seq::empty());
            assert(self@ =~= old(self)@.without(id));
            if old(self)@.named_apart() {
                lemma_filtered_apart(old(self)@, id);
            }
        }
    }

    /// Dispatch `event` to all registered subscribers.
    pub fn publish(&self, event: CdcEvent)
        requires
            forall|i: int|
                0 <= i < self@.subscribers.len() ==> call_requires(
                    (#[trigger] self@.subscribers[i]).call,
                    (&event,),
                ),
        ensures
            forall|i: int|
                0 <= i < self@.subscribers.len() ==> call_ensures(
                    (#[trigger] self@.subscribers[i]).call,
                    (&event,),
                    (),
                ),
    {
        let mut i: usize = 0;
        while i < self.subscribers.len()
            invariant
                i <= self@.subscribers.len(),
                forall|j: int|
                    0 <= j < self@.subscribers.len() ==> call_requires(
                        (#[trigger] self@.subscribers[j]).call,
                        (&event,),
                    ),
                forall|j: int|
                    0 <= j < i ==> call_ensures(
                        (#[trigger] self@.subscribers[j]).call,
                        (&event,),
                        (),
                    ),
            decreases self@.subscribers.len() - i,
        {
            assert(self@.subscribers[i as int] == self@.subscribers[i as int]);
            let f = &self.subscribers[i].call;
            f(&event);
            i += 1;
        }
    }

    /// Number of active subscribers.
    pub fn subscriber_count(&self) -> (r: usize)
        ensures
            r == self@.subscribers.len(),
    {
        self.subscribers.len()
    }
}

/// Whether `e` is the event of a change made at `now`, not yet numbered by a
/// store.
pub open spec fn is_change(
    e: CdcEvent,
    table: Seq<char>,
    operation: ChangeOperation,
    before: Option<Json>,
    after: Option<Json>,
    tx_id: Option<String>,
    now: Timestamp,
) -> bool {
    &&& e.seq == 0
    &&& e.timestamp@ == now.rfc3339()
    &&& e.table@ == table
    &&& e.operation == operation
    &&& e.before == before
    &&& e.after == after
    &&& e.tx_id == tx_id
}

/// Records writes to the store and dispatches them on the bus.
pub struct CdcCapture<F> {
    /// Where events are kept.
    pub store: CdcEventStore,
    /// Where events are dispatched.
    pub bus: CdcBus<F>,
}

impl<F: Fn(&CdcEvent)> CdcCapture<F> {
    /// A capture over a store and a bus.
    pub fn new(store: CdcEventStore, bus: CdcBus<F>) -> (r: Self)
        ensures
            r.store == store,
            r.bus == bus,
    {
        CdcCapture { store, bus }
    }

    /// Record an insert/update/delete and dispatch it to the event bus.
    ///
    /// `table` is the affected table, `before` and `after` are snapshots of
    /// the row, `tx_id` is an optional correlation identifier.
    pub fn record(
        &mut self,
        table: &str,
        operation: ChangeOperation,
        before: Option<Json>,
        after: Option<Json>,
        tx_id: Option<String>,
    )
        requires
            old(self).store@.max_events > 0,
            old(self).store@.next_seq < u64::MAX,
            forall|i: int, e: CdcEvent|
                0 <= i < old(self).bus@.subscribers.len() ==> #[trigger] call_requires(
                    old(self).bus@.subscribers[i].call,
                    (&e,),
                ),
        ensures
            final(self).bus == old(self).bus,
            exists|e: CdcEvent, now: Timestamp|
                {
                    &&& #[trigger] is_change(e, table@, operation, before, after, tx_id, now)
                    &&& final(self).store@ == old(self).store@.appended(e)
                    &&& forall|i: int|
                        0 <= i < old(self).bus@.subscribers.len() ==> call_ensures(
                            (#[trigger] old(self).bus@.subscribers[i]).call,
                            (&e,),
                            (),
                        )
                },
    {
        self.record_at(table, operation, before, after, tx_id, Timestamp::now());
    }

    /// Record a change made at `now` and dispatch it to the event bus.
    pub fn record_at(
        &mut self,
        table: &str,
        operation: ChangeOperation,
        before: Option<Json>,
        after: Option<Json>,
        tx_id: Option<String>,
        now: Timestamp,
    )
        requires
            old(self).store@.max_events > 0,
            old(self).store@.next_seq < u64::MAX,
            forall|i: int, e: CdcEvent|
                0 <= i < old(self).bus@.subscribers.len() ==> #[trigger] call_requires(
                    old(self).bus@.subscribers[i].call,
                    (&e,),
                ),
        ensures
            final(self).bus == old(self).bus,
            exists|e: CdcEvent|
                {
                    &&& #[trigger] is_change(e, table@, operation, before, after, tx_id, now)
                    &&& final(self).store@ == old(self).store@.appended(e)
                    &&& forall|i: int|
                        0 <= i < old(self).bus@.subscribers.len() ==> call_ensures(
                            (#[trigger] old(self).bus@.subscribers[i]).call,
                            (&e,),
                            (),
                        )
                },
    {
        let event = CdcEvent {
            seq: 0,
            timestamp: now.to_rfc3339(),
            table: table.to_owned(),
            operation,
            before,
            after,
            tx_id,
        };
        let ghost e = event;
        self.store.append(event.clone());
        self.bus.publish(event);
        assert(is_change(e, table@, operation, before, after, tx_id, now));
    }
}

/// What a list of domain events says.
pub open spec fn meanings(events: Seq<DomainEvent>) -> Seq<DomainModel> {
    Seq::new(events.len(), |i: int| events[i]@)
}

/// A projection that accumulates domain events by replaying a store.
pub struct CdcProjection {
    pub events: Vec<DomainEvent>,
}

impl CdcProjection {
    /// Build a projection by replaying all events in `store` from `from_seq`.
    pub fn build(store: &CdcEventStore, from_seq: u64) -> (r: Self)
        ensures
            meanings(r.events@) == store@.since(from_seq).map_values(|e: CdcEvent| meaning(e)),
    {
        let raw = store.replay(from_seq);
        let mut events: Vec<DomainEvent> = Vec::new();
        let mut i: usize = 0;
        while i < raw.len()
            invariant
                i <= raw@.len(),
                events@.len() == i,
                forall|j: int| 0 <= j < i ==> (#[trigger] events@[j])@ == meaning(raw@[j]),
            decreases raw@.len() - i,
        {
            events.push(transform_event(&raw[i]));
            i += 1;
        }
        assert(meanings(events@) =~= raw@.map_values(|e: CdcEvent| meaning(e)));
        CdcProjection { events }
    }

    /// Count the events for which a predicate holds.
    pub fn count_by_table<P: Fn(&DomainEvent) -> bool>(&self, predicate: P) -> (r: usize)
        requires
            forall|i: int|
                0 <= i < self.events@.len() ==> call_requires(
                    predicate,
                    (&#[trigger] self.events@[i],),
                ),
        ensures
            exists|verdicts: Seq<bool>|
                {
                    &&& #[trigger] judged(predicate, self.events@, verdicts)
                    &&& r == count_true(verdicts)
                },
    {
        let ghost mut verdicts: Seq<bool> = Seq::empty();
        let mut n: usize = 0;
        let mut i: usize = 0;
        while i < self.events.len()
            invariant
                i <= self.events@.len(),
                verdicts.len() == i,
                n == count_true(verdicts),
                n <= i,
                forall|j: int|
                    0 <= j < self.events@.len() ==> call_requires(
                        predicate,
                        (&#[trigger] self.events@[j],),
                    ),
                forall|j: int|
                    0 <= j < i ==> call_ensures(
                        predicate,
                        (&self.events@[j],),
                        #[trigger] verdicts[j],
                    ),
            decreases self.events@.len() - i,
        {
            let yes: bool = predicate(&self.events[i]);
            proof {
                let more = verdicts.push(yes);
                assert(more.drop_last() =~= verdicts);
                verdicts = more;
            }
            if yes {
                n += 1;
            }
            i += 1;
        }
        assert(judged(predicate, self.events@, verdicts));
        n
    }
}

/// Whether `verdicts` are answers that a predicate may give for the events.
pub open spec fn judged<P: Fn(&DomainEvent) -> bool>(
    predicate: P,
    events: Seq<DomainEvent>,
    verdicts: Seq<bool>,
) -> bool {
    &&& verdicts.len() == events.len()
    &&& forall|i: int|
        0 <= i < events.len() ==> call_ensures(predicate, (&events[i],), #[trigger] verdicts[i])
}

/// How many of the answers are yes.
pub open spec fn count_true(verdicts: Seq<bool>) -> nat
    decreases verdicts.len(),
{
    if verdicts.len() == 0 {
        0
    } else {
        count_true(verdicts.drop_last()) + if verdicts.last() {
            1nat
        } else {
            0nat
        }
    }
}

/// Sequence numbers stay contiguous: appending to a store without gaps leaves
/// one without gaps, the new event is the last, and no more than the capacity
/// is kept.
pub proof fn law_sequence_has_no_gaps(s: StoreModel, event: CdcEvent)
    requires
        s.contiguous(),
        s.max_events > 0,
        s.next_seq < u64::MAX,
    ensures
        StoreModel::empty(s.max_events).contiguous(),
        s.appended(event).contiguous(),
        s.appended(event).events.len() <= s.max_events,
        s.appended(event).events.last() == (CdcEvent { seq: s.next_seq, ..event }),
{
}

/// A replay from a stored sequence number on gives exactly the end of the
/// buffer from that event on.
pub proof fn law_replay_is_the_tail(s: StoreModel, k: int)
    requires
        s.contiguous(),
        0 <= k < s.events.len(),
    ensures
        s.since(s.events[k].seq) == s.events.subrange(k, s.events.len() as int),
{
    let from_seq = s.events[k].seq;
    let pred = |e: CdcEvent| e.seq >= from_seq;
    let head = s.events.take(k);
    let tail = s.events.subrange(k, s.events.len() as int);
    assert(s.events =~= head + tail);
    assert forall|i: int| 0 <= i < head.len() implies !pred(#[trigger] head[i]) by {
        assert(head[i] == s.events[i]);
    }
    assert forall|i: int| 0 <= i < tail.len() implies pred(#[trigger] tail[i]) by {
        assert(tail[i] == s.events[k + i]);
    }
    Seq::filter_distributes_over_add(head, tail, pred);
    sequences::lemma_filter_all(head, pred);
    sequences::lemma_filter_none(tail, pred);
    assert(Seq::<CdcEvent>::empty() + tail =~= tail);
}

/// What a change means: rows of the vaults are created, updated or deleted, a row
/// of the audit log is an entry for its resource, a row of the subscriptions a
/// change for its vault, and any other change is passed on by name.
pub proof fn law_change_has_its_meaning(e: CdcEvent)
    ensures
        e.table@ == "vaults"@ && e.operation == ChangeOperation::Insert ==> meaning(e)
            is VaultCreated,
        e.table@ == "vaults"@ && e.operation == ChangeOperation::Update ==> meaning(e)
            is VaultUpdated,
        e.table@ == "vaults"@ && e.operation == ChangeOperation::Delete ==> meaning(e)
            is VaultDeleted,
        e.table@ == "vaults"@ && e.after is Some && e.after->0.member_text("id"@) is Some
            && e.operation == ChangeOperation::Insert ==> meaning(e) == (DomainModel::VaultCreated {
            vault_id: e.after->0.member_text("id"@)->0,
        }),
        e.table@ == "vaults"@ && e.after is Some && e.after->0.member_text("id"@) is Some
            && e.operation == ChangeOperation::Update ==> meaning(e) == (DomainModel::VaultUpdated {
            vault_id: e.after->0.member_text("id"@)->0,
        }),
        e.table@ == "vaults"@ && e.after is None && e.before is Some && e.before->0.member_text(
            "id"@,
        ) is Some && e.operation == ChangeOperation::Delete ==> meaning(e) == (
        DomainModel::VaultDeleted { vault_id: e.before->0.member_text("id"@)->0 }),
        e.table@ == "audit_logs"@ && e.after is Some && e.after->0.member_text("resource"@) is Some
            ==> meaning(e) == (DomainModel::AuditLogAppended {
            resource: e.after->0.member_text("resource"@)->0,
        }),
        e.table@ == "audit_logs"@ && e.after is None ==> meaning(e) == (
        DomainModel::AuditLogAppended { resource: "unknown"@ }),
        e.table@ == "vault_subscriptions"@ && e.after is Some && e.after->0.member_text(
            "vault_id"@,
        ) is Some ==> meaning(e) == (DomainModel::SubscriptionChanged {
            vault_id: e.after->0.member_text("vault_id"@)->0,
        }),
        e.table@ != "vaults"@ && e.table@ != "audit_logs"@ && e.table@ != "vault_subscriptions"@
            ==> meaning(e) == (DomainModel::GenericChange {
            table: e.table@,
            operation: e.operation.spec_name(),
        }),
        e.table@ == "vaults"@ && e.after is None && e.before is None && e.operation
            == ChangeOperation::Delete ==> meaning(e) == (DomainModel::VaultDeleted {
            vault_id: "unknown"@,
        }),
{
    reveal_strlit("vaults");
    reveal_strlit("audit_logs");
    reveal_strlit("vault_subscriptions");
    assert("vaults"@.len() == 6 && "audit_logs"@.len() == 10 && "vault_subscriptions"@.len() == 19);
}

/// A replay holds the kept events from the given number on, in order: an event
/// is in it exactly if it is kept and its number is not smaller.
pub proof fn law_replay_starts_at_its_number(s: StoreModel, e: CdcEvent, from_seq: u64)
    ensures
        s.since(from_seq).contains(e) <==> s.events.contains(e) && e.seq >= from_seq,
        s.since(0) == s.events,
{
    sequences::lemma_filter_counts(s.events, |x: CdcEvent| x.seq >= from_seq, e);
    sequences::lemma_filter_none(s.events, |x: CdcEvent| x.seq >= 0);
}

/// A store below its limit keeps every event; at its limit the oldest one makes
/// way for the new one.
pub proof fn law_oldest_event_makes_way(s: StoreModel, event: CdcEvent)
    requires
        s.next_seq < u64::MAX,
        s.events.len() <= s.max_events,
        s.max_events > 0,
    ensures
        s.appended(event).next_seq == s.next_seq + 1,
        s.events.len() < s.max_events ==> s.appended(event).events.drop_last() == s.events,
        s.events.len() == s.max_events ==> s.appended(event).events.drop_last() == s.events.skip(1),
        s.appended(event).events.last().seq == s.next_seq,
        s.appended(event).events.last().table == event.table,
        s.appended(event).events.last().operation == event.operation,
{
    let a = s.appended(event).events;
    if s.events.len() < s.max_events {
        assert(a.drop_last() =~= s.events);
    } else {
        assert(a.drop_last() =~= s.events.skip(1));
    }
}

/// A consecutive run of events has no gaps, and a number that is skipped between
/// two events is listed as one.
pub proof fn law_skipped_number_is_a_gap(events: Seq<CdcEvent>, r: Seq<u64>, i: int, s: u64)
    requires
        lists_gaps(events, r),
        0 <= i,
        i + 1 < events.len(),
        events[i].seq < s < events[i + 1].seq,
        forall|j: int| 0 <= j < events.len() ==> (#[trigger] events[j]).seq != s,
    ensures
        r.contains(s),
        forall|k: int| 0 <= k < r.len() ==> !present(events, #[trigger] r[k]),
{
    assert(between(events, s)) by {
        assert(events[i].seq <= s);
        assert(events[i + 1].seq >= s);
    }
    assert(r.contains(s));
    assert forall|k: int| 0 <= k < r.len() implies !present(events, #[trigger] r[k]) by {
        assert(r.contains(r[k]));
    }
}

/// Whoever unsubscribes is gone, and the others stay in their order.
pub proof fn law_unsubscribing_takes_one<F>(
    subscribers: Seq<Subscription<F>>,
    last: Subscription<F>,
    next_id: SubscriberId,
    id: SubscriberId,
)
    ensures
        ({
            let with = BusModel { subscribers: subscribers.push(last), next_id };
            let less = BusModel { subscribers, next_id };
            &&& last.id == id ==> with.without(id) == less.without(id)
            &&& last.id != id ==> with.without(id).subscribers == less.without(
                id,
            ).subscribers.push(last)
            &&& with.without(id).next_id == next_id
        }),
{
    reveal(Seq::filter);
    assert(subscribers.push(last).drop_last() =~= subscribers);
}

/// A captured change carries its table, operation, rows and transaction, and the
/// moment.
pub proof fn law_change_is_captured_whole(
    e: CdcEvent,
    table: Seq<char>,
    operation: ChangeOperation,
    before: Option<Json>,
    after: Option<Json>,
    tx_id: Option<String>,
    now: Timestamp,
)
    requires
        is_change(e, table, operation, before, after, tx_id, now),
    ensures
        e.table@ == table,
        e.operation == operation,
        e.before == before,
        e.after == after,
        e.tx_id == tx_id,
        e.timestamp@ == now.rfc3339(),
{
}

/// What a predicate accepts is counted, and nothing else.
pub proof fn law_accepted_events_are_counted(verdicts: Seq<bool>, yes: bool)
    ensures
        count_true(Seq::<bool>::empty()) == 0,
        count_true(verdicts.push(yes)) == count_true(verdicts) + if yes {
            1nat
        } else {
            0nat
        },
{
    assert(verdicts.push(yes).drop_last() =~= verdicts);
}

/// Subscribers have numbers of their own, smaller than the next one.
pub proof fn law_subscribers_are_told_apart<F>(b: BusModel<F>, call: F, i: int, j: int)
    requires
        b.named_apart(),
        b.next_id < SubscriberId::MAX,
    ensures
        0 <= i < j < b.subscribers.len() ==> b.subscribers[i].id != b.subscribers[j].id,
        0 <= i < b.subscribers.len() ==> b.subscribers[i].id < b.next_id,
        (BusModel {
            subscribers: b.subscribers.push(Subscription { id: b.next_id, call }),
            next_id: (b.next_id + 1) as SubscriberId,
        }).named_apart(),
{
}

/// The names of the operations.
pub proof fn law_operations_by_name()
    ensures
        ChangeOperation::Insert.spec_name() == "Insert"@,
        ChangeOperation::Update.spec_name() == "Update"@,
        ChangeOperation::Delete.spec_name() == "Delete"@,
{
}

} // verus!
