//! Bulkhead isolation: every endpoint has its own bounded number of requests
//! in flight and its own bounded queue, so that a slow endpoint cannot starve
//! the others.

use crate::cache_metrics;
use crate::strmap::StrMap;
use crate::text;
use crate::text::{chars_of, position_of, string_of};
use vstd::prelude::*;
use vstd::string::*;

verus! {

/// Configuration for a single endpoint's bulkhead.
#[derive(Debug, Clone, Copy, PartialEq, Eq, Structural)]
pub struct BulkheadConfig {
    /// Maximum number of requests to this endpoint that may execute
    /// concurrently.
    pub max_concurrent: usize,
    /// Maximum number of requests allowed to wait for a free slot before new
    /// requests are rejected outright.
    pub max_queue_size: usize,
}

impl Default for BulkheadConfig {
    fn default() -> (r: Self)
        ensures
            r == (BulkheadConfig { max_concurrent: 10, max_queue_size: 20 }),
    {
        BulkheadConfig { max_concurrent: 10, max_queue_size: 20 }
    }
}

/// The state of one endpoint.
#[derive(Debug, Clone, Copy, PartialEq, Eq, Structural)]
pub struct Bulkhead {
    pub config: BulkheadConfig,
    /// Requests in flight.
    pub active: usize,
    /// Requests that wait for a slot.
    pub queued: usize,
    pub rejected: u64,
    pub completed: u64,
}

/// What happens to a request.
#[derive(Debug, Clone, Copy, PartialEq, Eq, Structural)]
pub enum Admission {
    /// It runs at once.
    Admitted,
    /// It waits until a slot is handed to it.
    Queued,
    /// It is turned away.
    Rejected,
}

impl Bulkhead {
    /// An endpoint without requests.
    pub open spec fn idle(config: BulkheadConfig) -> Bulkhead {
        Bulkhead { config, active: 0, queued: 0, rejected: 0, completed: 0 }
    }

    /// What happens to the next request.
    pub open spec fn decision(self) -> Admission {
        if self.active < self.config.max_concurrent {
            Admission::Admitted
        } else if self.queued < self.config.max_queue_size {
            Admission::Queued
        } else {
            Admission::Rejected
        }
    }

    /// The endpoint after the next request.
    pub open spec fn entered(self) -> Bulkhead {
        match self.decision() {
            Admission::Admitted => Bulkhead { active: (self.active + 1) as usize, ..self },
            Admission::Queued => Bulkhead { queued: (self.queued + 1) as usize, ..self },
            Admission::Rejected => Bulkhead {
                rejected: cache_metrics::wrapping_sum(self.rejected, 1),
                ..self
            },
        }
    }

    /// The endpoint after one of its requests has ended: the slot goes to a
    /// waiting request, where there is one.
    pub open spec fn left(self) -> Bulkhead {
        let done = cache_metrics::wrapping_sum(self.completed, 1);
        if self.queued > 0 {
            Bulkhead { queued: (self.queued - 1) as usize, completed: done, ..self }
        } else {
            Bulkhead { active: (self.active - 1) as usize, completed: done, ..self }
        }
    }

    /// An endpoint without requests.
    pub fn new(config: BulkheadConfig) -> (r: Self)
        ensures
            r == Bulkhead::idle(config),
    {
        Bulkhead { config, active: 0, queued: 0, rejected: 0, completed: 0 }
    }

    /// Decides on the next request.
    pub fn enter(&mut self) -> (r: Admission)
        ensures
            r == old(self).decision(),
            *final(self) == old(self).entered(),
    {
        if self.active < self.config.max_concurrent {
            self.active = self.active + 1;
            Admission::Admitted
        } else if self.queued < self.config.max_queue_size {
            self.queued = self.queued + 1;
            Admission::Queued
        } else {
            self.rejected = self.rejected.wrapping_add(1);
            Admission::Rejected
        }
    }

    /// Ends a request. Tells whether its slot was handed to a waiting one.
    pub fn leave(&mut self) -> (r: bool)
        requires
            old(self).active > 0,
        ensures
            r == (old(self).queued > 0),
            *final(self) == old(self).left(),
    {
        self.completed = self.completed.wrapping_add(1);
        if self.queued > 0 {
            self.queued = self.queued - 1;
            true
        } else {
            self.active = self.active - 1;
            false
        }
    }
}

/// Error returned when a bulkhead rejects a request outright because its wait
/// queue is already full.
#[derive(Debug)]
pub struct BulkheadQueueFull {
    pub endpoint: String,
}

impl BulkheadQueueFull {
    /// The error in words.
    pub fn to_string(&self) -> (r: String)
        ensures
            r@ == "bulkhead queue full for endpoint "@ + self.endpoint@,
    {
        text::joined("bulkhead queue full for endpoint ", self.endpoint.as_str())
    }

    /// The message for the client that was turned away.
    pub fn message(&self) -> (r: String)
        ensures
            r@ == "endpoint "@ + self.endpoint@ + " is overloaded, queue capacity exceeded"@,
    {
        let mut out = "endpoint ".to_owned();
        out.append(self.endpoint.as_str());
        out.append(" is overloaded, queue capacity exceeded");
        out
    }
}

/// A slot, or a place in the queue for one, at an endpoint.
#[derive(Debug)]
pub struct BulkheadPermit {
    pub endpoint: String,
    /// Whether the request has to wait until a slot is handed to it.
    pub waiting: bool,
}

/// The figures of one endpoint.
#[derive(Debug)]
pub struct BulkheadMetricsSnapshot {
    pub endpoint: String,
    pub max_concurrent: usize,
    pub max_queue_size: usize,
    pub active: usize,
    pub queued: usize,
    pub rejected_total: u64,
    pub completed_total: u64,
}

/// Whether a snapshot shows an endpoint.
pub open spec fn shows(s: BulkheadMetricsSnapshot, endpoint: Seq<char>, b: Bulkhead) -> bool {
    &&& s.endpoint@ == endpoint
    &&& s.max_concurrent == b.config.max_concurrent
    &&& s.max_queue_size == b.config.max_queue_size
    &&& s.active == b.active
    &&& s.queued == b.queued
    &&& s.rejected_total == b.rejected
    &&& s.completed_total == b.completed
}

/// `s` without the slashes at its start.
pub open spec fn without_leading_slashes(s: Seq<char>) -> Seq<char>
    decreases s.len(),
{
    if s.len() > 0 && s[0] == '/' {
        without_leading_slashes(s.subrange(1, s.len() as int))
    } else {
        s
    }
}

/// The endpoint that a path belongs to: its first two segments.
pub open spec fn endpoint_of(path: Seq<char>) -> Seq<char> {
    let p = without_leading_slashes(path);
    let a = text::first_at(p, '/', 0);
    if a < p.len() {
        "/"@ + p.take(text::first_at(p, '/', a + 1))
    } else {
        "/"@ + p
    }
}

/// The state of an endpoint in a registry; an endpoint that is not there yet
/// is idle.
pub open spec fn state_of(r: RegistryModel, endpoint: Seq<char>) -> Bulkhead {
    if r.bulkheads.contains_key(endpoint) {
        r.bulkheads[endpoint]
    } else {
        Bulkhead::idle(r.default_config)
    }
}

/// Registry of per-endpoint bulkheads, created lazily on first use.
pub struct BulkheadRegistry {
    default_config: BulkheadConfig,
    bulkheads: StrMap<Bulkhead>,
}

/// What there is to know of a registry.
pub struct RegistryModel {
    pub default_config: BulkheadConfig,
    pub bulkheads: Map<Seq<char>, Bulkhead>,
}

impl View for BulkheadRegistry {
    type V = RegistryModel;

    closed spec fn view(&self) -> RegistryModel {
        RegistryModel { default_config: self.default_config, bulkheads: self.bulkheads@ }
    }
}

impl BulkheadRegistry {
    /// A registry without endpoints.
    pub fn new(default_config: BulkheadConfig) -> (r: Self)
        ensures
            r@ == (RegistryModel { default_config, bulkheads: Map::empty() }),
    {
        BulkheadRegistry { default_config, bulkheads: StrMap::new() }
    }

    /// Registers (or replaces) an explicit configuration for `endpoint`.
    pub fn configure(&mut self, endpoint: &str, config: BulkheadConfig)
        ensures
            final(self)@ == (RegistryModel {
                bulkheads: old(self)@.bulkheads.insert(endpoint@, Bulkhead::idle(config)),
                ..old(self)@
            }),
    {
        let _previous = self.bulkheads.insert(endpoint.to_owned(), Bulkhead::new(config));
    }

    /// The endpoint that a path belongs to: its first two segments, such as
    /// `/api/vaults` for `/api/vaults/42`.
    pub fn key_for_path(path: &str) -> (r: String)
        ensures
            r@ == endpoint_of(path@),
    {
        let chars = chars_of(path);
        let mut from: usize = 0;
        assert(path@ =~= chars@.subrange(0, chars@.len() as int));
        while from < chars.len() && chars[from] == '/'
            invariant
                from <= chars@.len(),
                without_leading_slashes(path@) == without_leading_slashes(
                    chars@.subrange(from as int, chars@.len() as int),
                ),
            decreases chars.len() - from,
        {
            let ghost s = chars@.subrange(from as int, chars@.len() as int);
            assert(s[0] == chars@[from as int]);
            assert(s.subrange(1, s.len() as int) =~= chars@.subrange(
                from + 1,
                chars@.len() as int,
            ));
            from += 1;
        }
        let ghost p = chars@.subrange(from as int, chars@.len() as int);
        proof {
            if p.len() > 0 {
                assert(p[0] == chars@[from as int]);
            }
            assert(without_leading_slashes(path@) == p);
            lemma_first_at_shift(chars@, from as int, from as int);
        }
        let a: usize = position_of(&chars, '/', from);
        let end: usize = if a < chars.len() {
            proof {
                lemma_first_at_shift(chars@, from as int, a + 1);
            }
            position_of(&chars, '/', a + 1)
        } else {
            a
        };
        let key = string_of(&chars, from, end);
        assert(key@ =~= p.take(end - from));
        assert(p.take(p.len() as int) =~= p);
        text::joined("/", key.as_str())
    }

    /// Attempts to reserve a slot for the endpoint of `path`. Returns an error
    /// if the endpoint's wait queue is already full; otherwise the permit
    /// tells whether the request runs at once or waits for its slot.
    pub fn acquire(&mut self, path: &str) -> (r: Result<BulkheadPermit, BulkheadQueueFull>)
        ensures
            ({
                let endpoint = endpoint_of(path@);
                let b = state_of(old(self)@, endpoint);
                &&& final(self)@ == (RegistryModel {
                    bulkheads: old(self)@.bulkheads.insert(endpoint, b.entered()),
                    ..old(self)@
                })
                &&& match r {
                    Ok(p) => {
                        &&& p.endpoint@ == endpoint
                        &&& b.decision() != Admission::Rejected
                        &&& p.waiting == (b.decision() == Admission::Queued)
                    },
                    Err(e) => b.decision() == Admission::Rejected && e.endpoint@ == endpoint,
                }
            }),
    {
        let endpoint = Self::key_for_path(path);
        let ghost before = self.bulkheads@;
        let mut b: Bulkhead = match self.bulkheads.get(endpoint.as_str()) {
            Some(b) => *b,
            None => Bulkhead::new(self.default_config),
        };
        let admission = b.enter();
        let _previous = self.bulkheads.insert(endpoint.clone(), b);
        match admission {
            Admission::Admitted => Ok(BulkheadPermit { endpoint, waiting: false }),
            Admission::Queued => Ok(BulkheadPermit { endpoint, waiting: true }),
            Admission::Rejected => Err(BulkheadQueueFull { endpoint }),
        }
    }

    /// Ends a request that held a slot at `endpoint`. Tells whether the slot
    /// was handed to a waiting request, which has to be woken.
    pub fn release(&mut self, endpoint: &str) -> (r: bool)
        requires
            old(self)@.bulkheads.contains_key(endpoint@),
            old(self)@.bulkheads[endpoint@].active > 0,
        ensures
            r == (old(self)@.bulkheads[endpoint@].queued > 0),
            final(self)@ == (RegistryModel {
                bulkheads: old(self)@.bulkheads.insert(
                    endpoint@,
                    old(self)@.bulkheads[endpoint@].left(),
                ),
                ..old(self)@
            }),
    {
        match self.bulkheads.get_mut(endpoint) {
            Some(b) => b.leave(),
            None => false,
        }
    }

    /// The figures of every endpoint.
    pub fn metrics_snapshot(&self) -> (r: Vec<BulkheadMetricsSnapshot>)
        ensures
            r@.len() == self@.bulkheads.len(),
            forall|i: int|
                0 <= i < r@.len() ==> self@.bulkheads.contains_key((#[trigger] r@[i]).endpoint@)
                    && shows(r@[i], r@[i].endpoint@, self@.bulkheads[r@[i].endpoint@]),
            forall|endpoint: Seq<char>| #[trigger]
                self@.bulkheads.contains_key(endpoint) ==> exists|i: int|
                    0 <= i < r@.len() && (#[trigger] r@[i]).endpoint@ == endpoint,
    {
        let n: usize = self.bulkheads.len();
        let ghost order = self.bulkheads.order();
        let mut out: Vec<BulkheadMetricsSnapshot> = Vec::new();
        let mut i: usize = 0;
        while i < n
            invariant
                i <= n,
                n == order.len(),
                order == self.bulkheads.order(),
                out@.len() == i,
                forall|j: int|
                    0 <= j < i ==> shows(
                        #[trigger] out@[j],
                        order[j],
                        self.bulkheads@[order[j]],
                    ),
            decreases n - i,
        {
            let b = self.bulkheads.value_at(i);
            out.push(
                BulkheadMetricsSnapshot {
                    endpoint: self.bulkheads.key_at(i).clone(),
                    max_concurrent: b.config.max_concurrent,
                    max_queue_size: b.config.max_queue_size,
                    active: b.active,
                    queued: b.queued,
                    rejected_total: b.rejected,
                    completed_total: b.completed,
                },
            );
            i += 1;
        }
        proof {
            assert forall|j: int| 0 <= j < out@.len() implies self@.bulkheads.contains_key(
                (#[trigger] out@[j]).endpoint@,
            ) by {
                assert(order.contains(order[j]));
            }
            assert forall|endpoint: Seq<char>| #[trigger] self@.bulkheads.contains_key(
                endpoint,
            ) implies exists|j: int| 0 <= j < out@.len() && (#[trigger] out@[j]).endpoint@ == endpoint by {
                assert(order.contains(endpoint));
                let j = order.index_of(endpoint);
                assert(order[j] == endpoint);
                assert(out@[j].endpoint@ == endpoint);
            }
        }
        out
    }
}

/// Positions in the rest of a string are those in the string, less its start.
proof fn lemma_first_at_shift(s: Seq<char>, from: int, at: int)
    requires
        0 <= from <= at <= s.len(),
    ensures
        text::first_at(s.subrange(from, s.len() as int), '/', at - from) == text::first_at(
            s,
            '/',
            at,
        ) - from,
    decreases s.len() - at,
{
    let p = s.subrange(from, s.len() as int);
    if at < s.len() {
        assert(p[at - from] == s[at]);
        if s[at] != '/' {
            lemma_first_at_shift(s, from, at + 1);
        }
    }
}

/// What holds of every endpoint at all times: neither limit is exceeded, and
/// nobody waits while a slot is free.
pub open spec fn sound(b: Bulkhead) -> bool {
    &&& b.active <= b.config.max_concurrent
    &&& b.queued <= b.config.max_queue_size
    &&& b.queued > 0 ==> b.active == b.config.max_concurrent
}

/// An idle endpoint is sound, and requests that come and go keep it so.
pub proof fn law_limits_are_kept(config: BulkheadConfig, b: Bulkhead)
    requires
        sound(b),
    ensures
        sound(Bulkhead::idle(config)),
        sound(b.entered()),
        b.active > 0 ==> sound(b.left()),
{
}

/// A request is turned away only when every slot and every place in the queue
/// is taken.
pub proof fn law_rejection_means_full(b: Bulkhead)
    requires
        sound(b),
    ensures
        b.decision() == Admission::Rejected <==> b.active == b.config.max_concurrent && b.queued
            == b.config.max_queue_size,
{
}

/// Requests to one endpoint do not change the state of another.
pub proof fn law_endpoints_are_isolated(
    r: RegistryModel,
    endpoint: Seq<char>,
    b: Bulkhead,
    other: Seq<char>,
)
    requires
        other != endpoint,
    ensures
        state_of(
            (RegistryModel { bulkheads: r.bulkheads.insert(endpoint, b), ..r }),
            other,
        ) == state_of(r, other),
{
}

/// A request is let in while a slot is free, waits while the queue has room, and
/// is turned away otherwise; each changes one figure by one and no other.
pub proof fn law_requests_take_slots_before_queueing(b: Bulkhead)
    ensures
        b.active < b.config.max_concurrent ==> b.decision() == Admission::Admitted
            && b.entered().active == b.active + 1 && b.entered().queued == b.queued
            && b.entered().rejected == b.rejected,
        b.active >= b.config.max_concurrent && b.queued < b.config.max_queue_size ==> b.decision()
            == Admission::Queued && b.entered().queued == b.queued + 1 && b.entered().active
            == b.active && b.entered().rejected == b.rejected,
        b.active >= b.config.max_concurrent && b.queued >= b.config.max_queue_size ==> b.decision()
            == Admission::Rejected && b.entered().active == b.active && b.entered().queued
            == b.queued && (b.rejected < u64::MAX ==> b.entered().rejected == b.rejected + 1),
        b.entered().completed == b.completed,
        b.entered().config == b.config,
{
}

/// A request that ends hands its slot to a waiting one, or frees it where none
/// waits; either way one more is complete.
pub proof fn law_ended_request_frees_its_slot(b: Bulkhead)
    requires
        b.active > 0,
    ensures
        b.queued > 0 ==> b.left().active == b.active && b.left().queued == b.queued - 1,
        b.queued == 0 ==> b.left().active == b.active - 1 && b.left().queued == 0,
        b.completed < u64::MAX ==> b.left().completed == b.completed + 1,
        b.left().rejected == b.rejected,
        b.left().config == b.config,
{
}

/// What enters a bulkhead with a free slot and leaves it again leaves it as busy
/// as it was.
pub proof fn law_leaving_undoes_entering(b: Bulkhead)
    requires
        b.active < b.config.max_concurrent,
        b.queued == 0,
    ensures
        b.entered().left().active == b.active,
        b.entered().left().queued == 0,
{
}

/// The endpoint of a path is made of its first two parts: what follows them does
/// not matter, nor do further slashes in front.
pub proof fn law_endpoint_is_the_first_two_parts(
    a: Seq<char>,
    b: Seq<char>,
    rest: Seq<char>,
)
    requires
        a.len() > 0,
        forall|i: int| 0 <= i < a.len() ==> a[i] != '/',
        forall|i: int| 0 <= i < b.len() ==> b[i] != '/',
    ensures
        endpoint_of(seq!['/'] + a + seq!['/'] + b) == seq!['/'] + a + seq!['/'] + b,
        endpoint_of(seq!['/'] + a + seq!['/'] + b + seq!['/'] + rest) == seq!['/'] + a + seq!['/']
            + b,
        endpoint_of(seq!['/'] + a) == seq!['/'] + a,
        endpoint_of(a) == seq!['/'] + a,
        endpoint_of(seq!['/', '/'] + a) == seq!['/'] + a,
{
    reveal_strlit("/");
    reveal_with_fuel(without_leading_slashes, 3);
    assert("/"@ =~= seq!['/']);
    let p1 = a + seq!['/'] + b;
    let w1 = seq!['/'] + a + seq!['/'] + b;
    assert(w1.subrange(1, w1.len() as int) =~= p1);
    let p2 = a + seq!['/'] + b + seq!['/'] + rest;
    let w2 = seq!['/'] + a + seq!['/'] + b + seq!['/'] + rest;
    assert(w2.subrange(1, w2.len() as int) =~= p2);
    let w3 = seq!['/'] + a;
    assert(w3.subrange(1, w3.len() as int) =~= a);
    let w4 = seq!['/', '/'] + a;
    assert(w4.subrange(1, w4.len() as int) =~= w3);
    let n = a.len() as int;
    let m = b.len() as int;
    text::lemma_first_at(a, '/', 0);
    text::lemma_first_at(p1, '/', 0);
    assert(p1[n] == '/');
    assert forall|i: int| 0 <= i < n implies p1[i] != '/' by {
        assert(p1[i] == a[i]);
    }
    assert(text::first_at(p1, '/', 0) == n);
    text::lemma_first_at(p1, '/', n + 1);
    assert forall|i: int| n + 1 <= i < p1.len() implies p1[i] != '/' by {
        assert(p1[i] == b[i - n - 1]);
    }
    assert(text::first_at(p1, '/', n + 1) == p1.len());
    assert(p1.take(p1.len() as int) =~= p1);
    assert(seq!['/'] + p1 =~= w1);
    text::lemma_first_at(p2, '/', 0);
    assert(p2[n] == '/');
    assert forall|i: int| 0 <= i < n implies p2[i] != '/' by {
        assert(p2[i] == a[i]);
    }
    assert(text::first_at(p2, '/', 0) == n);
    text::lemma_first_at(p2, '/', n + 1);
    assert(p2[n + 1 + m] == '/');
    assert forall|i: int| n + 1 <= i < n + 1 + m implies p2[i] != '/' by {
        assert(p2[i] == b[i - n - 1]);
    }
    assert(text::first_at(p2, '/', n + 1) == n + 1 + m);
    assert(p2.take(n + 1 + m) =~= p1);
}

/// An endpoint that was not configured has the default limits.
pub proof fn law_unknown_endpoint_has_default_limits(r: RegistryModel, endpoint: Seq<char>)
    ensures
        !r.bulkheads.contains_key(endpoint) ==> state_of(r, endpoint).config == r.default_config
            && state_of(r, endpoint).active == 0 && state_of(r, endpoint).queued == 0,
        r.bulkheads.contains_key(endpoint) ==> state_of(r, endpoint) == r.bulkheads[endpoint],
{
}

} // verus!
