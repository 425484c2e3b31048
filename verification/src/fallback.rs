//! Fallback chains for graceful degradation.
//!
//! Operators register an ordered chain of fallback targets for a named
//! resource, and callers cascade through them until one succeeds.

use crate::clock::{fresh_id, Timestamp};
use crate::graph::name_listed;
use crate::order;
use crate::order::ranked;
use crate::strmap::StrMap;
use crate::text;
use crate::text::str_eq;
use vstd::prelude::*;

verus! {

/// A single target within a fallback chain, in priority order.
#[derive(Debug)]
pub struct FallbackTarget {
    pub name: String,
    /// URL or logical identifier the target resolves to.
    pub endpoint: String,
    /// Lower numbers are attempted first.
    pub priority: u32,
}

impl Clone for FallbackTarget {
    fn clone(&self) -> (r: Self)
        ensures
            r == *self,
    {
        FallbackTarget {
            name: self.name.clone(),
            endpoint: self.endpoint.clone(),
            priority: self.priority,
        }
    }
}

/// A named, ordered chain of fallback targets for a single resource.
#[derive(Debug)]
pub struct FallbackChain {
    pub id: String,
    pub name: String,
    /// The resource this chain protects (e.g. "webhook:vault-created").
    pub resource: String,
    pub targets: Vec<FallbackTarget>,
    pub created_at: Timestamp,
    pub active: bool,
}

/// What a chain says.
#[verifier::ext_equal]
pub struct ChainModel {
    pub id: Seq<char>,
    pub name: Seq<char>,
    pub resource: Seq<char>,
    pub targets: Seq<FallbackTarget>,
    pub created_at: Timestamp,
    pub active: bool,
}

impl View for FallbackChain {
    type V = ChainModel;

    open spec fn view(&self) -> ChainModel {
        ChainModel {
            id: self.id@,
            name: self.name@,
            resource: self.resource@,
            targets: self.targets@,
            created_at: self.created_at,
            active: self.active,
        }
    }
}

impl Clone for FallbackChain {
    fn clone(&self) -> (r: Self)
        ensures
            r@ == self@,
    {
        let targets = self.targets.clone();
        assert(targets@ =~= self.targets@);
        FallbackChain {
            id: self.id.clone(),
            name: self.name.clone(),
            resource: self.resource.clone(),
            targets,
            created_at: self.created_at,
            active: self.active,
        }
    }
}

/// What is asked to be registered.
#[derive(Debug)]
pub struct RegisterFallbackChainRequest {
    pub name: String,
    pub resource: String,
    pub targets: Vec<FallbackTarget>,
}

/// Outcome of attempting a single target during a cascade.
#[derive(Debug)]
pub struct FallbackAttempt {
    pub target: String,
    pub priority: u32,
    pub succeeded: bool,
    pub error: Option<String>,
}

/// Result of cascading through a chain, either live or simulated.
#[derive(Debug)]
pub struct FallbackExecutionResult {
    pub chain_id: String,
    pub attempts: Vec<FallbackAttempt>,
    pub resolved_target: Option<String>,
    pub degraded: bool,
}

/// The targets that are to be treated as failing in a dry run, by name.
#[derive(Debug)]
pub struct TestFallbackChainRequest {
    pub simulate_failures: Vec<String>,
}

impl Default for TestFallbackChainRequest {
    fn default() -> (r: Self)
        ensures
            r.simulate_failures@.len() == 0,
    {
        TestFallbackChainRequest { simulate_failures: Vec::new() }
    }
}

/// Why a request is refused.
#[derive(Debug, Clone, Copy, PartialEq, Eq, Structural)]
pub enum FallbackError {
    /// A chain without targets.
    NoTargets,
    /// No chain has the given id.
    NotFound,
}

impl FallbackError {
    /// The HTTP status of the refusal.
    pub fn status(&self) -> (r: u16)
        ensures
            r == match *self {
                FallbackError::NoTargets => 422u16,
                FallbackError::NotFound => 404u16,
            },
    {
        match self {
            FallbackError::NoTargets => 422,
            FallbackError::NotFound => 404,
        }
    }

    /// The refusal in words, where it has any.
    pub fn message(&self) -> (r: Option<&'static str>)
        ensures
            match *self {
                FallbackError::NoTargets => r is Some && r->0@
                    == "at least one fallback target is required"@,
                FallbackError::NotFound => r is None,
            },
    {
        match self {
            FallbackError::NoTargets => Some("at least one fallback target is required"),
            FallbackError::NotFound => None,
        }
    }
}

/// The priorities of some targets.
pub open spec fn priorities(targets: Seq<FallbackTarget>) -> Seq<i128> {
    Seq::new(targets.len(), |i: int| targets[i].priority as i128)
}

/// The targets at the given positions.
pub open spec fn picked(targets: Seq<FallbackTarget>, perm: Seq<usize>) -> Seq<FallbackTarget> {
    Seq::new(perm.len(), |i: int| targets[perm[i] as int])
}

/// Whether `after` are the targets `before` by ascending priority, those of
/// equal priority in their given order.
pub open spec fn by_priority(before: Seq<FallbackTarget>, after: Seq<FallbackTarget>) -> bool {
    exists|perm: Seq<usize>| #[trigger]
        order::stable_order(priorities(before), false, perm) && after == picked(before, perm)
}

/// There is only one order by priority.
pub proof fn law_order_is_unique(
    before: Seq<FallbackTarget>,
    a: Seq<FallbackTarget>,
    b: Seq<FallbackTarget>,
)
    requires
        by_priority(before, a),
        by_priority(before, b),
        before.len() <= usize::MAX,
    ensures
        a == b,
{
    let keys = priorities(before);
    let p = choose|perm: Seq<usize>| #[trigger]
        order::stable_order(keys, false, perm) && a == picked(before, perm);
    let q = choose|perm: Seq<usize>| #[trigger]
        order::stable_order(keys, false, perm) && b == picked(before, perm);
    order::law_stable_order_is_unique(keys, false, p, q);
    assert(a =~= b);
}

/// The targets of a list by ascending priority.
pub fn sort_by_priority(targets: &Vec<FallbackTarget>) -> (r: Vec<FallbackTarget>)
    ensures
        by_priority(targets@, r@),
{
    let mut keys: Vec<i128> = Vec::new();
    let mut i: usize = 0;
    while i < targets.len()
        invariant
            i <= targets@.len(),
            keys@.len() == i,
            forall|j: int| 0 <= j < i ==> keys@[j] == (#[trigger] targets@[j]).priority as i128,
        decreases targets@.len() - i,
    {
        keys.push(targets[i].priority as i128);
        i += 1;
    }
    assert(keys@ =~= priorities(targets@));
    let perm = ranked(&keys, false);
    let mut out: Vec<FallbackTarget> = Vec::new();
    let mut k: usize = 0;
    while k < perm.len()
        invariant
            k <= perm@.len(),
            order::stable_order(priorities(targets@), false, perm@),
            out@ == picked(targets@, perm@.take(k as int)),
        decreases perm@.len() - k,
    {
        out.push(targets[perm[k]].clone());
        k += 1;
        assert(out@ =~= picked(targets@, perm@.take(k as int)));
    }
    assert(perm@.take(k as int) =~= perm@);
    out
}

/// Whether an attempt records what `attempt` said of a target.
pub open spec fn records<F: Fn(&FallbackTarget) -> Result<(), String>>(
    attempt: F,
    target: FallbackTarget,
    a: FallbackAttempt,
) -> bool {
    &&& a.target == target.name
    &&& a.priority == target.priority
    &&& a.error is None == a.succeeded
    &&& exists|said: Result<(), String>| #[trigger]
        attempt.ensures((&target,), said) && match said {
            Ok(_) => a.succeeded,
            Err(reason) => a.error == Some(reason),
        }
}

/// Whether `r` comes of walking through `targets`: each of those attempted has
/// its record, only the last may have succeeded, and where it did not all were
/// attempted.
pub open spec fn walked(
    targets: Seq<FallbackTarget>,
    attempts: Seq<FallbackAttempt>,
    resolved: Option<String>,
    degraded: bool,
) -> bool {
    &&& attempts.len() <= targets.len()
    &&& forall|i: int|
        0 <= i < attempts.len() - 1 ==> !(#[trigger] attempts[i]).succeeded
    &&& if attempts.len() > 0 && attempts.last().succeeded {
        &&& resolved == Some(targets[attempts.len() - 1].endpoint)
        &&& degraded == (attempts.len() > 1)
    } else {
        &&& attempts.len() == targets.len()
        &&& resolved is None
        &&& !degraded
    }
}

/// Whether `r` comes of cascading through a chain.
pub open spec fn cascaded<F: Fn(&FallbackTarget) -> Result<(), String>>(
    chain: ChainModel,
    attempt: F,
    targets: Seq<FallbackTarget>,
    r: FallbackExecutionResult,
) -> bool {
    &&& by_priority(chain.targets, targets)
    &&& r.chain_id@ == chain.id
    &&& walked(targets, r.attempts@, r.resolved_target, r.degraded)
    &&& forall|i: int|
        0 <= i < r.attempts@.len() ==> records(attempt, targets[i], #[trigger] r.attempts@[i])
}

/// Walk the targets of a chain in priority order, invoking `attempt` for each
/// until one succeeds or the chain is exhausted. `attempt` returns `Ok(())` on
/// success or `Err(reason)` on failure.
///
/// This is the core cascading-fallback primitive: callers that talk to a
/// single downstream target (webhook delivery, RPC calls, notification
/// providers) can use it to transparently retry against the next configured
/// target when the primary is unavailable.
pub fn cascade<F: Fn(&FallbackTarget) -> Result<(), String>>(
    chain: &FallbackChain,
    attempt: F,
) -> (r: FallbackExecutionResult)
    requires
        forall|t: FallbackTarget| #[trigger] attempt.requires((&t,)),
    ensures
        exists|targets: Seq<FallbackTarget>| #[trigger] cascaded(chain@, attempt, targets, r),
{
    let targets = sort_by_priority(&chain.targets);
    let mut attempts: Vec<FallbackAttempt> = Vec::new();
    let mut i: usize = 0;
    while i < targets.len()
        invariant
            i <= targets@.len(),
            by_priority(chain.targets@, targets@),
            forall|t: FallbackTarget| #[trigger] attempt.requires((&t,)),
            attempts@.len() == i,
            forall|j: int|
                0 <= j < i ==> !(#[trigger] attempts@[j]).succeeded && records(
                    attempt,
                    targets@[j],
                    attempts@[j],
                ),
        decreases targets@.len() - i,
    {
        let target = &targets[i];
        let said = attempt(target);
        let ghost said0 = said;
        assert(attempt.ensures((&targets@[i as int],), said0));
        match said {
            Ok(_) => {
                let a = FallbackAttempt {
                    target: target.name.clone(),
                    priority: target.priority,
                    succeeded: true,
                    error: None,
                };
                assert(records(attempt, targets@[i as int], a));
                let degraded: bool = i > 0;
                let resolved_target = Some(target.endpoint.clone());
                attempts.push(a);
                let r = FallbackExecutionResult {
                    chain_id: chain.id.clone(),
                    attempts,
                    resolved_target,
                    degraded,
                };
                assert(cascaded(chain@, attempt, targets@, r));
                return r;
            },
            Err(reason) => {
                let a = FallbackAttempt {
                    target: target.name.clone(),
                    priority: target.priority,
                    succeeded: false,
                    error: Some(reason),
                };
                assert(records(attempt, targets@[i as int], a));
                attempts.push(a);
            },
        }
        i += 1;
    }
    let r = FallbackExecutionResult {
        chain_id: chain.id.clone(),
        attempts,
        resolved_target: None,
        degraded: false,
    };
    assert(cascaded(chain@, attempt, targets@, r));
    r
}

/// What the chains of a map say.
pub open spec fn models(m: Map<Seq<char>, FallbackChain>) -> Map<Seq<char>, ChainModel> {
    Map::new(|k: Seq<char>| m.contains_key(k), |k: Seq<char>| m[k]@)
}

/// What the chains of a list say.
pub open spec fn chain_models(v: Seq<FallbackChain>) -> Seq<ChainModel> {
    Seq::new(v.len(), |i: int| v[i]@)
}

/// An empty store.
pub fn create_fallback_store() -> (r: StrMap<FallbackChain>)
    ensures
        r@ == Map::<Seq<char>, FallbackChain>::empty(),
        r.order() == Seq::<Seq<char>>::empty(),
{
    StrMap::new()
}

/// The registered chains, by id.
pub struct FallbackState {
    pub store: StrMap<FallbackChain>,
}

impl Default for FallbackState {
    fn default() -> (r: Self)
        ensures
            r.store@ == Map::<Seq<char>, FallbackChain>::empty(),
    {
        FallbackState::new()
    }
}

/// The chain that a request asks for.
pub open spec fn requested_chain(
    body: RegisterFallbackChainRequest,
    targets: Seq<FallbackTarget>,
    id: Seq<char>,
    now: Timestamp,
) -> ChainModel {
    ChainModel {
        id,
        name: body.name@,
        resource: body.resource@,
        targets,
        created_at: now,
        active: true,
    }
}

/// Whether registering a request under `id` at `now` may turn `before` into
/// `after` and answer `r`.
pub open spec fn registers(
    before: Map<Seq<char>, ChainModel>,
    after: Map<Seq<char>, ChainModel>,
    body: RegisterFallbackChainRequest,
    id: Seq<char>,
    now: Timestamp,
    r: Result<FallbackChain, FallbackError>,
) -> bool {
    if body.targets@.len() == 0 {
        r == Err::<FallbackChain, FallbackError>(FallbackError::NoTargets) && after == before
    } else {
        match r {
            Ok(chain) => by_priority(body.targets@, chain@.targets) && chain@ == requested_chain(
                body,
                chain@.targets,
                id,
                now,
            ) && after == before.insert(id, chain@),
            Err(_) => false,
        }
    }
}

impl FallbackState {
    /// No chains.
    pub fn new() -> (r: Self)
        ensures
            r.store@ == Map::<Seq<char>, FallbackChain>::empty(),
    {
        FallbackState { store: create_fallback_store() }
    }

    /// Registers a chain under an id at a given time.
    pub fn register_at(
        &mut self,
        body: RegisterFallbackChainRequest,
        id: String,
        now: Timestamp,
    ) -> (r: Result<FallbackChain, FallbackError>)
        ensures
            registers(models(old(self).store@), models(final(self).store@), body, id@, now, r),
    {
        if body.targets.len() == 0 {
            return Err(FallbackError::NoTargets);
        }
        let targets = sort_by_priority(&body.targets);
        let key = id.clone();
        let chain = FallbackChain {
            id,
            name: body.name,
            resource: body.resource,
            targets,
            created_at: now,
            active: true,
        };
        let copy = chain.clone();
        let _old = self.store.insert(key, copy);
        assert(models(self.store@) =~= models(old(self).store@).insert(id@, chain@));
        Ok(chain)
    }
}

/// Register a new fallback chain, under a fresh id.
pub fn register_fallback_chain(
    state: &mut FallbackState,
    body: RegisterFallbackChainRequest,
) -> (r: Result<FallbackChain, FallbackError>)
    ensures
        exists|id: Seq<char>, now: Timestamp|
            id.len() == 36 && #[trigger] registers(
                models(old(state).store@),
                models(final(state).store@),
                body,
                id,
                now,
                r,
            ),
{
    let id = fresh_id();
    let now = Timestamp::now();
    state.register_at(body, id, now)
}

/// List all registered fallback chains, in the order of their registration.
pub fn list_fallback_chains(state: &FallbackState) -> (r: Vec<FallbackChain>)
    ensures
        chain_models(r@) == chain_models(state.store.contents()),
{
    let n: usize = state.store.len();
    let mut out: Vec<FallbackChain> = Vec::new();
    let mut i: usize = 0;
    while i < n
        invariant
            i <= n,
            n == state.store.order().len(),
            n == state.store.contents().len(),
            out@.len() == i,
            forall|j: int| 0 <= j < i ==> (#[trigger] out@[j])@ == state.store.contents()[j]@,
        decreases n - i,
    {
        out.push(state.store.value_at(i).clone());
        i += 1;
    }
    assert(chain_models(out@) =~= chain_models(state.store.contents()));
    out
}

/// Fetch a single chain.
pub fn get_fallback_chain(state: &FallbackState, id: &str) -> (r: Result<
    FallbackChain,
    FallbackError,
>)
    ensures
        match r {
            Ok(chain) => state.store@.contains_key(id@) && chain@ == state.store@[id@]@,
            Err(e) => !state.store@.contains_key(id@) && e == FallbackError::NotFound,
        },
{
    match state.store.get(id) {
        Some(chain) => Ok(chain.clone()),
        None => Err(FallbackError::NotFound),
    }
}

/// Whether `a` records a dry run of a target.
pub open spec fn dry_run_of(
    failures: Seq<Seq<char>>,
    target: FallbackTarget,
    a: FallbackAttempt,
) -> bool {
    &&& a.target == target.name
    &&& a.priority == target.priority
    &&& a.succeeded == !failures.contains(target.name@)
    &&& match a.error {
        Some(e) => !a.succeeded && e@ == "simulated failure"@,
        None => a.succeeded,
    }
}

/// Whether `r` is the dry run of a chain with the given failures.
pub open spec fn dry_run(
    chain: ChainModel,
    failures: Seq<Seq<char>>,
    targets: Seq<FallbackTarget>,
    r: FallbackExecutionResult,
) -> bool {
    &&& by_priority(chain.targets, targets)
    &&& r.chain_id@ == chain.id
    &&& walked(targets, r.attempts@, r.resolved_target, r.degraded)
    &&& forall|i: int|
        0 <= i < r.attempts@.len() ==> dry_run_of(failures, targets[i], #[trigger] r.attempts@[i])
}

/// Dry-run a cascade through a chain, optionally simulating failures for named
/// targets, without performing any real network calls.
pub fn test_fallback_chain(
    state: &FallbackState,
    id: &str,
    body: &TestFallbackChainRequest,
) -> (r: Result<FallbackExecutionResult, FallbackError>)
    ensures
        match r {
            Ok(result) => state.store@.contains_key(id@) && exists|targets: Seq<FallbackTarget>|
                #[trigger]
                dry_run(
                    state.store@[id@]@,
                    text::texts(body.simulate_failures@),
                    targets,
                    result,
                ),
            Err(e) => !state.store@.contains_key(id@) && e == FallbackError::NotFound,
        },
{
    let chain = match state.store.get(id) {
        Some(c) => c.clone(),
        None => {
            return Err(FallbackError::NotFound);
        },
    };
    let failures = &body.simulate_failures;
    let ghost names = text::texts(failures@);
    let attempt = |target: &FallbackTarget| -> (said: Result<(), String>)
        ensures
            said is Err == text::texts(failures@).contains(target.name@),
            said is Err ==> said->Err_0@ == "simulated failure"@,
        {
            if name_listed(failures, target.name.as_str()) {
                Err("simulated failure".to_owned())
            } else {
                Ok(())
            }
        };
    let result = cascade(&chain, attempt);
    proof {
        let targets = choose|targets: Seq<FallbackTarget>| #[trigger]
            cascaded(chain@, attempt, targets, result);
        assert forall|i: int| 0 <= i < result.attempts@.len() implies dry_run_of(
            names,
            targets[i],
            #[trigger] result.attempts@[i],
        ) by {
            assert(records(attempt, targets[i], result.attempts@[i]));
        }
        assert(dry_run(chain@, names, targets, result));
    }
    Ok(result)
}

/// Whether a chain is active and protects a resource.
pub open spec fn protects(chain: ChainModel, resource: Seq<char>) -> bool {
    chain.active && chain.resource == resource
}

/// Find the active chain protecting `resource`, if any: of several the one
/// that was registered first.
pub fn find_chain_for_resource(state: &FallbackState, resource: &str) -> (r: Option<
    FallbackChain,
>)
    ensures
        match r {
            Some(chain) => exists|i: int|
                #![trigger state.store.contents()[i]]
                {
                    &&& 0 <= i < state.store.contents().len()
                    &&& chain@ == state.store.contents()[i]@
                    &&& protects(chain@, resource@)
                    &&& forall|j: int|
                        0 <= j < i ==> !protects((#[trigger] state.store.contents()[j])@, resource@)
                },
            None => forall|j: int|
                0 <= j < state.store.contents().len() ==> !protects(
                    (#[trigger] state.store.contents()[j])@,
                    resource@,
                ),
        },
{
    let n: usize = state.store.len();
    let mut i: usize = 0;
    while i < n
        invariant
            i <= n,
            n == state.store.order().len(),
            n == state.store.contents().len(),
            forall|j: int|
                0 <= j < i ==> !protects((#[trigger] state.store.contents()[j])@, resource@),
        decreases n - i,
    {
        let chain = state.store.value_at(i);
        if chain.active && str_eq(chain.resource.as_str(), resource) {
            return Some(chain.clone());
        }
        i += 1;
    }
    None
}

/// A dry run resolves to the first target, by priority, that is not made to
/// fail, and to none where all are.
pub proof fn law_first_working_target_serves(
    chain: ChainModel,
    failures: Seq<Seq<char>>,
    targets: Seq<FallbackTarget>,
    r: FallbackExecutionResult,
    k: int,
)
    requires
        dry_run(chain, failures, targets, r),
        0 <= k < targets.len(),
        !failures.contains(targets[k].name@),
        forall|j: int| 0 <= j < k ==> failures.contains((#[trigger] targets[j]).name@),
    ensures
        r.resolved_target == Some(targets[k].endpoint),
        r.attempts@.len() == k + 1,
        r.degraded == (k > 0),
{
    let n = r.attempts@.len() as int;
    assert forall|i: int| 0 <= i < n implies dry_run_of(
        failures,
        targets[i],
        #[trigger] r.attempts@[i],
    ) by {}
    if n > 0 {
        let last = r.attempts@[n - 1];
        assert(r.attempts@.last() == last);
        assert(dry_run_of(failures, targets[n - 1], last));
    }
    if n > k + 1 {
        assert(!r.attempts@[k].succeeded);
    }
    if n <= k {
        if n > 0 {
            assert(failures.contains(targets[n - 1].name@));
        }
    }
}

/// A dry run in which every target is made to fail resolves to none, and is not
/// called degraded.
pub proof fn law_exhausted_chain_resolves_nothing(
    chain: ChainModel,
    failures: Seq<Seq<char>>,
    targets: Seq<FallbackTarget>,
    r: FallbackExecutionResult,
)
    requires
        dry_run(chain, failures, targets, r),
        forall|j: int|
            0 <= j < targets.len() ==> failures.contains((#[trigger] targets[j]).name@),
    ensures
        r.resolved_target is None,
        !r.degraded,
        r.attempts@.len() == targets.len(),
{
    let n = r.attempts@.len() as int;
    if n > 0 {
        assert(dry_run_of(failures, targets[n - 1], r.attempts@[n - 1]));
        assert(failures.contains(targets[n - 1].name@));
    }
}

/// Targets are tried in the order of their priority, the smallest number first, and
/// those of equal priority in the order in which they were given; none is lost.
pub proof fn law_smallest_priority_comes_first(
    before: Seq<FallbackTarget>,
    after: Seq<FallbackTarget>,
    i: int,
    j: int,
)
    requires
        by_priority(before, after),
    ensures
        after.len() == before.len(),
        0 <= i < j < after.len() ==> after[i].priority <= after[j].priority,
        0 <= i < after.len() ==> before.contains(after[i]),
        0 <= i < before.len() <= usize::MAX ==> after.contains(before[i]),
{
    let keys = priorities(before);
    let perm = choose|perm: Seq<usize>| #[trigger]
        order::stable_order(keys, false, perm) && after == picked(before, perm);
    if 0 <= i < j < after.len() {
        order::law_stable_order_sorts(keys, false, perm, i, j);
        assert(perm[i] < keys.len() && perm[j] < keys.len());
    }
    if 0 <= i < after.len() {
        assert(perm[i] < keys.len());
        assert(after[i] == before[perm[i] as int]);
    }
    if 0 <= i < before.len() <= usize::MAX {
        let k = i as usize;
        assert(perm.contains(k));
        let x = choose|x: int| 0 <= x < perm.len() && perm[x] == k;
        assert(after[x] == before[i]);
    }
}

/// A cascade stops at the first target that works: that target serves, every one
/// before it failed, and the service counts as degraded where it is not the first. Where
/// none works, all were tried and none serves.
pub proof fn law_cascade_stops_at_the_first_success(
    targets: Seq<FallbackTarget>,
    attempts: Seq<FallbackAttempt>,
    resolved: Option<String>,
    degraded: bool,
    i: int,
)
    requires
        walked(targets, attempts, resolved, degraded),
        0 <= i < attempts.len(),
    ensures
        attempts[i].succeeded ==> i == attempts.len() - 1 && resolved == Some(targets[i].endpoint)
            && degraded == (i > 0),
        resolved is None ==> attempts.len() == targets.len() && !attempts[i].succeeded && !degraded,
        resolved is Some ==> attempts.last().succeeded,
        attempts.len() <= targets.len(),
{
}

/// A registered chain is active, with its targets in order, and can be found under
/// its name; one without targets is refused and leaves nothing behind.
pub proof fn law_chain_needs_a_target(
    before: Map<Seq<char>, ChainModel>,
    after: Map<Seq<char>, ChainModel>,
    body: RegisterFallbackChainRequest,
    id: Seq<char>,
    now: Timestamp,
    r: Result<FallbackChain, FallbackError>,
)
    requires
        registers(before, after, body, id, now, r),
    ensures
        body.targets@.len() == 0 ==> r is Err && r->Err_0 == FallbackError::NoTargets && after
            == before,
        body.targets@.len() > 0 ==> {
            &&& r is Ok
            &&& after.contains_key(id)
            &&& after[id].active
            &&& after[id].id == id
            &&& after[id].name == body.name@
            &&& after[id].resource == body.resource@
            &&& after[id].created_at == now
            &&& by_priority(body.targets@, after[id].targets)
        },
{
}

/// A chain protects its resource while it is active, and no other.
pub proof fn law_active_chain_protects_its_resource(chain: ChainModel, resource: Seq<char>)
    ensures
        chain.active && chain.resource == resource ==> protects(chain, resource),
        !chain.active ==> !protects(chain, resource),
        chain.resource != resource ==> !protects(chain, resource),
{
}

/// A dry run fails the targets that are named and lets the others succeed.
pub proof fn law_dry_run_fails_the_named(
    failures: Seq<Seq<char>>,
    target: FallbackTarget,
    a: FallbackAttempt,
)
    requires
        dry_run_of(failures, target, a),
    ensures
        failures.contains(target.name@) ==> !a.succeeded && a.error is Some && a.error->0@
            == "simulated failure"@,
        !failures.contains(target.name@) ==> a.succeeded && a.error is None,
        a.target == target.name && a.priority == target.priority,
{
}

/// A cascade tries the targets in their order of priority with the given attempt:
/// each attempt is recorded with its target and what came of it.
pub proof fn law_attempts_are_recorded<F: Fn(&FallbackTarget) -> Result<(), String>>(
    chain: ChainModel,
    attempt: F,
    targets: Seq<FallbackTarget>,
    r: FallbackExecutionResult,
    i: int,
)
    requires
        cascaded(chain, attempt, targets, r),
        0 <= i < r.attempts@.len(),
    ensures
        r.chain_id@ == chain.id,
        r.attempts@[i].target == targets[i].name,
        r.attempts@[i].priority == targets[i].priority,
        r.attempts@[i].succeeded ==> r.attempts@[i].error is None && attempt.ensures(
            (&targets[i],),
            Ok(()),
        ),
        !r.attempts@[i].succeeded ==> r.attempts@[i].error is Some && attempt.ensures(
            (&targets[i],),
            Err(r.attempts@[i].error->0),
        ),
        r.attempts@[i].succeeded ==> r.resolved_target == Some(targets[i].endpoint),
        chain.targets.contains(targets[i]),
        i > 0 ==> r.attempts@[i - 1].priority <= r.attempts@[i].priority,
        targets.len() == chain.targets.len(),
{
    assert(records(attempt, targets[i], r.attempts@[i]));
    law_smallest_priority_comes_first(chain.targets, targets, i - 1, i);
    law_smallest_priority_comes_first(chain.targets, targets, i, i);
    if i > 0 {
        assert(records(attempt, targets[i - 1], r.attempts@[i - 1]));
    }
    law_cascade_stops_at_the_first_success(
        targets,
        r.attempts@,
        r.resolved_target,
        r.degraded,
        i,
    );
    let said = choose|said: Result<(), String>| #[trigger]
        attempt.ensures((&targets[i],), said) && match said {
            Ok(_) => r.attempts@[i].succeeded,
            Err(reason) => r.attempts@[i].error == Some(reason),
        };
    match said {
        Ok(u) => {
            assert(u == ());
        },
        Err(reason) => {},
    }
}

/// A dry run tries the targets of the chain in their order of priority.
pub proof fn law_dry_run_follows_the_priorities(
    chain: ChainModel,
    failures: Seq<Seq<char>>,
    targets: Seq<FallbackTarget>,
    r: FallbackExecutionResult,
    i: int,
)
    requires
        dry_run(chain, failures, targets, r),
        0 <= i < r.attempts@.len(),
    ensures
        r.chain_id@ == chain.id,
        targets.len() == chain.targets.len(),
        chain.targets.contains(targets[i]),
        r.attempts@[i].target == targets[i].name,
        r.attempts@[i].succeeded <==> !failures.contains(targets[i].name@),
        i > 0 ==> r.attempts@[i - 1].priority <= r.attempts@[i].priority,
{
    assert(dry_run_of(failures, targets[i], r.attempts@[i]));
    law_smallest_priority_comes_first(chain.targets, targets, i - 1, i);
    law_smallest_priority_comes_first(chain.targets, targets, i, i);
    if i > 0 {
        assert(dry_run_of(failures, targets[i - 1], r.attempts@[i - 1]));
    }
}

} // verus!
