//! Graceful degradation for missing or unhealthy features.
//!
//! Capabilities can be marked degraded or unavailable independently, so that
//! clients can negotiate what is usable and fall back to reduced functionality
//! instead of failing outright.

use crate::clock;
use crate::clock::Timestamp;
use crate::json::Json;
use crate::models::ApiError;
use crate::order;
use crate::order::ranked;
use crate::strmap::StrMap;
use crate::text;
use crate::text::{copied, str_eq, trimmed};
use vstd::prelude::*;
use vstd::string::*;

verus! {

/// How usable a capability currently is.
#[derive(Debug, Clone, Copy, PartialEq, Eq, Structural)]
pub enum DegradationLevel {
    /// Fully functional.
    Full,
    /// Usable, but with reduced functionality (e.g. cached/stale data,
    /// slower path, or a subset of normal behavior).
    Degraded,
    /// Not usable at all right now; callers should use a fallback or skip it.
    Unavailable,
}

impl DegradationLevel {
    /// The name of the level.
    pub open spec fn spec_name(self) -> Seq<char> {
        match self {
            DegradationLevel::Full => "full"@,
            DegradationLevel::Degraded => "degraded"@,
            DegradationLevel::Unavailable => "unavailable"@,
        }
    }

    /// The name of the level.
    pub fn name(&self) -> (r: &'static str)
        ensures
            r@ == self.spec_name(),
    {
        match self {
            DegradationLevel::Full => "full",
            DegradationLevel::Degraded => "degraded",
            DegradationLevel::Unavailable => "unavailable",
        }
    }

    /// The text of a level in a stored row: its name in quotes.
    pub open spec fn stored_text(self) -> Seq<char> {
        match self {
            DegradationLevel::Full => "\"full\""@,
            DegradationLevel::Degraded => "\"degraded\""@,
            DegradationLevel::Unavailable => "\"unavailable\""@,
        }
    }

    /// The text of a level in a stored row.
    pub fn to_stored(&self) -> (r: &'static str)
        ensures
            r@ == self.stored_text(),
    {
        match self {
            DegradationLevel::Full => "\"full\"",
            DegradationLevel::Degraded => "\"degraded\"",
            DegradationLevel::Unavailable => "\"unavailable\"",
        }
    }

    /// The level that a stored text stands for; one that is not known counts
    /// as full.
    pub open spec fn of_stored(s: Seq<char>) -> DegradationLevel {
        if s == "\"degraded\""@ {
            DegradationLevel::Degraded
        } else if s == "\"unavailable\""@ {
            DegradationLevel::Unavailable
        } else {
            DegradationLevel::Full
        }
    }

    /// The level that a stored text stands for.
    pub fn from_stored(s: &str) -> (r: Self)
        ensures
            r == Self::of_stored(s@),
    {
        if str_eq(s, "\"degraded\"") {
            DegradationLevel::Degraded
        } else if str_eq(s, "\"unavailable\"") {
            DegradationLevel::Unavailable
        } else {
            DegradationLevel::Full
        }
    }
}

/// A level that is stored is read back.
pub proof fn law_level_round_trip(level: DegradationLevel)
    ensures
        DegradationLevel::of_stored(level.stored_text()) == level,
{
    reveal_strlit("\"full\"");
    reveal_strlit("\"degraded\"");
    reveal_strlit("\"unavailable\"");
    assert("\"full\""@.len() == 6);
    assert("\"degraded\""@.len() == 10);
    assert("\"unavailable\""@.len() == 13);
}

/// Current status of a named capability.
#[derive(Debug)]
pub struct CapabilityStatus {
    pub name: String,
    pub level: DegradationLevel,
    pub reason: Option<String>,
    /// Whether a fallback endpoint/response exists for this capability.
    pub fallback_available: bool,
    pub updated_at: Timestamp,
}

impl Clone for CapabilityStatus {
    fn clone(&self) -> (r: Self)
        ensures
            r == *self,
    {
        CapabilityStatus {
            name: self.name.clone(),
            level: self.level,
            reason: copied(&self.reason),
            fallback_available: self.fallback_available,
            updated_at: self.updated_at,
        }
    }
}

/// What a status says.
pub struct StatusModel {
    pub name: Seq<char>,
    pub level: DegradationLevel,
    pub reason: Option<String>,
    pub fallback_available: bool,
    pub updated_at: Timestamp,
}

impl View for CapabilityStatus {
    type V = StatusModel;

    open spec fn view(&self) -> StatusModel {
        StatusModel {
            name: self.name@,
            level: self.level,
            reason: self.reason,
            fallback_available: self.fallback_available,
            updated_at: self.updated_at,
        }
    }
}

impl CapabilityStatus {
    /// Whether the status is kept: full function is the default, so nothing is
    /// registered for it.
    pub fn is_registered(&self) -> (r: bool)
        ensures
            r == self@.registered(),
    {
        self.level != DegradationLevel::Full
    }

    /// The row that holds the status. It is read back unchanged where its moment
    /// lies in the years 0 to 9999, whenever that is.
    pub fn to_row(&self) -> (r: CapabilityRow)
        ensures
            r.name == self.name,
            r.level@ == self.level.stored_text(),
            r.reason == self.reason,
            r.fallback_available == if self.fallback_available {
                1i32
            } else {
                0i32
            },
            r.updated_at@ == self.updated_at.rfc3339(),
            clock::four_digit_year(self.updated_at.secs, self.updated_at.nanos) ==> forall|
                now: Timestamp,
            | #[trigger] row_status(r, now) == self@,
    {
        proof {
            law_level_round_trip(self.level);
        }
        CapabilityRow {
            name: self.name.clone(),
            level: self.level.to_stored().to_owned(),
            reason: copied(&self.reason),
            fallback_available: if self.fallback_available {
                1
            } else {
                0
            },
            updated_at: self.updated_at.to_rfc3339(),
        }
    }
}

impl StatusModel {
    /// Whether the status is kept.
    pub open spec fn registered(self) -> bool {
        self.level != DegradationLevel::Full
    }
}

/// The status of a capability that is not registered: fully functional.
pub open spec fn full_status(name: Seq<char>, now: Timestamp) -> StatusModel {
    StatusModel {
        name,
        level: DegradationLevel::Full,
        reason: None,
        fallback_available: false,
        updated_at: now,
    }
}

/// A stored row.
#[derive(Debug)]
pub struct CapabilityRow {
    pub name: String,
    pub level: String,
    pub reason: Option<String>,
    pub fallback_available: i32,
    pub updated_at: String,
}

/// The status that a row describes; a stamp that cannot be read counts as
/// `now`.
pub open spec fn row_status(row: CapabilityRow, now: Timestamp) -> StatusModel {
    StatusModel {
        name: row.name@,
        level: DegradationLevel::of_stored(row.level@),
        reason: row.reason,
        fallback_available: row.fallback_available != 0,
        updated_at: match Timestamp::parsed(row.updated_at@) {
            Some(t) => t,
            None => now,
        },
    }
}

/// The status that a row describes.
pub fn status_of_row(row: CapabilityRow, now: Timestamp) -> (r: CapabilityStatus)
    ensures
        r@ == row_status(row, now),
{
    let updated_at = match Timestamp::parse_rfc3339(row.updated_at.as_str()) {
        Some(t) => t,
        None => now,
    };
    CapabilityStatus {
        name: row.name,
        level: DegradationLevel::from_stored(row.level.as_str()),
        reason: row.reason,
        fallback_available: row.fallback_available != 0,
        updated_at,
    }
}

/// What is asked to be set.
#[derive(Debug)]
pub struct SetCapabilityRequest {
    pub name: String,
    pub level: DegradationLevel,
    pub reason: Option<String>,
    pub fallback_available: bool,
}

/// What a client wants to use.
#[derive(Debug)]
pub struct NegotiateRequest {
    pub requested: Vec<String>,
}

/// Per-capability negotiation outcome.
#[derive(Debug)]
pub struct NegotiatedCapability {
    pub name: String,
    pub level: DegradationLevel,
    pub reason: Option<String>,
    pub use_fallback: bool,
}

/// What a negotiation outcome says.
pub struct NegotiatedModel {
    pub name: Seq<char>,
    pub level: DegradationLevel,
    pub reason: Option<String>,
    pub use_fallback: bool,
}

impl View for NegotiatedCapability {
    type V = NegotiatedModel;

    open spec fn view(&self) -> NegotiatedModel {
        NegotiatedModel {
            name: self.name@,
            level: self.level,
            reason: self.reason,
            use_fallback: self.use_fallback,
        }
    }
}

impl NegotiatedModel {
    /// The outcome for a capability of the given status.
    pub open spec fn of(s: StatusModel) -> NegotiatedModel {
        NegotiatedModel {
            name: s.name,
            level: s.level,
            reason: s.reason,
            use_fallback: s.level != DegradationLevel::Full && s.fallback_available,
        }
    }

    /// Whether the client can go on with the capability in some form.
    pub open spec fn usable(self) -> bool {
        self.level != DegradationLevel::Unavailable || self.use_fallback
    }
}

/// Result of negotiating a set of requested capabilities.
#[derive(Debug)]
pub struct NegotiationResult {
    pub capabilities: Vec<NegotiatedCapability>,
    /// True if every requested capability is available in some form: at least
    /// degraded, or with a fallback.
    pub can_proceed: bool,
}

/// Registered statuses by capability.
pub type Statuses = Map<Seq<char>, StatusModel>;

/// The status of a capability, full for one that is not registered.
pub open spec fn status_in(m: Statuses, name: Seq<char>, now: Timestamp) -> StatusModel {
    if m.contains_key(name) {
        m[name]
    } else {
        full_status(name, now)
    }
}

/// The registry after a status was set: full deregisters.
pub open spec fn after_set(m: Statuses, s: StatusModel) -> Statuses {
    if s.registered() {
        m.insert(s.name, s)
    } else {
        m.remove(s.name)
    }
}

/// The statuses of a map.
pub open spec fn models(map: Map<Seq<char>, CapabilityStatus>) -> Statuses {
    Map::new(|k: Seq<char>| map.contains_key(k), |k: Seq<char>| map[k]@)
}

/// Whether `v` lists every registered status exactly once.
pub open spec fn lists(v: Seq<CapabilityStatus>, m: Statuses) -> bool {
    &&& v.len() == m.len()
    &&& forall|k: Seq<char>| #[trigger]
        m.contains_key(k) ==> exists|i: int| 0 <= i < v.len() && (#[trigger] v[i])@ == m[k]
}

/// Whether the latest statuses come first.
pub open spec fn latest_first(v: Seq<CapabilityStatus>) -> bool {
    forall|i: int, j: int|
        0 <= i < j < v.len() ==> !(#[trigger] v[i]).updated_at.before(
            (#[trigger] v[j]).updated_at,
        )
}

/// Whether every status is kept under its own name.
pub open spec fn named(m: Map<Seq<char>, CapabilityStatus>) -> bool {
    forall|k: Seq<char>| #[trigger] m.contains_key(k) ==> m[k].name@ == k
}

/// Registry of capability statuses.
pub struct DegradationState {
    table: StrMap<CapabilityStatus>,
}

impl View for DegradationState {
    type V = Statuses;

    closed spec fn view(&self) -> Statuses {
        models(self.table@)
    }
}

impl DegradationState {
    #[verifier::type_invariant]
    spec fn keeps_names(self) -> bool {
        named(self.table@)
    }

    /// A registry in which every capability is fully functional.
    pub fn new() -> (r: Self)
        ensures
            r@ == Map::<Seq<char>, StatusModel>::empty(),
    {
        let r = DegradationState { table: StrMap::new() };
        assert(r@ =~= Map::<Seq<char>, StatusModel>::empty());
        r
    }

    /// Takes in a stored status under its name.
    pub fn load(&mut self, status: CapabilityStatus)
        ensures
            final(self)@ == old(self)@.insert(status@.name, status@),
    {
        proof {
            use_type_invariant(&*self);
        }
        let name = status.name.clone();
        let mut table: StrMap<CapabilityStatus> = StrMap::new();
        std::mem::swap(&mut table, &mut self.table);
        let _old = table.insert(name, status);
        self.table = table;
        assert(self@ =~= old(self)@.insert(status@.name, status@));
    }

    /// Register or update a capability's degradation status.
    ///
    /// Setting a capability to `DegradationLevel::Full` deregisters it:
    /// `check` already defaults to `Full` for unregistered capabilities, and
    /// `list` reports only capabilities that are degraded.
    pub fn set_status(
        &mut self,
        name: &str,
        level: DegradationLevel,
        reason: Option<String>,
        fallback_available: bool,
    ) -> (r: CapabilityStatus)
        ensures
            r@ == (StatusModel {
                name: name@,
                level,
                reason,
                fallback_available,
                updated_at: r.updated_at,
            }),
            final(self)@ == after_set(old(self)@, r@),
    {
        let now = Timestamp::now();
        self.set_status_at(name, level, reason, fallback_available, now)
    }

    /// Register or update a capability's degradation status at `now`.
    pub fn set_status_at(
        &mut self,
        name: &str,
        level: DegradationLevel,
        reason: Option<String>,
        fallback_available: bool,
        now: Timestamp,
    ) -> (r: CapabilityStatus)
        ensures
            r@ == (StatusModel { name: name@, level, reason, fallback_available, updated_at: now }),
            final(self)@ == after_set(old(self)@, r@),
    {
        let status = CapabilityStatus {
            name: name.to_owned(),
            level,
            reason,
            fallback_available,
            updated_at: now,
        };
        proof {
            use_type_invariant(&*self);
        }
        let mut table: StrMap<CapabilityStatus> = StrMap::new();
        std::mem::swap(&mut table, &mut self.table);
        if status.is_registered() {
            let _old = table.insert(name.to_owned(), status.clone());
        } else {
            let _old = table.remove(name);
        }
        self.table = table;
        assert(self@ =~= after_set(old(self)@, status@));
        status
    }

    /// Look up a capability's status, defaulting to `Full` if unregistered.
    pub fn check(&self, name: &str) -> (r: CapabilityStatus)
        ensures
            exists|now: Timestamp| r@ == #[trigger] status_in(self@, name@, now),
            r.name@ == name@,
    {
        self.check_at(name, Timestamp::now())
    }

    /// Look up a capability's status at `now`.
    pub fn check_at(&self, name: &str, now: Timestamp) -> (r: CapabilityStatus)
        ensures
            r@ == status_in(self@, name@, now),
            r.name@ == name@,
    {
        proof {
            use_type_invariant(self);
        }
        match self.table.get(name) {
            Some(s) => s.clone(),
            None => CapabilityStatus {
                name: name.to_owned(),
                level: DegradationLevel::Full,
                reason: None,
                fallback_available: false,
                updated_at: now,
            },
        }
    }

    /// The registered statuses, the latest first.
    pub fn list(&self) -> (r: Vec<CapabilityStatus>)
        ensures
            lists(r@, self@),
            latest_first(r@),
    {
        let n: usize = self.table.len();
        let ghost names = self.table.order();
        let ghost all = self.table.contents();
        let mut keys: Vec<i128> = Vec::new();
        let mut i: usize = 0;
        while i < n
            invariant
                i <= n,
                n == names.len(),
                n == all.len(),
                names == self.table.order(),
                all == self.table.contents(),
                keys@.len() == i,
                forall|j: int| 0 <= j < i ==> #[trigger] keys@[j] == all[j].updated_at.moment(),
            decreases n - i,
        {
            keys.push(self.table.value_at(i).updated_at.order_key());
            i += 1;
        }
        let perm = ranked(&keys, true);
        let mut r: Vec<CapabilityStatus> = Vec::new();
        i = 0;
        while i < n
            invariant
                i <= n,
                n == perm@.len(),
                n == names.len(),
                n == all.len(),
                n == keys@.len(),
                names == self.table.order(),
                all == self.table.contents(),
                order::stable_order(keys@, true, perm@),
                r@.len() == i,
                forall|j: int| 0 <= j < i ==> #[trigger] r@[j] == all[perm@[j] as int],
            decreases n - i,
        {
            let at: usize = perm[i];
            r.push(self.table.value_at(at).clone());
            i += 1;
        }
        proof {
            assert(self@.dom() =~= self.table@.dom());
            assert forall|k: Seq<char>| #[trigger] self@.contains_key(k) implies exists|j: int|
                0 <= j < r@.len() && (#[trigger] r@[j])@ == self@[k] by {
                assert(names.contains(k));
                let x = names.index_of(k);
                assert(names[x] == k);
                assert(perm@.contains(x as usize));
                let j = perm@.index_of(x as usize);
                assert(r@[j]@ == self@[k]);
            }
            assert forall|i: int, j: int| 0 <= i < j < r@.len() implies !(
            #[trigger] r@[i]).updated_at.before((#[trigger] r@[j]).updated_at) by {
                let a = perm@[i] as int;
                let b = perm@[j] as int;
                assert(order::ahead(keys@, true, a, b));
                assert(keys@[a] == all[a].updated_at.moment());
                assert(keys@[b] == all[b].updated_at.moment());
                clock::law_moments_are_ordered(all[a].updated_at, all[b].updated_at);
            }
        }
        r
    }

    /// Negotiate a set of requested capabilities against current status.
    pub fn negotiate(&self, requested: &[String]) -> (r: NegotiationResult)
        ensures
            r.capabilities@.len() == requested@.len(),
            forall|i: int|
                0 <= i < requested@.len() ==> (#[trigger] r.capabilities@[i])@.name
                    == requested@[i]@,
            forall|i: int, now: Timestamp|
                0 <= i < requested@.len() ==> (#[trigger] r.capabilities@[i])@
                    == NegotiatedModel::of(#[trigger] status_in(self@, requested@[i]@, now)),
            r.can_proceed == forall|i: int|
                0 <= i < r.capabilities@.len() ==> (#[trigger] r.capabilities@[i])@.usable(),
    {
        let now = Timestamp::now();
        let mut capabilities: Vec<NegotiatedCapability> = Vec::new();
        let mut can_proceed: bool = true;
        let mut i: usize = 0;
        while i < requested.len()
            invariant
                i <= requested@.len(),
                capabilities@.len() == i,
                forall|j: int|
                    0 <= j < i ==> (#[trigger] capabilities@[j])@.name == requested@[j]@,
                forall|j: int, t: Timestamp|
                    0 <= j < i ==> (#[trigger] capabilities@[j])@ == NegotiatedModel::of(
                        #[trigger] status_in(self@, requested@[j]@, t),
                    ),
                can_proceed == forall|j: int|
                    0 <= j < i ==> (#[trigger] capabilities@[j])@.usable(),
            decreases requested@.len() - i,
        {
            let status = self.check_at(requested[i].as_str(), now);
            let use_fallback: bool = status.level != DegradationLevel::Full
                && status.fallback_available;
            let ghost before = capabilities@;
            let c = NegotiatedCapability {
                name: status.name,
                level: status.level,
                reason: status.reason,
                use_fallback,
            };
            let usable: bool = c.level != DegradationLevel::Unavailable || c.use_fallback;
            capabilities.push(c);
            proof {
                let all = capabilities@;
                assert(all[i as int]@.usable() == usable);
                assert forall|j: int| 0 <= j < i implies #[trigger] all[j] == before[j] by {}
                if can_proceed && usable {
                    assert forall|j: int| 0 <= j < i + 1 implies (#[trigger] all[j])@.usable() by {
                        if j < i {
                            assert(before[j]@.usable());
                        }
                    }
                } else if usable {
                    let j = choose|j: int| 0 <= j < i && !(#[trigger] before[j])@.usable();
                    assert(!all[j]@.usable());
                }
            }
            if !usable {
                can_proceed = false;
            }
            i += 1;
        }
        NegotiationResult { capabilities, can_proceed }
    }

    /// Reduced-functionality fallback response for a capability that is
    /// degraded or unavailable; the error is an HTTP status.
    pub fn capability_fallback(&self, name: &str) -> (r: Result<Json, u16>)
        ensures
            !self@.contains_key(name@) || self@[name@].level == DegradationLevel::Full ==> r
                == Err::<Json, u16>(404),
            self@.contains_key(name@) && self@[name@].level != DegradationLevel::Full
                && !self@[name@].fallback_available ==> r == Err::<Json, u16>(503),
            self@.contains_key(name@) && self@[name@].level != DegradationLevel::Full
                && self@[name@].fallback_available ==> r is Ok && is_fallback(
                r->Ok_0,
                self@[name@],
            ),
    {
        let status = self.check_at(name, Timestamp::now());
        if status.level == DegradationLevel::Full {
            return Err(404);
        }
        if !status.fallback_available {
            return Err(503);
        }
        proof {
            reveal_strlit("capability");
            reveal_strlit("level");
            reveal_strlit("reason");
            reveal_strlit("message");
            assert("capability"@.len() == 10 && "level"@.len() == 5 && "reason"@.len() == 6
                && "message"@.len() == 7);
        }
        let reason = match &status.reason {
            Some(s) => Json::text(s.as_str()),
            None => Json::Null,
        };
        Ok(
            Json::object().with("capability", Json::text(status.name.as_str())).with(
                "level",
                Json::text(status.level.name()),
            ).with("reason", reason).with(
                "message",
                Json::text("serving reduced-functionality fallback response"),
            ),
        )
    }
}

/// Whether a response is the fallback of a capability, and says nothing else.
pub open spec fn is_fallback(v: Json, s: StatusModel) -> bool {
    &&& v.member_text("capability"@) == Some(s.name)
    &&& v.member_text("level"@) == Some(s.level.spec_name())
    &&& match s.reason {
        Some(reason) => v.member_text("reason"@) == Some(reason@),
        None => v.member("reason"@) == Some(Json::Null),
    }
    &&& v.member_text("message"@) == Some("serving reduced-functionality fallback response"@)
    &&& forall|k: Seq<char>|
        k != "capability"@ && k != "level"@ && k != "reason"@ && k != "message"@
            ==> #[trigger] v.member(k) is None
}

/// Set a capability's degradation level.
pub fn set_capability(state: &mut DegradationState, body: SetCapabilityRequest) -> (r: Result<
    CapabilityStatus,
    ApiError,
>)
    ensures
        match r {
            Ok(s) => {
                &&& text::trim(body.name@).len() > 0
                &&& s@ == (StatusModel {
                    name: body.name@,
                    level: body.level,
                    reason: body.reason,
                    fallback_available: body.fallback_available,
                    updated_at: s.updated_at,
                })
                &&& final(state)@ == after_set(old(state)@, s@)
            },
            Err(e) => {
                &&& text::trim(body.name@).len() == 0
                &&& e.status == 422
                &&& e.code@ == "unprocessable_entity"@
                &&& e.message@ == "name must not be empty"@
                &&& final(state)@ == old(state)@
            },
        },
{
    let bare = trimmed(body.name.as_str());
    if bare.as_str().unicode_len() == 0 {
        return Err(ApiError::new(422, "unprocessable_entity", "name must not be empty"));
    }
    Ok(state.set_status(body.name.as_str(), body.level, body.reason, body.fallback_available))
}

/// A status that was set is what a check returns, except that full is the
/// default of what is not registered; other capabilities are untouched.
pub proof fn law_set_then_check(m: Statuses, s: StatusModel, other: Seq<char>, now: Timestamp)
    ensures
        s.level != DegradationLevel::Full ==> status_in(after_set(m, s), s.name, now) == s,
        s.level == DegradationLevel::Full ==> status_in(after_set(m, s), s.name, now)
            == full_status(s.name, now),
        other != s.name ==> status_in(after_set(m, s), other, now) == status_in(m, other, now),
{
}

/// Whether every registered capability is degraded or unavailable.
pub open spec fn none_full(m: Statuses) -> bool {
    forall|k: Seq<char>| #[trigger] m.contains_key(k) ==> m[k].level != DegradationLevel::Full
}

/// Setting statuses never leaves a fully functional capability registered.
pub proof fn law_full_is_never_registered(m: Statuses, s: StatusModel)
    requires
        none_full(m),
    ensures
        none_full(Map::<Seq<char>, StatusModel>::empty()),
        none_full(after_set(m, s)),
{
}

/// A capability stops a client exactly when it is unavailable and has no
/// fallback.
pub proof fn law_only_missing_fallbacks_block(s: StatusModel)
    ensures
        !NegotiatedModel::of(s).usable() <==> s.level == DegradationLevel::Unavailable
            && !s.fallback_available,
{
}

/// What is negotiated for a capability is its level and reason; a fallback is used
/// exactly where the capability is not fully there and has one. What nothing is known
/// of is fully there.
pub proof fn law_negotiation_reports_the_status(m: Statuses, name: Seq<char>, now: Timestamp)
    ensures
        ({
            let n = NegotiatedModel::of(status_in(m, name, now));
            &&& !m.contains_key(name) ==> n.level == DegradationLevel::Full && n.name == name
                && n.reason is None && !n.use_fallback && n.usable()
            &&& m.contains_key(name) ==> n.level == m[name].level && n.reason == m[name].reason
            &&& m.contains_key(name) && m[name].level == DegradationLevel::Full ==> !n.use_fallback
            &&& m.contains_key(name) && m[name].level != DegradationLevel::Full ==> n.use_fallback
                == m[name].fallback_available
            &&& m.contains_key(name) && m[name].level == DegradationLevel::Degraded ==> n.usable()
            &&& m.contains_key(name) && m[name].level == DegradationLevel::Unavailable
                ==> n.usable() == m[name].fallback_available
        }),
{
}

/// A row of the database is read with its level, its reason and its flag; a flag
/// is on unless it is zero, and a moment that cannot be read is the present one.
pub proof fn law_row_is_read_as_written(row: CapabilityRow, now: Timestamp)
    ensures
        row_status(row, now).name == row.name@,
        row_status(row, now).reason == row.reason,
        row_status(row, now).fallback_available == (row.fallback_available != 0),
        row.level@ == "\"degraded\""@ ==> row_status(row, now).level == DegradationLevel::Degraded,
        row.level@ == "\"unavailable\""@ ==> row_status(row, now).level
            == DegradationLevel::Unavailable,
        row.level@ != "\"degraded\""@ && row.level@ != "\"unavailable\""@ ==> row_status(
            row,
            now,
        ).level == DegradationLevel::Full,
        Timestamp::parsed(row.updated_at@) is Some ==> row_status(row, now).updated_at
            == Timestamp::parsed(row.updated_at@)->0,
        Timestamp::parsed(row.updated_at@) is None ==> row_status(row, now).updated_at == now,
{
    reveal_strlit("\"degraded\"");
    reveal_strlit("\"unavailable\"");
    assert("\"degraded\""@.len() == 10 && "\"unavailable\""@.len() == 13);
}

/// A capability that is back in full service leaves the list, and any other is
/// listed with what was last said of it.
pub proof fn law_full_service_leaves_the_list(m: Statuses, s: StatusModel)
    ensures
        s.level == DegradationLevel::Full ==> !after_set(m, s).contains_key(s.name),
        s.level != DegradationLevel::Full ==> after_set(m, s).contains_key(s.name) && after_set(
            m,
            s,
        )[s.name] == s,
{
}

/// A fallback response tells the capability, its level and its reason.
pub proof fn law_fallback_tells_the_status(v: Json, s: StatusModel)
    requires
        is_fallback(v, s),
    ensures
        v.member_text("capability"@) == Some(s.name),
        s.level == DegradationLevel::Degraded ==> v.member_text("level"@) == Some("degraded"@),
        s.level == DegradationLevel::Unavailable ==> v.member_text("level"@) == Some(
            "unavailable"@,
        ),
        s.level == DegradationLevel::Full ==> v.member_text("level"@) == Some("full"@),
        s.reason is Some ==> v.member_text("reason"@) == Some(s.reason->0@),
        s.reason is None ==> v.member("reason"@) == Some(Json::Null),
        v.member_text("message"@) == Some("serving reduced-functionality fallback response"@),
{
}

/// The list of capabilities has each one once, the latest change first.
pub proof fn law_list_is_latest_first(v: Seq<CapabilityStatus>, i: int, j: int)
    requires
        latest_first(v),
        0 <= i < j < v.len(),
    ensures
        v[i].updated_at.moment() >= v[j].updated_at.moment(),
{
    crate::clock::law_moments_are_ordered(v[i].updated_at, v[j].updated_at);
}

/// The list of capabilities has as many entries as are registered, and every one of
/// them.
pub proof fn law_list_is_complete(v: Seq<CapabilityStatus>, m: Statuses, name: Seq<char>)
    requires
        lists(v, m),
    ensures
        v.len() == m.len(),
        m.contains_key(name) ==> exists|i: int| 0 <= i < v.len() && (#[trigger] v[i])@ == m[name],
{
}

} // verus!
