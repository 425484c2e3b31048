//! Canary deployment strategy: staged traffic-split rollouts with metric-based
//! progression and automated rollback.

use crate::clock::{fresh_id, Timestamp};
use crate::strmap::StrMap;
use crate::text;
use crate::text::{joined, numbered};
use vstd::prelude::*;
use vstd::string::*;

verus! {

/// One stage of a canary rollout: the percentage of traffic to route to the
/// new version, and how long to hold at that percentage before evaluating
/// whether to progress.
#[derive(Debug, Clone, Copy, PartialEq, Eq, Structural)]
pub struct CanaryStage {
    pub traffic_percent: u8,
    pub min_duration_minutes: i64,
}

/// A measured floating point number.
#[derive(Debug)]
pub struct Measure {
    /// Its place in the order of the numbers: of two measures the greater one
    /// has the greater place. For a number that is not negative this is its bit
    /// pattern.
    pub order: i64,
    /// Its text at the precision of reports.
    pub text: String,
}

impl Clone for Measure {
    fn clone(&self) -> (r: Self)
        ensures
            r == *self,
    {
        Measure { order: self.order, text: self.text.clone() }
    }
}

/// Thresholds beyond which a canary is considered unhealthy and rolled back,
/// each by its place in the order of the numbers.
#[derive(Debug, Clone, Copy, PartialEq, Eq, Structural)]
pub struct MetricThresholds {
    pub max_error_rate: i64,
    pub max_latency_p99_ms: i64,
}

/// The place of 0.02 in the order of the numbers.
pub const DEFAULT_MAX_ERROR_RATE: i64 = 0x3F94_7AE1_47AE_147B;

/// The place of 500.0 in the order of the numbers.
pub const DEFAULT_MAX_LATENCY_P99_MS: i64 = 0x407F_4000_0000_0000;

impl Default for MetricThresholds {
    fn default() -> (r: Self)
        ensures
            r.max_error_rate == DEFAULT_MAX_ERROR_RATE,
            r.max_latency_p99_ms == DEFAULT_MAX_LATENCY_P99_MS,
    {
        MetricThresholds {
            max_error_rate: DEFAULT_MAX_ERROR_RATE,
            max_latency_p99_ms: DEFAULT_MAX_LATENCY_P99_MS,
        }
    }
}

/// A metrics sample reported for the canary's current traffic slice.
#[derive(Debug)]
pub struct CanaryMetrics {
    pub error_rate: Measure,
    pub latency_p99_ms: Measure,
}

impl Clone for CanaryMetrics {
    fn clone(&self) -> (r: Self)
        ensures
            r == *self,
    {
        CanaryMetrics {
            error_rate: self.error_rate.clone(),
            latency_p99_ms: self.latency_p99_ms.clone(),
        }
    }
}

/// Whether a sample exceeds one of the thresholds.
pub open spec fn breaches(m: CanaryMetrics, t: MetricThresholds) -> bool {
    m.error_rate.order > t.max_error_rate || m.latency_p99_ms.order > t.max_latency_p99_ms
}

/// Status of a canary deployment.
#[derive(Debug, Clone, Copy, PartialEq, Eq, Structural)]
pub enum CanaryStatus {
    InProgress,
    Completed,
    RolledBack,
}

/// One recorded step in the deployment's progression history.
#[derive(Debug)]
pub struct CanaryEvent {
    pub timestamp: Timestamp,
    pub description: String,
}

impl Clone for CanaryEvent {
    fn clone(&self) -> (r: Self)
        ensures
            r == *self,
    {
        CanaryEvent { timestamp: self.timestamp, description: self.description.clone() }
    }
}

/// What an event says.
pub struct EventModel {
    pub timestamp: Timestamp,
    pub description: Seq<char>,
}

impl View for CanaryEvent {
    type V = EventModel;

    open spec fn view(&self) -> EventModel {
        EventModel { timestamp: self.timestamp, description: self.description@ }
    }
}

/// A canary deployment tracked from start to completion or rollback.
#[derive(Debug)]
pub struct CanaryDeployment {
    pub id: String,
    pub service: String,
    pub version: String,
    pub stages: Vec<CanaryStage>,
    pub current_stage: usize,
    pub thresholds: MetricThresholds,
    pub status: CanaryStatus,
    pub last_metrics: Option<CanaryMetrics>,
    pub history: Vec<CanaryEvent>,
    pub started_at: Timestamp,
    pub stage_started_at: Timestamp,
}

/// What is known of a deployment.
#[verifier::ext_equal]
pub struct DeploymentModel {
    pub id: Seq<char>,
    pub service: Seq<char>,
    pub version: Seq<char>,
    pub stages: Seq<CanaryStage>,
    pub current_stage: usize,
    pub thresholds: MetricThresholds,
    pub status: CanaryStatus,
    pub last_metrics: Option<CanaryMetrics>,
    pub history: Seq<EventModel>,
    pub started_at: Timestamp,
    pub stage_started_at: Timestamp,
}

impl View for CanaryDeployment {
    type V = DeploymentModel;

    open spec fn view(&self) -> DeploymentModel {
        DeploymentModel {
            id: self.id@,
            service: self.service@,
            version: self.version@,
            stages: self.stages@,
            current_stage: self.current_stage,
            thresholds: self.thresholds,
            status: self.status,
            last_metrics: self.last_metrics,
            history: Seq::new(self.history@.len(), |i: int| self.history@[i]@),
            started_at: self.started_at,
            stage_started_at: self.stage_started_at,
        }
    }
}

impl Clone for CanaryDeployment {
    fn clone(&self) -> (r: Self)
        ensures
            r@ == self@,
    {
        let last_metrics = match &self.last_metrics {
            Some(m) => Some(m.clone()),
            None => None,
        };
        let r = CanaryDeployment {
            id: self.id.clone(),
            service: self.service.clone(),
            version: self.version.clone(),
            stages: self.stages.clone(),
            current_stage: self.current_stage,
            thresholds: self.thresholds,
            status: self.status,
            last_metrics,
            history: self.history.clone(),
            started_at: self.started_at,
            stage_started_at: self.stage_started_at,
        };
        assert(r.stages@ =~= self.stages@);
        assert(r.history@ =~= self.history@);
        r
    }
}

/// The whole minutes from `start` to `end`, rounded towards zero.
pub open spec fn minutes_between(start: Timestamp, end: Timestamp) -> int {
    let nanos = (end.secs - start.secs) * 1_000_000_000 + (end.nanos - start.nanos);
    if nanos >= 0 {
        nanos / 60_000_000_000
    } else {
        -((-nanos) / 60_000_000_000)
    }
}

/// The whole minutes from `start` to `end`, rounded towards zero.
pub fn elapsed_minutes(start: &Timestamp, end: &Timestamp) -> (r: i128)
    ensures
        r == minutes_between(*start, *end),
{
    let nanos: i128 = (end.secs as i128 - start.secs as i128) * 1_000_000_000 + (end.nanos as i128
        - start.nanos as i128);
    if nanos >= 0 {
        nanos / 60_000_000_000
    } else {
        -((-nanos) / 60_000_000_000)
    }
}

impl DeploymentModel {
    /// Whether the deployment is at one of its stages.
    pub open spec fn on_stage(self) -> bool {
        self.current_stage < self.stages.len()
    }

    /// The traffic percentage currently routed to the new version.
    pub open spec fn traffic_percent(self) -> u8 {
        if self.on_stage() {
            self.stages[self.current_stage as int].traffic_percent
        } else {
            0
        }
    }

    /// The deployment with one more recorded step.
    pub open spec fn noted(self, description: Seq<char>, now: Timestamp) -> DeploymentModel {
        DeploymentModel {
            history: self.history.push(EventModel { timestamp: now, description }),
            ..self
        }
    }

    /// The deployment after an automated rollback because of a sample.
    pub open spec fn breached(self, m: CanaryMetrics, now: Timestamp) -> DeploymentModel {
        (DeploymentModel {
            last_metrics: Some(m),
            status: CanaryStatus::RolledBack,
            ..self
        }).noted(
            "automated rollback: error_rate="@ + m.error_rate.text@ + " latency_p99_ms="@
                + m.latency_p99_ms.text@ + " breached thresholds"@,
            now,
        )
    }

    /// The deployment one stage further.
    pub open spec fn progressed(self, now: Timestamp) -> DeploymentModel {
        let next = DeploymentModel {
            current_stage: (self.current_stage + 1) as usize,
            stage_started_at: now,
            ..self
        };
        next.noted(
            "progressed to "@ + text::decimal(next.traffic_percent() as nat) + "% traffic"@,
            now,
        )
    }

    /// The deployment after its last stage.
    pub open spec fn completed(self, now: Timestamp) -> DeploymentModel {
        (DeploymentModel { status: CanaryStatus::Completed, ..self }).noted(
            "canary completed at 100% traffic"@,
            now,
        )
    }

    /// The deployment after a sample was evaluated at `now`.
    pub open spec fn evaluated(self, m: CanaryMetrics, now: Timestamp) -> DeploymentModel {
        let seen = DeploymentModel { last_metrics: Some(m), ..self };
        if self.status != CanaryStatus::InProgress {
            self
        } else if breaches(m, self.thresholds) {
            self.breached(m, now)
        } else if minutes_between(self.stage_started_at, now)
            < self.stages[self.current_stage as int].min_duration_minutes {
            seen
        } else if self.current_stage + 1 < self.stages.len() {
            seen.progressed(now)
        } else {
            seen.completed(now)
        }
    }

    /// The deployment after it was rolled back by hand.
    pub open spec fn rolled_back(self, reason: Seq<char>, now: Timestamp) -> DeploymentModel {
        (DeploymentModel { status: CanaryStatus::RolledBack, ..self }).noted(
            "manual rollback: "@ + reason,
            now,
        )
    }
}

impl CanaryDeployment {
    /// The traffic percentage currently routed to the new version.
    pub fn current_traffic_percent(&self) -> (r: u8)
        ensures
            r == self@.traffic_percent(),
    {
        if self.current_stage < self.stages.len() {
            self.stages[self.current_stage].traffic_percent
        } else {
            0
        }
    }

    /// Records a step.
    fn push_event(&mut self, description: String, now: Timestamp)
        ensures
            final(self)@ == old(self)@.noted(description@, now),
    {
        self.history.push(CanaryEvent { timestamp: now, description });
        assert(self@ =~= old(self)@.noted(description@, now));
    }

    /// Takes in the latest metrics at `now`: rolls back when they breach the
    /// thresholds, and otherwise progresses once the stage has lasted long
    /// enough.
    pub fn evaluate_at(&mut self, metrics: &CanaryMetrics, now: Timestamp)
        requires
            old(self)@.on_stage(),
        ensures
            final(self)@ == old(self)@.evaluated(*metrics, now),
    {
        if self.status != CanaryStatus::InProgress {
            return ;
        }
        self.last_metrics = Some(metrics.clone());
        let breached: bool = metrics.error_rate.order > self.thresholds.max_error_rate
            || metrics.latency_p99_ms.order > self.thresholds.max_latency_p99_ms;
        if breached {
            self.status = CanaryStatus::RolledBack;
            let mut description: String = "automated rollback: error_rate=".to_owned();
            description.append(metrics.error_rate.text.as_str());
            description.append(" latency_p99_ms=");
            description.append(metrics.latency_p99_ms.text.as_str());
            description.append(" breached thresholds");
            self.push_event(description, now);
            assert(self@ =~= old(self)@.evaluated(*metrics, now));
            return ;
        }
        let elapsed: i128 = elapsed_minutes(&self.stage_started_at, &now);
        if elapsed >= self.stages[self.current_stage].min_duration_minutes as i128 {
            if self.stages.len() - self.current_stage > 1 {
                self.current_stage += 1;
                self.stage_started_at = now;
                let percent: u8 = self.current_traffic_percent();
                self.push_event(numbered("progressed to ", percent as u64, "% traffic"), now);
            } else {
                self.status = CanaryStatus::Completed;
                self.push_event("canary completed at 100% traffic".to_owned(), now);
            }
        }
        assert(self@ =~= old(self)@.evaluated(*metrics, now));
    }

    /// Rolls the deployment back at `now`.
    pub fn rollback_at(&mut self, reason: &str, now: Timestamp)
        ensures
            final(self)@ == old(self)@.rolled_back(reason@, now),
    {
        self.status = CanaryStatus::RolledBack;
        self.push_event(joined("manual rollback: ", reason), now);
        assert(self@ =~= old(self)@.rolled_back(reason@, now));
    }
}

/// What is asked for when a deployment is started.
#[derive(Debug)]
pub struct StartCanaryRequest {
    pub service: String,
    pub version: String,
    /// Ordered rollout stages; defaults to a standard 5/25/50/100 ramp if
    /// omitted.
    pub stages: Option<Vec<CanaryStage>>,
    pub thresholds: Option<MetricThresholds>,
}

/// The metrics to evaluate.
#[derive(Debug)]
pub struct EvaluateCanaryRequest {
    pub metrics: CanaryMetrics,
}

/// Why a deployment is to be rolled back.
#[derive(Debug)]
pub struct RollbackCanaryRequest {
    pub reason: String,
}

/// The standard ramp.
pub open spec fn standard_stages() -> Seq<CanaryStage> {
    seq![
        CanaryStage { traffic_percent: 5, min_duration_minutes: 10 },
        CanaryStage { traffic_percent: 25, min_duration_minutes: 15 },
        CanaryStage { traffic_percent: 50, min_duration_minutes: 15 },
        CanaryStage { traffic_percent: 100, min_duration_minutes: 0 },
    ]
}

/// The standard ramp.
pub fn default_stages() -> (r: Vec<CanaryStage>)
    ensures
        r@ == standard_stages(),
{
    let r = vec![
        CanaryStage { traffic_percent: 5, min_duration_minutes: 10 },
        CanaryStage { traffic_percent: 25, min_duration_minutes: 15 },
        CanaryStage { traffic_percent: 50, min_duration_minutes: 15 },
        CanaryStage { traffic_percent: 100, min_duration_minutes: 0 },
    ];
    assert(r@ =~= standard_stages());
    r
}

impl StartCanaryRequest {
    /// The stages that are asked for, or the standard ramp.
    pub open spec fn wanted_stages(self) -> Seq<CanaryStage> {
        match self.stages {
            Some(stages) => stages@,
            None => standard_stages(),
        }
    }

    /// The thresholds that are asked for, or the standard ones.
    pub open spec fn wanted_thresholds(self) -> MetricThresholds {
        match self.thresholds {
            Some(t) => t,
            None => MetricThresholds {
                max_error_rate: DEFAULT_MAX_ERROR_RATE,
                max_latency_p99_ms: DEFAULT_MAX_LATENCY_P99_MS,
            },
        }
    }
}

/// The deployment that a request starts at `now`.
pub open spec fn started(id: Seq<char>, body: StartCanaryRequest, now: Timestamp) -> DeploymentModel {
    let d = DeploymentModel {
        id,
        service: body.service@,
        version: body.version@,
        stages: body.wanted_stages(),
        current_stage: 0,
        thresholds: body.wanted_thresholds(),
        status: CanaryStatus::InProgress,
        last_metrics: None,
        history: Seq::empty(),
        started_at: now,
        stage_started_at: now,
    };
    d.noted(
        "canary started at "@ + text::decimal(d.traffic_percent() as nat) + "% traffic"@,
        now,
    )
}

/// Why a request is refused.
#[derive(Debug, Clone, Copy, PartialEq, Eq, Structural)]
pub enum CanaryError {
    /// A rollout without stages was asked for.
    NoStages,
    /// There is no such deployment.
    NotFound,
}

impl CanaryError {
    /// The HTTP status of the refusal.
    pub fn status(&self) -> (r: u16)
        ensures
            r == match *self {
                CanaryError::NoStages => 422u16,
                CanaryError::NotFound => 404u16,
            },
    {
        match self {
            CanaryError::NoStages => 422,
            CanaryError::NotFound => 404,
        }
    }

    /// The message of the refusal, where there is one.
    pub fn message(&self) -> (r: Option<&'static str>)
        ensures
            match *self {
                CanaryError::NoStages => r is Some && r->0@ == "at least one stage is required"@,
                CanaryError::NotFound => r is None,
            },
    {
        match self {
            CanaryError::NoStages => Some("at least one stage is required"),
            CanaryError::NotFound => None,
        }
    }
}

/// The deployments by identifier.
pub type CanaryStore = StrMap<CanaryDeployment>;

/// An empty store.
pub fn create_canary_store() -> (r: CanaryStore)
    ensures
        r@ == Map::<Seq<char>, CanaryDeployment>::empty(),
{
    StrMap::new()
}

/// What is known of every deployment of a store.
pub open spec fn models(map: Map<Seq<char>, CanaryDeployment>) -> Map<Seq<char>, DeploymentModel> {
    Map::new(|k: Seq<char>| map.contains_key(k), |k: Seq<char>| map[k]@)
}

/// The deployments that are tracked.
pub struct CanaryState {
    store: CanaryStore,
}

impl View for CanaryState {
    type V = Map<Seq<char>, DeploymentModel>;

    closed spec fn view(&self) -> Map<Seq<char>, DeploymentModel> {
        models(self.store@)
    }
}

/// Whether every deployment is at one of its stages.
pub open spec fn all_on_stage(m: Map<Seq<char>, DeploymentModel>) -> bool {
    forall|id: Seq<char>| #[trigger] m.contains_key(id) ==> m[id].on_stage()
}

impl Default for CanaryState {
    fn default() -> (r: Self)
        ensures
            r@ == Map::<Seq<char>, DeploymentModel>::empty(),
    {
        Self::new()
    }
}

impl CanaryState {
    #[verifier::type_invariant]
    spec fn in_rollout(self) -> bool {
        all_on_stage(models(self.store@))
    }

    /// A state without deployments.
    pub fn new() -> (r: Self)
        ensures
            r@ == Map::<Seq<char>, DeploymentModel>::empty(),
    {
        let store = create_canary_store();
        assert(models(store@) =~= Map::<Seq<char>, DeploymentModel>::empty());
        CanaryState { store }
    }

    /// Takes the store out, leaving an empty one behind.
    fn take_store(&mut self) -> (r: CanaryStore)
        ensures
            models(r@) == old(self)@,
            all_on_stage(models(r@)),
            final(self)@ == Map::<Seq<char>, DeploymentModel>::empty(),
    {
        proof {
            use_type_invariant(&*self);
        }
        let mut store = create_canary_store();
        assert(models(store@) =~= Map::<Seq<char>, DeploymentModel>::empty());
        std::mem::swap(&mut store, &mut self.store);
        store
    }

    /// Start a new canary deployment at the first (smallest traffic) stage.
    pub fn start_canary_deployment(&mut self, body: StartCanaryRequest) -> (r: Result<
        CanaryDeployment,
        CanaryError,
    >)
        ensures
            match r {
                Ok(d) => {
                    &&& body.wanted_stages().len() > 0
                    &&& d@.id.len() == 36
                    &&& final(self)@ == old(self)@.insert(d@.id, d@)
                    &&& exists|now: Timestamp| d@ == #[trigger] started(d@.id, body, now)
                },
                Err(e) => {
                    &&& e == CanaryError::NoStages
                    &&& body.wanted_stages().len() == 0
                    &&& final(self)@ == old(self)@
                },
            },
    {
        let id = fresh_id();
        let now = Timestamp::now();
        let ghost name = id@;
        let r = self.start_at(id, body, now);
        assert(started(name, body, now).id == name);
        r
    }

    /// Start a new canary deployment called `id` at `now`.
    pub fn start_at(&mut self, id: String, body: StartCanaryRequest, now: Timestamp) -> (r: Result<
        CanaryDeployment,
        CanaryError,
    >)
        ensures
            match r {
                Ok(d) => {
                    &&& body.wanted_stages().len() > 0
                    &&& d@ == started(id@, body, now)
                    &&& final(self)@ == old(self)@.insert(id@, d@)
                },
                Err(e) => {
                    &&& e == CanaryError::NoStages
                    &&& body.wanted_stages().len() == 0
                    &&& final(self)@ == old(self)@
                },
            },
    {
        let StartCanaryRequest { service, version, stages, thresholds } = body;
        let stages = match stages {
            Some(s) => s,
            None => default_stages(),
        };
        if stages.len() == 0 {
            return Err(CanaryError::NoStages);
        }
        let thresholds = match thresholds {
            Some(t) => t,
            None => MetricThresholds::default(),
        };
        let key = id.clone();
        let mut deployment = CanaryDeployment {
            id,
            service,
            version,
            stages,
            current_stage: 0,
            thresholds,
            status: CanaryStatus::InProgress,
            last_metrics: None,
            history: Vec::new(),
            started_at: now,
            stage_started_at: now,
        };
        let percent: u8 = deployment.current_traffic_percent();
        deployment.push_event(numbered("canary started at ", percent as u64, "% traffic"), now);
        assert(deployment@ =~= started(id@, body, now));
        let copy = deployment.clone();
        let mut store = self.take_store();
        let _old = store.insert(key, deployment);
        assert(models(store@) =~= old(self)@.insert(id@, copy@));
        self.store = store;
        Ok(copy)
    }

    /// A deployment by its identifier.
    pub fn get_canary_deployment(&self, id: &str) -> (r: Result<CanaryDeployment, CanaryError>)
        ensures
            match r {
                Ok(d) => self@.contains_key(id@) && d@ == self@[id@] && d@.on_stage(),
                Err(e) => e == CanaryError::NotFound && !self@.contains_key(id@),
            },
    {
        proof {
            use_type_invariant(self);
            assert(self.store@.contains_key(id@) ==> models(self.store@).contains_key(id@));
        }
        match self.store.get(id) {
            Some(d) => Ok(d.clone()),
            None => Err(CanaryError::NotFound),
        }
    }

    /// Report the latest metrics for the canary's current traffic slice. If
    /// they breach thresholds, the deployment is rolled back; otherwise, once
    /// the stage's minimum duration has elapsed, it progresses to the next
    /// stage.
    pub fn evaluate_canary(&mut self, id: &str, body: &EvaluateCanaryRequest) -> (r: Result<
        CanaryDeployment,
        CanaryError,
    >)
        ensures
            match r {
                Ok(d) => {
                    &&& old(self)@.contains_key(id@)
                    &&& exists|now: Timestamp|
                        d@ == #[trigger] old(self)@[id@].evaluated(body.metrics, now)
                    &&& final(self)@ == old(self)@.insert(id@, d@)
                },
                Err(e) => {
                    &&& e == CanaryError::NotFound
                    &&& !old(self)@.contains_key(id@)
                    &&& final(self)@ == old(self)@
                },
            },
    {
        let now = Timestamp::now();
        self.evaluate_at(id, body, now)
    }

    /// Report metrics at `now`.
    pub fn evaluate_at(&mut self, id: &str, body: &EvaluateCanaryRequest, now: Timestamp) -> (r:
        Result<CanaryDeployment, CanaryError>)
        ensures
            match r {
                Ok(d) => {
                    &&& old(self)@.contains_key(id@)
                    &&& d@ == old(self)@[id@].evaluated(body.metrics, now)
                    &&& final(self)@ == old(self)@.insert(id@, d@)
                },
                Err(e) => {
                    &&& e == CanaryError::NotFound
                    &&& !old(self)@.contains_key(id@)
                    &&& final(self)@ == old(self)@
                },
            },
    {
        let mut store = self.take_store();
        assert(store@.contains_key(id@) ==> models(store@).contains_key(id@) && models(store@)[id@]
            == store@[id@]@);
        let r = match store.get_mut(id) {
            Some(d) => {
                d.evaluate_at(&body.metrics, now);
                Ok(d.clone())
            },
            None => Err(CanaryError::NotFound),
        };
        assert(models(store@) =~= match r {
            Ok(d) => old(self)@.insert(id@, d@),
            Err(_) => old(self)@,
        });
        self.store = store;
        r
    }

    /// Force an immediate rollback, triggered by hand or by an external alert.
    pub fn rollback_canary(&mut self, id: &str, body: &RollbackCanaryRequest) -> (r: Result<
        CanaryDeployment,
        CanaryError,
    >)
        ensures
            match r {
                Ok(d) => {
                    &&& old(self)@.contains_key(id@)
                    &&& exists|now: Timestamp|
                        d@ == #[trigger] old(self)@[id@].rolled_back(body.reason@, now)
                    &&& final(self)@ == old(self)@.insert(id@, d@)
                },
                Err(e) => {
                    &&& e == CanaryError::NotFound
                    &&& !old(self)@.contains_key(id@)
                    &&& final(self)@ == old(self)@
                },
            },
    {
        let now = Timestamp::now();
        self.rollback_at(id, body, now)
    }

    /// Force an immediate rollback at `now`.
    pub fn rollback_at(&mut self, id: &str, body: &RollbackCanaryRequest, now: Timestamp) -> (r:
        Result<CanaryDeployment, CanaryError>)
        ensures
            match r {
                Ok(d) => {
                    &&& old(self)@.contains_key(id@)
                    &&& d@ == old(self)@[id@].rolled_back(body.reason@, now)
                    &&& final(self)@ == old(self)@.insert(id@, d@)
                },
                Err(e) => {
                    &&& e == CanaryError::NotFound
                    &&& !old(self)@.contains_key(id@)
                    &&& final(self)@ == old(self)@
                },
            },
    {
        let mut store = self.take_store();
        assert(store@.contains_key(id@) ==> models(store@).contains_key(id@) && models(store@)[id@]
            == store@[id@]@);
        let r = match store.get_mut(id) {
            Some(d) => {
                d.rollback_at(body.reason.as_str(), now);
                Ok(d.clone())
            },
            None => Err(CanaryError::NotFound),
        };
        assert(models(store@) =~= match r {
            Ok(d) => old(self)@.insert(id@, d@),
            Err(_) => old(self)@,
        });
        self.store = store;
        r
    }
}

/// A sample that breaches a threshold rolls back a deployment in progress,
/// whatever its stage and however long it has lasted.
pub proof fn law_breach_rolls_back(d: DeploymentModel, m: CanaryMetrics, now: Timestamp)
    requires
        d.status == CanaryStatus::InProgress,
        breaches(m, d.thresholds),
    ensures
        d.evaluated(m, now).status == CanaryStatus::RolledBack,
        d.evaluated(m, now).current_stage == d.current_stage,
{
}

/// Rollouts are gradual: an evaluation moves at most one stage ahead, never
/// back, only without a breach and after the stage's minimum duration, and a
/// deployment completes only on its last stage.
pub proof fn law_rollout_is_gradual(d: DeploymentModel, m: CanaryMetrics, now: Timestamp)
    requires
        d.on_stage(),
        d.stages.len() <= usize::MAX,
    ensures
        d.evaluated(m, now).on_stage(),
        d.evaluated(m, now).current_stage == d.current_stage || d.evaluated(m, now).current_stage
            == d.current_stage + 1,
        d.evaluated(m, now).current_stage != d.current_stage || (d.evaluated(m, now).status
            == CanaryStatus::Completed && d.status != CanaryStatus::Completed) ==> {
            &&& d.status == CanaryStatus::InProgress
            &&& !breaches(m, d.thresholds)
            &&& minutes_between(d.stage_started_at, now)
                >= d.stages[d.current_stage as int].min_duration_minutes
        },
        d.evaluated(m, now).status == CanaryStatus::Completed && d.status
            != CanaryStatus::Completed ==> d.current_stage + 1 == d.stages.len(),
{
}

/// A deployment that is completed or rolled back is no longer changed by
/// metrics.
pub proof fn law_finished_is_final(d: DeploymentModel, m: CanaryMetrics, now: Timestamp)
    requires
        d.status != CanaryStatus::InProgress,
    ensures
        d.evaluated(m, now) == d,
{
}

/// The history only grows.
pub proof fn law_history_only_grows(
    d: DeploymentModel,
    m: CanaryMetrics,
    reason: Seq<char>,
    now: Timestamp,
)
    ensures
        d.history.is_prefix_of(d.evaluated(m, now).history),
        d.history.is_prefix_of(d.rolled_back(reason, now).history),
{
}

/// A sample rolls a running deployment back exactly if one of its two measures
/// lies above the limit for that measure; a measure at its limit does not.
pub proof fn law_either_measure_rolls_back(d: DeploymentModel, m: CanaryMetrics, now: Timestamp)
    requires
        d.status == CanaryStatus::InProgress,
    ensures
        m.error_rate.order > d.thresholds.max_error_rate ==> d.evaluated(m, now).status
            == CanaryStatus::RolledBack,
        m.latency_p99_ms.order > d.thresholds.max_latency_p99_ms ==> d.evaluated(m, now).status
            == CanaryStatus::RolledBack,
        m.error_rate.order <= d.thresholds.max_error_rate && m.latency_p99_ms.order
            <= d.thresholds.max_latency_p99_ms ==> d.evaluated(m, now).status
            != CanaryStatus::RolledBack,
        d.evaluated(m, now).status == CanaryStatus::RolledBack ==> d.evaluated(m, now).current_stage
            == d.current_stage && d.evaluated(m, now).stage_started_at == d.stage_started_at,
        d.evaluated(m, now).last_metrics == Some(m),
{
}

/// A healthy deployment waits until its stage has lasted as many whole minutes
/// as the stage asks for, and moves on by one stage from then on; it is complete
/// when there is no further stage.
pub proof fn law_stage_lasts_its_minutes(
    d: DeploymentModel,
    m: CanaryMetrics,
    now: Timestamp,
    minutes: int,
)
    requires
        d.status == CanaryStatus::InProgress,
        d.on_stage(),
        d.stages.len() <= usize::MAX,
        m.error_rate.order <= d.thresholds.max_error_rate,
        m.latency_p99_ms.order <= d.thresholds.max_latency_p99_ms,
        d.stage_started_at.nanos < 1_000_000_000,
        now.nanos < 1_000_000_000,
        d.stage_started_at.secs <= now.secs,
        now.secs == d.stage_started_at.secs ==> now.nanos >= d.stage_started_at.nanos,
        minutes == d.stages[d.current_stage as int].min_duration_minutes,
    ensures
        now.nanos >= d.stage_started_at.nanos && now.secs - d.stage_started_at.secs >= 60 * minutes
            && d.current_stage + 1 < d.stages.len() ==> d.evaluated(m, now).status
            == CanaryStatus::InProgress && d.evaluated(m, now).current_stage == d.current_stage + 1
            && d.evaluated(m, now).stage_started_at == now,
        now.nanos >= d.stage_started_at.nanos && now.secs - d.stage_started_at.secs >= 60 * minutes
            && d.current_stage + 1 == d.stages.len() ==> d.evaluated(m, now).status
            == CanaryStatus::Completed && d.evaluated(m, now).current_stage == d.current_stage,
        now.secs - d.stage_started_at.secs < 60 * minutes ==> d.evaluated(m, now).status
            == CanaryStatus::InProgress && d.evaluated(m, now).current_stage == d.current_stage
            && d.evaluated(m, now).stage_started_at == d.stage_started_at && d.evaluated(
            m,
            now,
        ).history == d.history,
{
}

/// A deployment starts in progress at its first stage, with the stages and limits
/// that were asked for; without them it ramps up over 5, 25, 50 and 100 percent.
pub proof fn law_start_is_at_the_first_stage(
    id: Seq<char>,
    body: StartCanaryRequest,
    now: Timestamp,
)
    ensures
        ({
            let d = started(id, body, now);
            &&& d.id == id && d.service == body.service@ && d.version == body.version@
            &&& d.status == CanaryStatus::InProgress
            &&& d.current_stage == 0
            &&& d.started_at == now && d.stage_started_at == now
            &&& d.last_metrics is None
            &&& d.history.len() == 1 && d.history[0].timestamp == now
            &&& body.stages is Some ==> d.stages == body.stages->0@
            &&& body.stages is None ==> d.stages.len() == 4 && d.stages[0].traffic_percent == 5
                && d.stages[1].traffic_percent == 25 && d.stages[2].traffic_percent == 50
                && d.stages[3].traffic_percent == 100
            &&& body.stages is None ==> d.stages[0].min_duration_minutes == 10
                && d.stages[1].min_duration_minutes == 15 && d.stages[2].min_duration_minutes == 15
                && d.stages[3].min_duration_minutes == 0
            &&& body.thresholds is Some ==> d.thresholds == body.thresholds->0
        }),
{
}

/// The traffic routed to the new version is what the current stage says.
pub proof fn law_traffic_follows_the_stage(d: DeploymentModel)
    ensures
        d.current_stage < d.stages.len() ==> d.traffic_percent()
            == d.stages[d.current_stage as int].traffic_percent,
        d.current_stage >= d.stages.len() ==> d.traffic_percent() == 0,
{
}

/// A rollback by hand ends a deployment in any status, and is recorded with its
/// reason.
pub proof fn law_manual_rollback_is_recorded(
    d: DeploymentModel,
    reason: Seq<char>,
    now: Timestamp,
)
    ensures
        d.rolled_back(reason, now).status == CanaryStatus::RolledBack,
        d.rolled_back(reason, now).current_stage == d.current_stage,
        d.rolled_back(reason, now).history.len() == d.history.len() + 1,
        d.rolled_back(reason, now).history.last().timestamp == now,
        d.rolled_back(reason, now).history.last().description == "manual rollback: "@ + reason,
        d.rolled_back(reason, now).history.drop_last() == d.history,
{
    assert(d.rolled_back(reason, now).history.drop_last() =~= d.history);
}

} // verus!
