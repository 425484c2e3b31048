//! Circuit breakers that can be watched: state changes, figures, alerts.

use crate::cache_metrics;
use crate::clock;
use crate::clock::{Clock, Duration, Instant, Timestamp, NANOS_PER_SEC};
use crate::metrics;
use crate::metrics::push_labelled;
use crate::ratio;
use crate::ring;
use crate::strmap::StrMap;
use crate::text;
use vstd::prelude::*;
use vstd::string::*;

verus! {

/// The three states of a circuit breaker.
#[derive(Clone, Copy, Debug, PartialEq, Eq, Structural)]
pub enum CircuitState {
    /// Calls flow through normally.
    Closed,
    /// Calls are rejected immediately without invoking the underlying operation.
    Open,
    /// Trial calls are allowed through to probe recovery; any failure
    /// immediately reopens the breaker, while enough consecutive successes
    /// close it.
    HalfOpen,
}

impl CircuitState {
    /// The number of the state in metrics.
    pub open spec fn code(self) -> u8 {
        match self {
            CircuitState::Closed => 0,
            CircuitState::HalfOpen => 1,
            CircuitState::Open => 2,
        }
    }

    /// The name of the state.
    pub open spec fn label(self) -> Seq<char> {
        match self {
            CircuitState::Closed => "closed"@,
            CircuitState::Open => "open"@,
            CircuitState::HalfOpen => "half_open"@,
        }
    }

    /// The number of the state in metrics.
    pub fn as_code(self) -> (r: u8)
        ensures
            r == self.code(),
    {
        match self {
            CircuitState::Closed => 0,
            CircuitState::HalfOpen => 1,
            CircuitState::Open => 2,
        }
    }

    /// The state with the given number; every other number means closed.
    pub fn from_code(code: u8) -> (r: Self)
        ensures
            code <= 2 ==> r.code() == code,
            code > 2 ==> r == CircuitState::Closed,
    {
        match code {
            1 => CircuitState::HalfOpen,
            2 => CircuitState::Open,
            _ => CircuitState::Closed,
        }
    }

    /// The name of the state.
    pub fn as_str(self) -> (r: &'static str)
        ensures
            r@ == self.label(),
    {
        match self {
            CircuitState::Closed => "closed",
            CircuitState::Open => "open",
            CircuitState::HalfOpen => "half_open",
        }
    }
}

/// Configuration for when a breaker trips and how it recovers.
#[derive(Clone, Copy, Debug, PartialEq, Eq, Structural)]
pub struct CircuitBreakerConfig {
    /// Consecutive failures (while closed) that trip the breaker open.
    pub failure_threshold: u32,
    /// Consecutive successes (while half-open) required to close the breaker.
    pub success_threshold: u32,
    /// How long the breaker stays open before allowing a half-open probe.
    pub open_duration: Duration,
}

impl Default for CircuitBreakerConfig {
    fn default() -> (r: Self)
        ensures
            r.failure_threshold == 5,
            r.success_threshold == 2,
            r.open_duration.nanos == 30_000_000_000,
    {
        CircuitBreakerConfig {
            failure_threshold: 5,
            success_threshold: 2,
            open_duration: Duration::from_secs(30),
        }
    }
}

/// A single observed state transition, kept for the events feed.
#[derive(Debug)]
pub struct StateChangeEvent {
    pub breaker: String,
    pub from: CircuitState,
    pub to: CircuitState,
    pub at: Timestamp,
    pub reason: String,
}

/// What a state transition says.
pub struct StateChange {
    pub breaker: Seq<char>,
    pub from: CircuitState,
    pub to: CircuitState,
    pub at: Timestamp,
    pub reason: Seq<char>,
}

impl View for StateChangeEvent {
    type V = StateChange;

    open spec fn view(&self) -> StateChange {
        StateChange {
            breaker: self.breaker@,
            from: self.from,
            to: self.to,
            at: self.at,
            reason: self.reason@,
        }
    }
}

impl Clone for StateChangeEvent {
    fn clone(&self) -> (r: Self)
        ensures
            r == *self,
    {
        StateChangeEvent {
            breaker: self.breaker.clone(),
            from: self.from,
            to: self.to,
            at: self.at,
            reason: self.reason.clone(),
        }
    }
}

/// Severity of a raised alert.
#[derive(Clone, Copy, Debug, PartialEq, Eq, Structural)]
pub enum AlertSeverity {
    Warning,
    Critical,
}

/// An alert produced by inspecting breaker state (e.g. "open too long").
#[derive(Debug)]
pub struct CircuitAlert {
    pub breaker: String,
    pub severity: AlertSeverity,
    pub message: String,
}

/// What an alert says.
pub struct AlertText {
    pub breaker: Seq<char>,
    pub severity: AlertSeverity,
    pub message: Seq<char>,
}

impl View for CircuitAlert {
    type V = AlertText;

    open spec fn view(&self) -> AlertText {
        AlertText { breaker: self.breaker@, severity: self.severity, message: self.message@ }
    }
}

/// Point-in-time snapshot of a breaker.
#[derive(Debug)]
pub struct CircuitBreakerSnapshot {
    pub name: String,
    pub state: CircuitState,
    pub consecutive_failures: u32,
    pub consecutive_successes: u32,
    pub calls_allowed_total: u64,
    pub calls_rejected_total: u64,
    pub failures_total: u64,
    pub successes_total: u64,
    pub state_transitions_total: u64,
    pub opened_at: Option<Timestamp>,
}

/// How many state changes a breaker remembers.
pub const MAX_EVENT_HISTORY: usize = 200;

/// A single named circuit breaker with built-in observability.
pub struct CircuitBreaker {
    name: String,
    config: CircuitBreakerConfig,
    state: CircuitState,
    consecutive_failures: u64,
    consecutive_successes: u64,
    calls_allowed_total: u64,
    calls_rejected_total: u64,
    failures_total: u64,
    successes_total: u64,
    state_transitions_total: u64,
    opened_at: Option<Instant>,
    opened_at_wall: Option<Timestamp>,
    events: Vec<StateChangeEvent>,
    clock: Clock,
}

/// What there is to know of a breaker.
pub struct Breaker {
    pub name: Seq<char>,
    pub config: CircuitBreakerConfig,
    pub state: CircuitState,
    pub consecutive_failures: u64,
    pub consecutive_successes: u64,
    pub calls_allowed_total: u64,
    pub calls_rejected_total: u64,
    pub failures_total: u64,
    pub successes_total: u64,
    pub state_transitions_total: u64,
    pub opened_at: Option<Instant>,
    pub opened_at_wall: Option<Timestamp>,
    pub events: Seq<StateChange>,
}

/// What a list of state changes says.
pub open spec fn changes(events: Seq<StateChangeEvent>) -> Seq<StateChange> {
    Seq::new(events.len(), |i: int| events[i]@)
}

impl View for CircuitBreaker {
    type V = Breaker;

    closed spec fn view(&self) -> Breaker {
        Breaker {
            name: self.name@,
            config: self.config,
            state: self.state,
            consecutive_failures: self.consecutive_failures,
            consecutive_successes: self.consecutive_successes,
            calls_allowed_total: self.calls_allowed_total,
            calls_rejected_total: self.calls_rejected_total,
            failures_total: self.failures_total,
            successes_total: self.successes_total,
            state_transitions_total: self.state_transitions_total,
            opened_at: self.opened_at,
            opened_at_wall: self.opened_at_wall,
            events: changes(self.events@),
        }
    }
}

/// A counter plus one, wrapping around.
pub open spec fn next(n: u64) -> u64 {
    cache_metrics::wrapping_sum(n, 1)
}

/// A breaker that has seen nothing: closed, with all figures zero.
pub open spec fn fresh(name: Seq<char>, config: CircuitBreakerConfig) -> Breaker {
    Breaker {
        name,
        config,
        state: CircuitState::Closed,
        consecutive_failures: 0,
        consecutive_successes: 0,
        calls_allowed_total: 0,
        calls_rejected_total: 0,
        failures_total: 0,
        successes_total: 0,
        state_transitions_total: 0,
        opened_at: None,
        opened_at_wall: None,
        events: Seq::empty(),
    }
}

/// A breaker after moving to the state `to`, which is recorded with its
/// reason. A breaker that is already there stays as it is.
pub open spec fn moved(
    b: Breaker,
    to: CircuitState,
    reason: Seq<char>,
    now: Instant,
    wall: Timestamp,
) -> Breaker {
    if b.state == to {
        b
    } else {
        Breaker {
            state: to,
            state_transitions_total: next(b.state_transitions_total),
            opened_at: match to {
                CircuitState::Open => Some(now),
                CircuitState::Closed => None,
                CircuitState::HalfOpen => b.opened_at,
            },
            opened_at_wall: match to {
                CircuitState::Open => Some(wall),
                CircuitState::Closed => None,
                CircuitState::HalfOpen => b.opened_at_wall,
            },
            consecutive_failures: if to == CircuitState::Closed {
                0
            } else {
                b.consecutive_failures
            },
            events: ring::keep_last(
                b.events.push(
                    StateChange { breaker: b.name, from: b.state, to, at: wall, reason },
                ),
                200,
            ),
            ..b
        }
    }
}

/// Whether the cool-down of an open breaker is over at `now`.
pub open spec fn cooled_down(b: Breaker, now: Instant) -> bool {
    match b.opened_at {
        Some(at) => clock::elapsed_nanos(at, now) >= b.config.open_duration.nanos,
        None => true,
    }
}

/// Whether a call is let through at `now`.
pub open spec fn admits(b: Breaker, now: Instant) -> bool {
    b.state != CircuitState::Open || cooled_down(b, now)
}

/// The breaker after `admits` has been asked: an open breaker that has cooled
/// down starts probing.
pub open spec fn probed(b: Breaker, now: Instant, wall: Timestamp) -> Breaker {
    if b.state == CircuitState::Open && cooled_down(b, now) {
        moved(b, CircuitState::HalfOpen, "open_duration elapsed, probing"@, now, wall)
    } else {
        b
    }
}

/// The breaker once a call has been let through.
pub open spec fn admitted(b: Breaker, now: Instant, wall: Timestamp) -> Breaker {
    let p = probed(b, now, wall);
    Breaker { calls_allowed_total: next(p.calls_allowed_total), ..p }
}

/// The breaker once a call has been rejected.
pub open spec fn turned_away(b: Breaker) -> Breaker {
    Breaker { calls_rejected_total: next(b.calls_rejected_total), ..b }
}

/// The breaker once a call has succeeded.
pub open spec fn after_success(b: Breaker, now: Instant, wall: Timestamp) -> Breaker {
    let s = Breaker {
        successes_total: next(b.successes_total),
        consecutive_failures: 0,
        ..b
    };
    if b.state == CircuitState::HalfOpen {
        let n = next(b.consecutive_successes);
        if n >= b.config.success_threshold {
            moved(
                Breaker { consecutive_successes: 0, ..s },
                CircuitState::Closed,
                "success threshold reached in half-open"@,
                now,
                wall,
            )
        } else {
            Breaker { consecutive_successes: n, ..s }
        }
    } else {
        s
    }
}

/// The breaker once a call has failed.
pub open spec fn after_failure(b: Breaker, now: Instant, wall: Timestamp) -> Breaker {
    let s = Breaker {
        failures_total: next(b.failures_total),
        consecutive_successes: 0,
        ..b
    };
    match b.state {
        CircuitState::Closed => {
            let n = next(b.consecutive_failures);
            let t = Breaker { consecutive_failures: n, ..s };
            if n >= b.config.failure_threshold {
                moved(t, CircuitState::Open, "failure threshold exceeded"@, now, wall)
            } else {
                t
            }
        },
        CircuitState::HalfOpen => moved(
            s,
            CircuitState::Open,
            "probe failed in half-open"@,
            now,
            wall,
        ),
        CircuitState::Open => s,
    }
}

/// Error returned by [`CircuitBreaker::call`].
#[derive(Debug)]
pub enum CircuitBreakerError<E> {
    /// The breaker is open; the call was never attempted.
    Rejected,
    /// The wrapped operation ran and failed.
    Operation(E),
}

impl<E> CircuitBreakerError<E> {
    /// The error in words, where `cause` words the operation's own error.
    pub fn describe(&self, cause: &str) -> (r: String)
        ensures
            r@ == match *self {
                CircuitBreakerError::Rejected => "circuit breaker open: call rejected"@,
                CircuitBreakerError::Operation(_) => "operation failed: "@ + cause@,
            },
    {
        match self {
            CircuitBreakerError::Rejected => "circuit breaker open: call rejected".to_owned(),
            CircuitBreakerError::Operation(_) => text::joined("operation failed: ", cause),
        }
    }
}

/// Whether a call that found the breaker as `before`, was decided at `t1` and
/// ended at `t2` left the breaker as `after` and had the outcome `r`.
pub open spec fn called<T, E, F: FnOnce() -> Result<T, E>>(
    f: F,
    before: Breaker,
    after: Breaker,
    r: Result<T, CircuitBreakerError<E>>,
    t1: Instant,
    w1: Timestamp,
    t2: Instant,
    w2: Timestamp,
) -> bool {
    match r {
        Err(CircuitBreakerError::Rejected) => !admits(before, t1) && after == turned_away(before),
        Err(CircuitBreakerError::Operation(e)) => {
            &&& admits(before, t1)
            &&& f.ensures((), Err(e))
            &&& after == after_failure(admitted(before, t1, w1), t2, w2)
        },
        Ok(v) => {
            &&& admits(before, t1)
            &&& f.ensures((), Ok(v))
            &&& after == after_success(admitted(before, t1, w1), t2, w2)
        },
    }
}

/// The label that names a breaker in metrics.
pub open spec fn breaker_label(name: Seq<char>) -> Seq<char> {
    "breaker=\""@ + name + "\""@
}

/// A breaker's figures in Prometheus text exposition format.
pub open spec fn exposition(b: Breaker) -> Seq<char> {
    let labels = breaker_label(b.name);
    metrics::labelled_block(
        "circuit_breaker_state"@,
        "Current circuit breaker state (0=closed,1=half_open,2=open)"@,
        "gauge"@,
        labels,
        text::decimal(b.state.code() as nat),
    ) + metrics::labelled_block(
        "circuit_breaker_calls_allowed_total"@,
        "Calls let through the breaker"@,
        "counter"@,
        labels,
        text::decimal(b.calls_allowed_total as nat),
    ) + metrics::labelled_block(
        "circuit_breaker_calls_rejected_total"@,
        "Calls short-circuited while open"@,
        "counter"@,
        labels,
        text::decimal(b.calls_rejected_total as nat),
    ) + metrics::labelled_block(
        "circuit_breaker_failures_total"@,
        "Failed calls observed by the breaker"@,
        "counter"@,
        labels,
        text::decimal(b.failures_total as nat),
    ) + metrics::labelled_block(
        "circuit_breaker_successes_total"@,
        "Successful calls observed by the breaker"@,
        "counter"@,
        labels,
        text::decimal(b.successes_total as nat),
    ) + metrics::labelled_block(
        "circuit_breaker_state_transitions_total"@,
        "Number of state transitions"@,
        "counter"@,
        labels,
        text::decimal(b.state_transitions_total as nat),
    )
}

/// A breaker's status in one line.
pub open spec fn dashboard_line(b: Breaker) -> Seq<char> {
    "["@ + b.name + "] state="@ + b.state.label() + " failures(consec)="@ + text::decimal(
        (b.consecutive_failures as u32) as nat,
    ) + " successes(consec)="@ + text::decimal((b.consecutive_successes as u32) as nat)
        + " allowed="@ + text::decimal(b.calls_allowed_total as nat) + " rejected="@
        + text::decimal(b.calls_rejected_total as nat) + " transitions="@ + text::decimal(
        b.state_transitions_total as nat,
    )
}

/// An asterisk behind the current state of a diagram.
pub open spec fn mark(state: CircuitState, current: CircuitState) -> Seq<char> {
    if state == current {
        "*"@
    } else {
        ""@
    }
}

/// A Mermaid state diagram that marks the current state.
pub open spec fn diagram(current: CircuitState) -> Seq<char> {
    "stateDiagram-v2\n    [*] --> Closed\n    Closed --> Open: failure_threshold reached"@ + mark(
        CircuitState::Closed,
        current,
    ) + "\n    Open --> HalfOpen: open_duration elapsed"@ + mark(CircuitState::Open, current)
        + "\n    HalfOpen --> Closed: success_threshold reached"@ + mark(
        CircuitState::HalfOpen,
        current,
    ) + "\n    HalfOpen --> Open: probe failed\n"@
}

/// Whole seconds that the breaker has been open at `now`.
pub open spec fn open_secs(b: Breaker, now: Instant) -> nat {
    match b.opened_at {
        Some(at) => clock::elapsed_nanos(at, now) / 1_000_000_000,
        None => 0,
    }
}

/// The alert about a breaker that is open: critical once it has been open for
/// more than four times its cool-down.
pub open spec fn open_alert(b: Breaker, now: Instant) -> Seq<AlertText> {
    if b.state == CircuitState::Open {
        seq![
            AlertText {
                breaker: b.name,
                severity: if open_secs(b, now) > (b.config.open_duration.nanos / 1_000_000_000)
                    * 4 {
                    AlertSeverity::Critical
                } else {
                    AlertSeverity::Warning
                },
                message: "breaker '"@ + b.name + "' has been open for "@ + text::decimal(
                    open_secs(b, now),
                ) + "s"@,
            },
        ]
    } else {
        seq![]
    }
}

/// The alert about a breaker that rejects more than half of its calls.
pub open spec fn rejection_alert(b: Breaker) -> Seq<AlertText> {
    let total = b.calls_allowed_total + b.calls_rejected_total;
    if total > 0 && 2 * b.calls_rejected_total > total {
        seq![
            AlertText {
                breaker: b.name,
                severity: AlertSeverity::Critical,
                message: "breaker '"@ + b.name + "' is rejecting "@ + text::decimal(
                    ratio::nearest((b.calls_rejected_total * 100) as nat, total as nat),
                ) + "% of calls"@,
            },
        ]
    } else {
        seq![]
    }
}

/// What a list of alerts says.
pub open spec fn alert_texts(alerts: Seq<CircuitAlert>) -> Seq<AlertText> {
    Seq::new(alerts.len(), |i: int| alerts[i]@)
}

/// Whether a snapshot shows the breaker.
pub open spec fn shows(s: CircuitBreakerSnapshot, b: Breaker) -> bool {
    &&& s.name@ == b.name
    &&& s.state == b.state
    &&& s.consecutive_failures == b.consecutive_failures as u32
    &&& s.consecutive_successes == b.consecutive_successes as u32
    &&& s.calls_allowed_total == b.calls_allowed_total
    &&& s.calls_rejected_total == b.calls_rejected_total
    &&& s.failures_total == b.failures_total
    &&& s.successes_total == b.successes_total
    &&& s.state_transitions_total == b.state_transitions_total
    &&& s.opened_at == b.opened_at_wall
}

impl CircuitBreaker {
    /// A closed breaker.
    pub fn new(name: &str, config: CircuitBreakerConfig) -> (r: Self)
        ensures
            r@ == fresh(name@, config),
    {
        let r = CircuitBreaker {
            name: name.to_owned(),
            config,
            state: CircuitState::Closed,
            consecutive_failures: 0,
            consecutive_successes: 0,
            calls_allowed_total: 0,
            calls_rejected_total: 0,
            failures_total: 0,
            successes_total: 0,
            state_transitions_total: 0,
            opened_at: None,
            opened_at_wall: None,
            events: Vec::new(),
            clock: Clock::new(),
        };
        assert(changes(r.events@) =~= Seq::<StateChange>::empty());
        r
    }

    /// The breaker's name.
    pub fn name(&self) -> (r: &str)
        ensures
            r@ == self@.name,
    {
        self.name.as_str()
    }

    /// The breaker's state.
    pub fn state(&self) -> (r: CircuitState)
        ensures
            r == self@.state,
    {
        self.state
    }

    /// Execute `f` if the breaker currently permits it, recording the outcome.
    pub fn call<T, E, F: FnOnce() -> Result<T, E>>(&mut self, f: F) -> (r: Result<
        T,
        CircuitBreakerError<E>,
    >)
        requires
            f.requires(()),
        ensures
            exists|t1: Instant, w1: Timestamp, t2: Instant, w2: Timestamp| #[trigger]
                called(f, old(self)@, final(self)@, r, t1, w1, t2, w2),
    {
        let ghost before = self@;
        let t1 = self.clock.now();
        let w1 = Timestamp::now();
        if !self.begin_at(t1, w1) {
            let r = Err(CircuitBreakerError::Rejected);
            assert(called(f, before, self@, r, t1, w1, t1, w1));
            return r;
        }
        match f() {
            Ok(value) => {
                let t2 = self.clock.now();
                let w2 = Timestamp::now();
                self.finish_at(true, t2, w2);
                let r = Ok(value);
                assert(called(f, before, self@, r, t1, w1, t2, w2));
                r
            },
            Err(err) => {
                let t2 = self.clock.now();
                let w2 = Timestamp::now();
                self.finish_at(false, t2, w2);
                let r = Err(CircuitBreakerError::Operation(err));
                assert(called(f, before, self@, r, t1, w1, t2, w2));
                r
            },
        }
    }

    /// Decides at `now` whether a call is let through, and counts it.
    pub fn begin_at(&mut self, now: Instant, wall: Timestamp) -> (r: bool)
        ensures
            r == admits(old(self)@, now),
            final(self)@ == if r {
                admitted(old(self)@, now, wall)
            } else {
                turned_away(old(self)@)
            },
    {
        if self.allow_call_at(now, wall) {
            self.calls_allowed_total = self.calls_allowed_total.wrapping_add(1);
            true
        } else {
            self.calls_rejected_total = self.calls_rejected_total.wrapping_add(1);
            false
        }
    }

    /// Records at `now` how a call that was let through ended.
    pub fn finish_at(&mut self, ok: bool, now: Instant, wall: Timestamp)
        ensures
            final(self)@ == if ok {
                after_success(old(self)@, now, wall)
            } else {
                after_failure(old(self)@, now, wall)
            },
    {
        if ok {
            self.on_success_at(now, wall);
        } else {
            self.on_failure_at(now, wall);
        }
    }

    /// Whether a call would be allowed through at `now`, transitioning
    /// Open -> HalfOpen if the cool-down window has elapsed.
    pub fn allow_call_at(&mut self, now: Instant, wall: Timestamp) -> (r: bool)
        ensures
            r == admits(old(self)@, now),
            final(self)@ == probed(old(self)@, now, wall),
    {
        match self.state {
            CircuitState::Closed => true,
            CircuitState::HalfOpen => true,
            CircuitState::Open => {
                let elapsed: bool = match self.opened_at {
                    Some(at) => now.duration_since(at).nanos >= self.config.open_duration.nanos,
                    None => true,
                };
                if elapsed {
                    self.transition_at(
                        CircuitState::HalfOpen,
                        "open_duration elapsed, probing",
                        now,
                        wall,
                    );
                    true
                } else {
                    false
                }
            },
        }
    }

    /// Records a success at `now`.
    pub fn on_success_at(&mut self, now: Instant, wall: Timestamp)
        ensures
            final(self)@ == after_success(old(self)@, now, wall),
    {
        self.successes_total = self.successes_total.wrapping_add(1);
        self.consecutive_failures = 0;
        match self.state {
            CircuitState::Closed => {},
            CircuitState::HalfOpen => {
                let successes: u64 = self.consecutive_successes.wrapping_add(1);
                self.consecutive_successes = successes;
                if successes >= self.config.success_threshold as u64 {
                    self.consecutive_successes = 0;
                    self.transition_at(
                        CircuitState::Closed,
                        "success threshold reached in half-open",
                        now,
                        wall,
                    );
                }
            },
            CircuitState::Open => {},
        }
    }

    /// Records a failure at `now`.
    pub fn on_failure_at(&mut self, now: Instant, wall: Timestamp)
        ensures
            final(self)@ == after_failure(old(self)@, now, wall),
    {
        self.failures_total = self.failures_total.wrapping_add(1);
        self.consecutive_successes = 0;
        match self.state {
            CircuitState::Closed => {
                let failures: u64 = self.consecutive_failures.wrapping_add(1);
                self.consecutive_failures = failures;
                if failures >= self.config.failure_threshold as u64 {
                    self.transition_at(CircuitState::Open, "failure threshold exceeded", now, wall);
                }
            },
            CircuitState::HalfOpen => {
                self.transition_at(CircuitState::Open, "probe failed in half-open", now, wall);
            },
            CircuitState::Open => {},
        }
    }

    /// Moves to the state `to` and records why.
    pub fn transition_at(&mut self, to: CircuitState, reason: &str, now: Instant, wall: Timestamp)
        ensures
            final(self)@ == moved(old(self)@, to, reason@, now, wall),
    {
        let from = self.state;
        if from == to {
            return;
        }
        self.state = to;
        self.state_transitions_total = self.state_transitions_total.wrapping_add(1);
        if to == CircuitState::Open {
            self.opened_at = Some(now);
            self.opened_at_wall = Some(wall);
        }
        if to == CircuitState::Closed {
            self.opened_at = None;
            self.opened_at_wall = None;
            self.consecutive_failures = 0;
        }
        let event = StateChangeEvent {
            breaker: self.name.clone(),
            from,
            to,
            at: wall,
            reason: reason.to_owned(),
        };
        let ghost said = event@;
        let ghost grown = self.events@.push(event);
        ring::push_bounded(&mut self.events, event, MAX_EVENT_HISTORY);
        assert(changes(self.events@) =~= ring::keep_last(
            changes(old(self).events@).push(said),
            200,
        ));
    }

    /// Recent state-change events, oldest first.
    pub fn events(&self) -> (r: Vec<StateChangeEvent>)
        ensures
            changes(r@) == self@.events,
    {
        let r = self.events.clone();
        assert(r@ =~= self.events@);
        r
    }

    /// The breaker's figures at this moment.
    pub fn snapshot(&self) -> (r: CircuitBreakerSnapshot)
        ensures
            shows(r, self@),
    {
        CircuitBreakerSnapshot {
            name: self.name.clone(),
            state: self.state,
            consecutive_failures: self.consecutive_failures as u32,
            consecutive_successes: self.consecutive_successes as u32,
            calls_allowed_total: self.calls_allowed_total,
            calls_rejected_total: self.calls_rejected_total,
            failures_total: self.failures_total,
            successes_total: self.successes_total,
            state_transitions_total: self.state_transitions_total,
            opened_at: self.opened_at_wall,
        }
    }

    /// Render this breaker's metrics in Prometheus text exposition format.
    pub fn render_metrics(&self) -> (r: String)
        ensures
            r@ == exposition(self@),
    {
        let snap = self.snapshot();
        let mut labels = "breaker=\"".to_owned();
        labels.append(snap.name.as_str());
        labels.append("\"");
        let l: &str = labels.as_str();
        let mut out = String::new();
        push_labelled(
            &mut out,
            "circuit_breaker_state",
            "Current circuit breaker state (0=closed,1=half_open,2=open)",
            "gauge",
            l,
            snap.state.as_code() as u64,
        );
        push_labelled(
            &mut out,
            "circuit_breaker_calls_allowed_total",
            "Calls let through the breaker",
            "counter",
            l,
            snap.calls_allowed_total,
        );
        push_labelled(
            &mut out,
            "circuit_breaker_calls_rejected_total",
            "Calls short-circuited while open",
            "counter",
            l,
            snap.calls_rejected_total,
        );
        push_labelled(
            &mut out,
            "circuit_breaker_failures_total",
            "Failed calls observed by the breaker",
            "counter",
            l,
            snap.failures_total,
        );
        push_labelled(
            &mut out,
            "circuit_breaker_successes_total",
            "Successful calls observed by the breaker",
            "counter",
            l,
            snap.successes_total,
        );
        push_labelled(
            &mut out,
            "circuit_breaker_state_transitions_total",
            "Number of state transitions",
            "counter",
            l,
            snap.state_transitions_total,
        );
        assert(out@ =~= exposition(self@));
        out
    }

    /// Small human-readable status line, handy for logs or a CLI dashboard.
    pub fn render_dashboard(&self) -> (r: String)
        ensures
            r@ == dashboard_line(self@),
    {
        let snap = self.snapshot();
        let mut out = "[".to_owned();
        out.append(snap.name.as_str());
        out.append("] state=");
        out.append(snap.state.as_str());
        let failures = text::numbered(" failures(consec)=", snap.consecutive_failures as u64, "");
        let successes = text::numbered(" successes(consec)=", snap.consecutive_successes as u64, "");
        let allowed = text::numbered(" allowed=", snap.calls_allowed_total, "");
        let rejected = text::numbered(" rejected=", snap.calls_rejected_total, "");
        let transitions = text::numbered(" transitions=", snap.state_transitions_total, "");
        out.append(failures.as_str());
        out.append(successes.as_str());
        out.append(allowed.as_str());
        out.append(rejected.as_str());
        out.append(transitions.as_str());
        proof {
            reveal_strlit("");
            assert(""@ =~= Seq::<char>::empty());
        }
        assert(out@ =~= dashboard_line(self@));
        out
    }

    /// A minimal Mermaid state diagram reflecting the current state.
    pub fn to_mermaid_diagram(&self) -> (r: String)
        ensures
            r@ == diagram(self@.state),
    {
        let current = self.state;
        let mut out =
            "stateDiagram-v2\n    [*] --> Closed\n    Closed --> Open: failure_threshold reached".to_owned();
        out.append(
            if current == CircuitState::Closed {
                "*"
            } else {
                ""
            },
        );
        out.append("\n    Open --> HalfOpen: open_duration elapsed");
        out.append(
            if current == CircuitState::Open {
                "*"
            } else {
                ""
            },
        );
        out.append("\n    HalfOpen --> Closed: success_threshold reached");
        out.append(
            if current == CircuitState::HalfOpen {
                "*"
            } else {
                ""
            },
        );
        out.append("\n    HalfOpen --> Open: probe failed\n");
        out
    }

    /// Inspect current state and produce alerts for anomalous conditions.
    pub fn check_alerts(&self) -> (r: Vec<CircuitAlert>)
        ensures
            exists|now: Instant|
                alert_texts(r@) == #[trigger] open_alert(self@, now) + rejection_alert(self@),
    {
        self.check_alerts_at(self.clock.now())
    }

    /// Inspect the state at `now` and produce alerts for anomalous conditions.
    pub fn check_alerts_at(&self, now: Instant) -> (r: Vec<CircuitAlert>)
        ensures
            alert_texts(r@) == open_alert(self@, now) + rejection_alert(self@),
    {
        let mut alerts: Vec<CircuitAlert> = Vec::new();
        if self.state == CircuitState::Open {
            let secs: u128 = match self.opened_at {
                Some(at) => now.duration_since(at).nanos / NANOS_PER_SEC,
                None => 0,
            };
            let severity = if secs > (self.config.open_duration.nanos / NANOS_PER_SEC) * 4 {
                AlertSeverity::Critical
            } else {
                AlertSeverity::Warning
            };
            let mut message = "breaker '".to_owned();
            message.append(self.name.as_str());
            message.append("' has been open for ");
            let shown = text::decimal_text(secs);
            message.append(shown.as_str());
            message.append("s");
            alerts.push(CircuitAlert { breaker: self.name.clone(), severity, message });
        }
        assert(alert_texts(alerts@) =~= open_alert(self@, now));
        let total: u128 = self.calls_allowed_total as u128 + self.calls_rejected_total as u128;
        let rejected: u128 = self.calls_rejected_total as u128;
        if total > 0 && 2 * rejected > total {
            let percent: u128 = Self::percent(rejected, total);
            let mut message = "breaker '".to_owned();
            message.append(self.name.as_str());
            message.append("' is rejecting ");
            let shown = text::decimal_text(percent);
            message.append(shown.as_str());
            message.append("% of calls");
            alerts.push(
                CircuitAlert {
                    breaker: self.name.clone(),
                    severity: AlertSeverity::Critical,
                    message,
                },
            );
        }
        assert(alert_texts(alerts@) =~= open_alert(self@, now) + rejection_alert(self@));
        alerts
    }

    /// The whole percentage nearest to `part / total`.
    fn percent(part: u128, total: u128) -> (r: u128)
        requires
            0 < total <= 2 * u64::MAX,
            part <= u64::MAX,
        ensures
            r == ratio::nearest((part * 100) as nat, total as nat),
    {
        let q: u128 = (part * 100) / total;
        let twice: u128 = 2 * ((part * 100) % total);
        proof {
            assert(q <= part * 100) by (nonlinear_arith)
                requires
                    q == (part * 100) / (total as int),
                    total >= 1,
            ;
        }
        if twice > total || (twice == total && q % 2 == 1) {
            q + 1
        } else {
            q
        }
    }
}

/// Registry of named breakers, so that all of them can be rendered at once.
pub struct CircuitBreakerRegistry {
    breakers: StrMap<CircuitBreaker>,
}

impl View for CircuitBreakerRegistry {
    type V = Map<Seq<char>, CircuitBreaker>;

    closed spec fn view(&self) -> Map<Seq<char>, CircuitBreaker> {
        self.breakers@
    }
}

/// The alerts of the breakers `names` at `now`, one breaker after another.
pub open spec fn all_alerts(
    breakers: Map<Seq<char>, CircuitBreaker>,
    names: Seq<Seq<char>>,
    now: Instant,
) -> Seq<AlertText>
    decreases names.len(),
{
    if names.len() == 0 {
        Seq::empty()
    } else {
        all_alerts(breakers, names.drop_last(), now) + open_alert(breakers[names.last()]@, now)
            + rejection_alert(breakers[names.last()]@)
    }
}

/// The figures of the breakers `names`, one breaker after another.
pub open spec fn all_expositions(
    breakers: Map<Seq<char>, CircuitBreaker>,
    names: Seq<Seq<char>>,
) -> Seq<char>
    decreases names.len(),
{
    if names.len() == 0 {
        Seq::empty()
    } else {
        all_expositions(breakers, names.drop_last()) + exposition(breakers[names.last()]@)
    }
}

impl CircuitBreakerRegistry {
    /// The names of the breakers, in the order in which they were made.
    pub closed spec fn names(&self) -> Seq<Seq<char>> {
        self.breakers.order()
    }

    /// A registry without breakers.
    pub fn new() -> (r: Self)
        ensures
            r@ == Map::<Seq<char>, CircuitBreaker>::empty(),
            r.names().len() == 0,
    {
        CircuitBreakerRegistry { breakers: StrMap::new() }
    }

    /// The breaker called `name`, which is made with `config` where there is
    /// none.
    pub fn get_or_create(&mut self, name: &str, config: CircuitBreakerConfig) -> (r:
        &mut CircuitBreaker)
        ensures
            if old(self)@.contains_key(name@) {
                *r == old(self)@[name@] && final(self).names() == old(self).names()
            } else {
                r@ == fresh(name@, config) && final(self).names() == old(self).names().push(name@)
            },
            final(self)@ == old(self)@.insert(name@, *final(r)),
    {
        let ghost start = self@;
        if !self.breakers.contains_key(name) {
            let _none = self.breakers.insert(name.to_owned(), CircuitBreaker::new(name, config));
        }
        assert(forall|x: CircuitBreaker|
            self@.insert(name@, x) =~= #[trigger] start.insert(name@, x));
        match self.breakers.get_mut(name) {
            Some(b) => b,
            None => {
                proof {
                    assert(false);
                }
                vstd::pervasive::unreached()
            },
        }
    }

    /// A snapshot of every breaker.
    pub fn snapshots(&self) -> (r: Vec<CircuitBreakerSnapshot>)
        ensures
            r@.len() == self@.len(),
            r@.len() == self.names().len(),
            forall|i: int|
                0 <= i < r@.len() ==> self@.contains_key(self.names()[i]) && shows(
                    #[trigger] r@[i],
                    self@[self.names()[i]]@,
                ),
    {
        let n: usize = self.breakers.len();
        let mut out: Vec<CircuitBreakerSnapshot> = Vec::new();
        let mut i: usize = 0;
        while i < n
            invariant
                i <= n,
                n == self.breakers.order().len(),
                out@.len() == i,
                forall|j: int|
                    0 <= j < i ==> shows(
                        #[trigger] out@[j],
                        self.breakers@[self.breakers.order()[j]]@,
                    ),
            decreases n - i,
        {
            out.push(self.breakers.value_at(i).snapshot());
            i += 1;
        }
        assert forall|j: int| 0 <= j < n implies self@.contains_key(#[trigger] self.names()[j]) by {
            assert(self.breakers.order().contains(self.breakers.order()[j]));
        }
        out
    }

    /// Render the metrics of every breaker.
    pub fn render_metrics(&self) -> (r: String)
        ensures
            r@ == all_expositions(self@, self.names()),
    {
        let n: usize = self.breakers.len();
        let mut out = String::new();
        let mut i: usize = 0;
        while i < n
            invariant
                i <= n,
                n == self.breakers.order().len(),
                out@ == all_expositions(self@, self.names().take(i as int)),
            decreases n - i,
        {
            assert(self.names().take(i + 1).drop_last() =~= self.names().take(i as int));
            let part = self.breakers.value_at(i).render_metrics();
            out.append(part.as_str());
            i += 1;
        }
        assert(self.names().take(n as int) =~= self.names());
        out
    }

    /// The alerts of every breaker at `now`.
    pub fn check_alerts_at(&self, now: Instant) -> (r: Vec<CircuitAlert>)
        ensures
            alert_texts(r@) == all_alerts(self@, self.names(), now),
    {
        let n: usize = self.breakers.len();
        let mut out: Vec<CircuitAlert> = Vec::new();
        let mut i: usize = 0;
        assert(alert_texts(out@) =~= all_alerts(self@, self.names().take(0), now));
        while i < n
            invariant
                i <= n,
                n == self.breakers.order().len(),
                alert_texts(out@) == all_alerts(self@, self.names().take(i as int), now),
            decreases n - i,
        {
            assert(self.names().take(i + 1).drop_last() =~= self.names().take(i as int));
            let mut part = self.breakers.value_at(i).check_alerts_at(now);
            let ghost before = alert_texts(out@);
            let ghost added = alert_texts(part@);
            out.append(&mut part);
            assert(alert_texts(out@) =~= before + added);
            i += 1;
            assert(alert_texts(out@) =~= all_alerts(self@, self.names().take(i as int), now));
        }
        assert(self.names().take(n as int) =~= self.names());
        out
    }

    /// The alerts of every breaker, each seen at one reading of its own clock.
    pub fn check_alerts(&self) -> (r: Vec<CircuitAlert>)
        ensures
            exists|times: Seq<Instant>|
                alert_texts(r@) == #[trigger] alerts_at_times(self@, self.names(), times),
    {
        let n: usize = self.breakers.len();
        let mut out: Vec<CircuitAlert> = Vec::new();
        let mut i: usize = 0;
        let ghost mut times: Seq<Instant> = Seq::empty();
        assert(alert_texts(out@) =~= alerts_at_times(self@, self.names().take(0), times));
        while i < n
            invariant
                i <= n,
                n == self.breakers.order().len(),
                times.len() == i,
                alert_texts(out@) == alerts_at_times(self@, self.names().take(i as int), times),
            decreases n - i,
        {
            assert(self.names().take(i + 1).drop_last() =~= self.names().take(i as int));
            let breaker = self.breakers.value_at(i);
            let now = breaker.clock.now();
            let mut part = breaker.check_alerts_at(now);
            let ghost before = alert_texts(out@);
            let ghost added = alert_texts(part@);
            out.append(&mut part);
            proof {
                assert(times.push(now).drop_last() =~= times);
                times = times.push(now);
            }
            assert(alert_texts(out@) =~= before + added);
            i += 1;
            assert(alert_texts(out@) =~= alerts_at_times(
                self@,
                self.names().take(i as int),
                times,
            ));
        }
        assert(self.names().take(n as int) =~= self.names());
        out
    }
}

/// The alerts of the breakers `names`, each seen at its own moment.
pub open spec fn alerts_at_times(
    breakers: Map<Seq<char>, CircuitBreaker>,
    names: Seq<Seq<char>>,
    times: Seq<Instant>,
) -> Seq<AlertText>
    decreases names.len(),
{
    if names.len() == 0 {
        Seq::empty()
    } else {
        alerts_at_times(breakers, names.drop_last(), times.drop_last()) + open_alert(
            breakers[names.last()]@,
            times.last(),
        ) + rejection_alert(breakers[names.last()]@)
    }
}

/// What holds of every breaker at all times: the counts that would have
/// tripped or closed it have not been reached, an open breaker knows since
/// when, a closed one has no such time, and its history is bounded.
pub open spec fn consistent(b: Breaker) -> bool {
    &&& b.state == CircuitState::Closed ==> b.consecutive_failures < b.config.failure_threshold
        || b.consecutive_failures == 0
    &&& b.state == CircuitState::HalfOpen ==> b.consecutive_successes < b.config.success_threshold
        || b.consecutive_successes == 0
    &&& b.state == CircuitState::Open ==> b.opened_at is Some && b.opened_at_wall is Some
    &&& b.state == CircuitState::Closed ==> b.opened_at is None && b.opened_at_wall is None
    &&& b.consecutive_successes > 0 ==> b.state == CircuitState::HalfOpen
    &&& b.events.len() <= 200
}

/// A fresh breaker is consistent, and deciding on a call, a success and a
/// failure keep it so.
pub proof fn law_breaker_stays_consistent(
    name: Seq<char>,
    config: CircuitBreakerConfig,
    b: Breaker,
    now: Instant,
    wall: Timestamp,
)
    requires
        consistent(b),
    ensures
        consistent(fresh(name, config)),
        consistent(admitted(b, now, wall)),
        consistent(turned_away(b)),
        consistent(after_success(b, now, wall)),
        consistent(after_failure(b, now, wall)),
{
}

/// A closed breaker lets every call through, and the failure that brings the
/// count to the threshold opens it. Until the cool-down is over an open breaker
/// rejects every call.
pub proof fn law_threshold_opens_breaker(b: Breaker, now: Instant, wall: Timestamp, later: Instant)
    requires
        b.state == CircuitState::Closed,
        b.consecutive_failures < u64::MAX,
    ensures
        admits(b, now),
        b.consecutive_failures + 1 >= b.config.failure_threshold <==> after_failure(
            b,
            now,
            wall,
        ).state == CircuitState::Open,
        after_failure(b, now, wall).state == CircuitState::Open && clock::elapsed_nanos(now, later)
            < b.config.open_duration.nanos ==> !admits(after_failure(b, now, wall), later),
        after_failure(b, now, wall).state == CircuitState::Open && clock::elapsed_nanos(now, later)
            >= b.config.open_duration.nanos ==> admitted(
            after_failure(b, now, wall),
            later,
            wall,
        ).state == CircuitState::HalfOpen,
{
}

/// A half-open breaker reopens on any failure, and closes once the successes
/// reach the threshold.
pub proof fn law_half_open_probe(b: Breaker, now: Instant, wall: Timestamp)
    requires
        b.state == CircuitState::HalfOpen,
        b.consecutive_successes < u64::MAX,
    ensures
        after_failure(b, now, wall).state == CircuitState::Open,
        after_success(b, now, wall).state == if b.consecutive_successes + 1
            >= b.config.success_threshold {
            CircuitState::Closed
        } else {
            CircuitState::HalfOpen
        },
{
}

/// Every change of state, and nothing else, is recorded: the latest event
/// leads from the state before to the state after.
pub proof fn law_changes_are_recorded(
    b: Breaker,
    to: CircuitState,
    reason: Seq<char>,
    now: Instant,
    wall: Timestamp,
)
    ensures
        ({
            let a = moved(b, to, reason, now, wall);
            &&& a.state == to
            &&& b.state == to ==> a == b
            &&& b.state != to ==> a.events.len() > 0 && a.events.last() == (StateChange {
                breaker: b.name,
                from: b.state,
                to,
                at: wall,
                reason,
            })
        }),
{
}

/// A success ends a run of failures: afterwards none is counted, whatever the
/// state, and the breaker leaves its state only by closing from half-open.
pub proof fn law_success_ends_a_run_of_failures(b: Breaker, now: Instant, wall: Timestamp)
    ensures
        after_success(b, now, wall).consecutive_failures == 0,
        b.successes_total < u64::MAX ==> after_success(b, now, wall).successes_total
            == b.successes_total + 1,
        after_success(b, now, wall).failures_total == b.failures_total,
        b.state != CircuitState::HalfOpen ==> after_success(b, now, wall).state == b.state,
        b.state != CircuitState::HalfOpen ==> after_success(b, now, wall).consecutive_successes
            == b.consecutive_successes,
        after_success(b, now, wall).state != CircuitState::Open || b.state == CircuitState::Open,
        after_success(b, now, wall).config == b.config,
        after_success(b, now, wall).name == b.name,
{
}

/// Only consecutive failures trip a breaker: a closed breaker that takes more
/// than one failure to open is still closed, with one failure counted, after a
/// success followed by a failure.
pub proof fn law_lone_failure_does_not_trip(
    b: Breaker,
    now: Instant,
    wall: Timestamp,
    later: Instant,
    later_wall: Timestamp,
)
    requires
        b.state == CircuitState::Closed,
        b.config.failure_threshold > 1,
    ensures
        ({
            let a = after_failure(after_success(b, now, wall), later, later_wall);
            &&& a.state == CircuitState::Closed
            &&& a.consecutive_failures == 1
            &&& a.opened_at == b.opened_at
            &&& a.events == b.events
        }),
{
}

/// How many failures end a list of outcomes, each of which is true for a
/// failure.
pub open spec fn trailing_failures(failed: Seq<bool>) -> nat
    decreases failed.len(),
{
    if failed.len() == 0 || !failed.last() {
        0
    } else {
        trailing_failures(failed.drop_last()) + 1
    }
}

/// The breaker once calls have had these outcomes, each of which is true for
/// a failure.
pub open spec fn after_outcomes(
    b: Breaker,
    failed: Seq<bool>,
    now: Instant,
    wall: Timestamp,
) -> Breaker
    decreases failed.len(),
{
    if failed.len() == 0 {
        b
    } else {
        let before = after_outcomes(b, failed.drop_last(), now, wall);
        if failed.last() {
            after_failure(before, now, wall)
        } else {
            after_success(before, now, wall)
        }
    }
}

/// A closed breaker counts the failures since the last success, and stays
/// closed for as long as no run of failures is as long as the threshold.
pub proof fn law_breaker_counts_the_last_run(
    b: Breaker,
    failed: Seq<bool>,
    now: Instant,
    wall: Timestamp,
)
    requires
        b.state == CircuitState::Closed,
        b.consecutive_failures == 0,
        failed.len() < u64::MAX,
        forall|i: int|
            0 <= i <= failed.len() ==> #[trigger] trailing_failures(failed.take(i))
                < b.config.failure_threshold,
    ensures
        after_outcomes(b, failed, now, wall).state == CircuitState::Closed,
        after_outcomes(b, failed, now, wall).consecutive_failures == trailing_failures(failed),
        after_outcomes(b, failed, now, wall).config == b.config,
        after_outcomes(b, failed, now, wall).events == b.events,
        trailing_failures(failed) <= failed.len(),
    decreases failed.len(),
{
    assert(failed.take(failed.len() as int) =~= failed);
    assert(trailing_failures(failed.take(failed.len() as int)) < b.config.failure_threshold);
    if failed.len() > 0 {
        let init = failed.drop_last();
        assert forall|i: int| 0 <= i <= init.len() implies #[trigger] trailing_failures(init.take(i))
            < b.config.failure_threshold by {
            assert(init.take(i) =~= failed.take(i));
        }
        law_breaker_counts_the_last_run(b, init, now, wall);
    }
}

/// The first run of failures that is as long as the threshold opens a closed
/// breaker.
pub proof fn law_run_of_failures_trips(
    b: Breaker,
    failed: Seq<bool>,
    now: Instant,
    wall: Timestamp,
)
    requires
        b.state == CircuitState::Closed,
        b.consecutive_failures == 0,
        0 < failed.len() < u64::MAX,
        forall|i: int|
            0 <= i < failed.len() ==> #[trigger] trailing_failures(failed.take(i))
                < b.config.failure_threshold,
        trailing_failures(failed) >= b.config.failure_threshold,
    ensures
        after_outcomes(b, failed, now, wall).state == CircuitState::Open,
        after_outcomes(b, failed, now, wall).opened_at == Some(now),
        after_outcomes(b, failed, now, wall).opened_at_wall == Some(wall),
{
    let init = failed.drop_last();
    assert forall|i: int| 0 <= i <= init.len() implies #[trigger] trailing_failures(init.take(i))
        < b.config.failure_threshold by {
        assert(init.take(i) =~= failed.take(i));
    }
    law_breaker_counts_the_last_run(b, init, now, wall);
    assert(init.take(init.len() as int) =~= init);
}

/// A failure is counted in every state and takes back the progress of a probe;
/// it never closes a breaker, and it opens one that is half-open, whatever the
/// threshold.
pub proof fn law_failure_is_counted(b: Breaker, now: Instant, wall: Timestamp)
    ensures
        ({
            let a = after_failure(b, now, wall);
            &&& b.failures_total < u64::MAX ==> a.failures_total == b.failures_total + 1
            &&& a.successes_total == b.successes_total
            &&& a.consecutive_successes == 0
            &&& b.state != CircuitState::Closed ==> a.state == CircuitState::Open
            &&& b.state == CircuitState::Open ==> a.opened_at == b.opened_at && a.events
                == b.events
            &&& b.state == CircuitState::HalfOpen ==> a.opened_at == Some(now)
            &&& b.state == CircuitState::Closed && b.consecutive_failures < u64::MAX
                ==> a.consecutive_failures == b.consecutive_failures + 1
            &&& a.config == b.config
        }),
{
}

/// An open breaker lets a call through exactly once as much time has passed
/// since it opened as its configuration says; the others let every call through.
/// What is let through and what is turned away is counted, and being turned
/// away changes nothing else.
pub proof fn law_open_breaker_waits(b: Breaker, opened: Instant, now: Instant, wall: Timestamp)
    requires
        b.opened_at == Some(opened),
        opened.nanos <= now.nanos,
    ensures
        b.state == CircuitState::Open ==> (admits(b, now) <==> now.nanos - opened.nanos
            >= b.config.open_duration.nanos),
        b.state != CircuitState::Open ==> admits(b, now) && admitted(b, now, wall).state == b.state,
        b.state == CircuitState::Open && admits(b, now) ==> admitted(b, now, wall).state
            == CircuitState::HalfOpen && admitted(b, now, wall).opened_at == Some(opened),
        b.calls_allowed_total < u64::MAX ==> admitted(b, now, wall).calls_allowed_total
            == b.calls_allowed_total + 1,
        b.calls_rejected_total < u64::MAX ==> turned_away(b).calls_rejected_total
            == b.calls_rejected_total + 1,
        admitted(b, now, wall).calls_rejected_total == b.calls_rejected_total,
        turned_away(b).state == b.state,
        turned_away(b).opened_at == b.opened_at,
        turned_away(b).calls_allowed_total == b.calls_allowed_total,
        turned_away(b).consecutive_failures == b.consecutive_failures,
{
}

/// A breaker that closes after probing starts anew: nothing is counted against
/// it, and the count of successes starts at zero for the next probe.
pub proof fn law_closing_starts_anew(b: Breaker, now: Instant, wall: Timestamp)
    requires
        b.state == CircuitState::HalfOpen,
        after_success(b, now, wall).state == CircuitState::Closed,
    ensures
        after_success(b, now, wall).consecutive_failures == 0,
        after_success(b, now, wall).consecutive_successes == 0,
        after_success(b, now, wall).opened_at is None,
        after_success(b, now, wall).opened_at_wall is None,
        b.state_transitions_total < u64::MAX ==> after_success(b, now, wall).state_transitions_total
            == b.state_transitions_total + 1,
{
}

/// A probe that succeeds without reaching the threshold is counted, and the
/// breaker stays half-open.
pub proof fn law_probe_successes_add_up(b: Breaker, now: Instant, wall: Timestamp)
    requires
        b.state == CircuitState::HalfOpen,
        b.consecutive_successes + 1 < b.config.success_threshold,
    ensures
        after_success(b, now, wall).consecutive_successes == b.consecutive_successes + 1,
        after_success(b, now, wall).state == CircuitState::HalfOpen,
        after_success(b, now, wall).events == b.events,
{
}

/// A breaker that is open raises an alert that says for how many whole seconds,
/// and a critical one after four times its cool-down; one that is not open raises
/// none. A breaker that has rejected more than half of its calls raises a critical
/// alert, and no other does.
pub proof fn law_alerts_follow_the_breaker(b: Breaker, opened: Instant, now: Instant)
    requires
        b.opened_at == Some(opened),
        opened.nanos <= now.nanos,
    ensures
        b.state != CircuitState::Open ==> open_alert(b, now).len() == 0,
        b.state == CircuitState::Open ==> open_alert(b, now).len() == 1 && open_alert(
            b,
            now,
        )[0].breaker == b.name && open_alert(b, now)[0].message == "breaker '"@ + b.name
            + "' has been open for "@ + text::decimal(
            ((now.nanos - opened.nanos) / 1_000_000_000) as nat,
        ) + "s"@,
        b.state == CircuitState::Open ==> (open_alert(b, now)[0].severity
            == AlertSeverity::Critical <==> (now.nanos - opened.nanos) / 1_000_000_000 > 4 * (
        b.config.open_duration.nanos as int / 1_000_000_000)),
        rejection_alert(b).len() == if b.calls_rejected_total > b.calls_allowed_total {
            1nat
        } else {
            0nat
        },
        b.calls_rejected_total > b.calls_allowed_total ==> rejection_alert(b)[0].severity
            == AlertSeverity::Critical && rejection_alert(b)[0].breaker == b.name,
        b.calls_rejected_total > b.calls_allowed_total ==> rejection_alert(b)[0].message
            == "breaker '"@ + b.name + "' is rejecting "@ + text::decimal(
            ratio::nearest(
                (100 * b.calls_rejected_total) as nat,
                (b.calls_allowed_total + b.calls_rejected_total) as nat,
            ),
        ) + "% of calls"@,
{
}

/// A call that was let through leaves its outcome with the breaker, and one that
/// was not is rejected without being made: it is counted as rejected and nothing else.
pub proof fn law_call_is_made_or_rejected<T, E, F: FnOnce() -> Result<T, E>>(
    f: F,
    before: Breaker,
    after: Breaker,
    r: Result<T, CircuitBreakerError<E>>,
    t1: Instant,
    w1: Timestamp,
    t2: Instant,
    w2: Timestamp,
)
    requires
        called(f, before, after, r, t1, w1, t2, w2),
        before.calls_allowed_total < u64::MAX,
        before.calls_rejected_total < u64::MAX,
        before.failures_total < u64::MAX,
        before.successes_total < u64::MAX,
    ensures
        before.state != CircuitState::Open ==> !(r matches Err(CircuitBreakerError::Rejected)),
        before.state == CircuitState::Open && before.opened_at is Some && clock::elapsed_nanos(
            before.opened_at->0,
            t1,
        ) < before.config.open_duration.nanos ==> r matches Err(CircuitBreakerError::Rejected),
        r matches Err(CircuitBreakerError::Rejected) ==> after.calls_rejected_total
            == before.calls_rejected_total + 1 && after.calls_allowed_total
            == before.calls_allowed_total && after.state == before.state && after.failures_total
            == before.failures_total && after.successes_total == before.successes_total,
        r is Ok ==> after.calls_allowed_total == before.calls_allowed_total + 1
            && after.successes_total == before.successes_total + 1 && after.failures_total
            == before.failures_total && after.consecutive_failures == 0 && f.ensures(
            (),
            Ok(r->Ok_0),
        ),
        r matches Err(CircuitBreakerError::Operation(e)) ==> after.calls_allowed_total
            == before.calls_allowed_total + 1 && after.failures_total == before.failures_total + 1
            && after.successes_total == before.successes_total && f.ensures((), Err(e)),
{
}

/// A snapshot shows the breaker's own figures.
pub proof fn law_snapshot_shows_the_breaker(s: CircuitBreakerSnapshot, b: Breaker)
    requires
        shows(s, b),
        b.consecutive_failures <= u32::MAX,
        b.consecutive_successes <= u32::MAX,
    ensures
        s.name@ == b.name,
        s.state == b.state,
        s.consecutive_failures == b.consecutive_failures,
        s.consecutive_successes == b.consecutive_successes,
        s.calls_allowed_total == b.calls_allowed_total,
        s.calls_rejected_total == b.calls_rejected_total,
        s.failures_total == b.failures_total,
        s.successes_total == b.successes_total,
        s.state_transitions_total == b.state_transitions_total,
        s.opened_at == b.opened_at_wall,
{
}

/// The numbers and names of the states.
pub proof fn law_states_by_number_and_name()
    ensures
        CircuitState::Closed.code() == 0 && CircuitState::Closed.label() == "closed"@,
        CircuitState::HalfOpen.code() == 1 && CircuitState::HalfOpen.label() == "half_open"@,
        CircuitState::Open.code() == 2 && CircuitState::Open.label() == "open"@,
{
}

/// Every figure is exposed under its own name, with the breaker's name as label.
pub proof fn law_figures_are_exposed_by_name(b: Breaker)
    ensures
        text::occurs(exposition(b), figure("circuit_breaker_state"@, b.name, b.state.code() as nat)),
        text::occurs(
            exposition(b),
            figure("circuit_breaker_calls_allowed_total"@, b.name, b.calls_allowed_total as nat),
        ),
        text::occurs(
            exposition(b),
            figure("circuit_breaker_calls_rejected_total"@, b.name, b.calls_rejected_total as nat),
        ),
        text::occurs(
            exposition(b),
            figure("circuit_breaker_failures_total"@, b.name, b.failures_total as nat),
        ),
        text::occurs(
            exposition(b),
            figure("circuit_breaker_successes_total"@, b.name, b.successes_total as nat),
        ),
        text::occurs(
            exposition(b),
            figure(
                "circuit_breaker_state_transitions_total"@,
                b.name,
                b.state_transitions_total as nat,
            ),
        ),
{
    let g = "gauge"@;
    let c = "counter"@;
    let h1 = metrics::header(
        "circuit_breaker_state"@,
        "Current circuit breaker state (0=closed,1=half_open,2=open)"@,
        g,
    );
    let s1 = figure("circuit_breaker_state"@, b.name, b.state.code() as nat);
    let h2 = metrics::header(
        "circuit_breaker_calls_allowed_total"@,
        "Calls let through the breaker"@,
        c,
    );
    let s2 = figure("circuit_breaker_calls_allowed_total"@, b.name, b.calls_allowed_total as nat);
    let h3 = metrics::header(
        "circuit_breaker_calls_rejected_total"@,
        "Calls short-circuited while open"@,
        c,
    );
    let s3 = figure("circuit_breaker_calls_rejected_total"@, b.name, b.calls_rejected_total as nat);
    let h4 = metrics::header(
        "circuit_breaker_failures_total"@,
        "Failed calls observed by the breaker"@,
        c,
    );
    let s4 = figure("circuit_breaker_failures_total"@, b.name, b.failures_total as nat);
    let h5 = metrics::header(
        "circuit_breaker_successes_total"@,
        "Successful calls observed by the breaker"@,
        c,
    );
    let s5 = figure("circuit_breaker_successes_total"@, b.name, b.successes_total as nat);
    let h6 = metrics::header(
        "circuit_breaker_state_transitions_total"@,
        "Number of state transitions"@,
        c,
    );
    let s6 = figure(
        "circuit_breaker_state_transitions_total"@,
        b.name,
        b.state_transitions_total as nat,
    );
    lemma_sums_hold_their_parts(
        seq![h1 + s1, h2 + s2, h3 + s3, h4 + s4, h5 + s5, h6 + s6],
        seq![h1, h2, h3, h4, h5, h6],
        seq![s1, s2, s3, s4, s5, s6],
    );
    let parts = seq![s1, s2, s3, s4, s5, s6];
    assert(parts[0] == s1 && parts[1] == s2 && parts[2] == s3 && parts[3] == s4 && parts[4] == s5
        && parts[5] == s6);
    assert(exposition(b) == h1 + s1 + (h2 + s2) + (h3 + s3) + (h4 + s4) + (h5 + s5) + (h6 + s6));
}

/// Six blocks, each made of a header and a sample, hold every sample.
proof fn lemma_sums_hold_their_parts(
    blocks: Seq<Seq<char>>,
    headers: Seq<Seq<char>>,
    samples: Seq<Seq<char>>,
)
    requires
        blocks.len() == 6,
        headers.len() == 6,
        samples.len() == 6,
        forall|i: int| 0 <= i < 6 ==> #[trigger] blocks[i] == headers[i] + samples[i],
    ensures
        forall|i: int|
            0 <= i < 6 ==> text::occurs(
                blocks[0] + blocks[1] + blocks[2] + blocks[3] + blocks[4] + blocks[5],
                #[trigger] samples[i],
            ),
{
    let s1 = blocks[0] + blocks[1];
    let s2 = s1 + blocks[2];
    let s3 = s2 + blocks[3];
    let s4 = s3 + blocks[4];
    assert forall|i: int| 0 <= i < 6 implies text::occurs(
        blocks[0] + blocks[1] + blocks[2] + blocks[3] + blocks[4] + blocks[5],
        #[trigger] samples[i],
    ) by {
        let x = samples[i];
        text::law_occurs_in_either(headers[i], x, x);
        assert(text::occurs(blocks[i], x));
        text::law_occurs_in_either(blocks[0], blocks[1], x);
        text::law_occurs_in_either(s1, blocks[2], x);
        text::law_occurs_in_either(s2, blocks[3], x);
        text::law_occurs_in_either(s3, blocks[4], x);
        text::law_occurs_in_either(s4, blocks[5], x);
    }
}

/// One figure of a breaker in text exposition format.
pub open spec fn figure(metric: Seq<char>, breaker: Seq<char>, value: nat) -> Seq<char> {
    metrics::sample(metric + "{"@ + ("breaker=\""@ + breaker + "\""@) + "}"@, text::decimal(value))
}

/// A diagram marks the current state and no other.
pub proof fn law_diagram_marks_the_current_state(a: CircuitState, b: CircuitState)
    ensures
        mark(a, a) == "*"@,
        a != b ==> mark(a, b).len() == 0,
        a != b ==> diagram(a) != diagram(b),
{
    reveal_strlit("");
    reveal_strlit("*");
    if a != b {
        let head = "stateDiagram-v2\n    [*] --> Closed\n    Closed --> Open: failure_threshold reached"@;
        let m1 = "\n    Open --> HalfOpen: open_duration elapsed"@;
        let m2 = "\n    HalfOpen --> Closed: success_threshold reached"@;
        let n = head.len() as int;
        reveal_strlit("\n    Open --> HalfOpen: open_duration elapsed");
        reveal_strlit("\n    HalfOpen --> Closed: success_threshold reached");
        reveal_strlit("\n    HalfOpen --> Open: probe failed\n");
        let k = n + m1.len();
        let closed = diagram(CircuitState::Closed);
        let open = diagram(CircuitState::Open);
        let half = diagram(CircuitState::HalfOpen);
        assert(closed[n] == '*');
        assert(open[n] == m1[0]);
        assert(half[n] == m1[0]);
        assert(open[k] == '*');
        assert(half[k] == m2[0]);
    }
}

/// The alerts of several breakers are those of each, one breaker after another.
pub proof fn law_alerts_of_all_breakers(
    breakers: Map<Seq<char>, CircuitBreaker>,
    names: Seq<Seq<char>>,
    name: Seq<char>,
    now: Instant,
)
    ensures
        all_alerts(breakers, Seq::<Seq<char>>::empty(), now).len() == 0,
        all_alerts(breakers, names.push(name), now) == all_alerts(breakers, names, now)
            + open_alert(breakers[name]@, now) + rejection_alert(breakers[name]@),
        all_expositions(breakers, names.push(name)) == all_expositions(breakers, names)
            + exposition(breakers[name]@),
{
    assert(names.push(name).drop_last() =~= names);
}

/// A new breaker is closed, has counted nothing, and lets calls through.
pub proof fn law_new_breaker_is_closed(
    name: Seq<char>,
    config: CircuitBreakerConfig,
    now: Instant,
)
    ensures
        ({
            let b = fresh(name, config);
            &&& b.name == name && b.config == config
            &&& b.state == CircuitState::Closed
            &&& b.consecutive_failures == 0 && b.consecutive_successes == 0
            &&& b.calls_allowed_total == 0 && b.calls_rejected_total == 0
            &&& b.failures_total == 0 && b.successes_total == 0 && b.state_transitions_total == 0
            &&& b.opened_at is None && b.opened_at_wall is None
            &&& b.events.len() == 0
            &&& admits(b, now)
        }),
{
}

} // verus!
