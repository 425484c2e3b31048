//! Custom metric collection and Grafana dashboard support: named, tagged metric
//! points recorded at runtime, what to aggregate over them, ready-made
//! dashboard templates, and shareable dashboard links.

use crate::clock::{fresh_id, Timestamp};
use crate::json;
use crate::json::{Json, JsonItems};
use crate::strmap::StrMap;
use crate::text;
use crate::text::copied;
use vstd::prelude::*;
use vstd::string::*;

verus! {

/// A single recorded data point for a custom metric.
pub struct MetricPoint {
    pub timestamp: Timestamp,
    /// The value, by its place in the order of the floating point numbers: of
    /// two values the greater one has the greater place.
    pub value: i64,
    pub tags: StrMap<String>,
}

/// What a point says.
#[verifier::ext_equal]
pub struct PointModel {
    pub timestamp: Timestamp,
    pub value: i64,
    pub tags: Map<Seq<char>, String>,
}

impl View for MetricPoint {
    type V = PointModel;

    open spec fn view(&self) -> PointModel {
        PointModel { timestamp: self.timestamp, value: self.value, tags: self.tags@ }
    }
}

/// What a series of points says.
pub open spec fn series_of(points: Seq<MetricPoint>) -> Seq<PointModel> {
    Seq::new(points.len(), |i: int| points[i]@)
}

/// What is asked to be recorded.
pub struct RecordMetricRequest {
    pub name: String,
    pub value: i64,
    pub tags: StrMap<String>,
}

/// Supported aggregation functions for custom metric queries.
#[derive(Debug, Clone, Copy, PartialEq, Eq, Structural)]
pub enum Aggregation {
    Sum,
    Avg,
    Min,
    Max,
    Count,
}

impl Aggregation {
    /// The name of the function in lower case.
    pub open spec fn spec_name(self) -> Seq<char> {
        match self {
            Aggregation::Sum => "sum"@,
            Aggregation::Avg => "avg"@,
            Aggregation::Min => "min"@,
            Aggregation::Max => "max"@,
            Aggregation::Count => "count"@,
        }
    }

    /// The name of the function in lower case.
    pub fn name(&self) -> (r: &'static str)
        ensures
            r@ == self.spec_name(),
    {
        match self {
            Aggregation::Sum => "sum",
            Aggregation::Avg => "avg",
            Aggregation::Min => "min",
            Aggregation::Max => "max",
            Aggregation::Count => "count",
        }
    }

    /// Applies the function to the values of `points`, as far as it needs no
    /// floating point arithmetic.
    pub fn apply(self, points: &Vec<MetricPoint>) -> (r: Aggregate)
        ensures
            self.yields(series_of(points@), r),
    {
        let n: usize = points.len();
        if n == 0 {
            return Aggregate::Zero;
        }
        match self {
            Aggregation::Sum => Aggregate::SumOf(Self::values(points)),
            Aggregation::Avg => Aggregate::MeanOf(Self::values(points)),
            Aggregation::Count => Aggregate::Count(n),
            Aggregation::Min => {
                let mut best: i64 = points[0].value;
                let mut i: usize = 1;
                while i < n
                    invariant
                        1 <= i <= n,
                        n == points@.len(),
                        exists|j: int| 0 <= j < n && (#[trigger] points@[j]).value == best,
                        forall|j: int| 0 <= j < i ==> best <= (#[trigger] points@[j]).value,
                    decreases n - i,
                {
                    if points[i].value < best {
                        best = points[i].value;
                    }
                    i += 1;
                }
                proof {
                    let s = series_of(points@);
                    let j = choose|j: int| 0 <= j < n && (#[trigger] points@[j]).value == best;
                    assert(s[j].value == best);
                }
                Aggregate::Value(best)
            },
            Aggregation::Max => {
                let mut best: i64 = points[0].value;
                let mut i: usize = 1;
                while i < n
                    invariant
                        1 <= i <= n,
                        n == points@.len(),
                        exists|j: int| 0 <= j < n && (#[trigger] points@[j]).value == best,
                        forall|j: int| 0 <= j < i ==> best >= (#[trigger] points@[j]).value,
                    decreases n - i,
                {
                    if points[i].value > best {
                        best = points[i].value;
                    }
                    i += 1;
                }
                proof {
                    let s = series_of(points@);
                    let j = choose|j: int| 0 <= j < n && (#[trigger] points@[j]).value == best;
                    assert(s[j].value == best);
                }
                Aggregate::Value(best)
            },
        }
    }

    /// The values of points, in order.
    fn values(points: &Vec<MetricPoint>) -> (r: Vec<i64>)
        ensures
            r@ == values_of(series_of(points@)),
    {
        let mut r: Vec<i64> = Vec::new();
        let mut i: usize = 0;
        while i < points.len()
            invariant
                i <= points@.len(),
                r@.len() == i,
                forall|j: int| 0 <= j < i ==> #[trigger] r@[j] == points@[j].value,
            decreases points@.len() - i,
        {
            r.push(points[i].value);
            i += 1;
        }
        assert(r@ =~= values_of(series_of(points@)));
        r
    }

    /// Whether `r` is what the function yields for a series.
    pub open spec fn yields(self, s: Seq<PointModel>, r: Aggregate) -> bool {
        if s.len() == 0 {
            r == Aggregate::Zero
        } else {
            match self {
                Aggregation::Sum => r is SumOf && r->SumOf_0@ == values_of(s),
                Aggregation::Avg => r is MeanOf && r->MeanOf_0@ == values_of(s),
                Aggregation::Count => r is Count && r->Count_0 == s.len(),
                Aggregation::Min => r is Value && least(s, r->Value_0),
                Aggregation::Max => r is Value && greatest(s, r->Value_0),
            }
        }
    }
}

/// The values of a series, in order.
pub open spec fn values_of(s: Seq<PointModel>) -> Seq<i64> {
    Seq::new(s.len(), |i: int| s[i].value)
}

/// Whether `v` is the least value of a series.
pub open spec fn least(s: Seq<PointModel>, v: i64) -> bool {
    &&& exists|i: int| 0 <= i < s.len() && (#[trigger] s[i]).value == v
    &&& forall|i: int| 0 <= i < s.len() ==> v <= (#[trigger] s[i]).value
}

/// Whether `v` is the greatest value of a series.
pub open spec fn greatest(s: Seq<PointModel>, v: i64) -> bool {
    &&& exists|i: int| 0 <= i < s.len() && (#[trigger] s[i]).value == v
    &&& forall|i: int| 0 <= i < s.len() ==> v >= (#[trigger] s[i]).value
}

/// The value of an aggregation: sums and means are left to whoever adds up
/// floating point numbers.
#[derive(Debug)]
pub enum Aggregate {
    /// Zero.
    Zero,
    /// One of the values, by its place in the order of the numbers.
    Value(i64),
    /// A number of points.
    Count(usize),
    /// The sum of these values, in order.
    SumOf(Vec<i64>),
    /// The sum of these values, in order, over their number.
    MeanOf(Vec<i64>),
}

/// A query.
#[derive(Debug, Clone, Copy)]
pub struct AggregateQuery {
    pub agg: Aggregation,
}

/// What is aggregated where a query names no function.
pub fn default_aggregation() -> (r: Aggregation)
    ensures
        r == Aggregation::Avg,
{
    Aggregation::Avg
}

/// The answer to a query.
#[derive(Debug)]
pub struct AggregateResponse {
    pub name: String,
    pub aggregation: String,
    pub value: Aggregate,
    pub sample_count: usize,
}

/// A saved dashboard share: a stable token pointing at a named dashboard so
/// the underlying template/metric selection can change without breaking
/// links already handed out.
#[derive(Debug)]
pub struct DashboardShare {
    pub token: String,
    pub dashboard: String,
    pub created_at: Timestamp,
    pub created_by: Option<String>,
}

impl Clone for DashboardShare {
    fn clone(&self) -> (r: Self)
        ensures
            r == *self,
    {
        DashboardShare {
            token: self.token.clone(),
            dashboard: self.dashboard.clone(),
            created_at: self.created_at,
            created_by: copied(&self.created_by),
        }
    }
}

/// What a share is created from.
#[derive(Debug)]
pub struct CreateShareRequest {
    pub dashboard: String,
    pub created_by: Option<String>,
}

/// The series of a map.
pub open spec fn models(map: Map<Seq<char>, Vec<MetricPoint>>) -> Map<Seq<char>, Seq<PointModel>> {
    Map::new(|k: Seq<char>| map.contains_key(k), |k: Seq<char>| series_of(map[k]@))
}

/// What a store holds.
#[verifier::ext_equal]
pub struct MetricsModel {
    /// The points of each metric, in the order of their recording.
    pub series: Map<Seq<char>, Seq<PointModel>>,
    /// The shares by token.
    pub shares: Map<Seq<char>, DashboardShare>,
}

impl MetricsModel {
    /// A store that holds nothing.
    pub open spec fn empty() -> MetricsModel {
        MetricsModel { series: Map::empty(), shares: Map::empty() }
    }

    /// The points of a metric, none for one that is unknown.
    pub open spec fn points(self, name: Seq<char>) -> Seq<PointModel> {
        if self.series.contains_key(name) {
            self.series[name]
        } else {
            Seq::empty()
        }
    }

    /// The store after a point was recorded.
    pub open spec fn recorded(self, name: Seq<char>, p: PointModel) -> MetricsModel {
        MetricsModel { series: self.series.insert(name, self.points(name).push(p)), ..self }
    }

    /// The store with one more share.
    pub open spec fn shared(self, share: DashboardShare) -> MetricsModel {
        MetricsModel { shares: self.shares.insert(share.token@, share), ..self }
    }
}

/// Store for custom metric series and dashboard shares.
pub struct CustomMetricsStore {
    series: StrMap<Vec<MetricPoint>>,
    shares: StrMap<DashboardShare>,
}

impl View for CustomMetricsStore {
    type V = MetricsModel;

    closed spec fn view(&self) -> MetricsModel {
        MetricsModel { series: models(self.series@), shares: self.shares@ }
    }
}

impl Default for CustomMetricsStore {
    fn default() -> (r: Self)
        ensures
            r@ == MetricsModel::empty(),
    {
        Self::new()
    }
}

impl CustomMetricsStore {
    /// A store that holds nothing.
    pub fn new() -> (r: Self)
        ensures
            r@ == MetricsModel::empty(),
    {
        let r = CustomMetricsStore { series: StrMap::new(), shares: StrMap::new() };
        assert(r@ =~= MetricsModel::empty());
        r
    }

    /// Records a point of a metric.
    pub fn record(&mut self, name: &str, value: i64, tags: StrMap<String>)
        ensures
            exists|now: Timestamp|
                final(self)@ == #[trigger] old(self)@.recorded(
                    name@,
                    PointModel { timestamp: now, value, tags: tags@ },
                ),
    {
        let now = Timestamp::now();
        self.record_at(name, value, tags, now);
    }

    /// Records a point of a metric at `now`.
    pub fn record_at(&mut self, name: &str, value: i64, tags: StrMap<String>, now: Timestamp)
        ensures
            final(self)@ == old(self)@.recorded(
                name@,
                PointModel { timestamp: now, value, tags: tags@ },
            ),
    {
        let ghost p = PointModel { timestamp: now, value, tags: tags@ };
        let ghost before = self.series@;
        if !self.series.contains_key(name) {
            let _old = self.series.insert(name.to_owned(), Vec::new());
        }
        let ghost mid = self.series@;
        assert(series_of(mid[name@]@) =~= old(self)@.points(name@));
        match self.series.get_mut(name) {
            Some(points) => points.push(MetricPoint { timestamp: now, value, tags }),
            None => {},
        }
        proof {
            let now_points = self.series@[name@]@;
            assert(series_of(now_points) =~= old(self)@.points(name@).push(p));
            assert(self@ =~= old(self)@.recorded(name@, p));
        }
    }

    /// Aggregates the points of a metric; `None` for one that is unknown.
    pub fn aggregate(&self, name: &str, agg: Aggregation) -> (r: Option<AggregateResponse>)
        ensures
            match r {
                Some(a) => {
                    &&& self@.series.contains_key(name@)
                    &&& a.name@ == name@
                    &&& a.aggregation@ == agg.spec_name()
                    &&& agg.yields(self@.series[name@], a.value)
                    &&& a.sample_count == self@.series[name@].len()
                },
                None => !self@.series.contains_key(name@),
            },
    {
        match self.series.get(name) {
            Some(points) => Some(
                AggregateResponse {
                    name: name.to_owned(),
                    aggregation: agg.name().to_owned(),
                    value: agg.apply(points),
                    sample_count: points.len(),
                },
            ),
            None => None,
        }
    }

    /// The names of the known metrics, each once.
    pub fn list_metric_names(&self) -> (r: Vec<String>)
        ensures
            text::texts(r@).no_duplicates(),
            text::texts(r@).to_set() == self@.series.dom(),
    {
        let n: usize = self.series.len();
        let ghost order = self.series.order();
        let mut r: Vec<String> = Vec::new();
        let mut i: usize = 0;
        while i < n
            invariant
                i <= n,
                n == order.len(),
                order == self.series.order(),
                r@.len() == i,
                forall|j: int| 0 <= j < i ==> (#[trigger] r@[j])@ == order[j],
            decreases n - i,
        {
            r.push(self.series.key_at(i).clone());
            i += 1;
        }
        assert(text::texts(r@) =~= order);
        assert(self@.series.dom() =~= self.series@.dom());
        r
    }

    /// Creates a shareable link for a dashboard.
    pub fn create_share(&mut self, req: CreateShareRequest) -> (r: DashboardShare)
        ensures
            r.token@.len() == 36,
            r.dashboard == req.dashboard,
            r.created_by == req.created_by,
            final(self)@ == old(self)@.shared(r),
    {
        let token = fresh_id();
        self.create_share_as(req, token, Timestamp::now())
    }

    /// Creates a shareable link for a dashboard with the given token and time.
    pub fn create_share_as(
        &mut self,
        req: CreateShareRequest,
        token: String,
        now: Timestamp,
    ) -> (r: DashboardShare)
        ensures
            r.token == token,
            r.dashboard == req.dashboard,
            r.created_at == now,
            r.created_by == req.created_by,
            final(self)@ == old(self)@.shared(r),
    {
        let share = DashboardShare {
            token,
            dashboard: req.dashboard,
            created_at: now,
            created_by: req.created_by,
        };
        let _old = self.shares.insert(share.token.clone(), share.clone());
        share
    }

    /// The share of a token.
    pub fn resolve_share(&self, token: &str) -> (r: Option<DashboardShare>)
        ensures
            r == if self@.shares.contains_key(token@) {
                Some(self@.shares[token@])
            } else {
                None
            },
    {
        match self.shares.get(token) {
            Some(share) => Some(share.clone()),
            None => None,
        }
    }
}

/// A JSON list of one item.
fn one(item: Json) -> (r: Json)
    ensures
        r.items() == Some(seq![item]),
{
    let r = Json::List(Box::new(JsonItems::Cons(item, Box::new(JsonItems::Nil))));
    proof {
        reveal_with_fuel(json::sequence, 2);
        assert(r.items()->0 =~= seq![item]);
    }
    r
}

/// A JSON list of two items.
fn two(a: Json, b: Json) -> (r: Json)
    ensures
        r.items() == Some(seq![a, b]),
{
    let r = Json::List(
        Box::new(JsonItems::Cons(a, Box::new(JsonItems::Cons(b, Box::new(JsonItems::Nil))))),
    );
    proof {
        reveal_with_fuel(json::sequence, 3);
        assert(r.items()->0 =~= seq![a, b]);
    }
    r
}

/// What a panel of a dashboard shows.
pub struct PanelModel {
    /// The kind of chart.
    pub kind: Seq<char>,
    pub title: Seq<char>,
    /// The queries.
    pub queries: Seq<Seq<char>>,
}

/// Whether `v` is the query `expr`, and nothing else.
pub open spec fn is_target(v: Json, expr: Seq<char>) -> bool {
    &&& v.member_text("expr"@) == Some(expr)
    &&& forall|k: Seq<char>| k != "expr"@ ==> #[trigger] v.member(k) is None
}

/// Whether `v` is the list of the given queries.
pub open spec fn are_targets(v: Json, queries: Seq<Seq<char>>) -> bool {
    &&& v.items() is Some
    &&& v.items()->0.len() == queries.len()
    &&& forall|i: int| 0 <= i < queries.len() ==> is_target(#[trigger] v.items()->0[i], queries[i])
}

/// Whether `v` is the given panel: its kind, its title and its queries, and
/// nothing else.
pub open spec fn is_panel(v: Json, p: PanelModel) -> bool {
    &&& v.member_text("type"@) == Some(p.kind)
    &&& v.member_text("title"@) == Some(p.title)
    &&& v.member("targets"@) is Some
    &&& are_targets(v.member("targets"@)->0, p.queries)
    &&& forall|k: Seq<char>|
        k != "type"@ && k != "title"@ && k != "targets"@ ==> #[trigger] v.member(k) is None
}

/// Whether `v` is the list of the given panels.
pub open spec fn are_panels(v: Json, panels: Seq<PanelModel>) -> bool {
    &&& v.items() is Some
    &&& v.items()->0.len() == panels.len()
    &&& forall|i: int| 0 <= i < panels.len() ==> is_panel(#[trigger] v.items()->0[i], panels[i])
}

/// Whether `v` declares one variable that is typed in, and nothing else.
pub open spec fn is_templating(v: Json, name: Seq<char>) -> bool {
    &&& v.member("list"@) is Some
    &&& v.member("list"@)->0.items() is Some
    &&& v.member("list"@)->0.items()->0.len() == 1
    &&& is_textbox(v.member("list"@)->0.items()->0[0], name)
    &&& forall|k: Seq<char>| k != "list"@ ==> #[trigger] v.member(k) is None
}

/// Whether `v` is a variable that is typed in.
pub open spec fn is_textbox(v: Json, name: Seq<char>) -> bool {
    &&& v.member_text("name"@) == Some(name)
    &&& v.member_text("type"@) == Some("textbox"@)
    &&& forall|k: Seq<char>| k != "name"@ && k != "type"@ ==> #[trigger] v.member(k) is None
}

/// Whether `t` is a dashboard with the given title and panels, which declares
/// the given variable where there is one, and nothing else.
pub open spec fn is_dashboard(
    t: Json,
    title: Seq<char>,
    panels: Seq<PanelModel>,
    variable: Option<Seq<char>>,
) -> bool {
    &&& t.member_text("title"@) == Some(title)
    &&& t.member("schemaVersion"@) == Some(Json::Int(36))
    &&& t.member("panels"@) is Some
    &&& are_panels(t.member("panels"@)->0, panels)
    &&& match variable {
        Some(name) => t.member("templating"@) is Some && is_templating(
            t.member("templating"@)->0,
            name,
        ),
        None => t.member("templating"@) is None,
    }
    &&& forall|k: Seq<char>|
        k != "title"@ && k != "schemaVersion"@ && k != "panels"@ && k != "templating"@
            ==> #[trigger] t.member(k) is None
}

/// The panels of the dashboard on the life of vaults.
pub open spec fn lifecycle_panels() -> Seq<PanelModel> {
    seq![
        PanelModel {
            kind: "timeseries"@,
            title: "Vaults created / released"@,
            queries: seq![
                "rate(heirloom_protocol_vaults_total[5m])"@,
                "rate(heirloom_protocol_releases_total[5m])"@,
            ],
        },
        PanelModel {
            kind: "stat"@,
            title: "Active vaults"@,
            queries: seq!["heirloom_protocol_active_vaults"@],
        },
    ]
}

/// The panels of the dashboard that explores a metric.
pub open spec fn explorer_panels() -> Seq<PanelModel> {
    seq![
        PanelModel {
            kind: "timeseries"@,
            title: "$metric_name over time"@,
            queries: seq!["custom_metric{name=\"$metric_name\"}"@],
        },
    ]
}

/// A query of a panel.
fn target(expr: &str) -> (r: Json)
    ensures
        is_target(r, expr@),
{
    Json::object().with("expr", Json::text(expr))
}

/// A panel of a dashboard.
fn panel(kind: &str, title: &str, targets: Json) -> (r: Json)
    ensures
        r.member_text("type"@) == Some(kind@),
        r.member_text("title"@) == Some(title@),
        r.member("targets"@) == Some(targets),
        forall|k: Seq<char>|
            k != "type"@ && k != "title"@ && k != "targets"@ ==> #[trigger] r.member(k) is None,
{
    proof {
        reveal_strlit("type");
        reveal_strlit("title");
        reveal_strlit("targets");
        assert("type"@.len() == 4 && "title"@.len() == 5 && "targets"@.len() == 7);
    }
    Json::object().with("type", Json::text(kind)).with("title", Json::text(title)).with(
        "targets",
        targets,
    )
}

/// A variable that is typed in.
fn textbox(name: &str) -> (r: Json)
    ensures
        is_textbox(r, name@),
{
    proof {
        reveal_strlit("name");
        reveal_strlit("type");
        assert("name"@[0] == 'n' && "type"@[0] == 't');
    }
    Json::object().with("name", Json::text(name)).with("type", Json::text("textbox"))
}

/// The dashboard on the life of vaults: how many are created and released, and
/// how many are active.
fn lifecycle_dashboard() -> (r: Json)
    ensures
        is_dashboard(r, "Heirloom Protocol - Vault Lifecycle"@, lifecycle_panels(), None),
{
    proof {
        lemma_dashboard_members();
    }
    let throughput = panel(
        "timeseries",
        "Vaults created / released",
        two(
            target("rate(heirloom_protocol_vaults_total[5m])"),
            target("rate(heirloom_protocol_releases_total[5m])"),
        ),
    );
    let active = panel("stat", "Active vaults", one(target("heirloom_protocol_active_vaults")));
    assert(is_panel(throughput, lifecycle_panels()[0]));
    assert(is_panel(active, lifecycle_panels()[1]));
    Json::object().with("title", Json::text("Heirloom Protocol - Vault Lifecycle")).with(
        "schemaVersion",
        Json::Int(36),
    ).with("panels", two(throughput, active))
}

/// The dashboard that explores a metric, which is chosen by its name.
fn explorer_dashboard() -> (r: Json)
    ensures
        is_dashboard(
            r,
            "Heirloom Protocol - Custom Metric Explorer"@,
            explorer_panels(),
            Some("metric_name"@),
        ),
{
    proof {
        lemma_dashboard_members();
    }
    let series = panel(
        "timeseries",
        "$metric_name over time",
        one(target("custom_metric{name=\"$metric_name\"}")),
    );
    assert(is_panel(series, explorer_panels()[0]));
    let templating = Json::object().with("list", one(textbox("metric_name")));
    assert(is_templating(templating, "metric_name"@));
    Json::object().with("title", Json::text("Heirloom Protocol - Custom Metric Explorer")).with(
        "schemaVersion",
        Json::Int(36),
    ).with("templating", templating).with("panels", one(series))
}

/// The members of a dashboard have different names.
proof fn lemma_dashboard_members()
    ensures
        "title"@ != "schemaVersion"@,
        "title"@ != "panels"@,
        "title"@ != "templating"@,
        "schemaVersion"@ != "panels"@,
        "schemaVersion"@ != "templating"@,
        "panels"@ != "templating"@,
{
    reveal_strlit("title");
    reveal_strlit("schemaVersion");
    reveal_strlit("panels");
    reveal_strlit("templating");
    assert("title"@.len() == 5 && "schemaVersion"@.len() == 13 && "panels"@.len() == 6
        && "templating"@.len() == 10);
}

/// Built-in Grafana dashboard templates: minimal but valid dashboard models
/// covering vault lifecycle throughput and custom metric exploration.
pub fn grafana_dashboard_templates() -> (r: StrMap<Json>)
    ensures
        r@.dom() == set!["vault-lifecycle"@, "custom-metric-explorer"@],
        is_dashboard(
            r@["vault-lifecycle"@],
            "Heirloom Protocol - Vault Lifecycle"@,
            lifecycle_panels(),
            None,
        ),
        is_dashboard(
            r@["custom-metric-explorer"@],
            "Heirloom Protocol - Custom Metric Explorer"@,
            explorer_panels(),
            Some("metric_name"@),
        ),
{
    proof {
        reveal_strlit("vault-lifecycle");
        reveal_strlit("custom-metric-explorer");
        assert("vault-lifecycle"@.len() == 15 && "custom-metric-explorer"@.len() == 22);
    }
    let mut templates: StrMap<Json> = StrMap::new();
    let _a = templates.insert("vault-lifecycle".to_owned(), lifecycle_dashboard());
    let _b = templates.insert("custom-metric-explorer".to_owned(), explorer_dashboard());
    assert(templates@.dom() =~= set!["vault-lifecycle"@, "custom-metric-explorer"@]);
    templates
}

/// A recorded point is the last of its metric's series, and no other metric is
/// touched.
pub proof fn law_recording_extends_one_series(
    m: MetricsModel,
    name: Seq<char>,
    other: Seq<char>,
    p: PointModel,
)
    ensures
        m.recorded(name, p).points(name) == m.points(name).push(p),
        other != name ==> m.recorded(name, p).points(other) == m.points(other),
        m.recorded(name, p).shares == m.shares,
{
}

/// A share that was created resolves to the dashboard that it was created for,
/// and so do all others.
pub proof fn law_share_round_trip(m: MetricsModel, share: DashboardShare, other: Seq<char>)
    ensures
        m.shared(share).shares.contains_key(share.token@),
        m.shared(share).shares[share.token@] == share,
        other != share.token@ && m.shares.contains_key(other) ==> m.shared(share).shares[other]
            == m.shares[other],
{
}

/// A sample joins the end of its own series, and no other series changes.
pub proof fn law_sample_joins_its_series(
    m: MetricsModel,
    name: Seq<char>,
    p: PointModel,
    other: Seq<char>,
)
    ensures
        m.recorded(name, p).points(name) == m.points(name).push(p),
        other != name ==> m.recorded(name, p).points(other) == m.points(other),
        m.recorded(name, p).shares == m.shares,
{
}

/// What the least and the greatest value of a series are: one of its values that
/// none lies below, or above. Sum and mean are taken over all values, and the count
/// is their number.
pub proof fn law_aggregates_are_over_the_series(s: Seq<PointModel>, r: Aggregate, i: int)
    requires
        0 <= i < s.len(),
    ensures
        Aggregation::Min.yields(s, r) ==> r is Value && r->Value_0 <= s[i].value,
        Aggregation::Max.yields(s, r) ==> r is Value && r->Value_0 >= s[i].value,
        Aggregation::Min.yields(s, r) || Aggregation::Max.yields(s, r) ==> exists|j: int|
            0 <= j < s.len() && (#[trigger] s[j]).value == r->Value_0,
        Aggregation::Count.yields(s, r) ==> r == Aggregate::Count(s.len() as usize) || s.len()
            > usize::MAX,
        Aggregation::Sum.yields(s, r) ==> r is SumOf && r->SumOf_0@.len() == s.len()
            && r->SumOf_0@[i] == s[i].value,
        Aggregation::Avg.yields(s, r) ==> r is MeanOf && r->MeanOf_0@.len() == s.len()
            && r->MeanOf_0@[i] == s[i].value,
{
}

/// A series without samples aggregates to zero, whatever is asked for.
pub proof fn law_empty_series_is_zero(agg: Aggregation, r: Aggregate)
    requires
        agg.yields(Seq::<PointModel>::empty(), r),
    ensures
        r == Aggregate::Zero,
{
}

/// A share is found by its token, and other shares stay.
pub proof fn law_share_is_found_by_its_token(
    m: MetricsModel,
    share: DashboardShare,
    token: Seq<char>,
)
    ensures
        m.shared(share).shares.contains_key(share.token@),
        m.shared(share).shares[share.token@] == share,
        token != share.token@ ==> m.shared(share).shares.contains_key(token)
            == m.shares.contains_key(token),
        m.shared(share).series == m.series,
{
}

/// A dashboard has its title and its panels in order, each with its kind, its
/// title and its queries; it asks for a variable exactly where it has one.
pub proof fn law_dashboard_shows_its_panels(
    t: Json,
    title: Seq<char>,
    panels: Seq<PanelModel>,
    variable: Option<Seq<char>>,
    i: int,
    j: int,
)
    requires
        is_dashboard(t, title, panels, variable),
    ensures
        t.member_text("title"@) == Some(title),
        t.member("panels"@) is Some,
        t.member("panels"@)->0.items() is Some,
        t.member("panels"@)->0.items()->0.len() == panels.len(),
        0 <= i < panels.len() ==> {
            let p = t.member("panels"@)->0.items()->0[i];
            &&& p.member_text("type"@) == Some(panels[i].kind)
            &&& p.member_text("title"@) == Some(panels[i].title)
            &&& p.member("targets"@) is Some
            &&& p.member("targets"@)->0.items() is Some
            &&& p.member("targets"@)->0.items()->0.len() == panels[i].queries.len()
            &&& 0 <= j < panels[i].queries.len()
                ==> p.member("targets"@)->0.items()->0[j].member_text("expr"@) == Some(
                panels[i].queries[j],
            )
        },
        variable is None ==> t.member("templating"@) is None,
        variable is Some ==> t.member("templating"@) is Some,
{
    let v = t.member("panels"@)->0;
    if 0 <= i < panels.len() {
        assert(is_panel(v.items()->0[i], panels[i]));
        let q = v.items()->0[i].member("targets"@)->0;
        if 0 <= j < panels[i].queries.len() {
            assert(is_target(q.items()->0[j], panels[i].queries[j]));
        }
    }
}

/// The queries of the two dashboards.
pub proof fn law_dashboards_query_these_metrics()
    ensures
        lifecycle_panels().len() == 2,
        lifecycle_panels()[0].kind == "timeseries"@,
        lifecycle_panels()[0].queries.len() == 2,
        lifecycle_panels()[0].queries[0] == "rate(heirloom_protocol_vaults_total[5m])"@,
        lifecycle_panels()[0].queries[1] == "rate(heirloom_protocol_releases_total[5m])"@,
        lifecycle_panels()[1].kind == "stat"@,
        lifecycle_panels()[1].queries == seq!["heirloom_protocol_active_vaults"@],
        explorer_panels().len() == 1,
        explorer_panels()[0].kind == "timeseries"@,
        explorer_panels()[0].queries == seq!["custom_metric{name=\"$metric_name\"}"@],
{
}

/// The names of the aggregations.
pub proof fn law_aggregations_by_name()
    ensures
        Aggregation::Sum.spec_name() == "sum"@,
        Aggregation::Avg.spec_name() == "avg"@,
        Aggregation::Min.spec_name() == "min"@,
        Aggregation::Max.spec_name() == "max"@,
        Aggregation::Count.spec_name() == "count"@,
{
}

/// The variable of a dashboard is a text box of that name.
pub proof fn law_dashboard_asks_for_its_variable(
    t: Json,
    title: Seq<char>,
    panels: Seq<PanelModel>,
    name: Seq<char>,
)
    requires
        is_dashboard(t, title, panels, Some(name)),
    ensures
        t.member("schemaVersion"@) == Some(Json::Int(36)),
        t.member("templating"@) is Some,
        ({
            let list = t.member("templating"@)->0.member("list"@);
            &&& list is Some
            &&& list->0.items() is Some
            &&& list->0.items()->0.len() == 1
            &&& list->0.items()->0[0].member_text("name"@) == Some(name)
            &&& list->0.items()->0[0].member_text("type"@) == Some("textbox"@)
        }),
{
}

/// A value of the series that none lies below is its least, and one that none lies
/// above its greatest, wherever it stands.
pub proof fn law_extremes_are_found_anywhere(s: Seq<PointModel>, i: int)
    requires
        0 <= i < s.len(),
    ensures
        (forall|j: int| 0 <= j < s.len() ==> s[i].value <= (#[trigger] s[j]).value)
            ==> Aggregation::Min.yields(s, Aggregate::Value(s[i].value)),
        (forall|j: int| 0 <= j < s.len() ==> s[i].value >= (#[trigger] s[j]).value)
            ==> Aggregation::Max.yields(s, Aggregate::Value(s[i].value)),
{
}

} // verus!
