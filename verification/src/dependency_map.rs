//! Service dependency mapping: discovery from observed calls, a graph that can
//! be exported for visualisation, change detection between snapshots, and
//! impact analysis for a given service.

use crate::clock::Timestamp;
use crate::graph;
use crate::graph::{reachable, Link};
use crate::sequences;
use crate::text;
use crate::text::str_eq;
use vstd::prelude::*;
use vstd::string::*;

verus! {

/// The kind of relationship between two services.
#[derive(Debug, Clone, Copy, PartialEq, Eq, Hash, Structural)]
pub enum DependencyKind {
    SynchronousRpc,
    AsyncMessage,
    DataStore,
}

impl DependencyKind {
    /// The name of the kind.
    pub open spec fn spec_name(self) -> Seq<char> {
        match self {
            DependencyKind::SynchronousRpc => "SynchronousRpc"@,
            DependencyKind::AsyncMessage => "AsyncMessage"@,
            DependencyKind::DataStore => "DataStore"@,
        }
    }

    /// The name of the kind.
    pub fn name(&self) -> (r: &'static str)
        ensures
            r@ == self.spec_name(),
    {
        match self {
            DependencyKind::SynchronousRpc => "SynchronousRpc",
            DependencyKind::AsyncMessage => "AsyncMessage",
            DependencyKind::DataStore => "DataStore",
        }
    }
}

/// A directed edge in the dependency graph: `from` depends on `to`.
#[derive(Debug, PartialEq, Eq, Hash)]
pub struct DependencyEdge {
    pub from: String,
    pub to: String,
    pub kind: DependencyKind,
}

/// What an edge says.
pub struct EdgeModel {
    pub from: Seq<char>,
    pub to: Seq<char>,
    pub kind: DependencyKind,
}

impl View for DependencyEdge {
    type V = EdgeModel;

    open spec fn view(&self) -> EdgeModel {
        EdgeModel { from: self.from@, to: self.to@, kind: self.kind }
    }
}

impl Clone for DependencyEdge {
    fn clone(&self) -> (r: Self)
        ensures
            r == *self,
    {
        DependencyEdge { from: self.from.clone(), to: self.to.clone(), kind: self.kind }
    }
}

/// What a list of edges says.
pub open spec fn edges_of(v: Seq<DependencyEdge>) -> Seq<EdgeModel> {
    Seq::new(v.len(), |i: int| v[i]@)
}

/// A discovery event recorded when a new dependency is observed.
#[derive(Debug)]
pub struct DiscoveryEvent {
    pub edge: DependencyEdge,
    pub observed_at: Timestamp,
}

/// A change detected between the current graph and the previous snapshot.
#[derive(Debug)]
pub struct DependencyChange {
    pub added: Vec<DependencyEdge>,
    pub removed: Vec<DependencyEdge>,
    pub detected_at: Timestamp,
}

/// What a change says.
#[verifier::ext_equal]
pub struct ChangeModel {
    pub added: Seq<EdgeModel>,
    pub removed: Seq<EdgeModel>,
    pub detected_at: Timestamp,
}

impl View for DependencyChange {
    type V = ChangeModel;

    open spec fn view(&self) -> ChangeModel {
        ChangeModel {
            added: edges_of(self.added@),
            removed: edges_of(self.removed@),
            detected_at: self.detected_at,
        }
    }
}

impl Clone for DependencyChange {
    fn clone(&self) -> (r: Self)
        ensures
            r@ == self@,
    {
        let r = DependencyChange {
            added: self.added.clone(),
            removed: self.removed.clone(),
            detected_at: self.detected_at,
        };
        assert(r.added@ =~= self.added@);
        assert(r.removed@ =~= self.removed@);
        r
    }
}

/// The live dependency graph, built incrementally from discovery events. No
/// edge occurs twice.
#[derive(Debug)]
pub struct DependencyGraph {
    edges: Vec<DependencyEdge>,
}

impl View for DependencyGraph {
    type V = Seq<EdgeModel>;

    closed spec fn view(&self) -> Seq<EdgeModel> {
        edges_of(self.edges@)
    }
}

/// The line of an edge in the DOT export.
pub open spec fn dot_line(e: EdgeModel) -> Seq<char> {
    "  \""@ + e.from + "\" -> \""@ + e.to + "\" [label=\""@ + e.kind.spec_name() + "\"];\n"@
}

/// The lines of edges in the DOT export.
pub open spec fn dot_lines(edges: Seq<EdgeModel>) -> Seq<char>
    decreases edges.len(),
{
    if edges.len() == 0 {
        Seq::empty()
    } else {
        dot_lines(edges.drop_last()) + dot_line(edges.last())
    }
}

/// The services that a service directly depends on, one for each edge.
pub open spec fn downstream(edges: Seq<EdgeModel>, service: Seq<char>) -> Seq<Seq<char>>
    decreases edges.len(),
{
    if edges.len() == 0 {
        Seq::empty()
    } else {
        let before = downstream(edges.drop_last(), service);
        if edges.last().from == service {
            before.push(edges.last().to)
        } else {
            before
        }
    }
}

/// The services that directly depend on a service, one for each edge.
pub open spec fn upstream(edges: Seq<EdgeModel>, service: Seq<char>) -> Seq<Seq<char>>
    decreases edges.len(),
{
    if edges.len() == 0 {
        Seq::empty()
    } else {
        let before = upstream(edges.drop_last(), service);
        if edges.last().to == service {
            before.push(edges.last().from)
        } else {
            before
        }
    }
}

/// Whether `user` directly depends on `service`.
pub open spec fn depends(edges: Seq<EdgeModel>, user: Seq<char>, service: Seq<char>) -> bool {
    exists|i: int|
        0 <= i < edges.len() && (#[trigger] edges[i]).from == user && edges[i].to == service
}

/// From each service to those that directly depend on it.
pub open spec fn impact(edges: Seq<EdgeModel>) -> spec_fn(Seq<char>, Seq<char>) -> bool {
    |service: Seq<char>, user: Seq<char>| depends(edges, user, service)
}

/// The edges of one graph that another lacks.
pub open spec fn difference(a: Seq<EdgeModel>, b: Seq<EdgeModel>) -> Seq<EdgeModel> {
    a.filter(|e: EdgeModel| !b.contains(e))
}

impl Default for DependencyGraph {
    fn default() -> (r: Self)
        ensures
            r@ == Seq::<EdgeModel>::empty(),
    {
        let r = DependencyGraph { edges: Vec::new() };
        assert(r@ =~= Seq::<EdgeModel>::empty());
        r
    }
}

impl Clone for DependencyGraph {
    fn clone(&self) -> (r: Self)
        ensures
            r@ == self@,
    {
        let r = DependencyGraph { edges: self.edges.clone() };
        assert(r.edges@ =~= self.edges@);
        r
    }
}

impl DependencyGraph {
    /// The edges, in the order of their discovery.
    pub fn edges(&self) -> (r: &Vec<DependencyEdge>)
        ensures
            edges_of(r@) == self@,
    {
        &self.edges
    }

    /// Whether the graph has an edge.
    pub fn contains(&self, edge: &DependencyEdge) -> (r: bool)
        ensures
            r == self@.contains(edge@),
    {
        let mut i: usize = 0;
        while i < self.edges.len()
            invariant
                i <= self.edges@.len(),
                forall|j: int| 0 <= j < i ==> (#[trigger] self.edges@[j])@ != edge@,
            decreases self.edges@.len() - i,
        {
            let e = &self.edges[i];
            if str_eq(e.from.as_str(), edge.from.as_str()) && str_eq(
                e.to.as_str(),
                edge.to.as_str(),
            ) && e.kind == edge.kind {
                assert(self@[i as int] == edge@);
                return true;
            }
            i += 1;
        }
        assert forall|j: int| 0 <= j < self@.len() implies self@[j] != edge@ by {
            assert(self.edges@[j]@ != edge@);
        }
        false
    }

    /// Adds an edge that the graph lacks. Returns whether it did.
    pub fn insert(&mut self, edge: DependencyEdge) -> (r: bool)
        ensures
            r == !old(self)@.contains(edge@),
            final(self)@ == if r {
                old(self)@.push(edge@)
            } else {
                old(self)@
            },
            old(self)@.no_duplicates() ==> final(self)@.no_duplicates(),
    {
        if self.contains(&edge) {
            return false;
        }
        let ghost before = self@;
        self.edges.push(edge);
        proof {
            assert(self@ =~= before.push(edge@));
            if before.no_duplicates() {
                assert forall|i: int, j: int|
                    0 <= i < self@.len() && 0 <= j < self@.len() && i != j implies self@[i]
                    != self@[j] by {
                    if i < before.len() && j < before.len() {
                        assert(before[i] != before[j]);
                    } else if i < before.len() {
                        assert(before.contains(before[i]));
                    } else if j < before.len() {
                        assert(before.contains(before[j]));
                    }
                }
            }
        }
        true
    }

    /// Render the graph in Graphviz DOT format for visualization tooling.
    pub fn to_dot(&self) -> (r: String)
        ensures
            r@ == "digraph services {\n"@ + dot_lines(self@) + "}\n"@,
    {
        let mut out: String = "digraph services {\n".to_owned();
        let mut i: usize = 0;
        assert(out@ =~= "digraph services {\n"@ + dot_lines(self@.take(0)));
        while i < self.edges.len()
            invariant
                i <= self.edges@.len(),
                self@.len() == self.edges@.len(),
                out@ == "digraph services {\n"@ + dot_lines(self@.take(i as int)),
            decreases self.edges@.len() - i,
        {
            let ghost before = out@;
            let e = &self.edges[i];
            out.append("  \"");
            out.append(e.from.as_str());
            out.append("\" -> \"");
            out.append(e.to.as_str());
            out.append("\" [label=\"");
            out.append(e.kind.name());
            out.append("\"];\n");
            proof {
                let longer = self@.take(i + 1);
                assert(longer.drop_last() =~= self@.take(i as int));
                assert(longer.last() == e@);
                assert(out@ =~= before + dot_line(e@));
                assert(out@ =~= "digraph services {\n"@ + dot_lines(longer));
            }
            i += 1;
        }
        assert(self@.take(i as int) =~= self@);
        out.append("}\n");
        out
    }

    /// Services that `service` directly depends on.
    pub fn downstream_of(&self, service: &str) -> (r: Vec<String>)
        ensures
            text::texts(r@) == downstream(self@, service@),
    {
        let mut r: Vec<String> = Vec::new();
        let mut i: usize = 0;
        assert(text::texts(r@) =~= downstream(self@.take(0), service@));
        while i < self.edges.len()
            invariant
                i <= self.edges@.len(),
                self@.len() == self.edges@.len(),
                text::texts(r@) == downstream(self@.take(i as int), service@),
            decreases self.edges@.len() - i,
        {
            let ghost before = text::texts(r@);
            let e = &self.edges[i];
            proof {
                let longer = self@.take(i + 1);
                assert(longer.drop_last() =~= self@.take(i as int));
                assert(longer.last() == e@);
            }
            if str_eq(e.from.as_str(), service) {
                r.push(e.to.clone());
                assert(text::texts(r@) =~= before.push(e@.to));
            }
            i += 1;
        }
        assert(self@.take(i as int) =~= self@);
        r
    }

    /// Services that directly depend on `service`.
    pub fn upstream_of(&self, service: &str) -> (r: Vec<String>)
        ensures
            text::texts(r@) == upstream(self@, service@),
    {
        let mut r: Vec<String> = Vec::new();
        let mut i: usize = 0;
        assert(text::texts(r@) =~= upstream(self@.take(0), service@));
        while i < self.edges.len()
            invariant
                i <= self.edges@.len(),
                self@.len() == self.edges@.len(),
                text::texts(r@) == upstream(self@.take(i as int), service@),
            decreases self.edges@.len() - i,
        {
            let ghost before = text::texts(r@);
            let e = &self.edges[i];
            proof {
                let longer = self@.take(i + 1);
                assert(longer.drop_last() =~= self@.take(i as int));
                assert(longer.last() == e@);
            }
            if str_eq(e.to.as_str(), service) {
                r.push(e.from.clone());
                assert(text::texts(r@) =~= before.push(e@.from));
            }
            i += 1;
        }
        assert(self@.take(i as int) =~= self@);
        r
    }

    /// The edges turned round.
    fn impact_links(&self) -> (r: Vec<Link>)
        ensures
            forall|a: Seq<char>, b: Seq<char>| #[trigger]
                graph::linked(r@, a, b) == depends(self@, b, a),
    {
        let mut r: Vec<Link> = Vec::new();
        let mut i: usize = 0;
        while i < self.edges.len()
            invariant
                i <= self.edges@.len(),
                r@.len() == i,
                forall|j: int|
                    0 <= j < i ==> (#[trigger] r@[j]).from@ == self.edges@[j]@.to && r@[j].to@
                        == self.edges@[j]@.from,
            decreases self.edges@.len() - i,
        {
            let e = &self.edges[i];
            r.push(Link { from: e.to.clone(), to: e.from.clone() });
            i += 1;
        }
        proof {
            assert forall|a: Seq<char>, b: Seq<char>| #[trigger] graph::linked(r@, a, b) == depends(
                self@,
                b,
                a,
            ) by {
                if graph::linked(r@, a, b) {
                    let k = choose|k: int|
                        0 <= k < r@.len() && (#[trigger] r@[k]).from@ == a && r@[k].to@ == b;
                    assert(self@[k].from == b && self@[k].to == a);
                }
                if depends(self@, b, a) {
                    let k = choose|k: int|
                        0 <= k < self@.len() && (#[trigger] self@[k]).from == b && self@[k].to == a;
                    assert(r@[k].from@ == a && r@[k].to@ == b);
                }
            }
        }
        r
    }

    /// Transitive upstream closure of `service`: every service that would be
    /// affected, directly or indirectly, if `service` failed, each once.
    pub fn impacted_by(&self, service: &str) -> (r: Vec<String>)
        ensures
            text::texts(r@).no_duplicates(),
            forall|x: Seq<char>| #[trigger]
                text::texts(r@).contains(x) <==> graph::reaches(impact(self@), service@, x),
    {
        let links = self.impact_links();
        let r = reachable(&links, service);
        proof {
            let a = graph::relation(links@);
            let b = impact(self@);
            assert forall|x: Seq<char>, y: Seq<char>| #[trigger] a(x, y) == b(x, y) by {
                assert(graph::linked(links@, x, y) == depends(self@, y, x));
            }
            assert forall|x: Seq<char>| #[trigger] text::texts(r@).contains(x) <==> graph::reaches(
                b,
                service@,
                x,
            ) by {
                graph::lemma_reaches_agree(a, b, service@, x);
            }
        }
        r
    }

    /// The edges that `other` lacks.
    fn missing_in(&self, other: &DependencyGraph) -> (r: Vec<DependencyEdge>)
        ensures
            edges_of(r@) == difference(self@, other@),
    {
        let ghost pred = |e: EdgeModel| !other@.contains(e);
        let mut r: Vec<DependencyEdge> = Vec::new();
        let mut i: usize = 0;
        proof {
            reveal(Seq::filter);
            assert(edges_of(r@) =~= self@.take(0).filter(pred));
        }
        while i < self.edges.len()
            invariant
                i <= self.edges@.len(),
                self@.len() == self.edges@.len(),
                pred == (|e: EdgeModel| !other@.contains(e)),
                edges_of(r@) == self@.take(i as int).filter(pred),
            decreases self.edges@.len() - i,
        {
            let ghost before = edges_of(r@);
            proof {
                reveal(Seq::filter);
                assert(self@.take(i + 1).drop_last() =~= self@.take(i as int));
                assert(self@.take(i + 1).last() == self.edges@[i as int]@);
            }
            if !other.contains(&self.edges[i]) {
                r.push(self.edges[i].clone());
                assert(edges_of(r@) =~= before.push(self.edges@[i as int]@));
            }
            i += 1;
        }
        assert(self@.take(i as int) =~= self@);
        r
    }

    /// Diff this graph against `previous`, returning added/removed edges.
    pub fn diff(&self, previous: &DependencyGraph) -> (r: DependencyChange)
        ensures
            r@.added == difference(self@, previous@),
            r@.removed == difference(previous@, self@),
    {
        self.diff_at(previous, Timestamp::now())
    }

    /// Diff this graph against `previous` at `now`.
    pub fn diff_at(&self, previous: &DependencyGraph, now: Timestamp) -> (r: DependencyChange)
        ensures
            r@ == (ChangeModel {
                added: difference(self@, previous@),
                removed: difference(previous@, self@),
                detected_at: now,
            }),
    {
        DependencyChange {
            added: self.missing_in(previous),
            removed: previous.missing_in(self),
            detected_at: now,
        }
    }
}

/// One observed call between services.
#[derive(Debug)]
pub struct DiscoverDependencyRequest {
    pub from: String,
    pub to: String,
    pub kind: DependencyKind,
}

/// Which service to analyse.
#[derive(Debug)]
pub struct ImpactAnalysisRequest {
    pub service: String,
}

/// Response for impact analysis.
#[derive(Debug)]
pub struct ImpactAnalysisResponse {
    pub service: String,
    pub direct_downstream: Vec<String>,
    pub direct_upstream: Vec<String>,
    pub transitive_impact: Vec<String>,
}

/// The graph and how it changed.
pub struct DependencyMapState {
    graph: DependencyGraph,
    changes: Vec<DependencyChange>,
}

/// What is known of the dependencies.
#[verifier::ext_equal]
pub struct MapModel {
    /// The edges, in the order of their discovery.
    pub edges: Seq<EdgeModel>,
    /// The changes, most recent last.
    pub changes: Seq<ChangeModel>,
}

impl View for DependencyMapState {
    type V = MapModel;

    closed spec fn view(&self) -> MapModel {
        MapModel {
            edges: self.graph@,
            changes: Seq::new(self.changes@.len(), |i: int| self.changes@[i]@),
        }
    }
}

impl MapModel {
    /// Nothing is known.
    pub open spec fn empty() -> MapModel {
        MapModel { edges: Seq::empty(), changes: Seq::empty() }
    }

    /// What is known after an edge was observed at `now`: an edge that was
    /// not known is added and noted as a change.
    pub open spec fn observed(self, e: EdgeModel, now: Timestamp) -> MapModel {
        if self.edges.contains(e) {
            self
        } else {
            MapModel {
                edges: self.edges.push(e),
                changes: self.changes.push(
                    ChangeModel { added: seq![e], removed: Seq::empty(), detected_at: now },
                ),
            }
        }
    }
}

impl Default for DependencyMapState {
    fn default() -> (r: Self)
        ensures
            r@ == MapModel::empty(),
    {
        Self::new()
    }
}

impl DependencyMapState {
    /// Nothing is known yet.
    pub fn new() -> (r: Self)
        ensures
            r@ == MapModel::empty(),
    {
        let r = DependencyMapState { graph: DependencyGraph::default(), changes: Vec::new() };
        assert(r@ =~= MapModel::empty());
        r
    }

    /// The graph.
    pub fn graph(&self) -> (r: &DependencyGraph)
        ensures
            r@ == self@.edges,
    {
        &self.graph
    }

    /// Record an observed dependency edge, detecting and storing any change
    /// versus the prior graph snapshot.
    pub fn discover_dependencies(&mut self, body: DiscoverDependencyRequest) -> (r: DiscoveryEvent)
        ensures
            r.edge@ == (EdgeModel { from: body.from@, to: body.to@, kind: body.kind }),
            final(self)@ == old(self)@.observed(r.edge@, r.observed_at),
    {
        let now = Timestamp::now();
        self.discover_at(body, now)
    }

    /// Record an edge observed at `now`.
    pub fn discover_at(&mut self, body: DiscoverDependencyRequest, now: Timestamp) -> (r:
        DiscoveryEvent)
        ensures
            r.edge@ == (EdgeModel { from: body.from@, to: body.to@, kind: body.kind }),
            r.observed_at == now,
            final(self)@ == old(self)@.observed(r.edge@, now),
    {
        let edge = DependencyEdge { from: body.from, to: body.to, kind: body.kind };
        let previous = self.graph.clone();
        let is_new: bool = self.graph.insert(edge.clone());
        if is_new {
            let change = self.graph.diff_at(&previous, now);
            proof {
                lemma_one_more(previous@, edge@);
            }
            self.changes.push(change);
        }
        assert(self@ =~= old(self)@.observed(edge@, now));
        DiscoveryEvent { edge, observed_at: now }
    }

    /// Analyse the blast radius of a service failing, combining direct edges
    /// with the transitive upstream closure.
    pub fn analyze_impact(&self, body: ImpactAnalysisRequest) -> (r: ImpactAnalysisResponse)
        ensures
            r.service@ == body.service@,
            text::texts(r.direct_downstream@) == downstream(self@.edges, body.service@),
            text::texts(r.direct_upstream@) == upstream(self@.edges, body.service@),
            text::texts(r.transitive_impact@).no_duplicates(),
            forall|x: Seq<char>| #[trigger]
                text::texts(r.transitive_impact@).contains(x) <==> graph::reaches(
                    impact(self@.edges),
                    body.service@,
                    x,
                ),
    {
        let service = body.service;
        ImpactAnalysisResponse {
            direct_downstream: self.graph.downstream_of(service.as_str()),
            direct_upstream: self.graph.upstream_of(service.as_str()),
            transitive_impact: self.graph.impacted_by(service.as_str()),
            service,
        }
    }

    /// The detected changes to the dependency graph over time, most recent
    /// last.
    pub fn get_recent_changes(&self) -> (r: Vec<DependencyChange>)
        ensures
            Seq::new(r@.len(), |i: int| r@[i]@) == self@.changes,
    {
        let mut r: Vec<DependencyChange> = Vec::new();
        let mut i: usize = 0;
        while i < self.changes.len()
            invariant
                i <= self.changes@.len(),
                r@.len() == i,
                forall|j: int| 0 <= j < i ==> (#[trigger] r@[j])@ == self.changes@[j]@,
            decreases self.changes@.len() - i,
        {
            r.push(self.changes[i].clone());
            i += 1;
        }
        assert(Seq::new(r@.len(), |i: int| r@[i]@) =~= self@.changes);
        r
    }
}

/// How a graph with one more edge differs from the graph before.
proof fn lemma_one_more(before: Seq<EdgeModel>, e: EdgeModel)
    requires
        !before.contains(e),
    ensures
        difference(before.push(e), before) == seq![e],
        difference(before, before.push(e)) == Seq::<EdgeModel>::empty(),
{
    let after = before.push(e);
    let p = |x: EdgeModel| !before.contains(x);
    reveal(Seq::filter);
    assert(after.drop_last() =~= before);
    assert forall|i: int| 0 <= i < before.len() implies !p(#[trigger] before[i]) by {
        assert(before.contains(before[i]));
    }
    sequences::lemma_filter_all(before, p);
    assert(after.filter(p) =~= seq![e]);
    let q = |x: EdgeModel| !after.contains(x);
    assert forall|i: int| 0 <= i < before.len() implies !q(#[trigger] before[i]) by {
        assert(after[i] == before[i]);
    }
    sequences::lemma_filter_all(before, q);
}

/// A service that directly depends on a failing one is impacted, and so is
/// everything that is impacted by an impacted service.
pub proof fn law_impact_is_transitive(
    edges: Seq<EdgeModel>,
    service: Seq<char>,
    user: Seq<char>,
    far: Seq<char>,
)
    requires
        depends(edges, user, service),
    ensures
        graph::reaches(impact(edges), service, user),
        graph::reaches(impact(edges), user, far) ==> graph::reaches(impact(edges), service, far),
{
    graph::lemma_step_reaches(impact(edges), service, user);
    if graph::reaches(impact(edges), user, far) {
        graph::law_reaches_is_transitive(impact(edges), service, user, far);
    }
}

/// Observing the same edge twice is the same as observing it once.
pub proof fn law_observation_is_idempotent(
    m: MapModel,
    e: EdgeModel,
    now: Timestamp,
    later: Timestamp,
)
    ensures
        m.observed(e, now).observed(e, later) == m.observed(e, now),
        m.observed(e, now).edges.contains(e),
{
    if !m.edges.contains(e) {
        assert(m.observed(e, now).edges[m.edges.len() as int] == e);
    }
}

/// A graph does not differ from itself.
pub proof fn law_no_change_without_difference(edges: Seq<EdgeModel>)
    ensures
        difference(edges, edges) == Seq::<EdgeModel>::empty(),
{
    let p = |x: EdgeModel| !edges.contains(x);
    assert forall|i: int| 0 <= i < edges.len() implies !p(#[trigger] edges[i]) by {
        assert(edges.contains(edges[i]));
    }
    sequences::lemma_filter_all(edges, p);
}

/// The services that a service depends on are the ends of its edges, and those
/// that depend on it the starts of the edges that lead to it, one for each edge.
pub proof fn law_neighbours_follow_the_edges(
    edges: Seq<EdgeModel>,
    e: EdgeModel,
    service: Seq<char>,
)
    ensures
        downstream(Seq::<EdgeModel>::empty(), service).len() == 0,
        e.from == service ==> downstream(edges.push(e), service) == downstream(edges, service).push(
            e.to,
        ),
        e.from != service ==> downstream(edges.push(e), service) == downstream(edges, service),
        upstream(Seq::<EdgeModel>::empty(), service).len() == 0,
        e.to == service ==> upstream(edges.push(e), service) == upstream(edges, service).push(
            e.from,
        ),
        e.to != service ==> upstream(edges.push(e), service) == upstream(edges, service),
{
    assert(edges.push(e).drop_last() =~= edges);
}

/// A failing service affects the services that depend on it, and those it depends
/// on only where they depend on it in turn.
pub proof fn law_impact_runs_against_the_edges(edges: Seq<EdgeModel>, i: int, service: Seq<char>)
    requires
        0 <= i < edges.len(),
    ensures
        graph::reaches(impact(edges), edges[i].to, edges[i].from),
        (forall|j: int| 0 <= j < edges.len() ==> (#[trigger] edges[j]).to != service) ==> forall|
            x: Seq<char>,
        |
            !#[trigger] graph::reaches(impact(edges), service, x),
{
    assert(depends(edges, edges[i].from, edges[i].to));
    law_impact_is_transitive(edges, edges[i].to, edges[i].from, edges[i].from);
    if forall|j: int| 0 <= j < edges.len() ==> (#[trigger] edges[j]).to != service {
        assert forall|x: Seq<char>| !#[trigger] graph::reaches(impact(edges), service, x) by {
            if graph::reaches(impact(edges), service, x) {
                let leads = impact(edges);
                let p = choose|p: Seq<Seq<char>>| #[trigger]
                    graph::is_path(leads, p) && p[0] == service && p.last() == x;
                assert(leads(p[0], p[1]));
                assert(depends(edges, p[1], p[0]));
            }
        }
    }
}

/// The difference of two maps holds what the first has and the second has not.
pub proof fn law_difference_is_what_is_new(a: Seq<EdgeModel>, b: Seq<EdgeModel>, e: EdgeModel)
    ensures
        difference(a, b).contains(e) <==> a.contains(e) && !b.contains(e),
{
    crate::sequences::lemma_filter_counts(a, |x: EdgeModel| !b.contains(x), e);
}

/// A dependency that was not known is added behind the others and noted as a
/// change; a known one changes nothing.
pub proof fn law_new_dependency_is_a_change(m: MapModel, e: EdgeModel, now: Timestamp)
    ensures
        !m.edges.contains(e) ==> {
            &&& m.observed(e, now).edges == m.edges.push(e)
            &&& m.observed(e, now).changes.len() == m.changes.len() + 1
            &&& m.observed(e, now).changes.last().added == seq![e]
            &&& m.observed(e, now).changes.last().removed.len() == 0
            &&& m.observed(e, now).changes.last().detected_at == now
        },
        m.edges.contains(e) ==> m.observed(e, now) == m,
{
}

/// A graph is drawn with one line for each edge, in order, that names both services
/// and the kind of the dependency.
pub proof fn law_edges_are_drawn_line_by_line(edges: Seq<EdgeModel>, e: EdgeModel)
    ensures
        dot_lines(Seq::<EdgeModel>::empty()).len() == 0,
        dot_lines(edges.push(e)) == dot_lines(edges) + ("  \""@ + e.from + "\" -> \""@ + e.to
            + "\" [label=\""@ + e.kind.spec_name() + "\"];\n"@),
        DependencyKind::SynchronousRpc.spec_name() == "SynchronousRpc"@,
        DependencyKind::AsyncMessage.spec_name() == "AsyncMessage"@,
        DependencyKind::DataStore.spec_name() == "DataStore"@,
{
    assert(edges.push(e).drop_last() =~= edges);
}

} // verus!
