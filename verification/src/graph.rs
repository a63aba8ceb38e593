//! The update graph: releases, the update edges between them, and the risks
//! that may be attached to edges.
//!
//! That the edges form no cycle, and that every edge that a conditional edge
//! names is an edge of the graph, is owed by whoever builds the graph.
//! Neither is checked here.

use crate::conditional_edges::{ConditionalEdge, ConditionalEdgeView};
use crate::seqs::{lemma_views_cloned, lemma_views_push, views};
use crate::string_map::{text_values, StringMap};
use vstd::prelude::*;

verus! {

/// One release: a version of the software that clients can run.
#[derive(Debug)]
pub struct Release {
    /// The version, by which the release is known in the graph.
    pub version: String,
    /// Where the release's payload is found.
    pub payload: String,
    pub metadata: StringMap<String>,
}

/// The mathematical value of a [`Release`].
pub struct ReleaseView {
    pub version: Seq<char>,
    pub payload: Seq<char>,
    pub metadata: Map<Seq<char>, Seq<char>>,
}

impl View for Release {
    type V = ReleaseView;

    open spec fn view(&self) -> ReleaseView {
        ReleaseView {
            version: self.version@,
            payload: self.payload@,
            metadata: text_values(self.metadata@),
        }
    }
}

impl Clone for Release {
    fn clone(&self) -> (r: Self)
        ensures
            r@ == self@,
    {
        let metadata = self.metadata.clone();
        assert(text_values(metadata@) =~= text_values(self.metadata@)) by {
            assert forall|key: Seq<char>| #[trigger]
                self.metadata@.contains_key(key) implies metadata@[key] == self.metadata@[key] by {
                assert(cloned::<String>(self.metadata@[key], metadata@[key]));
            }
        }
        Release { version: self.version.clone(), payload: self.payload.clone(), metadata }
    }
}

/// Why a release or an edge was not added to a graph.
#[derive(Debug, Clone, Copy, PartialEq, Eq, Structural)]
pub enum DagError {
    /// The graph already has a release of that version.
    DuplicateRelease,
    /// An end of the edge is no release of the graph.
    UnknownRelease,
    /// The edge leads from a release to the same release.
    SelfLoop,
    /// The graph already has that edge.
    DuplicateEdge,
}

/// The mathematical value of a [`Dag`]: its releases in the order in which
/// they were added, and its edges in the order in which they were added, each
/// as the places of the releases it leaves and reaches.
pub struct DagView {
    pub nodes: Seq<ReleaseView>,
    pub edges: Seq<(usize, usize)>,
}

/// Whether a release of `nodes` has the version `version`.
pub open spec fn has_version(nodes: Seq<ReleaseView>, version: Seq<char>) -> bool {
    exists|i: int| 0 <= i < nodes.len() && (#[trigger] nodes[i]).version == version
}

/// The place in `nodes` of the release with the version `version`.
pub open spec fn version_index(nodes: Seq<ReleaseView>, version: Seq<char>) -> int {
    choose|i: int| 0 <= i < nodes.len() && (#[trigger] nodes[i]).version == version
}

/// What holds of every graph: no two releases share a version, every edge
/// joins two different releases of the graph, and no edge occurs twice.
pub open spec fn dag_well_formed(dag: DagView) -> bool {
    &&& forall|i: int, j: int|
        0 <= i < dag.nodes.len() && 0 <= j < dag.nodes.len() && i != j ==> (
        #[trigger] dag.nodes[i]).version != (#[trigger] dag.nodes[j]).version
    &&& forall|k: int|
        0 <= k < dag.edges.len() ==> {
            let e = #[trigger] dag.edges[k];
            e.0 < dag.nodes.len() && e.1 < dag.nodes.len() && e.0 != e.1
        }
    &&& forall|k: int, l: int|
        0 <= k < dag.edges.len() && 0 <= l < dag.edges.len() && k != l ==> #[trigger] dag.edges[k]
            != #[trigger] dag.edges[l]
}

/// Whether the graph has an edge from the release of version `from` to the
/// release of version `to`.
pub open spec fn has_edge_between(dag: DagView, from: Seq<char>, to: Seq<char>) -> bool {
    &&& has_version(dag.nodes, from)
    &&& has_version(dag.nodes, to)
    &&& dag.edges.contains(
        (version_index(dag.nodes, from) as usize, version_index(dag.nodes, to) as usize),
    )
}

/// The order of edges: by the release an edge leaves, then by the release it
/// reaches.
pub open spec fn edge_precedes(a: (usize, usize), b: (usize, usize)) -> bool {
    a.0 < b.0 || (a.0 == b.0 && a.1 < b.1)
}

/// Whether the edge `a` comes before the edge `b` in the order of edges.
pub fn edge_before(a: (usize, usize), b: (usize, usize)) -> (r: bool)
    ensures
        r == edge_precedes(a, b),
{
    a.0 < b.0 || (a.0 == b.0 && a.1 < b.1)
}

/// The order of edges is a strict total order: no edge comes before itself,
/// of two different edges one comes before the other, and an edge that comes
/// before a second, which comes before a third, comes before the third.
pub proof fn lemma_edge_order(a: (usize, usize), b: (usize, usize), c: (usize, usize))
    ensures
        !edge_precedes(a, a),
        a == b || edge_precedes(a, b) || edge_precedes(b, a),
        !(edge_precedes(a, b) && edge_precedes(b, a)),
        edge_precedes(a, b) && edge_precedes(b, c) ==> edge_precedes(a, c),
{
}

/// What adding the edge from place `from` to place `to` is refused for, if it
/// is refused.
pub open spec fn edge_refusal(dag: DagView, from: usize, to: usize) -> Option<DagError> {
    if from >= dag.nodes.len() || to >= dag.nodes.len() {
        Some(DagError::UnknownRelease)
    } else if from == to {
        Some(DagError::SelfLoop)
    } else if dag.edges.contains((from, to)) {
        Some(DagError::DuplicateEdge)
    } else {
        None
    }
}

/// The releases and the update edges between them.
#[derive(Debug)]
pub struct Dag {
    nodes: Vec<Release>,
    edges: Vec<(usize, usize)>,
}

impl View for Dag {
    type V = DagView;

    closed spec fn view(&self) -> DagView {
        DagView { nodes: views(self.nodes@), edges: self.edges@ }
    }
}

impl Dag {
    #[verifier::type_invariant]
    spec fn well_formed(&self) -> bool {
        dag_well_formed(self@)
    }

    /// The graph without releases.
    pub fn new() -> (r: Self)
        ensures
            r@.nodes == Seq::<ReleaseView>::empty(),
            r@.edges == Seq::<(usize, usize)>::empty(),
    {
        let r = Dag { nodes: Vec::new(), edges: Vec::new() };
        assert(r@.nodes =~= Seq::<ReleaseView>::empty());
        r
    }

    /// The releases, in the order in which they were added.
    pub fn releases(&self) -> (r: &Vec<Release>)
        ensures
            views(r@) == self@.nodes,
            dag_well_formed(self@),
    {
        proof {
            use_type_invariant(self);
        }
        &self.nodes
    }

    /// The edges, in the order in which they were added.
    pub fn edges(&self) -> (r: &Vec<(usize, usize)>)
        ensures
            r@ == self@.edges,
            dag_well_formed(self@),
    {
        proof {
            use_type_invariant(self);
        }
        &self.edges
    }

    /// The place of the release of version `version`, if the graph has one.
    pub fn find_release(&self, version: &str) -> (r: Option<usize>)
        ensures
            match r {
                Some(i) => has_version(self@.nodes, version@) && i == version_index(
                    self@.nodes,
                    version@,
                ) && i < self@.nodes.len(),
                None => !has_version(self@.nodes, version@),
            },
    {
        proof {
            use_type_invariant(self);
        }
        let mut i: usize = 0;
        while i < self.nodes.len()
            invariant
                i <= self.nodes.len(),
                dag_well_formed(self@),
                forall|k: int| 0 <= k < i ==> (#[trigger] self@.nodes[k]).version != version@,
            decreases self.nodes.len() - i,
        {
            if self.nodes[i].version.as_str().eq(version) {
                assert(self@.nodes[i as int].version == version@);
                return Some(i);
            }
            assert(self@.nodes[i as int] == self.nodes@[i as int]@);
            i = i + 1;
        }
        None
    }

    /// Whether the graph has a release of version `version`.
    pub fn has_release(&self, version: &str) -> (r: bool)
        ensures
            r == has_version(self@.nodes, version@),
    {
        self.find_release(version).is_some()
    }

    /// Whether the graph has the edge from place `from` to place `to`.
    pub fn has_edge_at(&self, from: usize, to: usize) -> (r: bool)
        ensures
            r == self@.edges.contains((from, to)),
    {
        let mut k: usize = 0;
        while k < self.edges.len()
            invariant
                k <= self.edges.len(),
                forall|l: int| 0 <= l < k ==> #[trigger] self.edges@[l] != (from, to),
            decreases self.edges.len() - k,
        {
            let e = self.edges[k];
            if e.0 == from && e.1 == to {
                assert(self@.edges[k as int] == (from, to));
                return true;
            }
            k = k + 1;
        }
        false
    }

    /// Whether the graph has an edge from the release of version `from` to
    /// the release of version `to`.
    pub fn has_edge(&self, from: &str, to: &str) -> (r: bool)
        ensures
            r == has_edge_between(self@, from@, to@),
    {
        match self.find_release(from) {
            None => false,
            Some(a) => match self.find_release(to) {
                None => false,
                Some(b) => self.has_edge_at(a, b),
            },
        }
    }

    /// Adds a release, unless the graph has one of the same version, and says
    /// at which place it stands.
    pub fn add_release(&mut self, release: Release) -> (r: Result<usize, DagError>)
        ensures
            match r {
                Ok(i) => !has_version(old(self)@.nodes, release@.version) && i == old(
                    self,
                )@.nodes.len() && final(self)@.nodes == old(self)@.nodes.push(release@)
                    && final(self)@.edges == old(self)@.edges,
                Err(e) => e == DagError::DuplicateRelease && has_version(
                    old(self)@.nodes,
                    release@.version,
                ) && final(self)@ == old(self)@,
            },
    {
        proof {
            use_type_invariant(&*self);
        }
        if self.find_release(release.version.as_str()).is_some() {
            return Err(DagError::DuplicateRelease);
        }
        let i = self.nodes.len();
        proof {
            lemma_views_push(self.nodes@, release);
            let after = views(self.nodes@).push(release@);
            assert forall|a: int, b: int|
                0 <= a < after.len() && 0 <= b < after.len() && a != b implies (
            #[trigger] after[a]).version != (#[trigger] after[b]).version by {
                if a < i {
                    assert(after[a] == self@.nodes[a]);
                }
                if b < i {
                    assert(after[b] == self@.nodes[b]);
                }
            }
        }
        let ghost before = self@;
        let mut edges: Vec<(usize, usize)> = Vec::new();
        std::mem::swap(&mut self.edges, &mut edges);
        let mut nodes: Vec<Release> = Vec::new();
        std::mem::swap(&mut self.nodes, &mut nodes);
        nodes.push(release);
        assert(views(nodes@) == before.nodes.push(release@));
        assert(edges@ == before.edges);
        self.nodes = nodes;
        assert forall|k: int| 0 <= k < edges@.len() implies {
            let e = #[trigger] edges@[k];
            e.0 < self.nodes@.len() && e.1 < self.nodes@.len() && e.0 != e.1
        } by {
            assert(edges@[k] == before.edges[k]);
        }
        self.edges = edges;
        Ok(i)
    }

    /// Adds the edge from place `from` to place `to`, unless it joins no two
    /// different releases of the graph or the graph has it already.
    pub fn add_edge(&mut self, from: usize, to: usize) -> (r: Result<(), DagError>)
        ensures
            match r {
                Ok(_) => edge_refusal(old(self)@, from, to) is None && final(self)@.nodes == old(
                    self,
                )@.nodes && final(self)@.edges == old(self)@.edges.push((from, to)),
                Err(e) => edge_refusal(old(self)@, from, to) == Some(e) && final(self)@ == old(
                    self,
                )@,
            },
    {
        proof {
            use_type_invariant(&*self);
        }
        if from >= self.nodes.len() || to >= self.nodes.len() {
            return Err(DagError::UnknownRelease);
        }
        if from == to {
            return Err(DagError::SelfLoop);
        }
        if self.has_edge_at(from, to) {
            return Err(DagError::DuplicateEdge);
        }
        let mut edges: Vec<(usize, usize)> = Vec::new();
        std::mem::swap(&mut self.edges, &mut edges);
        edges.push((from, to));
        self.edges = edges;
        Ok(())
    }
}

impl Clone for Dag {
    fn clone(&self) -> (r: Self)
        ensures
            r@ == self@,
    {
        proof {
            use_type_invariant(self);
        }
        let nodes = self.nodes.clone();
        let mut edges: Vec<(usize, usize)> = Vec::new();
        let mut k: usize = 0;
        while k < self.edges.len()
            invariant
                k <= self.edges.len(),
                edges@ == self.edges@.take(k as int),
            decreases self.edges.len() - k,
        {
            edges.push(self.edges[k]);
            assert(edges@ =~= self.edges@.take(k + 1));
            k = k + 1;
        }
        proof {
            lemma_views_cloned(self.nodes@, nodes@);
            assert(self.edges@.take(k as int) =~= self.edges@);
        }
        Dag { nodes, edges }
    }
}

impl Default for Dag {
    fn default() -> (r: Self)
        ensures
            r@.nodes == Seq::<ReleaseView>::empty(),
            r@.edges == Seq::<(usize, usize)>::empty(),
    {
        Dag::new()
    }
}

/// The update graph as it is handed from stage to stage: the releases with
/// their edges, and the risks attached to edges where the schema has them.
#[derive(Debug)]
pub struct Graph {
    pub dag: Dag,
    pub conditional_edges: Option<Vec<ConditionalEdge>>,
}

/// The mathematical value of a [`Graph`].
pub struct GraphView {
    pub dag: DagView,
    pub conditional_edges: Option<Seq<ConditionalEdgeView>>,
}

impl View for Graph {
    type V = GraphView;

    open spec fn view(&self) -> GraphView {
        GraphView {
            dag: self.dag@,
            conditional_edges: match self.conditional_edges {
                Some(edges) => Some(views(edges@)),
                None => None,
            },
        }
    }
}

impl Clone for Graph {
    fn clone(&self) -> (r: Self)
        ensures
            r@ == self@,
    {
        let conditional_edges = match &self.conditional_edges {
            Some(edges) => {
                let copy = edges.clone();
                proof {
                    lemma_views_cloned(edges@, copy@);
                }
                Some(copy)
            },
            None => None,
        };
        Graph { dag: self.dag.clone(), conditional_edges }
    }
}

impl Default for Graph {
    fn default() -> (r: Self)
        ensures
            r@.dag.nodes == Seq::<ReleaseView>::empty(),
            r@.dag.edges == Seq::<(usize, usize)>::empty(),
            r@.conditional_edges is None,
    {
        Graph { dag: Dag::new(), conditional_edges: None }
    }
}

} // verus!
