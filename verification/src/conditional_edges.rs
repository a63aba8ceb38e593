//! Risks attached to update edges. A conditional edge says of some edges of
//! the graph that an update along them is unsafe on clusters that a risk's
//! matching rules select. The rules are passed through and never evaluated
//! here.

use crate::seqs::{lemma_views_cloned, views};
use vstd::prelude::*;

verus! {

/// An edge that a conditional edge applies to, by the versions at its ends.
#[derive(Debug)]
pub struct ConditionalUpdateEdge {
    pub from: String,
    pub to: String,
}

/// The mathematical value of a [`ConditionalUpdateEdge`].
pub struct ConditionalUpdateEdgeView {
    pub from: Seq<char>,
    pub to: Seq<char>,
}

impl View for ConditionalUpdateEdge {
    type V = ConditionalUpdateEdgeView;

    open spec fn view(&self) -> ConditionalUpdateEdgeView {
        ConditionalUpdateEdgeView { from: self.from@, to: self.to@ }
    }
}

impl Clone for ConditionalUpdateEdge {
    fn clone(&self) -> (r: Self)
        ensures
            r@ == self@,
    {
        ConditionalUpdateEdge { from: self.from.clone(), to: self.to.clone() }
    }
}

impl Default for ConditionalUpdateEdge {
    fn default() -> (r: Self)
        ensures
            r@ == (ConditionalUpdateEdgeView { from: Seq::empty(), to: Seq::empty() }),
    {
        ConditionalUpdateEdge { from: String::new(), to: String::new() }
    }
}

/// A query that a client runs against its own telemetry.
#[derive(Debug)]
pub struct PromQLClusterCondition {
    promql: String,
}

/// A condition under which a risk applies to a cluster.
#[derive(Debug)]
pub struct ClusterCondition {
    condition_type: String,
    promql: PromQLClusterCondition,
}

/// The mathematical value of a [`ClusterCondition`].
pub struct ClusterConditionView {
    pub condition_type: Seq<char>,
    pub promql: Seq<char>,
}

impl View for ClusterCondition {
    type V = ClusterConditionView;

    closed spec fn view(&self) -> ClusterConditionView {
        ClusterConditionView { condition_type: self.condition_type@, promql: self.promql.promql@ }
    }
}

impl ClusterCondition {
    /// The condition of the given type with the given query.
    pub fn new(condition_type: String, promql: String) -> (r: Self)
        ensures
            r@ == (ClusterConditionView { condition_type: condition_type@, promql: promql@ }),
    {
        ClusterCondition { condition_type, promql: PromQLClusterCondition { promql } }
    }

    /// The type of the condition.
    pub fn condition_type(&self) -> (r: &String)
        ensures
            r@ == self@.condition_type,
    {
        &self.condition_type
    }

    /// The query of the condition.
    pub fn promql(&self) -> (r: &String)
        ensures
            r@ == self@.promql,
    {
        &self.promql.promql
    }
}

impl Clone for ClusterCondition {
    fn clone(&self) -> (r: Self)
        ensures
            r@ == self@,
    {
        ClusterCondition {
            condition_type: self.condition_type.clone(),
            promql: PromQLClusterCondition { promql: self.promql.promql.clone() },
        }
    }
}

impl Default for ClusterCondition {
    fn default() -> (r: Self)
        ensures
            r@ == (ClusterConditionView { condition_type: Seq::empty(), promql: Seq::empty() }),
    {
        ClusterCondition {
            condition_type: String::new(),
            promql: PromQLClusterCondition { promql: String::new() },
        }
    }
}

/// A named hazard, with the rules that say which clusters it applies to.
#[derive(Debug)]
pub struct ConditionalUpdateRisk {
    pub url: String,
    pub name: String,
    pub message: String,
    pub matching_rules: Vec<ClusterCondition>,
}

/// The mathematical value of a [`ConditionalUpdateRisk`].
pub struct ConditionalUpdateRiskView {
    pub url: Seq<char>,
    pub name: Seq<char>,
    pub message: Seq<char>,
    pub matching_rules: Seq<ClusterConditionView>,
}

impl View for ConditionalUpdateRisk {
    type V = ConditionalUpdateRiskView;

    open spec fn view(&self) -> ConditionalUpdateRiskView {
        ConditionalUpdateRiskView {
            url: self.url@,
            name: self.name@,
            message: self.message@,
            matching_rules: views(self.matching_rules@),
        }
    }
}

impl Clone for ConditionalUpdateRisk {
    fn clone(&self) -> (r: Self)
        ensures
            r@ == self@,
    {
        let matching_rules = self.matching_rules.clone();
        proof {
            lemma_views_cloned(self.matching_rules@, matching_rules@);
        }
        ConditionalUpdateRisk {
            url: self.url.clone(),
            name: self.name.clone(),
            message: self.message.clone(),
            matching_rules,
        }
    }
}

impl Default for ConditionalUpdateRisk {
    fn default() -> (r: Self)
        ensures
            r@ == (ConditionalUpdateRiskView {
                url: Seq::empty(),
                name: Seq::empty(),
                message: Seq::empty(),
                matching_rules: Seq::empty(),
            }),
    {
        let r = ConditionalUpdateRisk {
            url: String::new(),
            name: String::new(),
            message: String::new(),
            matching_rules: Vec::new(),
        };
        assert(r@.matching_rules =~= Seq::empty());
        r
    }
}

/// Risks, and the edges they apply to.
#[derive(Debug)]
pub struct ConditionalEdge {
    /// A pattern for the edges, from an older form of the schema. It is read
    /// and never written out.
    pub edge_regex: ConditionalUpdateEdge,
    pub edges: Vec<ConditionalUpdateEdge>,
    pub risks: Vec<ConditionalUpdateRisk>,
}

/// The mathematical value of a [`ConditionalEdge`].
pub struct ConditionalEdgeView {
    pub edge_regex: ConditionalUpdateEdgeView,
    pub edges: Seq<ConditionalUpdateEdgeView>,
    pub risks: Seq<ConditionalUpdateRiskView>,
}

impl View for ConditionalEdge {
    type V = ConditionalEdgeView;

    open spec fn view(&self) -> ConditionalEdgeView {
        ConditionalEdgeView {
            edge_regex: self.edge_regex@,
            edges: views(self.edges@),
            risks: views(self.risks@),
        }
    }
}

impl Clone for ConditionalEdge {
    fn clone(&self) -> (r: Self)
        ensures
            r@ == self@,
    {
        let edges = self.edges.clone();
        let risks = self.risks.clone();
        proof {
            lemma_views_cloned(self.edges@, edges@);
            lemma_views_cloned(self.risks@, risks@);
        }
        ConditionalEdge { edge_regex: self.edge_regex.clone(), edges, risks }
    }
}

impl Default for ConditionalEdge {
    fn default() -> (r: Self)
        ensures
            r@ == (ConditionalEdgeView {
                edge_regex: ConditionalUpdateEdgeView { from: Seq::empty(), to: Seq::empty() },
                edges: Seq::empty(),
                risks: Seq::empty(),
            }),
    {
        let r = ConditionalEdge {
            edge_regex: ConditionalUpdateEdge::default(),
            edges: Vec::new(),
            risks: Vec::new(),
        };
        assert(r@.edges =~= Seq::empty());
        assert(r@.risks =~= Seq::empty());
        r
    }
}

} // verus!
