//! The last stage of serving a graph: the graph in the shape of the schema
//! version that the client negotiated, together with that version.

use crate::errors::{GraphError, GraphErrorView};
use crate::graph::{Graph, GraphView};
use crate::string_map::StringMap;
use crate::versions::{
    cincinnati_versions, min_version_of, resolved_version, VersionTable, VersionTableView,
};
use vstd::prelude::*;

verus! {

/// The parameter under which a request carries its negotiated media type.
pub const CONTENT_TYPE_PARAM: &'static str = "content_type";

/// The last schema version without conditional edges.
pub const LEGACY_VERSION: i32 = 1;

/// The parameters of a request, by name.
pub type Parameters = StringMap<String>;

/// What a stage takes and gives: a graph, and the parameters of the request
/// it is shaped for.
#[derive(Debug)]
pub struct InternalIO {
    pub graph: Graph,
    pub parameters: Parameters,
}

/// A graph with the version of the schema it is written in.
#[derive(Debug)]
pub struct VersionedGraph {
    pub version: i32,
    pub graph: Graph,
}

/// The graph as a client of the legacy schema gets it: without conditional
/// edges, and otherwise unchanged.
pub open spec fn legacy_shape(graph: GraphView) -> GraphView {
    GraphView { dag: graph.dag, conditional_edges: None }
}

/// The graph as a client of schema version `version` gets it: unchanged for a
/// version beyond the legacy one, in the legacy shape for any other.
pub open spec fn shaped(graph: GraphView, version: i32) -> GraphView {
    if version > LEGACY_VERSION {
        graph
    } else {
        legacy_shape(graph)
    }
}

/// The media type that the parameters of a request name, if they name one.
pub open spec fn content_type_of(parameters: Map<Seq<char>, String>) -> Option<Seq<char>> {
    if parameters.contains_key(CONTENT_TYPE_PARAM@) {
        Some(parameters[CONTENT_TYPE_PARAM@]@)
    } else {
        None
    }
}

impl VersionedGraph {
    /// The name of this stage.
    pub const PLUGIN_NAME: &'static str = "versioned-graph";

    /// The graph of `io` for the client whose negotiated media type the
    /// parameters of `io` name, by the table of this service.
    pub fn versioned_graph(io: &InternalIO) -> (r: Result<VersionedGraph, GraphError>)
        ensures
            r matches Ok(versioned) && Some(versioned.version) == resolved_version(
                cincinnati_versions(),
                content_type_of(io.parameters@),
            ) && versioned.graph@ == shaped(io.graph@, versioned.version),
    {
        let table = VersionTable::cincinnati();
        assert(min_version_of(table@) is Some);
        VersionedGraph::versioned_graph_by(&table, io)
    }

    /// The graph of `io` for the client whose negotiated media type the
    /// parameters of `io` name, by the table `table`. It fails only for a
    /// table that lacks its own default media type.
    pub fn versioned_graph_by(table: &VersionTable, io: &InternalIO) -> (r: Result<
        VersionedGraph,
        GraphError,
    >)
        ensures
            match r {
                Ok(versioned) => Some(versioned.version) == resolved_version(
                    table@,
                    content_type_of(io.parameters@),
                ) && versioned.graph@ == shaped(io.graph@, versioned.version)
                    && versioned.version >= 1,
                Err(e) => min_version_of(table@) is None && e@
                    == GraphErrorView::MissingMinimumVersion,
            },
    {
        let content_type = match io.parameters.get(CONTENT_TYPE_PARAM) {
            Some(media_type) => Some(media_type.as_str()),
            None => None,
        };
        let graph_version = match table.resolve(content_type) {
            Ok(version) => version,
            Err(e) => {
                return Err(e);
            },
        };
        Ok(
            VersionedGraph {
                version: graph_version,
                graph: if graph_version > LEGACY_VERSION {
                    VersionedGraph::v2_graph(&io.graph)
                } else {
                    VersionedGraph::v1_graph(&io.graph)
                },
            },
        )
    }

    /// The graph in the legacy shape.
    pub fn v1_graph(graph: &Graph) -> (r: Graph)
        ensures
            r@ == legacy_shape(graph@),
    {
        Graph { dag: graph.dag.clone(), conditional_edges: None }
    }

    /// The graph as it is.
    pub fn v2_graph(graph: &Graph) -> (r: Graph)
        ensures
            r@ == graph@,
    {
        graph.clone()
    }
}

/// Shaping a graph for the legacy schema a second time changes nothing.
pub proof fn lemma_legacy_shape_idempotent(graph: GraphView)
    ensures
        legacy_shape(legacy_shape(graph)) == legacy_shape(graph),
{
}

/// Shaping a graph for one version a second time changes nothing.
pub proof fn lemma_shaped_idempotent(graph: GraphView, version: i32)
    ensures
        shaped(shaped(graph, version), version) == shaped(graph, version),
{
}

/// Shaping changes nothing about the releases and their edges, whatever the
/// version.
pub proof fn lemma_shaped_keeps_dag(graph: GraphView, version: i32)
    ensures
        shaped(graph, version).dag == graph.dag,
{
}

/// A graph without conditional edges has the same shape under every version.
pub proof fn lemma_shaped_without_conditional_edges(graph: GraphView, a: i32, b: i32)
    requires
        graph.conditional_edges is None,
    ensures
        shaped(graph, a) == shaped(graph, b),
        shaped(graph, a) == graph,
{
}

/// A resolved version is one that the table holds: the version of the media
/// type asked for, or else the minimum version.
pub proof fn lemma_resolved_version_in_table(
    table: VersionTableView,
    content_type: Option<Seq<char>>,
)
    requires
        resolved_version(table, content_type) is Some,
    ensures
        min_version_of(table) is Some,
        resolved_version(table, content_type) == min_version_of(table) || exists|
            media_type: Seq<char>,
        |
            table.versions.contains_key(media_type) && Some(#[trigger] table.versions[media_type])
                == resolved_version(table, content_type),
        table.versions.values().contains(resolved_version(table, content_type)->0),
{
    let version = resolved_version(table, content_type)->0;
    match content_type {
        Some(media_type) if table.versions.contains_key(media_type) => {
            assert(table.versions[media_type] == version);
        },
        _ => {
            assert(table.versions[table.default_media_type] == version);
        },
    }
}

/// A request that names no media type, or one that the table lacks, gets the
/// minimum version.
pub proof fn lemma_unknown_gets_minimum(table: VersionTableView, content_type: Option<Seq<char>>)
    requires
        content_type matches Some(media_type) ==> !table.versions.contains_key(media_type),
    ensures
        resolved_version(table, content_type) == min_version_of(table),
{
}

} // verus!
