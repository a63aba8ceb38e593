use cincinnati::versions::MIN_CINCINNATI_VERSION;
use cincinnati::errors::GraphError;
use cincinnati::graph::{Graph, Release};
use cincinnati::string_map::StringMap;
use cincinnati::versioned_graph::{InternalIO, Parameters, VersionedGraph};
use cincinnati::versions::VersionTable;

type TestMetadata = Vec<(usize, Vec<(String, String)>)>;

fn generate_custom_graph(
    image: &str,
    metadata: TestMetadata,
    edges: Option<Vec<(usize, usize)>>,
) -> Graph {
    let mut graph = Graph::default();
    let count = metadata.len();
    for (version, pairs) in metadata {
        let mut release_metadata: StringMap<String> = StringMap::new();
        for (key, value) in pairs {
            release_metadata.insert(key, value);
        }
        let release = Release {
            version: format!("{}.0.0", version),
            payload: format!("{}/{}", image, version),
            metadata: release_metadata,
        };
        graph.dag.add_release(release).unwrap();
    }
    let edges = match edges {
        Some(edges) => edges,
        None => (1..count).map(|to| (to - 1, to)).collect(),
    };
    for (from, to) in edges {
        graph.dag.add_edge(from, to).unwrap();
    }
    graph
}

fn get_min_version() -> Result<i32, GraphError> {
    VersionTable::cincinnati().min_version()
}

#[test]
fn min_version_if_missing() {
    let input_graph: Graph = {
        let metadata: TestMetadata = vec![(1, vec![])];
        generate_custom_graph("image", metadata, None)
    };

    let versioned_graph = VersionedGraph::versioned_graph(&InternalIO {
        graph: input_graph,
        parameters: Default::default(),
    })
    .unwrap();

    assert_eq!(versioned_graph.version, get_min_version().unwrap());
}

#[test]
fn ensure_min_on_unsupported() {
    let input_graph: Graph = {
        let metadata: TestMetadata = vec![(1, vec![])];
        generate_custom_graph("image", metadata, None)
    };

    let mut plugin_params: Parameters = Parameters::new();
    plugin_params.insert(String::from("version"), "application/json".to_string());

    let versioned_graph = VersionedGraph::versioned_graph(&InternalIO {
        graph: input_graph,
        parameters: plugin_params,
    })
    .unwrap();

    assert_eq!(versioned_graph.version, get_min_version().unwrap());
}

#[test]
fn ensure_version_1() {
    let input_graph: Graph = {
        let metadata: TestMetadata = vec![(1, vec![])];
        generate_custom_graph("image", metadata, None)
    };

    let mut plugin_params: Parameters = Parameters::new();
    plugin_params.insert(String::from("version"), MIN_CINCINNATI_VERSION.to_string());

    let versioned_graph = VersionedGraph::versioned_graph(&InternalIO {
        graph: input_graph,
        parameters: plugin_params,
    })
    .unwrap();

    assert_eq!(versioned_graph.version, 1);
}
