use cincinnati::versions::MIN_CINCINNATI_VERSION;
use cincinnati::errors::GraphError;
use cincinnati::graph::{Graph, Release};
use cincinnati::pipeline::{run_pipeline, ShapeForVersion};
use cincinnati::string_map::StringMap;
use cincinnati::versioned_graph::{InternalIO, Parameters, VersionedGraph, CONTENT_TYPE_PARAM};
use cincinnati::versions::VersionTable;
use cincinnati::conditional_edges::ConditionalEdge;

const V2: &str = "application/vnd.redhat.cincinnati.v2+json";
const V3: &str = "application/vnd.redhat.cincinnati.v3+json";

fn two_versions() -> VersionTable {
    let mut table = VersionTable::new(MIN_CINCINNATI_VERSION.to_string());
    assert!(table.insert(MIN_CINCINNATI_VERSION.to_string(), 1));
    assert!(table.insert(V2.to_string(), 2));
    assert!(table.insert(V3.to_string(), 3));
    table
}

fn graph_with_risks() -> Graph {
    let mut graph = Graph::default();
    for version in ["1.0.0", "1.1.0"] {
        graph
            .dag
            .add_release(Release {
                version: version.to_string(),
                payload: version.to_string(),
                metadata: StringMap::new(),
            })
            .unwrap();
    }
    graph.dag.add_edge(0, 1).unwrap();
    graph.conditional_edges = Some(vec![ConditionalEdge::default()]);
    graph
}

fn asking_for(media_type: Option<&str>) -> InternalIO {
    let mut parameters = Parameters::new();
    if let Some(media_type) = media_type {
        parameters.insert(CONTENT_TYPE_PARAM.to_string(), media_type.to_string());
    }
    InternalIO { graph: graph_with_risks(), parameters }
}

type TestStage = Box<dyn Fn(InternalIO) -> Result<InternalIO, GraphError>>;

fn shape(table: VersionTable) -> TestStage {
    let stage = ShapeForVersion { table };
    Box::new(move |io| stage.run(io))
}

fn add_release(version: &'static str) -> TestStage {
    Box::new(move |io| {
        let mut io = io;
        io.graph
            .dag
            .add_release(Release {
                version: version.to_string(),
                payload: version.to_string(),
                metadata: StringMap::new(),
            })
            .unwrap();
        Ok(io)
    })
}

fn fail(what: &'static str) -> TestStage {
    Box::new(move |_| Err(GraphError::DoesNotExist(what.to_string())))
}

#[test]
fn version_by_negotiated_media_type() {
    let table = two_versions();
    let cases = [
        (None, 1, false),
        (Some(MIN_CINCINNATI_VERSION), 1, false),
        (Some(V2), 2, true),
        (Some(V3), 3, true),
        (Some("application/json"), 1, false),
        (Some(""), 1, false),
    ];
    for (media_type, version, keeps) in cases {
        let io = asking_for(media_type);
        let versioned = VersionedGraph::versioned_graph_by(&table, &io).unwrap();
        assert_eq!(versioned.version, version);
        assert_eq!(versioned.graph.conditional_edges.is_some(), keeps);
        assert_eq!(versioned.graph.dag.edges(), io.graph.dag.edges());
        assert_eq!(versioned.graph.dag.releases().len(), 2);
    }
}

#[test]
fn the_service_table_gives_version_one_to_all() {
    for media_type in [None, Some(MIN_CINCINNATI_VERSION), Some(V2), Some("text/plain")] {
        let versioned = VersionedGraph::versioned_graph(&asking_for(media_type)).unwrap();
        assert_eq!(versioned.version, 1);
        assert!(versioned.graph.conditional_edges.is_none());
        assert_eq!(versioned.graph.dag.edges(), &vec![(0, 1)]);
    }
    assert_eq!(VersionedGraph::PLUGIN_NAME, "versioned-graph");
}

#[test]
fn a_table_without_its_default_serves_nothing() {
    let mut table = VersionTable::new(MIN_CINCINNATI_VERSION.to_string());
    table.insert(V2.to_string(), 2);
    for media_type in [None, Some(V2), Some(MIN_CINCINNATI_VERSION)] {
        match VersionedGraph::versioned_graph_by(&table, &asking_for(media_type)) {
            Err(GraphError::MissingMinimumVersion) => {}
            other => panic!("unexpected outcome: {:?}", other),
        }
    }
    match table.min_version() {
        Err(GraphError::MissingMinimumVersion) => {}
        other => panic!("unexpected outcome: {:?}", other),
    }
}

#[test]
fn version_table_holds_positive_versions() {
    let mut table = two_versions();
    assert!(!table.insert("application/zero".to_string(), 0));
    assert!(!table.insert(V2.to_string(), -1));
    assert_eq!(table.get("application/zero"), None);
    assert_eq!(table.get(V2), Some(2));
    assert!(table.insert(V2.to_string(), 4));
    assert_eq!(table.get(V2), Some(4));
    assert_eq!(table.min_version().unwrap(), 1);
    assert_eq!(table.default_media_type(), MIN_CINCINNATI_VERSION);
    assert_eq!(table.resolve(None).unwrap(), 1);
    assert_eq!(table.resolve(Some(V3)).unwrap(), 3);
    assert_eq!(table.resolve(Some("unknown")).unwrap(), 1);
    let service = VersionTable::cincinnati();
    assert_eq!(service.get(MIN_CINCINNATI_VERSION), Some(1));
    assert_eq!(service.get(V2), None);
    assert_eq!(service.default_media_type(), "application/vnd.redhat.cincinnati.v1+json");
}

#[test]
fn an_empty_pipeline_changes_nothing() {
    let stages: Vec<TestStage> = Vec::new();
    let out = run_pipeline(&stages, asking_for(Some(V2))).unwrap();
    assert!(out.graph.conditional_edges.is_some());
    assert_eq!(out.graph.dag.releases().len(), 2);
    assert_eq!(out.parameters.get(CONTENT_TYPE_PARAM), Some(&V2.to_string()));
}

#[test]
fn stages_run_in_order() {
    let stages = vec![add_release("2.0.0"), shape(two_versions()), add_release("3.0.0")];
    let out = run_pipeline(&stages, asking_for(None)).unwrap();
    assert!(out.graph.conditional_edges.is_none());
    let versions: Vec<&str> =
        out.graph.dag.releases().iter().map(|release| release.version.as_str()).collect();
    assert_eq!(versions, vec!["1.0.0", "1.1.0", "2.0.0", "3.0.0"]);
    assert!(out.parameters.get(CONTENT_TYPE_PARAM).is_none());

    let kept = run_pipeline(&stages, asking_for(Some(V2))).unwrap();
    assert!(kept.graph.conditional_edges.is_some());
    assert_eq!(kept.graph.dag.releases().len(), 4);
}

#[test]
fn a_pipeline_stops_at_the_first_failure() {
    let stages = vec![
        add_release("2.0.0"),
        fail("first"),
        fail("second"),
        // would panic if it ran: the release is there already
        add_release("2.0.0"),
    ];
    match run_pipeline(&stages, asking_for(None)) {
        Err(GraphError::DoesNotExist(what)) => assert_eq!(what, "first"),
        other => panic!("unexpected outcome: {:?}", other.map(|io| io.parameters)),
    }
    let broken = vec![add_release("2.0.0"), shape(VersionTable::new("missing".to_string()))];
    match run_pipeline(&broken, asking_for(None)) {
        Err(GraphError::MissingMinimumVersion) => {}
        other => panic!("unexpected outcome: {:?}", other.map(|io| io.parameters)),
    }
}
