use bevy::core_pipeline::node;
use bevy::render::render_graph::Edge;
use bevy::render::render_graph::EmptyNode;
use bevy::render::render_graph::RenderGraph;
use shadowcast::render_graph::wire_light_pass;
use shadowcast::render_graph::EdgeError;
use shadowcast::render_graph::WiringError;
use shadowcast::render_graph::CLEAR_PASS_DRIVER;
use shadowcast::render_graph::LIGHT_PASS_DRIVER;
use shadowcast::render_graph::MAIN_PASS_DEPENDENCIES;
use shadowcast::render_graph::MAIN_PASS_DRIVER;

fn graph_with(names: &[&'static str]) -> RenderGraph {
    let mut graph = RenderGraph::default();
    for name in names {
        graph.add_node(*name, EmptyNode);
    }
    graph
}

fn has_edge(graph: &RenderGraph, first: &'static str, after: &'static str) -> bool {
    match (graph.get_node_id(first), graph.get_node_id(after)) {
        (Ok(output_node), Ok(input_node)) => {
            graph.has_edge(&Edge::NodeEdge { input_node, output_node })
        }
        _ => false,
    }
}

fn edge_count(graph: &RenderGraph) -> usize {
    graph.iter_nodes().map(|n| n.edges.input_edges().len()).sum()
}

#[test]
fn node_names_are_those_of_the_core_pipeline() {
    assert_eq!(CLEAR_PASS_DRIVER, node::CLEAR_PASS_DRIVER);
    assert_eq!(MAIN_PASS_DEPENDENCIES, node::MAIN_PASS_DEPENDENCIES);
    assert_eq!(MAIN_PASS_DRIVER, node::MAIN_PASS_DRIVER);
    assert_eq!(LIGHT_PASS_DRIVER, "light_pass_driver");
}

#[test]
fn wiring_puts_the_light_pass_between_clear_and_main_pass() {
    let mut graph = graph_with(&[
        CLEAR_PASS_DRIVER,
        MAIN_PASS_DEPENDENCIES,
        MAIN_PASS_DRIVER,
        LIGHT_PASS_DRIVER,
    ]);
    assert_eq!(wire_light_pass(&mut graph), Ok(()));
    assert!(has_edge(&graph, CLEAR_PASS_DRIVER, LIGHT_PASS_DRIVER));
    assert!(has_edge(&graph, MAIN_PASS_DEPENDENCIES, LIGHT_PASS_DRIVER));
    assert!(has_edge(&graph, LIGHT_PASS_DRIVER, MAIN_PASS_DRIVER));
    assert!(!has_edge(&graph, MAIN_PASS_DRIVER, LIGHT_PASS_DRIVER));
    assert_eq!(edge_count(&graph), 3);
    assert_eq!(graph.iter_nodes().count(), 4);
}

#[test]
fn wiring_keeps_the_edges_that_were_there() {
    let mut graph = graph_with(&[
        CLEAR_PASS_DRIVER,
        MAIN_PASS_DEPENDENCIES,
        MAIN_PASS_DRIVER,
        LIGHT_PASS_DRIVER,
    ]);
    graph.add_node_edge(CLEAR_PASS_DRIVER, MAIN_PASS_DRIVER).unwrap();
    graph.add_node_edge(MAIN_PASS_DEPENDENCIES, MAIN_PASS_DRIVER).unwrap();
    assert_eq!(wire_light_pass(&mut graph), Ok(()));
    assert!(has_edge(&graph, CLEAR_PASS_DRIVER, MAIN_PASS_DRIVER));
    assert!(has_edge(&graph, MAIN_PASS_DEPENDENCIES, MAIN_PASS_DRIVER));
    assert_eq!(edge_count(&graph), 5);
}

#[test]
fn wiring_without_the_light_pass_node_fails_at_once() {
    let mut graph = graph_with(&[CLEAR_PASS_DRIVER, MAIN_PASS_DEPENDENCIES, MAIN_PASS_DRIVER]);
    assert_eq!(
        wire_light_pass(&mut graph),
        Err(WiringError { edge: 0, cause: EdgeError::InvalidNode })
    );
    assert_eq!(edge_count(&graph), 0);
}

#[test]
fn wiring_without_the_clear_step_keeps_the_first_edge() {
    let mut graph = graph_with(&[MAIN_PASS_DEPENDENCIES, MAIN_PASS_DRIVER, LIGHT_PASS_DRIVER]);
    assert_eq!(
        wire_light_pass(&mut graph),
        Err(WiringError { edge: 1, cause: EdgeError::InvalidNode })
    );
    assert!(has_edge(&graph, MAIN_PASS_DEPENDENCIES, LIGHT_PASS_DRIVER));
    assert_eq!(edge_count(&graph), 1);
}

#[test]
fn wiring_without_the_main_pass_keeps_the_first_two_edges() {
    let mut graph = graph_with(&[CLEAR_PASS_DRIVER, MAIN_PASS_DEPENDENCIES, LIGHT_PASS_DRIVER]);
    assert_eq!(
        wire_light_pass(&mut graph),
        Err(WiringError { edge: 2, cause: EdgeError::InvalidNode })
    );
    assert!(has_edge(&graph, MAIN_PASS_DEPENDENCIES, LIGHT_PASS_DRIVER));
    assert!(has_edge(&graph, CLEAR_PASS_DRIVER, LIGHT_PASS_DRIVER));
    assert_eq!(edge_count(&graph), 2);
}

#[test]
fn wiring_twice_finds_the_first_edge_in_place() {
    let mut graph = graph_with(&[
        CLEAR_PASS_DRIVER,
        MAIN_PASS_DEPENDENCIES,
        MAIN_PASS_DRIVER,
        LIGHT_PASS_DRIVER,
    ]);
    assert_eq!(wire_light_pass(&mut graph), Ok(()));
    assert_eq!(
        wire_light_pass(&mut graph),
        Err(WiringError { edge: 0, cause: EdgeError::EdgeAlreadyExists })
    );
    assert_eq!(edge_count(&graph), 3);
}

#[test]
fn wiring_stops_at_an_edge_that_is_there_already() {
    let mut graph = graph_with(&[
        CLEAR_PASS_DRIVER,
        MAIN_PASS_DEPENDENCIES,
        MAIN_PASS_DRIVER,
        LIGHT_PASS_DRIVER,
    ]);
    graph.add_node_edge(LIGHT_PASS_DRIVER, MAIN_PASS_DRIVER).unwrap();
    assert_eq!(
        wire_light_pass(&mut graph),
        Err(WiringError { edge: 2, cause: EdgeError::EdgeAlreadyExists })
    );
    assert!(has_edge(&graph, MAIN_PASS_DEPENDENCIES, LIGHT_PASS_DRIVER));
    assert!(has_edge(&graph, CLEAR_PASS_DRIVER, LIGHT_PASS_DRIVER));
    assert_eq!(edge_count(&graph), 3);
}

#[test]
fn wiring_an_empty_graph_fails_at_once() {
    let mut graph = RenderGraph::default();
    assert_eq!(
        wire_light_pass(&mut graph),
        Err(WiringError { edge: 0, cause: EdgeError::InvalidNode })
    );
    assert_eq!(graph.iter_nodes().count(), 0);
}
