//! Wiring the light pass into the frame's render graph.
//!
//! The light pass runs after the frame's clear step and after everything the
//! main pass depends on, and before the main pass itself. That order is laid
//! down once, as edges of the render graph, and holds for every frame.

use vstd::prelude::*;
use bevy::render::render_graph::RenderGraph;
use bevy::render::render_graph::RenderGraphError;

verus! {

/// The node that drives the light pass.
pub const LIGHT_PASS_DRIVER: &'static str = "light_pass_driver";

/// The node that clears the frame's render targets.
pub const CLEAR_PASS_DRIVER: &'static str = "clear_pass_driver";

/// The node that stands for everything the main pass depends on.
pub const MAIN_PASS_DEPENDENCIES: &'static str = "main_pass_dependencies";

/// The node that drives the main pass.
pub const MAIN_PASS_DRIVER: &'static str = "main_pass_driver";

/// Makes the engine's `RenderGraph` known as a type. Nothing inside a graph
/// is seen from here; what this crate says of a graph it says through
/// `graph_nodes` and `graph_edges`.
#[verifier::external_type_specification]
#[verifier::external_body]
pub struct ExRenderGraph(RenderGraph);

/// The names under which a render graph holds a node.
pub uninterp spec fn graph_nodes(graph: RenderGraph) -> Set<Seq<char>>;

/// The ordering edges of a render graph between the nodes it holds under a
/// name: the pair `(first, after)` is in the set when the graph has a node
/// edge from the node named `first` to the node named `after`, by which the
/// first runs before the other. Edges that carry a slot are not counted.
pub uninterp spec fn graph_edges(graph: RenderGraph) -> Set<(Seq<char>, Seq<char>)>;

/// Why an edge could not be added.
#[derive(Clone, Copy, Debug, PartialEq, Eq, Structural)]
pub enum EdgeError {
    /// One of the two nodes is not in the graph.
    InvalidNode,
    /// The graph has the edge already.
    EdgeAlreadyExists,
    /// The graph refused the edge for another reason. The graph has none
    /// for an edge between two nodes; the case is here for graphs to come.
    Other,
}

/// Why the light pass could not be wired: which of its edges, counted from
/// zero, the graph refused, and why.
#[derive(Clone, Copy, Debug, PartialEq, Eq, Structural)]
pub struct WiringError {
    pub edge: usize,
    pub cause: EdgeError,
}

/// What comes of adding the edge from `first` to `after` to a graph with the
/// given nodes and edges.
pub open spec fn edge_outcome(
    nodes: Set<Seq<char>>,
    edges: Set<(Seq<char>, Seq<char>)>,
    first: Seq<char>,
    after: Seq<char>,
) -> Result<(), EdgeError> {
    if !nodes.contains(first) || !nodes.contains(after) {
        Err(EdgeError::InvalidNode)
    } else if edges.contains((first, after)) {
        Err(EdgeError::EdgeAlreadyExists)
    } else {
        Ok(())
    }
}

/// Calls `RenderGraph::add_node_edge` with the two node names.
///
/// Not proved, taken from the graph's source: the call looks both names up
/// and fails with `InvalidNode` if either is missing; it fails with
/// `EdgeAlreadyExists` if the edge is there; otherwise it records the edge
/// with both nodes. It never adds or removes a node, and a failed call
/// leaves the edges as they were. This is stated for graphs that were built
/// through the methods of `RenderGraph`, which keep the edge lists of the
/// two ends of every edge in step.
#[verifier::external_body]
fn add_node_edge(graph: &mut RenderGraph, first: &'static str, after: &'static str) -> (added:
    Result<(), EdgeError>)
    ensures
        graph_nodes(*final(graph)) == graph_nodes(*old(graph)),
        added == edge_outcome(graph_nodes(*old(graph)), graph_edges(*old(graph)), first@, after@),
        added is Ok ==> graph_edges(*final(graph)) == graph_edges(*old(graph)).insert(
            (first@, after@),
        ),
        added is Err ==> graph_edges(*final(graph)) == graph_edges(*old(graph)),
{
    match graph.add_node_edge(first, after) {
        Ok(()) => Ok(()),
        Err(RenderGraphError::InvalidNode(_)) => Err(EdgeError::InvalidNode),
        Err(RenderGraphError::EdgeAlreadyExists(_)) => Err(EdgeError::EdgeAlreadyExists),
        Err(_) => Err(EdgeError::Other),
    }
}

/// The edges that tie the light pass into the frame, in the order in which
/// they are added: after the dependencies of the main pass, after the clear
/// step, before the main pass.
pub open spec fn light_pass_edges() -> Seq<(Seq<char>, Seq<char>)> {
    seq![
        (MAIN_PASS_DEPENDENCIES@, LIGHT_PASS_DRIVER@),
        (CLEAR_PASS_DRIVER@, LIGHT_PASS_DRIVER@),
        (LIGHT_PASS_DRIVER@, MAIN_PASS_DRIVER@),
    ]
}

/// The given edges together with the first `count` edges of the light pass.
pub open spec fn with_edges(edges: Set<(Seq<char>, Seq<char>)>, count: int) -> Set<
    (Seq<char>, Seq<char>),
>
    decreases count,
{
    if count <= 0 {
        edges
    } else {
        with_edges(edges, count - 1).insert(light_pass_edges()[count - 1])
    }
}

/// Whether edge number `k` of the light pass can be added once those before
/// it are in the graph, and if not, why.
pub open spec fn outcome_at(nodes: Set<Seq<char>>, edges: Set<(Seq<char>, Seq<char>)>, k: int) -> Result<
    (),
    EdgeError,
> {
    edge_outcome(nodes, with_edges(edges, k), light_pass_edges()[k].0, light_pass_edges()[k].1)
}

/// How many edges of the light pass, of the first `upto`, go into a graph
/// with the given nodes and edges before it refuses one.
pub open spec fn accepted_edges(
    nodes: Set<Seq<char>>,
    edges: Set<(Seq<char>, Seq<char>)>,
    upto: int,
) -> int
    decreases upto,
{
    if upto <= 0 {
        0
    } else {
        let before = accepted_edges(nodes, edges, upto - 1);
        if before == upto - 1 && outcome_at(nodes, edges, upto - 1) is Ok {
            upto
        } else {
            before
        }
    }
}

/// What comes of wiring the light pass into a graph with the given nodes
/// and edges: success, or the first edge that the graph refuses and the
/// reason it gives.
pub open spec fn wiring_outcome(nodes: Set<Seq<char>>, edges: Set<(Seq<char>, Seq<char>)>) -> Result<
    (),
    WiringError,
> {
    let accepted = accepted_edges(nodes, edges, 3);
    if accepted == 3 {
        Ok(())
    } else {
        Err(
            WiringError {
                edge: accepted as usize,
                cause: outcome_at(nodes, edges, accepted)->Err_0,
            },
        )
    }
}

/// The edges of the graph after the wiring: the edges it had, and those
/// edges of the light pass that went in.
pub open spec fn wired_edges(nodes: Set<Seq<char>>, edges: Set<(Seq<char>, Seq<char>)>) -> Set<
    (Seq<char>, Seq<char>),
> {
    with_edges(edges, accepted_edges(nodes, edges, 3))
}

/// Adds the three edges of the light pass to the render graph, which has to
/// hold the node of the light pass by then.
///
/// The edges are added in order. The first one that the graph refuses ends
/// the wiring: the error names it, and the edges before it stay in the graph.
pub fn wire_light_pass(graph: &mut RenderGraph) -> (wired: Result<(), WiringError>)
    ensures
        graph_nodes(*final(graph)) == graph_nodes(*old(graph)),
        wired == wiring_outcome(graph_nodes(*old(graph)), graph_edges(*old(graph))),
        graph_edges(*final(graph)) == wired_edges(
            graph_nodes(*old(graph)),
            graph_edges(*old(graph)),
        ),
{
    proof {
        reveal_with_fuel(with_edges, 4);
        reveal_with_fuel(accepted_edges, 4);
    }
    match add_node_edge(graph, MAIN_PASS_DEPENDENCIES, LIGHT_PASS_DRIVER) {
        Ok(()) => {},
        Err(cause) => {
            return Err(WiringError { edge: 0, cause });
        },
    }
    match add_node_edge(graph, CLEAR_PASS_DRIVER, LIGHT_PASS_DRIVER) {
        Ok(()) => {},
        Err(cause) => {
            return Err(WiringError { edge: 1, cause });
        },
    }
    match add_node_edge(graph, LIGHT_PASS_DRIVER, MAIN_PASS_DRIVER) {
        Ok(()) => {},
        Err(cause) => {
            return Err(WiringError { edge: 2, cause });
        },
    }
    Ok(())
}

/// The four node names are four different names.
pub proof fn lemma_node_names_differ()
    ensures
        LIGHT_PASS_DRIVER@ != CLEAR_PASS_DRIVER@,
        LIGHT_PASS_DRIVER@ != MAIN_PASS_DEPENDENCIES@,
        LIGHT_PASS_DRIVER@ != MAIN_PASS_DRIVER@,
        CLEAR_PASS_DRIVER@ != MAIN_PASS_DEPENDENCIES@,
        CLEAR_PASS_DRIVER@ != MAIN_PASS_DRIVER@,
        MAIN_PASS_DEPENDENCIES@ != MAIN_PASS_DRIVER@,
{
    reveal_strlit("light_pass_driver");
    reveal_strlit("clear_pass_driver");
    reveal_strlit("main_pass_dependencies");
    reveal_strlit("main_pass_driver");
    assert(LIGHT_PASS_DRIVER@[0] != CLEAR_PASS_DRIVER@[0]);
    assert(MAIN_PASS_DEPENDENCIES@.len() == 22);
    assert(MAIN_PASS_DRIVER@.len() == 16);
}

/// The wiring succeeds exactly on a graph that holds the four nodes and
/// none of the three edges yet.
pub proof fn lemma_wiring_succeeds_iff(nodes: Set<Seq<char>>, edges: Set<(Seq<char>, Seq<char>)>)
    ensures
        wiring_outcome(nodes, edges) is Ok <==> {
            &&& nodes.contains(LIGHT_PASS_DRIVER@)
            &&& nodes.contains(CLEAR_PASS_DRIVER@)
            &&& nodes.contains(MAIN_PASS_DEPENDENCIES@)
            &&& nodes.contains(MAIN_PASS_DRIVER@)
            &&& !edges.contains((MAIN_PASS_DEPENDENCIES@, LIGHT_PASS_DRIVER@))
            &&& !edges.contains((CLEAR_PASS_DRIVER@, LIGHT_PASS_DRIVER@))
            &&& !edges.contains((LIGHT_PASS_DRIVER@, MAIN_PASS_DRIVER@))
        },
{
    reveal_with_fuel(with_edges, 4);
    reveal_with_fuel(accepted_edges, 4);
    lemma_node_names_differ();
}

/// Once the wiring has succeeded, the order of the passes is in the graph:
/// the clear step and the dependencies of the main pass run before the
/// light pass, and the light pass runs before the main pass. The edges that
/// the graph had before are all still there.
pub proof fn lemma_wired_passes_are_ordered(
    nodes: Set<Seq<char>>,
    edges: Set<(Seq<char>, Seq<char>)>,
)
    requires
        wiring_outcome(nodes, edges) is Ok,
    ensures
        wired_edges(nodes, edges).contains((CLEAR_PASS_DRIVER@, LIGHT_PASS_DRIVER@)),
        wired_edges(nodes, edges).contains((MAIN_PASS_DEPENDENCIES@, LIGHT_PASS_DRIVER@)),
        wired_edges(nodes, edges).contains((LIGHT_PASS_DRIVER@, MAIN_PASS_DRIVER@)),
        edges.subset_of(wired_edges(nodes, edges)),
{
    reveal_with_fuel(with_edges, 4);
    reveal_with_fuel(accepted_edges, 4);
}

} // verus!
