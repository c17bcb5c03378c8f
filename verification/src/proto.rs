//! The route graph: nodes, edges, and the rules an edge must obey.

use vstd::prelude::*;

verus! {

/// How a node reaches the machine.
#[derive(Debug, Clone, Copy, PartialEq, Eq, Structural)]
pub enum TransportKind {
    Local,
    Virtual,
    Network,
}

/// Whether a node takes audio in or gives audio out.
#[derive(Debug, Clone, Copy, PartialEq, Eq, Structural)]
pub enum NodeDirection {
    Input,
    Output,
}

/// A node of the route graph.
#[derive(Debug, Clone, PartialEq, Eq)]
pub struct RouteNode {
    pub id: String,
    pub name: String,
    pub transport: TransportKind,
    pub direction: NodeDirection,
}

/// A directed connection from the node `source_id` to the node `target_id`.
#[derive(Debug, Clone, PartialEq, Eq)]
pub struct RouteEdge {
    pub source_id: String,
    pub target_id: String,
}

/// The nodes and edges of the routing setup.
#[derive(Debug, Clone, PartialEq, Eq)]
pub struct RouteGraph {
    pub nodes: Vec<RouteNode>,
    pub edges: Vec<RouteEdge>,
}

/// Why an edge was refused.
#[derive(Debug, Clone, PartialEq, Eq)]
pub enum RouteValidationError {
    SourceNotFound(String),
    TargetNotFound(String),
    DirectionMismatch,
    NetworkToNetworkForbidden,
    SelfRouteForbidden,
}

/// The mathematical value of a node: its strings as character sequences.
pub struct RouteNodeView {
    pub id: Seq<char>,
    pub name: Seq<char>,
    pub transport: TransportKind,
    pub direction: NodeDirection,
}

pub struct RouteEdgeView {
    pub source_id: Seq<char>,
    pub target_id: Seq<char>,
}

pub struct RouteGraphView {
    pub nodes: Seq<RouteNodeView>,
    pub edges: Seq<RouteEdgeView>,
}

pub enum RouteValidationErrorView {
    SourceNotFound(Seq<char>),
    TargetNotFound(Seq<char>),
    DirectionMismatch,
    NetworkToNetworkForbidden,
    SelfRouteForbidden,
}

impl View for RouteNode {
    type V = RouteNodeView;

    open spec fn view(&self) -> RouteNodeView {
        RouteNodeView {
            id: self.id@,
            name: self.name@,
            transport: self.transport,
            direction: self.direction,
        }
    }
}

impl View for RouteEdge {
    type V = RouteEdgeView;

    open spec fn view(&self) -> RouteEdgeView {
        RouteEdgeView { source_id: self.source_id@, target_id: self.target_id@ }
    }
}

impl View for RouteGraph {
    type V = RouteGraphView;

    open spec fn view(&self) -> RouteGraphView {
        RouteGraphView {
            nodes: self.nodes@.map_values(|n: RouteNode| n@),
            edges: self.edges@.map_values(|e: RouteEdge| e@),
        }
    }
}

impl View for RouteValidationError {
    type V = RouteValidationErrorView;

    open spec fn view(&self) -> RouteValidationErrorView {
        match self {
            RouteValidationError::SourceNotFound(s) => RouteValidationErrorView::SourceNotFound(s@),
            RouteValidationError::TargetNotFound(s) => RouteValidationErrorView::TargetNotFound(s@),
            RouteValidationError::DirectionMismatch => RouteValidationErrorView::DirectionMismatch,
            RouteValidationError::NetworkToNetworkForbidden => RouteValidationErrorView::NetworkToNetworkForbidden,
            RouteValidationError::SelfRouteForbidden => RouteValidationErrorView::SelfRouteForbidden,
        }
    }
}

/// The human-readable text of each refusal.
pub open spec fn error_message(e: RouteValidationErrorView) -> Seq<char> {
    match e {
        RouteValidationErrorView::SourceNotFound(_) => "source node was not found"@,
        RouteValidationErrorView::TargetNotFound(_) => "target node was not found"@,
        RouteValidationErrorView::DirectionMismatch => "routes must connect an output to an input"@,
        RouteValidationErrorView::NetworkToNetworkForbidden => "network nodes cannot connect directly to network nodes"@,
        RouteValidationErrorView::SelfRouteForbidden => "self-routing is not allowed"@,
    }
}

impl RouteValidationError {
    /// The text shown for this refusal.
    pub fn message(&self) -> (text: String)
        ensures
            text@ == error_message(self@),
    {
        match self {
            RouteValidationError::SourceNotFound(_) => String::from_str("source node was not found"),
            RouteValidationError::TargetNotFound(_) => String::from_str("target node was not found"),
            RouteValidationError::DirectionMismatch => String::from_str(
                "routes must connect an output to an input",
            ),
            RouteValidationError::NetworkToNetworkForbidden => String::from_str(
                "network nodes cannot connect directly to network nodes",
            ),
            RouteValidationError::SelfRouteForbidden => String::from_str("self-routing is not allowed"),
        }
    }
}

/// Some node of `nodes` carries the id `id`.
pub open spec fn has_node(nodes: Seq<RouteNodeView>, id: Seq<char>) -> bool {
    exists|i: int| 0 <= i < nodes.len() && #[trigger] nodes[i].id == id
}

/// `i` is the position of the first node of `nodes` that carries the id `id`.
pub open spec fn is_first_with_id(nodes: Seq<RouteNodeView>, id: Seq<char>, i: int) -> bool {
    &&& 0 <= i < nodes.len()
    &&& nodes[i].id == id
    &&& forall|j: int| 0 <= j < i ==> #[trigger] nodes[j].id != id
}

/// The first node of `nodes` that carries the id `id` (meaningful when `has_node(nodes, id)`).
pub open spec fn first_node_with_id(nodes: Seq<RouteNodeView>, id: Seq<char>) -> RouteNodeView {
    nodes[choose|i: int| is_first_with_id(nodes, id, i)]
}

/// What validating `edge` against `graph` answers: the rules checked in order,
/// self-route first, then the existence of both ends (the first node with each id
/// stands for that id), then the directions, then the network restriction.
pub open spec fn edge_verdict(graph: RouteGraphView, edge: RouteEdgeView) -> Result<
    (),
    RouteValidationErrorView,
> {
    if edge.source_id == edge.target_id {
        Err(RouteValidationErrorView::SelfRouteForbidden)
    } else if !has_node(graph.nodes, edge.source_id) {
        Err(RouteValidationErrorView::SourceNotFound(edge.source_id))
    } else if !has_node(graph.nodes, edge.target_id) {
        Err(RouteValidationErrorView::TargetNotFound(edge.target_id))
    } else {
        let source = first_node_with_id(graph.nodes, edge.source_id);
        let target = first_node_with_id(graph.nodes, edge.target_id);
        if source.direction != NodeDirection::Output || target.direction != NodeDirection::Input {
            Err(RouteValidationErrorView::DirectionMismatch)
        } else if source.transport == TransportKind::Network && target.transport
            == TransportKind::Network {
            Err(RouteValidationErrorView::NetworkToNetworkForbidden)
        } else {
            Ok(())
        }
    }
}

/// A first match is unique, so `first_node_with_id` picks it.
pub proof fn lemma_first_with_id_unique(nodes: Seq<RouteNodeView>, id: Seq<char>, i: int)
    requires
        is_first_with_id(nodes, id, i),
    ensures
        first_node_with_id(nodes, id) == nodes[i],
        has_node(nodes, id),
{
    let k: int = choose|k: int| is_first_with_id(nodes, id, k);
    assert(is_first_with_id(nodes, id, k));
    if k < i {
        assert(nodes[k].id != id);
    } else if i < k {
        assert(nodes[i].id != id);
    }
}

/// Finds the position of the first node whose id is `id`.
fn find_node(nodes: &Vec<RouteNode>, id: &String) -> (found: Option<usize>)
    ensures
        match found {
            Some(i) => is_first_with_id(nodes@.map_values(|n: RouteNode| n@), id@, i as int),
            None => !has_node(nodes@.map_values(|n: RouteNode| n@), id@),
        },
{
    let ghost views = nodes@.map_values(|n: RouteNode| n@);
    let mut i: usize = 0;
    while i < nodes.len()
        invariant
            i <= nodes.len(),
            views == nodes@.map_values(|n: RouteNode| n@),
            forall|j: int| 0 <= j < i ==> #[trigger] views[j].id != id@,
        decreases nodes.len() - i,
    {
        if nodes[i].id == *id {
            assert(views[i as int].id == id@);
            return Some(i);
        }
        assert(views[i as int].id != id@);
        i = i + 1;
    }
    proof {
        assert forall|j: int| 0 <= j < views.len() implies #[trigger] views[j].id != id@ by {}
    }
    None
}

impl RouteGraph {
    /// Checks `edge` against the routing rules: no self-routes, both ends must
    /// exist, the source must be an output and the target an input, and a
    /// network node may not feed another network node directly.
    pub fn validate_edge(&self, edge: &RouteEdge) -> (result: Result<(), RouteValidationError>)
        ensures
            match result {
                Ok(_) => edge_verdict(self@, edge@) is Ok,
                Err(e) => edge_verdict(self@, edge@) == Err::<(), RouteValidationErrorView>(e@),
            },
    {
        if edge.source_id == edge.target_id {
            return Err(RouteValidationError::SelfRouteForbidden);
        }
        let ghost views = self.nodes@.map_values(|n: RouteNode| n@);
        let source_index: usize = match find_node(&self.nodes, &edge.source_id) {
            Some(i) => i,
            None => {
                return Err(RouteValidationError::SourceNotFound(edge.source_id.clone()));
            },
        };
        let target_index: usize = match find_node(&self.nodes, &edge.target_id) {
            Some(i) => i,
            None => {
                return Err(RouteValidationError::TargetNotFound(edge.target_id.clone()));
            },
        };
        proof {
            lemma_first_with_id_unique(views, edge.source_id@, source_index as int);
            lemma_first_with_id_unique(views, edge.target_id@, target_index as int);
        }
        let source = &self.nodes[source_index];
        let target = &self.nodes[target_index];
        if source.direction != NodeDirection::Output || target.direction != NodeDirection::Input {
            return Err(RouteValidationError::DirectionMismatch);
        }
        if source.transport == TransportKind::Network && target.transport == TransportKind::Network {
            return Err(RouteValidationError::NetworkToNetworkForbidden);
        }
        Ok(())
    }
}

/// One node of the built-in example graph, as a value.
pub open spec fn node_view(id: Seq<char>, name: Seq<char>, transport: TransportKind, direction: NodeDirection) -> RouteNodeView {
    RouteNodeView { id, name, transport, direction }
}

/// The built-in example graph: a local output and input, a virtual cable pair,
/// and one network input and output, with no edges.
pub open spec fn sample_graph_view() -> RouteGraphView {
    RouteGraphView {
        nodes: seq![
            node_view("local-output-speakers"@, "Speakers"@, TransportKind::Local, NodeDirection::Input),
            node_view("local-input-loopback"@, "Desktop Loopback"@, TransportKind::Local, NodeDirection::Output),
            node_view("virtual-input-cable-a"@, "Gugle Cable A In"@, TransportKind::Virtual, NodeDirection::Input),
            node_view("virtual-output-cable-a"@, "Gugle Cable A Out"@, TransportKind::Virtual, NodeDirection::Output),
            node_view("network-input-stream-pc"@, "Network Input: Stream PC"@, TransportKind::Network, NodeDirection::Input),
            node_view("network-output-game-pc"@, "Network Output: Game PC"@, TransportKind::Network, NodeDirection::Output),
        ],
        edges: Seq::empty(),
    }
}

fn make_node(id: &str, name: &str, transport: TransportKind, direction: NodeDirection) -> (node: RouteNode)
    ensures
        node@ == node_view(id@, name@, transport, direction),
{
    RouteNode { id: String::from_str(id), name: String::from_str(name), transport, direction }
}

/// Builds the example graph that the engine starts with.
pub fn sample_graph() -> (graph: RouteGraph)
    ensures
        graph@ == sample_graph_view(),
{
    let mut nodes: Vec<RouteNode> = Vec::new();
    nodes.push(make_node("local-output-speakers", "Speakers", TransportKind::Local, NodeDirection::Input));
    nodes.push(make_node("local-input-loopback", "Desktop Loopback", TransportKind::Local, NodeDirection::Output));
    nodes.push(make_node("virtual-input-cable-a", "Gugle Cable A In", TransportKind::Virtual, NodeDirection::Input));
    nodes.push(make_node("virtual-output-cable-a", "Gugle Cable A Out", TransportKind::Virtual, NodeDirection::Output));
    nodes.push(make_node("network-input-stream-pc", "Network Input: Stream PC", TransportKind::Network, NodeDirection::Input));
    nodes.push(make_node("network-output-game-pc", "Network Output: Game PC", TransportKind::Network, NodeDirection::Output));
    let graph = RouteGraph { nodes, edges: Vec::new() };
    assert(graph@.nodes =~= sample_graph_view().nodes);
    assert(graph@.edges =~= sample_graph_view().edges);
    graph
}

/// Law: an accepted edge joins two distinct existing nodes, runs from an output
/// to an input, and does not join two network nodes.
pub proof fn lemma_accepted_edge_obeys_rules(graph: RouteGraphView, edge: RouteEdgeView)
    requires
        edge_verdict(graph, edge) is Ok,
    ensures
        edge.source_id != edge.target_id,
        has_node(graph.nodes, edge.source_id),
        has_node(graph.nodes, edge.target_id),
        first_node_with_id(graph.nodes, edge.source_id).direction == NodeDirection::Output,
        first_node_with_id(graph.nodes, edge.target_id).direction == NodeDirection::Input,
        !(first_node_with_id(graph.nodes, edge.source_id).transport == TransportKind::Network
            && first_node_with_id(graph.nodes, edge.target_id).transport == TransportKind::Network),
{
}

/// Law: once the lookups succeed, the verdict is decided by the two nodes found
/// alone. With distinct ids whose first nodes sit at `s` and `t`: the edge is
/// accepted exactly when it runs from an output to an input and the two nodes
/// are not both network nodes; it is refused as a direction mismatch exactly
/// when it does not run from an output to an input; and it is refused as a
/// network-to-network route exactly when it does and both nodes are network
/// nodes. In particular a network node may feed a local or virtual input, and
/// a local or virtual output may feed a network input.
pub proof fn lemma_verdict_after_lookup(graph: RouteGraphView, edge: RouteEdgeView, s: int, t: int)
    requires
        edge.source_id != edge.target_id,
        is_first_with_id(graph.nodes, edge.source_id, s),
        is_first_with_id(graph.nodes, edge.target_id, t),
    ensures
        (edge_verdict(graph, edge) is Ok) <==> (graph.nodes[s].direction == NodeDirection::Output
            && graph.nodes[t].direction == NodeDirection::Input && !(graph.nodes[s].transport
            == TransportKind::Network && graph.nodes[t].transport == TransportKind::Network)),
        (edge_verdict(graph, edge) == Err::<(), RouteValidationErrorView>(
            RouteValidationErrorView::DirectionMismatch,
        )) <==> !(graph.nodes[s].direction == NodeDirection::Output && graph.nodes[t].direction
            == NodeDirection::Input),
        (edge_verdict(graph, edge) == Err::<(), RouteValidationErrorView>(
            RouteValidationErrorView::NetworkToNetworkForbidden,
        )) <==> (graph.nodes[s].direction == NodeDirection::Output && graph.nodes[t].direction
            == NodeDirection::Input && graph.nodes[s].transport == TransportKind::Network
            && graph.nodes[t].transport == TransportKind::Network),
{
    lemma_first_with_id_unique(graph.nodes, edge.source_id, s);
    lemma_first_with_id_unique(graph.nodes, edge.target_id, t);
}

/// Law: the refusals that come before the lookup results are used. An edge is
/// refused as a self-route exactly when its two ids are equal; otherwise it is
/// refused for a missing source exactly when no node carries the source id,
/// naming that id; and otherwise for a missing target exactly when no node
/// carries the target id, naming that id.
pub proof fn lemma_verdict_before_lookup(graph: RouteGraphView, edge: RouteEdgeView)
    ensures
        (edge_verdict(graph, edge) == Err::<(), RouteValidationErrorView>(
            RouteValidationErrorView::SelfRouteForbidden,
        )) <==> edge.source_id == edge.target_id,
        edge.source_id != edge.target_id ==> ((edge_verdict(graph, edge) == Err::<
            (),
            RouteValidationErrorView,
        >(RouteValidationErrorView::SourceNotFound(edge.source_id))) <==> !(exists|i: int|
            0 <= i < graph.nodes.len() && #[trigger] graph.nodes[i].id == edge.source_id)),
        edge.source_id != edge.target_id && (exists|i: int|
            0 <= i < graph.nodes.len() && #[trigger] graph.nodes[i].id == edge.source_id) ==> ((
        edge_verdict(graph, edge) == Err::<(), RouteValidationErrorView>(
            RouteValidationErrorView::TargetNotFound(edge.target_id),
        )) <==> !(exists|i: int| 0 <= i < graph.nodes.len() && #[trigger] graph.nodes[i].id == edge.target_id)),
{
}

/// Law: the verdict on an edge depends on the nodes of the graph only, not on
/// the edges already present.
pub proof fn lemma_verdict_depends_on_nodes_only(
    graph1: RouteGraphView,
    graph2: RouteGraphView,
    edge: RouteEdgeView,
)
    requires
        graph1.nodes == graph2.nodes,
    ensures
        edge_verdict(graph1, edge) == edge_verdict(graph2, edge),
{
}

} // verus!
