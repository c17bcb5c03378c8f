//! Network peers and the pair of route nodes that stands for each of them.

use vstd::prelude::*;
use crate::proto::{
    NodeDirection, RouteNode, RouteNodeView, TransportKind, edge_verdict, is_first_with_id,
    lemma_first_with_id_unique, RouteEdgeView, RouteGraphView, RouteValidationErrorView,
};

verus! {

/// The identifier of a network peer.
pub type PeerId = String;

/// How audio travels to and from a peer.
#[derive(Debug, Clone, PartialEq, Eq)]
pub enum TransportMode {
    Pcm,
    Opus,
}

/// A peer that audio can be sent to or received from.
#[derive(Debug, Clone, PartialEq, Eq)]
pub struct NetworkEndpoint {
    pub peer_id: PeerId,
    pub display_name: String,
    pub mode: TransportMode,
}

/// The connection state of a link to a peer.
#[derive(Debug, Clone, PartialEq, Eq)]
pub enum LinkState {
    Disconnected,
    Connecting,
    Connected,
}

/// A peer together with the state of its link.
#[derive(Debug, Clone, PartialEq, Eq)]
pub struct LinkStatus {
    pub endpoint: NetworkEndpoint,
    pub state: LinkState,
}

/// The input node of the peer with id `peer_id` and display name `display_name`.
pub open spec fn peer_input_node(peer_id: Seq<char>, display_name: Seq<char>) -> RouteNodeView {
    RouteNodeView {
        id: "network-input-"@ + peer_id,
        name: "Network Input: "@ + display_name,
        transport: TransportKind::Network,
        direction: NodeDirection::Input,
    }
}

/// The output node of the peer with id `peer_id` and display name `display_name`.
pub open spec fn peer_output_node(peer_id: Seq<char>, display_name: Seq<char>) -> RouteNodeView {
    RouteNodeView {
        id: "network-output-"@ + peer_id,
        name: "Network Output: "@ + display_name,
        transport: TransportKind::Network,
        direction: NodeDirection::Output,
    }
}

fn prefixed(prefix: &str, rest: &String) -> (s: String)
    ensures
        s@ == prefix@ + rest@,
{
    String::from_str(prefix).concat(rest.as_str())
}

/// The two route nodes that stand for a peer: first its input, then its output.
pub fn network_nodes_for_peer(endpoint: &NetworkEndpoint) -> (nodes: [RouteNode; 2])
    ensures
        nodes[0]@ == peer_input_node(endpoint.peer_id@, endpoint.display_name@),
        nodes[1]@ == peer_output_node(endpoint.peer_id@, endpoint.display_name@),
{
    [
        RouteNode {
            id: prefixed("network-input-", &endpoint.peer_id),
            name: prefixed("Network Input: ", &endpoint.display_name),
            transport: TransportKind::Network,
            direction: NodeDirection::Input,
        },
        RouteNode {
            id: prefixed("network-output-", &endpoint.peer_id),
            name: prefixed("Network Output: ", &endpoint.display_name),
            transport: TransportKind::Network,
            direction: NodeDirection::Output,
        },
    ]
}

/// Law: a peer's node ids carry its whole id after a fixed prefix, so the id
/// can be read back from either node id, distinct peers get distinct node ids,
/// and no input id is ever an output id.
pub proof fn lemma_peer_node_ids_injective(
    peer1: Seq<char>,
    name1: Seq<char>,
    peer2: Seq<char>,
    name2: Seq<char>,
)
    ensures
        peer_input_node(peer1, name1).id.len() == "network-input-"@.len() + peer1.len(),
        peer_input_node(peer1, name1).id.skip("network-input-"@.len() as int) == peer1,
        peer_output_node(peer1, name1).id.len() == "network-output-"@.len() + peer1.len(),
        peer_output_node(peer1, name1).id.skip("network-output-"@.len() as int) == peer1,
        peer_input_node(peer1, name1).id == peer_input_node(peer2, name2).id <==> peer1 == peer2,
        peer_output_node(peer1, name1).id == peer_output_node(peer2, name2).id <==> peer1 == peer2,
        peer_input_node(peer1, name1).id != peer_output_node(peer2, name2).id,
{
    let pin = "network-input-"@;
    let pout = "network-output-"@;
    assert((pin + peer1).skip(pin.len() as int) =~= peer1);
    assert((pin + peer2).skip(pin.len() as int) =~= peer2);
    assert((pout + peer1).skip(pout.len() as int) =~= peer1);
    assert((pout + peer2).skip(pout.len() as int) =~= peer2);
    reveal_strlit("network-input-");
    reveal_strlit("network-output-");
    assert((pin + peer1)[8] == 'i');
    assert((pout + peer2)[8] == 'o');
}

/// Law: in a graph where the nodes made for two peers (possibly the same peer)
/// are the nodes found for their ids, routing one peer's output straight into a
/// peer's input is refused as a network-to-network route.
pub proof fn lemma_peer_to_peer_route_refused(
    graph: RouteGraphView,
    source_peer: Seq<char>,
    source_name: Seq<char>,
    target_peer: Seq<char>,
    target_name: Seq<char>,
    source_index: int,
    target_index: int,
)
    requires
        graph.nodes[source_index] == peer_output_node(source_peer, source_name),
        graph.nodes[target_index] == peer_input_node(target_peer, target_name),
        is_first_with_id(graph.nodes, peer_output_node(source_peer, source_name).id, source_index),
        is_first_with_id(graph.nodes, peer_input_node(target_peer, target_name).id, target_index),
    ensures
        edge_verdict(
            graph,
            RouteEdgeView {
                source_id: peer_output_node(source_peer, source_name).id,
                target_id: peer_input_node(target_peer, target_name).id,
            },
        ) == Err::<(), RouteValidationErrorView>(RouteValidationErrorView::NetworkToNetworkForbidden),
{
    let out_id = peer_output_node(source_peer, source_name).id;
    let in_id = peer_input_node(target_peer, target_name).id;
    reveal_strlit("network-output-");
    reveal_strlit("network-input-");
    assert(out_id[8] == 'o');
    assert(in_id[8] == 'i');
    assert(out_id != in_id);
    lemma_first_with_id_unique(graph.nodes, out_id, source_index);
    lemma_first_with_id_unique(graph.nodes, in_id, target_index);
}

} // verus!
