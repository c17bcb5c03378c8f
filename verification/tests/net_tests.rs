use gugle::net::{network_nodes_for_peer, LinkState, LinkStatus, NetworkEndpoint, TransportMode};
use gugle::proto::{NodeDirection, RouteEdge, RouteGraph, RouteValidationError, TransportKind};

fn endpoint(peer: &str, name: &str) -> NetworkEndpoint {
    NetworkEndpoint { peer_id: peer.into(), display_name: name.into(), mode: TransportMode::Opus }
}

#[test]
fn peer_nodes_are_named_after_the_peer() {
    let [input, output] = network_nodes_for_peer(&endpoint("studio", "Studio Mac"));
    assert_eq!(input.id, "network-input-studio");
    assert_eq!(input.name, "Network Input: Studio Mac");
    assert_eq!(input.transport, TransportKind::Network);
    assert_eq!(input.direction, NodeDirection::Input);
    assert_eq!(output.id, "network-output-studio");
    assert_eq!(output.name, "Network Output: Studio Mac");
    assert_eq!(output.transport, TransportKind::Network);
    assert_eq!(output.direction, NodeDirection::Output);
}

#[test]
fn peer_nodes_with_empty_names() {
    let [input, output] = network_nodes_for_peer(&endpoint("", ""));
    assert_eq!(input.id, "network-input-");
    assert_eq!(input.name, "Network Input: ");
    assert_eq!(output.id, "network-output-");
    assert_eq!(output.name, "Network Output: ");
}

#[test]
fn peer_to_peer_route_is_refused() {
    let [a_in, a_out] = network_nodes_for_peer(&endpoint("a", "A"));
    let [b_in, b_out] = network_nodes_for_peer(&endpoint("b", "B"));
    let graph = RouteGraph { nodes: vec![a_in.clone(), a_out.clone(), b_in.clone(), b_out.clone()], edges: vec![] };
    let cross = RouteEdge { source_id: a_out.id.clone(), target_id: b_in.id.clone() };
    assert_eq!(graph.validate_edge(&cross), Err(RouteValidationError::NetworkToNetworkForbidden));
    let own = RouteEdge { source_id: b_out.id.clone(), target_id: b_in.id.clone() };
    assert_eq!(graph.validate_edge(&own), Err(RouteValidationError::NetworkToNetworkForbidden));
}

#[test]
fn link_status_holds_its_endpoint() {
    let status = LinkStatus { endpoint: endpoint("p", "P"), state: LinkState::Connecting };
    assert_eq!(status.endpoint.peer_id, "p");
    assert_eq!(status.state, LinkState::Connecting);
    assert_ne!(TransportMode::Pcm, TransportMode::Opus);
}
