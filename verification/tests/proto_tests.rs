use gugle::proto::{
    sample_graph, NodeDirection, RouteEdge, RouteGraph, RouteNode, RouteValidationError,
    TransportKind,
};

fn edge(source: &str, target: &str) -> RouteEdge {
    RouteEdge { source_id: source.into(), target_id: target.into() }
}

#[test]
fn allows_local_to_network() {
    let graph = sample_graph();
    let edge = RouteEdge {
        source_id: "local-input-loopback".into(),
        target_id: "network-input-stream-pc".into(),
    };

    assert_eq!(graph.validate_edge(&edge), Ok(()));
}

#[test]
fn rejects_network_to_network() {
    let graph = sample_graph();
    let edge = RouteEdge {
        source_id: "network-output-game-pc".into(),
        target_id: "network-input-stream-pc".into(),
    };

    assert_eq!(
        graph.validate_edge(&edge),
        Err(RouteValidationError::NetworkToNetworkForbidden)
    );
}

#[test]
fn rejects_wrong_direction() {
    let graph = sample_graph();
    let edge = RouteEdge {
        source_id: "virtual-input-cable-a".into(),
        target_id: "network-input-stream-pc".into(),
    };

    assert_eq!(graph.validate_edge(&edge), Err(RouteValidationError::DirectionMismatch));
}

#[test]
fn rejects_self_route_before_lookup() {
    let graph = sample_graph();
    assert_eq!(
        graph.validate_edge(&edge("nowhere", "nowhere")),
        Err(RouteValidationError::SelfRouteForbidden)
    );
    assert_eq!(
        graph.validate_edge(&edge("local-input-loopback", "local-input-loopback")),
        Err(RouteValidationError::SelfRouteForbidden)
    );
}

#[test]
fn reports_missing_source_with_its_id() {
    let graph = sample_graph();
    assert_eq!(
        graph.validate_edge(&edge("missing-node", "network-input-stream-pc")),
        Err(RouteValidationError::SourceNotFound("missing-node".into()))
    );
}

#[test]
fn reports_missing_target_with_its_id() {
    let graph = sample_graph();
    assert_eq!(
        graph.validate_edge(&edge("local-input-loopback", "missing-node")),
        Err(RouteValidationError::TargetNotFound("missing-node".into()))
    );
}

#[test]
fn missing_source_is_reported_before_missing_target() {
    let graph = sample_graph();
    assert_eq!(
        graph.validate_edge(&edge("missing-a", "missing-b")),
        Err(RouteValidationError::SourceNotFound("missing-a".into()))
    );
}

#[test]
fn direction_is_checked_on_target_too() {
    let graph = sample_graph();
    assert_eq!(
        graph.validate_edge(&edge("local-input-loopback", "virtual-output-cable-a")),
        Err(RouteValidationError::DirectionMismatch)
    );
}

#[test]
fn direction_is_checked_before_network_rule() {
    let graph = sample_graph();
    assert_eq!(
        graph.validate_edge(&edge("network-input-stream-pc", "network-output-game-pc")),
        Err(RouteValidationError::DirectionMismatch)
    );
}

#[test]
fn allows_network_to_local_and_virtual_routes() {
    let graph = sample_graph();
    assert_eq!(graph.validate_edge(&edge("network-output-game-pc", "local-output-speakers")), Ok(()));
    assert_eq!(graph.validate_edge(&edge("virtual-output-cable-a", "virtual-input-cable-a")), Ok(()));
    assert_eq!(graph.validate_edge(&edge("local-input-loopback", "local-output-speakers")), Ok(()));
}

#[test]
fn first_node_with_an_id_decides() {
    let node = |id: &str, transport: TransportKind, direction: NodeDirection| RouteNode {
        id: id.into(),
        name: id.into(),
        transport,
        direction,
    };
    let graph = RouteGraph {
        nodes: vec![
            node("a", TransportKind::Local, NodeDirection::Output),
            node("b", TransportKind::Local, NodeDirection::Input),
            node("a", TransportKind::Local, NodeDirection::Input),
        ],
        edges: vec![],
    };
    assert_eq!(graph.validate_edge(&edge("a", "b")), Ok(()));
    assert_eq!(graph.validate_edge(&edge("b", "a")), Err(RouteValidationError::DirectionMismatch));
}

#[test]
fn existing_edges_do_not_change_the_verdict() {
    let mut graph = sample_graph();
    let e = edge("local-input-loopback", "network-input-stream-pc");
    graph.edges.push(e.clone());
    assert_eq!(graph.validate_edge(&e), Ok(()));
}

#[test]
fn sample_graph_has_the_six_example_nodes() {
    let graph = sample_graph();
    let expected = [
        ("local-output-speakers", "Speakers", TransportKind::Local, NodeDirection::Input),
        ("local-input-loopback", "Desktop Loopback", TransportKind::Local, NodeDirection::Output),
        ("virtual-input-cable-a", "Gugle Cable A In", TransportKind::Virtual, NodeDirection::Input),
        ("virtual-output-cable-a", "Gugle Cable A Out", TransportKind::Virtual, NodeDirection::Output),
        ("network-input-stream-pc", "Network Input: Stream PC", TransportKind::Network, NodeDirection::Input),
        ("network-output-game-pc", "Network Output: Game PC", TransportKind::Network, NodeDirection::Output),
    ];
    assert_eq!(graph.nodes.len(), expected.len());
    for (node, (id, name, transport, direction)) in graph.nodes.iter().zip(expected.iter()) {
        assert_eq!(node.id, *id);
        assert_eq!(node.name, *name);
        assert_eq!(node.transport, *transport);
        assert_eq!(node.direction, *direction);
    }
    assert!(graph.edges.is_empty());
}

#[test]
fn refusals_have_their_messages() {
    assert_eq!(RouteValidationError::SourceNotFound("x".into()).message(), "source node was not found");
    assert_eq!(RouteValidationError::TargetNotFound("x".into()).message(), "target node was not found");
    assert_eq!(
        RouteValidationError::DirectionMismatch.message(),
        "routes must connect an output to an input"
    );
    assert_eq!(
        RouteValidationError::NetworkToNetworkForbidden.message(),
        "network nodes cannot connect directly to network nodes"
    );
    assert_eq!(RouteValidationError::SelfRouteForbidden.message(), "self-routing is not allowed");
}
