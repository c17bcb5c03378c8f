use gugle::engine::{EngineController, EngineState};
use gugle::proto::{sample_graph, RouteEdge, RouteValidationError};

#[test]
fn starts_and_stops_stub_session() {
    let mut controller = EngineController::new();
    let running = controller.start_loopback_session().unwrap();
    assert_eq!(running.state, EngineState::Running);
    assert_eq!(running.active_session.as_deref(), Some("default-loopback-session"));

    let stopped = controller.stop_session();
    assert_eq!(stopped.state, EngineState::Stopped);
    assert_eq!(stopped.active_session, None);
}

#[test]
fn delegates_route_validation() {
    let controller = EngineController::new();
    let edge = RouteEdge {
        source_id: "network-output-game-pc".into(),
        target_id: "network-input-stream-pc".into(),
    };

    assert_eq!(
        controller.validate_edge(&edge),
        Err(RouteValidationError::NetworkToNetworkForbidden)
    );
}

#[test]
fn new_engine_is_stopped_on_the_sample_graph() {
    let controller = EngineController::new();
    let snapshot = controller.snapshot();
    assert_eq!(snapshot.state, EngineState::Stopped);
    assert_eq!(snapshot.active_session, None);
    assert_eq!(snapshot.processed_frames, 0);
    assert_eq!(controller.graph(), &sample_graph());
}

#[test]
fn default_is_new() {
    let controller = EngineController::default();
    assert_eq!(controller.snapshot(), EngineController::new().snapshot());
    assert_eq!(controller.graph(), &sample_graph());
}

#[test]
fn start_records_loopback_frames() {
    let mut controller = EngineController::new();
    let running = controller.start_loopback_session().unwrap();
    assert_eq!(running.processed_frames, 480);
    assert_eq!(controller.snapshot(), running);
}

#[test]
fn stop_keeps_frame_count_and_graph() {
    let mut controller = EngineController::new();
    controller.start_loopback_session().unwrap();
    let stopped = controller.stop_session();
    assert_eq!(stopped.processed_frames, 480);
    assert_eq!(controller.snapshot(), stopped);
    assert_eq!(controller.graph(), &sample_graph());
}

#[test]
fn starting_twice_equals_starting_once() {
    let mut controller = EngineController::new();
    let first = controller.start_loopback_session().unwrap();
    let second = controller.start_loopback_session().unwrap();
    assert_eq!(first, second);
    let s1 = controller.stop_session();
    let s2 = controller.stop_session();
    assert_eq!(s1, s2);
}

#[test]
fn stopping_a_stopped_engine_is_harmless() {
    let mut controller = EngineController::new();
    let stopped = controller.stop_session();
    assert_eq!(stopped.state, EngineState::Stopped);
    assert_eq!(stopped.active_session, None);
    assert_eq!(stopped.processed_frames, 0);
}

#[test]
fn running_exactly_when_a_session_is_active() {
    let mut controller = EngineController::new();
    for _ in 0..3 {
        let s = controller.start_loopback_session().unwrap();
        assert_eq!(s.state == EngineState::Running, s.active_session.is_some());
        let s = controller.stop_session();
        assert_eq!(s.state == EngineState::Running, s.active_session.is_some());
    }
}
