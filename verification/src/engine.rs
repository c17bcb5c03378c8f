//! The engine controller: the route graph it serves and its session state.

use vstd::prelude::*;
use crate::proto::{
    RouteEdge, RouteGraph, RouteGraphView, RouteValidationError, RouteValidationErrorView,
    edge_verdict, sample_graph, sample_graph_view,
};

verus! {

/// The lifecycle state of the engine.
#[derive(Debug, Clone, Copy, PartialEq, Eq, Structural)]
pub enum EngineState {
    Stopped,
    Starting,
    Running,
}

/// What a caller sees of the engine at one moment.
#[derive(Debug, Clone, PartialEq, Eq)]
pub struct EngineSnapshot {
    pub state: EngineState,
    pub active_session: Option<String>,
    pub processed_frames: u64,
}

/// The error type of `anyhow`, carried opaquely; no function here produces one.
#[verifier::external_type_specification]
#[verifier::external_body]
pub struct ExAnyhowError(anyhow::Error);

/// Owns the route graph and the state of the current session.
pub struct EngineController {
    graph: RouteGraph,
    state: EngineState,
    active_session: Option<String>,
    processed_frames: u64,
}

/// The value of a snapshot, with the session name as a character sequence.
pub struct EngineSnapshotView {
    pub state: EngineState,
    pub active_session: Option<Seq<char>>,
    pub processed_frames: u64,
}

/// The value of an engine controller.
pub struct EngineView {
    pub graph: RouteGraphView,
    pub state: EngineState,
    pub active_session: Option<Seq<char>>,
    pub processed_frames: u64,
}

pub open spec fn option_string_view(s: Option<String>) -> Option<Seq<char>> {
    match s {
        Some(v) => Some(v@),
        None => None,
    }
}

impl View for EngineSnapshot {
    type V = EngineSnapshotView;

    open spec fn view(&self) -> EngineSnapshotView {
        EngineSnapshotView {
            state: self.state,
            active_session: option_string_view(self.active_session),
            processed_frames: self.processed_frames,
        }
    }
}

impl View for EngineController {
    type V = EngineView;

    closed spec fn view(&self) -> EngineView {
        EngineView {
            graph: self.graph@,
            state: self.state,
            active_session: option_string_view(self.active_session),
            processed_frames: self.processed_frames,
        }
    }
}

/// The name of the session that `start_loopback_session` opens.
pub open spec fn loopback_session_name() -> Seq<char> {
    "default-loopback-session"@
}

/// The number of frames recorded as processed once the loopback session runs.
pub open spec fn loopback_frames() -> u64 {
    480
}

/// The engine as `new` makes it.
pub open spec fn initial_engine() -> EngineView {
    EngineView {
        graph: sample_graph_view(),
        state: EngineState::Stopped,
        active_session: None,
        processed_frames: 0,
    }
}

/// The engine after `start_loopback_session` on `e`.
pub open spec fn started(e: EngineView) -> EngineView {
    EngineView {
        graph: e.graph,
        state: EngineState::Running,
        active_session: Some(loopback_session_name()),
        processed_frames: loopback_frames(),
    }
}

/// The engine after `stop_session` on `e`.
pub open spec fn stopped(e: EngineView) -> EngineView {
    EngineView {
        graph: e.graph,
        state: EngineState::Stopped,
        active_session: None,
        processed_frames: e.processed_frames,
    }
}

/// What a snapshot of an engine in state `e` shows.
pub open spec fn snapshot_of(e: EngineView) -> EngineSnapshotView {
    EngineSnapshotView {
        state: e.state,
        active_session: e.active_session,
        processed_frames: e.processed_frames,
    }
}

/// The engine is at rest between calls: never mid-start, and running exactly
/// when a session is active.
pub open spec fn engine_settled(e: EngineView) -> bool {
    &&& e.state != EngineState::Starting
    &&& (e.state == EngineState::Running <==> e.active_session is Some)
}

fn clone_session(s: &Option<String>) -> (r: Option<String>)
    ensures
        option_string_view(r) == option_string_view(*s),
{
    match s {
        Some(v) => Some(v.clone()),
        None => None,
    }
}

impl EngineController {
    /// A stopped engine serving the example graph, with no session and no
    /// processed frames.
    pub fn new() -> (engine: Self)
        ensures
            engine@ == initial_engine(),
    {
        EngineController {
            graph: sample_graph(),
            state: EngineState::Stopped,
            active_session: None,
            processed_frames: 0,
        }
    }

    /// The route graph the engine serves.
    pub fn graph(&self) -> (graph: &RouteGraph)
        ensures
            graph@ == self@.graph,
    {
        &self.graph
    }

    /// The current state, session and frame count.
    pub fn snapshot(&self) -> (snapshot: EngineSnapshot)
        ensures
            snapshot@ == snapshot_of(self@),
    {
        EngineSnapshot {
            state: self.state,
            active_session: clone_session(&self.active_session),
            processed_frames: self.processed_frames,
        }
    }

    /// Validates `edge` against the engine's graph.
    pub fn validate_edge(&self, edge: &RouteEdge) -> (result: Result<(), RouteValidationError>)
        ensures
            match result {
                Ok(_) => edge_verdict(self@.graph, edge@) is Ok,
                Err(e) => edge_verdict(self@.graph, edge@) == Err::<(), RouteValidationErrorView>(e@),
            },
    {
        self.graph.validate_edge(edge)
    }

    /// Opens the loopback session: the engine passes through `Starting` and
    /// ends `Running` with the default loopback session and 480 processed
    /// frames. The graph is left as it was. Always succeeds.
    pub fn start_loopback_session(&mut self) -> (result: Result<EngineSnapshot, anyhow::Error>)
        ensures
            final(self)@ == started(old(self)@),
            result matches Ok(snapshot) && snapshot@ == snapshot_of(final(self)@),
    {
        self.state = EngineState::Starting;
        self.active_session = Some(String::from_str("default-loopback-session"));
        self.processed_frames = 480;
        self.state = EngineState::Running;
        Ok(self.snapshot())
    }

    /// Closes the session: the engine is `Stopped` with no session; the graph
    /// and the processed frame count are left as they were.
    pub fn stop_session(&mut self) -> (snapshot: EngineSnapshot)
        ensures
            final(self)@ == stopped(old(self)@),
            snapshot@ == snapshot_of(final(self)@),
    {
        self.state = EngineState::Stopped;
        self.active_session = None;
        self.snapshot()
    }
}

impl Default for EngineController {
    fn default() -> (engine: Self)
        ensures
            engine@ == initial_engine(),
    {
        Self::new()
    }
}

/// Law: every state that `new`, `start_loopback_session` and `stop_session`
/// leave behind is settled, whatever state they started from: never mid-start,
/// and running exactly when a session is active.
pub proof fn lemma_operations_leave_engine_settled(e: EngineView)
    ensures
        engine_settled(initial_engine()),
        engine_settled(started(e)),
        engine_settled(stopped(e)),
{
}

/// Law: neither starting nor stopping a session changes the route graph.
pub proof fn lemma_sessions_keep_graph(e: EngineView)
    ensures
        started(e).graph == e.graph,
        stopped(e).graph == e.graph,
{
}

/// Law: starting a session and then stopping it leaves a stopped engine with
/// no session, the same graph, and the frame count of the loopback session.
pub proof fn lemma_start_then_stop(e: EngineView)
    ensures
        stopped(started(e)) == (EngineView {
            graph: e.graph,
            state: EngineState::Stopped,
            active_session: None,
            processed_frames: loopback_frames(),
        }),
{
}

/// Law: starting twice is the same as starting once, and stopping twice is the
/// same as stopping once.
pub proof fn lemma_start_and_stop_idempotent(e: EngineView)
    ensures
        started(started(e)) == started(e),
        stopped(stopped(e)) == stopped(e),
{
}

} // verus!
