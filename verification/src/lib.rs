//! Audio routing core: the route graph and its validation rules, the
//! network peer nodes, the engine session state machine, and the
//! byte-level decisions of the live router (capture, mix, render).

pub mod proto;
pub mod net;
pub mod engine;
mod ring;
pub mod router;
