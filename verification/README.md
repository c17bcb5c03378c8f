# gugle

The core of an audio routing desk, verified with Verus.

- `src/proto.rs` — the route graph (local, virtual and network nodes, inputs
  and outputs) and the rules an edge must obey; `validate_edge` is proved to
  answer exactly the ordered rules of `edge_verdict`.
- `src/net.rs` — network peers and the input/output node pair made for each.
- `src/engine.rs` — the engine controller: the graph it serves and its session
  state machine (stopped, starting, running).
- `src/router.rs` — the live router's work per quantum: reading capture rings,
  joining routes to sources and sinks, writing render rings, and the render
  decision for a device buffer. Each ring end has a history (the bytes pushed
  or popped through it). Each read and write returns the amount its ring held
  or had room for when it looked, and the contracts state, in terms of that
  amount, how many and which bytes the step moved. What amount a ring shows at
  a given moment depends on the thread at its other end and is not stated, nor
  is the link between a ring's two ends.
- `src/ring.rs` — the `rtrb` ring-buffer calls the router makes, with the
  contracts they are trusted to meet.

`app/` holds what stays outside the proofs: the UI command layer, the
serde/thiserror copies of the library's types, the mixer thread with its
floating-point peak levels, and (on Windows) the WASAPI device threads and the
level meter.
