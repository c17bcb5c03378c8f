use gugle::router::{
    mix_quantum, open_rings, pad_to_quantum, plan_render, plan_routes, read_quantum, render_quantum,
    read_prefix, write_available, write_prefix, RenderHandle, RenderPlan, RingWrite, RouteDelivery,
    RouteLink, SourceBuffer,
    QUANTUM_BYTES, QUANTUM_MS, RING_CAPACITY,
};
use rtrb::RingBuffer;

fn ids(v: &[&str]) -> Vec<String> {
    v.iter().map(|s| s.to_string()).collect()
}

fn link(source: &str, sink: &str) -> RouteLink {
    RouteLink { source_device_id: source.into(), sink_device_id: sink.into() }
}

#[test]
fn constants_match_the_router_timing() {
    assert_eq!(RING_CAPACITY, 153600);
    assert_eq!(QUANTUM_BYTES, 4800);
    assert_eq!(QUANTUM_MS, 5);
}

#[test]
fn render_waits_when_device_buffer_is_full() {
    assert_eq!(plan_render(480, 480, 8, 1000), RenderPlan::Wait);
}

#[test]
fn render_copies_all_free_frames_when_enough_is_queued() {
    assert_eq!(plan_render(480, 80, 8, 4000), RenderPlan::Copy { frames: 400, bytes: 3200 });
    assert_eq!(plan_render(480, 80, 8, 3200), RenderPlan::Copy { frames: 400, bytes: 3200 });
}

#[test]
fn render_copies_whole_frames_of_what_is_queued() {
    assert_eq!(plan_render(480, 80, 8, 100), RenderPlan::Copy { frames: 12, bytes: 96 });
}

#[test]
fn render_fills_silence_below_one_frame() {
    assert_eq!(plan_render(480, 80, 8, 7), RenderPlan::Silence { frames: 400 });
    assert_eq!(plan_render(480, 0, 8, 0), RenderPlan::Silence { frames: 480 });
}

#[test]
fn render_with_zero_frame_size_never_divides() {
    assert_eq!(plan_render(480, 0, 0, 0), RenderPlan::Copy { frames: 480, bytes: 0 });
}

#[test]
fn read_quantum_pads_what_is_queued() {
    let (mut producer, mut consumer) = RingBuffer::<u8>::new(16);
    for b in [1u8, 2, 3] {
        producer.push(b).unwrap();
    }
    let read = read_quantum(&mut consumer, 6);
    assert_eq!(read.available, 3);
    assert!(read.filled);
    assert_eq!(read.bytes, vec![1, 2, 3, 0, 0, 0]);
    let read = read_quantum(&mut consumer, 4);
    assert_eq!(read.available, 0);
    assert_eq!(read.bytes, vec![0, 0, 0, 0]);
}

#[test]
fn read_quantum_takes_at_most_a_quantum() {
    let (mut producer, mut consumer) = RingBuffer::<u8>::new(16);
    for b in 1u8..=10 {
        producer.push(b).unwrap();
    }
    assert_eq!(read_quantum(&mut consumer, 4).bytes, vec![1, 2, 3, 4]);
    assert_eq!(read_quantum(&mut consumer, 4).bytes, vec![5, 6, 7, 8]);
    assert_eq!(read_quantum(&mut consumer, 4).bytes, vec![9, 10, 0, 0]);
}

#[test]
fn write_available_stops_at_free_room() {
    let (mut producer, mut consumer) = RingBuffer::<u8>::new(3);
    let write = write_available(&mut producer, &[9, 8, 7, 6, 5], 5);
    assert_eq!(write, RingWrite { room: 3, written: 3, refused: false });
    assert_eq!(consumer.pop(), Ok(9));
    assert_eq!(consumer.pop(), Ok(8));
    assert_eq!(consumer.pop(), Ok(7));
    assert!(consumer.pop().is_err());
    assert_eq!(
        write_available(&mut producer, &[1, 2, 3], 2),
        RingWrite { room: 3, written: 2, refused: false }
    );
    assert_eq!(consumer.pop(), Ok(1));
    assert_eq!(consumer.pop(), Ok(2));
    assert!(consumer.pop().is_err());
}

#[test]
fn render_quantum_takes_the_planned_bytes() {
    let (mut producer, mut consumer) = RingBuffer::<u8>::new(64);
    for b in 0u8..20 {
        producer.push(b).unwrap();
    }
    let step = render_quantum(&mut consumer, 10, 0, 4);
    assert_eq!(step.plan, RenderPlan::Copy { frames: 5, bytes: 20 });
    assert_eq!(step.data, (0u8..20).collect::<Vec<u8>>());
    let step = render_quantum(&mut consumer, 10, 0, 4);
    assert_eq!(step.plan, RenderPlan::Silence { frames: 10 });
    assert!(step.data.is_empty());
    let step = render_quantum(&mut consumer, 10, 10, 4);
    assert_eq!(step.plan, RenderPlan::Wait);
}

#[test]
fn open_rings_keeps_device_order() {
    let rings = open_rings(&ids(&["mic", "loop"]), &ids(&["spk"]));
    let cap: Vec<&str> = rings.captures.iter().map(|c| c.device_id.as_str()).collect();
    assert_eq!(cap, vec!["mic", "loop"]);
    assert_eq!(rings.capture_producers.len(), 2);
    let ren: Vec<&str> = rings.renders.iter().map(|r| r.device_id.as_str()).collect();
    assert_eq!(ren, vec!["spk"]);
    assert_eq!(rings.render_consumers.len(), 1);
    assert_eq!(rings.capture_producers[0].slots(), RING_CAPACITY);
}

#[test]
fn plan_routes_skips_missing_ends_and_keeps_order() {
    let sources = vec![
        SourceBuffer { device_id: "a".into(), available: 0, filled: true, bytes: vec![] },
        SourceBuffer { device_id: "b".into(), available: 0, filled: true, bytes: vec![] },
        SourceBuffer { device_id: "a".into(), available: 0, filled: true, bytes: vec![] },
    ];
    let (p1, _c1) = RingBuffer::<u8>::new(4);
    let (p2, _c2) = RingBuffer::<u8>::new(4);
    let (p3, _c3) = RingBuffer::<u8>::new(4);
    let renders = vec![
        RenderHandle { device_id: "x".into(), producer: p1 },
        RenderHandle { device_id: "y".into(), producer: p2 },
        RenderHandle { device_id: "x".into(), producer: p3 },
    ];
    let routes = vec![
        link("b", "x"),
        link("missing", "x"),
        link("a", "y"),
        link("b", "missing"),
        link("a", "x"),
    ];
    // A source id names the last capture with it; a sink id names the first render.
    assert_eq!(plan_routes(&routes, &sources, &renders), vec![(1, 0), (2, 1), (2, 0)]);
}

#[test]
fn mix_quantum_routes_source_audio_to_sinks() {
    let mut rings = open_rings(&ids(&["mic", "line"]), &ids(&["spk", "rec"]));
    for b in [10u8, 20, 30] {
        rings.capture_producers[0].push(b).unwrap();
    }
    rings.capture_producers[1].push(99).unwrap();
    let routes = vec![link("mic", "spk"), link("line", "rec"), link("mic", "nowhere")];
    let report = mix_quantum(&mut rings.captures, &mut rings.renders, &routes, 4);
    assert_eq!(report.sources.len(), 2);
    assert_eq!(report.sources[0].device_id, "mic");
    assert_eq!(report.sources[0].bytes, vec![10, 20, 30, 0]);
    assert_eq!(report.sources[1].device_id, "line");
    assert_eq!(report.sources[1].bytes, vec![99, 0, 0, 0]);
    assert_eq!(
        report.deliveries,
        vec![
            RouteDelivery { source: 0, sink: 0, room: RING_CAPACITY, written: 4, refused: false },
            RouteDelivery { source: 1, sink: 1, room: RING_CAPACITY, written: 4, refused: false },
        ]
    );
    let spk = &mut rings.render_consumers[0];
    let got: Vec<u8> = (0..4).map(|_| spk.pop().unwrap()).collect();
    assert_eq!(got, vec![10, 20, 30, 0]);
    assert!(spk.pop().is_err());
    let rec = &mut rings.render_consumers[1];
    let got: Vec<u8> = (0..4).map(|_| rec.pop().unwrap()).collect();
    assert_eq!(got, vec![99, 0, 0, 0]);
}

#[test]
fn mix_quantum_writes_only_what_fits() {
    let (cp, cc) = RingBuffer::<u8>::new(8);
    let (rp, mut rc) = RingBuffer::<u8>::new(2);
    let mut captures = vec![gugle::router::CaptureHandle { device_id: "s".into(), consumer: cc }];
    let mut renders = vec![RenderHandle { device_id: "k".into(), producer: rp }];
    let mut cp = cp;
    for b in [1u8, 2, 3] {
        cp.push(b).unwrap();
    }
    let report = mix_quantum(&mut captures, &mut renders, &vec![link("s", "k")], 3);
    assert_eq!(report.deliveries, vec![RouteDelivery { source: 0, sink: 0, room: 2, written: 2, refused: false }]);
    assert_eq!(rc.pop(), Ok(1));
    assert_eq!(rc.pop(), Ok(2));
    assert!(rc.pop().is_err());
}

#[test]
fn pad_to_quantum_appends_zeros() {
    assert_eq!(pad_to_quantum(vec![7, 8], 5), vec![7, 8, 0, 0, 0]);
    assert_eq!(pad_to_quantum(vec![1, 2, 3], 3), vec![1, 2, 3]);
    assert_eq!(pad_to_quantum(vec![], 2), vec![0, 0]);
}

#[test]
fn mix_quantum_appends_routes_to_one_sink_in_table_order() {
    let mut rings = open_rings(&ids(&["a", "b"]), &ids(&["out"]));
    rings.capture_producers[0].push(1).unwrap();
    rings.capture_producers[1].push(2).unwrap();
    rings.capture_producers[1].push(3).unwrap();
    let routes = vec![link("b", "out"), link("a", "out")];
    let report = mix_quantum(&mut rings.captures, &mut rings.renders, &routes, 3);
    assert_eq!(
        report.deliveries,
        vec![
            RouteDelivery { source: 1, sink: 0, room: RING_CAPACITY, written: 3, refused: false },
            RouteDelivery { source: 0, sink: 0, room: RING_CAPACITY - 3, written: 3, refused: false },
        ]
    );
    let out = &mut rings.render_consumers[0];
    let got: Vec<u8> = (0..6).map(|_| out.pop().unwrap()).collect();
    assert_eq!(got, vec![2, 3, 0, 1, 0, 0]);
    assert!(out.pop().is_err());
}

#[test]
fn read_prefix_takes_min_of_observed_and_quantum() {
    let (mut producer, mut consumer) = RingBuffer::<u8>::new(16);
    for b in [4u8, 5, 6, 7] {
        producer.push(b).unwrap();
    }
    let read = read_prefix(&mut consumer, 2, 3);
    assert_eq!(read.available, 2);
    assert!(read.filled);
    assert_eq!(read.bytes, vec![4, 5, 0]);
    let read = read_prefix(&mut consumer, 5, 3);
    assert!(!read.filled);
    assert_eq!(read.bytes, vec![0, 0, 0]);
    assert_eq!(consumer.pop(), Ok(6));
}

#[test]
fn write_prefix_writes_min_of_limit_and_room() {
    let (mut producer, mut consumer) = RingBuffer::<u8>::new(2);
    assert_eq!(write_prefix(&mut producer, &[1, 2, 3], 3, 1), RingWrite { room: 1, written: 1, refused: false });
    assert_eq!(write_prefix(&mut producer, &[7, 8], 2, 5), RingWrite { room: 5, written: 0, refused: true });
    assert_eq!(write_prefix(&mut producer, &[9], 0, 5), RingWrite { room: 5, written: 0, refused: false });
    assert_eq!(consumer.pop(), Ok(1));
    assert!(consumer.pop().is_err());
}
