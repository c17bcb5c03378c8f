//! The byte-level work of the live router, one quantum at a time: what each
//! capture ring yields, which route feeds which render ring, how much a
//! capture or mix step may write, and what a render step sends to the device.
//! The threads, device handles, timing and sample levels stay with the caller.

use vstd::prelude::*;
use rtrb::{Consumer, Producer};
use crate::ring::{
    consumer_pop_into, consumer_slots, new_byte_ring, popped_bytes, producer_push_all,
    producer_slots, pushed_bytes,
};

verus! {

/// Bytes per ring: about 100 ms of 8-channel 32-bit audio at 48 kHz.
pub const RING_CAPACITY: usize = 48000 * 8 * 4 / 10;

/// Milliseconds between two mixer quanta.
pub const QUANTUM_MS: u64 = 5;

/// Bytes the mixer moves per source and per quantum.
pub const QUANTUM_BYTES: usize = 4800;

/// A route from one capture device to one render device, by device id.
#[derive(Debug, Clone)]
pub struct RouteLink {
    pub source_device_id: String,
    pub sink_device_id: String,
}

/// The mixer's reading end of one capture device's ring.
pub struct CaptureHandle {
    pub device_id: String,
    pub consumer: Consumer<u8>,
}

/// The mixer's writing end of one render device's ring.
pub struct RenderHandle {
    pub device_id: String,
    pub producer: Producer<u8>,
}

/// The quantum read from one capture device: the bytes its ring held at the
/// moment of reading (`available`), whether the read of
/// `min(available, quantum)` of them went through (`filled`), and the quantum.
#[derive(Debug, Clone)]
pub struct SourceBuffer {
    pub device_id: String,
    pub available: usize,
    pub filled: bool,
    pub bytes: Vec<u8>,
}

/// One quantum read from a ring: the bytes the ring held at the moment of
/// reading, whether the read went through, and the quantum.
#[derive(Debug, Clone)]
pub struct QuantumRead {
    pub available: usize,
    pub filled: bool,
    pub bytes: Vec<u8>,
}

/// One write into a ring: the free room the ring had at the moment of writing,
/// how many bytes went in, and whether the ring refused the write.
#[derive(Debug, Clone, Copy, PartialEq, Eq)]
pub struct RingWrite {
    pub room: usize,
    pub written: usize,
    pub refused: bool,
}

/// One route served in a quantum: the source buffer and render handle it
/// joined (by position), the free room of the render ring at that moment, how
/// many bytes went in, and whether the ring refused them.
#[derive(Debug, Clone, Copy, PartialEq, Eq)]
pub struct RouteDelivery {
    pub source: usize,
    pub sink: usize,
    pub room: usize,
    pub written: usize,
    pub refused: bool,
}

/// What one mixer quantum did: one buffer per capture handle, in order, and
/// the routes it served, in the order of the routing table.
#[derive(Debug, Clone)]
pub struct MixReport {
    pub sources: Vec<SourceBuffer>,
    pub deliveries: Vec<RouteDelivery>,
}

/// The rings made for a router: the mixer's ends (one capture handle per source,
/// one render handle per sink, in the order given) and the device threads' ends
/// (the producer feeding each capture handle, the consumer draining each render
/// handle, at the same positions).
pub struct RouterRings {
    pub captures: Vec<CaptureHandle>,
    pub capture_producers: Vec<Producer<u8>>,
    pub renders: Vec<RenderHandle>,
    pub render_consumers: Vec<Consumer<u8>>,
}

/// What a render step decided for the device buffer.
#[derive(Debug, Clone, Copy, PartialEq, Eq)]
pub enum RenderPlan {
    /// The device buffer has no free frames.
    Wait,
    /// Too little audio is queued for one frame: fill `frames` frames with silence.
    Silence { frames: u32 },
    /// Copy `frames` frames, `bytes` bytes, of queued audio to the device.
    Copy { frames: u32, bytes: usize },
}

/// A render step: the decision and the bytes taken from the ring for it.
#[derive(Debug, Clone)]
pub struct RenderStep {
    pub plan: RenderPlan,
    pub data: Vec<u8>,
}

pub struct RouteLinkView {
    pub source_device_id: Seq<char>,
    pub sink_device_id: Seq<char>,
}

impl View for RouteLink {
    type V = RouteLinkView;

    open spec fn view(&self) -> RouteLinkView {
        RouteLinkView {
            source_device_id: self.source_device_id@,
            sink_device_id: self.sink_device_id@,
        }
    }
}

pub open spec fn route_views(routes: Seq<RouteLink>) -> Seq<RouteLinkView> {
    routes.map_values(|r: RouteLink| r@)
}

pub open spec fn capture_ids(captures: Seq<CaptureHandle>) -> Seq<Seq<char>> {
    captures.map_values(|c: CaptureHandle| c.device_id@)
}

pub open spec fn render_ids(renders: Seq<RenderHandle>) -> Seq<Seq<char>> {
    renders.map_values(|r: RenderHandle| r.device_id@)
}

pub open spec fn string_ids(ids: Seq<String>) -> Seq<Seq<char>> {
    ids.map_values(|s: String| s@)
}

/// `n` zero bytes.
pub open spec fn zeros(n: nat) -> Seq<u8> {
    Seq::new(n, |i: int| 0u8)
}

/// `bytes` followed by zeros up to `quantum` bytes in all.
pub open spec fn padded(bytes: Seq<u8>, quantum: nat) -> Seq<u8> {
    bytes + zeros((quantum - bytes.len()) as nat)
}

/// How many bytes a read takes from a ring holding `available` bytes: all of
/// them, at most `quantum`.
pub open spec fn read_amount(available: usize, quantum: usize) -> int {
    if available < quantum {
        available as int
    } else {
        quantum as int
    }
}

/// How many bytes a write puts into a ring with `room` free slots: at most
/// `limit`, as many as fit.
pub open spec fn write_amount(limit: usize, room: usize) -> int {
    if limit < room {
        limit as int
    } else {
        room as int
    }
}

/// `buf` is the quantum of `quantum` bytes read from a ring holding `available`
/// bytes, by a consumer that had popped `before` and has popped `after`: when
/// the read went through, the `read_amount(available, quantum)` bytes popped
/// meanwhile followed by zeros; when it did not, nothing was popped and `buf`
/// is all zeros.
pub open spec fn quantum_read_from(
    before: Seq<u8>,
    after: Seq<u8>,
    available: usize,
    filled: bool,
    buf: Seq<u8>,
    quantum: usize,
) -> bool {
    &&& buf.len() == quantum
    &&& filled ==> after == before + buf.take(read_amount(available, quantum)) && buf == padded(
        buf.take(read_amount(available, quantum)),
        quantum as nat,
    )
    &&& !filled ==> after == before && buf == zeros(quantum as nat)
}

/// A write of the leading bytes of `bytes`, at most `limit`, into a ring with
/// `room` free slots, by a producer that had pushed `before` and has pushed
/// `after`: unless refused, `write_amount(limit, room)` bytes went in; a refusal
/// happens only when there was something to write, and then nothing went in;
/// and what went in is the leading `written` bytes.
pub open spec fn ring_write(
    before: Seq<u8>,
    after: Seq<u8>,
    bytes: Seq<u8>,
    limit: usize,
    room: usize,
    written: usize,
    refused: bool,
) -> bool {
    &&& !refused ==> written == write_amount(limit, room)
    &&& refused ==> written == 0 && write_amount(limit, room) > 0
    &&& after == before + bytes.take(written as int)
}

/// Each source buffer is the quantum read from the capture handle at the same
/// position, whose consumer had popped what it holds in `before` and has popped
/// what it holds in `after`.
pub open spec fn quanta_read(
    before: Seq<CaptureHandle>,
    after: Seq<CaptureHandle>,
    sources: Seq<SourceBuffer>,
    quantum: usize,
) -> bool {
    &&& after.len() == before.len()
    &&& sources.len() == before.len()
    &&& forall|i: int|
        0 <= i < sources.len() ==> quantum_read_from(
            popped_bytes(before[i].consumer),
            popped_bytes(after[i].consumer),
            (#[trigger] sources[i]).available,
            sources[i].filled,
            sources[i].bytes@,
            quantum,
        )
}

/// Every delivery wrote, of its source's quantum of `quantum` bytes, as many
/// as its render ring had room for at that moment, unless the ring refused.
pub open spec fn deliveries_sized(deliveries: Seq<RouteDelivery>, quantum: usize) -> bool {
    forall|m: int|
        0 <= m < deliveries.len() ==> {
            let d = #[trigger] deliveries[m];
            &&& !d.refused ==> d.written == write_amount(quantum, d.room)
            &&& d.refused ==> d.written == 0 && write_amount(quantum, d.room) > 0
        }
}

/// Each render handle's producer has pushed, beyond what it held in `before`,
/// exactly the bytes the deliveries to its position carried.
pub open spec fn deliveries_pushed(
    before: Seq<RenderHandle>,
    after: Seq<RenderHandle>,
    sources: Seq<SourceBuffer>,
    deliveries: Seq<RouteDelivery>,
) -> bool {
    &&& after.len() == before.len()
    &&& forall|k: int|
        0 <= k < after.len() ==> pushed_bytes((#[trigger] after[k]).producer) == pushed_bytes(
            before[k].producer,
        ) + delivered_to(sources, deliveries, k)
}

/// The bytes a quantum's deliveries append to the render ring at position
/// `sink`: for each delivery to it, in order, the leading `written` bytes of
/// its source's quantum.
pub open spec fn delivered_to(sources: Seq<SourceBuffer>, deliveries: Seq<RouteDelivery>, sink: int) -> Seq<u8>
    decreases deliveries.len(),
{
    if deliveries.len() == 0 {
        Seq::empty()
    } else {
        let d = deliveries.last();
        delivered_to(sources, deliveries.drop_last(), sink) + if d.sink == sink {
            sources[d.source as int].bytes@.take(d.written as int)
        } else {
            Seq::empty()
        }
    }
}

/// `i` is the last position of `ids` that holds `id`.
pub open spec fn is_last_index(ids: Seq<Seq<char>>, id: Seq<char>, i: int) -> bool {
    &&& 0 <= i < ids.len()
    &&& ids[i] == id
    &&& forall|j: int| i < j < ids.len() ==> #[trigger] ids[j] != id
}

/// `i` is the first position of `ids` that holds `id`.
pub open spec fn is_first_index(ids: Seq<Seq<char>>, id: Seq<char>, i: int) -> bool {
    &&& 0 <= i < ids.len()
    &&& ids[i] == id
    &&& forall|j: int| 0 <= j < i ==> #[trigger] ids[j] != id
}

pub open spec fn contains_id(ids: Seq<Seq<char>>, id: Seq<char>) -> bool {
    exists|i: int| 0 <= i < ids.len() && #[trigger] ids[i] == id
}

/// The source buffer a route reads: the last capture with the device id, as
/// buffers keyed by device id keep the last one written.
pub open spec fn source_for(ids: Seq<Seq<char>>, id: Seq<char>) -> Option<int> {
    if contains_id(ids, id) {
        Some(choose|i: int| is_last_index(ids, id, i))
    } else {
        None
    }
}

/// The render handle a route writes: the first one with the device id.
pub open spec fn sink_for(ids: Seq<Seq<char>>, id: Seq<char>) -> Option<int> {
    if contains_id(ids, id) {
        Some(choose|i: int| is_first_index(ids, id, i))
    } else {
        None
    }
}

/// The (source, sink) pairs a quantum serves: the routes in table order, each
/// joined to its source buffer and render handle, skipping a route when either
/// is missing.
pub open spec fn route_plan(
    routes: Seq<RouteLinkView>,
    sources: Seq<Seq<char>>,
    sinks: Seq<Seq<char>>,
) -> Seq<(int, int)>
    decreases routes.len(),
{
    if routes.len() == 0 {
        Seq::empty()
    } else {
        let earlier = route_plan(routes.drop_last(), sources, sinks);
        let route = routes.last();
        match (source_for(sources, route.source_device_id), sink_for(sinks, route.sink_device_id)) {
            (Some(s), Some(k)) => earlier.push((s, k)),
            _ => earlier,
        }
    }
}

/// What a render step decides for a device buffer of `buffer_size` frames with
/// `padding` frames still queued, frames of `frame_size` bytes, and `readable`
/// bytes waiting in the ring: nothing when the device buffer is full; all free
/// frames when the ring holds enough for them; else as many whole frames as
/// the ring holds; and silence over all free frames when that is none.
pub open spec fn render_plan_for(buffer_size: u32, padding: u32, frame_size: usize, readable: usize) -> RenderPlan {
    let available: int = buffer_size - padding;
    if available == 0 {
        RenderPlan::Wait
    } else {
        let available_bytes: int = available * frame_size;
        let frames: int = if readable >= available_bytes {
            available
        } else {
            readable as int / frame_size as int
        };
        if frames == 0 {
            RenderPlan::Silence { frames: available as u32 }
        } else {
            RenderPlan::Copy { frames: frames as u32, bytes: (frames * frame_size) as usize }
        }
    }
}

proof fn lemma_last_index_unique(ids: Seq<Seq<char>>, id: Seq<char>, i: int)
    requires
        is_last_index(ids, id, i),
    ensures
        source_for(ids, id) == Some(i),
{
    assert(contains_id(ids, id));
    let k: int = choose|k: int| is_last_index(ids, id, k);
    assert(is_last_index(ids, id, k));
    if k < i {
        assert(ids[i] != id);
    } else if i < k {
        assert(ids[k] != id);
    }
}

proof fn lemma_has_last_index(ids: Seq<Seq<char>>, id: Seq<char>)
    requires
        contains_id(ids, id),
    ensures
        exists|i: int| is_last_index(ids, id, i),
    decreases ids.len(),
{
    if ids.last() == id {
        assert(is_last_index(ids, id, ids.len() - 1));
    } else {
        let rest = ids.drop_last();
        let w: int = choose|i: int| 0 <= i < ids.len() && #[trigger] ids[i] == id;
        assert(rest[w] == id);
        lemma_has_last_index(rest, id);
        let i: int = choose|i: int| is_last_index(rest, id, i);
        assert(is_last_index(ids, id, i)) by {
            assert forall|j: int| i < j < ids.len() implies #[trigger] ids[j] != id by {
                if j < ids.len() - 1 {
                    assert(ids[j] == rest[j]);
                }
            }
        }
    }
}

proof fn lemma_has_first_index(ids: Seq<Seq<char>>, id: Seq<char>)
    requires
        contains_id(ids, id),
    ensures
        exists|i: int| is_first_index(ids, id, i),
    decreases ids.len(),
{
    if ids[0] == id {
        assert(is_first_index(ids, id, 0));
    } else {
        let rest = ids.drop_first();
        let w: int = choose|i: int| 0 <= i < ids.len() && #[trigger] ids[i] == id;
        assert(rest[w - 1] == id);
        lemma_has_first_index(rest, id);
        let i: int = choose|i: int| is_first_index(rest, id, i);
        assert(is_first_index(ids, id, i + 1)) by {
            assert forall|j: int| 0 <= j < i + 1 implies #[trigger] ids[j] != id by {
                if j > 0 {
                    assert(ids[j] == rest[j - 1]);
                }
            }
        }
    }
}

proof fn lemma_first_index_unique(ids: Seq<Seq<char>>, id: Seq<char>, i: int)
    requires
        is_first_index(ids, id, i),
    ensures
        sink_for(ids, id) == Some(i),
{
    assert(contains_id(ids, id));
    let k: int = choose|k: int| is_first_index(ids, id, k);
    assert(is_first_index(ids, id, k));
    if k < i {
        assert(ids[k] != id);
    } else if i < k {
        assert(ids[i] != id);
    }
}

/// Extends `bytes` with zeros to `quantum` bytes.
pub fn pad_to_quantum(bytes: Vec<u8>, quantum: usize) -> (buf: Vec<u8>)
    requires
        bytes.len() <= quantum,
    ensures
        buf@ == padded(bytes@, quantum as nat),
{
    let mut buf = bytes;
    while buf.len() < quantum
        invariant
            bytes.len() <= buf.len() <= quantum,
            buf@ == bytes@ + zeros((buf.len() - bytes.len()) as nat),
        decreases quantum - buf.len(),
    {
        buf.push(0);
        assert(buf@ =~= bytes@ + zeros((buf.len() - bytes.len()) as nat));
    }
    buf
}

/// `n` zero bytes.
fn zero_bytes(n: usize) -> (bytes: Vec<u8>)
    ensures
        bytes@ == zeros(n as nat),
{
    let mut bytes: Vec<u8> = Vec::new();
    while bytes.len() < n
        invariant
            bytes.len() <= n,
            bytes@ == zeros(bytes.len() as nat),
        decreases n - bytes.len(),
    {
        bytes.push(0);
        assert(bytes@ =~= zeros(bytes.len() as nat));
    }
    bytes
}

/// Takes the `n` oldest bytes of a ring in one piece; if the ring holds fewer,
/// nothing is taken and the result is `n` zeros. The flag tells which.
fn take_bytes(consumer: &mut Consumer<u8>, n: usize) -> (taken: (Vec<u8>, bool))
    ensures
        taken.0.len() == n,
        taken.1 ==> popped_bytes(*final(consumer)) == popped_bytes(*old(consumer)) + taken.0@,
        !taken.1 ==> popped_bytes(*final(consumer)) == popped_bytes(*old(consumer)) && taken.0@
            == zeros(n as nat),
{
    let mut bytes = zero_bytes(n);
    let filled = consumer_pop_into(consumer, bytes.as_mut_slice());
    (bytes, filled)
}

/// Reads one quantum from a capture ring that holds `available` bytes: pops
/// `min(available, quantum)` of them and pads with zeros to `quantum` bytes.
pub fn read_prefix(consumer: &mut Consumer<u8>, available: usize, quantum: usize) -> (read: QuantumRead)
    ensures
        read.available == available,
        quantum_read_from(
            popped_bytes(*old(consumer)),
            popped_bytes(*final(consumer)),
            available,
            read.filled,
            read.bytes@,
            quantum,
        ),
{
    let to_read: usize = if available < quantum {
        available
    } else {
        quantum
    };
    let (taken, filled) = take_bytes(consumer, to_read);
    let bytes = pad_to_quantum(taken, quantum);
    assert(bytes@.take(to_read as int) =~= taken@);
    if !filled {
        assert(bytes@ =~= zeros(quantum as nat));
    }
    QuantumRead { available, filled, bytes }
}

/// Reads one quantum from a capture ring: as many bytes as the ring holds at
/// this moment, up to `quantum`, popped and followed by zeros to `quantum` bytes.
pub fn read_quantum(consumer: &mut Consumer<u8>, quantum: usize) -> (read: QuantumRead)
    ensures
        quantum_read_from(
            popped_bytes(*old(consumer)),
            popped_bytes(*final(consumer)),
            read.available,
            read.filled,
            read.bytes@,
            quantum,
        ),
{
    let available: usize = consumer_slots(consumer);
    read_prefix(consumer, available, quantum)
}

/// Writes into a ring with `room` free slots the leading `min(limit, room)`
/// bytes of `bytes`, in one piece.
pub fn write_prefix(producer: &mut Producer<u8>, bytes: &[u8], limit: usize, room: usize) -> (write: RingWrite)
    requires
        limit <= bytes.len(),
    ensures
        write.room == room,
        ring_write(
            pushed_bytes(*old(producer)),
            pushed_bytes(*final(producer)),
            bytes@,
            limit,
            room,
            write.written,
            write.refused,
        ),
{
    let to_write: usize = if limit < room {
        limit
    } else {
        room
    };
    if to_write == 0 {
        assert(pushed_bytes(*producer) =~= pushed_bytes(*old(producer)) + bytes@.take(0));
        return RingWrite { room, written: 0, refused: false };
    }
    let front = &bytes[0..to_write];
    assert(front@ =~= bytes@.take(to_write as int));
    if producer_push_all(producer, front) {
        RingWrite { room, written: to_write, refused: false }
    } else {
        assert(pushed_bytes(*producer) =~= pushed_bytes(*old(producer)) + bytes@.take(0));
        RingWrite { room, written: 0, refused: true }
    }
}

/// Writes into a ring as many leading bytes of `bytes`, at most `limit`, as it
/// has free room for at this moment, in one piece.
pub fn write_available(producer: &mut Producer<u8>, bytes: &[u8], limit: usize) -> (write: RingWrite)
    requires
        limit <= bytes.len(),
    ensures
        ring_write(
            pushed_bytes(*old(producer)),
            pushed_bytes(*final(producer)),
            bytes@,
            limit,
            write.room,
            write.written,
            write.refused,
        ),
{
    let room: usize = producer_slots(producer);
    write_prefix(producer, bytes, limit, room)
}

/// Decides a render step; see `render_plan_for`.
pub fn plan_render(buffer_size: u32, padding: u32, frame_size: usize, readable: usize) -> (plan: RenderPlan)
    requires
        padding <= buffer_size,
        (buffer_size - padding) * frame_size <= usize::MAX,
    ensures
        plan == render_plan_for(buffer_size, padding, frame_size, readable),
{
    let available_frames: u32 = buffer_size - padding;
    if available_frames == 0 {
        return RenderPlan::Wait;
    }
    let available_bytes: usize = available_frames as usize * frame_size;
    let frames_to_write: u32 = if readable >= available_bytes {
        available_frames
    } else {
        assert(frame_size > 0) by (nonlinear_arith)
            requires
                readable < available_bytes,
                available_bytes == available_frames * frame_size,
        ;
        let q: usize = readable / frame_size;
        assert(q < available_frames) by (nonlinear_arith)
            requires
                q == readable as int / frame_size as int,
                frame_size > 0,
                readable < available_frames * frame_size,
        ;
        q as u32
    };
    if frames_to_write == 0 {
        RenderPlan::Silence { frames: available_frames }
    } else {
        assert(frames_to_write * frame_size <= available_frames * frame_size) by (nonlinear_arith)
            requires
                frames_to_write <= available_frames,
        ;
        RenderPlan::Copy { frames: frames_to_write, bytes: frames_to_write as usize * frame_size }
    }
}

/// One render step on a device buffer of `buffer_size` frames with `padding`
/// frames still queued: decides from the bytes the ring holds at this moment
/// (see `render_plan_for`) and, when copying, pops the bytes to copy; if the
/// ring no longer holds them, nothing is popped and they are zeros. Other steps
/// pop nothing.
pub fn render_quantum(consumer: &mut Consumer<u8>, buffer_size: u32, padding: u32, frame_size: usize) -> (step: RenderStep)
    requires
        padding <= buffer_size,
        (buffer_size - padding) * frame_size <= usize::MAX,
    ensures
        exists|readable: usize| step.plan == render_plan_for(buffer_size, padding, frame_size, readable),
        match step.plan {
            RenderPlan::Copy { frames, bytes } => {
                &&& step.data.len() == bytes
                &&& popped_bytes(*final(consumer)) == popped_bytes(*old(consumer)) + step.data@
                    || (popped_bytes(*final(consumer)) == popped_bytes(*old(consumer))
                    && step.data@ == zeros(bytes as nat))
            },
            _ => step.data.len() == 0 && popped_bytes(*final(consumer)) == popped_bytes(
                *old(consumer),
            ),
        },
{
    let readable: usize = consumer_slots(consumer);
    let plan = plan_render(buffer_size, padding, frame_size, readable);
    let data = match plan {
        RenderPlan::Copy { frames, bytes } => take_bytes(consumer, bytes).0,
        _ => Vec::new(),
    };
    RenderStep { plan, data }
}

/// Makes one fresh ring of `RING_CAPACITY` bytes per source and per sink:
/// nothing has been pushed or popped through any of their ends.
pub fn open_rings(source_ids: &Vec<String>, sink_ids: &Vec<String>) -> (rings: RouterRings)
    ensures
        capture_ids(rings.captures@) == string_ids(source_ids@),
        rings.capture_producers.len() == source_ids.len(),
        render_ids(rings.renders@) == string_ids(sink_ids@),
        rings.render_consumers.len() == sink_ids.len(),
        forall|i: int| 0 <= i < rings.captures.len() ==> popped_bytes((#[trigger] rings.captures@[i]).consumer)
            == Seq::<u8>::empty(),
        forall|i: int| 0 <= i < rings.capture_producers.len() ==> pushed_bytes(
            #[trigger] rings.capture_producers@[i],
        ) == Seq::<u8>::empty(),
        forall|i: int| 0 <= i < rings.renders.len() ==> pushed_bytes((#[trigger] rings.renders@[i]).producer)
            == Seq::<u8>::empty(),
        forall|i: int| 0 <= i < rings.render_consumers.len() ==> popped_bytes(
            #[trigger] rings.render_consumers@[i],
        ) == Seq::<u8>::empty(),
{
    let mut captures: Vec<CaptureHandle> = Vec::new();
    let mut capture_producers: Vec<Producer<u8>> = Vec::new();
    let mut i: usize = 0;
    while i < source_ids.len()
        invariant
            i <= source_ids.len(),
            capture_ids(captures@) == string_ids(source_ids@.take(i as int)),
            capture_producers.len() == i,
            forall|m: int| 0 <= m < captures.len() ==> popped_bytes((#[trigger] captures@[m]).consumer)
                == Seq::<u8>::empty(),
            forall|m: int| 0 <= m < capture_producers.len() ==> pushed_bytes(
                #[trigger] capture_producers@[m],
            ) == Seq::<u8>::empty(),
        decreases source_ids.len() - i,
    {
        let (producer, consumer) = new_byte_ring(RING_CAPACITY);
        let ghost before = captures@;
        let id = source_ids[i].clone();
        assert(id@ == source_ids@[i as int]@);
        captures.push(CaptureHandle { device_id: id, consumer });
        capture_producers.push(producer);
        assert(source_ids@.take(i + 1) =~= source_ids@.take(i as int).push(source_ids@[i as int]));
        assert(capture_ids(captures@) =~= capture_ids(before).push(id@));
        assert(capture_ids(captures@) =~= string_ids(source_ids@.take(i + 1)));
        i = i + 1;
    }
    assert(source_ids@.take(i as int) =~= source_ids@);
    let mut renders: Vec<RenderHandle> = Vec::new();
    let mut render_consumers: Vec<Consumer<u8>> = Vec::new();
    let mut j: usize = 0;
    while j < sink_ids.len()
        invariant
            j <= sink_ids.len(),
            render_ids(renders@) == string_ids(sink_ids@.take(j as int)),
            render_consumers.len() == j,
            forall|m: int| 0 <= m < renders.len() ==> pushed_bytes((#[trigger] renders@[m]).producer)
                == Seq::<u8>::empty(),
            forall|m: int| 0 <= m < render_consumers.len() ==> popped_bytes(
                #[trigger] render_consumers@[m],
            ) == Seq::<u8>::empty(),
            captures@.len() == source_ids.len(),
            capture_producers.len() == source_ids.len(),
            forall|m: int| 0 <= m < captures.len() ==> popped_bytes((#[trigger] captures@[m]).consumer)
                == Seq::<u8>::empty(),
            forall|m: int| 0 <= m < capture_producers.len() ==> pushed_bytes(
                #[trigger] capture_producers@[m],
            ) == Seq::<u8>::empty(),
            capture_ids(captures@) == string_ids(source_ids@),
        decreases sink_ids.len() - j,
    {
        let (producer, consumer) = new_byte_ring(RING_CAPACITY);
        let ghost before = renders@;
        let id = sink_ids[j].clone();
        assert(id@ == sink_ids@[j as int]@);
        renders.push(RenderHandle { device_id: id, producer });
        render_consumers.push(consumer);
        assert(sink_ids@.take(j + 1) =~= sink_ids@.take(j as int).push(sink_ids@[j as int]));
        assert(render_ids(renders@) =~= render_ids(before).push(id@));
        assert(render_ids(renders@) =~= string_ids(sink_ids@.take(j + 1)));
        j = j + 1;
    }
    assert(sink_ids@.take(j as int) =~= sink_ids@);
    RouterRings { captures, capture_producers, renders, render_consumers }
}

pub open spec fn buffer_ids(sources: Seq<SourceBuffer>) -> Seq<Seq<char>> {
    sources.map_values(|b: SourceBuffer| b.device_id@)
}

pub open spec fn plan_pairs(plan: Seq<(usize, usize)>) -> Seq<(int, int)> {
    plan.map_values(|p: (usize, usize)| (p.0 as int, p.1 as int))
}

pub open spec fn delivery_pairs(deliveries: Seq<RouteDelivery>) -> Seq<(int, int)> {
    deliveries.map_values(|d: RouteDelivery| (d.source as int, d.sink as int))
}

/// The position of the last source buffer with device id `id`.
fn find_source(sources: &Vec<SourceBuffer>, id: &String) -> (found: Option<usize>)
    ensures
        match found {
            Some(i) => is_last_index(buffer_ids(sources@), id@, i as int),
            None => !contains_id(buffer_ids(sources@), id@),
        },
{
    let ghost ids = buffer_ids(sources@);
    let mut k: usize = sources.len();
    while k > 0
        invariant
            k <= sources.len(),
            ids == buffer_ids(sources@),
            forall|j: int| k <= j < sources.len() ==> #[trigger] ids[j] != id@,
        decreases k,
    {
        k = k - 1;
        if sources[k].device_id == *id {
            assert(ids[k as int] == id@);
            return Some(k);
        }
        assert(ids[k as int] != id@);
    }
    None
}

/// The position of the first render handle with device id `id`.
fn find_sink(renders: &Vec<RenderHandle>, id: &String) -> (found: Option<usize>)
    ensures
        match found {
            Some(i) => is_first_index(render_ids(renders@), id@, i as int),
            None => !contains_id(render_ids(renders@), id@),
        },
{
    let ghost ids = render_ids(renders@);
    let mut k: usize = 0;
    while k < renders.len()
        invariant
            k <= renders.len(),
            ids == render_ids(renders@),
            forall|j: int| 0 <= j < k ==> #[trigger] ids[j] != id@,
        decreases renders.len() - k,
    {
        if renders[k].device_id == *id {
            assert(ids[k as int] == id@);
            return Some(k);
        }
        assert(ids[k as int] != id@);
        k = k + 1;
    }
    None
}

/// Joins each route to its source buffer and render handle; see `route_plan`.
pub fn plan_routes(
    routes: &Vec<RouteLink>,
    sources: &Vec<SourceBuffer>,
    renders: &Vec<RenderHandle>,
) -> (plan: Vec<(usize, usize)>)
    ensures
        plan_pairs(plan@) == route_plan(route_views(routes@), buffer_ids(sources@), render_ids(renders@)),
        forall|j: int| 0 <= j < plan.len() ==> (#[trigger] plan@[j]).0 < sources.len() && plan@[j].1 < renders.len(),
{
    let ghost all = route_views(routes@);
    let ghost src_ids = buffer_ids(sources@);
    let ghost sink_ids = render_ids(renders@);
    let mut plan: Vec<(usize, usize)> = Vec::new();
    let mut i: usize = 0;
    while i < routes.len()
        invariant
            i <= routes.len(),
            all == route_views(routes@),
            src_ids == buffer_ids(sources@),
            sink_ids == render_ids(renders@),
            plan_pairs(plan@) == route_plan(all.take(i as int), src_ids, sink_ids),
            forall|j: int| 0 <= j < plan.len() ==> (#[trigger] plan@[j]).0 < sources.len() && plan@[j].1 < renders.len(),
        decreases routes.len() - i,
    {
        let ghost before = plan@;
        let route = &routes[i];
        assert(all.take(i + 1).drop_last() =~= all.take(i as int));
        assert(all.take(i + 1).last() == route@);
        let source = find_source(sources, &route.source_device_id);
        let sink = find_sink(renders, &route.sink_device_id);
        proof {
            if let Some(s) = source {
                lemma_last_index_unique(src_ids, route.source_device_id@, s as int);
            }
            if let Some(k) = sink {
                lemma_first_index_unique(sink_ids, route.sink_device_id@, k as int);
            }
        }
        match (source, sink) {
            (Some(s), Some(k)) => {
                assert(src_ids.len() == sources.len() && sink_ids.len() == renders.len());
                plan.push((s, k));
                assert(plan_pairs(plan@) =~= plan_pairs(before).push((s as int, k as int)));
                assert forall|j: int| 0 <= j < plan.len() implies (#[trigger] plan@[j]).0 < sources.len()
                    && plan@[j].1 < renders.len() by {
                    if j < before.len() {
                        assert(plan@[j] == before[j]);
                    }
                }
            },
            _ => {},
        }
        i = i + 1;
    }
    assert(all.take(i as int) =~= all);
    plan
}

/// Reads one quantum from every capture ring, in order.
fn read_sources(captures: &mut Vec<CaptureHandle>, quantum: usize) -> (sources: Vec<SourceBuffer>)
    ensures
        capture_ids(final(captures)@) == capture_ids(old(captures)@),
        buffer_ids(sources@) == capture_ids(old(captures)@),
        forall|i: int| 0 <= i < sources.len() ==> (#[trigger] sources@[i]).bytes.len() == quantum,
        quanta_read(old(captures)@, final(captures)@, sources@, quantum),
{
    let ghost ids = capture_ids(captures@);
    let ghost start = captures@;
    let mut sources: Vec<SourceBuffer> = Vec::new();
    let mut i: usize = 0;
    while i < captures.len()
        invariant
            i <= captures.len(),
            capture_ids(captures@) == ids,
            buffer_ids(sources@) == ids.take(i as int),
            captures@.len() == start.len(),
            forall|j: int| 0 <= j < sources.len() ==> (#[trigger] sources@[j]).bytes.len() == quantum,
            forall|j: int|
                0 <= j < i ==> quantum_read_from(
                    popped_bytes(start[j].consumer),
                    popped_bytes(captures@[j].consumer),
                    (#[trigger] sources@[j]).available,
                    sources@[j].filled,
                    sources@[j].bytes@,
                    quantum,
                ),
            forall|j: int| i <= j < captures.len() ==> (#[trigger] captures@[j]).consumer == start[j].consumer,
        decreases captures.len() - i,
    {
        let ghost before = sources@;
        let ghost caps_before = captures@;
        let read = read_quantum(&mut captures[i].consumer, quantum);
        assert(captures@[i as int].device_id == caps_before[i as int].device_id);
        assert(capture_ids(captures@) =~= capture_ids(caps_before));
        let id = captures[i].device_id.clone();
        sources.push(SourceBuffer { device_id: id, available: read.available, filled: read.filled, bytes: read.bytes });
        assert(ids.take(i + 1) =~= ids.take(i as int).push(ids[i as int]));
        assert(buffer_ids(sources@) =~= buffer_ids(before).push(id@));
        assert forall|j: int|
            0 <= j < i + 1 implies quantum_read_from(
                popped_bytes(start[j].consumer),
                popped_bytes(captures@[j].consumer),
                (#[trigger] sources@[j]).available,
                sources@[j].filled,
                sources@[j].bytes@,
                quantum,
            ) by {
            if j < i {
                assert(sources@[j] == before[j]);
                assert(captures@[j] == caps_before[j]);
            }
        }
        assert forall|j: int| i + 1 <= j < captures.len() implies (#[trigger] captures@[j]).consumer
            == start[j].consumer by {
            assert(captures@[j] == caps_before[j]);
        }
        i = i + 1;
    }
    assert(ids.take(i as int) =~= ids);
    sources
}

/// One mixer quantum: reads a quantum from every capture ring, then serves
/// the routes in table order, writing into each route's render ring as much
/// of its source's quantum as the ring has room for at that moment. The report
/// records the amounts each ring held or had room for when it was used.
pub fn mix_quantum(
    captures: &mut Vec<CaptureHandle>,
    renders: &mut Vec<RenderHandle>,
    routes: &Vec<RouteLink>,
    quantum: usize,
) -> (report: MixReport)
    ensures
        capture_ids(final(captures)@) == capture_ids(old(captures)@),
        render_ids(final(renders)@) == render_ids(old(renders)@),
        buffer_ids(report.sources@) == capture_ids(old(captures)@),
        forall|i: int| 0 <= i < report.sources.len() ==> (#[trigger] report.sources@[i]).bytes.len()
            == quantum,
        quanta_read(old(captures)@, final(captures)@, report.sources@, quantum),
        deliveries_pushed(old(renders)@, final(renders)@, report.sources@, report.deliveries@),
        deliveries_sized(report.deliveries@, quantum),
        delivery_pairs(report.deliveries@) == route_plan(
            route_views(routes@),
            capture_ids(old(captures)@),
            render_ids(old(renders)@),
        ),
        forall|j: int| 0 <= j < report.deliveries.len() ==> (#[trigger] report.deliveries@[j]).written
            <= quantum,
{
    let sources = read_sources(captures, quantum);
    let plan = plan_routes(routes, &sources, renders);
    let ghost sink_ids = render_ids(renders@);
    let ghost start = renders@;
    let mut deliveries: Vec<RouteDelivery> = Vec::new();
    let mut j: usize = 0;
    while j < plan.len()
        invariant
            j <= plan.len(),
            render_ids(renders@) == sink_ids,
            forall|m: int| 0 <= m < plan.len() ==> (#[trigger] plan@[m]).0 < sources.len() && plan@[m].1 < renders.len(),
            forall|i: int| 0 <= i < sources.len() ==> (#[trigger] sources@[i]).bytes.len() == quantum,
            delivery_pairs(deliveries@) == plan_pairs(plan@.take(j as int)),
            forall|m: int| 0 <= m < deliveries.len() ==> (#[trigger] deliveries@[m]).written <= quantum,
            deliveries_pushed(start, renders@, sources@, deliveries@),
            deliveries_sized(deliveries@, quantum),
        decreases plan.len() - j,
    {
        let (s, k): (usize, usize) = plan[j];
        assert(plan@[j as int].0 < sources.len() && plan@[j as int].1 < renders.len());
        assert(sources@[s as int].bytes.len() == quantum);
        let ghost renders_before = renders@;
        let write = write_available(&mut renders[k].producer, sources[s].bytes.as_slice(), quantum);
        let written: usize = write.written;
        assert(renders@[k as int].device_id == renders_before[k as int].device_id);
        assert(render_ids(renders@) =~= render_ids(renders_before));
        let ghost before = deliveries@;
        deliveries.push(
            RouteDelivery { source: s, sink: k, room: write.room, written, refused: write.refused },
        );
        assert forall|m: int| 0 <= m < deliveries.len() implies {
            let d = #[trigger] deliveries@[m];
            &&& !d.refused ==> d.written == write_amount(quantum, d.room)
            &&& d.refused ==> d.written == 0 && write_amount(quantum, d.room) > 0
        } by {
            if m < before.len() {
                assert(deliveries@[m] == before[m]);
            }
        }
        assert(plan@.take(j + 1) =~= plan@.take(j as int).push(plan@[j as int]));
        assert(delivery_pairs(deliveries@) =~= delivery_pairs(before).push((s as int, k as int)));
        assert(deliveries@.drop_last() =~= before);
        assert forall|m: int| 0 <= m < renders.len() implies pushed_bytes((#[trigger] renders@[m]).producer)
            == pushed_bytes(start[m].producer) + delivered_to(sources@, deliveries@, m) by {
            assert(delivered_to(sources@, deliveries@, m) == delivered_to(sources@, before, m) + if m
                == k {
                sources@[s as int].bytes@.take(written as int)
            } else {
                Seq::empty()
            });
            if m == k {
                assert(pushed_bytes(renders@[m].producer) == pushed_bytes(renders_before[m].producer)
                    + sources@[s as int].bytes@.take(written as int));
            } else {
                assert(renders@[m] == renders_before[m]);
                assert(delivered_to(sources@, deliveries@, m) =~= delivered_to(sources@, before, m));
            }
        }
        j = j + 1;
    }
    assert(plan@.take(j as int) =~= plan@);
    MixReport { sources, deliveries }
}

/// Law: a render step copies whole frames only, never more bytes than the ring
/// held nor more frames than the device buffer had free; silence always covers
/// all free frames.
pub proof fn lemma_render_plan_within_bounds(buffer_size: u32, padding: u32, frame_size: usize, readable: usize)
    requires
        padding <= buffer_size,
        (buffer_size - padding) * frame_size <= usize::MAX,
    ensures
        match render_plan_for(buffer_size, padding, frame_size, readable) {
            RenderPlan::Wait => padding == buffer_size,
            RenderPlan::Silence { frames } => frames == buffer_size - padding && frames > 0
                && (frame_size > 0 ==> readable < frame_size),
            RenderPlan::Copy { frames, bytes } => 0 < frames <= buffer_size - padding
                && bytes == frames * frame_size && bytes <= readable,
        },
{
    let available: int = buffer_size - padding;
    if available != 0 {
        let available_bytes: int = available * frame_size;
        if readable < available_bytes {
            assert(frame_size > 0) by (nonlinear_arith)
                requires
                    readable < available_bytes,
                    available_bytes == available * frame_size,
            ;
            let q: int = readable as int / frame_size as int;
            assert(0 <= q * frame_size <= readable && readable < (q + 1) * frame_size && 0 <= q < available)
                by (nonlinear_arith)
                requires
                    q == readable as int / frame_size as int,
                    frame_size > 0,
                    readable >= 0,
                    readable < available * frame_size,
            ;
            if q == 0 {
                assert(readable < frame_size) by (nonlinear_arith)
                    requires
                        q == 0,
                        readable < (q + 1) * frame_size,
                ;
                assert(render_plan_for(buffer_size, padding, frame_size, readable) == RenderPlan::Silence {
                    frames: available as u32,
                });
            } else {
                assert((q as u32) as int == q);
                assert(((q * frame_size) as usize) as int == q * frame_size);
            }
        } else {
            assert(available > 0);
            assert(((available * frame_size) as usize) as int == available * frame_size);
        }
    }
}

/// Law: the routes a quantum serves are at most the routes in the table, each
/// served pair joins a source and a sink whose device ids are those of some
/// route, and when every route's ends exist, every route is served.
pub proof fn lemma_route_plan_sound_and_complete(
    routes: Seq<RouteLinkView>,
    sources: Seq<Seq<char>>,
    sinks: Seq<Seq<char>>,
)
    ensures
        route_plan(routes, sources, sinks).len() <= routes.len(),
        forall|m: int| 0 <= m < route_plan(routes, sources, sinks).len() ==> {
            let p = #[trigger] route_plan(routes, sources, sinks)[m];
            &&& 0 <= p.0 < sources.len()
            &&& 0 <= p.1 < sinks.len()
            &&& exists|r: int| 0 <= r < routes.len()
                && sources[p.0] == (#[trigger] routes[r]).source_device_id
                && sinks[p.1] == routes[r].sink_device_id
        },
        (forall|r: int| 0 <= r < routes.len() ==> contains_id(sources, (#[trigger] routes[r]).source_device_id)
            && contains_id(sinks, routes[r].sink_device_id))
            ==> route_plan(routes, sources, sinks).len() == routes.len(),
    decreases routes.len(),
{
    if routes.len() > 0 {
        let earlier = routes.drop_last();
        lemma_route_plan_sound_and_complete(earlier, sources, sinks);
        let route = routes.last();
        let plan = route_plan(routes, sources, sinks);
        let prev = route_plan(earlier, sources, sinks);
        assert forall|m: int| 0 <= m < plan.len() implies {
            let p = #[trigger] plan[m];
            &&& 0 <= p.0 < sources.len()
            &&& 0 <= p.1 < sinks.len()
            &&& exists|r: int| 0 <= r < routes.len()
                && sources[p.0] == (#[trigger] routes[r]).source_device_id
                && sinks[p.1] == routes[r].sink_device_id
        } by {
            if m < prev.len() {
                assert(plan[m] == prev[m]);
                let p = prev[m];
                let r: int = choose|r: int| 0 <= r < earlier.len()
                    && sources[p.0] == (#[trigger] earlier[r]).source_device_id
                    && sinks[p.1] == earlier[r].sink_device_id;
                assert(routes[r] == earlier[r]);
            } else {
                lemma_has_last_index(sources, route.source_device_id);
                lemma_has_first_index(sinks, route.sink_device_id);
                let s: int = choose|i: int| is_last_index(sources, route.source_device_id, i);
                let k: int = choose|i: int| is_first_index(sinks, route.sink_device_id, i);
                assert(is_last_index(sources, route.source_device_id, s));
                assert(is_first_index(sinks, route.sink_device_id, k));
                assert(routes[routes.len() - 1] == route);
            }
        }
        if forall|r: int| 0 <= r < routes.len() ==> contains_id(sources, (#[trigger] routes[r]).source_device_id)
            && contains_id(sinks, routes[r].sink_device_id) {
            assert forall|r: int| 0 <= r < earlier.len() implies contains_id(sources, (#[trigger] earlier[r]).source_device_id)
                && contains_id(sinks, earlier[r].sink_device_id) by {
                assert(earlier[r] == routes[r]);
            }
            assert(routes[routes.len() - 1] == route);
        }
    }
}

} // verus!
