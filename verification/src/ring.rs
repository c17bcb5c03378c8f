//! The single-producer single-consumer byte rings of `rtrb`, as the router
//! uses them. Each end has a history: the bytes this end has pushed, or popped,
//! since the ring was made. Only calls on an end itself change its history, so
//! the contracts below state how each call extends it. How much room or data
//! an end sees at a given moment depends on the thread at the other end, and
//! nothing is claimed of it.

use vstd::prelude::*;
use rtrb::{Consumer, Producer, RingBuffer};

verus! {

/// The writing end of an `rtrb` ring buffer, carried opaquely.
#[verifier::external_type_specification]
#[verifier::external_body]
#[verifier::reject_recursive_types(T)]
pub struct ExProducer<T>(Producer<T>);

/// The reading end of an `rtrb` ring buffer, carried opaquely.
#[verifier::external_type_specification]
#[verifier::external_body]
#[verifier::reject_recursive_types(T)]
pub struct ExConsumer<T>(Consumer<T>);

/// The bytes pushed into the ring through this producer since the ring was made,
/// in order.
pub uninterp spec fn pushed_bytes(producer: Producer<u8>) -> Seq<u8>;

/// The bytes popped from the ring through this consumer since the ring was made,
/// in order.
pub uninterp spec fn popped_bytes(consumer: Consumer<u8>) -> Seq<u8>;

/// Calls `rtrb::RingBuffer::<u8>::new`, which allocates room for `capacity`
/// bytes and hands out the two ends of a fresh, empty ring: nothing has been
/// pushed or popped through them. Its allocation panics above `isize::MAX`
/// bytes, which `requires` leaves out.
#[verifier::external_body]
pub(crate) fn new_byte_ring(capacity: usize) -> (ends: (Producer<u8>, Consumer<u8>))
    requires
        capacity <= isize::MAX,
    ensures
        pushed_bytes(ends.0) == Seq::<u8>::empty(),
        popped_bytes(ends.1) == Seq::<u8>::empty(),
{
    RingBuffer::<u8>::new(capacity)
}

/// Calls `rtrb::Producer::slots`: the number of free slots at the moment of
/// the call, which the consumer thread may raise at any time. Nothing is claimed
/// of the number.
#[verifier::external_body]
pub(crate) fn producer_slots(producer: &Producer<u8>) -> (slots: usize) {
    producer.slots()
}

/// Calls `rtrb::Producer::push_entire_slice`, which copies all of `bytes` into
/// the ring, after what this end pushed before, when the ring has room for all
/// of them, and copies nothing otherwise. `true` when the bytes went in.
/// Whether there was room depends on the consumer thread and is not claimed.
#[verifier::external_body]
pub(crate) fn producer_push_all(producer: &mut Producer<u8>, bytes: &[u8]) -> (pushed: bool)
    ensures
        pushed ==> pushed_bytes(*final(producer)) == pushed_bytes(*old(producer)) + bytes@,
        !pushed ==> pushed_bytes(*final(producer)) == pushed_bytes(*old(producer)),
{
    producer.push_entire_slice(bytes).is_ok()
}

/// Calls `rtrb::Consumer::slots`: the number of readable slots at the moment of
/// the call, which the producer thread may raise at any time. Nothing is claimed
/// of the number.
#[verifier::external_body]
pub(crate) fn consumer_slots(consumer: &Consumer<u8>) -> (slots: usize) {
    consumer.slots()
}

/// Calls `rtrb::Consumer::pop_entire_slice`, which fills all of `dest` with the
/// oldest bytes of the ring, removing them, when it holds enough of them, and
/// copies and removes nothing otherwise. `true` when `dest` was filled: then
/// what it holds is what this end popped. `dest` keeps its length, and stays as
/// it was when the call fails. Whether enough was there depends on the producer
/// thread and is not claimed.
#[verifier::external_body]
pub(crate) fn consumer_pop_into(consumer: &mut Consumer<u8>, dest: &mut [u8]) -> (filled: bool)
    ensures
        final(dest)@.len() == old(dest)@.len(),
        filled ==> popped_bytes(*final(consumer)) == popped_bytes(*old(consumer)) + final(dest)@,
        !filled ==> final(dest)@ == old(dest)@,
        !filled ==> popped_bytes(*final(consumer)) == popped_bytes(*old(consumer)),
{
    consumer.pop_entire_slice(dest).is_ok()
}

} // verus!
