//! The bounded single-producer single-consumer rings that carry messages
//! between the threads of the player.
//!
//! A ring is shared with another thread, so what one of its ends holds at a
//! given moment is not a function of what this side did. The contracts below
//! therefore say nothing of what a ring holds; they say what each call does
//! with the value that is handed to it.

use vstd::prelude::*;

verus! {

/// The largest capacity a ring of this crate is made with.
pub const MESSAGE_BUFFER_SIZE: usize = 16384;

/// The capacity of the ring from the manager to the audio callback.
pub const MANAGER_TO_PROCESS_CAPACITY: usize = 64;

/// The capacity of the ring from the audio callback to the manager.
pub const PROCESS_TO_MANAGER_CAPACITY: usize = 256;

/// The writing end of a ring, `rtrb::Producer`. Nothing is known of its state.
#[verifier::external_type_specification]
#[verifier::external_body]
#[verifier::reject_recursive_types(T)]
pub struct ExProducer<T>(rtrb::Producer<T>);

/// The reading end of a ring, `rtrb::Consumer`. Nothing is known of its state.
#[verifier::external_type_specification]
#[verifier::external_body]
#[verifier::reject_recursive_types(T)]
pub struct ExConsumer<T>(rtrb::Consumer<T>);

/// Makes a ring with `rtrb::RingBuffer::new` and returns its two ends. The
/// call allocates `capacity` slots at once and panics where their size in
/// bytes does not fit `isize`; the bound on `capacity` keeps the messages of
/// this crate, which are a few machine words each, far below that. Nothing
/// is claimed of the ends.
#[verifier::external_body]
pub(crate) fn ring_buffer<T>(capacity: usize) -> (ends: (rtrb::Producer<T>, rtrb::Consumer<T>))
    requires
        capacity <= MESSAGE_BUFFER_SIZE,
{
    rtrb::RingBuffer::new(capacity)
}

/// Offers `value` to the ring with `rtrb::Producer::push`. The ring either
/// takes the value, or it is full and hands the same value back; which of
/// the two happens depends on the reading thread. The call writes one slot
/// and stores one index; there is no panic in it, which `no_unwind` claims.
#[verifier::external_body]
pub(crate) fn ring_push<T>(producer: &mut rtrb::Producer<T>, value: T) -> (rejected: Option<T>)
    ensures
        rejected matches Some(returned) ==> returned == value,
    no_unwind
{
    match producer.push(value) {
        Ok(()) => None,
        Err(rtrb::PushError::Full(returned)) => Some(returned),
    }
}

/// Takes the oldest value out of the ring with `rtrb::Consumer::pop`, or
/// returns `None` where the ring is empty. What arrives depends on the
/// writing thread, so nothing is claimed of it. The call reads one slot and
/// stores one index; there is no panic in it, which `no_unwind` claims.
#[verifier::external_body]
pub(crate) fn ring_pop<T>(consumer: &mut rtrb::Consumer<T>) -> (value: Option<T>)
    no_unwind
{
    consumer.pop().ok()
}

/// Whether the ring has no free slot at this moment, by
/// `rtrb::Producer::is_full`. The answer depends on the reading thread.
#[verifier::external_body]
pub(crate) fn ring_is_full<T>(producer: &rtrb::Producer<T>) -> (full: bool) {
    producer.is_full()
}

/// The number of values that wait in the ring at this moment, by
/// `rtrb::Consumer::slots`. The answer depends on the writing thread.
#[verifier::external_body]
pub(crate) fn ring_slots<T>(consumer: &rtrb::Consumer<T>) -> (waiting: usize) {
    consumer.slots()
}

} // verus!
