//! Fixed-capacity FIFO queue of samples, backed by the lock-free
//! single-producer single-consumer ring buffer of the `ringbuf`
//! crate. The producer and consumer halves are held together here;
//! the contracts describe the queue as one sequence of samples,
//! oldest first.

use vstd::prelude::*;

verus! {

/// A bounded FIFO queue of samples. Holds the two halves that
/// `ringbuf::RingBuffer::split` returns; the audio glue outside this
/// crate runs the same ring with the halves on separate threads.
#[verifier::external_body]
pub struct SampleRing {
    prod: ringbuf::Producer<i32>,
    cons: ringbuf::Consumer<i32>,
}

/// The samples the ring currently holds, oldest first.
pub uninterp spec fn ring_contents(r: SampleRing) -> Seq<i32>;

/// The fixed capacity the ring was created with.
pub uninterp spec fn ring_capacity(r: SampleRing) -> nat;

impl SampleRing {
    /// Relies on `ringbuf::RingBuffer::new` and `split`: a buffer of
    /// `capacity` usable slots that starts empty. The implementation
    /// allocates `capacity + 1` slots, so the largest machine word is
    /// excluded: there the sum would overflow before a ring exists.
    #[verifier::external_body]
    pub fn new(capacity: usize) -> (r: SampleRing)
        requires
            capacity < usize::MAX,
        ensures
            ring_capacity(r) == capacity,
            ring_contents(r) == Seq::<i32>::empty(),
    {
        let (prod, cons) = ringbuf::RingBuffer::new(capacity).split();
        SampleRing { prod, cons }
    }

    /// Relies on `ringbuf::Producer::push`: appends the element at
    /// the tail when the buffer is not full, and otherwise hands it
    /// back untouched, leaving the buffer as it was.
    #[verifier::external_body]
    pub fn push(&mut self, x: i32) -> (accepted: bool)
        ensures
            ring_capacity(*final(self)) == ring_capacity(*old(self)),
            accepted == (ring_contents(*old(self)).len() < ring_capacity(*old(self))),
            accepted ==> ring_contents(*final(self)) == ring_contents(*old(self)).push(x),
            !accepted ==> ring_contents(*final(self)) == ring_contents(*old(self)),
    {
        self.prod.push(x).is_ok()
    }

    /// Relies on `ringbuf::Consumer::pop`: removes and returns the
    /// oldest element, or returns nothing from an empty buffer.
    #[verifier::external_body]
    pub fn pop(&mut self) -> (r: Option<i32>)
        ensures
            ring_capacity(*final(self)) == ring_capacity(*old(self)),
            ring_contents(*old(self)).len() > 0 ==> r == Some(ring_contents(*old(self))[0])
                && ring_contents(*final(self)) == ring_contents(*old(self)).drop_first(),
            ring_contents(*old(self)).len() == 0 ==> r == None::<i32> && ring_contents(
                *final(self),
            ) == ring_contents(*old(self)),
    {
        self.cons.pop()
    }
}

} // verus!
