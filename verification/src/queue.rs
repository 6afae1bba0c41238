//! A growable byte queue with a soft capacity cap.
//!
//! The buffered driver stages received and pending-transmit bytes here. The
//! queue grows on demand but never holds more than `cap` bytes: production
//! beyond the cap fails and hands the byte back, so the driver can apply
//! backpressure instead of growing without bound.

use vstd::prelude::*;

verus! {

/// FIFO byte queue whose length never exceeds its capacity cap.
pub struct ByteQueue {
    pub data: Vec<u8>,
    pub cap: usize,
}

impl View for ByteQueue {
    type V = Seq<u8>;

    open spec fn view(&self) -> Seq<u8> {
        self.data@
    }
}

impl ByteQueue {
    /// Length bounded by the capacity cap, always.
    pub open spec fn wf(&self) -> bool {
        self@.len() <= self.cap
    }

    /// Creates an empty queue with the given capacity cap.
    pub fn new(cap: usize) -> (q: Self)
        ensures
            q@ == Seq::<u8>::empty(),
            q.cap == cap,
            q.wf(),
    {
        ByteQueue { data: Vec::new(), cap }
    }

    /// Number of bytes currently queued.
    pub fn len(&self) -> (n: usize)
        ensures
            n == self@.len(),
    {
        self.data.len()
    }

    /// Whether the queue holds no bytes.
    pub fn is_empty(&self) -> (e: bool)
        ensures
            e == (self@.len() == 0),
    {
        self.data.len() == 0
    }

    /// Whether the queue has reached its capacity cap.
    pub fn is_full(&self) -> (f: bool)
        ensures
            f == (self@.len() >= self.cap),
    {
        self.data.len() >= self.cap
    }

    /// Appends a byte at the tail. Fails and hands the byte back exactly
    /// when the queue is at its cap; the queue is then unchanged.
    pub fn push_back(&mut self, byte: u8) -> (r: Result<(), u8>)
        requires
            old(self).wf(),
        ensures
            final(self).wf(),
            final(self).cap == old(self).cap,
            old(self)@.len() < old(self).cap ==> r == Ok::<(), u8>(())
                && final(self)@ == old(self)@.push(byte),
            old(self)@.len() >= old(self).cap ==> r == Err::<(), u8>(byte)
                && *final(self) == *old(self),
    {
        if self.data.len() < self.cap {
            self.data.push(byte);
            Ok(())
        } else {
            Err(byte)
        }
    }

    /// Removes and returns the oldest byte; `None` exactly when empty.
    pub fn pop_front(&mut self) -> (r: Option<u8>)
        requires
            old(self).wf(),
        ensures
            final(self).wf(),
            final(self).cap == old(self).cap,
            old(self)@.len() == 0 ==> r is None && *final(self) == *old(self),
            old(self)@.len() > 0 ==> r == Some(old(self)@[0])
                && final(self)@ == old(self)@.skip(1),
    {
        if self.data.len() > 0 {
            let b = self.data.remove(0);
            proof {
                assert(self.data@ =~= old(self).data@.skip(1));
            }
            Some(b)
        } else {
            None
        }
    }
}

} // verus!
