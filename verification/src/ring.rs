//! A fixed-capacity circular buffer for single-producer/single-consumer use.
//!
//! The asynchronous driver owns one per direction: the interrupt path fills
//! the receive ring and drains the transmit ring, while suspended task-side
//! operations do the opposite. Storage is allocated once at construction; a
//! full ring rejects the byte rather than growing, which is what lets the
//! driver apply backpressure by disabling the producing interrupt.

use vstd::prelude::*;

verus! {

/// Bounded FIFO of bytes over a circular storage array: `head` indexes the
/// oldest byte, `len` counts the buffered bytes, and writes wrap around the
/// end of the storage. Its length never exceeds its fixed capacity.
pub struct RingBuffer {
    pub storage: Vec<u8>,
    pub head: usize,
    pub len: usize,
    pub cap: usize,
}

impl View for RingBuffer {
    type V = Seq<u8>;

    /// The buffered bytes, oldest first: the slice from `head` toward the
    /// end of the storage, then — if the contents wrap — the slice that
    /// wrapped around to the front.
    open spec fn view(&self) -> Seq<u8> {
        if self.head + self.len <= self.cap {
            self.storage@.subrange(self.head as int, self.head + self.len)
        } else {
            self.storage@.subrange(self.head as int, self.cap as int) + self.storage@.subrange(
                0,
                self.head + self.len - self.cap,
            )
        }
    }
}

impl RingBuffer {
    /// Storage exactly `cap` bytes, head inside it, length within capacity.
    pub open spec fn wf(&self) -> bool {
        &&& self.storage@.len() == self.cap
        &&& self.len <= self.cap
        &&& if self.cap == 0 {
            self.head == 0
        } else {
            self.head < self.cap
        }
    }

    /// Free space left before the ring is full.
    pub open spec fn spec_free(&self) -> int {
        self.cap - self@.len()
    }

    /// Creates an empty ring of the given fixed capacity.
    pub fn new(capacity: usize) -> (rb: Self)
        ensures
            rb@ == Seq::<u8>::empty(),
            rb.cap == capacity,
            rb.wf(),
    {
        let mut storage: Vec<u8> = Vec::new();
        let mut i: usize = 0;
        while i < capacity
            invariant
                i <= capacity,
                storage@.len() == i,
            decreases capacity - i,
        {
            storage.push(0);
            i = i + 1;
        }
        let rb = RingBuffer { storage, head: 0, len: 0, cap: capacity };
        proof {
            assert(rb@ =~= Seq::<u8>::empty());
        }
        rb
    }

    /// Number of bytes currently buffered.
    pub fn len(&self) -> (n: usize)
        requires
            self.wf(),
        ensures
            n == self@.len(),
    {
        self.len
    }

    /// Whether the ring holds no bytes.
    pub fn is_empty(&self) -> (e: bool)
        requires
            self.wf(),
        ensures
            e == (self@.len() == 0),
    {
        self.len == 0
    }

    /// Whether the ring has reached its capacity.
    pub fn is_full(&self) -> (f: bool)
        requires
            self.wf(),
        ensures
            f == (self@.len() >= self.cap),
    {
        self.len >= self.cap
    }

    /// Produces a byte at the tail. Fails and hands the byte back exactly
    /// when the ring is full; the ring is then unchanged.
    pub fn enqueue(&mut self, byte: u8) -> (r: Result<(), u8>)
        requires
            old(self).wf(),
        ensures
            final(self).wf(),
            final(self).cap == old(self).cap,
            old(self)@.len() < old(self).cap ==> r == Ok::<(), u8>(())
                && final(self)@ == old(self)@.push(byte),
            old(self)@.len() >= old(self).cap ==> r == Err::<(), u8>(byte)
                && *final(self) == *old(self),
    {
        if self.len >= self.cap {
            return Err(byte);
        }
        // tail index, computed without wrapping past the integer range
        let idx = if self.len < self.cap - self.head {
            self.head + self.len
        } else {
            self.len - (self.cap - self.head)
        };
        self.storage.set(idx, byte);
        self.len = self.len + 1;
        proof {
            assert(final(self)@ =~= old(self)@.push(byte));
        }
        Ok(())
    }

    /// Consumes the oldest byte; `None` exactly when empty.
    pub fn dequeue(&mut self) -> (r: Option<u8>)
        requires
            old(self).wf(),
        ensures
            final(self).wf(),
            final(self).cap == old(self).cap,
            old(self)@.len() == 0 ==> r is None && *final(self) == *old(self),
            old(self)@.len() > 0 ==> r == Some(old(self)@[0])
                && final(self)@ == old(self)@.skip(1),
    {
        if self.len == 0 {
            return None;
        }
        let byte = self.storage[self.head];
        self.head = if self.head + 1 < self.cap {
            self.head + 1
        } else {
            0
        };
        self.len = self.len - 1;
        proof {
            assert(final(self)@ =~= old(self)@.skip(1));
        }
        Some(byte)
    }
}

} // verus!
