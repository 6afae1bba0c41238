//! Task-side suspension operations of the asynchronous driver.
//!
//! A read or write operation is a state machine the scheduler drives: after
//! registering a continuation with the driver, the task calls `poll` on each
//! resume. A poll transfers as many bytes as the rings currently allow; if
//! the operation is not yet complete it re-enables the interrupt that will
//! produce the missing progress, and the caller suspends until the interrupt
//! handler delivers the registered wake. Ready is terminal; there is no
//! cancellation.

use vstd::prelude::*;

use crate::asynchronous::AsyncSerial;

verus! {

/// How many bytes a poll transfers: all it needs, or all that is available,
/// whichever is smaller.
pub open spec fn spec_transfer(need: int, avail: int) -> int {
    if need <= avail {
        need
    } else {
        avail
    }
}

/// A suspended read of `target_len` bytes; `buf` collects the bytes received
/// so far, in delivery order.
pub struct ReadOperation {
    pub buf: Vec<u8>,
    pub target_len: usize,
}

impl ReadOperation {
    /// Never holds more than the requested length.
    pub open spec fn wf(&self) -> bool {
        self.buf@.len() <= self.target_len
    }

    /// Starts a read of `target_len` bytes.
    pub fn new(target_len: usize) -> (op: Self)
        ensures
            op.wf(),
            op.buf@ == Seq::<u8>::empty(),
            op.target_len == target_len,
    {
        ReadOperation { buf: Vec::new(), target_len }
    }

    /// One resume of the operation: drains the driver's receive ring into
    /// the buffer, up to the buffer's remaining room. Completes exactly when
    /// the buffer reaches its target length; otherwise re-enables the
    /// receive interrupt and reports pending, so the caller suspends.
    pub fn poll(&mut self, driver: &mut AsyncSerial) -> (ready: bool)
        requires
            old(self).wf(),
            old(driver).wf(),
        ensures
            final(self).wf(),
            final(driver).wf(),
            final(self).target_len == old(self).target_len,
            ({
                let k = spec_transfer(
                    old(self).target_len - old(self).buf@.len(),
                    old(driver).rx_ring@.len() as int,
                );
                &&& final(self).buf@ == old(self).buf@ + old(driver).rx_ring@.take(k)
                &&& final(driver).rx_ring@ == old(driver).rx_ring@.skip(k)
                &&& ready == (old(self).buf@.len() + k == old(self).target_len)
            }),
            !ready ==> final(driver).rx_intr_enabled,
            ready ==> final(driver).rx_intr_enabled == old(driver).rx_intr_enabled,
            *final(driver) == (AsyncSerial {
                rx_ring: final(driver).rx_ring,
                rx_intr_enabled: final(driver).rx_intr_enabled,
                ..*old(driver)
            }),
            final(driver).rx_ring.cap == old(driver).rx_ring.cap,
    {
        let mut drained = false;
        while self.buf.len() < self.target_len && !drained
            invariant
                self.wf(),
                driver.wf(),
                self.target_len == old(self).target_len,
                old(self).buf@.len() <= self.buf@.len(),
                self.buf@ == old(self).buf@ + old(driver).rx_ring@.take(
                    self.buf@.len() - old(self).buf@.len(),
                ),
                self.buf@.len() - old(self).buf@.len() <= old(driver).rx_ring@.len(),
                driver.rx_ring@ == old(driver).rx_ring@.skip(
                    self.buf@.len() - old(self).buf@.len(),
                ),
                driver.rx_ring.cap == old(driver).rx_ring.cap,
                *driver == (AsyncSerial { rx_ring: driver.rx_ring, ..*old(driver) }),
                drained ==> driver.rx_ring@.len() == 0,
            decreases self.target_len - self.buf@.len(), if drained {
                0int
            } else {
                1int
            },
        {
            let ghost j = self.buf@.len() - old(self).buf@.len();
            match driver.try_read() {
                Some(data) => {
                    self.buf.push(data);
                    proof {
                        assert(old(driver).rx_ring@.skip(j)[0] == old(driver).rx_ring@[j]);
                        assert(self.buf@ =~= old(self).buf@ + old(driver).rx_ring@.take(j + 1));
                        assert(old(driver).rx_ring@.skip(j).skip(1) =~= old(driver).rx_ring@.skip(
                            j + 1,
                        ));
                    }
                },
                None => {
                    drained = true;
                },
            }
        }
        if self.buf.len() < self.target_len {
            if !driver.rx_intr_enabled {
                driver.enable_rdai();
            }
            false
        } else {
            true
        }
    }
}

/// A suspended write of a whole buffer; `write_len` counts how many of its
/// bytes have been enqueued for transmission so far.
pub struct WriteOperation {
    pub buf: Vec<u8>,
    pub write_len: usize,
}

impl WriteOperation {
    /// Never claims to have sent more than the buffer holds.
    pub open spec fn wf(&self) -> bool {
        self.write_len <= self.buf@.len()
    }

    /// Starts a write of the given bytes.
    pub fn new(buf: Vec<u8>) -> (op: Self)
        ensures
            op.wf(),
            op.buf == buf,
            op.write_len == 0,
    {
        WriteOperation { buf, write_len: 0 }
    }

    /// One resume of the operation: pushes the buffer's unsent bytes into
    /// the driver's transmit ring until the ring fills. Completes exactly
    /// when every byte has been enqueued; otherwise re-enables the transmit
    /// interrupt and reports pending, so the caller suspends.
    pub fn poll(&mut self, driver: &mut AsyncSerial) -> (ready: bool)
        requires
            old(self).wf(),
            old(driver).wf(),
        ensures
            final(self).wf(),
            final(driver).wf(),
            final(self).buf == old(self).buf,
            ({
                let k = spec_transfer(
                    old(self).buf@.len() - old(self).write_len,
                    old(driver).tx_ring.cap - old(driver).tx_ring@.len(),
                );
                &&& final(self).write_len == old(self).write_len + k
                &&& final(driver).tx_ring@ == old(driver).tx_ring@ + old(self).buf@.subrange(
                    old(self).write_len as int,
                    old(self).write_len + k,
                )
                &&& ready == (old(self).write_len + k == old(self).buf@.len())
            }),
            !ready ==> final(driver).tx_intr_enabled,
            ready ==> final(driver).tx_intr_enabled == old(driver).tx_intr_enabled,
            *final(driver) == (AsyncSerial {
                tx_ring: final(driver).tx_ring,
                tx_intr_enabled: final(driver).tx_intr_enabled,
                ..*old(driver)
            }),
            final(driver).tx_ring.cap == old(driver).tx_ring.cap,
    {
        let ghost free0 = old(driver).tx_ring.cap - old(driver).tx_ring@.len();
        let mut full = false;
        while self.write_len < self.buf.len() && !full
            invariant
                self.wf(),
                driver.wf(),
                self.buf == old(self).buf,
                old(self).write_len <= self.write_len,
                self.write_len - old(self).write_len <= free0,
                driver.tx_ring@ == old(driver).tx_ring@ + old(self).buf@.subrange(
                    old(self).write_len as int,
                    self.write_len as int,
                ),
                driver.tx_ring.cap == old(driver).tx_ring.cap,
                *driver == (AsyncSerial { tx_ring: driver.tx_ring, ..*old(driver) }),
                full ==> self.write_len < self.buf@.len() && self.write_len - old(self).write_len
                    == free0,
                free0 == old(driver).tx_ring.cap - old(driver).tx_ring@.len(),
            decreases self.buf@.len() - self.write_len, if full {
                0int
            } else {
                1int
            },
        {
            let ghost j = self.write_len as int;
            match driver.try_write(self.buf[self.write_len]) {
                Ok(()) => {
                    self.write_len = self.write_len + 1;
                    proof {
                        assert(driver.tx_ring@ =~= old(driver).tx_ring@ + old(
                            self,
                        ).buf@.subrange(old(self).write_len as int, j + 1));
                    }
                },
                Err(_) => {
                    full = true;
                },
            }
        }
        if self.write_len < self.buf.len() {
            if !driver.tx_intr_enabled {
                driver.enable_threi();
            }
            false
        } else {
            true
        }
    }
}

} // verus!
