//! The pure busy-wait polling driver: no software buffers, no interrupts.
//!
//! The driver tracks how many bytes it has pushed into the hardware transmit
//! FIFO since the transmitter was last seen empty. The runtime's write loop
//! polls the line-status register and calls `try_write` with the fresh
//! transmit-holding-empty bit until the byte is accepted; `try_read` takes
//! the result of one poll of the receive register and never blocks.

use vstd::prelude::*;

use crate::hw::{init_ops, spec_init_ops, FifoTrigger, RegOp};
use crate::{sat_add, spec_sat_add, SerialError, FIFO_DEPTH};

verus! {

/// Polling driver over one UART instance. Interrupts stay disabled for its
/// whole lifetime; `interrupt_handler` exists only to satisfy the uniform
/// driver interface.
pub struct PollingSerial {
    /// Base address of the register block this driver was constructed over;
    /// exclusively owned by this instance.
    pub base_address: usize,
    pub rx_count: usize,
    pub tx_count: usize,
    /// Bytes pushed into the hardware transmit FIFO since the transmitter
    /// was last observed empty; never exceeds the FIFO depth.
    pub tx_fifo_count: usize,
}

impl PollingSerial {
    /// The local fill counter never exceeds the hardware FIFO depth.
    pub open spec fn wf(&self) -> bool {
        self.tx_fifo_count <= FIFO_DEPTH
    }

    /// Creates a polling driver bound to one hardware base address.
    pub fn new(base_address: usize) -> (s: Self)
        ensures
            s.wf(),
            s.base_address == base_address,
            s.rx_count == 0,
            s.tx_count == 0,
            s.tx_fifo_count == 0,
    {
        PollingSerial { base_address, rx_count: 0, tx_count: 0, tx_fifo_count: 0 }
    }

    /// The register accesses that initialize the hardware for this driver:
    /// FIFOs enabled with a near-full trigger, every interrupt left
    /// disabled. The driver state does not change.
    pub fn hardware_init(&mut self, baud_rate: usize) -> (ops: Vec<RegOp>)
        requires
            baud_rate > 0,
            16 * baud_rate <= usize::MAX,
        ensures
            ops@ == spec_init_ops(baud_rate, true, FifoTrigger::TwoLessThanFull, false),
            *final(self) == *old(self),
    {
        init_ops(baud_rate, true, FifoTrigger::TwoLessThanFull, false)
    }

    /// No interrupt is ever enabled for this driver, so there is never a
    /// cause to handle; present only for the uniform driver interface.
    pub fn interrupt_handler(&mut self)
        ensures
            *final(self) == *old(self),
    {
    }

    /// One step of the transmit busy-wait. `transmitter_empty` is a fresh
    /// poll of the line-status transmit-holding-empty bit. While the local
    /// fill counter says the FIFO is full and the hardware has not drained,
    /// the caller must keep polling; otherwise the byte is accepted and
    /// returned for the runtime to write to the transmit-holding register.
    pub fn try_write(&mut self, word: u8, transmitter_empty: bool) -> (r: Result<
        u8,
        SerialError,
    >)
        requires
            old(self).wf(),
        ensures
            final(self).wf(),
            old(self).tx_fifo_count >= FIFO_DEPTH && !transmitter_empty ==> r == Err::<
                u8,
                SerialError,
            >(SerialError::WouldBlock) && *final(self) == *old(self),
            old(self).tx_fifo_count >= FIFO_DEPTH && transmitter_empty ==> r == Ok::<
                u8,
                SerialError,
            >(word) && *final(self) == (PollingSerial {
                tx_count: spec_sat_add(old(self).tx_count as int, 1) as usize,
                tx_fifo_count: 1,
                ..*old(self)
            }),
            old(self).tx_fifo_count < FIFO_DEPTH ==> r == Ok::<u8, SerialError>(word)
                && *final(self) == (PollingSerial {
                tx_count: spec_sat_add(old(self).tx_count as int, 1) as usize,
                tx_fifo_count: (old(self).tx_fifo_count + 1) as usize,
                ..*old(self)
            }),
    {
        if self.tx_fifo_count >= FIFO_DEPTH {
            if !transmitter_empty {
                return Err(SerialError::WouldBlock);
            }
            self.tx_fifo_count = 0;
        }
        self.tx_count = sat_add(self.tx_count, 1);
        self.tx_fifo_count = self.tx_fifo_count + 1;
        Ok(word)
    }

    /// Non-blocking read over one poll of the hardware: `incoming` is the
    /// byte the receive register presented if the data-ready bit was set.
    /// Fails with `WouldBlock` when no byte was ready; the caller re-polls.
    pub fn try_read(&mut self, incoming: Option<u8>) -> (r: Result<u8, SerialError>)
        requires
            old(self).wf(),
        ensures
            final(self).wf(),
            incoming is None ==> r == Err::<u8, SerialError>(SerialError::WouldBlock)
                && *final(self) == *old(self),
            incoming is Some ==> r == Ok::<u8, SerialError>(incoming->0) && *final(self)
                == (PollingSerial {
                rx_count: spec_sat_add(old(self).rx_count as int, 1) as usize,
                ..*old(self)
            }),
    {
        match incoming {
            Some(ch) => {
                self.rx_count = sat_add(self.rx_count, 1);
                Ok(ch)
            },
            None => Err(SerialError::WouldBlock),
        }
    }
}

} // verus!
