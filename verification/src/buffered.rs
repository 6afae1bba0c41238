//! The interrupt-driven driver with growable software queues.
//!
//! Received bytes are staged in `rx_buffer` by the interrupt path and handed
//! out by non-blocking reads; writes stage bytes in `tx_buffer`, which the
//! interrupt path drains into the hardware transmit register a FIFO's worth
//! at a time. Backpressure: when a queue reaches its cap, the interrupt that
//! produces into it is disabled instead of letting it grow.
//!
//! The two `*_intr_enabled` fields mirror the hardware interrupt-enable
//! register; after any call that changes one, the runtime must write the
//! corresponding enable bit to match.

use vstd::prelude::*;

use crate::events::{spec_trace, HandlerOutcome, TraceEvent, UartEvent};
use crate::hw::{init_ops, spec_init_ops, FifoTrigger, RegOp};
use crate::queue::ByteQueue;
use crate::{sat_add, spec_sat_add, SerialError};
use crate::{DEFAULT_RX_BUFFER_SIZE, DEFAULT_TX_BUFFER_SIZE, FIFO_DEPTH};

verus! {

/// The buffered driver's state as pure values: queue contents, diagnostic
/// counters, and the mirrored interrupt-enable flags.
#[verifier::ext_equal]
pub ghost struct BufferedModel {
    pub rx: Seq<u8>,
    pub tx: Seq<u8>,
    pub rx_cap: int,
    pub tx_cap: int,
    pub rx_count: int,
    pub tx_count: int,
    pub intr_count: int,
    pub rx_intr_count: int,
    pub tx_intr_count: int,
    pub rx_intr_enabled: bool,
    pub tx_intr_enabled: bool,
}

/// One receive cause: append the presented bytes to the receive queue until
/// it reaches its cap; bytes beyond that point are dropped and the
/// receive-data-available interrupt is disabled (backpressure).
pub open spec fn spec_rx_step(m: BufferedModel, bytes: Seq<u8>) -> BufferedModel {
    let free = m.rx_cap - m.rx.len();
    let k = if bytes.len() <= free {
        bytes.len() as int
    } else {
        free
    };
    BufferedModel {
        rx: m.rx + bytes.take(k),
        rx_count: spec_sat_add(m.rx_count, k),
        rx_intr_count: spec_sat_add(m.rx_intr_count, 1),
        rx_intr_enabled: if bytes.len() > free {
            false
        } else {
            m.rx_intr_enabled
        },
        ..m
    }
}

/// One transmitter-holding-empty cause: pop up to a FIFO's worth of bytes
/// for the transmit register; if the queue empties before that, the
/// transmit interrupt is disabled. Returns the new state and the bytes sent.
pub open spec fn spec_tx_step(m: BufferedModel) -> (BufferedModel, Seq<u8>) {
    let k = if m.tx.len() <= FIFO_DEPTH {
        m.tx.len() as int
    } else {
        FIFO_DEPTH as int
    };
    (
        BufferedModel {
            tx: m.tx.skip(k),
            tx_count: spec_sat_add(m.tx_count, k),
            tx_intr_count: spec_sat_add(m.tx_intr_count, 1),
            tx_intr_enabled: if m.tx.len() < FIFO_DEPTH {
                false
            } else {
                m.tx_intr_enabled
            },
            ..m
        },
        m.tx.take(k),
    )
}

/// The dispatch on one interrupt cause: modem-status and unrecognized causes
/// only count; every cause counts toward `intr_count` exactly once.
pub open spec fn spec_step(m: BufferedModel, ev: UartEvent) -> (BufferedModel, Seq<u8>) {
    let m1 = BufferedModel { intr_count: spec_sat_add(m.intr_count, 1), ..m };
    match ev {
        UartEvent::ReceivedDataAvailable(bytes) => (spec_rx_step(m1, bytes@), Seq::<u8>::empty()),
        UartEvent::CharacterTimeout(bytes) => (spec_rx_step(m1, bytes@), Seq::<u8>::empty()),
        UartEvent::TransmitterHoldingEmpty => spec_tx_step(m1),
        UartEvent::ModemStatus => (m1, Seq::<u8>::empty()),
        UartEvent::Unrecognized(_) => (m1, Seq::<u8>::empty()),
    }
}

/// A whole interrupt-handler invocation: the causes of one batch processed
/// in order, each exactly once; the sent bytes are concatenated in order.
pub open spec fn spec_run(m: BufferedModel, events: Seq<UartEvent>) -> (BufferedModel, Seq<u8>)
    decreases events.len(),
{
    if events.len() == 0 {
        (m, Seq::<u8>::empty())
    } else {
        let first = spec_step(m, events[0]);
        let rest = spec_run(first.0, events.skip(1));
        (rest.0, first.1 + rest.1)
    }
}

/// Interrupt-driven driver over one UART instance, with growable receive and
/// transmit queues and non-blocking byte operations.
pub struct BufferedSerial {
    /// Base address of the register block this driver was constructed over;
    /// exclusively owned by this instance.
    pub base_address: usize,
    pub rx_buffer: ByteQueue,
    pub tx_buffer: ByteQueue,
    pub rx_count: usize,
    pub tx_count: usize,
    pub intr_count: usize,
    pub rx_intr_count: usize,
    pub tx_intr_count: usize,
    pub tx_fifo_count: usize,
    /// Mirror of the hardware's received-data-available interrupt enable.
    pub rx_intr_enabled: bool,
    /// Mirror of the hardware's transmitter-holding-empty interrupt enable.
    pub tx_intr_enabled: bool,
}

impl BufferedSerial {
    /// Both queues within their caps, which are the driver's fixed defaults.
    pub open spec fn wf(&self) -> bool {
        &&& self.rx_buffer.wf()
        &&& self.tx_buffer.wf()
        &&& self.rx_buffer.cap == DEFAULT_RX_BUFFER_SIZE
        &&& self.tx_buffer.cap == DEFAULT_TX_BUFFER_SIZE
    }

    /// The driver's state as pure values.
    pub open spec fn model(&self) -> BufferedModel {
        BufferedModel {
            rx: self.rx_buffer@,
            tx: self.tx_buffer@,
            rx_cap: self.rx_buffer.cap as int,
            tx_cap: self.tx_buffer.cap as int,
            rx_count: self.rx_count as int,
            tx_count: self.tx_count as int,
            intr_count: self.intr_count as int,
            rx_intr_count: self.rx_intr_count as int,
            tx_intr_count: self.tx_intr_count as int,
            rx_intr_enabled: self.rx_intr_enabled,
            tx_intr_enabled: self.tx_intr_enabled,
        }
    }

    /// Creates a driver bound to one hardware base address, with empty
    /// queues, zero counters, and both interrupts mirrored as disabled.
    pub fn new(base_address: usize) -> (s: Self)
        ensures
            s.wf(),
            s.base_address == base_address,
            s.rx_buffer@ == Seq::<u8>::empty(),
            s.tx_buffer@ == Seq::<u8>::empty(),
            s.rx_count == 0,
            s.tx_count == 0,
            s.intr_count == 0,
            s.rx_intr_count == 0,
            s.tx_intr_count == 0,
            s.tx_fifo_count == 0,
            !s.rx_intr_enabled,
            !s.tx_intr_enabled,
    {
        BufferedSerial {
            base_address,
            rx_buffer: ByteQueue::new(DEFAULT_RX_BUFFER_SIZE),
            tx_buffer: ByteQueue::new(DEFAULT_TX_BUFFER_SIZE),
            rx_count: 0,
            tx_count: 0,
            intr_count: 0,
            rx_intr_count: 0,
            tx_intr_count: 0,
            tx_fifo_count: 0,
            rx_intr_enabled: false,
            tx_intr_enabled: false,
        }
    }

    /// Marks the received-data-available interrupt enabled; the runtime must
    /// set the matching interrupt-enable bit.
    pub fn enable_rdai(&mut self)
        ensures
            *final(self) == (BufferedSerial { rx_intr_enabled: true, ..*old(self) }),
    {
        self.rx_intr_enabled = true;
    }

    /// Marks the received-data-available interrupt disabled; the runtime
    /// must clear the matching interrupt-enable bit.
    pub fn disable_rdai(&mut self)
        ensures
            *final(self) == (BufferedSerial { rx_intr_enabled: false, ..*old(self) }),
    {
        self.rx_intr_enabled = false;
    }

    /// Marks the transmitter-holding-empty interrupt enabled; the runtime
    /// must set the matching interrupt-enable bit.
    pub fn enable_threi(&mut self)
        ensures
            *final(self) == (BufferedSerial { tx_intr_enabled: true, ..*old(self) }),
    {
        self.tx_intr_enabled = true;
    }

    /// Marks the transmitter-holding-empty interrupt disabled; the runtime
    /// must clear the matching interrupt-enable bit.
    pub fn disable_threi(&mut self)
        ensures
            *final(self) == (BufferedSerial { tx_intr_enabled: false, ..*old(self) }),
    {
        self.tx_intr_enabled = false;
    }

    /// The register accesses that initialize the hardware for this driver:
    /// FIFOs enabled with a one-character trigger (this driver drains every
    /// byte as it arrives), and the received-data-available interrupt
    /// enabled as the final step.
    pub fn hardware_init(&mut self, baud_rate: usize) -> (ops: Vec<RegOp>)
        requires
            baud_rate > 0,
            16 * baud_rate <= usize::MAX,
        ensures
            ops@ == spec_init_ops(baud_rate, true, FifoTrigger::OneCharacter, true),
            *final(self) == (BufferedSerial { rx_intr_enabled: true, ..*old(self) }),
    {
        let ops = init_ops(baud_rate, true, FifoTrigger::OneCharacter, true);
        self.enable_rdai();
        ops
    }

    /// Non-blocking write: queues the byte and makes sure the transmit
    /// interrupt is on, or fails with `WouldBlock` exactly when the transmit
    /// queue is at its cap (the driver is then unchanged).
    pub fn try_write(&mut self, word: u8) -> (r: Result<(), SerialError>)
        requires
            old(self).wf(),
        ensures
            final(self).wf(),
            old(self).tx_buffer@.len() >= old(self).tx_buffer.cap ==> r == Err::<(),
                SerialError,
            >(SerialError::WouldBlock) && *final(self) == *old(self),
            old(self).tx_buffer@.len() < old(self).tx_buffer.cap ==> r == Ok::<(),
                SerialError,
            >(()) && final(self).tx_buffer@ == old(self).tx_buffer@.push(word) && *final(self)
                == (BufferedSerial {
                tx_buffer: final(self).tx_buffer,
                tx_intr_enabled: true,
                ..*old(self)
            }) && final(self).tx_buffer.cap == old(self).tx_buffer.cap,
    {
        if self.tx_buffer.is_full() {
            Err(SerialError::WouldBlock)
        } else {
            let _ = self.tx_buffer.push_back(word);
            if !self.tx_intr_enabled {
                self.enable_threi();
            }
            Ok(())
        }
    }

    /// Non-blocking read: dequeues the oldest received byte, or fails with
    /// `WouldBlock` when the receive queue is empty, re-enabling the receive
    /// interrupt so more data can arrive.
    pub fn try_read(&mut self) -> (r: Result<u8, SerialError>)
        requires
            old(self).wf(),
        ensures
            final(self).wf(),
            old(self).rx_buffer@.len() == 0 ==> r == Err::<u8, SerialError>(
                SerialError::WouldBlock,
            ) && *final(self) == (BufferedSerial { rx_intr_enabled: true, ..*old(self) }),
            old(self).rx_buffer@.len() > 0 ==> r == Ok::<u8, SerialError>(
                old(self).rx_buffer@[0],
            ) && final(self).rx_buffer@ == old(self).rx_buffer@.skip(1) && *final(self)
                == (BufferedSerial { rx_buffer: final(self).rx_buffer, ..*old(self) })
                && final(self).rx_buffer.cap == old(self).rx_buffer.cap,
    {
        match self.rx_buffer.pop_front() {
            Some(ch) => Ok(ch),
            None => {
                if !self.rx_intr_enabled {
                    self.enable_rdai();
                }
                Err(SerialError::WouldBlock)
            },
        }
    }

    /// Handles one receive cause: drains the presented bytes into the
    /// receive queue up to its cap, dropping the rest and disabling the
    /// receive interrupt on overflow.
    fn handle_rx(&mut self, bytes: &Vec<u8>)
        requires
            old(self).wf(),
        ensures
            final(self).wf(),
            final(self).model() == spec_rx_step(old(self).model(), bytes@),
            final(self).base_address == old(self).base_address,
            final(self).tx_fifo_count == old(self).tx_fifo_count,
    {
        let ghost m0 = old(self).model();
        let ghost free0 = m0.rx_cap - m0.rx.len();
        let mut i: usize = 0;
        let mut overflow = false;
        while i < bytes.len() && !overflow
            invariant
                old(self).wf(),
                self.wf(),
                i <= bytes@.len(),
                i <= free0,
                self.rx_buffer@ == old(self).rx_buffer@ + bytes@.take(i as int),
                self.rx_buffer.cap == old(self).rx_buffer.cap,
                self.tx_buffer == old(self).tx_buffer,
                self.base_address == old(self).base_address,
                self.rx_count == old(self).rx_count,
                self.tx_count == old(self).tx_count,
                self.intr_count == old(self).intr_count,
                self.rx_intr_count == old(self).rx_intr_count,
                self.tx_intr_count == old(self).tx_intr_count,
                self.tx_fifo_count == old(self).tx_fifo_count,
                self.rx_intr_enabled == old(self).rx_intr_enabled,
                self.tx_intr_enabled == old(self).tx_intr_enabled,
                overflow ==> i < bytes@.len() && i == free0,
                free0 == old(self).rx_buffer.cap - old(self).rx_buffer@.len(),
            decreases bytes@.len() - i, if overflow {
                0int
            } else {
                1int
            },
        {
            if self.rx_buffer.is_full() {
                overflow = true;
            } else {
                let _ = self.rx_buffer.push_back(bytes[i]);
                proof {
                    assert(self.rx_buffer@ =~= old(self).rx_buffer@ + bytes@.take(i + 1));
                }
                i = i + 1;
            }
        }
        if overflow {
            self.disable_rdai();
        }
        self.rx_count = sat_add(self.rx_count, i);
        self.rx_intr_count = sat_add(self.rx_intr_count, 1);
        proof {
            if !overflow {
                assert(i == bytes@.len());
            }
            assert(final(self).model() =~= spec_rx_step(m0, bytes@));
        }
    }

    /// Handles one transmitter-holding-empty cause: pops up to a FIFO's
    /// worth of bytes for the transmit register, disabling the transmit
    /// interrupt if the queue empties first.
    fn handle_tx(&mut self) -> (sent: Vec<u8>)
        requires
            old(self).wf(),
        ensures
            final(self).wf(),
            final(self).model() == spec_tx_step(old(self).model()).0,
            sent@ == spec_tx_step(old(self).model()).1,
            final(self).base_address == old(self).base_address,
            final(self).tx_fifo_count == old(self).tx_fifo_count,
    {
        let ghost m0 = old(self).model();
        let mut sent: Vec<u8> = Vec::new();
        let mut j: usize = 0;
        let mut emptied = false;
        while j < FIFO_DEPTH && !emptied
            invariant
                old(self).wf(),
                self.wf(),
                j <= FIFO_DEPTH,
                j <= old(self).tx_buffer@.len(),
                sent@ == old(self).tx_buffer@.take(j as int),
                self.tx_buffer@ == old(self).tx_buffer@.skip(j as int),
                self.tx_buffer.cap == old(self).tx_buffer.cap,
                self.rx_buffer == old(self).rx_buffer,
                self.base_address == old(self).base_address,
                self.rx_count == old(self).rx_count,
                self.tx_count == old(self).tx_count,
                self.intr_count == old(self).intr_count,
                self.rx_intr_count == old(self).rx_intr_count,
                self.tx_intr_count == old(self).tx_intr_count,
                self.tx_fifo_count == old(self).tx_fifo_count,
                self.rx_intr_enabled == old(self).rx_intr_enabled,
                emptied ==> j == old(self).tx_buffer@.len() && j < FIFO_DEPTH
                    && !self.tx_intr_enabled,
                !emptied ==> self.tx_intr_enabled == old(self).tx_intr_enabled,
            decreases FIFO_DEPTH - j, if emptied {
                0int
            } else {
                1int
            },
        {
            match self.tx_buffer.pop_front() {
                Some(ch) => {
                    sent.push(ch);
                    proof {
                        assert(sent@ =~= old(self).tx_buffer@.take(j + 1));
                    }
                    j = j + 1;
                },
                None => {
                    self.disable_threi();
                    emptied = true;
                },
            }
        }
        self.tx_count = sat_add(self.tx_count, j);
        self.tx_intr_count = sat_add(self.tx_intr_count, 1);
        proof {
            assert(final(self).model() =~= spec_tx_step(m0).0);
        }
        sent
    }

    /// Dispatches one interrupt cause: receive causes drain into the receive
    /// queue, a transmit cause refills the hardware FIFO from the transmit
    /// queue, modem-status and unrecognized causes are counted only. Returns
    /// the bytes to write to the transmit-holding register, in order.
    pub fn handle_cause(&mut self, ev: &UartEvent) -> (sent: Vec<u8>)
        requires
            old(self).wf(),
        ensures
            final(self).wf(),
            final(self).model() == spec_step(old(self).model(), *ev).0,
            sent@ == spec_step(old(self).model(), *ev).1,
            final(self).base_address == old(self).base_address,
            final(self).tx_fifo_count == old(self).tx_fifo_count,
    {
        self.intr_count = sat_add(self.intr_count, 1);
        match ev {
            UartEvent::ReceivedDataAvailable(bytes) => {
                self.handle_rx(bytes);
                Vec::new()
            },
            UartEvent::CharacterTimeout(bytes) => {
                self.handle_rx(bytes);
                Vec::new()
            },
            UartEvent::TransmitterHoldingEmpty => self.handle_tx(),
            UartEvent::ModemStatus => Vec::new(),
            UartEvent::Unrecognized(_) => Vec::new(),
        }
    }

    /// Handles one finite batch of pending interrupt causes, each exactly
    /// once and in order, and terminates. The state change and the bytes
    /// sent are exactly those of `spec_run`; the trace brackets every cause
    /// with one entry and one exit record.
    pub fn interrupt_handler(&mut self, events: &Vec<UartEvent>) -> (out: HandlerOutcome)
        requires
            old(self).wf(),
        ensures
            final(self).wf(),
            final(self).model() == spec_run(old(self).model(), events@).0,
            out.tx_bytes@ == spec_run(old(self).model(), events@).1,
            out.trace@ == spec_trace(events@),
            final(self).base_address == old(self).base_address,
            final(self).tx_fifo_count == old(self).tx_fifo_count,
    {
        let ghost m0 = old(self).model();
        let mut tx_bytes: Vec<u8> = Vec::new();
        let mut trace: Vec<TraceEvent> = Vec::new();
        let mut i: usize = 0;
        proof {
            assert(events@.skip(0) =~= events@);
            assert(Seq::<u8>::empty() + spec_run(m0, events@).1 =~= spec_run(m0, events@).1);
            assert(Seq::<TraceEvent>::empty() + spec_trace(events@) =~= spec_trace(events@));
        }
        while i < events.len()
            invariant
                old(self).wf(),
                self.wf(),
                i <= events@.len(),
                spec_run(m0, events@).0 == spec_run(self.model(), events@.skip(i as int)).0,
                spec_run(m0, events@).1 == tx_bytes@ + spec_run(
                    self.model(),
                    events@.skip(i as int),
                ).1,
                spec_trace(events@) == trace@ + spec_trace(events@.skip(i as int)),
                self.base_address == old(self).base_address,
                self.tx_fifo_count == old(self).tx_fifo_count,
                m0 == old(self).model(),
            decreases events@.len() - i,
        {
            let ev = &events[i];
            proof {
                assert(events@.skip(i as int)[0] == events@[i as int]);
                assert(events@.skip(i as int).skip(1) =~= events@.skip(i as int + 1));
            }
            let ghost m_before = self.model();
            let ghost trace0 = trace@;
            let ghost tx0 = tx_bytes@;
            trace.push(TraceEvent::Enter(ev.cause_id()));
            let mut sent = self.handle_cause(ev);
            trace.push(TraceEvent::Exit(ev.cause_id()));
            let ghost sent_view = sent@;
            tx_bytes.append(&mut sent);
            proof {
                let rest = spec_run(self.model(), events@.skip(i as int + 1));
                assert(spec_run(m_before, events@.skip(i as int)).0 == rest.0);
                assert(spec_run(m_before, events@.skip(i as int)).1 == sent_view + rest.1);
                assert(tx_bytes@ =~= tx0 + sent_view);
                assert(tx0 + (sent_view + rest.1) =~= (tx0 + sent_view) + rest.1);
                let ghost id = events@[i as int].spec_cause_id();
                let pair = seq![TraceEvent::Enter(id), TraceEvent::Exit(id)];
                assert(spec_trace(events@.skip(i as int)) == pair + spec_trace(
                    events@.skip(i as int + 1),
                ));
                assert(trace@ =~= trace0 + pair);
                assert(trace0 + (pair + spec_trace(events@.skip(i as int + 1))) =~= (trace0 + pair)
                    + spec_trace(events@.skip(i as int + 1)));
            }
            i = i + 1;
        }
        proof {
            assert(events@.skip(events@.len() as int) =~= Seq::<UartEvent>::empty());
            assert(spec_run(self.model(), Seq::<UartEvent>::empty()).1 =~= Seq::<u8>::empty());
            assert(spec_run(m0, events@).1 =~= tx_bytes@);
            assert(spec_trace(Seq::<UartEvent>::empty()) =~= Seq::<TraceEvent>::empty());
            assert(spec_trace(events@) =~= trace@);
        }
        HandlerOutcome { tx_bytes, trace }
    }
}

} // verus!
