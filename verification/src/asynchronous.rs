//! The asynchronous driver: bounded ring buffers, a continuation slot per
//! direction, and edge-triggered wake-ups from interrupt context.
//!
//! Task-side suspension operations (see the suspension operations module)
//! drain the receive ring and fill the transmit ring; the interrupt path
//! does the opposite. A continuation is an opaque token the scheduler hands
//! out; the driver only stores, takes and returns it. Whether the interrupt
//! path could acquire a waker slot's non-blocking lock is an input to the
//! handler: on contention the wake is skipped and the slot kept, so a later
//! successful attempt can still deliver it.
//!
//! As in the buffered driver, the two `*_intr_enabled` fields mirror the
//! hardware interrupt-enable register; the runtime keeps the hardware bits
//! in step after every call.

use vstd::prelude::*;

use crate::events::TraceEvent;
use crate::hw::{init_ops, spec_init_ops, FifoTrigger, RegOp};
use crate::ring::RingBuffer;
use crate::{sat_add, spec_sat_add, FIFO_DEPTH};

verus! {

/// Holds at most one registered task continuation; a new registration
/// overwrites the previous one rather than queueing behind it.
pub struct WakerSlot {
    pub token: Option<u64>,
}

impl WakerSlot {
    /// Creates an empty slot.
    pub fn new() -> (s: Self)
        ensures
            s.token is None,
    {
        WakerSlot { token: None }
    }

    /// Registers a continuation, replacing whatever was registered before.
    pub fn register(&mut self, token: u64)
        ensures
            final(self).token == Some(token),
    {
        self.token = Some(token);
    }

    /// Takes the registered continuation out, leaving the slot empty: each
    /// registration is woken at most once.
    pub fn take(&mut self) -> (t: Option<u64>)
        ensures
            t == old(self).token,
            final(self).token is None,
    {
        let t = self.token;
        self.token = None;
        t
    }
}

/// One pending interrupt cause of the asynchronous driver. Receive and
/// transmit causes carry whether the non-blocking attempt to lock the
/// direction's waker slot succeeded; under contention the wake is skipped.
pub enum AsyncUartEvent {
    /// Receive FIFO reached its trigger level; `bytes` are what the
    /// receive-buffer register presented, oldest first.
    ReceivedDataAvailable { bytes: Vec<u8>, waker_lock_free: bool },
    /// Bytes sat unread past the hardware timeout; as above.
    CharacterTimeout { bytes: Vec<u8>, waker_lock_free: bool },
    /// Transmitter-holding register drained.
    TransmitterHoldingEmpty { waker_lock_free: bool },
    /// Modem-status change; logged only.
    ModemStatus,
    /// A cause code this driver does not handle; logged only.
    Unrecognized(u8),
}

impl AsyncUartEvent {
    /// The interrupt-identification code of this cause.
    pub open spec fn spec_cause_id(&self) -> u8 {
        match self {
            AsyncUartEvent::ReceivedDataAvailable { .. } => 4u8,
            AsyncUartEvent::CharacterTimeout { .. } => 12u8,
            AsyncUartEvent::TransmitterHoldingEmpty { .. } => 2u8,
            AsyncUartEvent::ModemStatus => 0u8,
            AsyncUartEvent::Unrecognized(code) => *code,
        }
    }

    /// Returns the interrupt-identification code of this cause.
    pub fn cause_id(&self) -> (id: u8)
        ensures
            id == self.spec_cause_id(),
    {
        match self {
            AsyncUartEvent::ReceivedDataAvailable { .. } => 4,
            AsyncUartEvent::CharacterTimeout { .. } => 12,
            AsyncUartEvent::TransmitterHoldingEmpty { .. } => 2,
            AsyncUartEvent::ModemStatus => 0,
            AsyncUartEvent::Unrecognized(code) => *code,
        }
    }
}

/// The exact trace one handler invocation emits: every cause bracketed by
/// one entry and one exit record, in order.
pub open spec fn spec_async_trace(events: Seq<AsyncUartEvent>) -> Seq<TraceEvent>
    decreases events.len(),
{
    if events.len() == 0 {
        Seq::<TraceEvent>::empty()
    } else {
        seq![
            TraceEvent::Enter(events[0].spec_cause_id()),
            TraceEvent::Exit(events[0].spec_cause_id()),
        ] + spec_async_trace(events.skip(1))
    }
}

/// What one handler invocation asks the runtime to do: write these bytes to
/// the transmit-holding register, wake these continuations, forward these
/// trace records — all in order.
pub struct AsyncHandlerOutcome {
    pub tx_bytes: Vec<u8>,
    pub wakes: Vec<u64>,
    pub trace: Vec<TraceEvent>,
}

/// The asynchronous driver's state as pure values.
#[verifier::ext_equal]
pub ghost struct AsyncModel {
    pub rx: Seq<u8>,
    pub tx: Seq<u8>,
    pub rx_cap: int,
    pub tx_cap: int,
    pub rx_count: int,
    pub tx_count: int,
    pub intr_count: int,
    pub rx_intr_count: int,
    pub tx_intr_count: int,
    pub rx_intr_enabled: bool,
    pub tx_intr_enabled: bool,
    pub read_waker: Option<u64>,
    pub write_waker: Option<u64>,
}

/// One receive cause: fill the receive ring up to its capacity, dropping
/// the overflow and disabling the receive interrupt on overflow
/// (backpressure); then, if the waker-slot lock was free, take and deliver
/// the registered read continuation — at most one wake per registration.
pub open spec fn spec_rx_step(m: AsyncModel, bytes: Seq<u8>, lock_free: bool) -> (
    AsyncModel,
    Option<u64>,
) {
    let free = m.rx_cap - m.rx.len();
    let k = if bytes.len() <= free {
        bytes.len() as int
    } else {
        free
    };
    let wake = if lock_free {
        m.read_waker
    } else {
        Option::<u64>::None
    };
    (
        AsyncModel {
            rx: m.rx + bytes.take(k),
            rx_count: spec_sat_add(m.rx_count, k),
            rx_intr_count: spec_sat_add(m.rx_intr_count, 1),
            rx_intr_enabled: if bytes.len() > free {
                false
            } else {
                m.rx_intr_enabled
            },
            read_waker: if lock_free {
                Option::<u64>::None
            } else {
                m.read_waker
            },
            ..m
        },
        wake,
    )
}

/// One transmitter-holding-empty cause: drain up to a FIFO's worth of bytes
/// from the transmit ring, disabling the transmit interrupt if the ring
/// empties first; then wake the write continuation as for receive.
pub open spec fn spec_tx_step(m: AsyncModel, lock_free: bool) -> (
    AsyncModel,
    Seq<u8>,
    Option<u64>,
) {
    let k = if m.tx.len() <= FIFO_DEPTH {
        m.tx.len() as int
    } else {
        FIFO_DEPTH as int
    };
    let wake = if lock_free {
        m.write_waker
    } else {
        Option::<u64>::None
    };
    (
        AsyncModel {
            tx: m.tx.skip(k),
            tx_count: spec_sat_add(m.tx_count, k),
            tx_intr_count: spec_sat_add(m.tx_intr_count, 1),
            tx_intr_enabled: if m.tx.len() < FIFO_DEPTH {
                false
            } else {
                m.tx_intr_enabled
            },
            write_waker: if lock_free {
                Option::<u64>::None
            } else {
                m.write_waker
            },
            ..m
        },
        m.tx.take(k),
        wake,
    )
}

/// The dispatch on one interrupt cause: every cause counts toward
/// `intr_count` exactly once; modem-status and unrecognized causes are
/// counted only.
pub open spec fn spec_step(m: AsyncModel, ev: AsyncUartEvent) -> (
    AsyncModel,
    Seq<u8>,
    Option<u64>,
) {
    let m1 = AsyncModel { intr_count: spec_sat_add(m.intr_count, 1), ..m };
    match ev {
        AsyncUartEvent::ReceivedDataAvailable { bytes, waker_lock_free } => {
            let r = spec_rx_step(m1, bytes@, waker_lock_free);
            (r.0, Seq::<u8>::empty(), r.1)
        },
        AsyncUartEvent::CharacterTimeout { bytes, waker_lock_free } => {
            let r = spec_rx_step(m1, bytes@, waker_lock_free);
            (r.0, Seq::<u8>::empty(), r.1)
        },
        AsyncUartEvent::TransmitterHoldingEmpty { waker_lock_free } => spec_tx_step(
            m1,
            waker_lock_free,
        ),
        AsyncUartEvent::ModemStatus => (m1, Seq::<u8>::empty(), Option::<u64>::None),
        AsyncUartEvent::Unrecognized(_) => (m1, Seq::<u8>::empty(), Option::<u64>::None),
    }
}

/// The wakes of one step as a sequence: one token, or none.
pub open spec fn spec_wake_seq(wake: Option<u64>) -> Seq<u64> {
    match wake {
        Some(t) => seq![t],
        None => Seq::<u64>::empty(),
    }
}

/// A whole handler invocation: the causes of one batch processed in order,
/// each exactly once; sent bytes and delivered wakes concatenate in order.
pub open spec fn spec_run(m: AsyncModel, events: Seq<AsyncUartEvent>) -> (
    AsyncModel,
    Seq<u8>,
    Seq<u64>,
)
    decreases events.len(),
{
    if events.len() == 0 {
        (m, Seq::<u8>::empty(), Seq::<u64>::empty())
    } else {
        let first = spec_step(m, events[0]);
        let rest = spec_run(first.0, events.skip(1));
        (rest.0, first.1 + rest.1, spec_wake_seq(first.2) + rest.2)
    }
}

/// Asynchronous driver over one UART instance: a bounded receive and
/// transmit ring and one continuation slot per direction.
pub struct AsyncSerial {
    /// Base address of the register block this driver was constructed over;
    /// exclusively owned by this instance.
    pub base_address: usize,
    /// Receive ring: filled from interrupt context, drained by read
    /// operations in task context.
    pub rx_ring: RingBuffer,
    /// Transmit ring: filled by write operations in task context, drained
    /// from interrupt context.
    pub tx_ring: RingBuffer,
    pub rx_count: usize,
    pub tx_count: usize,
    pub intr_count: usize,
    pub rx_intr_count: usize,
    pub tx_intr_count: usize,
    /// Mirror of the hardware's received-data-available interrupt enable.
    pub rx_intr_enabled: bool,
    /// Mirror of the hardware's transmitter-holding-empty interrupt enable.
    pub tx_intr_enabled: bool,
    pub read_waker: WakerSlot,
    pub write_waker: WakerSlot,
}

impl AsyncSerial {
    /// Both rings within their fixed capacities.
    pub open spec fn wf(&self) -> bool {
        &&& self.rx_ring.wf()
        &&& self.tx_ring.wf()
    }

    /// The driver's state as pure values.
    pub open spec fn model(&self) -> AsyncModel {
        AsyncModel {
            rx: self.rx_ring@,
            tx: self.tx_ring@,
            rx_cap: self.rx_ring.cap as int,
            tx_cap: self.tx_ring.cap as int,
            rx_count: self.rx_count as int,
            tx_count: self.tx_count as int,
            intr_count: self.intr_count as int,
            rx_intr_count: self.rx_intr_count as int,
            tx_intr_count: self.tx_intr_count as int,
            rx_intr_enabled: self.rx_intr_enabled,
            tx_intr_enabled: self.tx_intr_enabled,
            read_waker: self.read_waker.token,
            write_waker: self.write_waker.token,
        }
    }

    /// Creates a driver bound to one hardware base address, with empty rings
    /// of the given fixed capacities, empty waker slots, zero counters, and
    /// both interrupts mirrored as disabled.
    pub fn new(base_address: usize, rx_capacity: usize, tx_capacity: usize) -> (s: Self)
        ensures
            s.wf(),
            s.base_address == base_address,
            s.rx_ring@ == Seq::<u8>::empty(),
            s.tx_ring@ == Seq::<u8>::empty(),
            s.rx_ring.cap == rx_capacity,
            s.tx_ring.cap == tx_capacity,
            s.rx_count == 0,
            s.tx_count == 0,
            s.intr_count == 0,
            s.rx_intr_count == 0,
            s.tx_intr_count == 0,
            !s.rx_intr_enabled,
            !s.tx_intr_enabled,
            s.read_waker.token is None,
            s.write_waker.token is None,
    {
        AsyncSerial {
            base_address,
            rx_ring: RingBuffer::new(rx_capacity),
            tx_ring: RingBuffer::new(tx_capacity),
            rx_count: 0,
            tx_count: 0,
            intr_count: 0,
            rx_intr_count: 0,
            tx_intr_count: 0,
            rx_intr_enabled: false,
            tx_intr_enabled: false,
            read_waker: WakerSlot::new(),
            write_waker: WakerSlot::new(),
        }
    }

    /// Marks the received-data-available interrupt enabled; the runtime must
    /// set the matching interrupt-enable bit.
    pub fn enable_rdai(&mut self)
        ensures
            *final(self) == (AsyncSerial { rx_intr_enabled: true, ..*old(self) }),
    {
        self.rx_intr_enabled = true;
    }

    /// Marks the received-data-available interrupt disabled; the runtime
    /// must clear the matching interrupt-enable bit.
    pub fn disable_rdai(&mut self)
        ensures
            *final(self) == (AsyncSerial { rx_intr_enabled: false, ..*old(self) }),
    {
        self.rx_intr_enabled = false;
    }

    /// Marks the transmitter-holding-empty interrupt enabled; the runtime
    /// must set the matching interrupt-enable bit.
    pub fn enable_threi(&mut self)
        ensures
            *final(self) == (AsyncSerial { tx_intr_enabled: true, ..*old(self) }),
    {
        self.tx_intr_enabled = true;
    }

    /// Marks the transmitter-holding-empty interrupt disabled; the runtime
    /// must clear the matching interrupt-enable bit.
    pub fn disable_threi(&mut self)
        ensures
            *final(self) == (AsyncSerial { tx_intr_enabled: false, ..*old(self) }),
    {
        self.tx_intr_enabled = false;
    }

    /// The register accesses that initialize the hardware for this driver:
    /// FIFOs enabled with a half-full trigger, and the
    /// received-data-available interrupt enabled as the final step.
    pub fn hardware_init(&mut self, baud_rate: usize) -> (ops: Vec<RegOp>)
        requires
            baud_rate > 0,
            16 * baud_rate <= usize::MAX,
        ensures
            ops@ == spec_init_ops(baud_rate, true, FifoTrigger::HalfFull, true),
            *final(self) == (AsyncSerial { rx_intr_enabled: true, ..*old(self) }),
    {
        let ops = init_ops(baud_rate, true, FifoTrigger::HalfFull, true);
        self.enable_rdai();
        ops
    }

    /// Registers a read continuation, replacing any earlier registration.
    pub fn register_read(&mut self, token: u64)
        ensures
            *final(self) == (AsyncSerial {
                read_waker: final(self).read_waker,
                ..*old(self)
            }),
            final(self).read_waker.token == Some(token),
    {
        self.read_waker.register(token);
    }

    /// Registers a write continuation, replacing any earlier registration.
    pub fn register_write(&mut self, token: u64)
        ensures
            *final(self) == (AsyncSerial {
                write_waker: final(self).write_waker,
                ..*old(self)
            }),
            final(self).write_waker.token == Some(token),
    {
        self.write_waker.register(token);
    }

    /// Task-side consumption: takes the oldest received byte, if any.
    pub fn try_read(&mut self) -> (r: Option<u8>)
        requires
            old(self).wf(),
        ensures
            final(self).wf(),
            *final(self) == (AsyncSerial { rx_ring: final(self).rx_ring, ..*old(self) }),
            final(self).rx_ring.cap == old(self).rx_ring.cap,
            old(self).rx_ring@.len() == 0 ==> r is None && final(self).rx_ring@ == old(
                self,
            ).rx_ring@,
            old(self).rx_ring@.len() > 0 ==> r == Some(old(self).rx_ring@[0])
                && final(self).rx_ring@ == old(self).rx_ring@.skip(1),
    {
        self.rx_ring.dequeue()
    }

    /// Task-side production: queues a byte for transmission, handing it back
    /// exactly when the transmit ring is full.
    pub fn try_write(&mut self, ch: u8) -> (r: Result<(), u8>)
        requires
            old(self).wf(),
        ensures
            final(self).wf(),
            *final(self) == (AsyncSerial { tx_ring: final(self).tx_ring, ..*old(self) }),
            final(self).tx_ring.cap == old(self).tx_ring.cap,
            old(self).tx_ring@.len() < old(self).tx_ring.cap ==> r == Ok::<(), u8>(())
                && final(self).tx_ring@ == old(self).tx_ring@.push(ch),
            old(self).tx_ring@.len() >= old(self).tx_ring.cap ==> r == Err::<(), u8>(ch)
                && final(self).tx_ring@ == old(self).tx_ring@,
    {
        self.tx_ring.enqueue(ch)
    }

    /// Handles one receive cause; returns the continuation to wake, if the
    /// slot lock was free and a continuation was registered.
    fn handle_rx(&mut self, bytes: &Vec<u8>, waker_lock_free: bool) -> (wake: Option<u64>)
        requires
            old(self).wf(),
        ensures
            final(self).wf(),
            final(self).model() == spec_rx_step(old(self).model(), bytes@, waker_lock_free).0,
            wake == spec_rx_step(old(self).model(), bytes@, waker_lock_free).1,
            final(self).base_address == old(self).base_address,
    {
        let ghost m0 = old(self).model();
        let ghost free0 = m0.rx_cap - m0.rx.len();
        let mut i: usize = 0;
        let mut overflow = false;
        while i < bytes.len() && !overflow
            invariant
                old(self).wf(),
                self.wf(),
                i <= bytes@.len(),
                i <= free0,
                self.rx_ring@ == old(self).rx_ring@ + bytes@.take(i as int),
                self.rx_ring.cap == old(self).rx_ring.cap,
                self.tx_ring == old(self).tx_ring,
                self.base_address == old(self).base_address,
                self.rx_count == old(self).rx_count,
                self.tx_count == old(self).tx_count,
                self.intr_count == old(self).intr_count,
                self.rx_intr_count == old(self).rx_intr_count,
                self.tx_intr_count == old(self).tx_intr_count,
                self.rx_intr_enabled == old(self).rx_intr_enabled,
                self.tx_intr_enabled == old(self).tx_intr_enabled,
                self.read_waker == old(self).read_waker,
                self.write_waker == old(self).write_waker,
                overflow ==> i < bytes@.len() && i == free0,
                free0 == old(self).rx_ring.cap - old(self).rx_ring@.len(),
            decreases bytes@.len() - i, if overflow {
                0int
            } else {
                1int
            },
        {
            match self.rx_ring.enqueue(bytes[i]) {
                Ok(()) => {
                    proof {
                        assert(self.rx_ring@ =~= old(self).rx_ring@ + bytes@.take(i + 1));
                    }
                    i = i + 1;
                },
                Err(_) => {
                    overflow = true;
                },
            }
        }
        if overflow {
            self.disable_rdai();
        }
        self.rx_count = sat_add(self.rx_count, i);
        self.rx_intr_count = sat_add(self.rx_intr_count, 1);
        let wake = if waker_lock_free {
            self.read_waker.take()
        } else {
            None
        };
        proof {
            if !overflow {
                assert(i == bytes@.len());
            }
            assert(final(self).model() =~= spec_rx_step(m0, bytes@, waker_lock_free).0);
        }
        wake
    }

    /// Handles one transmitter-holding-empty cause; returns the bytes for
    /// the transmit register and the continuation to wake, if any.
    fn handle_tx(&mut self, waker_lock_free: bool) -> (r: (Vec<u8>, Option<u64>))
        requires
            old(self).wf(),
        ensures
            final(self).wf(),
            final(self).model() == spec_tx_step(old(self).model(), waker_lock_free).0,
            r.0@ == spec_tx_step(old(self).model(), waker_lock_free).1,
            r.1 == spec_tx_step(old(self).model(), waker_lock_free).2,
            final(self).base_address == old(self).base_address,
    {
        let ghost m0 = old(self).model();
        let mut sent: Vec<u8> = Vec::new();
        let mut j: usize = 0;
        let mut emptied = false;
        while j < FIFO_DEPTH && !emptied
            invariant
                old(self).wf(),
                self.wf(),
                j <= FIFO_DEPTH,
                j <= old(self).tx_ring@.len(),
                sent@ == old(self).tx_ring@.take(j as int),
                self.tx_ring@ == old(self).tx_ring@.skip(j as int),
                self.tx_ring.cap == old(self).tx_ring.cap,
                self.rx_ring == old(self).rx_ring,
                self.base_address == old(self).base_address,
                self.rx_count == old(self).rx_count,
                self.tx_count == old(self).tx_count,
                self.intr_count == old(self).intr_count,
                self.rx_intr_count == old(self).rx_intr_count,
                self.tx_intr_count == old(self).tx_intr_count,
                self.rx_intr_enabled == old(self).rx_intr_enabled,
                self.read_waker == old(self).read_waker,
                self.write_waker == old(self).write_waker,
                emptied ==> j == old(self).tx_ring@.len() && j < FIFO_DEPTH
                    && !self.tx_intr_enabled,
                !emptied ==> self.tx_intr_enabled == old(self).tx_intr_enabled,
            decreases FIFO_DEPTH - j, if emptied {
                0int
            } else {
                1int
            },
        {
            match self.tx_ring.dequeue() {
                Some(ch) => {
                    sent.push(ch);
                    proof {
                        assert(sent@ =~= old(self).tx_ring@.take(j + 1));
                    }
                    j = j + 1;
                },
                None => {
                    self.disable_threi();
                    emptied = true;
                },
            }
        }
        self.tx_count = sat_add(self.tx_count, j);
        self.tx_intr_count = sat_add(self.tx_intr_count, 1);
        let wake = if waker_lock_free {
            self.write_waker.take()
        } else {
            None
        };
        proof {
            assert(final(self).model() =~= spec_tx_step(m0, waker_lock_free).0);
        }
        (sent, wake)
    }

    /// Dispatches one interrupt cause. Returns the bytes to write to the
    /// transmit-holding register and the continuation to wake, if any.
    pub fn handle_cause(&mut self, ev: &AsyncUartEvent) -> (r: (Vec<u8>, Option<u64>))
        requires
            old(self).wf(),
        ensures
            final(self).wf(),
            final(self).model() == spec_step(old(self).model(), *ev).0,
            r.0@ == spec_step(old(self).model(), *ev).1,
            r.1 == spec_step(old(self).model(), *ev).2,
            final(self).base_address == old(self).base_address,
    {
        self.intr_count = sat_add(self.intr_count, 1);
        match ev {
            AsyncUartEvent::ReceivedDataAvailable { bytes, waker_lock_free } => {
                let wake = self.handle_rx(bytes, *waker_lock_free);
                (Vec::new(), wake)
            },
            AsyncUartEvent::CharacterTimeout { bytes, waker_lock_free } => {
                let wake = self.handle_rx(bytes, *waker_lock_free);
                (Vec::new(), wake)
            },
            AsyncUartEvent::TransmitterHoldingEmpty { waker_lock_free } => self.handle_tx(
                *waker_lock_free,
            ),
            AsyncUartEvent::ModemStatus => (Vec::new(), None),
            AsyncUartEvent::Unrecognized(_) => (Vec::new(), None),
        }
    }

    /// Handles one finite batch of pending interrupt causes, each exactly
    /// once and in order, and terminates. State change, sent bytes, wakes
    /// and trace are exactly those of `spec_run` and `spec_async_trace`.
    pub fn interrupt_handler(&mut self, events: &Vec<AsyncUartEvent>) -> (out:
        AsyncHandlerOutcome)
        requires
            old(self).wf(),
        ensures
            final(self).wf(),
            final(self).model() == spec_run(old(self).model(), events@).0,
            out.tx_bytes@ == spec_run(old(self).model(), events@).1,
            out.wakes@ == spec_run(old(self).model(), events@).2,
            out.trace@ == spec_async_trace(events@),
            final(self).base_address == old(self).base_address,
    {
        let ghost m0 = old(self).model();
        let mut tx_bytes: Vec<u8> = Vec::new();
        let mut wakes: Vec<u64> = Vec::new();
        let mut trace: Vec<TraceEvent> = Vec::new();
        let mut i: usize = 0;
        proof {
            assert(events@.skip(0) =~= events@);
            assert(Seq::<u8>::empty() + spec_run(m0, events@).1 =~= spec_run(m0, events@).1);
            assert(Seq::<u64>::empty() + spec_run(m0, events@).2 =~= spec_run(m0, events@).2);
            assert(Seq::<TraceEvent>::empty() + spec_async_trace(events@) =~= spec_async_trace(
                events@,
            ));
        }
        while i < events.len()
            invariant
                old(self).wf(),
                self.wf(),
                i <= events@.len(),
                spec_run(m0, events@).0 == spec_run(self.model(), events@.skip(i as int)).0,
                spec_run(m0, events@).1 == tx_bytes@ + spec_run(
                    self.model(),
                    events@.skip(i as int),
                ).1,
                spec_run(m0, events@).2 == wakes@ + spec_run(
                    self.model(),
                    events@.skip(i as int),
                ).2,
                spec_async_trace(events@) == trace@ + spec_async_trace(events@.skip(i as int)),
                self.base_address == old(self).base_address,
                m0 == old(self).model(),
            decreases events@.len() - i,
        {
            let ev = &events[i];
            proof {
                assert(events@.skip(i as int)[0] == events@[i as int]);
                assert(events@.skip(i as int).skip(1) =~= events@.skip(i as int + 1));
            }
            let ghost m_before = self.model();
            let ghost trace0 = trace@;
            let ghost tx0 = tx_bytes@;
            let ghost wakes0 = wakes@;
            trace.push(TraceEvent::Enter(ev.cause_id()));
            let (mut sent, wake) = self.handle_cause(ev);
            trace.push(TraceEvent::Exit(ev.cause_id()));
            let ghost sent_view = sent@;
            tx_bytes.append(&mut sent);
            if let Some(token) = wake {
                wakes.push(token);
            }
            proof {
                let rest = spec_run(self.model(), events@.skip(i as int + 1));
                assert(spec_run(m_before, events@.skip(i as int)).0 == rest.0);
                assert(spec_run(m_before, events@.skip(i as int)).1 == sent_view + rest.1);
                assert(spec_run(m_before, events@.skip(i as int)).2 == spec_wake_seq(wake)
                    + rest.2);
                assert(tx_bytes@ =~= tx0 + sent_view);
                assert(tx0 + (sent_view + rest.1) =~= (tx0 + sent_view) + rest.1);
                assert(wakes@ =~= wakes0 + spec_wake_seq(wake));
                assert(wakes0 + (spec_wake_seq(wake) + rest.2) =~= (wakes0 + spec_wake_seq(wake))
                    + rest.2);
                let ghost id = events@[i as int].spec_cause_id();
                let pair = seq![TraceEvent::Enter(id), TraceEvent::Exit(id)];
                assert(spec_async_trace(events@.skip(i as int)) == pair + spec_async_trace(
                    events@.skip(i as int + 1),
                ));
                assert(trace@ =~= trace0 + pair);
                assert(trace0 + (pair + spec_async_trace(events@.skip(i as int + 1))) =~= (trace0
                    + pair) + spec_async_trace(events@.skip(i as int + 1)));
            }
            i = i + 1;
        }
        proof {
            assert(events@.skip(events@.len() as int) =~= Seq::<AsyncUartEvent>::empty());
            assert(spec_run(m0, events@).1 =~= tx_bytes@);
            assert(spec_run(m0, events@).2 =~= wakes@);
            assert(spec_async_trace(Seq::<AsyncUartEvent>::empty())
                =~= Seq::<TraceEvent>::empty());
            assert(spec_async_trace(events@) =~= trace@);
        }
        AsyncHandlerOutcome { tx_bytes, wakes, trace }
    }
}

} // verus!
