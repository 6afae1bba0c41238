//! Interrupt causes and trace records, as plain values.
//!
//! The runtime's interrupt entry point reads the interrupt-identification
//! register in a loop until it reports "no interrupt pending"; for each cause
//! it builds one event and hands the finite batch to a driver's
//! `interrupt_handler`. For a receive cause the event carries the bytes the
//! hardware FIFO presented during that cause, drained oldest first.

use vstd::prelude::*;

verus! {

/// One pending interrupt cause of the buffered driver, with the data the
/// hardware presented for it.
pub enum UartEvent {
    /// Receive FIFO reached its trigger level; payload: the bytes readable
    /// from the receive-buffer register, oldest first.
    ReceivedDataAvailable(Vec<u8>),
    /// Bytes sat unread past the hardware timeout; same payload as above.
    CharacterTimeout(Vec<u8>),
    /// Transmitter-holding register drained; up to a FIFO's worth of bytes
    /// may be written out.
    TransmitterHoldingEmpty,
    /// Modem-status change; logged only.
    ModemStatus,
    /// A cause code this driver does not handle; logged only.
    Unrecognized(u8),
}

impl UartEvent {
    /// The interrupt-identification code of this cause, as the hardware
    /// reports it.
    pub open spec fn spec_cause_id(&self) -> u8 {
        match self {
            UartEvent::ReceivedDataAvailable(_) => 4u8,
            UartEvent::CharacterTimeout(_) => 12u8,
            UartEvent::TransmitterHoldingEmpty => 2u8,
            UartEvent::ModemStatus => 0u8,
            UartEvent::Unrecognized(code) => *code,
        }
    }

    /// Returns the interrupt-identification code of this cause.
    pub fn cause_id(&self) -> (id: u8)
        ensures
            id == self.spec_cause_id(),
    {
        match self {
            UartEvent::ReceivedDataAvailable(_) => 4,
            UartEvent::CharacterTimeout(_) => 12,
            UartEvent::TransmitterHoldingEmpty => 2,
            UartEvent::ModemStatus => 0,
            UartEvent::Unrecognized(code) => *code,
        }
    }
}

/// One record for the external trace sink: entry into, or exit from, the
/// handling of one interrupt cause.
#[derive(Clone, Copy, PartialEq, Eq, Structural, Debug)]
pub enum TraceEvent {
    Enter(u8),
    Exit(u8),
}

/// The exact trace an interrupt-handler invocation emits for a batch of
/// causes: every cause bracketed by one entry and one exit record, in order.
pub open spec fn spec_trace(events: Seq<UartEvent>) -> Seq<TraceEvent>
    decreases events.len(),
{
    if events.len() == 0 {
        Seq::<TraceEvent>::empty()
    } else {
        seq![
            TraceEvent::Enter(events[0].spec_cause_id()),
            TraceEvent::Exit(events[0].spec_cause_id()),
        ] + spec_trace(events.skip(1))
    }
}

/// What one interrupt-handler invocation of the buffered driver asks the
/// runtime to do besides the state change: write these bytes to the
/// transmit-holding register, in order, and forward these trace records.
pub struct HandlerOutcome {
    pub tx_bytes: Vec<u8>,
    pub trace: Vec<TraceEvent>,
}

} // verus!
