//! Register-level operations of a 16550-style UART, as plain values.
//!
//! Drivers in this crate never touch memory-mapped registers themselves.
//! Instead they return sequences of [`RegOp`] values describing exactly which
//! register accesses the surrounding runtime must perform, in order. This
//! module also holds the baud-rate divisor arithmetic shared by every driver.

use vstd::prelude::*;

verus! {

/// Receive-FIFO trigger level: how full the hardware receive FIFO gets
/// before it raises a received-data-available interrupt.
#[derive(Clone, Copy, PartialEq, Eq, Structural, Debug)]
pub enum FifoTrigger {
    OneCharacter,
    QuarterFull,
    HalfFull,
    TwoLessThanFull,
}

/// One register access of the UART block, to be performed by the runtime.
///
/// Reads of the modem-status and line-status registers appear here because
/// reading those registers clears stale hardware state.
#[derive(Clone, Copy, PartialEq, Eq, Structural, Debug)]
pub enum RegOp {
    ReadModemStatus,
    ReadLineStatus,
    ResetLineControl,
    ResetModemControl,
    ResetInterruptEnable,
    ResetFifoControl,
    /// Set the divisor-latch-access bit in the line-control register.
    SetDivisorLatchAccess,
    /// Clear the divisor-latch-access bit in the line-control register.
    ClearDivisorLatchAccess,
    WriteDivisorLow(u8),
    WriteDivisorHigh(u8),
    /// Program 8 data bits, no parity, 1 stop bit.
    SetFrame8N1,
    /// Write the FIFO-control register: enable (or disable) the FIFOs, reset
    /// both halves, and set the receive trigger level.
    ConfigureFifo { enable: bool, trigger: FifoTrigger },
    EnableRxAvailableInterrupt,
    DisableRxAvailableInterrupt,
    EnableTxEmptyInterrupt,
    DisableTxEmptyInterrupt,
}

/// Input clock of the UART's baud-rate generator, in hertz.
pub const SERIAL_CLOCK_HZ: usize = 100_000_000;

/// The baud-rate divisor: clock divided by sixteen times the baud rate,
/// rounded toward zero.
pub open spec fn spec_divisor(clock: usize, baud_rate: usize) -> int {
    clock as int / (16 * baud_rate as int)
}

/// Low byte of a divisor value.
pub open spec fn divisor_low(d: usize) -> u8 {
    (d & 0xff) as u8
}

/// High byte of a divisor value.
pub open spec fn divisor_high(d: usize) -> u8 {
    ((d >> 8) & 0xff) as u8
}

/// Any divisor that fits the two divisor-latch registers is recovered
/// losslessly from its low/high byte split.
pub proof fn lemma_divisor_split_roundtrip(d: usize)
    requires
        d < 65536,
    ensures
        divisor_low(d) + 256 * divisor_high(d) == d,
{
    assert(d < 65536 ==> ((d & 0xff) as u8) as usize + 256 * (((d >> 8) & 0xff) as u8) as usize
        == d) by (bit_vector);
}

/// The register accesses that program the baud-rate divisor: open the
/// divisor latch, write the divisor's low then high byte, close the latch.
pub open spec fn spec_set_divisor_ops(clock: usize, baud_rate: usize) -> Seq<RegOp> {
    let d = spec_divisor(clock, baud_rate) as usize;
    seq![
        RegOp::SetDivisorLatchAccess,
        RegOp::WriteDivisorLow(divisor_low(d)),
        RegOp::WriteDivisorHigh(divisor_high(d)),
        RegOp::ClearDivisorLatchAccess,
    ]
}

/// Computes the divisor for the requested baud rate and returns the register
/// accesses that program it.
pub fn set_divisor_ops(clock: usize, baud_rate: usize) -> (ops: Vec<RegOp>)
    requires
        baud_rate > 0,
        16 * baud_rate <= usize::MAX,
    ensures
        ops@ == spec_set_divisor_ops(clock, baud_rate),
{
    let divisor: usize = clock / (16 * baud_rate);
    let low: u8 = (divisor & 0xff) as u8;
    let high: u8 = ((divisor >> 8) & 0xff) as u8;
    assert(divisor & 0xff <= 0xff) by (bit_vector);
    assert((divisor >> 8) & 0xff <= 0xff) by (bit_vector);
    let mut ops: Vec<RegOp> = Vec::new();
    ops.push(RegOp::SetDivisorLatchAccess);
    ops.push(RegOp::WriteDivisorLow(low));
    ops.push(RegOp::WriteDivisorHigh(high));
    ops.push(RegOp::ClearDivisorLatchAccess);
    assert(ops@ =~= spec_set_divisor_ops(clock, baud_rate));
    ops
}

/// The register accesses of a full hardware initialization: clear stale
/// status, reset the control registers, program the divisor, set the 8N1
/// frame, configure the FIFOs, and — for interrupt-driven drivers — enable
/// the received-data-available interrupt as the final step.
pub open spec fn spec_init_ops(
    baud_rate: usize,
    fifo_enable: bool,
    trigger: FifoTrigger,
    enable_rx_interrupt: bool,
) -> Seq<RegOp> {
    seq![
        RegOp::ReadModemStatus,
        RegOp::ReadLineStatus,
        RegOp::ResetLineControl,
        RegOp::ResetModemControl,
        RegOp::ResetInterruptEnable,
        RegOp::ResetFifoControl,
    ] + spec_set_divisor_ops(SERIAL_CLOCK_HZ, baud_rate)
        + seq![
        RegOp::SetFrame8N1,
        RegOp::ConfigureFifo { enable: fifo_enable, trigger },
    ] + if enable_rx_interrupt {
        seq![RegOp::EnableRxAvailableInterrupt]
    } else {
        Seq::<RegOp>::empty()
    }
}

/// Builds the initialization sequence for one driver flavor.
pub fn init_ops(
    baud_rate: usize,
    fifo_enable: bool,
    trigger: FifoTrigger,
    enable_rx_interrupt: bool,
) -> (ops: Vec<RegOp>)
    requires
        baud_rate > 0,
        16 * baud_rate <= usize::MAX,
    ensures
        ops@ == spec_init_ops(baud_rate, fifo_enable, trigger, enable_rx_interrupt),
{
    let mut ops: Vec<RegOp> = Vec::new();
    ops.push(RegOp::ReadModemStatus);
    ops.push(RegOp::ReadLineStatus);
    ops.push(RegOp::ResetLineControl);
    ops.push(RegOp::ResetModemControl);
    ops.push(RegOp::ResetInterruptEnable);
    ops.push(RegOp::ResetFifoControl);
    let mut divisor_part = set_divisor_ops(SERIAL_CLOCK_HZ, baud_rate);
    ops.append(&mut divisor_part);
    ops.push(RegOp::SetFrame8N1);
    ops.push(RegOp::ConfigureFifo { enable: fifo_enable, trigger });
    if enable_rx_interrupt {
        ops.push(RegOp::EnableRxAvailableInterrupt);
    }
    assert(ops@ =~= spec_init_ops(baud_rate, fifo_enable, trigger, enable_rx_interrupt));
    ops
}

/// The register accesses that leave the hardware quiescent: interrupts
/// disabled, stale status cleared, FIFOs reset and disabled. Every driver
/// performs these on destruction, on every exit path.
pub open spec fn spec_quiesce_ops() -> Seq<RegOp> {
    seq![
        RegOp::ResetInterruptEnable,
        RegOp::ReadModemStatus,
        RegOp::ReadLineStatus,
        RegOp::ConfigureFifo { enable: false, trigger: FifoTrigger::OneCharacter },
    ]
}

/// Builds the shutdown sequence that quiesces the hardware.
pub fn quiesce_ops() -> (ops: Vec<RegOp>)
    ensures
        ops@ == spec_quiesce_ops(),
{
    let mut ops: Vec<RegOp> = Vec::new();
    ops.push(RegOp::ResetInterruptEnable);
    ops.push(RegOp::ReadModemStatus);
    ops.push(RegOp::ReadLineStatus);
    ops.push(RegOp::ConfigureFifo { enable: false, trigger: FifoTrigger::OneCharacter });
    assert(ops@ =~= spec_quiesce_ops());
    ops
}

} // verus!
