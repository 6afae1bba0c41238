//! A verified UART driver core for memory-mapped 16550-style serial hardware.
//!
//! The crate separates driver logic from hardware access. Every decision a
//! driver makes — what to buffer, which bytes to hand to the transmit
//! register, when to enable or disable an interrupt — lives here as verified
//! code over plain values. The surrounding (unverified) runtime performs the
//! actual register reads and writes: it feeds each driver the events the
//! hardware produced and carries out the register operations the driver
//! returns.

use vstd::prelude::*;

pub mod asynchronous;
pub mod buffered;
pub mod events;
pub mod hw;
pub mod laws;
pub mod polling;
pub mod queue;
pub mod ring;
pub mod suspend;

verus! {

/// Addition clamped at the largest `usize`: diagnostic counters saturate
/// instead of wrapping, so they stay monotonically non-decreasing.
pub open spec fn spec_sat_add(a: int, b: int) -> int {
    if a + b <= usize::MAX as int {
        a + b
    } else {
        usize::MAX as int
    }
}

/// Saturating addition for the diagnostic counters.
pub fn sat_add(a: usize, b: usize) -> (r: usize)
    ensures
        r == spec_sat_add(a as int, b as int),
        r >= a,
{
    if a <= usize::MAX - b {
        a + b
    } else {
        usize::MAX
    }
}

/// Transient failure of a non-blocking operation; the caller must retry.
/// Never fatal.
#[derive(Clone, Copy, PartialEq, Eq, Structural, Debug)]
pub enum SerialError {
    WouldBlock,
}

/// Soft capacity of the buffered driver's transmit queue, in bytes.
pub const DEFAULT_TX_BUFFER_SIZE: usize = 1000;

/// Soft capacity of the buffered driver's receive queue, in bytes.
pub const DEFAULT_RX_BUFFER_SIZE: usize = 1000;

/// Depth of the hardware transmit/receive FIFO, in bytes.
pub const FIFO_DEPTH: usize = 16;

/// Number of UART instances on the board.
pub const SERIAL_NUM: usize = 4;

/// Base address of the first UART instance's register block.
pub const SERIAL_BASE_ADDRESS: usize = 0x1000_2000;

/// Address distance between consecutive UART instances' register blocks.
pub const SERIAL_ADDRESS_STRIDE: usize = 0x1000;

/// Maps a hardware interrupt line to the serial instance it belongs to.
///
/// Lines outside the board's table fall back to instance 0.
pub fn irq_to_serial_id(irq: u16) -> (id: usize)
    ensures
        id == spec_irq_to_serial_id(irq),
        id < SERIAL_NUM,
{
    match irq {
        12 => 0,
        13 => 1,
        14 => 2,
        15 => 3,
        _ => 0,
    }
}

/// The instance index assigned to each interrupt line.
pub open spec fn spec_irq_to_serial_id(irq: u16) -> usize {
    match irq {
        12u16 => 0usize,
        13u16 => 1usize,
        14u16 => 2usize,
        15u16 => 3usize,
        _ => 0usize,
    }
}

/// Resolves the register-block base address of the UART instance that a
/// hardware interrupt line belongs to.
pub fn get_base_addr_from_irq(irq: u16) -> (addr: usize)
    ensures
        addr == SERIAL_BASE_ADDRESS + spec_irq_to_serial_id(irq) * SERIAL_ADDRESS_STRIDE,
{
    SERIAL_BASE_ADDRESS + irq_to_serial_id(irq) * SERIAL_ADDRESS_STRIDE
}

/// Base address of the first UART instance on the lrv board variant.
pub const SERIAL_BASE_ADDRESS_LRV: usize = 0x6000_1000;

/// Maps a hardware interrupt line to the serial instance it belongs to, on
/// the lrv board variant.
///
/// Lines outside the board's table fall back to instance 0.
pub fn irq_to_serial_id_lrv(irq: u16) -> (id: usize)
    ensures
        id == spec_irq_to_serial_id_lrv(irq),
        id < SERIAL_NUM,
{
    match irq {
        4 => 0,
        5 => 1,
        6 => 2,
        7 => 3,
        _ => 0,
    }
}

/// The instance index assigned to each interrupt line on the lrv board
/// variant.
pub open spec fn spec_irq_to_serial_id_lrv(irq: u16) -> usize {
    match irq {
        4u16 => 0usize,
        5u16 => 1usize,
        6u16 => 2usize,
        7u16 => 3usize,
        _ => 0usize,
    }
}

/// Resolves the register-block base address of the UART instance that a
/// hardware interrupt line belongs to, on the lrv board variant.
pub fn get_base_addr_from_irq_lrv(irq: u16) -> (addr: usize)
    ensures
        addr == SERIAL_BASE_ADDRESS_LRV + spec_irq_to_serial_id_lrv(irq)
            * SERIAL_ADDRESS_STRIDE,
{
    SERIAL_BASE_ADDRESS_LRV + irq_to_serial_id_lrv(irq) * SERIAL_ADDRESS_STRIDE
}

} // verus!
