use uart_core::hw::{FifoTrigger, RegOp};
use uart_core::polling::PollingSerial;
use uart_core::{SerialError, FIFO_DEPTH};

#[test]
fn hardware_init_leaves_every_interrupt_disabled() {
    let mut s = PollingSerial::new(0x1000_2000);
    let ops = s.hardware_init(115200);
    // FIFOs enabled with the near-full trigger, and no interrupt-enable op
    assert_eq!(
        *ops.last().unwrap(),
        RegOp::ConfigureFifo { enable: true, trigger: FifoTrigger::TwoLessThanFull }
    );
    assert!(!ops.contains(&RegOp::EnableRxAvailableInterrupt));
    assert!(!ops.contains(&RegOp::EnableTxEmptyInterrupt));
}

#[test]
fn writes_pass_through_until_the_fifo_fills() {
    let mut s = PollingSerial::new(0);
    for i in 0..FIFO_DEPTH as u8 {
        assert_eq!(s.try_write(i, false), Ok(i));
    }
    assert_eq!(s.tx_count, FIFO_DEPTH);
    assert_eq!(s.tx_fifo_count, FIFO_DEPTH);
}

#[test]
fn full_fifo_spins_until_the_transmitter_reports_empty() {
    let mut s = PollingSerial::new(0);
    for i in 0..FIFO_DEPTH as u8 {
        assert_eq!(s.try_write(i, false), Ok(i));
    }
    // hardware not drained yet: keep spinning
    assert_eq!(s.try_write(0xEE, false), Err(SerialError::WouldBlock));
    assert_eq!(s.tx_count, FIFO_DEPTH);
    // transmitter empty: the fill counter resets and the byte goes out
    assert_eq!(s.try_write(0xEE, true), Ok(0xEE));
    assert_eq!(s.tx_fifo_count, 1);
    assert_eq!(s.tx_count, FIFO_DEPTH + 1);
}

#[test]
fn read_returns_the_polled_byte_or_would_block() {
    let mut s = PollingSerial::new(0);
    assert_eq!(s.try_read(None), Err(SerialError::WouldBlock));
    assert_eq!(s.rx_count, 0);
    assert_eq!(s.try_read(Some(0x41)), Ok(0x41));
    assert_eq!(s.rx_count, 1);
}

#[test]
fn interrupt_handler_is_a_no_op() {
    let mut s = PollingSerial::new(0);
    s.try_read(Some(1)).unwrap();
    s.interrupt_handler();
    assert_eq!(s.rx_count, 1);
    assert_eq!(s.tx_count, 0);
}
