use uart_core::buffered::BufferedSerial;
use uart_core::events::{TraceEvent, UartEvent};
use uart_core::hw::{FifoTrigger, RegOp};
use uart_core::{SerialError, DEFAULT_TX_BUFFER_SIZE, FIFO_DEPTH};

#[test]
fn new_driver_starts_empty_and_quiet() {
    let s = BufferedSerial::new(0x1000_2000);
    assert_eq!(s.base_address, 0x1000_2000);
    assert_eq!(s.rx_buffer.len(), 0);
    assert_eq!(s.tx_buffer.len(), 0);
    assert_eq!(s.rx_count, 0);
    assert_eq!(s.tx_count, 0);
    assert_eq!(s.intr_count, 0);
    assert!(!s.rx_intr_enabled);
    assert!(!s.tx_intr_enabled);
}

#[test]
fn hardware_init_programs_divisor_and_enables_rx_interrupt_last() {
    let mut s = BufferedSerial::new(0x1000_2000);
    let ops = s.hardware_init(115200);
    assert_eq!(
        ops,
        vec![
            RegOp::ReadModemStatus,
            RegOp::ReadLineStatus,
            RegOp::ResetLineControl,
            RegOp::ResetModemControl,
            RegOp::ResetInterruptEnable,
            RegOp::ResetFifoControl,
            RegOp::SetDivisorLatchAccess,
            RegOp::WriteDivisorLow(54),
            RegOp::WriteDivisorHigh(0),
            RegOp::ClearDivisorLatchAccess,
            RegOp::SetFrame8N1,
            RegOp::ConfigureFifo { enable: true, trigger: FifoTrigger::OneCharacter },
            RegOp::EnableRxAvailableInterrupt,
        ]
    );
    assert!(s.rx_intr_enabled);
}

#[test]
fn try_write_queues_and_turns_the_transmit_interrupt_on() {
    let mut s = BufferedSerial::new(0);
    assert_eq!(s.try_write(0xAB), Ok(()));
    assert!(s.tx_intr_enabled);
    assert_eq!(s.tx_buffer.len(), 1);
}

#[test]
fn try_write_fails_with_would_block_when_the_queue_is_at_cap() {
    let mut s = BufferedSerial::new(0);
    for i in 0..DEFAULT_TX_BUFFER_SIZE {
        assert_eq!(s.try_write((i % 256) as u8), Ok(()));
    }
    assert_eq!(s.tx_buffer.len(), DEFAULT_TX_BUFFER_SIZE);
    assert_eq!(s.try_write(0xFF), Err(SerialError::WouldBlock));
    assert_eq!(s.tx_buffer.len(), DEFAULT_TX_BUFFER_SIZE);
}

#[test]
fn try_read_on_empty_re_enables_the_receive_interrupt() {
    let mut s = BufferedSerial::new(0);
    assert!(!s.rx_intr_enabled);
    assert_eq!(s.try_read(), Err(SerialError::WouldBlock));
    assert!(s.rx_intr_enabled);
}

#[test]
fn receive_cause_stages_bytes_in_delivery_order() {
    let mut s = BufferedSerial::new(0);
    s.hardware_init(115200);
    let events = vec![UartEvent::ReceivedDataAvailable(vec![1, 2, 3])];
    let out = s.interrupt_handler(&events);
    assert_eq!(out.tx_bytes, Vec::<u8>::new());
    assert_eq!(out.trace, vec![TraceEvent::Enter(4), TraceEvent::Exit(4)]);
    assert_eq!(s.rx_count, 3);
    assert_eq!(s.intr_count, 1);
    assert_eq!(s.rx_intr_count, 1);
    assert_eq!(s.try_read(), Ok(1));
    assert_eq!(s.try_read(), Ok(2));
    assert_eq!(s.try_read(), Ok(3));
    assert_eq!(s.try_read(), Err(SerialError::WouldBlock));
}

#[test]
fn receive_overflow_fills_to_cap_drops_the_rest_and_disables_the_interrupt() {
    let mut s = BufferedSerial::new(0);
    s.hardware_init(115200);
    let mut incoming = Vec::new();
    for i in 0..(DEFAULT_TX_BUFFER_SIZE + 1) {
        incoming.push((i % 251) as u8);
    }
    let events = vec![UartEvent::CharacterTimeout(incoming.clone())];
    s.interrupt_handler(&events);
    // exactly cap bytes kept, in order; the extra byte is dropped
    assert_eq!(s.rx_buffer.len(), DEFAULT_TX_BUFFER_SIZE);
    assert_eq!(s.rx_count, DEFAULT_TX_BUFFER_SIZE);
    assert!(!s.rx_intr_enabled);
    for expected in incoming.iter().take(DEFAULT_TX_BUFFER_SIZE) {
        assert_eq!(s.try_read(), Ok(*expected));
    }
    assert_eq!(s.try_read(), Err(SerialError::WouldBlock));
}

#[test]
fn transmit_cause_drains_a_fifo_worth_and_disables_when_emptied() {
    let mut s = BufferedSerial::new(0);
    for i in 0..20u8 {
        assert_eq!(s.try_write(i), Ok(()));
    }
    assert!(s.tx_intr_enabled);
    let out = s.interrupt_handler(&vec![UartEvent::TransmitterHoldingEmpty]);
    let expected: Vec<u8> = (0..FIFO_DEPTH as u8).collect();
    assert_eq!(out.tx_bytes, expected);
    assert_eq!(s.tx_count, FIFO_DEPTH);
    // four bytes remain, so the transmit interrupt stays on
    assert!(s.tx_intr_enabled);
    let out2 = s.interrupt_handler(&vec![UartEvent::TransmitterHoldingEmpty]);
    assert_eq!(out2.tx_bytes, vec![16, 17, 18, 19]);
    // the queue emptied mid-drain: the transmit interrupt goes off
    assert!(!s.tx_intr_enabled);
}

#[test]
fn handler_processes_each_cause_exactly_once_and_in_order() {
    let mut s = BufferedSerial::new(0);
    let events = vec![
        UartEvent::ModemStatus,
        UartEvent::Unrecognized(7),
        UartEvent::ReceivedDataAvailable(vec![9]),
        UartEvent::TransmitterHoldingEmpty,
    ];
    let out = s.interrupt_handler(&events);
    assert_eq!(s.intr_count, 4);
    assert_eq!(s.rx_intr_count, 1);
    assert_eq!(s.tx_intr_count, 1);
    assert_eq!(
        out.trace,
        vec![
            TraceEvent::Enter(0),
            TraceEvent::Exit(0),
            TraceEvent::Enter(7),
            TraceEvent::Exit(7),
            TraceEvent::Enter(4),
            TraceEvent::Exit(4),
            TraceEvent::Enter(2),
            TraceEvent::Exit(2),
        ]
    );
    // an empty batch terminates immediately and changes nothing
    let out2 = s.interrupt_handler(&Vec::new());
    assert_eq!(out2.trace, Vec::<TraceEvent>::new());
    assert_eq!(s.intr_count, 4);
}
