use uart_core::asynchronous::{AsyncSerial, AsyncUartEvent};
use uart_core::events::TraceEvent;
use uart_core::hw::{FifoTrigger, RegOp};
use uart_core::suspend::{ReadOperation, WriteOperation};

#[test]
fn hardware_init_uses_the_half_full_trigger() {
    let mut s = AsyncSerial::new(0x1000_2000, 8, 8);
    let ops = s.hardware_init(115200);
    assert_eq!(ops[ops.len() - 2], RegOp::ConfigureFifo {
        enable: true,
        trigger: FifoTrigger::HalfFull,
    });
    assert_eq!(*ops.last().unwrap(), RegOp::EnableRxAvailableInterrupt);
    assert!(s.rx_intr_enabled);
}

#[test]
fn receive_overflow_keeps_exactly_capacity_bytes_and_disables_the_interrupt() {
    let mut s = AsyncSerial::new(0, 4, 4);
    s.hardware_init(115200);
    // capacity C = 4, C + 1 bytes available within one invocation
    let out = s.interrupt_handler(&vec![AsyncUartEvent::ReceivedDataAvailable {
        bytes: vec![10, 20, 30, 40, 50],
        waker_lock_free: true,
    }]);
    assert_eq!(out.tx_bytes, Vec::<u8>::new());
    assert_eq!(s.rx_count, 4);
    assert!(!s.rx_intr_enabled);
    // exactly the first four bytes were stored, in order; the fifth is lost
    assert_eq!(s.try_read(), Some(10));
    assert_eq!(s.try_read(), Some(20));
    assert_eq!(s.try_read(), Some(30));
    assert_eq!(s.try_read(), Some(40));
    assert_eq!(s.try_read(), None);
}

#[test]
fn wake_is_edge_triggered_and_survives_lock_contention() {
    let mut s = AsyncSerial::new(0, 8, 8);
    s.register_read(71);
    // the waker slot's lock could not be taken: the wake is skipped but the
    // registration is kept
    let out = s.interrupt_handler(&vec![AsyncUartEvent::ReceivedDataAvailable {
        bytes: vec![1],
        waker_lock_free: false,
    }]);
    assert_eq!(out.wakes, Vec::<u64>::new());
    assert_eq!(s.read_waker.token, Some(71));
    // the next successful attempt delivers it, once
    let out2 = s.interrupt_handler(&vec![AsyncUartEvent::ReceivedDataAvailable {
        bytes: vec![2],
        waker_lock_free: true,
    }]);
    assert_eq!(out2.wakes, vec![71]);
    assert_eq!(s.read_waker.token, None);
    // no registration: nothing to wake
    let out3 = s.interrupt_handler(&vec![AsyncUartEvent::ReceivedDataAvailable {
        bytes: vec![3],
        waker_lock_free: true,
    }]);
    assert_eq!(out3.wakes, Vec::<u64>::new());
}

#[test]
fn a_new_registration_overwrites_the_previous_one() {
    let mut s = AsyncSerial::new(0, 8, 8);
    s.register_write(1);
    s.register_write(2);
    let out = s.interrupt_handler(&vec![AsyncUartEvent::TransmitterHoldingEmpty {
        waker_lock_free: true,
    }]);
    assert_eq!(out.wakes, vec![2]);
}

#[test]
fn suspended_read_completes_once_deliveries_total_its_length() {
    let mut s = AsyncSerial::new(0, 8, 8);
    s.hardware_init(115200);
    let mut op = ReadOperation::new(5);
    s.register_read(9);
    // nothing delivered yet: pending, receive interrupt stays on
    assert!(!op.poll(&mut s));
    assert!(s.rx_intr_enabled);
    // first delivery: three of five bytes
    let out = s.interrupt_handler(&vec![AsyncUartEvent::ReceivedDataAvailable {
        bytes: vec![1, 2, 3],
        waker_lock_free: true,
    }]);
    assert_eq!(out.wakes, vec![9]);
    assert!(!op.poll(&mut s));
    assert_eq!(op.buf, vec![1, 2, 3]);
    // second delivery pushes the total past five: the read completes, with
    // contents matching delivery order; the extra byte stays in the ring
    s.interrupt_handler(&vec![AsyncUartEvent::CharacterTimeout {
        bytes: vec![4, 5, 6],
        waker_lock_free: true,
    }]);
    assert!(op.poll(&mut s));
    assert_eq!(op.buf, vec![1, 2, 3, 4, 5]);
    assert_eq!(s.try_read(), Some(6));
}

#[test]
fn read_of_length_zero_is_ready_at_once() {
    let mut s = AsyncSerial::new(0, 4, 4);
    let mut op = ReadOperation::new(0);
    assert!(op.poll(&mut s));
    assert_eq!(op.buf, Vec::<u8>::new());
}

#[test]
fn suspended_write_fills_the_ring_and_completes_after_drains() {
    let mut s = AsyncSerial::new(0, 8, 4);
    let mut op = WriteOperation::new(vec![1, 2, 3, 4, 5, 6, 7, 8, 9, 10]);
    s.register_write(5);
    // the transmit ring holds four: pending, transmit interrupt on
    assert!(!op.poll(&mut s));
    assert_eq!(op.write_len, 4);
    assert!(s.tx_intr_enabled);
    // the interrupt drains the ring into the hardware FIFO and wakes us
    let out = s.interrupt_handler(&vec![AsyncUartEvent::TransmitterHoldingEmpty {
        waker_lock_free: true,
    }]);
    assert_eq!(out.tx_bytes, vec![1, 2, 3, 4]);
    assert_eq!(out.wakes, vec![5]);
    assert!(!op.poll(&mut s));
    assert_eq!(op.write_len, 8);
    let out2 = s.interrupt_handler(&vec![AsyncUartEvent::TransmitterHoldingEmpty {
        waker_lock_free: true,
    }]);
    assert_eq!(out2.tx_bytes, vec![5, 6, 7, 8]);
    // the last two bytes fit: the write completes
    assert!(op.poll(&mut s));
    assert_eq!(op.write_len, 10);
    let out3 = s.interrupt_handler(&vec![AsyncUartEvent::TransmitterHoldingEmpty {
        waker_lock_free: true,
    }]);
    assert_eq!(out3.tx_bytes, vec![9, 10]);
    // the ring emptied mid-drain: the transmit interrupt goes off
    assert!(!s.tx_intr_enabled);
}

#[test]
fn trace_brackets_every_cause() {
    let mut s = AsyncSerial::new(0, 4, 4);
    let out = s.interrupt_handler(&vec![
        AsyncUartEvent::ModemStatus,
        AsyncUartEvent::Unrecognized(6),
        AsyncUartEvent::TransmitterHoldingEmpty { waker_lock_free: true },
    ]);
    assert_eq!(
        out.trace,
        vec![
            TraceEvent::Enter(0),
            TraceEvent::Exit(0),
            TraceEvent::Enter(6),
            TraceEvent::Exit(6),
            TraceEvent::Enter(2),
            TraceEvent::Exit(2),
        ]
    );
    assert_eq!(s.intr_count, 3);
}
