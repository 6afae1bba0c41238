use uart_core::hw::{quiesce_ops, set_divisor_ops, FifoTrigger, RegOp};
use uart_core::{
    get_base_addr_from_irq, get_base_addr_from_irq_lrv, irq_to_serial_id, irq_to_serial_id_lrv,
};

#[test]
fn divisor_for_115200_baud_is_54() {
    // 100_000_000 / (16 * 115200) = 54, floored
    let ops = set_divisor_ops(100_000_000, 115200);
    assert_eq!(
        ops,
        vec![
            RegOp::SetDivisorLatchAccess,
            RegOp::WriteDivisorLow(54),
            RegOp::WriteDivisorHigh(0),
            RegOp::ClearDivisorLatchAccess,
        ]
    );
}

#[test]
fn divisor_split_covers_both_bytes() {
    // 100_000_000 / (16 * 300) = 20833 = 0x5161
    let ops = set_divisor_ops(100_000_000, 300);
    assert_eq!(ops[1], RegOp::WriteDivisorLow(0x61));
    assert_eq!(ops[2], RegOp::WriteDivisorHigh(0x51));
    // the split round-trips losslessly
    assert_eq!(0x61u32 + 256 * 0x51u32, 20833);
}

#[test]
fn quiesce_sequence_disables_interrupts_and_fifos() {
    let ops = quiesce_ops();
    assert_eq!(
        ops,
        vec![
            RegOp::ResetInterruptEnable,
            RegOp::ReadModemStatus,
            RegOp::ReadLineStatus,
            RegOp::ConfigureFifo { enable: false, trigger: FifoTrigger::OneCharacter },
        ]
    );
}

#[test]
fn irq_lines_map_to_serial_instances() {
    assert_eq!(irq_to_serial_id(12), 0);
    assert_eq!(irq_to_serial_id(13), 1);
    assert_eq!(irq_to_serial_id(14), 2);
    assert_eq!(irq_to_serial_id(15), 3);
    assert_eq!(irq_to_serial_id(99), 0);
}

#[test]
fn base_address_resolution_uses_the_stride() {
    assert_eq!(get_base_addr_from_irq(12), 0x1000_2000);
    assert_eq!(get_base_addr_from_irq(13), 0x1000_3000);
    assert_eq!(get_base_addr_from_irq(15), 0x1000_5000);
}

#[test]
fn lrv_board_uses_its_own_lines_and_base() {
    assert_eq!(irq_to_serial_id_lrv(4), 0);
    assert_eq!(irq_to_serial_id_lrv(5), 1);
    assert_eq!(irq_to_serial_id_lrv(6), 2);
    assert_eq!(irq_to_serial_id_lrv(7), 3);
    assert_eq!(irq_to_serial_id_lrv(99), 0);
    assert_eq!(get_base_addr_from_irq_lrv(4), 0x6000_1000);
    assert_eq!(get_base_addr_from_irq_lrv(7), 0x6000_4000);
}
