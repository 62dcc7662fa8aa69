use arc700::soc::epon_mac::{
    EponMac, CHIP_ID_VALUE, CHIP_REV_VALUE, EPON_LLID_BASE, EPON_LLID_STRIDE, REG_CHIP_ID,
    REG_CHIP_REV, REG_HW_STATE_STATUS, REG_LLID_ACTIVE_BITMAP, REG_LLID_CAPTURE_MASK,
    REG_LLID_COUNTER_MASK, REG_RX_GRANT_MASK, REG_SPECIAL_0064,
};
use arc700::soc::peripheral::{EponEvent, PeripheralEvent};

#[test]
fn chip_id_and_rev_are_fixed() {
    let mut m = EponMac::new();
    assert_eq!(m.read_word(REG_CHIP_ID).unwrap(), CHIP_ID_VALUE);
    assert_eq!(m.read_word(REG_CHIP_REV).unwrap(), CHIP_REV_VALUE);
    m.write_word(REG_CHIP_ID, 0xDEADBEEF).unwrap();
    assert_eq!(m.read_word(REG_CHIP_ID).unwrap(), CHIP_ID_VALUE);
}

#[test]
fn llid_anchor_bit0_clears_on_write() {
    let mut m = EponMac::new();
    m.write_word(0x0100_043C, 0x0001_7FFF).unwrap();
    assert_eq!(m.read_word(0x0100_043C).unwrap(), 0x0001_7FFE);
    m.write_word(0x0100_0D00, 0xFFFF_FFFF).unwrap();
    assert_eq!(m.read_word(0x0100_0D00).unwrap(), 0xFFFF_FFFE);
}

#[test]
fn llid_irq_status_w1c() {
    let mut m = EponMac::new();
    m.inject_event(&PeripheralEvent::Epon(EponEvent::InjectLlidInterrupt(1)))
        .unwrap();
    let addr = EPON_LLID_BASE + EPON_LLID_STRIDE + 0x04;
    assert!(m.read_word(addr).unwrap() != 0);
    m.write_word(addr, 0xFFFF_FFFF).unwrap();
    assert_eq!(m.read_word(addr).unwrap(), 0);
}

#[test]
fn bit6_is_a_sticky_level_not_a_50_tick_pulse() {
    let mut m = EponMac::new();
    assert_eq!(m.read_word(REG_HW_STATE_STATUS).unwrap() & 0x40, 0);
    m.set_phy_link_status_bit();
    assert_eq!(m.read_word(REG_HW_STATE_STATUS).unwrap() & 0x40, 0x40);
    for _ in 0..200 {
        m.tick(64);
    }
    assert_eq!(
        m.read_word(REG_HW_STATE_STATUS).unwrap() & 0x40,
        0x40,
        "bit6 must stay set as a level, not pulse away after 50 ticks"
    );
    m.write_word(REG_HW_STATE_STATUS, 0x40).unwrap();
    assert_eq!(m.read_word(REG_HW_STATE_STATUS).unwrap() & 0x40, 0);
    m.set_phy_link_status_bit();
    assert_eq!(m.read_word(REG_HW_STATE_STATUS).unwrap() & 0x40, 0x40);
    m.clear_phy_link_status_bit();
    assert_eq!(m.read_word(REG_HW_STATE_STATUS).unwrap() & 0x40, 0);
}

#[test]
fn queue_drain_bit8_sticky_until_acked() {
    let mut m = EponMac::new();
    let addr = EPON_LLID_BASE + 0x3C;
    assert_eq!(m.read_word(addr).unwrap() & 0x100, 0x100);
    m.write_word(addr, 0x100).unwrap();
    assert_eq!(m.read_word(addr).unwrap() & 0x100, 0);
    m.tick(64);
    assert_eq!(m.read_word(addr).unwrap() & 0x100, 0x100);
}

#[test]
fn a_latched_counter_answers_the_arrivals_of_the_selected_queue() {
    let mut m = EponMac::new();
    m.reset_cold();
    let cmd = EPON_LLID_BASE + 0x1D4;
    let data = EPON_LLID_BASE + 0x1D8;

    for queue in [0x00u32, 0x0F, 0x10] {
        m.write_word(cmd, (queue << 4) | 0xC).unwrap();
        assert_eq!(m.read_word(data).unwrap(), 0);
    }

    m.record_queue_arrivals(0x10, 3);
    m.record_queue_arrivals(0x0F, 1);

    m.write_word(cmd, (0x10 << 4) | 0xC).unwrap();
    assert_eq!(m.read_word(data).unwrap(), 3);
    m.write_word(cmd, (0x0F << 4) | 0xC).unwrap();
    assert_eq!(m.read_word(data).unwrap(), 1);
    m.write_word(cmd, 0xC).unwrap();
    assert_eq!(m.read_word(data).unwrap(), 0, "queue 0 saw nothing");
}

#[test]
fn the_counter_latch_never_stays_busy() {
    let mut m = EponMac::new();
    m.reset_cold();
    for val in [0x8000_000Cu32, 0x8000_0FFC, 0xFFFF_FFFF, 0x0000_0004] {
        m.write_word(EPON_LLID_BASE + 0x1D4, val).unwrap();
        assert_eq!(m.read_word(EPON_LLID_BASE + 0x1D4).unwrap() & 0x8000_0000, 0);
    }
}

#[test]
fn peeking_the_counter_port_has_no_side_effect() {
    let mut m = EponMac::new();
    m.reset_cold();
    m.record_queue_arrivals(0x10, 2);
    m.write_word(EPON_LLID_BASE + 0x1D4, (0x10 << 4) | 0xC).unwrap();
    let before = m.unattributed_counter_reads;
    assert_eq!(m.peek_word(EPON_LLID_BASE + 0x1D8).unwrap(), 2);
    assert_eq!(m.unattributed_counter_reads, before);
}

#[test]
fn cold_reset_silicon_power_on_defaults() {
    let mut m = EponMac::new();
    m.reset_cold();
    assert_eq!(m.read_word(REG_RX_GRANT_MASK).unwrap(), 0x0000_FFFF);
    assert_eq!(m.read_word(REG_LLID_CAPTURE_MASK).unwrap(), 0);
    assert_eq!(m.read_word(REG_LLID_ACTIVE_BITMAP).unwrap(), 0);
    assert_eq!(m.read_word(REG_LLID_COUNTER_MASK).unwrap(), 0x0007_7FF7);
    assert_eq!(m.read_word(REG_SPECIAL_0064).unwrap(), 0);
}

#[test]
fn claims_predicate_excludes_other_peripherals() {
    let m = EponMac::new();
    assert!(!m.claims(0x0100_0040));
    assert!(!m.claims(0x0100_0048));
    assert!(!m.claims(0x0100_004C));
    assert!(!m.claims(0x0100_0050));
    assert!(!m.claims(0x0100_0140));
    assert!(!m.claims(0x0100_0180));
    assert!(!m.claims(0x0100_0200));
    assert!(!m.claims(0x0100_2400));
    assert!(m.claims(0x0100_0000));
    assert!(m.claims(0x0100_0030));
    assert!(m.claims(0x0100_043C));
    assert!(m.claims(0x0100_1404));
    assert!(!m.claims(0x0100_2804));
}

#[test]
fn a_queue_pointer_reads_back_at_the_start_of_its_queue() {
    let mut m = EponMac::new();
    m.reset_cold();
    for (queue, start, end) in [(0x0Eu32, 0x000u32, 0x027u32), (0x0F, 0x028, 0x037), (0x10, 0x038, 0x047)] {
        m.write_word(0x0100_1480 + queue * 4, (end << 12) | start).unwrap();
        for mode in 0..2u32 {
            m.write_word(0x0100_143C, queue | (mode << 5)).unwrap();
            let word = m.read_word(0x0100_143C).unwrap();
            let field = (word >> 9) & 0x3_FFFF;
            assert_eq!((field & 0xFFC0) >> 6, start, "queue {queue:#04x} pointer {mode}");
            assert_eq!(field & 0x3F, 0);
        }
    }
}

#[test]
fn the_drain_done_bit_survives_a_selector_write() {
    let mut m = EponMac::new();
    m.reset_cold();
    m.write_word(0x0100_143C, 0x0F).unwrap();
    assert_ne!(m.read_word(0x0100_143C).unwrap() & 0x100, 0);
}
