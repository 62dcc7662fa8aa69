use arc700::soc::lue::port::{PortCounters, Quad, CMD_GO, CMD_WRITE};
use arc700::soc::lue::Lue;

#[test]
fn exactly_ten_addresses_are_claimed() {
    let lue = Lue::new();
    for addr in [
        0x0100_240C, 0x0100_2410, 0x0100_2414, 0x0100_2418, 0x0100_241C,
        0x0100_280C, 0x0100_2810, 0x0100_2814, 0x0100_2818, 0x0100_281C,
    ] {
        assert!(lue.claims(addr), "{addr:#010x} should be claimed");
    }
    for addr in [
        0x0100_2400, 0x0100_2404, 0x0100_2408, 0x0100_2420, 0x0100_2424,
        0x0100_2644, 0x0100_2800, 0x0100_2804, 0x0100_2820, 0x0100_2A44,
    ] {
        assert!(!lue.claims(addr), "{addr:#010x} must stay with its owner");
    }
}

#[test]
fn reading_the_port_has_no_side_effect() {
    let mut lue = Lue::new();
    lue.write_word(0x0100_2418, 0x0000_8809).unwrap();
    lue.write_word(0x0100_240C, CMD_GO | CMD_WRITE | (3 << 12) | 0x40).unwrap();

    let before = lue.clone();
    for _ in 0..3 {
        for addr in [0x0100_240Cu32, 0x0100_2410, 0x0100_2414, 0x0100_2418, 0x0100_241C] {
            let r = lue.read_word(addr).unwrap();
            assert_eq!(r, lue.peek_word(addr).unwrap(), "peek and read disagree");
        }
    }
    assert_eq!(format!("{:?}", lue.inst[0]), format!("{:?}", before.inst[0]));
}

#[test]
fn the_two_instances_do_not_share_a_table() {
    let mut lue = Lue::new();
    lue.write_word(0x0100_2418, 0x0000_8809).unwrap();
    lue.write_word(0x0100_240C, CMD_GO | CMD_WRITE | (3 << 12) | 0x40).unwrap();

    lue.write_word(0x0100_280C, CMD_GO | (3 << 12) | 0x40).unwrap();
    for addr in [0x0100_2810u32, 0x0100_2814, 0x0100_2818, 0x0100_281C] {
        assert_eq!(lue.read_word(addr).unwrap(), 0);
    }
    assert_eq!(lue.inst[1].counters.reads_of_empty, 1);

    lue.write_word(0x0100_240C, CMD_GO | (3 << 12) | 0x40).unwrap();
    assert_eq!(lue.read_word(0x0100_2418).unwrap(), 0x0000_8809);
}

#[test]
fn an_entry_written_through_mmio_keeps_its_word_order() {
    let mut lue = Lue::new();
    let q = Quad::new([0xF030_0021, 0x0000_0000, 0x0000_8809, 0x1000_0000]);
    for (i, w) in q.to_regs().iter().enumerate() {
        lue.write_word(0x0100_2410 + i as u32 * 4, *w).unwrap();
    }
    lue.write_word(0x0100_240C, CMD_GO | CMD_WRITE | (3 << 12) | 0x2E).unwrap();
    assert_eq!(lue.inst[0].entry(3, 0x2E), Some(q));
    assert_eq!(lue.read_word(0x0100_241C).unwrap(), 0xF030_0021);
    assert_eq!(lue.read_word(0x0100_2410).unwrap(), 0x1000_0000);
}

#[test]
fn narrow_accesses_reach_the_same_registers() {
    let mut lue = Lue::new();
    lue.write_word(0x0100_240C, CMD_GO | CMD_WRITE | (1 << 16) | (3 << 12) | 0x40).unwrap();
    assert_eq!(lue.read_byte(0x0100_240C).unwrap(), 0x40);
    assert_eq!(lue.read_half(0x0100_240C).unwrap(), 0x4001);
    assert_eq!(lue.read_half(0x0100_240E).unwrap(), 0x3040);
    assert_eq!(lue.inst[0].counters.commands, 1);

    lue.write_half(0x0100_2412, 0xBEEF).unwrap();
    assert_eq!(lue.read_word(0x0100_2410).unwrap(), 0x0000_BEEF);
    lue.write_byte(0x0100_2410, 0xAB).unwrap();
    assert_eq!(lue.read_word(0x0100_2410).unwrap(), 0xAB00_BEEF);
}

#[test]
fn a_cold_reset_empties_both_instances() {
    let mut lue = Lue::new();
    lue.write_word(0x0100_2418, 0x1234).unwrap();
    lue.write_word(0x0100_240C, CMD_GO | CMD_WRITE | (3 << 12) | 0x40).unwrap();
    lue.reset_cold();
    assert_eq!(lue.read_word(0x0100_240C).unwrap(), 0);
    assert_eq!(lue.inst[0].entry_count(3), 0);
    assert_eq!(lue.inst[0].counters, PortCounters::default());
}
