use arc700::soc::bsc_i2c::{BscI2c, BSC_BUSY_TICKS};

#[test]
fn data_reg_returns_zero_when_idle() {
    let mut bsc = BscI2c::new();
    bsc.write_word(0x0100014C, 0x0000_000C).unwrap();
    let v = bsc.read_word(0x0100014C).unwrap();
    assert_eq!(v, 0, "DATA register must not echo back written value in Idle");
}

#[test]
fn stat_bit0_auto_clears() {
    let mut bsc = BscI2c::new();
    bsc.write_word(0x01000150, 0x0B).unwrap();
    let v = bsc.read_word(0x01000150).unwrap();
    assert_eq!(v, 0x0A, "STAT bit 0 must auto-clear on write");
}

#[test]
fn device_select_from_slave_addr_bit0() {
    let mut bsc = BscI2c::new();
    bsc.write_word(0x0100014C, 0x0000_0050).unwrap();
    let cmd = (1u32 << 27) | (0x100u32 << 18) | 0x51;
    bsc.write_word(0x01000140, cmd).unwrap();
    assert_eq!(bsc.last_device, 1);

    let cmd2 = (1u32 << 27) | (0x100u32 << 18) | 0x50;
    bsc.write_word(0x01000140, cmd2).unwrap();
    assert_eq!(bsc.last_device, 0);
}

#[test]
fn busy_clears_after_ticks() {
    let mut bsc = BscI2c::new();
    bsc.write_word(0x0100014C, 0x0000_0050).unwrap();
    let cmd = (1u32 << 27) | (0x100u32 << 18) | 0x51;
    bsc.write_word(0x01000140, cmd).unwrap();
    let s = bsc.read_word(0x01000150).unwrap();
    assert_ne!(s & 0x8000_0000, 0);
    for _ in 0..BSC_BUSY_TICKS {
        bsc.tick(64);
    }
    let s = bsc.read_word(0x01000150).unwrap();
    assert_eq!(s & 0x8000_0000, 0);
}

fn do_init(bsc: &mut BscI2c, sub_addr: u16, byte_count: u16, slave: u32) {
    bsc.write_word(0x0100014C, sub_addr as u32).unwrap();
    bsc.write_word(0x01000140, (2u32 << 27) | slave).unwrap();
    for _ in 0..BSC_BUSY_TICKS {
        bsc.tick(1);
    }
    bsc.write_word(0x01000150, 0x0B).unwrap();
    bsc.write_word(0x01000140, 0x0400_0000 | slave).unwrap();
    let arm_val = 0x0040_0000 | ((byte_count as u32) << 3) | 1;
    bsc.write_word(0x01000150, arm_val).unwrap();
    for _ in 0..BSC_BUSY_TICKS {
        bsc.tick(1);
    }
}

#[test]
fn reference_protocol_reads_correct_data() {
    let mut bsc = BscI2c::new();
    do_init(&mut bsc, 0, 16, 0x50);

    for word_idx in 0u32..4 {
        let cmd = (1u32 << 27) | ((0x100 + word_idx) << 18) | 0x50;
        bsc.write_word(0x01000140, cmd).unwrap();
        for _ in 0..BSC_BUSY_TICKS {
            bsc.tick(1);
        }
        let data = bsc.read_word(0x0100014C).unwrap();
        let expected = bsc.sfp.read_word(0, word_idx as u16 * 4);
        assert_eq!(data, expected, "word {} mismatch", word_idx);
    }
}

#[test]
fn reads_without_init_return_stale() {
    let mut bsc = BscI2c::new();
    let cmd = (1u32 << 27) | (0x100u32 << 18) | 0x50;
    bsc.write_word(0x01000140, cmd).unwrap();
    for _ in 0..BSC_BUSY_TICKS {
        bsc.tick(1);
    }
    let data = bsc.read_word(0x0100014C).unwrap();
    assert_eq!(data, 0, "read without init must return stale (0)");
}

#[test]
fn burst_exhaustion_returns_stale() {
    let mut bsc = BscI2c::new();
    do_init(&mut bsc, 0, 4, 0x50);

    let cmd = (1u32 << 27) | (0x100u32 << 18) | 0x50;
    bsc.write_word(0x01000140, cmd).unwrap();
    for _ in 0..BSC_BUSY_TICKS {
        bsc.tick(1);
    }
    let data1 = bsc.read_word(0x0100014C).unwrap();
    let expected = bsc.sfp.read_word(0, 0);
    assert_eq!(data1, expected);

    let cmd2 = (1u32 << 27) | (0x101u32 << 18) | 0x50;
    bsc.write_word(0x01000140, cmd2).unwrap();
    for _ in 0..BSC_BUSY_TICKS {
        bsc.tick(1);
    }
    let data2 = bsc.read_word(0x0100014C).unwrap();
    assert_eq!(data2, data1, "stale data after burst exhaustion");
}

#[test]
fn a2h_device_select_with_init() {
    let mut bsc = BscI2c::new();
    do_init(&mut bsc, 0, 4, 0x51);

    let cmd = (1u32 << 27) | (0x100u32 << 18) | 0x51;
    bsc.write_word(0x01000140, cmd).unwrap();
    for _ in 0..BSC_BUSY_TICKS {
        bsc.tick(1);
    }
    let data = bsc.read_word(0x0100014C).unwrap();
    let expected = bsc.sfp.read_word(1, 0);
    assert_eq!(data, expected, "A2h word 0 mismatch");
}

#[test]
fn sequential_reads_advance_pointer() {
    let mut bsc = BscI2c::new();
    do_init(&mut bsc, 8, 8, 0x50);

    for word_idx in 0u32..2 {
        let cmd = (1u32 << 27) | ((0x100 + word_idx) << 18) | 0x50;
        bsc.write_word(0x01000140, cmd).unwrap();
        for _ in 0..BSC_BUSY_TICKS {
            bsc.tick(1);
        }
        let data = bsc.read_word(0x0100014C).unwrap();
        let expected = bsc.sfp.read_word(0, 8 + word_idx as u16 * 4);
        assert_eq!(data, expected, "word {} from offset 8", word_idx);
    }
}

#[test]
fn the_pointer_of_a_burst_wraps() {
    let mut bsc = BscI2c::new();
    do_init(&mut bsc, 0xFFFC, 8, 0x50);
    for want in [bsc.sfp.read_word(0, 0xFFFC), bsc.sfp.read_word(0, 0)] {
        bsc.write_word(0x0100_0140, (1 << 27) | 0x50).unwrap();
        assert_eq!(bsc.read_word(0x0100_014C).unwrap(), want);
    }
    bsc.write_word(0x0100_0140, (1 << 27) | 0x50).unwrap();
    assert_eq!(bsc.read_word(0x0100_014C).unwrap(), bsc.sfp.read_word(0, 0));
}
