use arc700::soc::lue::port::{Cmd, LuePort, Quad, CMD_ERROR, CMD_GO, CMD_WRITE};

#[test]
fn a_command_word_round_trips_through_its_fields() {
    let cmd = Cmd { write: true, op_field: 0, arg2: 1, table: 3, index: 0x040 };
    assert_eq!(Cmd::decode(cmd.encode() | CMD_GO), cmd);

    let read = Cmd { write: false, op_field: 0, arg2: 2, table: 1, index: 0x005 };
    assert_eq!(Cmd::decode(read.encode() | CMD_GO), read);
}

#[test]
fn the_index_field_is_twelve_bits_wide() {
    let cmd = Cmd::decode(CMD_GO | (3 << 12) | 0x0800);
    assert_eq!(cmd.index, 0x800);
    assert_eq!(cmd.table, 3);
}

#[test]
fn entry_words_and_data_registers_are_inverted() {
    let q = Quad::new([0xF030_0021, 0x0000_0000, 0x0000_8809, 0x1000_0000]);
    let regs = q.to_regs();
    assert_eq!(regs[0], 0x1000_0000, "lowest address holds words[3]");
    assert_eq!(regs[3], 0xF030_0021, "highest address holds the header");
    assert_eq!(Quad::from_regs(regs), q);
}

#[test]
fn a_write_then_a_read_returns_the_same_entry() {
    let mut p = LuePort::new();
    let q = Quad::new([0xF038_00F1, 0x0000_0001, 0x0000_0010, 0x0F60_0000]);
    for (i, w) in q.to_regs().iter().enumerate() {
        p.write_data(i, *w);
    }
    p.write_cmd(CMD_GO | CMD_WRITE | (3 << 12) | 0x40);

    p.write_data(0, 0);
    p.write_data(1, 0);
    p.write_data(2, 0);
    p.write_data(3, 0);
    p.write_cmd(CMD_GO | (3 << 12) | 0x40);
    assert_eq!(Quad::from_regs([
        p.read_data(0),
        p.read_data(1),
        p.read_data(2),
        p.read_data(3),
    ]), q);
}

#[test]
fn a_neighbouring_table_or_index_holds_nothing() {
    let mut p = LuePort::new();
    for (i, w) in Quad::new([1, 2, 3, 4]).to_regs().iter().enumerate() {
        p.write_data(i, *w);
    }
    p.write_cmd(CMD_GO | CMD_WRITE | (3 << 12) | 0x40);

    for cmd in [CMD_GO | (1 << 12) | 0x40, CMD_GO | (3 << 12) | 0x41] {
        p.write_cmd(cmd);
        assert_eq!([p.read_data(0), p.read_data(1), p.read_data(2), p.read_data(3)], [0; 4]);
    }
}

#[test]
fn the_go_bit_clears_on_every_combination() {
    let mut p = LuePort::new();
    for word in [
        CMD_GO,
        CMD_GO | CMD_WRITE | 0x0FFF,
        CMD_GO | (0xF << 20) | (7 << 16) | (0xF << 12) | 0x0FFF,
        CMD_GO | CMD_WRITE | (9 << 20),
    ] {
        p.write_cmd(word);
        assert_eq!(p.read_cmd() & CMD_GO, 0, "go bit left set for {word:#010x}");
        assert_eq!(p.read_cmd() & CMD_ERROR, 0, "error bit invented for {word:#010x}");
    }
}

#[test]
fn an_unknown_operation_leaves_the_data_alone_and_is_counted() {
    let mut p = LuePort::new();
    p.write_data(0, 0xDEAD_BEEF);
    p.write_cmd(CMD_GO | (9 << 20) | (3 << 12) | 0x40);
    assert_eq!(p.read_data(0), 0xDEAD_BEEF);
    assert_eq!(p.counters.unknown_op, 1);
    assert!(p.counters.commands_accounted_for());
}

#[test]
fn a_command_without_the_go_bit_asks_for_nothing() {
    let mut p = LuePort::new();
    p.write_cmd(CMD_WRITE | (3 << 12) | 0x40);
    assert_eq!(p.counters.no_go, 1);
    assert_eq!(p.counters.commands, 0);
}

#[test]
fn a_read_of_an_empty_entry_is_counted() {
    let mut p = LuePort::new();
    p.write_cmd(CMD_GO | (5 << 12) | 0x123);
    assert_eq!(p.counters.reads_of_empty, 1);
    assert_eq!(p.entry_count(5), 0);
    assert!(p.counters.commands_accounted_for());
}

#[test]
fn writing_zero_clears_the_slot_and_keeps_the_table_sparse() {
    let mut p = LuePort::new();
    p.write_data(3, 0xF030_0021);
    p.write_cmd(CMD_GO | CMD_WRITE | (3 << 12) | 0x40);
    assert_eq!(p.entry_count(3), 1);

    p.write_data(3, 0);
    p.write_cmd(CMD_GO | CMD_WRITE | (3 << 12) | 0x40);
    assert_eq!(p.entry_count(3), 0);
    assert_eq!(p.counters.writes_of_zero, 1);
}

#[test]
fn a_full_counter_stops_only_what_it_counts() {
    let mut p = LuePort::new();
    p.counters.writes = u64::MAX;
    p.counters.reads_of_empty = u64::MAX;
    assert!(p.takes_cmd(0) && p.takes_cmd(CMD_GO | (1 << 20)));
    assert!(!p.takes_cmd(CMD_GO | CMD_WRITE) && !p.takes_cmd(CMD_GO));
    p.write_cmd(0xFFFF_FFFF & !CMD_GO);
    assert_eq!((p.read_cmd(), p.counters.no_go), (0x40F7_FFFF, 1));
}
