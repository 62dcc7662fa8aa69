use arc700::mcp::bus::get_unhandled_mmio;
use arc700::soc::bank::{BootMode, PeripheralBank, SeqTrace, BANK_TICK_PRESCALER};
use arc700::soc::lue::port::{CMD_GO, CMD_WRITE};
use arc700::soc::lue::rule::{Action, ActionPayload, Clause, Entry, Field, Link, Op};
use arc700::soc::olt::LineFrame;
use arc700::soc::peripheral::{
    AddressRange, AlarmEvent, BscEvent, DatapathOp, DmaEvent, EfuseEvent, EponEvent, FatalFilterEvent,
    MacsecEvent, PeripheralEvent, SerDesEvent, UartEvent,
};
use arc700::soc::scenario::{DeferredWrite, OverrideSpec};
use arc700::soc::uart::{UART_DATA, UART_RANGE_START, UART_REG_OFFSET};

const PLAIN: u32 = 0x0100_0020;
const UART: u32 = UART_RANGE_START + UART_REG_OFFSET + UART_DATA;

#[test]
fn words_round_trip_and_narrow_accesses_pick_their_lane() {
    let mut b = PeripheralBank::new(BootMode::Cold);
    b.write_word(PLAIN, 0x0102_0304).unwrap();
    assert_eq!(b.read_word(PLAIN).unwrap(), 0x0102_0304);
    assert_eq!(b.read_half(PLAIN + 2).unwrap(), 0x0304);
    assert_eq!(b.read_byte(PLAIN + 1).unwrap(), 0x02);
    b.write_byte(PLAIN + 3, 0xEE).unwrap();
    b.write_half(PLAIN, 0xABCD).unwrap();
    assert_eq!(b.peek_word(PLAIN).unwrap(), 0xABCD_03EE);
}

#[test]
fn unclaimed_accesses_read_zero_or_fail() {
    let mut b = PeripheralBank::new(BootMode::Cold);
    assert_eq!(b.read_word(0x0200_0000).unwrap(), 0);
    assert_eq!(b.read_byte(0x0200_0000).unwrap(), 0);
    assert!(b.write_word(0x0200_0000, 1).is_ok());
    b.unmapped_exception = true;
    assert!(b.read_word(0x0200_0000).is_err());
    assert!(b.read_half(0x0200_0000).is_err());
    assert!(b.write_byte(0x0200_0000, 1).is_err());
    assert!(b.write_half(0x0200_0000, 1).is_err());
    assert!(b.write_word(0x0200_0000, 1).is_err());
    assert_eq!(b.peripheral_for(0x0200_0000), None);
    assert!(b.peripheral_for(PLAIN).is_some());
}

#[test]
fn peeking_takes_nothing_away() {
    let mut b = PeripheralBank::new(BootMode::Cold);
    b.uart.push_rx_byte(0x33);
    assert_eq!(b.peek_word(UART).unwrap(), 0x33);
    assert_eq!(b.peek_word(UART).unwrap(), 0x33);
    assert_eq!(b.read_word(UART).unwrap(), 0x33);
    assert_eq!(b.peek_word(UART).unwrap(), 0);
}

#[test]
fn registers_without_a_peek_path_show_zero() {
    let mut b = PeripheralBank::new(BootMode::Cold);
    b.write_word(0x0100_2480, 5).unwrap();
    assert_eq!(b.peek_word(0x0100_2480).unwrap(), 0);
    assert_eq!(b.read_word(0x0100_2480).unwrap(), 5);
}

#[test]
fn printed_bytes_are_logged_and_received_bytes_arrive() {
    let mut b = PeripheralBank::new(BootMode::Cold);
    b.write_word(UART, b'k' as u32).unwrap();
    assert_eq!(b.uart.tx_log_bytes(), vec![b'k']);
    b.push_uart_rx(0x55);
    b.push_uart_rx(0x66);
    b.tick(BANK_TICK_PRESCALER);
    b.tick(BANK_TICK_PRESCALER);
    let first = b.read_word(UART).unwrap() & 0xFF;
    let second = b.read_word(UART).unwrap() & 0xFF;
    assert_eq!((first, second), (0x55, 0x66));
    assert!(b.inject_event(&PeripheralEvent::Uart(UartEvent::ClearTxLog)));
    assert!(b.uart.tx_log_bytes().is_empty());
}

#[test]
fn every_peripheral_takes_its_events() {
    let mut b = PeripheralBank::new(BootMode::Cold);
    assert!(b.inject_event(&PeripheralEvent::Alarm(AlarmEvent::ForcePending(28))));
    assert_eq!(b.alarm_events.forced_opcodes(), &[28u16]);
    assert!(b.inject_event(&PeripheralEvent::SerDes(SerDesEvent::InjectRxLos(3, true))));
    assert_eq!(b.serdes_rx_los, 8);
    assert!(b.inject_event(&PeripheralEvent::SerDes(SerDesEvent::InjectRxLos(3, false))));
    assert_eq!(b.serdes_rx_los, 0);
    assert!(b.inject_event(&PeripheralEvent::FatalFilter(FatalFilterEvent::InjectFatal(6))));
    assert_eq!(b.read_word(0x0100_3604).unwrap(), 6);
    assert!(b.inject_event(&PeripheralEvent::Bsc(BscEvent::Reset)));
    assert!(b.inject_event(&PeripheralEvent::Epon(EponEvent::ResetCounters)));
    assert!(b.inject_event(&PeripheralEvent::Macsec(MacsecEvent::InjectPnOverflow(3))));
    assert_eq!(b.macsec.pn_overflow_mask, 8);
    assert!(b.inject_event(&PeripheralEvent::Dma(DmaEvent::InjectQueueEntry(1))));
    assert!(b.inject_event(&PeripheralEvent::Efuse(EfuseEvent::SetSnapshot(vec![1, 2]))));
}

#[test]
fn a_saved_bank_comes_back() {
    let mut b = PeripheralBank::new(BootMode::Cold);
    b.write_word(PLAIN, 0x1234).unwrap();
    let saved = b.capture_for_snapshot();
    b.write_word(PLAIN, 0x9999).unwrap();
    b.write_word(UART, b'x' as u32).unwrap();
    b.restore_from_snapshot(saved);
    assert_eq!(b.peek_word(PLAIN).unwrap(), 0x1234);
    assert!(b.uart.tx_log_bytes().is_empty());
}

#[test]
fn a_reset_forgets_what_was_written() {
    for warm in [false, true] {
        let mut b = PeripheralBank::new(BootMode::Cold);
        let reset = |b: &mut PeripheralBank| if warm { b.reset_warm() } else { b.reset_cold() };
        reset(&mut b);
        let fresh = b.peek_word(PLAIN).unwrap();
        b.write_word(PLAIN, !fresh).unwrap();
        b.write_word(UART, b'x' as u32).unwrap();
        reset(&mut b);
        assert_eq!(b.peek_word(PLAIN).unwrap(), fresh);
        assert!(b.uart.tx_log_bytes().is_empty());
    }
}

#[test]
fn accesses_are_logged_line_by_line() {
    let mut b = PeripheralBank::new(BootMode::Cold);
    b.log.seq_trace = Some(SeqTrace::with_ranges(vec![(PLAIN, PLAIN + 4)]));
    b.update_cpu_context(16, 0, 9);
    b.write_word(PLAIN, 5).unwrap();
    b.write_word(PLAIN + 4, 6).unwrap();
    let lines = b.log.seq_trace.as_mut().unwrap().take_lines();
    assert_eq!(lines.len(), 1);
    assert!(lines[0].starts_with("{\"cycle\":9,\"pc\":16,\"addr\":16777248,\"value\":5,\"rw\":\"w\""));
    assert!(b.log.seq_trace.as_ref().unwrap().lines.is_empty());
}

#[test]
fn the_newest_access_of_an_address_is_remembered() {
    let mut b = PeripheralBank::new(BootMode::Cold);
    b.write_word(PLAIN, 5).unwrap();
    b.read_word(PLAIN).unwrap();
    let last = b.log.last_access_of(PLAIN).unwrap();
    assert_eq!((last.direction, last.value), ("read", 5));
    b.record_aux_write(0x48, 0xC3);
    assert_eq!(b.log.aux_write_history.len(), 1);
    assert_eq!(b.log.aux_write_history[0].value, 0xC3);
}

#[test]
fn queued_writes_go_through_after_an_access() {
    let mut b = PeripheralBank::new(BootMode::Cold);
    b.scenario.deferred.push(DeferredWrite { address: PLAIN, value: 77 });
    b.read_word(0x0100_12C0).unwrap();
    assert_eq!(b.peek_word(PLAIN).unwrap(), 77);
    b.scenario.overrides.set(PLAIN, OverrideSpec::StaticRead { value: 1 }, None);
    assert_eq!(b.read_word(PLAIN).unwrap(), 1);
    assert!(!b.scenario_pause_requested());
}

#[test]
fn finished_work_is_handed_over_once() {
    let mut b = PeripheralBank::new(BootMode::Cold);
    b.pending_cache_inv.push(DatapathOp::SramWrite { sram_addr: 4, data: vec![1] });
    assert_eq!(b.take_pending_datapath().len(), 1);
    assert_eq!(b.take_pending_datapath().len(), 0);
}

#[test]
fn the_peripherals_are_listed() {
    let b = PeripheralBank::new(BootMode::Warm);
    assert_eq!(b.snapshot_all().len(), 13);
    assert!(b.classify_downstream(&[0u8; 64]).is_none());
}

#[test]
fn ticks_count_the_transmit_timestamp_while_the_link_is_up() {
    let mut b = PeripheralBank::new(BootMode::Cold);
    b.tick(BANK_TICK_PRESCALER);
    assert_eq!(b.nco_tx_ts_counter, 0);
    b.olt.link_up = true;
    b.tick(BANK_TICK_PRESCALER);
    b.tick(BANK_TICK_PRESCALER);
    assert_eq!(b.nco_tx_ts_counter, 2);
}

#[test]
fn a_warm_reset_drops_what_a_cold_one_drops() {
    let mut b = PeripheralBank::new(BootMode::Warm);
    b.write_word(0x0100_0014, 0xFFFF_FFFF).unwrap();
    b.log.current_di = true;
    assert_eq!(b.read_word(0x0100_0014), Ok(0xFFFF_FFFF));
    b.reset_warm();
    assert_eq!(b.read_word(0x0100_0014), Ok(0));
    assert!(!b.log.current_di);
}

#[test]
fn the_lane_bus_shows_its_power_on_command() {
    let mut b = PeripheralBank::new(BootMode::Cold);
    assert_eq!(b.peek_word(0x0100_0160), Ok(0x0001_5000));
    b.write_word(0x0100_0160, 3).unwrap();
    b.reset_warm();
    assert_eq!(b.peek_word(0x0100_0160), Ok(0x0001_5000));
    b.write_word(0x0100_0160, 3).unwrap();
    b.reset_cold();
    assert_eq!(b.peek_word(0x0100_0160), Ok(0x0001_5000));
}

#[test]
fn frames_that_come_down_wait_in_their_queues() {
    let mut b = PeripheralBank::new(BootMode::Cold);
    b.olt.mailbox = AddressRange::new(0x0100_15C0, 0x0100_15D0);
    b.olt.cmd_addr = Some(0x0100_15C0);
    b.olt.data_addr = Some(0x0100_15C4);
    b.olt.downstream.push(LineFrame { bytes: vec![0; 60], words: vec![9, 8], slot: 0x10 });
    b.tick(BANK_TICK_PRESCALER);
    assert_eq!(b.olt.elapsed, BANK_TICK_PRESCALER);
    assert_eq!(b.peek_word(0x0100_1438), Ok(1 << 0x10));
    assert_eq!(b.read_word(0x0100_0010), Ok(1 << 27));
    assert_eq!(b.epon_mac.queue_arrivals(0, 0x10), 1);
    b.write_word(0x0100_15C0, 0x10).unwrap();
    assert_eq!(b.peek_word(0x0100_1438), Ok(0));
    assert_eq!((b.read_word(0x0100_15C4), b.read_word(0x0100_15C4)), (Ok(9), Ok(8)));
    assert!(b.olt.frame_consumed);
}

#[test]
fn an_open_gate_lets_the_rules_pick_the_queue() {
    let mut b = PeripheralBank::new(BootMode::Cold);
    let clause = Clause { field: Field::EtherType, op: Op::Eq, shift: 0x30, anchor: 0, operand: 0x8809 };
    let action = Action {
        priority: 1,
        payload: ActionPayload::Selected { sel: 2, sub: 0, field: 7, wide: true },
    };
    let entry = Entry::Clause { clause, link: Link::Terminal(action) };
    let regs = entry.encode().to_regs();
    for (i, w) in regs.iter().enumerate() {
        b.lue.inst[1].write_data(i, *w);
    }
    b.lue.inst[1].write_cmd(CMD_GO | CMD_WRITE | (8 << 12));
    let mut bytes = vec![0u8; 60];
    bytes[12] = 0x88;
    bytes[13] = 0x09;
    for open in [false, true] {
        b.use_classifier = open;
        b.olt.downstream.push(LineFrame { bytes: bytes.clone(), words: vec![1], slot: 0x0F });
        b.tick(BANK_TICK_PRESCALER);
    }
    assert_eq!(b.olt.queued.iter().map(|q| q.slot).collect::<Vec<_>>(), vec![0x0F, 7]);
}

#[test]
fn summaries_and_traces_start_empty() {
    let b = PeripheralBank::new(BootMode::Cold);
    assert!(b.mmio_trace.is_none() && b.mmio_summaries.is_empty());
}

#[test]
fn accesses_of_unclaimed_registers_are_reported() {
    const RESIDUAL: u32 = 0x0100_1200;
    let mut b = PeripheralBank::new(BootMode::Cold);
    assert_eq!(b.peripheral_for(RESIDUAL), Some("sysreg"));
    assert_eq!(get_unhandled_mmio(&b.sysreg).count, 0);
    b.update_cpu_context(0x400, 0x500, 77);
    b.write_word(RESIDUAL, 0x1122_3344).unwrap();
    assert_eq!(b.read_word(RESIDUAL), Ok(0x1122_3344));
    b.write_byte(RESIDUAL + 3, 0x55).unwrap();
    assert_eq!(b.read_half(RESIDUAL + 6), Ok(0));
    b.write_word(PLAIN, 1).unwrap();
    b.reset_cold();
    let report = get_unhandled_mmio(&b.sysreg);
    assert_eq!(report.count, 2);
    let e = &report.entries[0];
    assert_eq!((e.address.0, e.reads, e.writes), (RESIDUAL, 1, 2));
    assert_eq!((e.last_read_value.0, e.last_write_value.0), (0x1122_3344, 0x1122_3355));
    assert_eq!((e.first_pc.0, e.first_insn), (0x400, 77));
    assert_eq!((report.entries[1].address.0, report.entries[1].reads), (RESIDUAL + 4, 1));
    let widths = |addr: u32| b.sysreg.trace.as_ref().unwrap()[&addr].access_widths;
    assert_eq!((widths(RESIDUAL), widths(RESIDUAL + 4)), (0b101, 0b010));
}

#[test]
fn the_alarm_trace_flag_survives() {
    let mut b = PeripheralBank::new(BootMode::Cold);
    b.alarm_events.trace = true;
    b.write_word(PLAIN, 1).unwrap();
    b.tick(BANK_TICK_PRESCALER);
    b.reset_warm();
    let saved = b.capture_for_snapshot();
    let mut copy = PeripheralBank::new(BootMode::Cold);
    copy.restore_from_snapshot(saved);
    assert!(b.alarm_events.trace && copy.alarm_events.trace);
}
