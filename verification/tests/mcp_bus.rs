use std::collections::HashMap;

use arc700::mcp::bus::{
    clear_mmio_history, detect_mmio_patterns, dump_mmio_trace, explain_mmio, get_event_timeline,
    get_mmio_history, get_unhandled_mmio, list_mmio_overrides, peek_mmio, read_mmio, reg_lookup,
    remove_mmio_override, set_mmio_history_size, set_mmio_override, write_mmio,
};
use arc700::mcp::handler::{
    ExplainMmioParams, GetEventTimelineParams, GetMmioHistoryParams, HexU32, PeekMmioParams,
    ReadMmioParams, RemoveMmioOverrideParams, SetMmioHistorySizeParams, SetMmioOverrideParams,
    WriteMmioParams,
};
use arc700::soc::bank::{BootMode, MmioTraceEntry, PeripheralBank};
use arc700::soc::default_store::DefaultRegisterStore;
use arc700::soc::mmio_blocks::lookup;
use arc700::soc::peripheral::AddressRange;
use arc700::soc::scenario::{OverrideSpec, OverrideTable};

const FATAL: u32 = 0x0100_3604;
const PLAIN: u32 = 0x0100_0020;

fn bank() -> PeripheralBank {
    PeripheralBank::new(BootMode::Cold)
}

fn write(bank: &mut PeripheralBank, address: u32, value: u32, width: Option<&str>) {
    let params = WriteMmioParams {
        address: HexU32(address),
        value: HexU32(value),
        width: width.map(|w| w.to_string()),
    };
    assert!(write_mmio(bank, &params).ok);
}

fn read(bank: &mut PeripheralBank, address: u32, width: Option<&str>) -> (u32, String) {
    let params =
        ReadMmioParams { address: HexU32(address), width: width.map(|w| w.to_string()) };
    let r = read_mmio(bank, &params);
    assert_eq!(r.address.0, address);
    (r.value.0, r.width)
}

fn peek(bank: &PeripheralBank, address: u32) -> u32 {
    peek_mmio(bank, &PeekMmioParams { address: HexU32(address) }).value.0
}

fn set(table: &mut OverrideTable, address: u32, value: u32, mode: &str, count: u32) -> bool {
    let params = SetMmioOverrideParams {
        address: HexU32(address),
        value: HexU32(value),
        mode: mode.to_string(),
        count,
        label: Some(format!("at {address}")),
    };
    set_mmio_override(table, params).ok
}

#[test]
fn registers_have_names() {
    let info = lookup(0x0100_0000).unwrap();
    assert_eq!((info.block_id, info.reg_name), (49, "HW_STATE_REG_N"));
    let (name, block) = reg_lookup(0x0100_0000);
    assert_eq!(name.as_deref(), Some("HW_STATE_REG_N"));
    assert_eq!(block.as_deref(), Some("HW State Monitoring Table"));
    assert_eq!(reg_lookup(0x0100_3800).0.as_deref(), Some("CHAN_ADDR_COUNT"));
    assert_eq!(reg_lookup(1), (None, None));
}

#[test]
fn registers_are_read_and_written_in_every_width() {
    let mut b = bank();
    write(&mut b, PLAIN, 0x1122_3344, None);
    assert_eq!(read(&mut b, PLAIN, None), (0x1122_3344, "word".to_string()));
    assert_eq!(read(&mut b, PLAIN + 1, Some("BYTE")), (0x22, "byte".to_string()));
    assert_eq!(read(&mut b, PLAIN + 2, Some("half")), (0x3344, "half".to_string()));
    assert_eq!(read(&mut b, PLAIN, Some("quad")), (0x1122_3344, "quad".to_string()));
    write(&mut b, PLAIN, 0xFFAB, Some("byte"));
    assert_eq!(peek(&b, PLAIN), 0xAB22_3344);
    write(&mut b, PLAIN + 2, 0x1_CDEF, Some("Half"));
    assert_eq!(peek(&b, PLAIN), 0xAB22_CDEF);
}

#[test]
fn nothing_answers_with_zero() {
    let mut b = bank();
    assert_eq!(read(&mut b, 0x0200_0000, None).0, 0);
    b.unmapped_exception = true;
    assert_eq!(read(&mut b, 0x0200_0000, None).0, 0);
    assert_eq!(read(&mut b, 0x0200_0000, Some("half")).0, 0);
    assert!(b.read_word(0x0200_0000).is_err());
}

#[test]
fn an_override_answers_before_its_register() {
    let mut b = bank();
    write(&mut b, PLAIN, 1, None);
    assert!(set(&mut b.scenario.overrides, PLAIN, 7, "static", 1));
    assert_eq!((peek(&b, PLAIN), read(&mut b, PLAIN, None).0), (7, 7));
    assert!(remove_mmio_override(
        &mut b.scenario.overrides,
        &RemoveMmioOverrideParams { address: HexU32(PLAIN) }
    )
    .ok);
    assert_eq!(peek(&b, PLAIN), 1);
    assert!(set(&mut b.scenario.overrides, PLAIN, 9, "oneshot", 2));
    assert_eq!(read(&mut b, PLAIN, None).0, 9);
    assert_eq!(read(&mut b, PLAIN, None).0, 9);
    assert_eq!(read(&mut b, PLAIN, None).0, 1);
    assert!(set(&mut b.scenario.overrides, PLAIN, 0xF0, "mask", 1));
    write(&mut b, PLAIN, 0xFF, None);
    assert_eq!(peek(&b, PLAIN), 0x0F);
}

#[test]
fn overrides_are_listed_by_address() {
    let mut table = OverrideTable::new();
    assert!(set(&mut table, 0x20, 1, "mask", 1));
    assert!(set(&mut table, 0x10, 2, "oneshot", 3));
    assert!(set(&mut table, 0x0100_0000, 4, "static", 1));
    assert!(!set(&mut table, 0x30, 1, "Static", 1));
    let r = list_mmio_overrides(&table);
    assert_eq!(r.count, 3);
    let got: Vec<(u32, &str, u32, Option<u32>)> = r
        .overrides
        .iter()
        .map(|e| (e.address.0, e.mode.as_str(), e.value.0, e.remaining))
        .collect();
    assert_eq!(
        got,
        vec![(0x10, "oneshot", 2, Some(3)), (0x20, "mask", 1, None), (0x0100_0000, "static", 4, None)]
    );
    assert_eq!(r.overrides[0].label.as_deref(), Some("at 16"));
    assert_eq!(r.overrides[2].name.as_deref(), Some("HW_STATE_REG_N"));
    assert!(!remove_mmio_override(&mut table, &RemoveMmioOverrideParams { address: HexU32(5) }).ok);
    table.set(0x20, OverrideSpec::StaticRead { value: 8 }, None);
    assert_eq!(list_mmio_overrides(&table).overrides[1].label, None);
}

#[test]
fn a_register_is_explained() {
    let mut b = bank();
    b.update_cpu_context(0x100, 0x200, 5);
    write(&mut b, FATAL, 0, None);
    let r = explain_mmio(&b, &ExplainMmioParams { address: HexU32(FATAL) });
    assert_eq!((r.address.0, r.value.0, r.has_override), (FATAL, 0, false));
    let last = r.last_access.unwrap();
    assert_eq!((last.pc.0, last.blink.0, last.insn), (0x100, 0x200, 5));
    assert_eq!((last.direction.as_str(), last.value.0), ("write", 0));
    assert!(r.peripheral.is_some());
    let r = explain_mmio(&b, &ExplainMmioParams { address: HexU32(0x0200_0000) });
    assert!(r.last_access.is_none() && r.peripheral.is_none() && r.access.is_none());
    let r = explain_mmio(&b, &ExplainMmioParams { address: HexU32(0x0100_0000) });
    assert_eq!(r.access.as_deref(), Some("R"));
    assert_eq!(r.description.as_deref(), Some("Registre d'etat HW poll periodiquement"));
}

fn ask(address: Option<u32>, last: Option<usize>, limit: Option<usize>) -> GetMmioHistoryParams {
    GetMmioHistoryParams {
        last,
        address: address.map(HexU32),
        from_insn: None,
        to_insn: None,
        limit,
    }
}

#[test]
fn the_history_is_filtered() {
    let mut b = bank();
    for i in 0..6u32 {
        b.update_cpu_context(i, 0, i as u64);
        write(&mut b, PLAIN + (i % 2) * 4, i, None);
    }
    let all = get_mmio_history(&b.log, &ask(None, None, None));
    assert_eq!((all.total_in_buffer, all.returned), (6, 6));
    assert_eq!((all.entries[5].value.0, all.entries[5].direction.as_str()), (5, "write"));
    assert_eq!(all.entries[5].width, "word");
    let one = get_mmio_history(&b.log, &ask(Some(PLAIN), None, None));
    assert_eq!(one.entries.iter().map(|e| e.value.0).collect::<Vec<_>>(), vec![0, 2, 4]);
    let tail = get_mmio_history(&b.log, &ask(None, Some(2), Some(1)));
    assert_eq!(tail.entries.iter().map(|e| e.value.0).collect::<Vec<_>>(), vec![4]);
    let mut window = ask(None, None, None);
    window.from_insn = Some(1);
    window.to_insn = Some(3);
    let some = get_mmio_history(&b.log, &window);
    assert_eq!(some.entries.iter().map(|e| e.insn).collect::<Vec<_>>(), vec![1, 2, 3]);
    assert!(set_mmio_history_size(&mut b.log, &SetMmioHistorySizeParams { size: 2 }).ok);
    let left = get_mmio_history(&b.log, &ask(None, None, None));
    assert_eq!(left.entries.iter().map(|e| e.value.0).collect::<Vec<_>>(), vec![4, 5]);
    write(&mut b, PLAIN, 9, None);
    assert_eq!(get_mmio_history(&b.log, &ask(None, None, None)).total_in_buffer, 2);
    assert!(clear_mmio_history(&mut b.log).ok);
    assert_eq!(get_mmio_history(&b.log, &ask(None, None, None)).total_in_buffer, 0);
}

#[test]
fn the_history_shows_patterns_and_a_timeline() {
    let mut b = bank();
    for i in 0..8u64 {
        b.update_cpu_context(0x100, 0, i);
        read(&mut b, PLAIN, None);
    }
    let r = detect_mmio_patterns(&b.log);
    assert_eq!(r.count, 1);
    assert_eq!((r.patterns[0].pattern_type.as_str(), r.patterns[0].count), ("busy_wait", 8));
    assert_eq!((r.patterns[0].address.0, r.patterns[0].last_insn), (PLAIN, 7));
    let t = get_event_timeline(&b.log, &GetEventTimelineParams { from_insn: Some(2), to_insn: None });
    assert_eq!(t.count, t.events.len());
    assert_eq!((t.events[0].from_insn, t.events[0].access_count), (2, 6));
}

#[test]
fn a_trace_is_shown_by_address_if_there_is_one() {
    let mut b = bank();
    assert!(!dump_mmio_trace(&b).enabled);
    let mut trace = HashMap::new();
    for address in [0x30u32, 0x10, 0x20] {
        trace.insert(
            address,
            MmioTraceEntry {
                peripheral: "uart",
                reads: 1,
                writes: 2,
                last_read_value: 3,
                last_write_value: 4,
                first_pc: 5,
                first_insn: 6,
                access_widths: 7,
            },
        );
    }
    b.mmio_trace = Some(trace);
    let r = dump_mmio_trace(&b);
    assert!(r.enabled);
    assert_eq!(r.entries.iter().map(|e| e.address.0).collect::<Vec<_>>(), vec![0x10, 0x20, 0x30]);
    let e = &r.entries[0];
    assert_eq!((e.peripheral.as_str(), e.reads, e.writes, e.access_widths), ("uart", 1, 2, 7));
    assert_eq!((e.last_read_value.0, e.last_write_value.0), (3, 4));
    assert_eq!((e.first_pc.0, e.first_insn), (5, 6));
}

#[test]
fn accesses_nobody_claims_are_listed() {
    let mut store = DefaultRegisterStore::new(AddressRange::new(0x1000, 0x1100));
    assert_eq!(get_unhandled_mmio(&store).count, 0);
    store.trace = Some(HashMap::new());
    store.write_word(0x1010, 5).unwrap();
    store.read_word(0x1010).unwrap();
    store.read_word(0x1004).unwrap();
    let r = get_unhandled_mmio(&store);
    assert_eq!(r.count, 2);
    assert_eq!((r.entries[0].address.0, r.entries[0].reads), (0x1004, 1));
    let e = &r.entries[1];
    assert_eq!((e.address.0, e.reads, e.writes), (0x1010, 1, 1));
    assert_eq!((e.last_read_value.0, e.last_write_value.0), (5, 5));
}
