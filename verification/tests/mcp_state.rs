use arc700::mcp::handler::{
    AddCommentParams, AddSymbolParams, EventParams, HexU32, InjectPeripheralEventParams,
    OltConfigParams, OltFrameLogParams, ReadFlashParams, ReadRegistersParams, WriteFlashParams,
};
use arc700::mcp::events::{
    build_peripheral_event, event_params_of, inject_peripheral_event, mmio_watch_mode_name,
    mmio_watch_mode_of, read_event_params, MmioWatchMode,
};
use arc700::mcp::json::{find_member, node_bool, node_number, node_text, JsonNode};
use arc700::mcp::link::{
    olt_frame_log, olt_get_config, olt_get_state, olt_set_config, OltConfig, OltFrame, OltSnapshot,
};
use arc700::mcp::registers::{
    get_cpu_state, get_firmware_info, list_breakpoints, read_flags, read_registers, reg_by_name,
    AuxRegs, CpuSnapshot, FirmwareInfo, Flags,
};
use arc700::mcp::storage::{get_uart_buffer, read_flash, uart_buffer_result, write_flash};
use arc700::peripherals::spi_flash::SpiFlash;
use arc700::mcp::symbols::{address_of_node, unreadable_symbols, Annotations};
use arc700::soc::bank::{BootMode, PeripheralBank};
use arc700::soc::peripheral::{AlarmEvent, FatalFilterEvent, PeripheralEvent, SerDesEvent};
use arc700::soc::uart::{Uart, UART_DATA, UART_RANGE_START, UART_REG_OFFSET};

fn cpu() -> CpuSnapshot {
    let mut core_regs = [0u32; 64];
    for (i, r) in core_regs.iter_mut().enumerate() {
        *r = 0x1000 + i as u32;
    }
    CpuSnapshot {
        pc: 0x40,
        core_regs,
        flags: Flags {
            z: true,
            n: false,
            c: true,
            v: false,
            e1: true,
            e2: false,
            u: false,
            h: true,
            l: false,
            de: true,
            status32: 0x8000_0001,
        },
        aux: AuxRegs { ienable: 0xE, ipending: 0xF, identity: 0x32 },
        halted: false,
        sleeping: true,
        paused: true,
        instruction_count: 77,
    }
}

#[test]
fn registers_go_by_many_names() {
    let c = cpu();
    assert_eq!(reg_by_name(&c, "PC"), Some(0x40));
    assert_eq!(reg_by_name(&c, "r63"), Some(0x103F));
    assert_eq!(reg_by_name(&c, "R0"), Some(0x1000));
    assert_eq!(reg_by_name(&c, "r64"), None);
    assert_eq!(reg_by_name(&c, "r"), None);
    assert_eq!(reg_by_name(&c, "r-1"), None);
    assert_eq!(reg_by_name(&c, "sp"), Some(0x101C));
    assert_eq!(reg_by_name(&c, "fp"), Some(0x101B));
    assert_eq!(reg_by_name(&c, "gp"), Some(0x101A));
    assert_eq!(reg_by_name(&c, "blink"), Some(0x101F));
    assert_eq!(reg_by_name(&c, "lpcount"), Some(0x103C));
    assert_eq!(reg_by_name(&c, "lp_count"), Some(0x103C));
    assert_eq!(reg_by_name(&c, "ilink1"), Some(0x101D));
    assert_eq!(reg_by_name(&c, "ilink2"), Some(0x101E));
    assert_eq!(reg_by_name(&c, "status32"), Some(0x8000_0001));
    assert_eq!(reg_by_name(&c, "ienable"), Some(0xE));
    assert_eq!(reg_by_name(&c, "ipending"), Some(0xF));
    assert_eq!(reg_by_name(&c, "identity"), Some(0x32));
    assert_eq!(reg_by_name(&c, "x1"), None);
}

#[test]
fn named_registers_come_once_and_unknown_ones_not_at_all() {
    let names = vec!["pc".to_string(), "nope".to_string(), "r1".to_string(), "pc".to_string()];
    let r = read_registers(&cpu(), &ReadRegistersParams { names: Some(names) });
    let got: Vec<(&str, u32)> = r.values.iter().map(|(n, v)| (n.as_str(), v.0)).collect();
    assert_eq!(got, vec![("pc", 0x40), ("r1", 0x1001)]);
}

#[test]
fn the_usual_registers_are_shown_unasked() {
    let r = read_registers(&cpu(), &ReadRegistersParams { names: None });
    assert_eq!(r.values.len(), 41);
    assert_eq!((r.values[31].0.as_str(), r.values[31].1 .0), ("r31", 0x101F));
    assert_eq!((r.values[40].0.as_str(), r.values[40].1 .0), ("ipending", 0xF));
}

#[test]
fn flags_and_state_are_copied() {
    let c = cpu();
    let f = read_flags(&c);
    assert!(f.z && !f.n && f.c && !f.v && f.e1 && !f.e2 && !f.u && f.h && !f.l && f.de);
    assert_eq!(f.status32.0, 0x8000_0001);
    let s = get_cpu_state(&c, "Paused", "UserPause");
    assert_eq!((s.pc.0, s.instruction_count), (0x40, 77));
    assert!(!s.halted && s.sleeping && s.paused);
    assert_eq!((s.run_state.as_str(), s.pause_reason.as_str()), ("Paused", "UserPause"));
    let b = list_breakpoints(&vec![4, 8]);
    assert_eq!(b.breakpoints.iter().map(|h| h.0).collect::<Vec<_>>(), vec![4, 8]);
}

#[test]
fn firmware_is_described_or_missing() {
    assert!(!get_firmware_info(&None).loaded);
    let info = FirmwareInfo {
        path: "a.bin".to_string(),
        boot_mode: BootMode::Cold,
        entry_point: 0x80,
        flash_size: 64,
        flash_loaded: true,
    };
    let r = get_firmware_info(&Some(info));
    assert!(r.loaded);
    assert_eq!(r.path.as_deref(), Some("a.bin"));
    assert_eq!(r.boot_mode.as_deref(), Some("Cold"));
    assert_eq!(r.entry_point.map(|h| h.0), Some(0x80));
    assert_eq!((r.flash_size, r.flash_loaded), (Some(64), Some(true)));
}

#[test]
fn flash_is_read_and_written_up_to_its_end() {
    let mut flash = SpiFlash { data: vec![0xFFu8; 8], status: 0, dirty: false };
    let w = write_flash(&mut flash, &WriteFlashParams { offset: HexU32(9), hex: "01".into() });
    assert_eq!((w.bytes_written, flash.dirty), (0, false));
    let w = write_flash(&mut flash, &WriteFlashParams { offset: HexU32(6), hex: "0102 03".into() });
    assert_eq!((w.bytes_written, w.offset.0, flash.dirty), (2, 6, true));
    assert_eq!(flash.data, vec![0xFF, 0xFF, 0xFF, 0xFF, 0xFF, 0xFF, 1, 2]);
    let r = read_flash(&flash.data, &ReadFlashParams { offset: HexU32(5), length: HexU32(100) });
    assert_eq!((r.offset.0, r.length, r.hex.as_str()), (5, 3, "FF0102"));
    let r = read_flash(&flash.data, &ReadFlashParams { offset: HexU32(8), length: HexU32(1) });
    assert_eq!((r.length, r.hex.as_str()), (0, ""));
    let w = write_flash(&mut flash, &WriteFlashParams { offset: HexU32(0), hex: "0".into() });
    assert_eq!((w.bytes_written, flash.data[0]), (0, 0xFF));
}

#[test]
fn printed_bytes_are_shown_as_text_and_hexadecimal() {
    let mut uart = Uart::new();
    let data = UART_RANGE_START + UART_REG_OFFSET + UART_DATA;
    for b in [b'h', b'i', 0xFF] {
        uart.write_word(data, b as u32).unwrap();
    }
    let r = get_uart_buffer(&uart);
    assert_eq!(r.bytes_len, 3);
    assert_eq!(r.hex, "6869FF");
    assert_eq!(r.ascii, "hi\u{fffd}");
    let r = uart_buffer_result(&vec![0x41], "A".to_string());
    assert_eq!((r.bytes_len, r.ascii.as_str(), r.hex.as_str()), (1, "A", "41"));
}

#[test]
fn symbols_load_from_an_object() {
    let mut notes = Annotations::new();
    let r = notes.load_symbols("{\"0x10\": \"main\", \"32\": \"idle\", \"no\": \"x\", \"4\": 5}");
    assert!(r.ok && r.error.is_none());
    assert_eq!(r.loaded, 2);
    let shown = notes.list_symbols().symbols;
    assert_eq!(
        shown,
        vec![
            ("0x00000010".to_string(), "main".to_string()),
            ("0x00000020".to_string(), "idle".to_string()),
        ]
    );
}

#[test]
fn symbols_load_from_a_list() {
    let mut notes = Annotations::new();
    let r = notes.load_symbols(
        "[{\"address\": \"0x10\", \"name\": \"a\"}, {\"address\": 4294967328, \"name\": \"b\"}, \
         {\"address\": \"zz\", \"name\": \"c\"}, {\"name\": \"d\"}, {\"address\": 1}, 7, \
         {\"address\": 16, \"name\": \"last\"}]",
    );
    assert!(r.ok);
    assert_eq!(r.loaded, 3);
    assert_eq!(notes.symbols.get(&0x10).map(|s| s.as_str()), Some("last"));
    assert_eq!(notes.symbols.get(&0x20).map(|s| s.as_str()), Some("b"));
    assert_eq!(notes.symbols.len(), 2);
}

#[test]
fn a_document_that_holds_no_symbols_loads_none() {
    let mut notes = Annotations::new();
    let r = notes.load_symbols("null");
    assert!(r.ok);
    assert_eq!(r.loaded, 0);
    let r = notes.load_symbols("{");
    assert!(!r.ok);
    assert_eq!(r.loaded, 0);
    assert!(r.error.unwrap().starts_with("parse: EOF while parsing"));
    let r = notes.load_document(Err("bad".to_string()));
    assert_eq!(r.error.as_deref(), Some("parse: bad"));
    let r = unreadable_symbols("s.json", "gone");
    assert_eq!(r.error.as_deref(), Some("read s.json: gone"));
    assert!(notes.symbols.is_empty());
}

#[test]
fn symbols_and_comments_are_kept_apart() {
    let mut notes = Annotations::new();
    assert!(notes.add_symbol(AddSymbolParams { address: HexU32(1), name: "s".into() }).ok);
    assert!(notes.add_comment(AddCommentParams { address: HexU32(1), comment: "c".into() }).ok);
    assert_eq!(notes.symbols.get(&1).map(|s| s.as_str()), Some("s"));
    assert_eq!(notes.comments.get(&1).map(|s| s.as_str()), Some("c"));
}

#[test]
fn values_of_json_are_told_apart() {
    let members = vec![("a".to_string(), "1".to_string()), ("b".to_string(), "2".to_string())];
    assert_eq!(find_member(&members, "b"), Some("2".to_string()));
    assert_eq!(find_member(&members, "c"), None);
    assert_eq!(node_number(&Ok(JsonNode::Number(Some(3)))), Some(3));
    assert_eq!(node_number(&Ok(JsonNode::Null)), None);
    assert_eq!(node_bool(&Ok(JsonNode::Bool(true))), Some(true));
    assert_eq!(node_bool(&Err("e".to_string())), None);
    assert_eq!(node_text(&Ok(JsonNode::Text("t".to_string()))), Some("t".to_string()));
    assert_eq!(node_text(&Ok(JsonNode::List(vec![]))), None);
    assert_eq!(address_of_node(&Ok(JsonNode::Number(Some(0x1_0000_0001)))), Some(1));
    assert_eq!(address_of_node(&Ok(JsonNode::Text("0xA".to_string()))), Some(10));
    assert_eq!(address_of_node(&Ok(JsonNode::Bool(true))), None);
}

fn request(peripheral: &str, event: &str, json: &str) -> InjectPeripheralEventParams {
    InjectPeripheralEventParams {
        peripheral: peripheral.to_string(),
        event: event.to_string(),
        params: read_event_params(json),
    }
}

#[test]
fn events_are_built_from_their_requests() {
    let e = build_peripheral_event(&request("alarm", "ForcePending", "{\"opcode\": 65564}"));
    assert!(matches!(e, Some(PeripheralEvent::Alarm(AlarmEvent::ForcePending(28)))));
    let e = build_peripheral_event(&request("alarm", "ClearPending", "{\"opcode\": 28}"));
    assert!(matches!(e, Some(PeripheralEvent::Alarm(AlarmEvent::ClearPending(28)))));
    let e = build_peripheral_event(&request("alarm", "ClearAll", ""));
    assert!(matches!(e, Some(PeripheralEvent::Alarm(AlarmEvent::ClearAll))));
    let e = build_peripheral_event(&request("alarm", "ForcePending", "{}"));
    assert!(e.is_none());
    let e = build_peripheral_event(&request("serdes", "InjectRxLos", "{\"lane\":3,\"state\":true}"));
    assert!(matches!(e, Some(PeripheralEvent::SerDes(SerDesEvent::InjectRxLos(3, true)))));
    let e = build_peripheral_event(&request("serdes", "InjectRxLos", "{\"lane\":3}"));
    assert!(e.is_none());
    let e = build_peripheral_event(&request("uart", "ClearTxLog", "null"));
    assert!(matches!(e, Some(PeripheralEvent::Uart(_))));
    let e = build_peripheral_event(&request("fatal_filter", "InjectFatal", "{\"mask\":66}"));
    assert!(matches!(
        e,
        Some(PeripheralEvent::FatalFilter(FatalFilterEvent::InjectFatal(0x42)))
    ));
    let e = build_peripheral_event(&request("fatal_filter", "ClearFatal", "[]"));
    assert!(matches!(e, Some(PeripheralEvent::FatalFilter(FatalFilterEvent::ClearFatal))));
    assert!(build_peripheral_event(&request("uart", "Reboot", "{}")).is_none());
}

#[test]
fn event_parameters_of_another_kind_are_missing() {
    let p = read_event_params("{\"opcode\": \"28\", \"lane\": -1, \"state\": 1, \"mask\": 1.5}");
    assert_eq!(p, EventParams { opcode: None, lane: None, state: None, mask: None });
    let p = event_params_of(Ok(JsonNode::Object(vec![("mask".to_string(), "7".to_string())])));
    assert_eq!(p.mask, Some(7));
    assert_eq!(event_params_of(Err(String::new())).mask, None);
}

#[test]
fn an_injected_event_reaches_the_bank() {
    let mut bank = PeripheralBank::new(BootMode::Cold);
    assert!(inject_peripheral_event(
        &mut bank,
        &request("fatal_filter", "InjectFatal", "{\"mask\": 5}")
    )
    .ok);
    assert_eq!(bank.read_word(0x0100_3604).unwrap(), 5);
    assert!(!inject_peripheral_event(&mut bank, &request("toaster", "Pop", "{}")).ok);
}

#[test]
fn watch_modes_read_back() {
    for mode in [MmioWatchMode::Read, MmioWatchMode::Write, MmioWatchMode::ReadWrite] {
        assert_eq!(mmio_watch_mode_of(mmio_watch_mode_name(mode)), Some(mode));
    }
    assert_eq!(mmio_watch_mode_of("r"), Some(MmioWatchMode::Read));
    assert_eq!(mmio_watch_mode_of("w"), Some(MmioWatchMode::Write));
    assert_eq!(mmio_watch_mode_of("readwrite"), Some(MmioWatchMode::ReadWrite));
    assert_eq!(mmio_watch_mode_of("READ"), None);
}

#[test]
fn the_far_end_changes_only_what_is_named() {
    let mut cfg = OltConfig {
        mac: [1, 2, 3, 4, 5, 6],
        llid_start: 1,
        oam_interval_ticks: 10,
        gate_interval_ticks: 20,
    };
    let r = olt_set_config(
        &mut cfg,
        &OltConfigParams {
            mac: Some("bad".into()),
            llid_start: Some(9),
            oam_interval_ticks: None,
            gate_interval_ticks: None,
        },
    );
    assert_eq!(r.mac, "01:02:03:04:05:06");
    assert_eq!((cfg.llid_start, cfg.oam_interval_ticks, cfg.gate_interval_ticks), (9, 10, 20));
    olt_set_config(
        &mut cfg,
        &OltConfigParams {
            mac: Some("0a:0b:0c:0d:0e:0f".into()),
            llid_start: None,
            oam_interval_ticks: Some(11),
            gate_interval_ticks: Some(21),
        },
    );
    let r = olt_get_config(&cfg);
    assert_eq!(r.mac, "0A:0B:0C:0D:0E:0F");
    assert_eq!((r.llid_start, r.oam_interval_ticks, r.gate_interval_ticks), (9, 11, 21));
}

#[test]
fn a_missing_far_end_is_shown_as_down() {
    let r = olt_get_state(None);
    assert!(!r.enabled);
    assert_eq!(r.mpcp_state, "unknown");
    assert_eq!((r.olt_mac.as_str(), r.onu_mac.as_str()), ("00:00:00:00:00:00", "00:00:00:00:00:00"));
    let snap = OltSnapshot {
        enabled: true,
        mpcp_state: "Registered".into(),
        olt_mac: "a".into(),
        onu_mac: "b".into(),
        assigned_llid: 3,
        mpcp_timestamp: 4,
        tx_frame_count: 5,
        rx_frame_count: 6,
        oam_keepalive_count: 7,
        gate_count: 8,
    };
    let r = olt_get_state(Some(&snap));
    assert!(r.enabled);
    assert_eq!((r.assigned_llid, r.mpcp_timestamp.0, r.tx_frame_count), (3, 4, 5));
    assert_eq!((r.rx_frame_count, r.oam_keepalive_count, r.gate_count), (6, 7, 8));
}

#[test]
fn the_newest_frames_are_shown() {
    let log: Vec<OltFrame> = (0..60)
        .map(|i| OltFrame { tick: i, description: format!("f{i}"), data: vec![i as u8, 0xFF] })
        .collect();
    let r = olt_frame_log(&log, &OltFrameLogParams { last: None });
    assert_eq!((r.total, r.entries.len(), r.entries[0].tick), (60, 50, 10));
    let r = olt_frame_log(&log, &OltFrameLogParams { last: Some(1) });
    assert_eq!((r.entries[0].hex.as_str(), r.entries[0].length), ("3BFF", 2));
    assert_eq!(r.entries[0].description, "f59");
    assert_eq!(olt_frame_log(&log, &OltFrameLogParams { last: Some(100) }).entries.len(), 60);
}
