use arc700::mcp::commands::{
    cpu_reset, cpu_run, cpu_run_to, cpu_step, delete_snapshot, diff_snapshots,
    list_mmio_watchpoints, list_scheduled_events, load_firmware, remove_breakpoint,
    remove_watchpoint, restore_snapshot, save_snapshot, set_breakpoint, set_profiling,
    set_watchpoint, write_memory, write_register, Command, EventInfo, WatchInfo,
};
use arc700::mcp::events::MmioWatchMode;
use arc700::mcp::handler::{
    CpuResetParams, CpuRunParams, CpuRunToParams, CpuStepParams, DeleteSnapshotParams,
    DiffSnapshotsParams, FunctionProfileParams, GetCoverageParams, HexU32, LoadFirmwareParams,
    ReadMemoryParams, RemoveBreakpointParams, RemoveWatchpointParams, RestoreSnapshotParams,
    SaveSnapshotParams, SetBreakpointParams, SetProfilingParams, SetWatchpointParams,
    WriteMemoryParams, WriteRegisterParams,
};
use arc700::mcp::worker::{
    call_stack_result, coverage_result, delete_snapshot_result, diff_snapshots_result,
    function_profile_result, list_snapshots_result, load_firmware_response, read_memory_result,
    restore_snapshot_result, save_snapshot_result, LoadFirmwareResult, RegisterChange, Reply,
    SnapshotDiff, SnapshotInfo,
};
use arc700::memory::watch::WatchMode;
use arc700::soc::bank::BootMode;

fn firmware(boot_mode: Option<&str>, entry: Option<u32>) -> LoadFirmwareParams {
    LoadFirmwareParams {
        path: "fw.bin".to_string(),
        boot_mode: boot_mode.map(|s| s.to_string()),
        entry_point: entry.map(HexU32),
        keep_breakpoints: true,
    }
}

#[test]
fn firmware_is_asked_for_with_its_defaults() {
    match load_firmware(firmware(None, None)) {
        Command::LoadFirmware { path, boot_mode, entry_point, keep_breakpoints } => {
            assert_eq!(path, "fw.bin");
            assert_eq!(boot_mode, BootMode::Warm);
            assert_eq!(entry_point, 0);
            assert!(keep_breakpoints);
        }
        other => panic!("{other:?}"),
    }
    assert!(matches!(
        load_firmware(firmware(Some("COLD"), Some(0x80))),
        Command::LoadFirmware { boot_mode: BootMode::Cold, entry_point: 0x80, .. }
    ));
    assert!(matches!(
        load_firmware(firmware(Some("freezing"), None)),
        Command::LoadFirmware { boot_mode: BootMode::Warm, .. }
    ));
}

#[test]
fn each_answer_of_the_worker_is_told() {
    let done = LoadFirmwareResult { loaded_bytes: 10, entry_point: 4, flash_bytes: 20 };
    let r = load_firmware_response(9, Reply::Done(done));
    assert!(r.ok && r.error.is_none());
    assert_eq!((r.loaded_bytes, r.entry_point.0, r.flash_bytes), (10, 4, 20));
    let r = load_firmware_response(9, Reply::Refused("no".into()));
    assert!(!r.ok);
    assert_eq!((r.loaded_bytes, r.entry_point.0, r.flash_bytes), (0, 9, 0));
    assert_eq!(r.error.as_deref(), Some("no"));
    let r = load_firmware_response(9, Reply::Timeout);
    assert_eq!(r.error.as_deref(), Some("timeout waiting for worker"));
    let r = load_firmware_response(9, Reply::Closed);
    assert_eq!(r.error.as_deref(), Some("cpu_cmd channel closed"));
}

fn info() -> SnapshotInfo {
    SnapshotInfo {
        name: "s".into(),
        instruction_count: 5,
        pc: 6,
        timestamp: "t".into(),
        size_bytes: 7,
    }
}

#[test]
fn snapshots_are_answered_for() {
    let r = save_snapshot_result("n".into(), Reply::Done(info()));
    assert!(r.ok);
    assert_eq!((r.name.as_str(), r.instruction_count, r.pc.0, r.size_bytes), ("s", 5, 6, 7));
    assert_eq!(r.timestamp, "t");
    let r = save_snapshot_result("n".into(), Reply::Timeout);
    assert!(!r.ok);
    assert_eq!((r.name.as_str(), r.error.as_deref()), ("n", Some("timeout")));
    let r = restore_snapshot_result("n".into(), Reply::Done(info()));
    assert!(r.ok && r.error.is_none());
    let r = restore_snapshot_result("n".into(), Reply::Refused("unknown".into()));
    assert_eq!((r.name.as_str(), r.error.as_deref()), ("n", Some("unknown")));
    let r = list_snapshots_result(Reply::Done(vec![info(), info()]));
    assert_eq!((r.count, r.snapshots.len(), r.snapshots[1].pc.0), (2, 2, 6));
    assert_eq!(list_snapshots_result(Reply::Closed).count, 0);
    assert!(delete_snapshot_result("n".into(), Reply::Done(true)).ok);
    assert!(!delete_snapshot_result("n".into(), Reply::Done(false)).ok);
    assert!(!delete_snapshot_result("n".into(), Reply::Timeout).ok);
}

#[test]
fn differences_are_listed() {
    let diff = SnapshotDiff {
        register_diffs: vec![RegisterChange { name: "r1".into(), a: 1, b: 2 }],
        pc_a: 3,
        pc_b: 4,
        insn_a: 5,
        insn_b: 6,
        sram_changed_bytes: 7,
    };
    let r = diff_snapshots_result(Reply::Done(diff));
    assert!(r.ok);
    assert_eq!((r.register_diffs[0].a.0, r.register_diffs[0].b.0), (1, 2));
    assert_eq!((r.pc_a.0, r.pc_b.0, r.insn_a, r.insn_b, r.sram_changed_bytes), (3, 4, 5, 6, 7));
    let r = diff_snapshots_result(Reply::Closed);
    assert!(!r.ok && r.register_diffs.is_empty());
    assert_eq!(r.error.as_deref(), Some("cpu_cmd channel closed"));
}

#[test]
fn coverage_is_cut_to_a_half_open_range() {
    let sparse = vec![(0u32, 1u32), (4, 2), (8, 3), (u32::MAX, 4)];
    let all = coverage_result(&sparse, &GetCoverageParams { range_start: None, range_end: None });
    assert_eq!(all.total_pcs, 3);
    let some = coverage_result(
        &sparse,
        &GetCoverageParams { range_start: Some(HexU32(4)), range_end: Some(HexU32(8)) },
    );
    assert_eq!(some.entries.iter().map(|e| (e.address.0, e.hits)).collect::<Vec<_>>(), vec![(4, 2)]);
}

#[test]
fn stacks_and_profiles_are_shown() {
    let r = call_stack_result(&vec![1, 2]);
    assert_eq!((r.depth, r.frames[1].0), (2, 2));
    let profile: Vec<(u32, u64)> = (0..30).map(|i| (i, i as u64)).collect();
    let r = function_profile_result(Some(&profile), &FunctionProfileParams { top: None });
    assert!(r.enabled);
    assert_eq!((r.entries.len(), r.entries[19].instructions), (20, 19));
    let r = function_profile_result(Some(&profile), &FunctionProfileParams { top: Some(50) });
    assert_eq!(r.entries.len(), 30);
    let r = function_profile_result(None, &FunctionProfileParams { top: None });
    assert!(!r.enabled && r.entries.is_empty());
}

#[test]
fn memory_is_dumped_as_far_as_it_goes() {
    let image = [b'A', b' ', 0x00, 0x7F, b'~'];
    let r = read_memory_result(
        Some(&image),
        &ReadMemoryParams { address: HexU32(1), length: HexU32(9) },
    );
    assert_eq!((r.address.0, r.length), (1, 4));
    assert_eq!((r.hex.as_str(), r.ascii.as_str()), ("20007F7E", " ..~"));
    let r = read_memory_result(
        Some(&image),
        &ReadMemoryParams { address: HexU32(5), length: HexU32(1) },
    );
    assert_eq!((r.length, r.hex.as_str()), (0, ""));
    let r = read_memory_result(None, &ReadMemoryParams { address: HexU32(1), length: HexU32(9) });
    assert_eq!((r.length, r.ascii.as_str()), (0, ""));
}

#[test]
fn commands_carry_what_was_asked() {
    assert!(matches!(cpu_run(&CpuRunParams { max_insns: Some(3) }), Command::Run { max_insns: Some(3) }));
    assert!(matches!(cpu_step(&CpuStepParams { count: None }), Command::StepN(1)));
    assert!(matches!(cpu_step(&CpuStepParams { count: Some(9) }), Command::StepN(9)));
    assert!(matches!(
        cpu_run_to(&CpuRunToParams { address: HexU32(8) }),
        Command::RunTo { address: 8 }
    ));
    assert!(matches!(
        cpu_reset(&CpuResetParams { boot_mode: Some("Cold".into()), keep_breakpoints: false }),
        Command::Reset { boot_mode: BootMode::Cold, keep_breakpoints: false }
    ));
    assert!(matches!(
        set_breakpoint(&SetBreakpointParams { address: HexU32(8) }),
        Command::SetBreakpoint { address: 8 }
    ));
    assert!(matches!(
        remove_breakpoint(&RemoveBreakpointParams { address: HexU32(8) }),
        Command::RemoveBreakpoint { address: 8 }
    ));
    assert!(matches!(
        remove_watchpoint(&RemoveWatchpointParams { index: 2 }),
        Command::RemoveWatchpoint { index: 2 }
    ));
    assert!(matches!(
        set_profiling(&SetProfilingParams { enabled: true }),
        Command::SetProfiling { enabled: true }
    ));
    match write_register(WriteRegisterParams { name: "r1".into(), value: HexU32(4) }) {
        Command::WriteRegister { name, value } => assert_eq!((name.as_str(), value), ("r1", 4)),
        other => panic!("{other:?}"),
    }
    match diff_snapshots(&DiffSnapshotsParams { a: "x".into(), b: "y".into() }) {
        Command::DiffSnapshots { a, b } => assert_eq!((a.as_str(), b.as_str()), ("x", "y")),
        other => panic!("{other:?}"),
    }
    match save_snapshot(&SaveSnapshotParams { name: "x".into() }) {
        Command::SaveSnapshot { name } => assert_eq!(name, "x"),
        other => panic!("{other:?}"),
    }
    match restore_snapshot(&RestoreSnapshotParams { name: "x".into() }) {
        Command::RestoreSnapshot { name } => assert_eq!(name, "x"),
        other => panic!("{other:?}"),
    }
    match delete_snapshot(&DeleteSnapshotParams { name: "x".into() }) {
        Command::DeleteSnapshot { name } => assert_eq!(name, "x"),
        other => panic!("{other:?}"),
    }
}

#[test]
fn memory_writes_need_hexadecimal() {
    match write_memory(&WriteMemoryParams { address: HexU32(4), hex: "0a0B".into() }) {
        Some(Command::WriteSram { addr, bytes }) => assert_eq!((addr, bytes), (4, vec![10, 11])),
        other => panic!("{other:?}"),
    }
    assert!(write_memory(&WriteMemoryParams { address: HexU32(4), hex: "0".into() }).is_none());
}

#[test]
fn watchpoints_look_at_what_they_are_told_to() {
    for (text, mode) in [
        ("READ", WatchMode::Read),
        ("Write", WatchMode::Write),
        ("rw", WatchMode::ReadWrite),
        ("", WatchMode::ReadWrite),
    ] {
        let p = SetWatchpointParams { address: HexU32(1), size: HexU32(2), mode: text.into() };
        match set_watchpoint(&p) {
            Command::SetWatchpoint { addr, size, mode: got } => {
                assert_eq!((addr, size), (1, 2));
                assert_eq!(got, mode);
            }
            other => panic!("{other:?}"),
        }
    }
}

#[test]
fn watchpoints_and_events_are_listed() {
    let w = WatchInfo {
        id: 4,
        address: 0x0100_0000,
        size: 4,
        mode: MmioWatchMode::ReadWrite,
        action: "Pause".into(),
        label: None,
    };
    let r = list_mmio_watchpoints(&vec![w]);
    assert_eq!((r.count, r.watchpoints[0].id, r.watchpoints[0].mode.as_str()), (1, 4, "rw"));
    assert_eq!(r.watchpoints[0].action, "Pause");
    let e = EventInfo {
        id: 1,
        trigger: "t".into(),
        effect: "e".into(),
        label: Some("l".into()),
        fired: true,
    };
    let r = list_scheduled_events(&vec![e]);
    assert_eq!((r.count, r.events[0].id, r.events[0].fired), (1, 1, true));
    assert_eq!((r.events[0].trigger.as_str(), r.events[0].effect.as_str()), ("t", "e"));
}
