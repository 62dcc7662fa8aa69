//! What a front end sends to the processor's worker for each of its tools.

use vstd::prelude::*;

use crate::mcp::events::{mmio_watch_mode_name, MmioWatchMode};
use crate::mcp::bus::reg_lookup;
use crate::mcp::handler::{
    CpuResetParams, CpuRunParams, CpuRunToParams, CpuStepParams, DeleteSnapshotParams,
    DiffSnapshotsParams, HexValue, ListMmioWatchpointsResult, ListScheduledEventsResult,
    LoadFirmwareParams, MmioWatchpointEntry, RemoveBreakpointParams, RemoveWatchpointParams,
    RestoreSnapshotParams, SaveSnapshotParams, ScheduledEventEntry, SetBreakpointParams,
    SetProfilingParams, SetWatchpointParams, WriteMemoryParams, WriteRegisterParams,
};
use crate::mcp::hex::decode_hex;
use crate::mcp::worker::{boot_mode_of, entry_point_of, step_count_of, watch_mode_of};
use crate::memory::watch::WatchMode;
use crate::soc::bank::BootMode;
use crate::text::copy_opt;

verus! {

/// A request to the worker.
#[derive(Debug)]
pub enum Command {
    Run { max_insns: Option<u64> },
    Pause,
    StepN(u32),
    StepOver,
    RunTo { address: u32 },
    Reset { boot_mode: BootMode, keep_breakpoints: bool },
    LoadFirmware { path: String, boot_mode: BootMode, entry_point: u32, keep_breakpoints: bool },
    SetBreakpoint { address: u32 },
    RemoveBreakpoint { address: u32 },
    SetWatchpoint { addr: u32, size: u32, mode: WatchMode },
    RemoveWatchpoint { index: usize },
    WriteRegister { name: String, value: u32 },
    WriteSram { addr: u32, bytes: Vec<u8> },
    RequestSram,
    RequestCoverage,
    ClearCoverage,
    RequestCallStack,
    RequestFunctionProfile,
    SetProfiling { enabled: bool },
    DiffSnapshots { a: String, b: String },
    SaveSnapshot { name: String },
    RestoreSnapshot { name: String },
    ListSnapshots,
    DeleteSnapshot { name: String },
}

/// Run, up to so many instructions.
pub fn cpu_run(params: &CpuRunParams) -> (r: Command)
    ensures
        r == (Command::Run { max_insns: params.max_insns }),
{
    Command::Run { max_insns: params.max_insns }
}

/// Run so many instructions; one where a request does not say.
pub fn cpu_step(params: &CpuStepParams) -> (r: Command)
    ensures
        r == Command::StepN(
            match params.count {
                Some(n) => n,
                None => 1,
            },
        ),
{
    Command::StepN(step_count_of(params.count))
}

/// Run up to an address.
pub fn cpu_run_to(params: &CpuRunToParams) -> (r: Command)
    ensures
        r == (Command::RunTo { address: params.address.0 }),
{
    Command::RunTo { address: params.address.0 }
}

/// Start over.
pub fn cpu_reset(params: &CpuResetParams) -> (r: Command)
    ensures
        r == (Command::Reset {
            boot_mode: crate::mcp::worker::asked_boot_mode(
                crate::text::opt_text(params.boot_mode),
            ),
            keep_breakpoints: params.keep_breakpoints,
        }),
{
    Command::Reset {
        boot_mode: boot_mode_of(&params.boot_mode),
        keep_breakpoints: params.keep_breakpoints,
    }
}

/// Load an image and start at its entry point, which is the bottom of memory
/// where a request does not say.
pub fn load_firmware(params: LoadFirmwareParams) -> (r: Command)
    ensures
        r == (Command::LoadFirmware {
            path: params.path,
            boot_mode: crate::mcp::worker::asked_boot_mode(
                crate::text::opt_text(params.boot_mode),
            ),
            entry_point: match params.entry_point {
                Some(h) => h.0,
                None => 0,
            },
            keep_breakpoints: params.keep_breakpoints,
        }),
{
    let boot_mode = boot_mode_of(&params.boot_mode);
    let entry_point: u32 = entry_point_of(params.entry_point);
    Command::LoadFirmware {
        path: params.path,
        boot_mode,
        entry_point,
        keep_breakpoints: params.keep_breakpoints,
    }
}

pub fn set_breakpoint(params: &SetBreakpointParams) -> (r: Command)
    ensures
        r == (Command::SetBreakpoint { address: params.address.0 }),
{
    Command::SetBreakpoint { address: params.address.0 }
}

pub fn remove_breakpoint(params: &RemoveBreakpointParams) -> (r: Command)
    ensures
        r == (Command::RemoveBreakpoint { address: params.address.0 }),
{
    Command::RemoveBreakpoint { address: params.address.0 }
}

/// Watch a range of memory.
pub fn set_watchpoint(params: &SetWatchpointParams) -> (r: Command)
    ensures
        r == (Command::SetWatchpoint {
            addr: params.address.0,
            size: params.size.0,
            mode: if crate::text::lowered(params.mode@) == "read"@ {
                WatchMode::Read
            } else if crate::text::lowered(params.mode@) == "write"@ {
                WatchMode::Write
            } else {
                WatchMode::ReadWrite
            },
        }),
{
    let mode = watch_mode_of(params.mode.as_str());
    Command::SetWatchpoint { addr: params.address.0, size: params.size.0, mode }
}

pub fn remove_watchpoint(params: &RemoveWatchpointParams) -> (r: Command)
    ensures
        r == (Command::RemoveWatchpoint { index: params.index as usize }),
{
    Command::RemoveWatchpoint { index: params.index as usize }
}

pub fn write_register(params: WriteRegisterParams) -> (r: Command)
    ensures
        r == (Command::WriteRegister { name: params.name, value: params.value.0 }),
{
    Command::WriteRegister { name: params.name, value: params.value.0 }
}

/// Write bytes to memory. Text that is no hexadecimal asks for nothing.
pub fn write_memory(params: &WriteMemoryParams) -> (r: Option<Command>)
    ensures
        match crate::mcp::hex::hex_bytes(params.hex@) {
            Some(b) => r matches Some(Command::WriteSram { addr, bytes }) && addr
                == params.address.0 && bytes@ == b,
            None => r is None,
        },
{
    match decode_hex(params.hex.as_str()) {
        Ok(bytes) => Some(Command::WriteSram { addr: params.address.0, bytes }),
        Err(_) => None,
    }
}

pub fn set_profiling(params: &SetProfilingParams) -> (r: Command)
    ensures
        r == (Command::SetProfiling { enabled: params.enabled }),
{
    Command::SetProfiling { enabled: params.enabled }
}

pub fn diff_snapshots(params: &DiffSnapshotsParams) -> (r: Command)
    ensures
        r matches Command::DiffSnapshots { a, b } && a@ == params.a@ && b@ == params.b@,
{
    Command::DiffSnapshots { a: params.a.clone(), b: params.b.clone() }
}

pub fn save_snapshot(params: &SaveSnapshotParams) -> (r: Command)
    ensures
        r matches Command::SaveSnapshot { name } && name@ == params.name@,
{
    Command::SaveSnapshot { name: params.name.clone() }
}

pub fn restore_snapshot(params: &RestoreSnapshotParams) -> (r: Command)
    ensures
        r matches Command::RestoreSnapshot { name } && name@ == params.name@,
{
    Command::RestoreSnapshot { name: params.name.clone() }
}

pub fn delete_snapshot(params: &DeleteSnapshotParams) -> (r: Command)
    ensures
        r matches Command::DeleteSnapshot { name } && name@ == params.name@,
{
    Command::DeleteSnapshot { name: params.name.clone() }
}

/// A watchpoint of the bus that is set.
#[derive(Debug)]
pub struct WatchInfo {
    pub id: u32,
    pub address: u32,
    pub size: u32,
    pub mode: MmioWatchMode,
    pub action: String,
    pub label: Option<String>,
}

/// Whether an entry shows a watchpoint.
pub open spec fn shows_watchpoint(e: MmioWatchpointEntry, w: WatchInfo) -> bool {
    &&& e.id == w.id
    &&& e.address.0 == w.address
    &&& e.size == w.size
    &&& e.mode@ == crate::mcp::events::watch_mode_text(w.mode)
    &&& e.action@ == w.action@
    &&& crate::text::opt_text(e.label) == crate::text::opt_text(w.label)
    &&& crate::text::opt_text(e.name) == crate::mcp::bus::reg_name(w.address)
    &&& crate::text::opt_text(e.block) == crate::mcp::bus::reg_block(w.address)
}

/// List the watchpoints of the bus.
pub fn list_mmio_watchpoints(watchpoints: &Vec<WatchInfo>) -> (r: ListMmioWatchpointsResult)
    ensures
        r.count == watchpoints@.len(),
        r.watchpoints@.len() == watchpoints@.len(),
        forall|i: int|
            0 <= i < watchpoints@.len() ==> shows_watchpoint(
                #[trigger] r.watchpoints@[i],
                watchpoints@[i],
            ),
{
    let mut out: Vec<MmioWatchpointEntry> = Vec::new();
    for i in 0..watchpoints.len()
        invariant
            out@.len() == i,
            forall|k: int| 0 <= k < i ==> shows_watchpoint(#[trigger] out@[k], watchpoints@[k]),
    {
        let w = &watchpoints[i];
        let (name, block) = reg_lookup(w.address);
        out.push(
            MmioWatchpointEntry {
                id: w.id,
                address: HexValue(w.address),
                size: w.size,
                mode: mmio_watch_mode_name(w.mode).to_owned(),
                action: w.action.clone(),
                label: copy_opt(&w.label),
                name,
                block,
            },
        );
    }
    ListMmioWatchpointsResult { count: out.len(), watchpoints: out }
}

/// An event that is scheduled. What triggers it and what it does are there as
/// text.
#[derive(Debug)]
pub struct EventInfo {
    pub id: u32,
    pub trigger: String,
    pub effect: String,
    pub label: Option<String>,
    pub fired: bool,
}

/// Whether an entry shows a scheduled event.
pub open spec fn shows_event(e: ScheduledEventEntry, s: EventInfo) -> bool {
    &&& e.id == s.id
    &&& e.trigger@ == s.trigger@
    &&& e.effect@ == s.effect@
    &&& crate::text::opt_text(e.label) == crate::text::opt_text(s.label)
    &&& e.fired == s.fired
}

/// List the scheduled events, those that fired among them.
pub fn list_scheduled_events(events: &Vec<EventInfo>) -> (r: ListScheduledEventsResult)
    ensures
        r.count == events@.len(),
        r.events@.len() == events@.len(),
        forall|i: int|
            0 <= i < events@.len() ==> shows_event(#[trigger] r.events@[i], events@[i]),
{
    let mut out: Vec<ScheduledEventEntry> = Vec::new();
    for i in 0..events.len()
        invariant
            out@.len() == i,
            forall|k: int| 0 <= k < i ==> shows_event(#[trigger] out@[k], events@[k]),
    {
        let s = &events[i];
        out.push(
            ScheduledEventEntry {
                id: s.id,
                trigger: s.trigger.clone(),
                effect: s.effect.clone(),
                label: copy_opt(&s.label),
                fired: s.fired,
            },
        );
    }
    ListScheduledEventsResult { count: out.len(), events: out }
}

/// An entry that shows a watchpoint names its number, its range and its action,
/// and the accesses it shows read back as those watched.
pub proof fn law_shown_watchpoint_reads_back(e: MmioWatchpointEntry, w: WatchInfo)
    requires
        shows_watchpoint(e, w),
    ensures
        w.id == e.id,
        w.address == e.address.0,
        w.size == e.size,
        crate::mcp::events::watch_mode_in(e.mode@) == Some(w.mode),
        w.action@ == e.action@,
        crate::text::opt_text(w.label) == crate::text::opt_text(e.label),
        crate::text::opt_text(e.name) == crate::mcp::bus::reg_name(e.address.0),
        crate::text::opt_text(e.block) == crate::mcp::bus::reg_block(e.address.0),
{
    crate::mcp::events::law_watch_mode_reads_back(w.mode);
}

/// An entry that shows an event names what it has of it: its number, what sets
/// it off, what it does, and whether it fired.
pub proof fn law_shown_event_is_the_one_scheduled(e: ScheduledEventEntry, s: EventInfo)
    requires
        shows_event(e, s),
    ensures
        s.id == e.id,
        s.trigger@ == e.trigger@,
        s.effect@ == e.effect@,
        crate::text::opt_text(s.label) == crate::text::opt_text(e.label),
        s.fired == e.fired,
{
}

} // verus!
