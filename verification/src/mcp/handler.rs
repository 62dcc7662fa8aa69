//! What the tools of a front end take and give.

use vstd::prelude::*;

use crate::mcp::hex::{hex_word, parse_addr_str};

verus! {

/// A word in a request: a number, or a number as text.
#[derive(Clone, Copy, Debug, PartialEq, Eq, Structural)]
pub struct HexU32(pub u32);

impl Default for HexU32 {
    fn default() -> (r: Self)
        ensures
            r == HexU32(0),
    {
        HexU32(0)
    }
}

impl From<HexU32> for u32 {
    fn from(h: HexU32) -> (r: u32) {
        h.0
    }
}

impl vstd::std_specs::convert::FromSpecImpl<HexU32> for u32 {
    open spec fn obeys_from_spec() -> bool {
        true
    }

    open spec fn from_spec(h: HexU32) -> u32 {
        h.0
    }
}

impl HexU32 {
    /// A word from a number; what does not fit is cut off.
    pub fn from_unsigned(v: u64) -> (r: Self)
        ensures
            r == HexU32(v as u32),
    {
        HexU32(#[verifier::truncate] (v as u32))
    }

    /// A word from a number that may be negative; what does not fit is cut off.
    pub fn from_signed(v: i64) -> (r: Self)
        ensures
            r == HexU32(v as u32),
    {
        HexU32(#[verifier::truncate] (v as u32))
    }

    /// A word from text, if it is one.
    pub fn from_text(s: &str) -> (r: Option<Self>)
        ensures
            match crate::number::prefixed_number(crate::number::trimmed(s@), 0xFFFF_FFFF) {
                Some(v) => r == Some(HexU32(v as u32)),
                None => r is None,
            },
    {
        match parse_addr_str(s) {
            Some(v) => Some(HexU32(v)),
            None => None,
        }
    }
}

/// A word in an answer, shown in hexadecimal.
#[derive(Clone, Copy, Debug, PartialEq, Eq, Structural)]
pub struct HexValue(pub u32);

impl Default for HexValue {
    fn default() -> (r: Self)
        ensures
            r == HexValue(0),
    {
        HexValue(0)
    }
}

impl From<u32> for HexValue {
    fn from(v: u32) -> (r: Self) {
        HexValue(v)
    }
}

impl vstd::std_specs::convert::FromSpecImpl<u32> for HexValue {
    open spec fn obeys_from_spec() -> bool {
        true
    }

    open spec fn from_spec(v: u32) -> HexValue {
        HexValue(v)
    }
}

impl From<HexValue> for u32 {
    fn from(h: HexValue) -> (r: u32) {
        h.0
    }
}

impl vstd::std_specs::convert::FromSpecImpl<HexValue> for u32 {
    open spec fn obeys_from_spec() -> bool {
        true
    }

    open spec fn from_spec(h: HexValue) -> u32 {
        h.0
    }
}

impl HexValue {
    /// The text a front end shows.
    pub fn text(self) -> (r: String)
        ensures
            r@ == crate::mcp::hex::word_text(self.0),
    {
        hex_word(self.0)
    }
}

/// What an injected event may carry.
#[derive(Clone, Copy, Debug, PartialEq, Eq, Structural)]
pub struct EventParams {
    pub opcode: Option<u64>,
    pub lane: Option<u64>,
    pub state: Option<bool>,
    pub mask: Option<u64>,
}

// Registers and state.

#[derive(Clone, Debug)]
pub struct ReadRegistersParams {
    pub names: Option<Vec<String>>,
}

#[derive(Clone, Debug)]
pub struct ReadRegistersResult {
    pub values: Vec<(String, HexValue)>,
}

#[derive(Clone, Debug)]
pub struct FlagsResult {
    pub z: bool,
    pub n: bool,
    pub c: bool,
    pub v: bool,
    pub e1: bool,
    pub e2: bool,
    pub u: bool,
    pub h: bool,
    pub l: bool,
    pub de: bool,
    pub status32: HexValue,
}

#[derive(Clone, Debug)]
pub struct CpuStateResult {
    pub pc: HexValue,
    pub halted: bool,
    pub sleeping: bool,
    pub paused: bool,
    pub instruction_count: u64,
    pub run_state: String,
    pub pause_reason: String,
}

#[derive(Clone, Debug)]
pub struct FirmwareInfoResult {
    pub loaded: bool,
    pub path: Option<String>,
    pub boot_mode: Option<String>,
    pub entry_point: Option<HexValue>,
    pub flash_size: Option<usize>,
    pub flash_loaded: Option<bool>,
}

// Registers of the bus.

#[derive(Clone, Debug)]
pub struct PeekMmioParams {
    pub address: HexU32,
}

#[derive(Clone, Debug)]
pub struct PeekMmioResult {
    pub address: HexValue,
    pub value: HexValue,
    pub name: Option<String>,
    pub block: Option<String>,
}

// Flash.

#[derive(Clone, Debug)]
pub struct ReadFlashParams {
    pub offset: HexU32,
    pub length: HexU32,
}

// Changes to the bank.

#[derive(Clone, Debug)]
pub struct WriteMmioParams {
    pub address: HexU32,
    pub value: HexU32,
    pub width: Option<String>,
}

#[derive(Clone, Debug)]
pub struct OkResult {
    pub ok: bool,
}

#[derive(Clone, Debug)]
pub struct SendUartInputParams {
    pub data: String,
}

#[derive(Clone, Debug)]
pub struct SendUartInputResult {
    pub bytes_sent: usize,
}

#[derive(Clone, Debug)]
pub struct WriteFlashParams {
    pub offset: HexU32,
    pub hex: String,
}

#[derive(Clone, Debug)]
pub struct WriteFlashResult {
    pub bytes_written: usize,
    pub offset: HexValue,
}

#[derive(Clone, Debug)]
pub struct FlashPathParams {
    pub path: String,
}

#[derive(Clone, Debug)]
pub struct AddSymbolParams {
    pub address: HexU32,
    pub name: String,
}

#[derive(Clone, Debug)]
pub struct AddCommentParams {
    pub address: HexU32,
    pub comment: String,
}

#[derive(Clone, Debug)]
pub struct InjectPeripheralEventParams {
    pub peripheral: String,
    pub event: String,
    pub params: EventParams,
}

// Traces of the bus.

#[derive(Clone, Debug)]
pub struct MmioTraceEntryJson {
    pub address: HexValue,
    pub peripheral: String,
    pub reads: u64,
    pub writes: u64,
    pub last_read_value: HexValue,
    pub last_write_value: HexValue,
    pub first_pc: HexValue,
    pub first_insn: u64,
    pub access_widths: u8,
    pub name: Option<String>,
    pub block: Option<String>,
}

#[derive(Clone, Debug)]
pub struct DumpMmioTraceResult {
    pub enabled: bool,
    pub entries: Vec<MmioTraceEntryJson>,
}

#[derive(Clone, Debug)]
pub struct UnhandledMmioEntry {
    pub address: HexValue,
    pub reads: u64,
    pub writes: u64,
    pub last_read_value: HexValue,
    pub last_write_value: HexValue,
    pub first_pc: HexValue,
    pub first_insn: u64,
    pub name: Option<String>,
    pub block: Option<String>,
}

#[derive(Clone, Debug)]
pub struct UnhandledMmioResult {
    pub count: usize,
    pub entries: Vec<UnhandledMmioEntry>,
}

// History of the bus.

#[derive(Clone, Debug)]
pub struct GetMmioHistoryParams {
    pub last: Option<usize>,
    pub address: Option<HexU32>,
    pub from_insn: Option<u64>,
    pub to_insn: Option<u64>,
    pub limit: Option<usize>,
}

#[derive(Clone, Debug)]
pub struct MmioHistoryEntryJson {
    pub insn: u64,
    pub pc: HexValue,
    pub blink: HexValue,
    pub address: HexValue,
    pub value: HexValue,
    pub direction: String,
    pub width: String,
    pub peripheral: String,
    pub name: Option<String>,
    pub block: Option<String>,
}

#[derive(Clone, Debug)]
pub struct MmioHistoryResult {
    pub total_in_buffer: usize,
    pub returned: usize,
    pub entries: Vec<MmioHistoryEntryJson>,
}

#[derive(Clone, Debug)]
pub struct SetMmioHistorySizeParams {
    pub size: usize,
}

// Coverage and profile.

#[derive(Clone, Debug)]
pub struct GetCoverageParams {
    pub range_start: Option<HexU32>,
    pub range_end: Option<HexU32>,
}

#[derive(Clone, Debug)]
pub struct CoverageEntry {
    pub address: HexValue,
    pub hits: u32,
}

#[derive(Clone, Debug)]
pub struct CoverageResult {
    pub total_pcs: usize,
    pub entries: Vec<CoverageEntry>,
}

#[derive(Clone, Debug)]
pub struct CallStackResult {
    pub depth: usize,
    pub frames: Vec<HexValue>,
}

#[derive(Clone, Debug)]
pub struct FunctionProfileEntry {
    pub address: HexValue,
    pub instructions: u64,
}

#[derive(Clone, Debug)]
pub struct FunctionProfileParams {
    pub top: Option<usize>,
}

#[derive(Clone, Debug)]
pub struct FunctionProfileResult {
    pub enabled: bool,
    pub entries: Vec<FunctionProfileEntry>,
}

#[derive(Clone, Debug)]
pub struct SetProfilingParams {
    pub enabled: bool,
}

#[derive(Clone, Debug)]
pub struct ExplainMmioParams {
    pub address: HexU32,
}

#[derive(Clone, Debug)]
pub struct ExplainMmioResult {
    pub address: HexValue,
    pub value: HexValue,
    pub name: Option<String>,
    pub block: Option<String>,
    pub access: Option<String>,
    pub description: Option<String>,
    pub has_override: bool,
    pub last_access: Option<LastAccessJson>,
    pub peripheral: Option<String>,
}

#[derive(Clone, Debug)]
pub struct LastAccessJson {
    pub pc: HexValue,
    pub blink: HexValue,
    pub insn: u64,
    pub direction: String,
    pub value: HexValue,
}

// The far end of the link.

#[derive(Clone, Debug)]
pub struct OltStateResult {
    pub enabled: bool,
    pub mpcp_state: String,
    pub olt_mac: String,
    pub onu_mac: String,
    pub assigned_llid: u16,
    pub mpcp_timestamp: HexValue,
    pub tx_frame_count: usize,
    pub rx_frame_count: usize,
    pub oam_keepalive_count: u64,
    pub gate_count: u64,
}

#[derive(Clone, Debug)]
pub struct OltConfigParams {
    pub mac: Option<String>,
    pub llid_start: Option<u16>,
    pub oam_interval_ticks: Option<u64>,
    pub gate_interval_ticks: Option<u64>,
}

#[derive(Clone, Debug)]
pub struct OltConfigResult {
    pub mac: String,
    pub llid_start: u16,
    pub oam_interval_ticks: u64,
    pub gate_interval_ticks: u64,
}

#[derive(Clone, Debug)]
pub struct OltEnableParams {
    pub enabled: bool,
}

#[derive(Clone, Debug)]
pub struct OltInjectFrameParams {
    pub hex: String,
}

#[derive(Clone, Debug)]
pub struct OltFrameLogEntry {
    pub tick: u64,
    pub description: String,
    pub hex: String,
    pub length: usize,
}

#[derive(Clone, Debug)]
pub struct OltFrameLogParams {
    pub last: Option<usize>,
}

#[derive(Clone, Debug)]
pub struct OltFrameLogResult {
    pub total: usize,
    pub entries: Vec<OltFrameLogEntry>,
}

// Outside stimulus.

#[derive(Clone, Debug)]
pub struct SetMmioOverrideParams {
    pub address: HexU32,
    pub value: HexU32,
    pub mode: String,
    pub count: u32,
    pub label: Option<String>,
}

#[derive(Clone, Debug)]
pub struct RemoveMmioOverrideParams {
    pub address: HexU32,
}

#[derive(Clone, Debug)]
pub struct MmioOverrideEntry {
    pub address: HexValue,
    pub mode: String,
    pub value: HexValue,
    pub remaining: Option<u32>,
    pub label: Option<String>,
    pub name: Option<String>,
    pub block: Option<String>,
}

#[derive(Clone, Debug)]
pub struct ListMmioOverridesResult {
    pub count: usize,
    pub overrides: Vec<MmioOverrideEntry>,
}

#[derive(Clone, Debug)]
pub struct ScheduleEventParams {
    pub trigger: String,
    pub effect: String,
    pub label: Option<String>,
    pub repeat: bool,
}

#[derive(Clone, Debug)]
pub struct ScheduleEventResult {
    pub ok: bool,
    pub id: Option<u32>,
}

#[derive(Clone, Debug)]
pub struct CancelEventParams {
    pub id: u32,
}

#[derive(Clone, Debug)]
pub struct ScheduledEventEntry {
    pub id: u32,
    pub trigger: String,
    pub effect: String,
    pub label: Option<String>,
    pub fired: bool,
}

#[derive(Clone, Debug)]
pub struct ListScheduledEventsResult {
    pub count: usize,
    pub events: Vec<ScheduledEventEntry>,
}

#[derive(Clone, Debug)]
pub struct SetMmioWatchpointParams {
    pub address: HexU32,
    pub size: u32,
    pub mode: String,
    pub action: Option<String>,
    pub label: Option<String>,
    pub condition: Option<WatchpointConditionParams>,
}

#[derive(Clone, Debug)]
pub struct WatchpointConditionParams {
    pub mask: HexU32,
    pub expect: HexU32,
}

#[derive(Clone, Debug)]
pub struct SetMmioWatchpointResult {
    pub ok: bool,
    pub id: Option<u32>,
}

#[derive(Clone, Debug)]
pub struct RemoveMmioWatchpointParams {
    pub id: u32,
}

#[derive(Clone, Debug)]
pub struct MmioWatchpointEntry {
    pub id: u32,
    pub address: HexValue,
    pub size: u32,
    pub mode: String,
    pub action: String,
    pub label: Option<String>,
    pub name: Option<String>,
    pub block: Option<String>,
}

#[derive(Clone, Debug)]
pub struct ListMmioWatchpointsResult {
    pub count: usize,
    pub watchpoints: Vec<MmioWatchpointEntry>,
}

#[derive(Clone, Debug)]
pub struct LoadScenarioParams {
    pub json: String,
}

#[derive(Clone, Debug)]
pub struct LoadScenarioResult {
    pub ok: bool,
    pub loaded: usize,
    pub error: Option<String>,
}

// Control of the processor.

#[derive(Clone, Debug)]
pub struct CpuRunParams {
    pub max_insns: Option<u64>,
}

#[derive(Clone, Debug)]
pub struct CpuStepParams {
    pub count: Option<u32>,
}

#[derive(Clone, Debug)]
pub struct CpuRunToParams {
    pub address: HexU32,
}

#[derive(Clone, Debug)]
pub struct CpuResetParams {
    pub boot_mode: Option<String>,
    pub keep_breakpoints: bool,
}

#[derive(Clone, Debug)]
pub struct LoadFirmwareParams {
    pub path: String,
    pub boot_mode: Option<String>,
    pub entry_point: Option<HexU32>,
    pub keep_breakpoints: bool,
}

#[derive(Clone, Debug)]
pub struct LoadFirmwareResponse {
    pub ok: bool,
    pub loaded_bytes: usize,
    pub entry_point: HexValue,
    pub flash_bytes: usize,
    pub error: Option<String>,
}

#[derive(Clone, Debug)]
pub struct SetBreakpointParams {
    pub address: HexU32,
}

#[derive(Clone, Debug)]
pub struct RemoveBreakpointParams {
    pub address: HexU32,
}

#[derive(Clone, Debug)]
pub struct SetWatchpointParams {
    pub address: HexU32,
    pub size: HexU32,
    pub mode: String,
}

#[derive(Clone, Debug)]
pub struct RemoveWatchpointParams {
    pub index: u32,
}

#[derive(Clone, Debug)]
pub struct WriteRegisterParams {
    pub name: String,
    pub value: HexU32,
}

#[derive(Clone, Debug)]
pub struct WriteMemoryParams {
    pub address: HexU32,
    pub hex: String,
}

#[derive(Clone, Debug)]
pub struct ReadMemoryParams {
    pub address: HexU32,
    pub length: HexU32,
}

#[derive(Clone, Debug)]
pub struct ReadMemoryResult {
    pub address: HexValue,
    pub length: u32,
    pub hex: String,
    pub ascii: String,
}

#[derive(Clone, Debug)]
pub struct ReadMmioParams {
    pub address: HexU32,
    pub width: Option<String>,
}

#[derive(Clone, Debug)]
pub struct ReadMmioResult {
    pub address: HexValue,
    pub value: HexValue,
    pub width: String,
    pub name: Option<String>,
    pub block: Option<String>,
}

#[derive(Clone, Debug)]
pub struct ReadFlashResult {
    pub offset: HexValue,
    pub length: u32,
    pub hex: String,
}

#[derive(Clone, Debug)]
pub struct PeripheralEntry {
    pub index: usize,
    pub name: String,
}

#[derive(Clone, Debug)]
pub struct ListPeripheralsResult {
    pub peripherals: Vec<PeripheralEntry>,
}

#[derive(Clone, Debug)]
pub struct UartBufferResult {
    pub bytes_len: usize,
    pub ascii: String,
    pub hex: String,
}

#[derive(Clone, Debug)]
pub struct BreakpointsResult {
    pub breakpoints: Vec<HexValue>,
}

#[derive(Clone, Debug)]
pub struct SymbolsResult {
    pub symbols: Vec<(String, String)>,
}

// Named snapshots.

#[derive(Clone, Debug)]
pub struct SaveSnapshotParams {
    pub name: String,
}

#[derive(Clone, Debug)]
pub struct SaveSnapshotResult {
    pub ok: bool,
    pub name: String,
    pub instruction_count: u64,
    pub pc: HexValue,
    pub timestamp: String,
    pub size_bytes: usize,
    pub error: Option<String>,
}

#[derive(Clone, Debug)]
pub struct RestoreSnapshotParams {
    pub name: String,
}

#[derive(Clone, Debug)]
pub struct RestoreSnapshotResult {
    pub ok: bool,
    pub name: String,
    pub instruction_count: u64,
    pub pc: HexValue,
    pub error: Option<String>,
}

#[derive(Clone, Debug)]
pub struct SnapshotInfoJson {
    pub name: String,
    pub instruction_count: u64,
    pub pc: HexValue,
    pub timestamp: String,
    pub size_bytes: usize,
}

#[derive(Clone, Debug)]
pub struct ListSnapshotsResult {
    pub count: usize,
    pub snapshots: Vec<SnapshotInfoJson>,
}

#[derive(Clone, Debug)]
pub struct DeleteSnapshotParams {
    pub name: String,
}

#[derive(Clone, Debug)]
pub struct DeleteSnapshotResult {
    pub ok: bool,
    pub name: String,
}

// Patterns and timeline.

#[derive(Clone, Debug)]
pub struct PatternEntry {
    pub pattern_type: String,
    pub address: HexValue,
    pub secondary_address: Option<HexValue>,
    pub count: usize,
    pub value: Option<HexValue>,
    pub first_pc: HexValue,
    pub last_pc: HexValue,
    pub first_insn: u64,
    pub last_insn: u64,
}

#[derive(Clone, Debug)]
pub struct DetectPatternsResult {
    pub count: usize,
    pub patterns: Vec<PatternEntry>,
}

#[derive(Clone, Debug)]
pub struct GetEventTimelineParams {
    pub from_insn: Option<u64>,
    pub to_insn: Option<u64>,
}

#[derive(Clone, Debug)]
pub struct TimelineEventJson {
    pub event_type: String,
    pub block: Option<String>,
    pub address: HexValue,
    pub from_insn: u64,
    pub to_insn: u64,
    pub access_count: usize,
    pub summary: String,
}

#[derive(Clone, Debug)]
pub struct GetEventTimelineResult {
    pub count: usize,
    pub events: Vec<TimelineEventJson>,
}

#[derive(Clone, Debug)]
pub struct DiffSnapshotsParams {
    pub a: String,
    pub b: String,
}

#[derive(Clone, Debug)]
pub struct RegisterDiff {
    pub name: String,
    pub a: HexValue,
    pub b: HexValue,
}

#[derive(Clone, Debug)]
pub struct DiffSnapshotsResult {
    pub ok: bool,
    pub register_diffs: Vec<RegisterDiff>,
    pub pc_a: HexValue,
    pub pc_b: HexValue,
    pub insn_a: u64,
    pub insn_b: u64,
    pub sram_changed_bytes: usize,
    pub error: Option<String>,
}

// Symbols.

#[derive(Clone, Debug)]
pub struct LoadSymbolsFileParams {
    pub path: String,
}

#[derive(Clone, Debug)]
pub struct LoadSymbolsFileResult {
    pub ok: bool,
    pub loaded: usize,
    pub error: Option<String>,
}

impl Default for FirmwareInfoResult {
    /// Nothing has been loaded.
    fn default() -> (r: Self)
        ensures
            !r.loaded,
            r.path is None,
            r.boot_mode is None,
            r.entry_point is None,
            r.flash_size is None,
            r.flash_loaded is None,
    {
        FirmwareInfoResult {
            loaded: false,
            path: None,
            boot_mode: None,
            entry_point: None,
            flash_size: None,
            flash_loaded: None,
        }
    }
}

/// The way an override works if a request does not say.
pub fn default_override_mode() -> (r: String)
    ensures
        r@ == "static"@,
{
    String::from_str("static")
}

/// The reads a one-shot override answers if a request does not say.
pub fn default_oneshot_count() -> (r: u32)
    ensures
        r == 1,
{
    1
}

/// The bytes a watchpoint covers if a request does not say.
pub fn default_wp_size() -> (r: u32)
    ensures
        r == 4,
{
    4
}

/// The accesses a watchpoint looks at if a request does not say.
pub fn default_wp_mode() -> (r: String)
    ensures
        r@ == "rw"@,
{
    String::from_str("rw")
}

/// Whether breakpoints outlive a reset if a request does not say.
pub fn default_true() -> (r: bool)
    ensures
        r,
{
    true
}

} // verus!
