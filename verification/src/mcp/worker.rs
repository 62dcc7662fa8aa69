//! What a front end asks the processor's worker for, and what it makes of the
//! answers. The worker may be gone, refuse, or not answer in time.

use vstd::prelude::*;

use crate::mcp::handler::{
    CallStackResult, CoverageEntry, CoverageResult, DeleteSnapshotResult, DiffSnapshotsResult,
    FunctionProfileEntry, FunctionProfileParams, FunctionProfileResult, GetCoverageParams, HexU32,
    HexValue, ListSnapshotsResult, LoadFirmwareResponse, ReadMemoryParams, ReadMemoryResult,
    RegisterDiff, RestoreSnapshotResult, SaveSnapshotResult, SnapshotInfoJson,
};
use crate::mcp::hex::bytes_to_hex;
use crate::mcp::registers::hex_words;
use crate::memory::watch::WatchMode;
use crate::soc::bank::BootMode;
use crate::text::{lower, spells};

verus! {

/// What came of a request to the worker.
#[derive(Debug)]
pub enum Reply<T> {
    Done(T),
    /// The worker says why not.
    Refused(String),
    Timeout,
    /// The worker is gone.
    Closed,
}

/// The boot mode a request asks for: a cold boot where it says so, in upper or
/// lower case, a warm one otherwise.
pub open spec fn asked_boot_mode(mode: Option<Seq<char>>) -> BootMode {
    match mode {
        Some(m) => if crate::text::lowered(m) == "cold"@ {
            BootMode::Cold
        } else {
            BootMode::Warm
        },
        None => BootMode::Warm,
    }
}

pub fn boot_mode_of(mode: &Option<String>) -> (r: BootMode)
    ensures
        r == asked_boot_mode(crate::text::opt_text(*mode)),
{
    match mode {
        Some(m) => {
            if spells(&lower(m.as_str()), "cold") {
                BootMode::Cold
            } else {
                BootMode::Warm
            }
        },
        None => BootMode::Warm,
    }
}

/// The accesses a watchpoint looks at: reads, writes, or both where a request
/// says neither.
pub fn watch_mode_of(mode: &str) -> (r: WatchMode)
    ensures
        r == (if crate::text::lowered(mode@) == "read"@ {
            WatchMode::Read
        } else if crate::text::lowered(mode@) == "write"@ {
            WatchMode::Write
        } else {
            WatchMode::ReadWrite
        }),
{
    let m = lower(mode);
    if spells(&m, "read") {
        WatchMode::Read
    } else if spells(&m, "write") {
        WatchMode::Write
    } else {
        WatchMode::ReadWrite
    }
}

/// The entry point a request asks for, or the bottom of memory.
pub fn entry_point_of(entry: Option<HexU32>) -> (r: u32)
    ensures
        r == (match entry {
            Some(h) => h.0,
            None => 0,
        }),
{
    match entry {
        Some(h) => h.0,
        None => 0,
    }
}

/// Instructions a step covers where a request does not say.
pub fn step_count_of(count: Option<u32>) -> (r: u32)
    ensures
        r == (match count {
            Some(n) => n,
            None => 1,
        }),
{
    match count {
        Some(n) => n,
        None => 1,
    }
}

/// What loading firmware came to.
#[derive(Clone, Copy, Debug, PartialEq, Eq, Structural)]
pub struct LoadFirmwareResult {
    pub loaded_bytes: usize,
    pub entry_point: u32,
    pub flash_bytes: usize,
}

/// Why a request came to nothing. Snapshots and firmware name a missed
/// deadline differently.
pub open spec fn failure<T>(reply: Reply<T>, late: Seq<char>) -> Option<Seq<char>> {
    match reply {
        Reply::Done(_) => None,
        Reply::Refused(why) => Some(why@),
        Reply::Timeout => Some(late),
        Reply::Closed => Some("cpu_cmd channel closed"@),
    }
}

/// Answer a request to load firmware.
pub fn load_firmware_response(asked_entry: u32, reply: Reply<LoadFirmwareResult>) -> (r:
    LoadFirmwareResponse)
    ensures
        r.ok == reply is Done,
        crate::text::opt_text(r.error) == failure(reply, "timeout waiting for worker"@),
        match reply {
            Reply::Done(d) => {
                &&& r.loaded_bytes == d.loaded_bytes
                &&& r.entry_point.0 == d.entry_point
                &&& r.flash_bytes == d.flash_bytes
            },
            _ => {
                &&& r.loaded_bytes == 0
                &&& r.entry_point.0 == asked_entry
                &&& r.flash_bytes == 0
            },
        },
{
    let error: String = match reply {
        Reply::Done(d) => {
            return LoadFirmwareResponse {
                ok: true,
                loaded_bytes: d.loaded_bytes,
                entry_point: HexValue(d.entry_point),
                flash_bytes: d.flash_bytes,
                error: None,
            };
        },
        Reply::Refused(why) => why,
        Reply::Timeout => String::from_str("timeout waiting for worker"),
        Reply::Closed => String::from_str("cpu_cmd channel closed"),
    };
    LoadFirmwareResponse {
        ok: false,
        loaded_bytes: 0,
        entry_point: HexValue(asked_entry),
        flash_bytes: 0,
        error: Some(error),
    }
}

/// A snapshot the worker holds.
#[derive(Clone, Debug)]
pub struct SnapshotInfo {
    pub name: String,
    pub instruction_count: u64,
    pub pc: u32,
    pub timestamp: String,
    pub size_bytes: usize,
}

/// Answer a request to save a snapshot.
pub fn save_snapshot_result(name: String, reply: Reply<SnapshotInfo>) -> (r: SaveSnapshotResult)
    ensures
        r.ok == reply is Done,
        crate::text::opt_text(r.error) == failure(reply, "timeout"@),
        match reply {
            Reply::Done(i) => {
                &&& r.name@ == i.name@
                &&& r.instruction_count == i.instruction_count
                &&& r.pc.0 == i.pc
                &&& r.timestamp@ == i.timestamp@
                &&& r.size_bytes == i.size_bytes
            },
            _ => {
                &&& r.name@ == name@
                &&& r.instruction_count == 0
                &&& r.pc.0 == 0
                &&& r.timestamp@.len() == 0
                &&& r.size_bytes == 0
            },
        },
{
    let error: String = match reply {
        Reply::Done(i) => {
            return SaveSnapshotResult {
                ok: true,
                name: i.name,
                instruction_count: i.instruction_count,
                pc: HexValue(i.pc),
                timestamp: i.timestamp,
                size_bytes: i.size_bytes,
                error: None,
            };
        },
        Reply::Refused(why) => why,
        Reply::Timeout => String::from_str("timeout"),
        Reply::Closed => String::from_str("cpu_cmd channel closed"),
    };
    SaveSnapshotResult {
        ok: false,
        name,
        instruction_count: 0,
        pc: HexValue(0),
        timestamp: String::new(),
        size_bytes: 0,
        error: Some(error),
    }
}

/// Answer a request to go back to a snapshot.
pub fn restore_snapshot_result(name: String, reply: Reply<SnapshotInfo>) -> (r:
    RestoreSnapshotResult)
    ensures
        r.ok == reply is Done,
        crate::text::opt_text(r.error) == failure(reply, "timeout"@),
        match reply {
            Reply::Done(i) => {
                &&& r.name@ == i.name@
                &&& r.instruction_count == i.instruction_count
                &&& r.pc.0 == i.pc
            },
            _ => {
                &&& r.name@ == name@
                &&& r.instruction_count == 0
                &&& r.pc.0 == 0
            },
        },
{
    let error: String = match reply {
        Reply::Done(i) => {
            return RestoreSnapshotResult {
                ok: true,
                name: i.name,
                instruction_count: i.instruction_count,
                pc: HexValue(i.pc),
                error: None,
            };
        },
        Reply::Refused(why) => why,
        Reply::Timeout => String::from_str("timeout"),
        Reply::Closed => String::from_str("cpu_cmd channel closed"),
    };
    RestoreSnapshotResult {
        ok: false,
        name,
        instruction_count: 0,
        pc: HexValue(0),
        error: Some(error),
    }
}

/// Whether a listed snapshot is the one the worker holds.
pub open spec fn lists_snapshot(shown: SnapshotInfoJson, info: SnapshotInfo) -> bool {
    &&& shown.name@ == info.name@
    &&& shown.instruction_count == info.instruction_count
    &&& shown.pc.0 == info.pc
    &&& shown.timestamp@ == info.timestamp@
    &&& shown.size_bytes == info.size_bytes
}

/// List the snapshots; none where the worker did not answer.
pub fn list_snapshots_result(reply: Reply<Vec<SnapshotInfo>>) -> (r: ListSnapshotsResult)
    ensures
        r.count == r.snapshots@.len(),
        match reply {
            Reply::Done(list) => {
                &&& r.snapshots@.len() == list@.len()
                &&& forall|i: int|
                    0 <= i < list@.len() ==> lists_snapshot(#[trigger] r.snapshots@[i], list@[i])
            },
            _ => r.snapshots@.len() == 0,
        },
{
    let mut out: Vec<SnapshotInfoJson> = Vec::new();
    if let Reply::Done(list) = reply {
        for i in 0..list.len()
            invariant
                out@.len() == i,
                forall|k: int| 0 <= k < i ==> lists_snapshot(#[trigger] out@[k], list@[k]),
        {
            out.push(
                SnapshotInfoJson {
                    name: list[i].name.clone(),
                    instruction_count: list[i].instruction_count,
                    pc: HexValue(list[i].pc),
                    timestamp: list[i].timestamp.clone(),
                    size_bytes: list[i].size_bytes,
                },
            );
        }
    }
    ListSnapshotsResult { count: out.len(), snapshots: out }
}

/// Answer a request to drop a snapshot: it went well where there was one.
pub fn delete_snapshot_result(name: String, reply: Reply<bool>) -> (r: DeleteSnapshotResult)
    ensures
        r.ok == (reply matches Reply::Done(existed) && existed),
        r.name@ == name@,
{
    let ok: bool = match reply {
        Reply::Done(existed) => existed,
        _ => false,
    };
    DeleteSnapshotResult { ok, name }
}

/// A register that differs between two snapshots.
#[derive(Clone, Debug)]
pub struct RegisterChange {
    pub name: String,
    pub a: u32,
    pub b: u32,
}

/// How two snapshots differ.
#[derive(Clone, Debug)]
pub struct SnapshotDiff {
    pub register_diffs: Vec<RegisterChange>,
    pub pc_a: u32,
    pub pc_b: u32,
    pub insn_a: u64,
    pub insn_b: u64,
    pub sram_changed_bytes: usize,
}

/// Whether listed differences are those found.
pub open spec fn lists_changes(shown: Seq<RegisterDiff>, found: Seq<RegisterChange>) -> bool {
    &&& shown.len() == found.len()
    &&& forall|i: int|
        0 <= i < found.len() ==> (#[trigger] shown[i]).name@ == found[i].name@ && shown[i].a.0
            == found[i].a && shown[i].b.0 == found[i].b
}

fn show_changes(found: &Vec<RegisterChange>) -> (r: Vec<RegisterDiff>)
    ensures
        lists_changes(r@, found@),
{
    let mut out: Vec<RegisterDiff> = Vec::new();
    for i in 0..found.len()
        invariant
            lists_changes(out@, found@.take(i as int)),
    {
        out.push(
            RegisterDiff {
                name: found[i].name.clone(),
                a: HexValue(found[i].a),
                b: HexValue(found[i].b),
            },
        );
    }
    assert(found@.take(found@.len() as int) =~= found@);
    out
}

/// Answer a request to compare two snapshots.
pub fn diff_snapshots_result(reply: Reply<SnapshotDiff>) -> (r: DiffSnapshotsResult)
    ensures
        r.ok == reply is Done,
        crate::text::opt_text(r.error) == failure(reply, "timeout"@),
        match reply {
            Reply::Done(d) => {
                &&& lists_changes(r.register_diffs@, d.register_diffs@)
                &&& r.pc_a.0 == d.pc_a
                &&& r.pc_b.0 == d.pc_b
                &&& r.insn_a == d.insn_a
                &&& r.insn_b == d.insn_b
                &&& r.sram_changed_bytes == d.sram_changed_bytes
            },
            _ => {
                &&& r.register_diffs@.len() == 0
                &&& r.pc_a.0 == 0
                &&& r.pc_b.0 == 0
                &&& r.insn_a == 0
                &&& r.insn_b == 0
                &&& r.sram_changed_bytes == 0
            },
        },
{
    let error: String = match reply {
        Reply::Done(d) => {
            return DiffSnapshotsResult {
                ok: true,
                register_diffs: show_changes(&d.register_diffs),
                pc_a: HexValue(d.pc_a),
                pc_b: HexValue(d.pc_b),
                insn_a: d.insn_a,
                insn_b: d.insn_b,
                sram_changed_bytes: d.sram_changed_bytes,
                error: None,
            };
        },
        Reply::Refused(why) => why,
        Reply::Timeout => String::from_str("timeout"),
        Reply::Closed => String::from_str("cpu_cmd channel closed"),
    };
    DiffSnapshotsResult {
        ok: false,
        register_diffs: Vec::new(),
        pc_a: HexValue(0),
        pc_b: HexValue(0),
        insn_a: 0,
        insn_b: 0,
        sram_changed_bytes: 0,
        error: Some(error),
    }
}

/// Whether an address lies in the range a request asks for.
pub open spec fn covered(params: GetCoverageParams) -> spec_fn((u32, u32)) -> bool {
    |e: (u32, u32)|
        {
            &&& (params.range_start matches Some(lo) ==> lo.0 <= e.0)
            &&& e.0 < (match params.range_end {
                Some(hi) => hi.0,
                None => u32::MAX,
            })
        }
}

/// Coverage, as values.
pub open spec fn hits_of(entries: Seq<CoverageEntry>) -> Seq<(u32, u32)> {
    Seq::new(entries.len(), |i: int| (entries[i].address.0, entries[i].hits))
}

/// The coverage inside the range a request asks for.
pub fn coverage_result(sparse: &Vec<(u32, u32)>, params: &GetCoverageParams) -> (r: CoverageResult)
    ensures
        hits_of(r.entries@) == sparse@.filter(covered(*params)),
        r.total_pcs == r.entries@.len(),
{
    let lo: u32 = match params.range_start {
        Some(h) => h.0,
        None => 0,
    };
    let hi: u32 = match params.range_end {
        Some(h) => h.0,
        None => u32::MAX,
    };
    let mut out: Vec<CoverageEntry> = Vec::new();
    proof {
        reveal(Seq::filter);
        assert(sparse@.take(0) =~= Seq::<(u32, u32)>::empty());
        assert(hits_of(out@) =~= sparse@.take(0).filter(covered(*params)));
    }
    for i in 0..sparse.len()
        invariant
            lo == (match params.range_start {
                Some(h) => h.0,
                None => 0,
            }),
            hi == (match params.range_end {
                Some(h) => h.0,
                None => u32::MAX,
            }),
            hits_of(out@) == sparse@.take(i as int).filter(covered(*params)),
    {
        let ghost before = hits_of(out@);
        proof {
            reveal(Seq::filter);
            assert(sparse@.take(i + 1).drop_last() =~= sparse@.take(i as int));
            assert(sparse@.take(i + 1).last() == sparse@[i as int]);
        }
        let (addr, hits) = sparse[i];
        if addr >= lo && addr < hi {
            out.push(CoverageEntry { address: HexValue(addr), hits });
            assert(hits_of(out@) =~= before.push((addr, hits)));
        }
    }
    assert(sparse@.take(sparse@.len() as int) =~= sparse@);
    CoverageResult { total_pcs: out.len(), entries: out }
}

/// The return addresses of the calls that are open, the innermost last.
pub fn call_stack_result(stack: &Vec<u32>) -> (r: CallStackResult)
    ensures
        r.depth == stack@.len(),
        crate::mcp::registers::words_of(r.frames@) == stack@,
{
    CallStackResult { depth: stack.len(), frames: hex_words(stack) }
}

/// Functions shown where a request does not say how many.
pub const PROFILE_TOP: usize = 20;

/// A profile, as values.
pub open spec fn costs_of(entries: Seq<FunctionProfileEntry>) -> Seq<(u32, u64)> {
    Seq::new(entries.len(), |i: int| (entries[i].address.0, entries[i].instructions))
}

/// The head of a list, or all of it where it is shorter.
pub open spec fn head<T>(s: Seq<T>, n: int) -> Seq<T> {
    if s.len() <= n {
        s
    } else {
        s.take(n)
    }
}

/// The head of the profile. Where the worker is gone there is none.
pub fn function_profile_result(profile: Option<&Vec<(u32, u64)>>, params: &FunctionProfileParams) -> (r:
    FunctionProfileResult)
    ensures
        r.enabled == profile is Some,
        match profile {
            Some(p) => costs_of(r.entries@) == head(
                p@,
                match params.top {
                    Some(n) => n as int,
                    None => PROFILE_TOP as int,
                },
            ),
            None => r.entries@.len() == 0,
        },
{
    let top: usize = match params.top {
        Some(n) => n,
        None => PROFILE_TOP,
    };
    let mut out: Vec<FunctionProfileEntry> = Vec::new();
    match profile {
        None => FunctionProfileResult { enabled: false, entries: out },
        Some(p) => {
            let n: usize = if p.len() <= top {
                p.len()
            } else {
                top
            };
            for i in 0..n
                invariant
                    n <= p@.len(),
                    costs_of(out@) == p@.take(i as int),
            {
                let ghost before = costs_of(out@);
                let (addr, instructions) = p[i];
                out.push(FunctionProfileEntry { address: HexValue(addr), instructions });
                assert(costs_of(out@) =~= before.push((addr, instructions)));
                assert(p@.take(i + 1) =~= before.push(p@[i as int]));
            }
            assert(costs_of(out@) =~= head(p@, top as int));
            FunctionProfileResult { enabled: true, entries: out }
        },
    }
}

/// The bytes from a place on, as many as asked for and as there are.
pub open spec fn window(bytes: Seq<u8>, start: int, len: int) -> Seq<u8> {
    if start >= bytes.len() {
        Seq::empty()
    } else if start + len <= bytes.len() {
        bytes.subrange(start, start + len)
    } else {
        bytes.skip(start)
    }
}

/// Cut the bytes a request asks for out of an image.
pub fn cut_window(bytes: &[u8], start: u32, len: u32) -> (r: Vec<u8>)
    ensures
        r@ == window(bytes@, start as int, len as int),
        r@.len() <= len,
{
    let total: usize = bytes.len();
    let from: usize = start as usize;
    if from >= total {
        return Vec::new();
    }
    let room: usize = total - from;
    let n: usize = if (len as usize) <= room {
        len as usize
    } else {
        room
    };
    let r = vstd::slice::slice_to_vec(vstd::slice::slice_subrange(bytes, from, from + n));
    assert(r@ =~= window(bytes@, start as int, len as int));
    r
}

/// A byte as a dump shows it: printable characters as they are.
pub open spec fn printable(b: u8) -> char {
    if 0x20 <= b < 0x7F {
        b as char
    } else {
        '.'
    }
}

/// Bytes as a dump shows them.
pub open spec fn dump_text(bytes: Seq<u8>) -> Seq<char> {
    Seq::new(bytes.len(), |i: int| printable(bytes[i]))
}

fn show_dump(bytes: &Vec<u8>) -> (r: String)
    ensures
        r@ == dump_text(bytes@),
{
    let mut out = String::new();
    for i in 0..bytes.len()
        invariant
            out@ == dump_text(bytes@).take(i as int),
    {
        let b: u8 = bytes[i];
        if 0x20 <= b && b < 0x7F {
            out.push(b as char);
        } else {
            out.push('.');
        }
        assert(out@ =~= dump_text(bytes@).take(i + 1));
    }
    assert(out@ =~= dump_text(bytes@));
    out
}

/// Read memory out of an image; nothing where the worker gave none.
pub fn read_memory_result(image: Option<&[u8]>, params: &ReadMemoryParams) -> (r: ReadMemoryResult)
    ensures
        r.address.0 == params.address.0,
        ({
            let bytes = match image {
                Some(b) => window(b@, params.address.0 as int, params.length.0 as int),
                None => Seq::empty(),
            };
            &&& r.length == bytes.len()
            &&& r.hex@ == crate::mcp::hex::hex_of(bytes)
            &&& r.ascii@ == dump_text(bytes)
        }),
{
    let bytes: Vec<u8> = match image {
        Some(b) => cut_window(b, params.address.0, params.length.0),
        None => Vec::new(),
    };
    ReadMemoryResult {
        address: HexValue(params.address.0),
        length: bytes.len() as u32,
        hex: bytes_to_hex(bytes.as_slice()),
        ascii: show_dump(&bytes),
    }
}

/// A cold boot is asked for by its name, in either case; anything else, or
/// nothing, asks for a warm one.
pub proof fn law_cold_boot_is_asked_for_by_name(mode: Seq<char>)
    ensures
        asked_boot_mode(None) == BootMode::Warm,
        crate::text::lowered(mode) == "cold"@ ==> asked_boot_mode(Some(mode)) == BootMode::Cold,
        crate::text::lowered(mode) != "cold"@ ==> asked_boot_mode(Some(mode)) == BootMode::Warm,
{
}

/// The head of a list is its start, no longer than asked for.
pub proof fn law_head_is_the_start<T>(s: Seq<T>, n: int, i: int)
    requires
        0 <= n,
    ensures
        head(s, n).len() <= n,
        head(s, n).len() == n || head(s, n) == s,
        0 <= i < head(s, n).len() ==> head(s, n)[i] == s[i],
{
}

/// A window gives the bytes from its start on, as many as asked for and as there
/// are.
pub proof fn law_window_gives_its_bytes(bytes: Seq<u8>, start: int, len: int, i: int)
    requires
        0 <= start,
        0 <= len,
    ensures
        window(bytes, start, len).len() <= len,
        start + len <= bytes.len() ==> window(bytes, start, len).len() == len || (start
            >= bytes.len() && len == 0),
        start < bytes.len() < start + len ==> window(bytes, start, len).len() == bytes.len()
            - start,
        start >= bytes.len() ==> window(bytes, start, len).len() == 0,
        0 <= i < window(bytes, start, len).len() ==> window(bytes, start, len)[i] == bytes[start
            + i],
{
}

/// Coverage is shown for the addresses from the start of the range to just
/// before its end, and every one of them that was hit is shown.
pub proof fn law_coverage_shows_its_range(
    sparse: Seq<(u32, u32)>,
    params: GetCoverageParams,
    i: int,
    k: int,
)
    ensures
        ({
            let shown = sparse.filter(covered(params));
            &&& 0 <= k < shown.len() ==> {
                &&& params.range_start matches Some(lo) ==> lo.0 <= shown[k].0
                &&& params.range_end matches Some(hi) ==> shown[k].0 < hi.0
            }
            &&& 0 <= i < sparse.len() && (params.range_start matches Some(lo) ==> lo.0
                <= sparse[i].0) && (params.range_end matches Some(hi) ==> sparse[i].0 < hi.0)
                && sparse[i].0 < 0xFFFF_FFFF ==> shown.contains(sparse[i])
        }),
{
    let shown = sparse.filter(covered(params));
    sparse.filter_lemma(covered(params));
    if 0 <= k < shown.len() {
        assert(covered(params)(shown[k]));
    }
    if 0 <= i < sparse.len() && (params.range_start matches Some(lo) ==> lo.0 <= sparse[i].0) && (
    params.range_end matches Some(hi) ==> sparse[i].0 < hi.0) && sparse[i].0 < 0xFFFF_FFFF {
        assert(covered(params)(sparse[i]));
    }
}

/// A dump shows a byte as its character where that can be printed, from the
/// space to the tilde, and as a dot otherwise.
pub proof fn law_dump_shows_printable_bytes(bytes: Seq<u8>, i: int)
    requires
        0 <= i < bytes.len(),
    ensures
        dump_text(bytes).len() == bytes.len(),
        ' ' as u8 <= bytes[i] <= '~' as u8 ==> dump_text(bytes)[i] == bytes[i] as char,
        !(' ' as u8 <= bytes[i] <= '~' as u8) ==> dump_text(bytes)[i] == '.',
{
}

} // verus!
