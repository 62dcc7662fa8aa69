//! Watchpoints, the trace of data reads and the log of misaligned accesses.

use vstd::prelude::*;

verus! {

/// Access direction a watchpoint triggers on.
#[derive(Clone, Copy, Debug, PartialEq, Eq, Structural)]
pub enum WatchMode {
    Read,
    Write,
    ReadWrite,
}

/// The range `[addr, addr + size)` and the accesses that trigger on it.
#[derive(Clone, Copy, Debug, PartialEq, Eq, Structural)]
pub struct Watchpoint {
    pub addr: u32,
    pub size: u32,
    pub mode: WatchMode,
}

/// The end of a range, at the end of the address space at the latest.
pub open spec fn range_end(addr: u32, size: u32) -> int {
    if addr + size > u32::MAX {
        u32::MAX as int
    } else {
        addr + size
    }
}

fn end_of(addr: u32, size: u32) -> (r: u32)
    ensures
        r == range_end(addr, size),
{
    if size > u32::MAX - addr {
        u32::MAX
    } else {
        addr + size
    }
}

impl Watchpoint {
    /// Whether an access overlaps the range in a direction that is watched.
    pub open spec fn watches(self, addr: u32, size: u32, access: WatchMode) -> bool {
        &&& addr < range_end(self.addr, self.size)
        &&& self.addr < range_end(addr, size)
        &&& self.mode is ReadWrite || (self.mode == access && !(access is ReadWrite))
    }

    pub fn matches(&self, access_addr: u32, access_size: u32, access: WatchMode) -> (r: bool)
        ensures
            r == self.watches(access_addr, access_size, access),
    {
        let a_end: u32 = end_of(access_addr, access_size);
        let w_end: u32 = end_of(self.addr, self.size);
        let overlaps: bool = access_addr < w_end && self.addr < a_end;
        let mode_match: bool = match (self.mode, access) {
            (WatchMode::ReadWrite, _) => true,
            (WatchMode::Read, WatchMode::Read) => true,
            (WatchMode::Write, WatchMode::Write) => true,
            _ => false,
        };
        overlaps && mode_match
    }
}

/// The watchpoints, as values.
#[verifier::ext_equal]
pub struct WatchState {
    pub entries: Seq<Watchpoint>,
    pub hit: Option<(u32, WatchMode)>,
}

impl WatchState {
    pub open spec fn triggers(self, addr: u32, size: u32, access: WatchMode) -> bool {
        exists|i: int|
            0 <= i < self.entries.len() && (#[trigger] self.entries[i]).watches(addr, size, access)
    }

    /// The watchpoints after they were held against an access.
    pub open spec fn checked(self, addr: u32, size: u32, access: WatchMode) -> WatchState {
        if self.triggers(addr, size, access) {
            WatchState { hit: Some((addr, access)), ..self }
        } else {
            self
        }
    }
}

/// Watchpoints and the last access that triggered one.
#[derive(Clone, Debug)]
pub struct WatchpointTable {
    pub entries: Vec<Watchpoint>,
    pub hit: Option<(u32, WatchMode)>,
}

impl View for WatchpointTable {
    type V = WatchState;

    open spec fn view(&self) -> WatchState {
        WatchState { entries: self.entries@, hit: self.hit }
    }
}

impl Default for WatchpointTable {
    fn default() -> (r: Self)
        ensures
            r@ == (WatchState { entries: Seq::empty(), hit: None }),
    {
        WatchpointTable { entries: Vec::new(), hit: None }
    }
}

impl WatchpointTable {
    pub fn new() -> (r: Self)
        ensures
            r@ == (WatchState { entries: Seq::empty(), hit: None }),
    {
        WatchpointTable { entries: Vec::new(), hit: None }
    }

    pub fn is_empty(&self) -> (r: bool)
        ensures
            r == (self@.entries.len() == 0),
    {
        self.entries.len() == 0
    }

    /// Add a watchpoint. Gives back its index.
    pub fn add(&mut self, wp: Watchpoint) -> (r: usize)
        ensures
            r == old(self)@.entries.len(),
            final(self)@ == (WatchState {
                entries: old(self)@.entries.push(wp),
                ..old(self)@
            }),
    {
        let at: usize = self.entries.len();
        self.entries.push(wp);
        at
    }

    /// Remove a watchpoint, if there is one at the index.
    pub fn remove(&mut self, index: usize)
        ensures
            final(self)@ == (if index < old(self)@.entries.len() {
                WatchState { entries: old(self)@.entries.remove(index as int), ..old(self)@ }
            } else {
                old(self)@
            }),
    {
        if index < self.entries.len() {
            self.entries.remove(index);
        }
    }

    pub fn clear(&mut self)
        ensures
            final(self)@ == (WatchState { entries: Seq::empty(), hit: None }),
    {
        self.entries.clear();
        self.hit = None;
    }

    /// Take the last access that triggered a watchpoint.
    pub fn take_hit(&mut self) -> (r: Option<(u32, WatchMode)>)
        ensures
            r == old(self)@.hit,
            final(self)@ == (WatchState { hit: None, ..old(self)@ }),
    {
        let hit = self.hit;
        self.hit = None;
        hit
    }

    /// Hold the watchpoints against an access.
    pub fn check(&mut self, addr: u32, size: u32, access: WatchMode) -> (r: bool)
        ensures
            r == old(self)@.triggers(addr, size, access),
            final(self)@ == old(self)@.checked(addr, size, access),
    {
        let n: usize = self.entries.len();
        for i in 0..n
            invariant
                n == self.entries@.len(),
                *self == *old(self),
                forall|k: int|
                    0 <= k < i ==> !(#[trigger] self.entries@[k]).watches(addr, size, access),
        {
            if self.entries[i].matches(addr, size, access) {
                self.hit = Some((addr, access));
                assert(old(self)@.entries[i as int].watches(addr, size, access));
                return true;
            }
        }
        false
    }
}

/// One misaligned data access.
#[derive(Clone, Copy, Debug, PartialEq, Eq, Structural)]
pub struct MisalignedDataHit {
    /// Where the load or store stands; zero without a peripheral bank.
    pub pc: u32,
    /// The address the instruction asked for.
    pub addr: u32,
    /// The address the core drove.
    pub ea: u32,
    /// Access width in bytes.
    pub width: u8,
    pub is_write: bool,
}

/// How many misaligned accesses are kept in detail.
pub const MISALIGNED_LOG_CAP: usize = 64;

/// The log, as values.
#[verifier::ext_equal]
pub struct MisalignedState {
    pub count: u64,
    pub hits: Seq<MisalignedDataHit>,
}

impl MisalignedState {
    /// The log after one more access: the count runs on, the detail stops.
    pub open spec fn after(self, hit: MisalignedDataHit) -> MisalignedState {
        MisalignedState {
            count: (self.count + 1) as u64,
            hits: if self.hits.len() >= MISALIGNED_LOG_CAP {
                self.hits
            } else {
                self.hits.push(hit)
            },
        }
    }
}

/// The misaligned data accesses so far. The core moves such a transfer without
/// a word, so this is where it shows.
#[derive(Clone, Debug)]
pub struct MisalignedDataLog {
    pub count: u64,
    /// The first of them.
    pub hits: Vec<MisalignedDataHit>,
}

impl View for MisalignedDataLog {
    type V = MisalignedState;

    open spec fn view(&self) -> MisalignedState {
        MisalignedState { count: self.count, hits: self.hits@ }
    }
}

impl Default for MisalignedDataLog {
    fn default() -> (r: Self)
        ensures
            r@ == (MisalignedState { count: 0, hits: Seq::empty() }),
    {
        MisalignedDataLog { count: 0, hits: Vec::new() }
    }
}

impl MisalignedDataLog {
    pub fn record(&mut self, hit: MisalignedDataHit)
        requires
            old(self)@.count < u64::MAX,
        ensures
            final(self)@ == old(self)@.after(hit),
    {
        self.count = self.count + 1;
        if self.hits.len() < MISALIGNED_LOG_CAP {
            self.hits.push(hit);
        }
    }
}

/// The trace, as values.
#[verifier::ext_equal]
pub struct TraceState {
    pub lo: u32,
    pub hi: u32,
    pub hits: Seq<(u32, u8, u32)>,
}

impl TraceState {
    /// The trace after a read, which counts inside `[lo, hi)` only.
    pub open spec fn after(self, addr: u32, size: u8, val: u32) -> TraceState {
        if self.lo <= addr < self.hi {
            TraceState { hits: self.hits.push((addr, size, val)), ..self }
        } else {
            self
        }
    }
}

/// The data reads of a region: address, width and value of each.
#[derive(Clone, Debug)]
pub struct ReadTrace {
    pub lo: u32,
    pub hi: u32,
    pub hits: Vec<(u32, u8, u32)>,
}

impl View for ReadTrace {
    type V = TraceState;

    open spec fn view(&self) -> TraceState {
        TraceState { lo: self.lo, hi: self.hi, hits: self.hits@ }
    }
}

impl Default for ReadTrace {
    fn default() -> (r: Self)
        ensures
            r@ == (TraceState { lo: 0, hi: 0, hits: Seq::empty() }),
    {
        ReadTrace { lo: 0, hi: 0, hits: Vec::new() }
    }
}

impl ReadTrace {
    pub fn record(&mut self, addr: u32, size: u8, val: u32)
        ensures
            final(self)@ == old(self)@.after(addr, size, val),
    {
        if addr >= self.lo && addr < self.hi {
            self.hits.push((addr, size, val));
        }
    }
}

/// A store that touched the watched SRAM word.
#[derive(Clone, Copy, Debug, PartialEq, Eq, Structural)]
pub struct DccmReport {
    pub offset: u32,
    pub size: u8,
    pub watch: u32,
    /// The word before the store; zero where SRAM ends inside it.
    pub old: u32,
    pub pc: u32,
    pub blink: u32,
}

/// Whether a store of `size` bytes at an offset touches the watched word.
pub open spec fn touches(offset: int, size: int, watch: u32) -> bool {
    offset < watch + 4 && offset + size > watch
}

/// The log keeps no more detail than its cap, and its count is the number of
/// accesses.
pub proof fn law_misaligned_log_is_capped(log: MisalignedState, hit: MisalignedDataHit)
    requires
        log.hits.len() <= MISALIGNED_LOG_CAP,
        log.count < u64::MAX,
    ensures
        log.after(hit).hits.len() <= MISALIGNED_LOG_CAP,
        log.after(hit).count == log.count + 1,
        log.after(hit).hits.len() >= log.hits.len(),
        forall|i: int| 0 <= i < log.hits.len() ==> #[trigger] log.after(hit).hits[i] == log.hits[i],
{
}

/// Nothing triggers a watchpoint of size zero.
pub proof fn law_empty_watchpoint_never_triggers(
    wp: Watchpoint,
    addr: u32,
    size: u32,
    access: WatchMode,
)
    requires
        wp.size == 0,
        addr >= wp.addr,
    ensures
        !wp.watches(addr, size, access),
{
}

/// A watchpoint triggers on an access of a direction exactly where it watches
/// that direction, alone or with the other one, and the two share a byte.
pub proof fn law_watchpoint_triggers_on_shared_bytes(wp: Watchpoint, addr: u32, size: u32)
    requires
        wp.addr + wp.size <= u32::MAX,
        addr + size <= u32::MAX,
        wp.size > 0,
        size > 0,
    ensures
        ({
            let shared = exists|b: int|
                wp.addr <= b < wp.addr + wp.size && #[trigger] in_run(b, addr, size);
            &&& wp.watches(addr, size, WatchMode::Read) <==> shared && wp.mode != WatchMode::Write
            &&& wp.watches(addr, size, WatchMode::Write) <==> shared && wp.mode != WatchMode::Read
            &&& wp.watches(addr, size, WatchMode::ReadWrite) <==> shared && wp.mode
                == WatchMode::ReadWrite
        }),
{
    if wp.addr <= addr < wp.addr + wp.size {
        assert(in_run(addr as int, addr, size));
    }
    if addr <= wp.addr < addr + size {
        assert(in_run(wp.addr as int, addr, size));
    }
}

/// Whether an address is one of a run of bytes.
pub open spec fn in_run(b: int, addr: u32, size: u32) -> bool {
    addr <= b < addr + size
}

/// A range that would run past the end of the address space ends just before
/// its last byte; a watchpoint on the first byte of an access always sees it.
pub proof fn law_watchpoint_sees_its_first_byte(wp: Watchpoint, size: u32)
    requires
        wp.size > 0,
        size > 0,
        wp.addr < u32::MAX,
    ensures
        wp.mode != WatchMode::Write ==> wp.watches(wp.addr, size, WatchMode::Read),
        wp.mode != WatchMode::Read ==> wp.watches(wp.addr, size, WatchMode::Write),
{
}

/// A hit is recorded exactly where some watchpoint triggers, and is then the
/// access that was made; the watchpoints themselves stay.
pub proof fn law_hit_names_the_access(s: WatchState, addr: u32, size: u32, access: WatchMode)
    ensures
        s.checked(addr, size, access).entries == s.entries,
        (exists|i: int|
            0 <= i < s.entries.len() && (#[trigger] s.entries[i]).watches(addr, size, access))
            ==> s.checked(addr, size, access).hit == Some((addr, access)),
        (forall|i: int|
            0 <= i < s.entries.len() ==> !(#[trigger] s.entries[i]).watches(addr, size, access))
            ==> s.checked(addr, size, access).hit == s.hit,
{
}

/// The first 64 misaligned accesses are kept, each as it came.
pub proof fn law_first_misaligned_accesses_are_kept(log: MisalignedState, hit: MisalignedDataHit)
    ensures
        log.hits.len() < 64 ==> log.after(hit).hits == log.hits.push(hit),
        log.hits.len() >= 64 ==> log.after(hit).hits == log.hits,
{
}

/// A read is traced exactly where its address lies inside the region.
pub proof fn law_trace_keeps_the_region(t: TraceState, addr: u32, size: u8, val: u32)
    ensures
        t.after(addr, size, val).hits.len() == t.hits.len() + (if t.lo <= addr && addr < t.hi {
            1int
        } else {
            0
        }),
        t.lo <= addr < t.hi ==> t.after(addr, size, val).hits.last() == (addr, size, val),
        forall|i: int| 0 <= i < t.hits.len() ==> #[trigger] t.after(addr, size, val).hits[i] == t.hits[i],
{
}

/// A store touches the watched word exactly where they share a byte.
pub proof fn law_touching_is_sharing_a_byte(offset: int, size: int, watch: u32)
    requires
        size > 0,
    ensures
        touches(offset, size, watch) <==> exists|b: int|
            offset <= b < offset + size && #[trigger] in_run(b, watch, 4),
{
    if touches(offset, size, watch) {
        if offset >= watch {
            assert(in_run(offset, watch, 4));
        } else {
            assert(in_run(watch as int, watch, 4));
        }
    }
}

} // verus!
