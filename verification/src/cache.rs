//! The two caches in front of SRAM.
//!
//! The data cache has 4 KB in 64 sets of two ways, lines of 32 bytes, and is
//! write-back: a store changes the line and marks it, and memory sees it when
//! the line leaves. The way to leave goes round in each set. The instruction
//! cache has 4 KB in 128 single lines and is never written by the core.

use vstd::prelude::*;

verus! {

/// Sets of the data cache.
pub const DC_SETS: usize = 64;

/// Lines of either cache.
pub const CACHE_LINES: usize = 128;

/// Bytes of a data-cache line.
pub const DC_LINE_SIZE: usize = 32;

/// Bytes of an instruction-cache line.
pub const IC_LINE_SIZE: usize = 32;

/// The control word after reset: enabled, and an invalidate writes back.
pub const DC_CTRL_RESET: u32 = 0xC2;

/// Set while the data cache is off.
pub const DC_CTRL_DISABLE: u32 = 0x01;

/// Set while an invalidate writes marked lines back.
pub const DC_CTRL_FLUSH: u32 = 0x40;

/// A line, as values.
#[verifier::ext_equal]
pub struct LineView {
    pub valid: bool,
    pub dirty: bool,
    pub addr: u32,
    pub data: Seq<u8>,
}

impl LineView {
    /// Whether the line holds the bytes of an address.
    pub open spec fn covers(self, addr: u32) -> bool {
        self.valid && self.addr == line_base(addr)
    }

    pub open spec fn dropped(self) -> LineView {
        LineView { valid: false, dirty: false, ..self }
    }
}

/// The line an address lies in.
pub open spec fn line_base(addr: u32) -> u32 {
    (addr - addr % 32) as u32
}

/// The set an address falls into.
pub open spec fn set_of(addr: u32) -> int {
    addr as int / 32 % 64
}

/// The single line of the instruction cache an address falls into.
pub open spec fn slot_of(addr: u32) -> int {
    addr as int / 32 % 128
}

fn base_of(addr: u32) -> (r: u32)
    ensures
        r == line_base(addr),
{
    addr - addr % 32
}

/// One line of a cache.
#[derive(Clone, Copy, Debug)]
pub struct Line {
    pub valid: bool,
    pub dirty: bool,
    pub addr: u32,
    pub data: [u8; 32],
}

impl View for Line {
    type V = LineView;

    open spec fn view(&self) -> LineView {
        LineView { valid: self.valid, dirty: self.dirty, addr: self.addr, data: self.data@ }
    }
}

impl Line {
    pub fn empty() -> (r: Self)
        ensures
            r@ == empty_line(),
    {
        let r = Line { valid: false, dirty: false, addr: 0, data: [0u8; 32] };
        assert(r@ =~= empty_line());
        r
    }
}

/// A line that holds nothing.
pub open spec fn empty_line() -> LineView {
    LineView { valid: false, dirty: false, addr: 0, data: Seq::new(32, |i: int| 0u8) }
}

/// A list of lines, as values.
pub open spec fn line_views(lines: Seq<Line>) -> Seq<LineView> {
    Seq::new(lines.len(), |i: int| lines[i]@)
}

/// The data cache, as values.
#[verifier::ext_equal]
pub struct DcState {
    /// Two ways per set, set by set.
    pub lines: Seq<LineView>,
    /// The way to leave next, set by set.
    pub next: Seq<u8>,
    pub ctrl: u32,
    pub ram_addr: u32,
}

impl DcState {
    pub open spec fn line_wf(self, i: int) -> bool {
        let line = self.lines[i];
        &&& line.data.len() == 32
        &&& line.addr % 32 == 0
        &&& line.valid ==> set_of(line.addr) == i / 2
    }

    pub open spec fn set_wf(self, s: int) -> bool {
        &&& self.next[s] <= 1
        &&& self.lines[2 * s].valid && self.lines[2 * s + 1].valid ==> self.lines[2 * s].addr
            != self.lines[2 * s + 1].addr
    }

    /// Every line stands in its set, and no address has two.
    pub open spec fn wf(self) -> bool {
        &&& self.lines.len() == 128
        &&& self.next.len() == 64
        &&& forall|i: int| 0 <= i < 128 ==> #[trigger] self.line_wf(i)
        &&& forall|s: int| 0 <= s < 64 ==> #[trigger] self.set_wf(s)
    }

    pub open spec fn enabled(self) -> bool {
        self.ctrl & DC_CTRL_DISABLE == 0
    }

    /// Whether an invalidate writes marked lines back.
    pub open spec fn flushes(self) -> bool {
        self.ctrl & DC_CTRL_FLUSH != 0
    }

    /// The line that holds an address, if one does.
    pub open spec fn hit(self, addr: u32) -> Option<int> {
        let w = 2 * set_of(addr);
        if self.lines[w].covers(addr) {
            Some(w)
        } else if self.lines[w + 1].covers(addr) {
            Some(w + 1)
        } else {
            None
        }
    }

    /// The byte the cache holds for an address. While it is off it answers
    /// nothing.
    pub open spec fn cached(self, addr: u32) -> Option<u8> {
        match self.hit(addr) {
            Some(i) => if self.enabled() {
                Some(self.lines[i].data[addr as int % 32])
            } else {
                None
            },
            None => None,
        }
    }

    /// The cache after a byte is stored in the line that holds it.
    pub open spec fn stored(self, addr: u32, val: u8) -> DcState {
        match self.hit(addr) {
            Some(i) => if self.enabled() {
                let line = self.lines[i];
                DcState {
                    lines: self.lines.update(
                        i,
                        LineView {
                            dirty: true,
                            data: line.data.update(addr as int % 32, val),
                            ..line
                        },
                    ),
                    ..self
                }
            } else {
                self
            },
            None => self,
        }
    }

    /// The line that leaves when an address comes in.
    pub open spec fn victim(self, addr: u32) -> int {
        2 * set_of(addr) + self.next[set_of(addr)]
    }

    /// The cache after a line comes in.
    pub open spec fn filled(self, addr: u32, data: Seq<u8>) -> DcState {
        DcState {
            lines: self.lines.update(
                self.victim(addr),
                LineView { valid: true, dirty: false, addr: line_base(addr), data },
            ),
            next: self.next.update(set_of(addr), (1 - self.next[set_of(addr)]) as u8),
            ..self
        }
    }

    /// The cache without the line that holds an address.
    pub open spec fn without(self, addr: u32) -> DcState {
        match self.hit(addr) {
            Some(i) => DcState {
                lines: self.lines.update(i, self.lines[i].dropped()),
                ..self
            },
            None => self,
        }
    }

    /// What must go back to memory when the line of an address is dropped.
    pub open spec fn owed(self, addr: u32) -> Option<(u32, Seq<u8>)> {
        match self.hit(addr) {
            Some(i) => if self.lines[i].dirty && self.flushes() {
                Some((self.lines[i].addr, self.lines[i].data))
            } else {
                None
            },
            None => None,
        }
    }

    /// The cache with no line in it.
    pub open spec fn emptied(self) -> DcState {
        DcState { lines: Seq::new(128, |i: int| self.lines[i].dropped()), ..self }
    }

    /// What the first `n` lines owe to memory, in order.
    pub open spec fn all_owed(self, n: nat) -> Seq<(u32, Seq<u8>)>
        decreases n,
    {
        if n == 0 {
            Seq::empty()
        } else {
            let rest = self.all_owed((n - 1) as nat);
            let line = self.lines[n - 1];
            if line.valid && line.dirty && self.flushes() {
                rest.push((line.addr, line.data))
            } else {
                rest
            }
        }
    }

    /// The cache after memory changed under a line: a marked line stands, an
    /// unmarked one is dropped.
    pub open spec fn overwritten(self, addr: u32) -> DcState {
        match self.hit(addr) {
            Some(i) => if self.lines[i].dirty {
                self
            } else {
                self.without(addr)
            },
            None => self,
        }
    }

    /// The line the direct-access window stands at.
    pub open spec fn window_line(self) -> LineView {
        self.lines[self.ram_addr as int / 32 % 128]
    }

    /// The tag word of that line: its address, whether it is valid in bit 0 and
    /// whether it is marked in bit 1.
    pub open spec fn tag_word(self) -> u32 {
        let line = self.window_line();
        (line.addr + (if line.valid {
            1int
        } else {
            0
        }) + (if line.dirty {
            2int
        } else {
            0
        })) as u32
    }

    /// The word of that line the window stands at, high byte first.
    pub open spec fn data_word(self) -> u32 {
        let line = self.window_line();
        let at = self.ram_addr as int % 32 / 4 * 4;
        word_of(line.data[at], line.data[at + 1], line.data[at + 2], line.data[at + 3])
    }

    pub open spec fn reset() -> DcState {
        DcState {
            lines: Seq::new(128, |i: int| empty_line()),
            next: Seq::new(64, |i: int| 0u8),
            ctrl: DC_CTRL_RESET,
            ram_addr: 0,
        }
    }
}

/// Four bytes as a word, high byte first.
pub open spec fn word_of(b0: u8, b1: u8, b2: u8, b3: u8) -> u32 {
    ((b0 as u32) << 24) | ((b1 as u32) << 16) | ((b2 as u32) << 8) | (b3 as u32)
}

/// Two bytes as a half-word, high byte first.
pub open spec fn half_of(b0: u8, b1: u8) -> u16 {
    ((b0 as u16) << 8) | (b1 as u16)
}

/// A line that left marked.
#[derive(Clone, Copy, Debug)]
pub struct EvictedLine {
    pub addr: u32,
    pub data: [u8; 32],
}

impl View for EvictedLine {
    type V = (u32, Seq<u8>);

    open spec fn view(&self) -> (u32, Seq<u8>) {
        (self.addr, self.data@)
    }
}

/// A line of the data cache, for display.
#[derive(Clone, Copy, Debug)]
pub struct DCacheLineInfo {
    pub set: usize,
    pub way: usize,
    pub valid: bool,
    pub dirty: bool,
    pub addr: u32,
    pub data: [u8; 32],
}

/// What of the data cache is saved.
#[derive(Clone, Debug)]
pub struct DcacheSaveState {
    pub lines: Vec<Line>,
    pub next: Vec<u8>,
    pub ctrl: u32,
    pub ram_addr: u32,
}

impl View for DcacheSaveState {
    type V = DcState;

    open spec fn view(&self) -> DcState {
        DcState {
            lines: line_views(self.lines@),
            next: self.next@,
            ctrl: self.ctrl,
            ram_addr: self.ram_addr,
        }
    }
}

#[derive(Clone, Debug)]
pub struct DCache {
    pub lines: Vec<Line>,
    pub next: Vec<u8>,
    pub ctrl: u32,
    pub ram_addr: u32,
}

impl View for DCache {
    type V = DcState;

    open spec fn view(&self) -> DcState {
        DcState {
            lines: line_views(self.lines@),
            next: self.next@,
            ctrl: self.ctrl,
            ram_addr: self.ram_addr,
        }
    }
}

impl DCache {
    pub open spec fn wf(&self) -> bool {
        self@.wf()
    }

    pub fn new() -> (r: Self)
        ensures
            r.wf(),
            r@ == DcState::reset(),
    {
        let r = DCache {
            lines: vec![Line::empty(); 128],
            next: vec![0u8; 64],
            ctrl: DC_CTRL_RESET,
            ram_addr: 0,
        };
        assert(r@ =~= DcState::reset());
        r
    }

    pub fn is_enabled(&self) -> (r: bool)
        ensures
            r == self@.enabled(),
    {
        self.ctrl & DC_CTRL_DISABLE == 0
    }

    fn find(&self, addr: u32) -> (r: Option<usize>)
        requires
            self.wf(),
        ensures
            r is Some <==> self@.hit(addr) is Some,
            r matches Some(i) ==> i == self@.hit(addr)->0 && i < 128 && self@.line_wf(i as int)
                && self@.lines[i as int].covers(addr),
    {
        let w: usize = 2 * ((addr / 32) as usize % 64);
        let base: u32 = base_of(addr);
        assert(self@.line_wf(w as int) && self@.line_wf(w + 1));
        if self.lines[w].valid && self.lines[w].addr == base {
            Some(w)
        } else if self.lines[w + 1].valid && self.lines[w + 1].addr == base {
            Some(w + 1)
        } else {
            None
        }
    }

    /// Whether a line holds an address.
    pub fn contains(&self, addr: u32) -> (r: bool)
        requires
            self.wf(),
        ensures
            r == (self@.hit(addr) is Some),
    {
        self.find(addr).is_some()
    }

    /// The byte an address holds here, if it does.
    pub fn peek_byte(&self, addr: u32) -> (r: Option<u8>)
        requires
            self.wf(),
        ensures
            r == self@.cached(addr),
    {
        if !self.is_enabled() {
            return None;
        }
        match self.find(addr) {
            Some(i) => Some(self.lines[i].data[(addr % 32) as usize]),
            None => None,
        }
    }

    /// The byte a load sees.
    pub fn read_byte(&self, addr: u32) -> (r: Option<u8>)
        requires
            self.wf(),
        ensures
            r == self@.cached(addr),
    {
        self.peek_byte(addr)
    }

    /// Store a byte in the line that holds it, and mark the line.
    pub fn write_byte(&mut self, addr: u32, val: u8)
        requires
            old(self).wf(),
        ensures
            final(self).wf(),
            final(self)@ == old(self)@.stored(addr, val),
    {
        if !self.is_enabled() {
            return;
        }
        match self.find(addr) {
            Some(i) => {
                let mut line: Line = self.lines[i];
                line.data[(addr % 32) as usize] = val;
                line.dirty = true;
                self.lines.set(i, line);
                assert(self@ =~= old(self)@.stored(addr, val));
                proof {
                    lemma_line_changed(old(self)@, self@, i as int);
                }
            },
            None => {},
        }
    }

    /// Bring a line in. Gives back the line that left, if it was marked.
    pub fn fill_line(&mut self, addr: u32, data: &[u8; 32]) -> (r: Option<EvictedLine>)
        requires
            old(self).wf(),
            old(self)@.hit(addr) is None,
        ensures
            final(self).wf(),
            final(self)@ == old(self)@.filled(addr, data@),
            ({
                let out = old(self)@.lines[old(self)@.victim(addr)];
                &&& r is Some <==> out.valid && out.dirty
                &&& r matches Some(ev) ==> ev@ == (out.addr, out.data)
            }),
    {
        let s: usize = (addr / 32) as usize % 64;
        assert(self@.set_wf(s as int));
        let way: u8 = self.next[s];
        let i: usize = 2 * s + way as usize;
        let out: Line = self.lines[i];
        let line = Line { valid: true, dirty: false, addr: base_of(addr), data: *data };
        self.lines.set(i, line);
        self.next.set(s, 1 - way);
        proof {
            assert(self@ =~= old(self)@.filled(addr, data@));
            lemma_filled_wf(old(self)@, addr, data@);
        }
        if out.valid && out.dirty {
            Some(EvictedLine { addr: out.addr, data: out.data })
        } else {
            None
        }
    }

    fn drop_at(&mut self, i: usize)
        requires
            old(self).wf(),
            i < 128,
        ensures
            final(self).wf(),
            final(self)@ == (DcState {
                lines: old(self)@.lines.update(i as int, old(self)@.lines[i as int].dropped()),
                ..old(self)@
            }),
    {
        let mut line: Line = self.lines[i];
        line.valid = false;
        line.dirty = false;
        self.lines.set(i, line);
        assert(self@.lines =~= old(self)@.lines.update(
            i as int,
            old(self)@.lines[i as int].dropped(),
        ));
        proof {
            assert(old(self)@.line_wf(i as int));
            lemma_line_changed(old(self)@, self@, i as int);
        }
    }

    /// Drop the line of an address. Gives it back if it must go to memory.
    pub fn invalidate_line(&mut self, addr: u32) -> (r: Option<EvictedLine>)
        requires
            old(self).wf(),
        ensures
            final(self).wf(),
            final(self)@ == old(self)@.without(addr),
            r is Some <==> old(self)@.owed(addr) is Some,
            r matches Some(ev) ==> ev@ == old(self)@.owed(addr)->0,
    {
        match self.find(addr) {
            Some(i) => {
                let line: Line = self.lines[i];
                let flush: bool = self.ctrl & DC_CTRL_FLUSH != 0;
                self.drop_at(i);
                if line.dirty && flush {
                    Some(EvictedLine { addr: line.addr, data: line.data })
                } else {
                    None
                }
            },
            None => None,
        }
    }

    /// Drop every line. Gives back those that must go to memory.
    pub fn invalidate_all(&mut self) -> (r: Vec<EvictedLine>)
        requires
            old(self).wf(),
        ensures
            final(self).wf(),
            final(self)@ == old(self)@.emptied(),
            r@.map_values(|e: EvictedLine| e@) == old(self)@.all_owed(128),
    {
        let flush: bool = self.ctrl & DC_CTRL_FLUSH != 0;
        let mut out: Vec<EvictedLine> = Vec::new();
        assert(out@.map_values(|e: EvictedLine| e@) =~= old(self)@.all_owed(0));
        for i in 0..128usize
            invariant
                self.wf(),
                flush == old(self)@.flushes(),
                self.ctrl == old(self).ctrl,
                self.ram_addr == old(self).ram_addr,
                self.next@ == old(self).next@,
                forall|k: int| 0 <= k < i ==> #[trigger] self@.lines[k] == old(self)@.lines[k].dropped(),
                forall|k: int| i <= k < 128 ==> #[trigger] self@.lines[k] == old(self)@.lines[k],
                out@.map_values(|e: EvictedLine| e@) == old(self)@.all_owed(i as nat),
        {
            let line: Line = self.lines[i];
            assert(line@ == self@.lines[i as int]);
            if line.valid && line.dirty && flush {
                let ghost before = out@;
                out.push(EvictedLine { addr: line.addr, data: line.data });
                assert(out@.map_values(|e: EvictedLine| e@) =~= before.map_values(
                    |e: EvictedLine| e@,
                ).push((line.addr, line.data@)));
            }
            self.drop_at(i);
        }
        assert(self@.lines =~= old(self)@.emptied().lines);
        out
    }

    /// Memory changed under a line: drop it unless it is marked.
    pub fn dma_sram_overwrite(&mut self, addr: u32)
        requires
            old(self).wf(),
        ensures
            final(self).wf(),
            final(self)@ == old(self)@.overwritten(addr),
    {
        match self.find(addr) {
            Some(i) => {
                if !self.lines[i].dirty {
                    self.drop_at(i);
                }
            },
            None => {},
        }
    }

    pub fn read_dc_ctrl(&self) -> (r: u32)
        ensures
            r == self@.ctrl,
    {
        self.ctrl
    }

    /// Set the control word. The lines stand as they are.
    pub fn write_dc_ctrl(&mut self, val: u32)
        requires
            old(self).wf(),
        ensures
            final(self).wf(),
            final(self)@ == (DcState { ctrl: val, ..old(self)@ }),
    {
        self.ctrl = val;
        proof {
            lemma_same_lines(old(self)@, self@);
        }
    }

    /// Point the direct-access window somewhere.
    pub fn set_ram_addr(&mut self, addr: u32)
        requires
            old(self).wf(),
        ensures
            final(self).wf(),
            final(self)@ == (DcState { ram_addr: addr, ..old(self)@ }),
    {
        self.ram_addr = addr;
        proof {
            lemma_same_lines(old(self)@, self@);
        }
    }

    /// The tag word the window stands at.
    pub fn read_tag(&self) -> (r: u32)
        requires
            self.wf(),
        ensures
            r == self@.tag_word(),
    {
        let line: Line = self.lines[(self.ram_addr / 32) as usize % 128];
        assert(line@ == self@.window_line());
        assert(self@.line_wf(self.ram_addr as int / 32 % 128));
        line.addr + (if line.valid {
            1
        } else {
            0
        }) + (if line.dirty {
            2
        } else {
            0
        })
    }

    /// The data word the window stands at.
    pub fn read_data(&self) -> (r: u32)
        requires
            self.wf(),
        ensures
            r == self@.data_word(),
    {
        let line: Line = self.lines[(self.ram_addr / 32) as usize % 128];
        let at: usize = (self.ram_addr % 32) as usize / 4 * 4;
        assert(line@ == self@.window_line());
        ((line.data[at] as u32) << 24) | ((line.data[at + 1] as u32) << 16) | ((line.data[at
            + 2] as u32) << 8) | (line.data[at + 3] as u32)
    }

    /// Every line, for display.
    pub fn snapshot_lines(&self) -> (r: Vec<DCacheLineInfo>)
        requires
            self.wf(),
        ensures
            r@.len() == 128,
            forall|i: int|
                0 <= i < 128 ==> (#[trigger] r@[i]).set == i / 2 && r@[i].way == i % 2 && (LineView {
                    valid: r@[i].valid,
                    dirty: r@[i].dirty,
                    addr: r@[i].addr,
                    data: r@[i].data@,
                }) == self@.lines[i],
    {
        let mut out: Vec<DCacheLineInfo> = Vec::new();
        for i in 0..128usize
            invariant
                self.wf(),
                out@.len() == i,
                forall|k: int|
                    0 <= k < i ==> (#[trigger] out@[k]).set == k / 2 && out@[k].way == k % 2 && (
                    LineView {
                        valid: out@[k].valid,
                        dirty: out@[k].dirty,
                        addr: out@[k].addr,
                        data: out@[k].data@,
                    }) == self@.lines[k],
        {
            let line: Line = self.lines[i];
            assert(line@ == self@.lines[i as int]);
            out.push(
                DCacheLineInfo {
                    set: i / 2,
                    way: i % 2,
                    valid: line.valid,
                    dirty: line.dirty,
                    addr: line.addr,
                    data: line.data,
                },
            );
        }
        out
    }

    pub fn save_state(&self) -> (r: DcacheSaveState)
        ensures
            r@ == self@,
    {
        let r = DcacheSaveState {
            lines: vstd::slice::slice_to_vec(self.lines.as_slice()),
            next: vstd::slice::slice_to_vec(self.next.as_slice()),
            ctrl: self.ctrl,
            ram_addr: self.ram_addr,
        };
        assert(r@ =~= self@);
        r
    }

    pub fn restore_state(&mut self, state: DcacheSaveState)
        requires
            state@.wf(),
        ensures
            final(self).wf(),
            final(self)@ == state@,
    {
        self.lines = state.lines;
        self.next = state.next;
        self.ctrl = state.ctrl;
        self.ram_addr = state.ram_addr;
        proof {
            lemma_same_lines(state@, self@);
        }
    }
}

proof fn lemma_same_lines(a: DcState, b: DcState)
    requires
        a.wf(),
        a.lines == b.lines,
        a.next == b.next,
    ensures
        b.wf(),
{
    assert forall|i: int| 0 <= i < 128 implies #[trigger] b.line_wf(i) by {
        assert(a.line_wf(i));
    }
    assert forall|s: int| 0 <= s < 64 implies #[trigger] b.set_wf(s) by {
        assert(a.set_wf(s));
    }
}

/// A line that keeps its address, or is dropped, keeps the cache in order.
pub proof fn lemma_line_changed(a: DcState, b: DcState, i: int)
    requires
        a.wf(),
        0 <= i < 128,
        b.next == a.next,
        b.lines == a.lines.update(i, b.lines[i]),
        b.lines[i].data.len() == 32,
        b.lines[i].valid ==> a.lines[i].valid,
        b.lines[i].addr == a.lines[i].addr,
    ensures
        b.wf(),
{
    assert forall|k: int| 0 <= k < 128 implies #[trigger] b.line_wf(k) by {
        assert(a.line_wf(k));
    }
    assert forall|s: int| 0 <= s < 64 implies #[trigger] b.set_wf(s) by {
        assert(a.set_wf(s));
    }
}

pub proof fn lemma_filled_wf(a: DcState, addr: u32, data: Seq<u8>)
    requires
        a.wf(),
        a.hit(addr) is None,
        data.len() == 32,
    ensures
        a.filled(addr, data).wf(),
{
    let b = a.filled(addr, data);
    let s = set_of(addr);
    assert(a.set_wf(s));
    assert(a.line_wf(2 * s) && a.line_wf(2 * s + 1));
    assert forall|k: int| 0 <= k < 128 implies #[trigger] b.line_wf(k) by {
        assert(a.line_wf(k));
    }
    assert forall|t: int| 0 <= t < 64 implies #[trigger] b.set_wf(t) by {
        assert(a.set_wf(t));
    }
}

/// Addresses of one line share its base, its set and its slot.
pub proof fn lemma_same_line(addr: u32, k: int)
    requires
        0 <= k,
        addr as int % 32 + k < 32,
    ensures
        addr + k <= u32::MAX,
        (addr + k) as u32 as int % 32 == addr as int % 32 + k,
        line_base((addr + k) as u32) == line_base(addr),
        set_of((addr + k) as u32) == set_of(addr),
        slot_of((addr + k) as u32) == slot_of(addr),
{
    let q = addr as int / 32;
    let m = addr as int % 32;
    assert(addr == 32 * q + m);
    assert((32 * q + (m + k)) / 32 == q && (32 * q + (m + k)) % 32 == m + k);
}

/// The instruction cache, as values.
#[verifier::ext_equal]
pub struct IcState {
    pub lines: Seq<LineView>,
    pub enabled: bool,
}

impl IcState {
    pub open spec fn line_wf(self, i: int) -> bool {
        let line = self.lines[i];
        line.data.len() == 32 && (line.valid ==> line.addr % 32 == 0 && slot_of(line.addr) == i)
    }

    pub open spec fn wf(self) -> bool {
        self.lines.len() == 128 && forall|i: int| 0 <= i < 128 ==> #[trigger] self.line_wf(i)
    }

    pub open spec fn holds(self, addr: u32) -> bool {
        self.lines[slot_of(addr)].covers(addr)
    }

    pub open spec fn byte(self, addr: u32) -> u8 {
        self.lines[slot_of(addr)].data[addr as int % 32]
    }

    pub open spec fn filled(self, addr: u32, data: Seq<u8>) -> IcState {
        IcState {
            lines: self.lines.update(
                slot_of(addr),
                LineView { valid: true, dirty: false, addr: line_base(addr), data },
            ),
            ..self
        }
    }

    pub open spec fn without(self, addr: u32) -> IcState {
        if self.holds(addr) {
            IcState {
                lines: self.lines.update(slot_of(addr), self.lines[slot_of(addr)].dropped()),
                ..self
            }
        } else {
            self
        }
    }

    pub open spec fn emptied(self) -> IcState {
        IcState { lines: Seq::new(128, |i: int| self.lines[i].dropped()), ..self }
    }

    pub open spec fn reset() -> IcState {
        IcState { lines: Seq::new(128, |i: int| empty_line()), enabled: true }
    }
}

/// What of the instruction cache is saved.
#[derive(Clone, Debug)]
pub struct IcacheSaveState {
    pub lines: Vec<Line>,
    pub enabled: bool,
}

impl View for IcacheSaveState {
    type V = IcState;

    open spec fn view(&self) -> IcState {
        IcState { lines: line_views(self.lines@), enabled: self.enabled }
    }
}

#[derive(Clone, Debug)]
pub struct ICache {
    pub lines: Vec<Line>,
    pub enabled: bool,
}

impl View for ICache {
    type V = IcState;

    open spec fn view(&self) -> IcState {
        IcState { lines: line_views(self.lines@), enabled: self.enabled }
    }
}

impl ICache {
    pub open spec fn wf(&self) -> bool {
        self@.wf()
    }

    pub fn new() -> (r: Self)
        ensures
            r.wf(),
            r@ == IcState::reset(),
    {
        let r = ICache { lines: vec![Line::empty(); 128], enabled: true };
        assert(r@ =~= IcState::reset());
        r
    }

    pub fn is_enabled(&self) -> (r: bool)
        ensures
            r == self@.enabled,
    {
        self.enabled
    }

    pub fn contains(&self, addr: u32) -> (r: bool)
        requires
            self.wf(),
        ensures
            r == self@.holds(addr),
    {
        let i: usize = (addr / 32) as usize % 128;
        assert(self.lines@[i as int]@ == self@.lines[i as int]);
        self.lines[i].valid && self.lines[i].addr == base_of(addr)
    }

    /// The half-word a line holds at an even address.
    pub fn peek_half(&self, addr: u32) -> (r: Option<u16>)
        requires
            self.wf(),
            addr % 2 == 0,
        ensures
            r == (if self@.holds(addr) {
                Some(half_of(self@.byte(addr), self@.byte((addr + 1) as u32)))
            } else {
                None
            }),
    {
        if self.contains(addr) {
            let i: usize = (addr / 32) as usize % 128;
            let at: usize = (addr % 32) as usize;
            assert(self@.line_wf(i as int));
            proof {
                lemma_same_line(addr, 1);
            }
            let (b0, b1) = (self.lines[i].data[at], self.lines[i].data[at + 1]);
            Some(((b0 as u16) << 8) | (b1 as u16))
        } else {
            None
        }
    }

    /// The word a line holds at an even address, where it holds all of it.
    pub fn peek_word(&self, addr: u32) -> (r: Option<u32>)
        requires
            self.wf(),
            addr % 32 <= 28,
        ensures
            r == (if self@.holds(addr) {
                Some(
                    word_of(
                        self@.byte(addr),
                        self@.byte((addr + 1) as u32),
                        self@.byte((addr + 2) as u32),
                        self@.byte((addr + 3) as u32),
                    ),
                )
            } else {
                None
            }),
    {
        if self.contains(addr) {
            let i: usize = (addr / 32) as usize % 128;
            let at: usize = (addr % 32) as usize;
            assert(self@.line_wf(i as int));
            proof {
                lemma_same_line(addr, 1);
                lemma_same_line(addr, 2);
                lemma_same_line(addr, 3);
            }
            let line: Line = self.lines[i];
            Some(
                ((line.data[at] as u32) << 24) | ((line.data[at + 1] as u32) << 16) | ((line.data[at
                    + 2] as u32) << 8) | (line.data[at + 3] as u32),
            )
        } else {
            None
        }
    }

    pub fn fill_line(&mut self, addr: u32, data: &[u8; 32])
        requires
            old(self).wf(),
        ensures
            final(self).wf(),
            final(self)@ == old(self)@.filled(addr, data@),
    {
        let i: usize = (addr / 32) as usize % 128;
        self.lines.set(i, Line { valid: true, dirty: false, addr: base_of(addr), data: *data });
        assert(self@ =~= old(self)@.filled(addr, data@));
        assert forall|k: int| 0 <= k < 128 implies #[trigger] self@.line_wf(k) by {
            assert(old(self)@.line_wf(k));
        }
    }

    pub fn invalidate_line(&mut self, addr: u32)
        requires
            old(self).wf(),
        ensures
            final(self).wf(),
            final(self)@ == old(self)@.without(addr),
    {
        if self.contains(addr) {
            let i: usize = (addr / 32) as usize % 128;
            let mut line: Line = self.lines[i];
            line.valid = false;
            line.dirty = false;
            self.lines.set(i, line);
            assert(self@ =~= old(self)@.without(addr));
            assert forall|k: int| 0 <= k < 128 implies #[trigger] self@.line_wf(k) by {
                assert(old(self)@.line_wf(k));
            }
        }
    }

    pub fn invalidate_all(&mut self)
        requires
            old(self).wf(),
        ensures
            final(self).wf(),
            final(self)@ == old(self)@.emptied(),
    {
        for i in 0..128usize
            invariant
                self.lines@.len() == 128,
                old(self).lines@.len() == 128,
                self.enabled == old(self).enabled,
                forall|k: int| 0 <= k < i ==> (#[trigger] self.lines@[k])@ == old(self).lines@[k]@.dropped(),
                forall|k: int| i <= k < 128 ==> #[trigger] self.lines@[k] == old(self).lines@[k],
        {
            let mut line: Line = self.lines[i];
            line.valid = false;
            line.dirty = false;
            self.lines.set(i, line);
            assert(self.lines@[i as int]@ =~= old(self).lines@[i as int]@.dropped());
        }
        assert(self@ =~= old(self)@.emptied());
        assert forall|k: int| 0 <= k < 128 implies #[trigger] self@.line_wf(k) by {
            assert(old(self)@.line_wf(k));
        }
    }

    pub fn save_state(&self) -> (r: IcacheSaveState)
        ensures
            r@ == self@,
    {
        let r = IcacheSaveState {
            lines: vstd::slice::slice_to_vec(self.lines.as_slice()),
            enabled: self.enabled,
        };
        assert(r@ =~= self@);
        r
    }

    pub fn restore_state(&mut self, state: IcacheSaveState)
        requires
            state@.wf(),
        ensures
            final(self).wf(),
            final(self)@ == state@,
    {
        self.lines = state.lines;
        self.enabled = state.enabled;
        assert forall|k: int| 0 <= k < 128 implies #[trigger] self@.line_wf(k) by {
            assert(state@.line_wf(k));
        }
    }
}

/// A byte stored in a line that holds it reads back, and every other byte the
/// cache holds keeps its value.
pub proof fn law_stored_byte_reads_back(dc: DcState, addr: u32, val: u8, other: u32)
    requires
        dc.wf(),
        dc.enabled(),
        dc.hit(addr) is Some,
    ensures
        dc.stored(addr, val).cached(addr) == Some(val),
        other != addr ==> dc.stored(addr, val).cached(other) == dc.cached(other),
{
    let i = dc.hit(addr)->0;
    assert(dc.line_wf(i));
    let after = dc.stored(addr, val);
    let w = 2 * set_of(other);
    assert(dc.line_wf(w) && dc.line_wf(w + 1));
    assert(after.lines[w].covers(other) == dc.lines[w].covers(other));
    assert(after.lines[w + 1].covers(other) == dc.lines[w + 1].covers(other));
}

/// Turning the cache off hides its lines and writes none of them back.
pub proof fn law_disabling_strands_the_lines(dc: DcState, val: u32, addr: u32)
    requires
        val & 1 != 0,
    ensures
        (DcState { ctrl: val, ..dc }).cached(addr) is None,
        (DcState { ctrl: val, ..dc }).lines == dc.lines,
{
}

/// Bytes make a number with the first one highest.
pub proof fn law_first_byte_is_highest(b0: u8, b1: u8, b2: u8, b3: u8)
    ensures
        word_of(b0, b1, b2, b3) == b0 * 0x0100_0000 + b1 * 0x1_0000 + b2 * 0x100 + b3,
        half_of(b0, b1) == b0 * 0x100 + b1,
{
    crate::bits::lemma_octets(b0, b1, b2, b3, 0);
}

/// The data cache answers from either way of the set that the address falls
/// into, with the byte of the line, while bit 0 of its control word is down; it
/// answers nothing else.
pub proof fn law_cache_answers_from_its_set(dc: DcState, addr: u32)
    requires
        dc.wf(),
    ensures
        ({
            let w = 2 * ((addr as int / 32) % 64);
            let base = addr as int / 32 * 32;
            let first = dc.lines[w].valid && dc.lines[w].addr == base;
            let second = dc.lines[w + 1].valid && dc.lines[w + 1].addr == base;
            &&& dc.ctrl & 1 == 0 && first ==> dc.cached(addr) == Some(
                dc.lines[w].data[addr as int % 32],
            )
            &&& dc.ctrl & 1 == 0 && second ==> dc.cached(addr) == Some(
                dc.lines[w + 1].data[addr as int % 32],
            )
            &&& dc.ctrl & 1 != 0 || (!first && !second) ==> dc.cached(addr) is None
            &&& !(first && second)
        }),
{
    let s = (addr as int / 32) % 64;
    assert(dc.set_wf(s));
}

/// A byte stored in a cached line marks the line; the other lines and which way
/// leaves next stay.
pub proof fn law_store_marks_its_line(dc: DcState, addr: u32, val: u8, i: int)
    requires
        dc.wf(),
        dc.ctrl & 1 == 0,
        dc.hit(addr) is Some,
        0 <= i < 128,
    ensures
        dc.stored(addr, val).lines[dc.hit(addr)->0].dirty,
        dc.stored(addr, val).lines[dc.hit(addr)->0].valid,
        i != dc.hit(addr)->0 ==> dc.stored(addr, val).lines[i] == dc.lines[i],
        dc.stored(addr, val).next == dc.next,
        dc.stored(addr, val).ctrl == dc.ctrl,
{
}

/// A line that comes in takes the way that is due in its set, unmarked, and the
/// other way is due next. The rest of the cache stays.
pub proof fn law_ways_take_turns(dc: DcState, addr: u32, data: Seq<u8>, i: int)
    requires
        dc.wf(),
        0 <= i < 128,
    ensures
        ({
            let set = (addr as int / 32) % 64;
            let at = 2 * set + dc.next[set];
            let after = dc.filled(addr, data);
            &&& after.lines[at].valid && !after.lines[at].dirty
            &&& after.lines[at].addr == addr as int / 32 * 32
            &&& after.lines[at].data == data
            &&& i != at ==> after.lines[i] == dc.lines[i]
            &&& after.next[set] == 1 - dc.next[set]
            &&& after.ctrl == dc.ctrl
            &&& forall|s: int| 0 <= s < 64 && s != set ==> after.next[s] == dc.next[s]
        }),
{
    assert(dc.set_wf((addr as int / 32) % 64));
}

/// A dropped line answers no more. It is owed to memory where it was marked and
/// bit 6 of the control word is up.
pub proof fn law_dropped_line_is_owed_if_marked(dc: DcState, addr: u32)
    requires
        dc.wf(),
    ensures
        dc.without(addr).hit(addr) is None,
        dc.hit(addr) matches Some(i) ==> {
            let line = dc.lines[i];
            &&& line.dirty && dc.ctrl & 0x40 != 0 ==> dc.owed(addr) == Some((line.addr, line.data))
            &&& !line.dirty || dc.ctrl & 0x40 == 0 ==> dc.owed(addr) is None
            &&& line.dirty ==> dc.overwritten(addr) == dc
            &&& !line.dirty ==> dc.overwritten(addr) == dc.without(addr)
        },
        dc.hit(addr) is None ==> dc.owed(addr) is None && dc.overwritten(addr) == dc && dc.without(
            addr,
        ) == dc,
{
    assert(dc.set_wf((addr as int / 32) % 64));
}

/// What a flush owes to memory is each marked line, and no other: a line that
/// stands and is marked is among them, and each of them is such a line.
pub proof fn law_flush_owes_every_marked_line(dc: DcState, n: nat, i: int, k: int)
    requires
        n <= 128,
        dc.ctrl & 0x40 != 0,
    ensures
        0 <= i < n && dc.lines[i].valid && dc.lines[i].dirty ==> dc.all_owed(n).contains(
            (dc.lines[i].addr, dc.lines[i].data),
        ),
        0 <= k < dc.all_owed(n).len() ==> exists|j: int|
            0 <= j < n && (#[trigger] dc.lines[j]).valid && dc.lines[j].dirty && dc.all_owed(n)[k]
                == (dc.lines[j].addr, dc.lines[j].data),
    decreases n,
{
    if n > 0 {
        law_flush_owes_every_marked_line(dc, (n - 1) as nat, i, k);
        let rest = dc.all_owed((n - 1) as nat);
        let line = dc.lines[n - 1];
        if line.valid && line.dirty {
            let all = rest.push((line.addr, line.data));
            assert(dc.all_owed(n) == all);
            assert(all[rest.len() as int] == (line.addr, line.data));
            if rest.contains((dc.lines[i].addr, dc.lines[i].data)) {
                let q = choose|q: int|
                    0 <= q < rest.len() && rest[q] == (dc.lines[i].addr, dc.lines[i].data);
                assert(all[q] == rest[q]);
            }
        }
    }
}

/// With bit 6 of the control word down, a flush owes nothing.
pub proof fn law_discarding_owes_nothing(dc: DcState, n: nat)
    requires
        dc.ctrl & 0x40 == 0,
    ensures
        dc.all_owed(n).len() == 0,
    decreases n,
{
    if n > 0 {
        law_discarding_owes_nothing(dc, (n - 1) as nat);
    }
}

/// The direct-access window shows the line that its address counts to: the tag
/// with the two flags in its low bits, and the word with its first byte highest.
pub proof fn law_window_shows_its_line(dc: DcState)
    requires
        dc.wf(),
    ensures
        ({
            let line = dc.lines[(dc.ram_addr as int / 32) % 128];
            let at = (dc.ram_addr as int % 32) / 4 * 4;
            &&& dc.tag_word() % 2 == (if line.valid { 1int } else { 0 })
            &&& (dc.tag_word() / 2) % 2 == (if line.dirty { 1int } else { 0 })
            &&& dc.tag_word() / 4 * 4 == line.addr
            &&& dc.data_word() == line.data[at] * 0x0100_0000 + line.data[at + 1] * 0x1_0000
                + line.data[at + 2] * 0x100 + line.data[at + 3]
        }),
{
    let line = dc.lines[(dc.ram_addr as int / 32) % 128];
    let at = (dc.ram_addr as int % 32) / 4 * 4;
    assert(dc.line_wf((dc.ram_addr as int / 32) % 128));
    law_first_byte_is_highest(
        line.data[at],
        line.data[at + 1],
        line.data[at + 2],
        line.data[at + 3],
    );
}

/// After a reset both caches are on and empty, and the data cache writes marked
/// lines back.
pub proof fn law_caches_start_empty(addr: u32)
    ensures
        DcState::reset().ctrl == 0xC2,
        DcState::reset().cached(addr) is None,
        DcState::reset().hit(addr) is None,
        !IcState::reset().holds(addr),
        IcState::reset().enabled,
{
}

/// The instruction cache holds an address in the one line that it counts to, and
/// gives its byte; a line that comes in replaces that line alone.
pub proof fn law_instruction_lines_have_their_slot(
    ic: IcState,
    addr: u32,
    data: Seq<u8>,
    other: u32,
)
    requires
        ic.wf(),
        data.len() == 32,
    ensures
        ({
            let slot = (addr as int / 32) % 128;
            let base = addr as int / 32 * 32;
            &&& ic.holds(addr) <==> ic.lines[slot].valid && ic.lines[slot].addr == base
            &&& ic.byte(addr) == ic.lines[slot].data[addr as int % 32]
            &&& ic.filled(addr, data).holds(addr)
            &&& ic.filled(addr, data).byte(addr) == data[addr as int % 32]
            &&& (other as int / 32) % 128 != slot ==> ic.filled(addr, data).holds(other)
                == ic.holds(other) && ic.filled(addr, data).byte(other) == ic.byte(other)
            &&& !ic.without(addr).holds(addr)
            &&& other as int / 32 != addr as int / 32 ==> ic.without(addr).holds(other)
                == ic.holds(other)
            &&& !ic.emptied().holds(other)
            &&& ic.emptied().enabled == ic.enabled && ic.filled(addr, data).enabled == ic.enabled
        }),
{
}

} // verus!
