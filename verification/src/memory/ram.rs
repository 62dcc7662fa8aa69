//! SRAM behind its two caches.
//!
//! Flat memory is the same type without caches.

use vstd::prelude::*;

use crate::cache::{DCache, DcState, EvictedLine, ICache, IcState};
use crate::cpu::exception::Exception;

verus! {

/// SRAM and its caches, as values.
#[verifier::ext_equal]
pub struct RamState {
    pub bytes: Seq<u8>,
    pub base: u32,
    pub dc: Option<DcState>,
    pub ic: Option<IcState>,
}

/// A run of bytes with a part put in.
pub open spec fn spliced(bytes: Seq<u8>, at: int, part: Seq<u8>) -> Seq<u8> {
    Seq::new(
        bytes.len(),
        |i: int|
            if at <= i < at + part.len() {
                part[i - at]
            } else {
                bytes[i]
            },
    )
}

/// A data cache after memory changed under `n` lines from `first` on.
pub open spec fn lines_overwritten(dc: DcState, first: int, n: nat) -> DcState
    decreases n,
{
    if n == 0 {
        dc
    } else {
        lines_overwritten(dc, first, (n - 1) as nat).overwritten((first + 32 * (n - 1)) as u32)
    }
}

/// An instruction cache without `n` lines from `first` on.
pub open spec fn lines_dropped(ic: IcState, first: int, n: nat) -> IcState
    decreases n,
{
    if n == 0 {
        ic
    } else {
        lines_dropped(ic, first, (n - 1) as nat).without((first + 32 * (n - 1)) as u32)
    }
}

/// How many lines a transfer of `len` bytes at an address touches.
pub open spec fn lines_touched(addr: u32, len: int) -> nat {
    let first = crate::cache::line_base(addr) as int;
    let last = if addr + len > 0 {
        addr + len - 1
    } else {
        0
    };
    if last - last % 32 >= first {
        ((last - last % 32 - first) / 32 + 1) as nat
    } else {
        0
    }
}

impl RamState {
    /// Whether an address lies in SRAM.
    pub open spec fn has(self, addr: u32) -> bool {
        self.base <= addr && addr - self.base < self.bytes.len()
    }

    /// Whether a run of bytes does.
    pub open spec fn has_run(self, addr: u32, len: int) -> bool {
        self.base <= addr && addr - self.base + len <= self.bytes.len()
    }

    /// The byte SRAM itself holds.
    pub open spec fn at(self, addr: int) -> u8 {
        self.bytes[addr - self.base]
    }

    /// The byte the core sees: the cached one where the cache answers.
    pub open spec fn seen(self, addr: u32) -> u8 {
        match self.cached(addr) {
            Some(v) => v,
            None => self.at(addr as int),
        }
    }

    pub open spec fn cached(self, addr: u32) -> Option<u8> {
        match self.dc {
            Some(dc) => dc.cached(addr),
            None => None,
        }
    }

    pub open spec fn line_in_place(self, i: int) -> bool {
        self.dc->0.lines[i].valid ==> self.has(self.dc->0.lines[i].addr)
    }

    /// SRAM starts on a line, fits the address space, and the data cache holds
    /// lines of it only.
    pub open spec fn wf(self) -> bool {
        &&& self.base % 32 == 0
        &&& self.base + self.bytes.len() <= 0x1_0000_0000
        &&& self.dc is Some ==> self.dc->0.wf() && forall|i: int|
            0 <= i < 128 ==> #[trigger] self.line_in_place(i)
        &&& self.ic is Some ==> self.ic->0.wf()
    }

    /// The bytes of a line, zero past the end of SRAM.
    pub open spec fn line_at(self, line: u32) -> Seq<u8> {
        Seq::new(
            32,
            |i: int|
                if line - self.base + i < self.bytes.len() {
                    self.bytes[line - self.base + i]
                } else {
                    0
                },
        )
    }

    /// SRAM after a line went back to it.
    pub open spec fn written_back(self, line: u32, data: Seq<u8>) -> RamState {
        RamState { bytes: spliced(self.bytes, line - self.base, data), ..self }
    }

    /// The state once the line of an address is cached.
    pub open spec fn with_line(self, addr: u32) -> RamState {
        let dc = self.dc->0;
        if dc.hit(addr) is Some {
            self
        } else {
            let out = dc.lines[dc.victim(addr)];
            let next = RamState {
                dc: Some(dc.filled(addr, self.line_at(crate::cache::line_base(addr)))),
                ..self
            };
            if out.valid && out.dirty {
                next.written_back(out.addr, out.data)
            } else {
                next
            }
        }
    }

    /// The state after a byte is stored in its cached line only.
    pub open spec fn marked(self, addr: u32, val: u8) -> RamState {
        RamState { dc: Some(self.dc->0.stored(addr, val)), ..self }
    }

    /// The state after a byte is stored in SRAM, and in its line if it is
    /// cached.
    pub open spec fn put(self, addr: u32, val: u8) -> RamState {
        RamState {
            bytes: self.bytes.update(addr - self.base, val),
            dc: match self.dc {
                Some(dc) => Some(dc.stored(addr, val)),
                None => None,
            },
            ..self
        }
    }

    /// SRAM after a list of lines went back to it, in order.
    pub open spec fn all_written_back(self, lines: Seq<(u32, Seq<u8>)>) -> RamState
        decreases lines.len(),
    {
        if lines.len() == 0 {
            self
        } else {
            self.all_written_back(lines.drop_last()).written_back(lines.last().0, lines.last().1)
        }
    }

    /// The state after every line was invalidated.
    pub open spec fn flushed(self) -> RamState {
        match self.dc {
            Some(dc) => RamState { dc: Some(dc.emptied()), ..self }.all_written_back(
                dc.all_owed(128),
            ),
            None => self,
        }
    }

    /// The state after the line of an address was invalidated.
    pub open spec fn line_flushed(self, addr: u32) -> RamState {
        match self.dc {
            Some(dc) => {
                let next = RamState { dc: Some(dc.without(addr)), ..self };
                match dc.owed(addr) {
                    Some(line) => next.written_back(line.0, line.1),
                    None => next,
                }
            },
            None => self,
        }
    }

    /// The state after the line of an address was dropped, written back or
    /// not.
    pub open spec fn line_dropped(self, addr: u32) -> RamState {
        match self.dc {
            Some(dc) => RamState { dc: Some(dc.without(addr)), ..self },
            None => self,
        }
    }

    /// The state after a device stored bytes in SRAM: marked lines of the data
    /// cache stand, unmarked ones are dropped, and so are the lines of the
    /// instruction cache. A transfer past the end stores nothing.
    pub open spec fn dma_written(self, addr: u32, data: Seq<u8>) -> RamState {
        if addr + data.len() <= self.bytes.len() {
            let first = crate::cache::line_base(addr) as int;
            let n = lines_touched(addr, data.len() as int);
            RamState {
                bytes: spliced(self.bytes, addr as int, data),
                dc: match self.dc {
                    Some(dc) => Some(lines_overwritten(dc, first, n)),
                    None => None,
                },
                ic: match self.ic {
                    Some(ic) => Some(lines_dropped(ic, first, n)),
                    None => None,
                },
                ..self
            }
        } else {
            self
        }
    }

    /// The state once the instruction line of an address is cached, where it
    /// lies in SRAM.
    pub open spec fn with_insn_line(self, addr: u32) -> RamState {
        let line = crate::cache::line_base(addr);
        if self.ic->0.holds(addr) || !self.has(line) {
            self
        } else {
            RamState { ic: Some(self.ic->0.filled(addr, self.line_at(line))), ..self }
        }
    }

    /// The half-word SRAM holds, if it holds all of it.
    pub open spec fn sram_half(self, addr: u32) -> Result<u16, Exception> {
        if self.has_run(addr, 2) {
            Ok(crate::cache::half_of(self.at(addr as int), self.at(addr + 1)))
        } else {
            Err(Exception::MemoryError { address: addr, is_write: false })
        }
    }

    /// The word SRAM holds, if it holds all of it.
    pub open spec fn sram_word(self, addr: u32) -> Result<u32, Exception> {
        if self.has_run(addr, 4) {
            Ok(
                crate::cache::word_of(
                    self.at(addr as int),
                    self.at(addr + 1),
                    self.at(addr + 2),
                    self.at(addr + 3),
                ),
            )
        } else {
            Err(Exception::MemoryError { address: addr, is_write: false })
        }
    }

    /// Whether fetches go through the instruction cache.
    pub open spec fn fetches_cached(self) -> bool {
        self.ic is Some && self.ic->0.enabled
    }

    /// The state after a half-word fetch.
    pub open spec fn after_fetch_half(self, addr: u32) -> RamState {
        if addr % 2 == 0 && self.fetches_cached() {
            self.with_insn_line(addr)
        } else {
            self
        }
    }

    /// What a half-word fetch gives. Where SRAM ends nothing is executed.
    pub open spec fn fetched_half(self, addr: u32) -> Result<u16, Exception> {
        let after = self.after_fetch_half(addr);
        if addr % 2 != 0 {
            Err(Exception::MisalignedAccess { address: addr })
        } else if self.fetches_cached() && after.ic->0.holds(addr) {
            Ok(
                crate::cache::half_of(
                    after.ic->0.byte(addr),
                    after.ic->0.byte((addr + 1) as u32),
                ),
            )
        } else {
            self.sram_half(addr)
        }
    }

    /// Whether a word stands in one instruction line.
    pub open spec fn in_one_line(addr: u32) -> bool {
        addr % 32 <= 28
    }

    /// The state after a word fetch. A word across two lines is two half-word
    /// fetches.
    pub open spec fn after_fetch_word(self, addr: u32) -> RamState {
        if addr % 2 == 0 && self.fetches_cached() {
            if RamState::in_one_line(addr) {
                self.with_insn_line(addr)
            } else if self.fetched_half(addr) is Ok {
                self.after_fetch_half(addr).after_fetch_half((addr + 2) as u32)
            } else {
                self.after_fetch_half(addr)
            }
        } else {
            self
        }
    }

    pub open spec fn fetched_word(self, addr: u32) -> Result<u32, Exception> {
        if addr % 2 != 0 {
            Err(Exception::MisalignedAccess { address: addr })
        } else if self.fetches_cached() && RamState::in_one_line(addr) {
            let ic = self.with_insn_line(addr).ic->0;
            if ic.holds(addr) {
                Ok(
                    crate::cache::word_of(
                        ic.byte(addr),
                        ic.byte((addr + 1) as u32),
                        ic.byte((addr + 2) as u32),
                        ic.byte((addr + 3) as u32),
                    ),
                )
            } else {
                self.sram_word(addr)
            }
        } else if self.fetches_cached() {
            match self.fetched_half(addr) {
                Ok(hi) => match self.after_fetch_half(addr).fetched_half((addr + 2) as u32) {
                    Ok(lo) => Ok(((hi as u32) << 16) | (lo as u32)),
                    Err(e) => Err(e),
                },
                Err(e) => Err(e),
            }
        } else {
            self.sram_word(addr)
        }
    }
}

pub struct CachedRam {
    pub data: Vec<u8>,
    /// Where SRAM starts on the bus.
    pub dccm_base: u32,
    pub dcache: Option<DCache>,
    pub icache: Option<ICache>,
}

impl View for CachedRam {
    type V = RamState;

    open spec fn view(&self) -> RamState {
        RamState {
            bytes: self.data@,
            base: self.dccm_base,
            dc: match self.dcache {
                Some(dc) => Some(dc@),
                None => None,
            },
            ic: match self.icache {
                Some(ic) => Some(ic@),
                None => None,
            },
        }
    }
}

impl CachedRam {
    pub open spec fn wf(&self) -> bool {
        self@.wf()
    }

    /// Memory without caches.
    pub fn flat(data: Vec<u8>) -> (r: Self)
        requires
            data@.len() <= 0x1_0000_0000,
        ensures
            r.wf(),
            r@ == (RamState { bytes: data@, base: 0, dc: None, ic: None }),
    {
        CachedRam { data, dccm_base: 0, dcache: None, icache: None }
    }

    /// SRAM with empty caches.
    pub fn cached(data: Vec<u8>) -> (r: Self)
        requires
            data@.len() <= 0x1_0000_0000,
        ensures
            r.wf(),
            r@ == (RamState {
                bytes: data@,
                base: 0,
                dc: Some(DcState::reset()),
                ic: Some(IcState::reset()),
            }),
    {
        let r = CachedRam {
            data,
            dccm_base: 0,
            dcache: Some(DCache::new()),
            icache: Some(ICache::new()),
        };
        assert forall|i: int| 0 <= i < 128 implies #[trigger] r@.line_in_place(i) by {}
        r
    }

    /// Where an address lies in SRAM, if it does.
    pub fn offset(&self, addr: u32) -> (r: Option<usize>)
        ensures
            r is Some <==> self@.has(addr),
            r matches Some(off) ==> off == addr - self.dccm_base && off < self.data@.len(),
    {
        if addr >= self.dccm_base {
            let off: usize = (addr - self.dccm_base) as usize;
            if off < self.data.len() {
                return Some(off);
            }
        }
        None
    }

    /// Whether a run of bytes from an address lies in SRAM.
    pub fn holds_run(&self, addr: u32, len: usize) -> (r: bool)
        requires
            1 <= len <= 32,
        ensures
            r == self@.has_run(addr, len as int),
    {
        match self.offset(addr) {
            Some(off) => self.data.len() - off >= len,
            None => false,
        }
    }

    /// The byte SRAM holds at an address it has.
    pub fn load(&self, addr: u32) -> (r: u8)
        requires
            self@.has(addr),
        ensures
            r == self@.at(addr as int),
    {
        self.data[(addr - self.dccm_base) as usize]
    }

    /// The byte the data cache holds, if it does.
    pub fn peek(&self, addr: u32) -> (r: Option<u8>)
        requires
            self.wf(),
        ensures
            r == self@.cached(addr),
    {
        match &self.dcache {
            Some(dc) => dc.peek_byte(addr),
            None => None,
        }
    }

    pub fn dcache_enabled(&self) -> (r: bool)
        ensures
            r == (self@.dc is Some && self@.dc->0.enabled()),
    {
        match &self.dcache {
            Some(dc) => dc.is_enabled(),
            None => false,
        }
    }

    pub(crate) fn line_bytes(&self, line: u32) -> (r: [u8; 32])
        requires
            self@.has(line),
        ensures
            r@ == self@.line_at(line),
    {
        let mut out: [u8; 32] = [0u8; 32];
        let off: usize = (line - self.dccm_base) as usize;
        let left: usize = self.data.len() - off;
        let n: usize = if left < 32 {
            left
        } else {
            32
        };
        let len: usize = self.data.len();
        for i in 0..n
            invariant
                n <= 32,
                n <= left,
                len == self.data@.len(),
                left == self.data@.len() - off,
                n < 32 ==> n == left,
                off == line - self.dccm_base,
                forall|k: int| 0 <= k < i ==> out@[k] == #[trigger] self.data@[off + k],
                forall|k: int| i <= k < 32 ==> out@[k] == 0,
        {
            out[i] = self.data[off + i];
        }
        assert(out@ =~= self@.line_at(line));
        out
    }

    fn write_back(&mut self, ev: &EvictedLine)
        requires
            old(self).wf(),
            old(self)@.has(ev.addr),
        ensures
            final(self).wf(),
            final(self)@ == old(self)@.written_back(ev.addr, ev.data@),
    {
        let off: usize = (ev.addr - self.dccm_base) as usize;
        let left: usize = self.data.len() - off;
        let n: usize = if left < 32 {
            left
        } else {
            32
        };
        let len: usize = self.data.len();
        for i in 0..n
            invariant
                n <= 32,
                n <= left,
                len == self.data@.len(),
                left == self.data@.len() - off,
                n < 32 ==> n == left,
                off == ev.addr - old(self).dccm_base,
                self.data@.len() == old(self).data@.len(),
                self.dccm_base == old(self).dccm_base,
                self.dcache == old(self).dcache,
                self.icache == old(self).icache,
                forall|k: int|
                    0 <= k < self.data@.len() ==> #[trigger] self.data@[k] == (if off <= k < off
                        + i {
                        ev.data@[k - off]
                    } else {
                        old(self).data@[k]
                    }),
        {
            self.data.set(off + i, ev.data[i]);
        }
        assert(self.data@ =~= spliced(old(self)@.bytes, off as int, ev.data@));
        proof {
            lemma_bytes_changed(old(self)@, self@);
        }
    }

    /// Bring the line of an SRAM address into the data cache. A marked line
    /// that leaves goes back to SRAM.
    pub fn ensure_line(&mut self, addr: u32)
        requires
            old(self).wf(),
            old(self)@.dc is Some,
            old(self)@.has(addr),
        ensures
            final(self).wf(),
            final(self)@ == old(self)@.with_line(addr),
            final(self)@.dc->0.hit(addr) is Some,
    {
        let line: u32 = addr - addr % 32;
        proof {
            lemma_line_of(self@, addr);
        }
        let data: [u8; 32] = self.line_bytes(line);
        let ghost start = self@;
        let mut out: Option<EvictedLine> = None;
        if let Some(dc) = &mut self.dcache {
            if dc.contains(addr) {
                assert(self@ =~= start);
                return;
            }
            out = dc.fill_line(addr, &data);
        }
        proof {
            lemma_filled(start, addr);
            assert(self@ =~= RamState {
                dc: Some(start.dc->0.filled(addr, start.line_at(line))),
                ..start
            });
        }
        if let Some(ev) = out {
            self.write_back(&ev);
        }
    }

    /// The cached byte of an address whose line is in.
    pub fn read_line_byte(&self, addr: u32) -> (r: u8)
        requires
            self.wf(),
            self@.cached(addr) is Some,
        ensures
            Some(r) == self@.cached(addr),
    {
        match self.peek(addr) {
            Some(v) => v,
            None => 0,
        }
    }

    /// Store a byte in its cached line only.
    pub fn write_line_byte(&mut self, addr: u32, val: u8)
        requires
            old(self).wf(),
            old(self)@.dc is Some,
        ensures
            final(self).wf(),
            final(self)@ == old(self)@.marked(addr, val),
    {
        let ghost start = self@;
        if let Some(dc) = &mut self.dcache {
            dc.write_byte(addr, val);
        }
        assert(self@ =~= start.marked(addr, val));
        proof {
            lemma_stored_in_place(start, addr, val);
        }
    }

    /// Store a byte in SRAM, and in its line if it is cached.
    pub fn put_byte(&mut self, addr: u32, val: u8)
        requires
            old(self).wf(),
            old(self)@.has(addr),
        ensures
            final(self).wf(),
            final(self)@ == old(self)@.put(addr, val),
    {
        let ghost start = self@;
        self.data.set((addr - self.dccm_base) as usize, val);
        if let Some(dc) = &mut self.dcache {
            dc.write_byte(addr, val);
        }
        assert(self@ =~= start.put(addr, val));
        proof {
            if start.dc is Some {
                lemma_stored_in_place(start, addr, val);
                lemma_bytes_changed(start.marked(addr, val), self@);
            }
        }
    }

    fn write_back_all(&mut self, out: &Vec<EvictedLine>)
        requires
            old(self).wf(),
            forall|i: int| 0 <= i < out@.len() ==> old(self)@.has((#[trigger] out@[i]).addr),
        ensures
            final(self).wf(),
            final(self)@ == old(self)@.all_written_back(out@.map_values(|e: EvictedLine| e@)),
    {
        let ghost start = self@;
        let ghost views = out@.map_values(|e: EvictedLine| e@);
        assert(views.take(0) =~= Seq::<(u32, Seq<u8>)>::empty());
        let n: usize = out.len();
        for i in 0..n
            invariant
                n == out@.len(),
                views == out@.map_values(|e: EvictedLine| e@),
                self.wf(),
                self@ == start.all_written_back(views.take(i as int)),
                self@.base == start.base,
                self@.bytes.len() == start.bytes.len(),
                forall|k: int| 0 <= k < out@.len() ==> start.has((#[trigger] out@[k]).addr),
        {
            assert(views.take(i + 1).drop_last() =~= views.take(i as int));
            assert(views.take(i + 1).last() == out@[i as int]@);
            let ev: EvictedLine = out[i];
            self.write_back(&ev);
        }
        assert(views.take(n as int) =~= views);
    }

    /// Invalidate every line of the data cache.
    pub fn flush_all(&mut self)
        requires
            old(self).wf(),
        ensures
            final(self).wf(),
            final(self)@ == old(self)@.flushed(),
    {
        let ghost start = self@;
        let mut out: Vec<EvictedLine> = Vec::new();
        if let Some(dc) = &mut self.dcache {
            out = dc.invalidate_all();
        } else {
            return;
        }
        let ghost views = out@.map_values(|e: EvictedLine| e@);
        proof {
            let emptied = RamState { dc: Some(start.dc->0.emptied()), ..start };
            assert(self@ =~= emptied);
            assert forall|i: int| 0 <= i < 128 implies #[trigger] emptied.line_in_place(i) by {}
            assert forall|i: int| 0 <= i < out@.len() implies self@.has((#[trigger] out@[i]).addr) by {
                assert(views[i] == out@[i]@);
                lemma_owed_in_place(start, 128, i);
            }
        }
        self.write_back_all(&out);
    }

    /// Invalidate the line of an address.
    pub fn flush_line(&mut self, addr: u32)
        requires
            old(self).wf(),
        ensures
            final(self).wf(),
            final(self)@ == old(self)@.line_flushed(addr),
    {
        let ghost start = self@;
        let mut out: Option<EvictedLine> = None;
        if let Some(dc) = &mut self.dcache {
            out = dc.invalidate_line(addr);
        }
        proof {
            assert(self@ =~= start.line_dropped(addr));
            lemma_dropped_in_place(start, addr);
            if start.dc is Some && start.dc->0.hit(addr) is Some {
                assert(start.line_in_place(start.dc->0.hit(addr)->0));
            }
        }
        if let Some(ev) = out {
            self.write_back(&ev);
        }
    }

    /// Drop the line of an address; what it held is lost.
    pub fn drop_line(&mut self, addr: u32)
        requires
            old(self).wf(),
        ensures
            final(self).wf(),
            final(self)@ == old(self)@.line_dropped(addr),
    {
        let ghost start = self@;
        if let Some(dc) = &mut self.dcache {
            let _ = dc.invalidate_line(addr);
        }
        assert(self@ =~= start.line_dropped(addr));
        proof {
            lemma_dropped_in_place(start, addr);
        }
    }

    pub(crate) fn store_run(&mut self, at: usize, part: &Vec<u8>)
        requires
            old(self).wf(),
            at + part@.len() <= old(self).data@.len(),
        ensures
            final(self).wf(),
            final(self)@ == (RamState {
                bytes: spliced(old(self)@.bytes, at as int, part@),
                ..old(self)@
            }),
    {
        let n: usize = part.len();
        let len: usize = self.data.len();
        for i in 0..n
            invariant
                len == self.data@.len(),
                n == part@.len(),
                at + n <= self.data@.len(),
                self.data@.len() == old(self).data@.len(),
                self.dccm_base == old(self).dccm_base,
                self.dcache == old(self).dcache,
                self.icache == old(self).icache,
                forall|k: int|
                    0 <= k < self.data@.len() ==> #[trigger] self.data@[k] == (if at <= k < at + i {
                        part@[k - at]
                    } else {
                        old(self).data@[k]
                    }),
        {
            self.data.set(at + i, part[i]);
        }
        assert(self.data@ =~= spliced(old(self)@.bytes, at as int, part@));
        proof {
            lemma_bytes_changed(old(self)@, self@);
        }
    }

    /// Store bytes the way a device does.
    pub fn dma_write(&mut self, addr: u32, data: &Vec<u8>)
        requires
            old(self).wf(),
        ensures
            final(self).wf(),
            final(self)@ == old(self)@.dma_written(addr, data@),
    {
        let start: usize = addr as usize;
        if start > self.data.len() || data.len() > self.data.len() - start {
            return;
        }
        let ghost before = self@;
        self.store_run(start, data);
        let first: u32 = addr - addr % 32;
        let end: u64 = addr as u64 + data.len() as u64;
        let last: u64 = if end > 0 {
            end - 1
        } else {
            0
        };
        let last_line: u64 = last - last % 32;
        let n: u64 = if last_line >= first as u64 {
            (last_line - first as u64) / 32 + 1
        } else {
            0
        };
        assert(n == lines_touched(addr, data@.len() as int));
        self.overwrite_lines(first, n);
        self.drop_insn_lines(first, n);
        assert(self@ =~= before.dma_written(addr, data@));
    }

    fn overwrite_lines(&mut self, first: u32, n: u64)
        requires
            old(self).wf(),
            first + 32 * n <= 0x1_0000_0000 + 32,
        ensures
            final(self).wf(),
            final(self)@ == (RamState {
                dc: match old(self)@.dc {
                    Some(dc) => Some(lines_overwritten(dc, first as int, n as nat)),
                    None => None,
                },
                ..old(self)@
            }),
    {
        let ghost start = self@;
        if let Some(dc) = &mut self.dcache {
            let ghost dc0 = dc@;
            for i in 0..n
                invariant
                    dc.wf(),
                    first + 32 * n <= 0x1_0000_0000 + 32,
                    dc@ == lines_overwritten(dc0, first as int, i as nat),
                    forall|k: int|
                        0 <= k < 128 ==> (#[trigger] dc@.lines[k]).valid ==> dc0.lines[k].valid
                            && dc@.lines[k].addr == dc0.lines[k].addr,
            {
                let line: u32 = (first as u64 + 32 * i) as u32;
                dc.dma_sram_overwrite(line);
            }
        }
        proof {
            assert(self@ =~= RamState {
                dc: match start.dc {
                    Some(dc) => Some(lines_overwritten(dc, first as int, n as nat)),
                    None => None,
                },
                ..start
            });
            if start.dc is Some {
                assert forall|i: int| 0 <= i < 128 implies #[trigger] self@.line_in_place(i) by {
                    assert(start.line_in_place(i));
                }
            }
        }
    }

    fn drop_insn_lines(&mut self, first: u32, n: u64)
        requires
            old(self).wf(),
            first + 32 * n <= 0x1_0000_0000 + 32,
        ensures
            final(self).wf(),
            final(self)@ == (RamState {
                ic: match old(self)@.ic {
                    Some(ic) => Some(lines_dropped(ic, first as int, n as nat)),
                    None => None,
                },
                ..old(self)@
            }),
    {
        let ghost start = self@;
        if let Some(ic) = &mut self.icache {
            let ghost ic0 = ic@;
            for i in 0..n
                invariant
                    ic.wf(),
                    first + 32 * n <= 0x1_0000_0000 + 32,
                    ic@ == lines_dropped(ic0, first as int, i as nat),
            {
                let line: u32 = (first as u64 + 32 * i) as u32;
                ic.invalidate_line(line);
            }
        }
        proof {
            assert(self@ =~= RamState {
                ic: match start.ic {
                    Some(ic) => Some(lines_dropped(ic, first as int, n as nat)),
                    None => None,
                },
                ..start
            });
            lemma_same_data_side(start, self@);
        }
    }
}

/// The line of an SRAM address starts in SRAM.
proof fn lemma_line_of(ram: RamState, addr: u32)
    requires
        ram.wf(),
        ram.has(addr),
    ensures
        ram.has(crate::cache::line_base(addr)),
{
}

/// New bytes leave the lines where they are.
proof fn lemma_bytes_changed(a: RamState, b: RamState)
    requires
        a.wf(),
        b.base == a.base,
        b.bytes.len() == a.bytes.len(),
        b.dc == a.dc,
        b.ic == a.ic,
    ensures
        b.wf(),
{
    if a.dc is Some {
        assert forall|i: int| 0 <= i < 128 implies #[trigger] b.line_in_place(i) by {
            assert(a.line_in_place(i));
        }
    }
}

proof fn lemma_same_data_side(a: RamState, b: RamState)
    requires
        a.wf(),
        b.base == a.base,
        b.bytes == a.bytes,
        b.dc == a.dc,
        b.ic is Some ==> b.ic->0.wf(),
    ensures
        b.wf(),
{
    if a.dc is Some {
        assert forall|i: int| 0 <= i < 128 implies #[trigger] b.line_in_place(i) by {
            assert(a.line_in_place(i));
        }
    }
}

proof fn lemma_filled(ram: RamState, addr: u32)
    requires
        ram.wf(),
        ram.dc is Some,
        ram.has(addr),
        ram.dc->0.hit(addr) is None,
    ensures
        ({
            let next = RamState {
                dc: Some(
                    ram.dc->0.filled(addr, ram.line_at(crate::cache::line_base(addr))),
                ),
                ..ram
            };
            let out = ram.dc->0.lines[ram.dc->0.victim(addr)];
            &&& forall|i: int| 0 <= i < 128 ==> #[trigger] next.line_in_place(i)
            &&& next.dc->0.hit(addr) is Some
            &&& out.valid ==> ram.has(out.addr)
        }),
{
    let dc = ram.dc->0;
    let s = crate::cache::set_of(addr);
    let next = RamState {
        dc: Some(dc.filled(addr, ram.line_at(crate::cache::line_base(addr)))),
        ..ram
    };
    assert(dc.set_wf(s));
    let v = dc.victim(addr);
    assert(ram.line_in_place(v));
    lemma_line_of(ram, addr);
    assert forall|i: int| 0 <= i < 128 implies #[trigger] next.line_in_place(i) by {
        assert(ram.line_in_place(i));
    }
    assert(next.dc->0.lines[v].covers(addr));
}

proof fn lemma_stored_in_place(ram: RamState, addr: u32, val: u8)
    requires
        ram.wf(),
        ram.dc is Some,
        ram.dc->0.stored(addr, val).wf(),
    ensures
        ram.marked(addr, val).wf(),
{
    let next = ram.marked(addr, val);
    assert forall|i: int| 0 <= i < 128 implies #[trigger] next.line_in_place(i) by {
        assert(ram.line_in_place(i));
    }
}

proof fn lemma_dropped_in_place(ram: RamState, addr: u32)
    requires
        ram.wf(),
        ram.dc is Some ==> ram.dc->0.without(addr).wf(),
    ensures
        ram.line_dropped(addr).wf(),
{
    if ram.dc is Some {
        let next = ram.line_dropped(addr);
        assert forall|i: int| 0 <= i < 128 implies #[trigger] next.line_in_place(i) by {
            assert(ram.line_in_place(i));
        }
    }
}

/// What the cache owes to memory lies in SRAM.
proof fn lemma_owed_in_place(ram: RamState, n: nat, k: int)
    requires
        ram.wf(),
        ram.dc is Some,
        n <= 128,
        0 <= k < ram.dc->0.all_owed(n).len(),
    ensures
        ram.has(ram.dc->0.all_owed(n)[k].0),
        ram.dc->0.all_owed(n)[k].1.len() == 32,
    decreases n,
{
    if n > 0 {
        assert(ram.line_in_place(n - 1));
        assert(ram.dc->0.line_wf(n - 1));
        if k < ram.dc->0.all_owed((n - 1) as nat).len() {
            lemma_owed_in_place(ram, (n - 1) as nat, k);
        }
    }
}

/// SRAM holds the addresses from its base on, as many as it has bytes; a run
/// lies in it where its last byte does.
pub proof fn law_sram_has_its_bytes(ram: RamState, addr: u32, len: int)
    requires
        len > 0,
        addr + len <= 0x1_0000_0000,
    ensures
        ram.has(addr) <==> ram.base <= addr < ram.base + ram.bytes.len(),
        ram.has_run(addr, len) <==> ram.base <= addr && ram.has((addr + len - 1) as u32),
{
}

/// A part put into a run of bytes stands where it was put, and the other bytes
/// stay.
pub proof fn law_part_stands_where_it_was_put(bytes: Seq<u8>, at: int, part: Seq<u8>, i: int)
    requires
        0 <= at,
        at + part.len() <= bytes.len(),
        0 <= i < bytes.len(),
    ensures
        spliced(bytes, at, part).len() == bytes.len(),
        spliced(bytes, at, part).subrange(at, at + part.len()) == part,
        i < at || i >= at + part.len() ==> spliced(bytes, at, part)[i] == bytes[i],
{
    assert(spliced(bytes, at, part).subrange(at, at + part.len()) =~= part);
}

/// A transfer that fits replaces its bytes and no others; one that does not
/// changes nothing.
pub proof fn law_transfer_replaces_its_bytes(ram: RamState, addr: u32, data: Seq<u8>, i: int)
    requires
        0 <= i < ram.bytes.len(),
    ensures
        ({
            let after = ram.dma_written(addr, data);
            &&& addr + data.len() <= ram.bytes.len() ==> after.bytes.subrange(
                addr as int,
                addr + data.len(),
            ) == data && after.bytes.len() == ram.bytes.len() && (i < addr || i >= addr
                + data.len() ==> after.bytes[i] == ram.bytes[i])
            &&& addr + data.len() > ram.bytes.len() ==> after == ram
            &&& after.base == ram.base
        }),
{
    if addr + data.len() <= ram.bytes.len() {
        law_part_stands_where_it_was_put(ram.bytes, addr as int, data, i);
    }
}

proof fn lemma_lines_dropped(ic: IcState, first: int, n: nat, x: u32)
    requires
        first % 32 == 0,
        0 <= first,
        first + 32 * n <= 0x1_0000_0000,
        ic.lines.len() == 128,
    ensures
        lines_dropped(ic, first, n).lines.len() == 128,
        first <= x < first + 32 * n ==> !lines_dropped(ic, first, n).holds(x),
        !ic.holds(x) ==> !lines_dropped(ic, first, n).holds(x),
        x < first || x >= first + 32 * n ==> lines_dropped(ic, first, n).holds(x) == ic.holds(x),
    decreases n,
{
    if n > 0 {
        lemma_lines_dropped(ic, first, (n - 1) as nat, x);
        let line = (first + 32 * (n - 1)) as u32;
        let before = lines_dropped(ic, first, (n - 1) as nat);
        assert(line % 32 == 0);
        if line <= x < line + 32 {
            assert(crate::cache::line_base(x) == line);
            assert(crate::cache::line_base(line) == line);
            assert(crate::cache::slot_of(x) == crate::cache::slot_of(line));
        } else {
            assert(crate::cache::line_base(x) != line);
            assert(crate::cache::line_base(line) == line);
        }
    }
}

/// No instruction that a transfer overwrote is fetched from the cache: its line
/// is gone, and lines that the transfer did not reach stay.
pub proof fn law_transfer_drops_instruction_lines(
    ram: RamState,
    addr: u32,
    data: Seq<u8>,
    x: u32,
)
    requires
        ram.wf(),
        ram.ic is Some,
        data.len() > 0,
        addr + data.len() <= ram.bytes.len(),
    ensures
        ({
            let after = ram.dma_written(addr, data).ic->0;
            &&& ram.dma_written(addr, data).ic is Some
            &&& addr as int / 32 <= x as int / 32 <= (addr + data.len() - 1) / 32 ==> !after.holds(
                x,
            )
            &&& x as int / 32 < addr as int / 32 || x as int / 32 > (addr + data.len() - 1) / 32
                ==> after.holds(x) == ram.ic->0.holds(x)
        }),
{
    let first = crate::cache::line_base(addr) as int;
    let n = lines_touched(addr, data.len() as int);
    let last = addr + data.len() - 1;
    assert(first == addr as int / 32 * 32);
    assert(n == last / 32 - addr as int / 32 + 1);
    assert(first + 32 * n == last / 32 * 32 + 32);
    lemma_lines_dropped(ram.ic->0, first, n, x);
}

/// A fetch takes even addresses. Around the cache it gives what SRAM holds, the
/// first byte highest, and fails where SRAM ends.
pub proof fn law_fetches_give_what_sram_holds(ram: RamState, addr: u32)
    ensures
        addr % 2 != 0 ==> ram.fetched_half(addr) == Err::<u16, Exception>(
            Exception::MisalignedAccess { address: addr },
        ) && ram.fetched_word(addr) == Err::<u32, Exception>(
            Exception::MisalignedAccess { address: addr },
        ) && ram.after_fetch_half(addr) == ram && ram.after_fetch_word(addr) == ram,
        addr % 2 == 0 && !ram.fetches_cached() && ram.has_run(addr, 2) ==> ram.fetched_half(addr)
            == Ok::<u16, Exception>(
            (ram.at(addr as int) * 0x100 + ram.at(addr + 1)) as u16,
        ),
        addr % 2 == 0 && !ram.fetches_cached() && !ram.has_run(addr, 2) ==> ram.fetched_half(addr)
            == Err::<u16, Exception>(Exception::MemoryError { address: addr, is_write: false }),
        addr % 2 == 0 && !ram.fetches_cached() && ram.has_run(addr, 4) ==> ram.fetched_word(addr)
            == Ok::<u32, Exception>(
            (ram.at(addr as int) * 0x0100_0000 + ram.at(addr + 1) * 0x1_0000 + ram.at(addr + 2)
                * 0x100 + ram.at(addr + 3)) as u32,
        ),
        addr % 2 == 0 && !ram.fetches_cached() && !ram.has_run(addr, 4) ==> ram.fetched_word(addr)
            == Err::<u32, Exception>(Exception::MemoryError { address: addr, is_write: false }),
        !ram.fetches_cached() ==> ram.after_fetch_half(addr) == ram && ram.after_fetch_word(addr)
            == ram,
{
    crate::cache::law_first_byte_is_highest(
        ram.at(addr as int),
        ram.at(addr + 1),
        ram.at(addr + 2),
        ram.at(addr + 3),
    );
}

/// A fetch of a line that is not cached brings it in and gives what SRAM holds;
/// one of a line that is cached gives what the line holds, whatever SRAM does.
pub proof fn law_cached_fetches_go_through_the_line(ram: RamState, addr: u32)
    requires
        ram.wf(),
        ram.ic is Some,
        ram.ic->0.enabled,
        addr % 2 == 0,
        ram.has_run(addr, 2),
    ensures
        !ram.ic->0.holds(addr) ==> ram.fetched_half(addr) == Ok::<u16, Exception>(
            (ram.at(addr as int) * 0x100 + ram.at(addr + 1)) as u16,
        ) && ram.after_fetch_half(addr).ic->0.holds(addr),
        ram.ic->0.holds(addr) ==> ram.fetched_half(addr) == Ok::<u16, Exception>(
            (ram.ic->0.byte(addr) * 0x100 + ram.ic->0.byte((addr + 1) as u32)) as u16,
        ) && ram.after_fetch_half(addr) == ram,
        ram.after_fetch_half(addr).bytes == ram.bytes,
        ram.after_fetch_half(addr).dc == ram.dc,
{
    let ic = ram.ic->0;
    let base = crate::cache::line_base(addr);
    assert((addr + 1) as int / 32 == addr as int / 32);
    assert(crate::cache::line_base((addr + 1) as u32) == base);
    if ic.holds(addr) {
        crate::cache::law_first_byte_is_highest(ic.byte(addr), ic.byte((addr + 1) as u32), 0, 0);
    } else {
        let line = ram.line_at(base);
        assert(line[addr as int % 32] == ram.at(addr as int));
        assert(line[(addr + 1) % 32] == ram.at(addr + 1));
        assert(ram.has(base));
        let after = ram.after_fetch_half(addr).ic->0;
        assert(after == ic.filled(addr, line));
        crate::cache::law_first_byte_is_highest(ram.at(addr as int), ram.at(addr + 1), 0, 0);
    }
}

} // verus!
