//! The instruction port, and the control words of the caches.

use vstd::prelude::*;

use super::ram::{CachedRam, RamState};
use crate::cache::{
    DCacheLineInfo, DcState, DcacheSaveState, IcState, IcacheSaveState, LineView, DC_CTRL_RESET,
};
use crate::cpu::exception::Exception;

verus! {

proof fn lemma_insn_side(a: RamState, b: RamState)
    requires
        a.wf(),
        b.base == a.base,
        b.bytes == a.bytes,
        b.dc == a.dc,
        b.ic is Some ==> b.ic->0.wf(),
    ensures
        b.wf(),
{
    if a.dc is Some {
        assert forall|i: int| 0 <= i < 128 implies #[trigger] b.line_in_place(i) by {
            assert(a.line_in_place(i));
        }
    }
}

proof fn lemma_data_side(a: RamState, b: RamState)
    requires
        a.wf(),
        b.base == a.base,
        b.bytes == a.bytes,
        b.ic == a.ic,
        b.dc is Some && a.dc is Some && b.dc->0.wf(),
        b.dc->0.lines == a.dc->0.lines,
    ensures
        b.wf(),
{
    assert forall|i: int| 0 <= i < 128 implies #[trigger] b.line_in_place(i) by {
        assert(a.line_in_place(i));
    }
}

/// A saved data cache, as values.
pub open spec fn saved_data(dc: Option<DcacheSaveState>) -> Option<DcState> {
    match dc {
        Some(s) => Some(s@),
        None => None,
    }
}

/// A saved instruction cache, as values.
pub open spec fn saved_insn(ic: Option<IcacheSaveState>) -> Option<IcState> {
    match ic {
        Some(s) => Some(s@),
        None => None,
    }
}

impl RamState {
    /// Whether saved lines are lines of this SRAM.
    pub open spec fn fits(self, saved: DcState) -> bool {
        saved.wf() && forall|i: int|
            0 <= i < 128 && (#[trigger] saved.lines[i]).valid ==> self.has(saved.lines[i].addr)
    }

    /// The caches after saved ones were put back, where both are there.
    pub open spec fn restored(self, dc: Option<DcState>, ic: Option<IcState>) -> RamState {
        RamState {
            dc: if self.dc is Some && dc is Some {
                dc
            } else {
                self.dc
            },
            ic: if self.ic is Some && ic is Some {
                ic
            } else {
                self.ic
            },
            ..self
        }
    }
}

impl CachedRam {
    /// Bring the instruction line of an address in, where it lies in SRAM.
    fn fill_insn_line(&mut self, addr: u32)
        requires
            old(self).wf(),
            old(self)@.ic is Some,
        ensures
            final(self).wf(),
            final(self)@ == old(self)@.with_insn_line(addr),
    {
        let ghost start = self@;
        let line: u32 = addr - addr % 32;
        if self.offset(line).is_none() {
            return;
        }
        let data: [u8; 32] = self.line_bytes(line);
        if let Some(ic) = &mut self.icache {
            if !ic.contains(addr) {
                ic.fill_line(addr, &data);
            }
        }
        assert(self@ =~= start.with_insn_line(addr));
        proof {
            lemma_insn_side(start, self@);
        }
    }

    fn fetch_enabled(&self) -> (r: bool)
        ensures
            r == self@.fetches_cached(),
    {
        match &self.icache {
            Some(ic) => ic.is_enabled(),
            None => false,
        }
    }

    fn insn_half(&self, addr: u32) -> (r: Option<u16>)
        requires
            self.wf(),
            addr % 2 == 0,
            self@.ic is Some,
        ensures
            r == (if self@.ic->0.holds(addr) {
                Some(
                    crate::cache::half_of(
                        self@.ic->0.byte(addr),
                        self@.ic->0.byte((addr + 1) as u32),
                    ),
                )
            } else {
                None
            }),
    {
        match &self.icache {
            Some(ic) => ic.peek_half(addr),
            None => None,
        }
    }

    fn insn_word(&self, addr: u32) -> (r: Option<u32>)
        requires
            self.wf(),
            addr % 32 <= 28,
            self@.ic is Some,
        ensures
            r == (if self@.ic->0.holds(addr) {
                Some(
                    crate::cache::word_of(
                        self@.ic->0.byte(addr),
                        self@.ic->0.byte((addr + 1) as u32),
                        self@.ic->0.byte((addr + 2) as u32),
                        self@.ic->0.byte((addr + 3) as u32),
                    ),
                )
            } else {
                None
            }),
    {
        match &self.icache {
            Some(ic) => ic.peek_word(addr),
            None => None,
        }
    }

    /// The half-word SRAM holds, if it holds all of it.
    pub fn load_half(&self, addr: u32) -> (r: Result<u16, Exception>)
        requires
            self.wf(),
        ensures
            r == self@.sram_half(addr),
    {
        if self.holds_run(addr, 2) {
            let (b0, b1) = (self.load(addr), self.load(addr + 1));
            Ok(((b0 as u16) << 8) | (b1 as u16))
        } else {
            Err(Exception::MemoryError { address: addr, is_write: false })
        }
    }

    /// The word SRAM holds, if it holds all of it.
    pub fn load_word(&self, addr: u32) -> (r: Result<u32, Exception>)
        requires
            self.wf(),
        ensures
            r == self@.sram_word(addr),
    {
        if self.holds_run(addr, 4) {
            let (b0, b1) = (self.load(addr), self.load(addr + 1));
            let (b2, b3) = (self.load(addr + 2), self.load(addr + 3));
            Ok(((b0 as u32) << 24) | ((b1 as u32) << 16) | ((b2 as u32) << 8) | (b3 as u32))
        } else {
            Err(Exception::MemoryError { address: addr, is_write: false })
        }
    }

    pub fn fetch_half(&mut self, addr: u32) -> (r: Result<u16, Exception>)
        requires
            old(self).wf(),
        ensures
            final(self).wf(),
            final(self)@ == old(self)@.after_fetch_half(addr),
            r == old(self)@.fetched_half(addr),
    {
        if addr % 2 != 0 {
            return Err(Exception::MisalignedAccess { address: addr });
        }
        if self.fetch_enabled() {
            self.fill_insn_line(addr);
            if let Some(v) = self.insn_half(addr) {
                return Ok(v);
            }
        }
        self.load_half(addr)
    }

    pub fn fetch_word(&mut self, addr: u32) -> (r: Result<u32, Exception>)
        requires
            old(self).wf(),
            addr <= 0xFFFF_FFDF || addr % 2 != 0 || !old(self)@.fetches_cached(),
        ensures
            final(self).wf(),
            final(self)@ == old(self)@.after_fetch_word(addr),
            r == old(self)@.fetched_word(addr),
    {
        if addr % 2 != 0 {
            return Err(Exception::MisalignedAccess { address: addr });
        }
        if self.fetch_enabled() {
            if addr % 32 <= 28 {
                self.fill_insn_line(addr);
                if let Some(v) = self.insn_word(addr) {
                    return Ok(v);
                }
            } else {
                let hi: u16 = match self.fetch_half(addr) {
                    Ok(v) => v,
                    Err(e) => return Err(e),
                };
                let lo: u16 = match self.fetch_half(addr + 2) {
                    Ok(v) => v,
                    Err(e) => return Err(e),
                };
                return Ok(((hi as u32) << 16) | (lo as u32));
            }
        }
        self.load_word(addr)
    }

    pub fn icache_invalidate_all(&mut self)
        requires
            old(self).wf(),
        ensures
            final(self).wf(),
            final(self)@ == (RamState {
                ic: match old(self)@.ic {
                    Some(ic) => Some(ic.emptied()),
                    None => None,
                },
                ..old(self)@
            }),
    {
        let ghost start = self@;
        if let Some(ic) = &mut self.icache {
            ic.invalidate_all();
        }
        assert(self@ =~= RamState {
            ic: match start.ic {
                Some(ic) => Some(ic.emptied()),
                None => None,
            },
            ..start
        });
        proof {
            lemma_insn_side(start, self@);
        }
    }

    pub fn icache_invalidate_line(&mut self, addr: u32)
        requires
            old(self).wf(),
        ensures
            final(self).wf(),
            final(self)@ == (RamState {
                ic: match old(self)@.ic {
                    Some(ic) => Some(ic.without(addr)),
                    None => None,
                },
                ..old(self)@
            }),
    {
        let ghost start = self@;
        if let Some(ic) = &mut self.icache {
            ic.invalidate_line(addr);
        }
        assert(self@ =~= RamState {
            ic: match start.ic {
                Some(ic) => Some(ic.without(addr)),
                None => None,
            },
            ..start
        });
        proof {
            lemma_insn_side(start, self@);
        }
    }

    /// The control word of the data cache; what it resets to where there is
    /// none.
    pub fn dcache_read_ctrl(&self) -> (r: u32)
        ensures
            r == (match self@.dc {
                Some(dc) => dc.ctrl,
                None => DC_CTRL_RESET,
            }),
    {
        match &self.dcache {
            Some(dc) => dc.read_dc_ctrl(),
            None => DC_CTRL_RESET,
        }
    }

    /// Set the control word. Turning the cache off writes nothing back.
    pub fn dcache_sync_ctrl(&mut self, val: u32)
        requires
            old(self).wf(),
        ensures
            final(self).wf(),
            final(self)@ == (RamState {
                dc: match old(self)@.dc {
                    Some(dc) => Some(DcState { ctrl: val, ..dc }),
                    None => None,
                },
                ..old(self)@
            }),
    {
        let ghost start = self@;
        if let Some(dc) = &mut self.dcache {
            dc.write_dc_ctrl(val);
        }
        assert(self@ =~= RamState {
            dc: match start.dc {
                Some(dc) => Some(DcState { ctrl: val, ..dc }),
                None => None,
            },
            ..start
        });
        proof {
            if start.dc is Some {
                lemma_data_side(start, self@);
            }
        }
    }

    pub fn dcache_set_ram_addr(&mut self, addr: u32)
        requires
            old(self).wf(),
        ensures
            final(self).wf(),
            final(self)@ == (RamState {
                dc: match old(self)@.dc {
                    Some(dc) => Some(DcState { ram_addr: addr, ..dc }),
                    None => None,
                },
                ..old(self)@
            }),
    {
        let ghost start = self@;
        if let Some(dc) = &mut self.dcache {
            dc.set_ram_addr(addr);
        }
        assert(self@ =~= RamState {
            dc: match start.dc {
                Some(dc) => Some(DcState { ram_addr: addr, ..dc }),
                None => None,
            },
            ..start
        });
        proof {
            if start.dc is Some {
                lemma_data_side(start, self@);
            }
        }
    }

    pub fn dcache_read_tag(&self) -> (r: u32)
        requires
            self.wf(),
        ensures
            r == (match self@.dc {
                Some(dc) => dc.tag_word(),
                None => 0,
            }),
    {
        match &self.dcache {
            Some(dc) => dc.read_tag(),
            None => 0,
        }
    }

    pub fn dcache_read_data(&self) -> (r: u32)
        requires
            self.wf(),
        ensures
            r == (match self@.dc {
                Some(dc) => dc.data_word(),
                None => 0,
            }),
    {
        match &self.dcache {
            Some(dc) => dc.read_data(),
            None => 0,
        }
    }

    /// Every line of the data cache, for display; none where there is no cache.
    pub fn dcache_snapshot(&self) -> (r: Vec<DCacheLineInfo>)
        requires
            self.wf(),
        ensures
            self@.dc is None ==> r@.len() == 0,
            self@.dc is Some ==> r@.len() == 128 && forall|i: int|
                0 <= i < 128 ==> (#[trigger] r@[i]).set == i / 2 && r@[i].way == i % 2 && (LineView {
                    valid: r@[i].valid,
                    dirty: r@[i].dirty,
                    addr: r@[i].addr,
                    data: r@[i].data@,
                }) == self@.dc->0.lines[i],
    {
        match &self.dcache {
            Some(dc) => dc.snapshot_lines(),
            None => Vec::new(),
        }
    }

    pub fn save_cache_state(&self) -> (r: (Option<DcacheSaveState>, Option<IcacheSaveState>))
        ensures
            r.0 is Some <==> self@.dc is Some,
            r.0 is Some ==> (r.0->0)@ == self@.dc->0,
            r.1 is Some <==> self@.ic is Some,
            r.1 is Some ==> (r.1->0)@ == self@.ic->0,
    {
        let dc = match &self.dcache {
            Some(dc) => Some(dc.save_state()),
            None => None,
        };
        let ic = match &self.icache {
            Some(ic) => Some(ic.save_state()),
            None => None,
        };
        (dc, ic)
    }

    pub fn restore_cache_state(
        &mut self,
        dc: Option<DcacheSaveState>,
        ic: Option<IcacheSaveState>,
    )
        requires
            old(self).wf(),
            dc is Some ==> old(self)@.fits((dc->0)@),
            ic is Some ==> (ic->0)@.wf(),
        ensures
            final(self).wf(),
            final(self)@ == old(self)@.restored(saved_data(dc), saved_insn(ic)),
    {
        let ghost start = self@;
        let ghost (dcv, icv) = (saved_data(dc), saved_insn(ic));
        if let Some(state) = dc {
            if let Some(cache) = &mut self.dcache {
                cache.restore_state(state);
            }
        }
        if let Some(state) = ic {
            if let Some(cache) = &mut self.icache {
                cache.restore_state(state);
            }
        }
        proof {
            assert(self@ =~= start.restored(dcv, icv));
            if self@.dc is Some {
                assert forall|i: int| 0 <= i < 128 implies #[trigger] self@.line_in_place(i) by {
                    assert(start.line_in_place(i));
                }
            }
        }
    }
}

/// Caches that were saved come back whole, whatever happened in between, and
/// putting them back changes no byte of SRAM. Saved from an SRAM of the same
/// place and size, they always fit.
pub proof fn law_saved_caches_come_back(saved: RamState, now: RamState)
    requires
        saved.wf(),
        now.wf(),
        saved.base == now.base,
        saved.bytes.len() == now.bytes.len(),
        saved.dc is Some <==> now.dc is Some,
        saved.ic is Some <==> now.ic is Some,
    ensures
        saved.dc is Some ==> now.fits(saved.dc->0),
        now.restored(saved.dc, saved.ic).dc == saved.dc,
        now.restored(saved.dc, saved.ic).ic == saved.ic,
        now.restored(saved.dc, saved.ic).bytes == now.bytes,
        now.restored(saved.dc, saved.ic).wf(),
        saved.bytes == now.bytes ==> now.restored(saved.dc, saved.ic) == saved,
{
    let after = now.restored(saved.dc, saved.ic);
    if saved.dc is Some {
        assert forall|i: int| 0 <= i < 128 && (#[trigger] saved.dc->0.lines[i]).valid implies now.has(
            saved.dc->0.lines[i].addr,
        ) by {
            assert(saved.line_in_place(i));
        }
        assert forall|i: int| 0 <= i < 128 implies #[trigger] after.line_in_place(i) by {
            assert(saved.line_in_place(i));
        }
    }
}

} // verus!
