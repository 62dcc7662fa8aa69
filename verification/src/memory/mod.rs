//! The memory the core sees: SRAM behind its caches, and the peripheral bank
//! wherever SRAM does not answer. Without a bank it is flat memory.
//!
//! There are two families of accessors. The observers (`read_word` and the
//! like) back debug views and report the bytes at the address they are asked
//! for. The data port (`read_word_data` and the like) is what loads and stores
//! of the core go through, and drives the address the core would drive.

use vstd::prelude::*;

pub mod data_port;
pub mod datapath;
pub mod fetch;
pub mod fill;
pub mod laws;
pub mod observe;
pub mod ram;
pub mod watch;

use crate::cache::{DCacheLineInfo, DcState, DcacheSaveState, IcacheSaveState, LineView, DC_CTRL_RESET};
use crate::cpu::exception::Exception;
use crate::memory::fill::sram_initial;
use crate::memory::ram::{CachedRam, RamState};
use crate::soc::bank::{BankState, BootMode, PeripheralBank};

pub use crate::memory::fill::sram_fill;
pub use crate::memory::watch::{
    DccmReport, MisalignedDataHit, MisalignedDataLog, MisalignedState, ReadTrace, TraceState,
    WatchMode, WatchState, Watchpoint, WatchpointTable, MISALIGNED_LOG_CAP,
};

verus! {

/// Unified SRAM: 512 KB.
pub const SRAM_SIZE: usize = 0x8_0000;

/// The memory, as values.
pub struct MemState {
    pub ram: RamState,
    pub bank: Option<BankState>,
    pub dccm_watch: Option<u32>,
    pub reports: Seq<DccmReport>,
    pub unmapped: bool,
    pub watch: WatchState,
    pub trace: Option<TraceState>,
    pub misaligned: MisalignedState,
}

impl MemState {
    pub open spec fn with_ram(self, ram: RamState) -> MemState {
        MemState { ram, ..self }
    }

    pub open spec fn with_bank(self, bank: BankState) -> MemState {
        MemState { bank: Some(bank), ..self }
    }

    /// The caches and the bank come together.
    pub open spec fn wf(self) -> bool {
        &&& self.ram.wf()
        &&& self.bank is Some <==> self.ram.dc is Some
        &&& self.bank is Some <==> self.ram.ic is Some
        &&& self.bank is Some ==> self.bank->0.dev.wf()
    }

    /// The memory after the watchpoints were held against an access.
    pub open spec fn checked(self, addr: u32, size: u32, access: WatchMode) -> MemState {
        MemState { watch: self.watch.checked(addr, size, access), ..self }
    }
}

pub struct Memory {
    pub ram: CachedRam,
    /// The peripherals; none in flat memory.
    pub bank: Option<PeripheralBank>,
    /// A word of SRAM whose stores are reported.
    pub dccm_watchpoint: Option<u32>,
    /// The reports so far.
    pub dccm_reports: Vec<DccmReport>,
    pub unmapped_exception: bool,
    pub watchpoints: WatchpointTable,
    pub read_trace: Option<ReadTrace>,
    pub misaligned_data: MisalignedDataLog,
}

impl View for Memory {
    type V = MemState;

    open spec fn view(&self) -> MemState {
        MemState {
            ram: self.ram@,
            bank: match self.bank {
                Some(b) => Some(b@),
                None => None,
            },
            dccm_watch: self.dccm_watchpoint,
            reports: self.dccm_reports@,
            unmapped: self.unmapped_exception,
            watch: self.watchpoints@,
            trace: match self.read_trace {
                Some(t) => Some(t@),
                None => None,
            },
            misaligned: self.misaligned_data@,
        }
    }
}

impl Memory {
    pub open spec fn wf(&self) -> bool {
        &&& self@.wf()
        &&& self.bank is Some ==> self.bank->0.wf()
    }

    /// Flat memory: one address space, no caches, no peripherals.
    pub fn new(size: usize) -> (r: Self)
        requires
            size <= 0x1_0000_0000,
        ensures
            r.wf(),
            r@ == (MemState {
                ram: RamState {
                    bytes: Seq::new(size as nat, |i: int| 0u8),
                    base: 0,
                    dc: None,
                    ic: None,
                },
                bank: None,
                dccm_watch: None,
                reports: Seq::empty(),
                unmapped: false,
                watch: WatchState { entries: Seq::empty(), hit: None },
                trace: None,
                misaligned: MisalignedState { count: 0, hits: Seq::empty() },
            }),
    {
        let data: Vec<u8> = vec![0u8; size];
        assert(data@ =~= Seq::new(size as nat, |i: int| 0u8));
        Memory {
            ram: CachedRam::flat(data),
            bank: None,
            dccm_watchpoint: None,
            dccm_reports: Vec::new(),
            unmapped_exception: false,
            watchpoints: WatchpointTable::new(),
            read_trace: None,
            misaligned_data: MisalignedDataLog::default(),
        }
    }

    /// Memory of the chip, its SRAM zeroed.
    pub fn new_soc(sram_size: usize, boot_mode: BootMode) -> (r: Self)
        requires
            sram_size <= 0x1_0000_0000,
        ensures
            r.wf(),
            r@ == fresh_soc(
                crate::memory::fill::initial_image(sram_size as nat, None),
                boot_mode,
            ),
    {
        Memory::new_soc_filled(sram_size, boot_mode, None)
    }

    /// Memory of the chip, its SRAM filled the way a setting asks for.
    pub fn new_soc_filled(sram_size: usize, boot_mode: BootMode, setting: Option<&str>) -> (r: Self)
        requires
            sram_size <= 0x1_0000_0000,
        ensures
            r.wf(),
            r@ == fresh_soc(
                crate::memory::fill::initial_image(
                    sram_size as nat,
                    crate::memory::fill::setting_view(setting),
                ),
                boot_mode,
            ),
    {
        Memory {
            ram: CachedRam::cached(sram_initial(sram_size, setting)),
            bank: Some(PeripheralBank::new(boot_mode)),
            dccm_watchpoint: None,
            dccm_reports: Vec::new(),
            unmapped_exception: false,
            watchpoints: WatchpointTable::new(),
            read_trace: None,
            misaligned_data: MisalignedDataLog::default(),
        }
    }

    /// The peripherals, if there are any.
    pub fn bank(&self) -> (r: Option<&PeripheralBank>)
        ensures
            r is Some <==> self@.bank is Some,
            r matches Some(b) ==> Some(b@) == self@.bank && Some(*b) == self.bank,
    {
        match &self.bank {
            Some(b) => Some(b),
            None => None,
        }
    }

    pub fn is_soc(&self) -> (r: bool)
        ensures
            r == (self@.bank is Some),
    {
        self.bank.is_some()
    }

    pub fn sram_size(&self) -> (r: usize)
        ensures
            r == self@.ram.bytes.len(),
    {
        self.ram.data.len()
    }

    /// A copy of SRAM.
    pub fn sram_snapshot(&self) -> (r: Vec<u8>)
        ensures
            r@ == self@.ram.bytes,
    {
        vstd::slice::slice_to_vec(self.ram.data.as_slice())
    }

    /// Put saved bytes back at the start of SRAM, as far as both go.
    pub fn restore_sram(&mut self, data: &[u8])
        requires
            old(self).wf(),
        ensures
            final(self).wf(),
            final(self)@ == old(self)@.with_ram(
                RamState {
                    bytes: crate::memory::ram::spliced(old(self)@.ram.bytes, 0, data@),
                    ..old(self)@.ram
                },
            ),
    {
        let n: usize = if data.len() < self.ram.data.len() {
            data.len()
        } else {
            self.ram.data.len()
        };
        let part: Vec<u8> = vstd::slice::slice_to_vec(vstd::slice::slice_subrange(data, 0, n));
        assert(crate::memory::ram::spliced(self.ram@.bytes, 0, part@)
            =~= crate::memory::ram::spliced(self.ram@.bytes, 0, data@));
        self.ram.store_run(0, &part);
    }

    pub fn save_cache_state(&self) -> (r: (Option<DcacheSaveState>, Option<IcacheSaveState>))
        ensures
            r.0 is Some <==> self@.ram.dc is Some,
            r.0 is Some ==> (r.0->0)@ == self@.ram.dc->0,
            r.1 is Some <==> self@.ram.ic is Some,
            r.1 is Some ==> (r.1->0)@ == self@.ram.ic->0,
    {
        self.ram.save_cache_state()
    }

    pub fn restore_cache_state(
        &mut self,
        dc: Option<DcacheSaveState>,
        ic: Option<IcacheSaveState>,
    )
        requires
            old(self).wf(),
            dc is Some ==> old(self)@.ram.fits((dc->0)@),
            ic is Some ==> (ic->0)@.wf(),
        ensures
            final(self).wf(),
            final(self)@ == old(self)@.with_ram(
                old(self)@.ram.restored(
                    crate::memory::fetch::saved_data(dc),
                    crate::memory::fetch::saved_insn(ic),
                ),
            ),
    {
        self.ram.restore_cache_state(dc, ic);
    }

    /// A run of SRAM bytes, if SRAM holds all of it.
    pub fn sram_slice(&self, start: u32, len: u32) -> (r: Option<&[u8]>)
        ensures
            r is Some <==> start + len <= self@.ram.bytes.len(),
            r matches Some(s) ==> s@ == self@.ram.bytes.subrange(start as int, start + len),
    {
        let s: usize = start as usize;
        let n: usize = self.ram.data.len();
        if s > n || len as usize > n - s {
            return None;
        }
        Some(vstd::slice::slice_subrange(self.ram.data.as_slice(), s, s + len as usize))
    }

    /// Every line of the data cache, for display; none in flat memory.
    pub fn dcache_snapshot(&self) -> (r: Vec<DCacheLineInfo>)
        requires
            self.wf(),
        ensures
            self@.ram.dc is None ==> r@.len() == 0,
            self@.ram.dc is Some ==> r@.len() == 128 && forall|i: int|
                0 <= i < 128 ==> (#[trigger] r@[i]).set == i / 2 && r@[i].way == i % 2 && (LineView {
                    valid: r@[i].valid,
                    dirty: r@[i].dirty,
                    addr: r@[i].addr,
                    data: r@[i].data@,
                }) == self@.ram.dc->0.lines[i],
    {
        self.ram.dcache_snapshot()
    }

    /// Load a binary into SRAM.
    pub fn load_binary(&mut self, addr: u32, binary: &[u8])
        requires
            old(self).wf(),
            addr + binary@.len() <= old(self)@.ram.bytes.len(),
        ensures
            final(self).wf(),
            final(self)@ == old(self)@.with_ram(
                RamState {
                    bytes: crate::memory::ram::spliced(
                        old(self)@.ram.bytes,
                        addr as int,
                        binary@,
                    ),
                    ..old(self)@.ram
                },
            ),
    {
        let part: Vec<u8> = vstd::slice::slice_to_vec(binary);
        self.ram.store_run(addr as usize, &part);
    }

    /// The control word of the data cache.
    pub fn dcache_read_ctrl(&self) -> (r: u32)
        ensures
            r == (match self@.ram.dc {
                Some(dc) => dc.ctrl,
                None => DC_CTRL_RESET,
            }),
    {
        self.ram.dcache_read_ctrl()
    }

    /// Set the control word of the data cache. Turning it off writes no line
    /// back: what was not written back before is lost to later accesses.
    pub fn dcache_sync_ctrl(&mut self, val: u32)
        requires
            old(self).wf(),
        ensures
            final(self).wf(),
            final(self)@ == old(self)@.with_ram(
                RamState {
                    dc: match old(self)@.ram.dc {
                        Some(dc) => Some(DcState { ctrl: val, ..dc }),
                        None => None,
                    },
                    ..old(self)@.ram
                },
            ),
    {
        self.ram.dcache_sync_ctrl(val);
    }

    /// Invalidate the data cache. Marked lines go back to SRAM where the
    /// control word says so.
    pub fn dcache_invalidate_all(&mut self) -> (r: Result<(), Exception>)
        requires
            old(self).wf(),
        ensures
            final(self).wf(),
            r is Ok,
            final(self)@ == old(self)@.with_ram(old(self)@.ram.flushed()),
    {
        self.ram.flush_all();
        proof {
            crate::memory::laws::lemma_flushed_shape(old(self)@.ram);
        }
        Ok(())
    }

    /// Invalidate one line of the data cache.
    pub fn dcache_invalidate_line(&mut self, addr: u32) -> (r: Result<(), Exception>)
        requires
            old(self).wf(),
        ensures
            final(self).wf(),
            r is Ok,
            final(self)@ == old(self)@.with_ram(old(self)@.ram.line_flushed(addr)),
    {
        self.ram.flush_line(addr);
        Ok(())
    }

    pub fn dcache_set_ram_addr(&mut self, addr: u32)
        requires
            old(self).wf(),
        ensures
            final(self).wf(),
            final(self)@ == old(self)@.with_ram(
                RamState {
                    dc: match old(self)@.ram.dc {
                        Some(dc) => Some(DcState { ram_addr: addr, ..dc }),
                        None => None,
                    },
                    ..old(self)@.ram
                },
            ),
    {
        self.ram.dcache_set_ram_addr(addr);
    }

    pub fn dcache_read_tag(&self) -> (r: u32)
        requires
            self.wf(),
        ensures
            r == (match self@.ram.dc {
                Some(dc) => dc.tag_word(),
                None => 0,
            }),
    {
        self.ram.dcache_read_tag()
    }

    pub fn dcache_read_data(&self) -> (r: u32)
        requires
            self.wf(),
        ensures
            r == (match self@.ram.dc {
                Some(dc) => dc.data_word(),
                None => 0,
            }),
    {
        self.ram.dcache_read_data()
    }

    pub fn icache_invalidate_all(&mut self)
        requires
            old(self).wf(),
        ensures
            final(self).wf(),
            final(self)@ == old(self)@.with_ram(
                RamState {
                    ic: match old(self)@.ram.ic {
                        Some(ic) => Some(ic.emptied()),
                        None => None,
                    },
                    ..old(self)@.ram
                },
            ),
    {
        self.ram.icache_invalidate_all();
    }

    pub fn icache_invalidate_line(&mut self, addr: u32)
        requires
            old(self).wf(),
        ensures
            final(self).wf(),
            final(self)@ == old(self)@.with_ram(
                RamState {
                    ic: match old(self)@.ram.ic {
                        Some(ic) => Some(ic.without(addr)),
                        None => None,
                    },
                    ..old(self)@.ram
                },
            ),
    {
        self.ram.icache_invalidate_line(addr);
    }

    /// Fetch a half-word. Outside SRAM nothing is executed.
    pub fn fetch_half(&mut self, addr: u32) -> (r: Result<u16, Exception>)
        requires
            old(self).wf(),
        ensures
            final(self).wf(),
            final(self)@ == old(self)@.with_ram(old(self)@.ram.after_fetch_half(addr)),
            r == old(self)@.ram.fetched_half(addr),
    {
        self.ram.fetch_half(addr)
    }

    /// Fetch a word, at any even address.
    pub fn fetch_word(&mut self, addr: u32) -> (r: Result<u32, Exception>)
        requires
            old(self).wf(),
            addr <= 0xFFFF_FFDF || addr % 2 != 0 || !old(self)@.ram.fetches_cached(),
        ensures
            final(self).wf(),
            final(self)@ == old(self)@.with_ram(old(self)@.ram.after_fetch_word(addr)),
            r == old(self)@.ram.fetched_word(addr),
    {
        self.ram.fetch_word(addr)
    }
}

/// Memory of the chip before anything ran.
pub open spec fn fresh_soc(image: Seq<u8>, boot_mode: BootMode) -> MemState {
    MemState {
        ram: RamState {
            bytes: image,
            base: 0,
            dc: Some(DcState::reset()),
            ic: Some(crate::cache::IcState::reset()),
        },
        bank: Some(BankState::fresh(boot_mode)),
        dccm_watch: None,
        reports: Seq::empty(),
        unmapped: false,
        watch: WatchState { entries: Seq::empty(), hit: None },
        trace: None,
        misaligned: MisalignedState { count: 0, hits: Seq::empty() },
    }
}

/// The chip starts with its image at address zero, both caches on and empty, the
/// peripherals of its boot mode, and nothing watched, traced or logged.
pub proof fn law_fresh_chip_is_quiet(image: Seq<u8>, boot_mode: BootMode, addr: u32)
    ensures
        ({
            let m = fresh_soc(image, boot_mode);
            &&& m.ram.bytes == image && m.ram.base == 0
            &&& m.ram.cached(addr) is None
            &&& addr < image.len() ==> m.ram.seen(addr) == image[addr as int]
            &&& m.bank == Some(BankState::fresh(boot_mode))
            &&& m.dccm_watch is None && m.reports.len() == 0 && !m.unmapped
            &&& m.watch.entries.len() == 0 && m.watch.hit is None && m.trace is None
            &&& m.misaligned.count == 0 && m.misaligned.hits.len() == 0
        }),
{
    crate::cache::law_caches_start_empty(addr);
}

} // verus!
