//! The data port: loads and stores of the core.
//!
//! The core neither traps on a misaligned access nor fixes it up. It clears the
//! low bits of the address for the width of the access and goes on, whichever
//! way the access then takes: through the cache, around it, or to a peripheral.

use vstd::prelude::*;

use super::observe::wrapped;
use super::{MemState, Memory, MisalignedDataHit, WatchMode};
use crate::cpu::exception::Exception;
use crate::memory::ram::RamState;
use crate::soc::devices::DevState;
use crate::soc::nco::Nco;
use crate::soc::peripheral::OpView;

verus! {

/// The address the core drives for an access of a width.
pub open spec fn effective(addr: u32, width: u32) -> u32 {
    if width == 4 {
        (addr - addr % 4) as u32
    } else if width == 2 {
        (addr - addr % 2) as u32
    } else {
        addr
    }
}

impl MemState {
    /// The memory once a misaligned access was logged.
    pub open spec fn aligned_down(self, addr: u32, width: u32, is_write: bool) -> MemState {
        if effective(addr, width) == addr {
            self
        } else {
            MemState {
                misaligned: self.misaligned.after(
                    MisalignedDataHit {
                        pc: match self.bank {
                            Some(b) => b.log.pc,
                            None => 0,
                        },
                        addr,
                        ea: effective(addr, width),
                        width: width as u8,
                        is_write,
                    },
                ),
                ..self
            }
        }
    }

    /// Whether one more misaligned access can be counted.
    pub open spec fn can_log(self, addr: u32, width: u32) -> bool {
        effective(addr, width) == addr || self.misaligned.count < u64::MAX
    }

    /// The memory once a data read was traced.
    pub open spec fn traced(self, addr: u32, size: u8, val: u32) -> MemState {
        match self.trace {
            Some(t) => MemState { trace: Some(t.after(addr, size, val)), ..self },
            None => self,
        }
    }

    /// Whether an access goes around the data cache.
    pub open spec fn bypasses(self, addr: u32, bypass: bool) -> bool {
        bypass || !self.ram.has(addr) || self.ram.dc is None || !self.ram.dc->0.enabled()
    }

    /// A byte as memory holds it, whatever the cache says.
    pub open spec fn backing_byte(self, addr: u32) -> Result<u8, Exception> {
        match self.bank {
            Some(bank) => if self.ram.has(addr) {
                Ok(self.ram.at(addr as int))
            } else {
                bank.byte_result(addr)
            },
            None => if addr < self.ram.bytes.len() {
                Ok(self.ram.bytes[addr as int])
            } else {
                self.out_of_bounds(addr)
            },
        }
    }

    pub open spec fn after_backing(self, addr: u32) -> MemState {
        if self.bank is Some && !self.ram.has(addr) {
            self.with_bank(self.bank->0.after_byte_read(addr))
        } else {
            self
        }
    }

    pub open spec fn can_back(self, addr: u32) -> bool {
        self.bank is Some && !self.ram.has(addr) ==> self.bank->0.can_read_narrow(addr)
    }

    /// The memory after `n` bytes were read one by one, up to the first that
    /// fails.
    pub open spec fn after_run(self, addr: u32, n: nat) -> MemState
        decreases n,
    {
        if n == 0 {
            self
        } else if self.run(addr, (n - 1) as nat) is Err {
            self.after_run(addr, (n - 1) as nat)
        } else {
            self.after_run(addr, (n - 1) as nat).after_backing(wrapped(addr, n - 1))
        }
    }

    /// Those bytes.
    pub open spec fn run(self, addr: u32, n: nat) -> Result<Seq<u8>, Exception>
        decreases n,
    {
        if n == 0 {
            Ok(Seq::empty())
        } else {
            match self.run(addr, (n - 1) as nat) {
                Err(e) => Err(e),
                Ok(s) => match self.after_run(addr, (n - 1) as nat).backing_byte(
                    wrapped(addr, n - 1),
                ) {
                    Err(e) => Err(e),
                    Ok(b) => Ok(s.push(b)),
                },
            }
        }
    }

    pub open spec fn can_run(self, addr: u32, n: nat) -> bool
        decreases n,
    {
        n == 0 || (self.can_run(addr, (n - 1) as nat) && self.after_run(
            addr,
            (n - 1) as nat,
        ).can_back(wrapped(addr, n - 1)))
    }

    /// What a byte load gives, before it is traced.
    pub open spec fn loaded_byte(self, addr: u32, bypass: bool) -> Result<u8, Exception> {
        if self.bypasses(addr, bypass) {
            self.backing_byte(addr)
        } else {
            Ok(self.ram.with_line(addr).cached(addr)->0)
        }
    }

    pub open spec fn after_byte_load(self, addr: u32, bypass: bool) -> MemState {
        let next = if self.bypasses(addr, bypass) {
            self.after_backing(addr)
        } else {
            self.with_ram(self.ram.with_line(addr))
        };
        match self.loaded_byte(addr, bypass) {
            Ok(v) => next.traced(addr, 1, v as u32),
            Err(_) => next,
        }
    }

    pub open spec fn can_load_byte(self, addr: u32, bypass: bool) -> bool {
        self.bypasses(addr, bypass) ==> self.can_back(addr)
    }

    /// What a half-word load gives, at an effective address.
    pub open spec fn loaded_half(self, ea: u32, bypass: bool) -> Result<u16, Exception> {
        if !self.bypasses(ea, bypass) {
            let ram = self.ram.with_line(ea);
            Ok(crate::cache::half_of(ram.cached(ea)->0, ram.cached((ea + 1) as u32)->0))
        } else if self.ram.has(ea) {
            match self.run(ea, 2) {
                Ok(s) => Ok(crate::cache::half_of(s[0], s[1])),
                Err(e) => Err(e),
            }
        } else {
            match self.bank {
                Some(bank) => bank.half_result(ea),
                None => Ok(0),
            }
        }
    }

    pub open spec fn half_loaded(self, ea: u32, bypass: bool) -> MemState {
        if !self.bypasses(ea, bypass) {
            self.with_ram(self.ram.with_line(ea))
        } else if self.ram.has(ea) {
            self.after_run(ea, 2)
        } else {
            match self.bank {
                Some(bank) => self.with_bank(bank.after_half_read(ea)),
                None => self,
            }
        }
    }

    pub open spec fn can_load_half(self, ea: u32, bypass: bool) -> bool {
        self.bypasses(ea, bypass) ==> if self.ram.has(ea) {
            self.can_run(ea, 2)
        } else {
            self.bank is Some ==> self.bank->0.can_read_narrow(ea)
        }
    }

    /// The memory after a half-word load: logged where it is misaligned, traced
    /// at the address the core drove.
    pub open spec fn after_half_load(self, addr: u32, bypass: bool) -> MemState {
        let ea = effective(addr, 2);
        let start = self.aligned_down(addr, 2, false);
        match start.loaded_half(ea, bypass) {
            Ok(v) => start.half_loaded(ea, bypass).traced(ea, 2, v as u32),
            Err(_) => start.half_loaded(ea, bypass),
        }
    }

    /// What a word load gives, at an effective address.
    pub open spec fn loaded_word(self, ea: u32, bypass: bool) -> Result<u32, Exception> {
        if !self.bypasses(ea, bypass) {
            let ram = self.ram.with_line(ea);
            Ok(
                crate::cache::word_of(
                    ram.cached(ea)->0,
                    ram.cached((ea + 1) as u32)->0,
                    ram.cached((ea + 2) as u32)->0,
                    ram.cached((ea + 3) as u32)->0,
                ),
            )
        } else if self.ram.has(ea) {
            match self.run(ea, 4) {
                Ok(s) => Ok(crate::cache::word_of(s[0], s[1], s[2], s[3])),
                Err(e) => Err(e),
            }
        } else {
            match self.bank {
                Some(bank) => bank.read_result(ea),
                None => Ok(0),
            }
        }
    }

    pub open spec fn word_loaded(self, ea: u32, bypass: bool) -> MemState {
        if !self.bypasses(ea, bypass) {
            self.with_ram(self.ram.with_line(ea))
        } else if self.ram.has(ea) {
            self.after_run(ea, 4)
        } else {
            match self.bank {
                Some(bank) => self.with_bank(bank.after_read(ea).drained()),
                None => self,
            }
        }
    }

    pub open spec fn can_load_word(self, ea: u32, bypass: bool) -> bool {
        self.bypasses(ea, bypass) ==> if self.ram.has(ea) {
            self.can_run(ea, 4)
        } else {
            self.bank is Some ==> self.bank_reads_word(ea)
        }
    }

    pub open spec fn after_word_load(self, addr: u32, bypass: bool) -> MemState {
        let ea = effective(addr, 4);
        let start = self.aligned_down(addr, 4, false);
        match start.loaded_word(ea, bypass) {
            Ok(v) => start.word_loaded(ea, bypass).traced(ea, 4, v),
            Err(_) => start.word_loaded(ea, bypass),
        }
    }

    /// The memory once an uncached store to the vector aperture reached the
    /// oscillator table behind it. SRAM takes the store as well.
    pub open spec fn mirrored(self, ea: u32, val: u32, size: u8, bypass: bool) -> MemState {
        if bypass && crate::soc::nco::in_ivt(ea) && self.bank is Some {
            let bank = self.bank->0;
            self.with_bank(
                bank.with_dev(
                    DevState { nco: bank.dev.nco.after_di_store(ea, val, size), ..bank.dev },
                ),
            )
        } else {
            self
        }
    }

    /// The memory when a store is on its way.
    pub open spec fn store_begun(
        self,
        ea: u32,
        val: u32,
        size: u8,
        bypass: bool,
    ) -> MemState {
        self.checked(ea, size as u32, WatchMode::Write).mirrored(ea, val, size, bypass)
    }

    pub open spec fn byte_store(self, addr: u32, val: u8, bypass: bool) -> Result<(), Exception> {
        let start = self.store_begun(addr, val as u32, 1, bypass);
        if start.bypasses(addr, bypass) {
            start.byte_write(addr)
        } else {
            Ok(())
        }
    }

    pub open spec fn after_byte_store(self, addr: u32, val: u8, bypass: bool) -> MemState {
        let start = self.store_begun(addr, val as u32, 1, bypass);
        if start.bypasses(addr, bypass) {
            start.after_byte_write(addr, val)
        } else {
            start.with_ram(start.ram.with_line(addr).marked(addr, val))
        }
    }

    pub open spec fn can_store_byte(self, addr: u32, val: u8, bypass: bool) -> bool {
        let start = self.store_begun(addr, val as u32, 1, bypass);
        start.bypasses(addr, bypass) ==> start.takes_byte(addr, val)
    }

    /// What a half-word store that is on its way gives.
    pub open spec fn half_landing(self, ea: u32, bypass: bool) -> Result<(), Exception> {
        if self.bypasses(ea, bypass) {
            self.half_write(ea)
        } else {
            Ok(())
        }
    }

    /// The memory once it has landed: in its line, or around the cache.
    pub open spec fn half_landed(self, ea: u32, val: u16, bypass: bool) -> MemState {
        if self.bypasses(ea, bypass) {
            self.after_half_write(ea, val)
        } else {
            self.with_ram(half_marked(self.ram.with_line(ea), ea, val))
        }
    }

    /// What a half-word store gives.
    pub open spec fn half_store(self, addr: u32, val: u16, bypass: bool) -> Result<(), Exception> {
        let ea = effective(addr, 2);
        self.aligned_down(addr, 2, true).store_begun(ea, val as u32, 2, bypass).half_landing(
            ea,
            bypass,
        )
    }

    pub open spec fn after_half_store(self, addr: u32, val: u16, bypass: bool) -> MemState {
        let ea = effective(addr, 2);
        self.aligned_down(addr, 2, true).store_begun(ea, val as u32, 2, bypass).half_landed(
            ea,
            val,
            bypass,
        )
    }

    pub open spec fn can_store_half(self, addr: u32, val: u16, bypass: bool) -> bool {
        let ea = effective(addr, 2);
        let start = self.aligned_down(addr, 2, true).store_begun(ea, val as u32, 2, bypass);
        start.bypasses(ea, bypass) ==> start.takes_half(ea, val)
    }

    /// What a word store that is on its way gives.
    pub open spec fn word_landing(self, ea: u32, val: u32, bypass: bool) -> Result<(), Exception> {
        if self.bypasses(ea, bypass) {
            self.word_write(ea, val)
        } else {
            Ok(())
        }
    }

    /// The memory once it has landed: in its line, or around the cache.
    pub open spec fn word_landed(self, ea: u32, val: u32, bypass: bool) -> MemState {
        if self.bypasses(ea, bypass) {
            self.after_word_write(ea, val)
        } else {
            self.with_ram(word_marked(self.ram.with_line(ea), ea, val))
        }
    }

    /// What a word store gives.
    pub open spec fn word_store(self, addr: u32, val: u32, bypass: bool) -> Result<(), Exception> {
        let ea = effective(addr, 4);
        self.aligned_down(addr, 4, true).store_begun(ea, val, 4, bypass).word_landing(
            ea,
            val,
            bypass,
        )
    }

    pub open spec fn after_word_store(self, addr: u32, val: u32, bypass: bool) -> MemState {
        let ea = effective(addr, 4);
        self.aligned_down(addr, 4, true).store_begun(ea, val, 4, bypass).word_landed(
            ea,
            val,
            bypass,
        )
    }

    pub open spec fn can_store_word(self, addr: u32, val: u32, bypass: bool) -> bool {
        let ea = effective(addr, 4);
        let start = self.aligned_down(addr, 4, true).store_begun(ea, val, 4, bypass);
        start.bypasses(ea, bypass) ==> start.takes_word(ea, val)
    }
}

/// A cached half-word stored in its line, high byte first.
pub open spec fn half_marked(ram: RamState, ea: u32, val: u16) -> RamState {
    ram.marked(ea, (val >> 8) as u8).marked((ea + 1) as u32, val as u8)
}

/// A cached word stored in its line, high byte first.
pub open spec fn word_marked(ram: RamState, ea: u32, val: u32) -> RamState {
    ram.marked(ea, (val >> 24) as u8).marked((ea + 1) as u32, (val >> 16) as u8).marked(
        (ea + 2) as u32,
        (val >> 8) as u8,
    ).marked((ea + 3) as u32, val as u8)
}

/// The whole of an aligned access is cached once its first byte is.
pub proof fn lemma_rest_is_cached(ram: RamState, ea: u32, k: int)
    requires
        ram.dc is Some,
        ram.dc->0.enabled(),
        ram.dc->0.hit(ea) is Some,
        0 <= k,
        ea % 32 + k < 32,
    ensures
        ea + k <= u32::MAX,
        ram.cached((ea + k) as u32) is Some,
{
    crate::cache::lemma_same_line(ea, k);
}

proof fn lemma_can_run_on(m: MemState, addr: u32, i: nat, n: nat)
    requires
        i <= n,
        m.can_run(addr, n),
    ensures
        m.can_run(addr, i),
    decreases n - i,
{
    if i < n {
        lemma_can_run_on(m, addr, i + 1, n);
    }
}

/// A run that failed once stays failed and reads no further.
proof fn lemma_run_stops(m: MemState, addr: u32, i: nat, n: nat)
    requires
        i <= n,
        m.run(addr, i) is Err,
    ensures
        m.run(addr, n) == m.run(addr, i),
        m.after_run(addr, n) == m.after_run(addr, i),
    decreases n,
{
    if i < n {
        lemma_run_stops(m, addr, i, (n - 1) as nat);
    }
}

impl Memory {
    fn record_misaligned(&mut self, addr: u32, ea: u32, width: u8, is_write: bool)
        requires
            old(self).wf(),
            old(self)@.misaligned.count < u64::MAX,
        ensures
            final(self).wf(),
            final(self)@ == (MemState {
                misaligned: old(self)@.misaligned.after(
                    MisalignedDataHit {
                        pc: match old(self)@.bank {
                            Some(b) => b.log.pc,
                            None => 0,
                        },
                        addr,
                        ea,
                        width,
                        is_write,
                    },
                ),
                ..old(self)@
            }),
    {
        let (pc, _) = self.bank_context();
        self.misaligned_data.record(MisalignedDataHit { pc, addr, ea, width, is_write });
    }

    /// The address the core drives for an access.
    fn data_effective_addr(&mut self, addr: u32, width: u32, is_write: bool) -> (r: u32)
        requires
            old(self).wf(),
            width == 2 || width == 4,
            old(self)@.can_log(addr, width),
        ensures
            final(self).wf(),
            r == effective(addr, width),
            final(self)@ == old(self)@.aligned_down(addr, width, is_write),
    {
        let ea: u32 = addr - addr % width;
        if ea != addr {
            self.record_misaligned(addr, ea, width as u8, is_write);
        }
        ea
    }

    fn trace_data_read(&mut self, addr: u32, size: u8, val: u32)
        requires
            old(self).wf(),
        ensures
            final(self).wf(),
            final(self)@ == old(self)@.traced(addr, size, val),
    {
        if let Some(t) = &mut self.read_trace {
            t.record(addr, size, val);
        }
    }

    fn goes_around(&self, addr: u32, bypass: bool) -> (r: bool)
        ensures
            r == self@.bypasses(addr, bypass),
    {
        bypass || self.ram.offset(addr).is_none() || !self.ram.dcache_enabled()
    }

    fn read_byte_backing(&mut self, addr: u32) -> (r: Result<u8, Exception>)
        requires
            old(self).wf(),
            old(self)@.can_back(addr),
        ensures
            final(self).wf(),
            r == old(self)@.backing_byte(addr),
            final(self)@ == old(self)@.after_backing(addr),
    {
        if self.bank.is_some() {
            if self.ram.offset(addr).is_some() {
                return Ok(self.ram.load(addr));
            }
            return self.bank_byte(addr);
        }
        if (addr as usize) < self.ram.data.len() {
            Ok(self.ram.data[addr as usize])
        } else {
            Err(Exception::MemoryError { address: addr, is_write: false })
        }
    }

    fn ensure_cache_line(&mut self, addr: u32)
        requires
            old(self).wf(),
            old(self)@.ram.dc is Some,
            old(self)@.ram.has(addr),
        ensures
            final(self).wf(),
            final(self)@ == old(self)@.with_ram(old(self)@.ram.with_line(addr)),
            final(self)@.ram.dc is Some,
            final(self)@.ram.dc->0.hit(addr) is Some,
            final(self)@.ram.dc->0.ctrl == old(self)@.ram.dc->0.ctrl,
    {
        self.ram.ensure_line(addr);
    }

    fn read_byte_data_inner(&mut self, addr: u32, bypass: bool) -> (r: Result<u8, Exception>)
        requires
            old(self).wf(),
            old(self)@.can_load_byte(addr, bypass),
        ensures
            final(self).wf(),
            r == old(self)@.loaded_byte(addr, bypass),
            final(self)@ == (if old(self)@.bypasses(addr, bypass) {
                old(self)@.after_backing(addr)
            } else {
                old(self)@.with_ram(old(self)@.ram.with_line(addr))
            }),
    {
        if self.goes_around(addr, bypass) {
            return self.read_byte_backing(addr);
        }
        self.ensure_cache_line(addr);
        Ok(self.ram.read_line_byte(addr))
    }

    /// Load a byte.
    pub fn read_byte_data(&mut self, addr: u32, cache_bypass: bool) -> (r: Result<u8, Exception>)
        requires
            old(self).wf(),
            old(self)@.can_load_byte(addr, cache_bypass),
        ensures
            final(self).wf(),
            r == old(self)@.loaded_byte(addr, cache_bypass),
            final(self)@ == old(self)@.after_byte_load(addr, cache_bypass),
    {
        let r = self.read_byte_data_inner(addr, cache_bypass);
        if let Ok(v) = r {
            self.trace_data_read(addr, 1, v as u32);
        }
        r
    }

    /// Read bytes one by one, whatever the cache says.
    fn read_run(&mut self, ea: u32, n: u32) -> (r: Result<Vec<u8>, Exception>)
        requires
            old(self).wf(),
            n <= 4,
            old(self)@.can_run(ea, n as nat),
        ensures
            final(self).wf(),
            r is Ok <==> old(self)@.run(ea, n as nat) is Ok,
            r is Ok ==> (r->Ok_0)@ == old(self)@.run(ea, n as nat)->Ok_0 && (r->Ok_0)@.len() == n,
            r is Err ==> r->Err_0 == old(self)@.run(ea, n as nat)->Err_0,
            final(self)@ == old(self)@.after_run(ea, n as nat),
    {
        let ghost start = self@;
        let mut out: Vec<u8> = Vec::new();
        for i in 0..n
            invariant
                n <= 4,
                start == old(self)@,
                self.wf(),
                start.can_run(ea, n as nat),
                self@ == start.after_run(ea, i as nat),
                start.run(ea, i as nat) == Ok::<Seq<u8>, Exception>(out@),
                out@.len() == i,
        {
            proof {
                lemma_can_run_on(start, ea, (i + 1) as nat, n as nat);
            }
            match self.read_byte_backing(super::observe::next_addr(ea, i)) {
                Ok(b) => out.push(b),
                Err(e) => {
                    proof {
                        lemma_run_stops(start, ea, (i + 1) as nat, n as nat);
                    }
                    return Err(e);
                },
            }
        }
        Ok(out)
    }

    fn run_half(&mut self, ea: u32) -> (r: Result<u16, Exception>)
        requires
            old(self).wf(),
            old(self)@.can_run(ea, 2),
        ensures
            final(self).wf(),
            r == (match old(self)@.run(ea, 2) {
                Ok(s) => Ok(crate::cache::half_of(s[0], s[1])),
                Err(e) => Err::<u16, Exception>(e),
            }),
            final(self)@ == old(self)@.after_run(ea, 2),
    {
        match self.read_run(ea, 2) {
            Ok(b) => Ok(((b[0] as u16) << 8) | (b[1] as u16)),
            Err(e) => Err(e),
        }
    }

    fn read_half_data_inner(&mut self, ea: u32, bypass: bool) -> (r: Result<u16, Exception>)
        requires
            old(self).wf(),
            ea % 2 == 0,
            old(self)@.can_load_half(ea, bypass),
        ensures
            final(self).wf(),
            r == old(self)@.loaded_half(ea, bypass),
            final(self)@ == old(self)@.half_loaded(ea, bypass),
    {
        if self.goes_around(ea, bypass) {
            if self.ram.offset(ea).is_none() {
                if self.bank.is_some() {
                    return self.bank_half(ea);
                }
                return Ok(0);
            }
            return self.run_half(ea);
        }
        self.ensure_cache_line(ea);
        proof {
            lemma_rest_is_cached(self@.ram, ea, 1);
        }
        let hi: u8 = self.ram.read_line_byte(ea);
        let lo: u8 = self.ram.read_line_byte(ea + 1);
        Ok(((hi as u16) << 8) | (lo as u16))
    }

    /// Load a half-word.
    pub fn read_half_data(&mut self, addr: u32, cache_bypass: bool) -> (r: Result<u16, Exception>)
        requires
            old(self).wf(),
            old(self)@.can_log(addr, 2),
            old(self)@.aligned_down(addr, 2, false).can_load_half(
                effective(addr, 2),
                cache_bypass,
            ),
        ensures
            final(self).wf(),
            r == old(self)@.aligned_down(addr, 2, false).loaded_half(
                effective(addr, 2),
                cache_bypass,
            ),
            final(self)@ == old(self)@.after_half_load(addr, cache_bypass),
    {
        let ea: u32 = self.data_effective_addr(addr, 2, false);
        let r = self.read_half_data_inner(ea, cache_bypass);
        if let Ok(v) = r {
            self.trace_data_read(ea, 2, v as u32);
        }
        r
    }

    fn run_word(&mut self, ea: u32) -> (r: Result<u32, Exception>)
        requires
            old(self).wf(),
            old(self)@.can_run(ea, 4),
        ensures
            final(self).wf(),
            r == (match old(self)@.run(ea, 4) {
                Ok(s) => Ok(crate::cache::word_of(s[0], s[1], s[2], s[3])),
                Err(e) => Err::<u32, Exception>(e),
            }),
            final(self)@ == old(self)@.after_run(ea, 4),
    {
        match self.read_run(ea, 4) {
            Ok(b) => Ok(
                ((b[0] as u32) << 24) | ((b[1] as u32) << 16) | ((b[2] as u32) << 8) | (b[3] as u32),
            ),
            Err(e) => Err(e),
        }
    }

    fn read_word_data_inner(&mut self, ea: u32, bypass: bool) -> (r: Result<u32, Exception>)
        requires
            old(self).wf(),
            ea % 4 == 0,
            old(self)@.can_load_word(ea, bypass),
        ensures
            final(self).wf(),
            r == old(self)@.loaded_word(ea, bypass),
            final(self)@ == old(self)@.word_loaded(ea, bypass),
    {
        if self.goes_around(ea, bypass) {
            if self.ram.offset(ea).is_none() {
                if self.bank.is_some() {
                    return self.bank_word(ea);
                }
                return Ok(0);
            }
            return self.run_word(ea);
        }
        self.ensure_cache_line(ea);
        proof {
            lemma_rest_is_cached(self@.ram, ea, 1);
            lemma_rest_is_cached(self@.ram, ea, 2);
            lemma_rest_is_cached(self@.ram, ea, 3);
        }
        let b0: u8 = self.ram.read_line_byte(ea);
        let b1: u8 = self.ram.read_line_byte(ea + 1);
        let b2: u8 = self.ram.read_line_byte(ea + 2);
        let b3: u8 = self.ram.read_line_byte(ea + 3);
        Ok(((b0 as u32) << 24) | ((b1 as u32) << 16) | ((b2 as u32) << 8) | (b3 as u32))
    }

    /// Load a word.
    pub fn read_word_data(&mut self, addr: u32, cache_bypass: bool) -> (r: Result<u32, Exception>)
        requires
            old(self).wf(),
            old(self)@.can_log(addr, 4),
            old(self)@.aligned_down(addr, 4, false).can_load_word(
                effective(addr, 4),
                cache_bypass,
            ),
        ensures
            final(self).wf(),
            r == old(self)@.aligned_down(addr, 4, false).loaded_word(
                effective(addr, 4),
                cache_bypass,
            ),
            final(self)@ == old(self)@.after_word_load(addr, cache_bypass),
    {
        let ea: u32 = self.data_effective_addr(addr, 4, false);
        let r = self.read_word_data_inner(ea, cache_bypass);
        if let Ok(v) = r {
            self.trace_data_read(ea, 4, v);
        }
        r
    }

    fn nco_ivt_mirror(&mut self, ea: u32, val: u32, size: u8, bypass: bool)
        requires
            old(self).wf(),
        ensures
            final(self).wf(),
            final(self)@ == old(self)@.mirrored(ea, val, size, bypass),
    {
        if bypass && Nco::in_ivt_aperture(ea) {
            if let Some(bank) = &mut self.bank {
                bank.nco.ivt_di_store(ea, val, size);
            }
        }
    }

    fn begin_store(&mut self, ea: u32, val: u32, size: u8, bypass: bool)
        requires
            old(self).wf(),
        ensures
            final(self).wf(),
            final(self)@ == old(self)@.store_begun(ea, val, size, bypass),
    {
        self.check_watch(ea, size as u32, WatchMode::Write);
        self.nco_ivt_mirror(ea, val, size, bypass);
    }

    fn mark_byte(&mut self, addr: u32, val: u8)
        requires
            old(self).wf(),
            old(self)@.ram.dc is Some,
        ensures
            final(self).wf(),
            final(self)@ == old(self)@.with_ram(old(self)@.ram.marked(addr, val)),
    {
        self.ram.write_line_byte(addr, val);
    }

    /// Store a byte.
    pub fn write_byte_data(&mut self, addr: u32, val: u8, cache_bypass: bool) -> (r: Result<
        (),
        Exception,
    >)
        requires
            old(self).wf(),
            old(self)@.can_store_byte(addr, val, cache_bypass),
        ensures
            final(self).wf(),
            r == old(self)@.byte_store(addr, val, cache_bypass),
            final(self)@ == old(self)@.after_byte_store(addr, val, cache_bypass),
    {
        self.begin_store(addr, val as u32, 1, cache_bypass);
        if self.goes_around(addr, cache_bypass) {
            return self.write_byte(addr, val);
        }
        self.ensure_cache_line(addr);
        self.mark_byte(addr, val);
        Ok(())
    }

    fn mark_half(&mut self, ea: u32, val: u16)
        requires
            old(self).wf(),
            old(self)@.ram.dc is Some,
            ea % 2 == 0,
        ensures
            final(self).wf(),
            final(self)@ == old(self)@.with_ram(half_marked(old(self)@.ram, ea, val)),
    {
        self.mark_byte(ea, (val >> 8) as u8);
        self.mark_byte(ea + 1, val as u8);
    }

    fn land_half(&mut self, ea: u32, val: u16, bypass: bool) -> (r: Result<(), Exception>)
        requires
            old(self).wf(),
            ea % 2 == 0,
            old(self)@.bypasses(ea, bypass) ==> old(self)@.takes_half(ea, val),
        ensures
            final(self).wf(),
            r == old(self)@.half_landing(ea, bypass),
            final(self)@ == old(self)@.half_landed(ea, val, bypass),
    {
        if self.goes_around(ea, bypass) {
            return self.write_half(ea, val);
        }
        self.ensure_cache_line(ea);
        self.mark_half(ea, val);
        Ok(())
    }

    /// Store a half-word.
    pub fn write_half_data(&mut self, addr: u32, val: u16, cache_bypass: bool) -> (r: Result<
        (),
        Exception,
    >)
        requires
            old(self).wf(),
            old(self)@.can_log(addr, 2),
            old(self)@.can_store_half(addr, val, cache_bypass),
        ensures
            final(self).wf(),
            r == old(self)@.half_store(addr, val, cache_bypass),
            final(self)@ == old(self)@.after_half_store(addr, val, cache_bypass),
    {
        let ea: u32 = self.data_effective_addr(addr, 2, true);
        self.begin_store(ea, val as u32, 2, cache_bypass);
        self.land_half(ea, val, cache_bypass)
    }

    fn mark_word(&mut self, ea: u32, val: u32)
        requires
            old(self).wf(),
            old(self)@.ram.dc is Some,
            ea % 4 == 0,
        ensures
            final(self).wf(),
            final(self)@ == old(self)@.with_ram(word_marked(old(self)@.ram, ea, val)),
    {
        self.mark_byte(ea, (val >> 24) as u8);
        self.mark_byte(ea + 1, (val >> 16) as u8);
        self.mark_byte(ea + 2, (val >> 8) as u8);
        self.mark_byte(ea + 3, val as u8);
    }

    fn land_word(&mut self, ea: u32, val: u32, bypass: bool) -> (r: Result<(), Exception>)
        requires
            old(self).wf(),
            ea % 4 == 0,
            old(self)@.bypasses(ea, bypass) ==> old(self)@.takes_word(ea, val),
        ensures
            final(self).wf(),
            r == old(self)@.word_landing(ea, val, bypass),
            final(self)@ == old(self)@.word_landed(ea, val, bypass),
    {
        if self.goes_around(ea, bypass) {
            return self.write_word(ea, val);
        }
        self.ensure_cache_line(ea);
        self.mark_word(ea, val);
        Ok(())
    }

    /// Store a word.
    pub fn write_word_data(&mut self, addr: u32, val: u32, cache_bypass: bool) -> (r: Result<
        (),
        Exception,
    >)
        requires
            old(self).wf(),
            old(self)@.can_log(addr, 4),
            old(self)@.can_store_word(addr, val, cache_bypass),
        ensures
            final(self).wf(),
            r == old(self)@.word_store(addr, val, cache_bypass),
            final(self)@ == old(self)@.after_word_store(addr, val, cache_bypass),
    {
        let ea: u32 = self.data_effective_addr(addr, 4, true);
        self.begin_store(ea, val, 4, cache_bypass);
        self.land_word(ea, val, cache_bypass)
    }
}

/// An uncached load sees what SRAM holds, not what waits in the cache.
pub proof fn law_uncached_loads_see_sram(m: MemState, ea: u32)
    requires
        m.wf(),
        m.bank is Some,
        m.ram.has_run(ea, 4),
    ensures
        m.loaded_word(ea, true) == m.ram.sram_word(ea),
        m.word_loaded(ea, true) == m,
{
    reveal_with_fuel(MemState::run, 5);
    reveal_with_fuel(MemState::after_run, 5);
    assert(wrapped(ea, 0) == ea);
    assert(wrapped(ea, 1) == ea + 1);
    assert(wrapped(ea, 2) == ea + 2);
    assert(wrapped(ea, 3) == ea + 3);
}

/// An observer reports the bytes at the address it is asked for, aligned or
/// not, where nothing of them waits in the cache.
pub proof fn law_observers_do_not_round(m: MemState, addr: u32)
    requires
        m.bank is Some,
        m.ram.has_run(addr, 4),
        m.ram.cached(addr) is None,
    ensures
        m.word_read(addr) == Ok::<u32, Exception>(
            crate::cache::word_of(
                m.ram.at(addr as int),
                m.ram.at(addr + 1),
                m.ram.at(addr + 2),
                m.ram.at(addr + 3),
            ),
        ),
        m.half_read(addr) == Ok::<u16, Exception>(
            crate::cache::half_of(m.ram.at(addr as int), m.ram.at(addr + 1)),
        ),
{
}

/// A misaligned load reads what the aligned one reads. The mask is per width:
/// a half-word load off by three reads the upper half.
pub proof fn law_misaligned_loads_move_down(m: MemState, addr: u32, bypass: bool)
    ensures
        ({
            let ea4 = effective(addr, 4);
            let ea2 = effective(addr, 2);
            &&& ea4 % 4 == 0 && ea4 <= addr && addr - ea4 < 4
            &&& ea2 % 2 == 0 && ea2 <= addr && addr - ea2 < 2
            &&& m.aligned_down(addr, 4, false).loaded_word(ea4, bypass) == m.loaded_word(
                ea4,
                bypass,
            )
            &&& m.aligned_down(addr, 2, false).loaded_half(ea2, bypass) == m.loaded_half(
                ea2,
                bypass,
            )
        }),
{
    lemma_run_ignores_the_log(m, m.aligned_down(addr, 4, false), effective(addr, 4), 4);
    lemma_run_ignores_the_log(m, m.aligned_down(addr, 2, false), effective(addr, 2), 2);
}

/// A misaligned word store leaves memory and peripherals as the aligned one
/// does; only the log tells them apart.
#[verifier::rlimit(60)]
pub proof fn law_misaligned_word_stores_move_down(m: MemState, addr: u32, val: u32, bypass: bool)
    ensures
        ({
            let ea = effective(addr, 4);
            let moved = m.after_word_store(addr, val, bypass);
            let aligned = m.after_word_store(ea, val, bypass);
            &&& m.word_store(addr, val, bypass) == m.word_store(ea, val, bypass)
            &&& moved.ram == aligned.ram
            &&& moved.bank == aligned.bank
        }),
{
    let ea = effective(addr, 4);
    let a = m.aligned_down(addr, 4, true).store_begun(ea, val, 4, bypass);
    let b = m.store_begun(ea, val, 4, bypass);
    assert(a.ram == b.ram && a.bank == b.bank);
    lemma_word_writes_agree(a, b, ea, val);
}

proof fn lemma_word_writes_agree(a: MemState, b: MemState, ea: u32, val: u32)
    requires
        a.ram == b.ram,
        a.bank == b.bank,
    ensures
        a.after_word_write(ea, val).ram == b.after_word_write(ea, val).ram,
        a.after_word_write(ea, val).bank == b.after_word_write(ea, val).bank,
        a.word_write(ea, val) == b.word_write(ea, val),
{
    if a.bank is Some {
        let w = a.bank->0.after_write(ea, val).drained();
        lemma_work_ignores_the_log(
            a.checked(ea, 4, WatchMode::Write).with_bank(w),
            b.checked(ea, 4, WatchMode::Write).with_bank(w),
        );
    }
}

/// A misaligned half-word store leaves memory and peripherals as the aligned
/// one does.
#[verifier::rlimit(60)]
pub proof fn law_misaligned_half_stores_move_down(m: MemState, addr: u32, val: u16, bypass: bool)
    ensures
        ({
            let ea = effective(addr, 2);
            let moved = m.after_half_store(addr, val, bypass);
            let aligned = m.after_half_store(ea, val, bypass);
            &&& m.half_store(addr, val, bypass) == m.half_store(ea, val, bypass)
            &&& moved.ram == aligned.ram
            &&& moved.bank == aligned.bank
        }),
{
    let ea = effective(addr, 2);
    let a = m.aligned_down(addr, 2, true).store_begun(ea, val as u32, 2, bypass);
    let b = m.store_begun(ea, val as u32, 2, bypass);
    assert(a.ram == b.ram && a.bank == b.bank);
    lemma_half_writes_agree(a, b, ea, val);
}

proof fn lemma_half_writes_agree(a: MemState, b: MemState, ea: u32, val: u16)
    requires
        a.ram == b.ram,
        a.bank == b.bank,
    ensures
        a.after_half_write(ea, val).ram == b.after_half_write(ea, val).ram,
        a.after_half_write(ea, val).bank == b.after_half_write(ea, val).bank,
        a.half_write(ea) == b.half_write(ea),
{
    if a.bank is Some {
        let w = a.bank->0.after_half_write(ea, val);
        lemma_work_ignores_the_log(
            a.checked(ea, 2, WatchMode::Write).with_bank(w),
            b.checked(ea, 2, WatchMode::Write).with_bank(w),
        );
    }
}

/// What work does to memory does not depend on what was logged.
proof fn lemma_work_ignores_the_log(a: MemState, b: MemState)
    requires
        a.ram == b.ram,
        a.bank == b.bank,
    ensures
        a.worked_off().ram == b.worked_off().ram,
        a.worked_off().bank == b.worked_off().bank,
{
    reveal(MemState::worked_off);
    if a.bank is Some {
        let taken = crate::memory::datapath::work_taken(a.bank->0);
        lemma_ops_ignore_the_log(
            a.with_bank(taken),
            b.with_bank(taken),
            crate::memory::datapath::work_of(a.bank->0),
        );
    }
}

proof fn lemma_ops_ignore_the_log(a: MemState, b: MemState, ops: Seq<OpView>)
    requires
        a.ram == b.ram,
        a.bank == b.bank,
    ensures
        a.after_ops(ops).ram == b.after_ops(ops).ram,
        a.after_ops(ops).bank == b.after_ops(ops).bank,
    decreases ops.len(),
{
    if ops.len() > 0 {
        lemma_ops_ignore_the_log(a, b, ops.drop_last());
    }
}

/// Which bytes a run of reads gives does not depend on what was logged.
proof fn lemma_run_ignores_the_log(a: MemState, b: MemState, addr: u32, n: nat)
    requires
        a.ram == b.ram,
        a.bank == b.bank,
    ensures
        a.run(addr, n) == b.run(addr, n),
        a.after_run(addr, n).ram == b.after_run(addr, n).ram,
        a.after_run(addr, n).bank == b.after_run(addr, n).bank,
    decreases n,
{
    if n > 0 {
        lemma_run_ignores_the_log(a, b, addr, (n - 1) as nat);
    }
}

/// Byte accesses go where they are asked to; wider ones go to the aligned
/// address at or below. A misaligned access is logged with both addresses, its
/// width, its direction and the instruction, and an aligned one is not.
pub proof fn law_misaligned_access_is_logged(m: MemState, addr: u32, is_write: bool)
    requires
        m.bank is Some,
    ensures
        effective(addr, 1) == addr,
        effective(addr, 2) == addr / 2 * 2,
        effective(addr, 4) == addr / 4 * 4,
        m.aligned_down(addr, 1, is_write) == m,
        addr % 4 == 0 ==> m.aligned_down(addr, 4, is_write) == m,
        addr % 2 == 0 ==> m.aligned_down(addr, 2, is_write) == m,
        addr % 4 != 0 ==> m.aligned_down(addr, 4, is_write) == (MemState {
            misaligned: m.misaligned.after(
                MisalignedDataHit {
                    pc: m.bank->0.log.pc,
                    addr,
                    ea: (addr / 4 * 4) as u32,
                    width: 4,
                    is_write,
                },
            ),
            ..m
        }),
        addr % 2 != 0 ==> m.aligned_down(addr, 2, is_write) == (MemState {
            misaligned: m.misaligned.after(
                MisalignedDataHit {
                    pc: m.bank->0.log.pc,
                    addr,
                    ea: (addr / 2 * 2) as u32,
                    width: 2,
                    is_write,
                },
            ),
            ..m
        }),
{
}

/// An access goes around the cache where it asks to, outside SRAM, and while the
/// cache is off or there is none.
pub proof fn law_what_goes_around_the_cache(m: MemState, addr: u32, bypass: bool)
    ensures
        bypass ==> m.bypasses(addr, bypass),
        !m.ram.has(addr) ==> m.bypasses(addr, bypass),
        m.ram.dc is None ==> m.bypasses(addr, bypass),
        m.ram.dc is Some && m.ram.dc->0.ctrl & 1 != 0 ==> m.bypasses(addr, bypass),
        !bypass && m.ram.has(addr) && m.ram.dc is Some && m.ram.dc->0.ctrl & 1 == 0 ==> !m.bypasses(
            addr,
            bypass,
        ),
{
}

/// An uncached store below 0x80 reaches the oscillator table, in the width of
/// the store; no other store does.
pub proof fn law_uncached_low_stores_reach_the_oscillators(
    m: MemState,
    ea: u32,
    val: u32,
    size: u8,
    bypass: bool,
)
    requires
        m.bank is Some,
    ensures
        ({
            let after = m.store_begun(ea, val, size, bypass);
            let before = m.bank->0.dev;
            &&& after.bank is Some
            &&& bypass && ea < 0x80 ==> after.bank->0.dev == (DevState {
                nco: before.nco.after_di_store(ea, val, size),
                ..before
            })
            &&& !bypass || ea >= 0x80 ==> after.bank == m.bank
            &&& after.ram == m.ram
            &&& after.watch == m.watch.checked(ea, size as u32, WatchMode::Write)
        }),
{
}

/// A store around the cache leaves its bytes in SRAM, the highest first.
pub proof fn law_uncached_stores_stand_in_sram(m: MemState, addr: u32, val: u32, half: u16, byte: u8)
    requires
        m.wf(),
        m.bank is Some,
        m.ram.has_run(addr, 4),
    ensures
        ({
            let w = m.after_word_write(addr, val).ram;
            let h = m.after_half_write(addr, half).ram;
            let b = m.after_byte_write(addr, byte).ram;
            &&& w.at(addr as int) == val / 0x0100_0000
            &&& w.at(addr + 1) == (val / 0x1_0000) % 0x100
            &&& w.at(addr + 2) == (val / 0x100) % 0x100
            &&& w.at(addr + 3) == val % 0x100
            &&& h.at(addr as int) == half / 0x100
            &&& h.at(addr + 1) == half % 0x100
            &&& b.at(addr as int) == byte
            &&& forall|i: int|
                0 <= i < m.ram.bytes.len() && !(addr - m.ram.base <= i < addr - m.ram.base + 4)
                    ==> w.bytes[i] == m.ram.bytes[i] && h.bytes[i] == m.ram.bytes[i] && b.bytes[i]
                    == m.ram.bytes[i]
            &&& m.word_write(addr, val) is Ok && m.half_write(addr) is Ok && m.byte_write(addr) is Ok
        }),
{
    crate::bits::lemma_fields(val);
    crate::bits::lemma_fields(val >> 16);
    crate::bits::lemma_fields(val >> 8);
    crate::bits::lemma_fields(val >> 24);
    let wide = half as u32;
    crate::bits::lemma_fields(wide);
    crate::bits::lemma_fields(wide >> 8);
    assert((half >> 8) as u8 == (wide >> 8) as u8);
    assert(half as u8 == wide as u8);
}

/// A load around the cache gives what SRAM holds, the first byte highest.
pub proof fn law_uncached_loads_read_big_endian(m: MemState, ea: u32)
    requires
        m.wf(),
        m.bank is Some,
        m.ram.has_run(ea, 4),
    ensures
        m.loaded_word(ea, true) == Ok::<u32, Exception>(
            (m.ram.at(ea as int) * 0x0100_0000 + m.ram.at(ea + 1) * 0x1_0000 + m.ram.at(ea + 2)
                * 0x100 + m.ram.at(ea + 3)) as u32,
        ),
        m.loaded_half(ea, true) == Ok::<u16, Exception>(
            (m.ram.at(ea as int) * 0x100 + m.ram.at(ea + 1)) as u16,
        ),
        m.loaded_byte(ea, true) == Ok::<u8, Exception>(m.ram.at(ea as int)),
        m.ram.cached(ea) is None ==> m.word_read(ea) == m.loaded_word(ea, true) && m.half_read(ea)
            == m.loaded_half(ea, true) && m.byte_read(ea) == m.loaded_byte(ea, true),
{
    law_uncached_loads_see_sram(m, ea);
    reveal_with_fuel(MemState::run, 3);
    reveal_with_fuel(MemState::after_run, 3);
    assert(wrapped(ea, 0) == ea);
    assert(wrapped(ea, 1) == ea + 1);
    crate::cache::law_first_byte_is_highest(
        m.ram.at(ea as int),
        m.ram.at(ea + 1),
        m.ram.at(ea + 2),
        m.ram.at(ea + 3),
    );
}

/// Flat memory takes aligned accesses inside its bounds, and tells the others
/// apart: one off its alignment is misaligned, one past the end fails.
pub proof fn law_flat_memory_checks_its_accesses(m: MemState, addr: u32, val: u32)
    requires
        m.bank is None,
    ensures
        addr % 4 != 0 ==> m.word_read(addr) == Err::<u32, Exception>(
            Exception::MisalignedAccess { address: addr },
        ) && m.word_write(addr, val) == Err::<(), Exception>(
            Exception::MisalignedAccess { address: addr },
        ),
        addr % 2 != 0 ==> m.half_read(addr) == Err::<u16, Exception>(
            Exception::MisalignedAccess { address: addr },
        ) && m.half_write(addr) == Err::<(), Exception>(
            Exception::MisalignedAccess { address: addr },
        ),
        addr % 4 == 0 && addr + 4 > m.ram.bytes.len() ==> m.word_read(addr) == Err::<
            u32,
            Exception,
        >(Exception::MemoryError { address: addr, is_write: false }) && m.word_write(addr, val)
            == Err::<(), Exception>(Exception::MemoryError { address: addr, is_write: false }),
        addr >= m.ram.bytes.len() ==> m.byte_read(addr) == Err::<u8, Exception>(
            Exception::MemoryError { address: addr, is_write: false },
        ),
        addr % 4 == 0 && addr + 4 <= m.ram.bytes.len() ==> m.word_read(addr) == Ok::<
            u32,
            Exception,
        >(
            (m.ram.bytes[addr as int] * 0x0100_0000 + m.ram.bytes[addr + 1] * 0x1_0000
                + m.ram.bytes[addr + 2] * 0x100 + m.ram.bytes[addr + 3]) as u32,
        ) && m.word_write(addr, val) is Ok,
{
    if addr % 4 == 0 && addr + 4 <= m.ram.bytes.len() {
        crate::cache::law_first_byte_is_highest(
            m.ram.bytes[addr as int],
            m.ram.bytes[addr + 1],
            m.ram.bytes[addr + 2],
            m.ram.bytes[addr + 3],
        );
    }
}

/// An access outside SRAM is the bank's: it is asked for the address, and an
/// access off its alignment reads zero and takes nothing.
pub proof fn law_bank_answers_outside_sram(m: MemState, addr: u32, val: u32)
    requires
        m.wf(),
        m.bank is Some,
        m.cached_word(addr) is None,
        m.cached_half(addr) is None,
        m.ram.cached(addr) is None,
        !m.ram.has(addr),
        !m.ram.has_run(addr, 2),
        !m.ram.has_run(addr, 4),
    ensures
        addr % 4 == 0 ==> m.word_read(addr) == m.bank->0.read_result(addr) && m.word_write(
            addr,
            val,
        ) == m.bank->0.write_result(addr, val),
        addr % 4 != 0 ==> m.word_read(addr) == Ok::<u32, Exception>(0) && m.word_write(
            addr,
            val,
        ) is Ok && m.after_word_write(addr, val).bank == m.bank && m.after_word_write(addr, val).ram
            == m.ram,
        addr % 2 == 0 ==> m.half_read(addr) == m.bank->0.half_result(addr),
        addr % 2 != 0 ==> m.half_read(addr) == Ok::<u16, Exception>(0),
        m.byte_read(addr) == m.bank->0.byte_result(addr),
        m.byte_write(addr) == m.bank->0.narrow_write_result(addr),
{
}

/// Reads and writes are held against the watchpoints with their address, width
/// and direction.
pub proof fn law_accesses_are_held_against_watchpoints(m: MemState, addr: u32, val: u32)
    requires
        m.wf(),
        m.bank is Some,
        m.ram.has_run(addr, 4),
    ensures
        m.after_word_read(addr).watch == m.watch.checked(addr, 4, WatchMode::Read),
        m.after_half_read(addr).watch == m.watch.checked(addr, 2, WatchMode::Read),
        m.after_byte_read(addr).watch == m.watch.checked(addr, 1, WatchMode::Read),
        m.after_word_write(addr, val).watch == m.watch.checked(addr, 4, WatchMode::Write),
        m.after_word_read(addr).ram == m.ram,
        m.after_word_read(addr).bank == m.bank,
{
}

/// A store that touches the watched word is reported with what the word held
/// before; one that does not is not.
pub proof fn law_watched_stores_are_reported(m: MemState, addr: u32, size: u8, watch: u32)
    requires
        m.dccm_watch == Some(watch),
        m.bank is Some,
        addr >= m.ram.base,
        watch + 4 <= m.ram.bytes.len(),
    ensures
        ({
            let off = addr - m.ram.base;
            let touches = crate::memory::watch::touches(off, size as int, watch);
            let after = m.reported(addr, size).reports;
            &&& !touches ==> m.reported(addr, size) == m
            &&& touches ==> after.len() == m.reports.len() + 1 && after.drop_last() == m.reports
                && after.last().offset == off && after.last().size == size && after.last().watch
                == watch && after.last().old == m.ram.bytes[watch as int] * 0x0100_0000
                + m.ram.bytes[watch + 1] * 0x1_0000 + m.ram.bytes[watch + 2] * 0x100
                + m.ram.bytes[watch + 3] && after.last().pc == m.bank->0.log.pc
                && after.last().blink == m.bank->0.log.blink
        }),
{
    crate::cache::law_first_byte_is_highest(
        m.ram.bytes[watch as int],
        m.ram.bytes[watch + 1],
        m.ram.bytes[watch + 2],
        m.ram.bytes[watch + 3],
    );
    assert(m.reports.push(m.reported(addr, size).reports.last()).drop_last() =~= m.reports);
}

/// A word written to flat memory stands in its four bytes, the highest first,
/// and no other byte changes.
pub proof fn law_flat_words_stand_big_endian(m: MemState, addr: u32, val: u32, i: int)
    requires
        m.bank is None,
        addr % 4 == 0,
        addr + 4 <= m.ram.bytes.len(),
        0 <= i < m.ram.bytes.len(),
    ensures
        ({
            let b = m.after_word_write(addr, val).ram.bytes;
            &&& b[addr as int] == val / 0x0100_0000
            &&& b[addr + 1] == (val / 0x1_0000) % 0x100
            &&& b[addr + 2] == (val / 0x100) % 0x100
            &&& b[addr + 3] == val % 0x100
            &&& i < addr || i >= addr + 4 ==> b[i] == m.ram.bytes[i]
            &&& b.len() == m.ram.bytes.len()
        }),
{
    crate::bits::lemma_fields(val);
    crate::bits::lemma_fields(val >> 16);
    crate::bits::lemma_fields(val >> 8);
    crate::bits::lemma_fields(val >> 24);
}

} // verus!
