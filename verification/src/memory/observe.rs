//! The observers: what debug views read and write.
//!
//! They report the bytes at the address they are asked for and round nothing
//! down, unlike the data port. A debugger that rounded would lie.

use vstd::prelude::*;

use super::{DccmReport, MemState, Memory, WatchMode};
use crate::cpu::exception::Exception;
use crate::soc::bank::BankState;

verus! {

/// The address `k` bytes on, around the end of the address space.
pub open spec fn wrapped(addr: u32, k: int) -> u32 {
    ((addr + k) % 0x1_0000_0000) as u32
}

/// The word a watched SRAM word held.
pub open spec fn watched_word(bytes: Seq<u8>, watch: u32) -> u32 {
    if watch + 3 < bytes.len() {
        crate::cache::word_of(
            bytes[watch as int],
            bytes[watch + 1],
            bytes[watch + 2],
            bytes[watch + 3],
        )
    } else {
        0
    }
}

impl MemState {
    /// The memory once a store to SRAM was reported, where it is watched.
    pub open spec fn reported(self, addr: u32, size: u8) -> MemState {
        let off = addr - self.ram.base;
        if self.dccm_watch is Some && crate::memory::watch::touches(
            off,
            size as int,
            self.dccm_watch->0,
        ) {
            MemState {
                reports: self.reports.push(
                    DccmReport {
                        offset: off as u32,
                        size,
                        watch: self.dccm_watch->0,
                        old: watched_word(self.ram.bytes, self.dccm_watch->0),
                        pc: match self.bank {
                            Some(b) => b.log.pc,
                            None => 0,
                        },
                        blink: match self.bank {
                            Some(b) => b.log.blink,
                            None => 0,
                        },
                    },
                ),
                ..self
            }
        } else {
            self
        }
    }

    /// What flat memory answers outside its bounds, reads and writes alike.
    pub open spec fn out_of_bounds<T>(self, addr: u32) -> Result<T, Exception> {
        Err(Exception::MemoryError { address: addr, is_write: false })
    }

    /// The half-word the data cache holds, if it holds both bytes.
    pub open spec fn cached_half(self, addr: u32) -> Option<u16> {
        match (self.ram.cached(addr), self.ram.cached(wrapped(addr, 1))) {
            (Some(b0), Some(b1)) => Some(crate::cache::half_of(b0, b1)),
            _ => None,
        }
    }

    /// The word the data cache holds, if it holds all four bytes.
    pub open spec fn cached_word(self, addr: u32) -> Option<u32> {
        match (
            self.ram.cached(addr),
            self.ram.cached(wrapped(addr, 1)),
            self.ram.cached(wrapped(addr, 2)),
            self.ram.cached(wrapped(addr, 3)),
        ) {
            (Some(b0), Some(b1), Some(b2), Some(b3)) => Some(
                crate::cache::word_of(b0, b1, b2, b3),
            ),
            _ => None,
        }
    }

    /// Whether a byte read is for the bank.
    pub open spec fn byte_for_bank(self, addr: u32) -> bool {
        self.bank is Some && self.ram.cached(addr) is None && !self.ram.has(addr)
    }

    pub open spec fn half_for_bank(self, addr: u32) -> bool {
        self.bank is Some && self.cached_half(addr) is None && !self.ram.has_run(addr, 2) && addr
            % 2 == 0
    }

    pub open spec fn word_for_bank(self, addr: u32) -> bool {
        self.bank is Some && self.cached_word(addr) is None && !self.ram.has_run(addr, 4) && addr
            % 4 == 0
    }

    pub open spec fn byte_read(self, addr: u32) -> Result<u8, Exception> {
        match self.bank {
            Some(bank) => match self.ram.cached(addr) {
                Some(v) => Ok(v),
                None => if self.ram.has(addr) {
                    Ok(self.ram.at(addr as int))
                } else {
                    bank.byte_result(addr)
                },
            },
            None => if addr < self.ram.bytes.len() {
                Ok(self.ram.bytes[addr as int])
            } else {
                self.out_of_bounds(addr)
            },
        }
    }

    pub open spec fn after_byte_read(self, addr: u32) -> MemState {
        let next = self.checked(addr, 1, WatchMode::Read);
        if self.byte_for_bank(addr) {
            next.with_bank(self.bank->0.after_byte_read(addr))
        } else {
            next
        }
    }

    pub open spec fn half_read(self, addr: u32) -> Result<u16, Exception> {
        match self.bank {
            Some(bank) => match self.cached_half(addr) {
                Some(v) => Ok(v),
                None => if self.ram.has_run(addr, 2) {
                    self.ram.sram_half(addr)
                } else if addr % 2 != 0 {
                    Ok(0)
                } else {
                    bank.half_result(addr)
                },
            },
            None => if addr % 2 != 0 {
                Err(Exception::MisalignedAccess { address: addr })
            } else if addr + 2 <= self.ram.bytes.len() {
                Ok(
                    crate::cache::half_of(
                        self.ram.bytes[addr as int],
                        self.ram.bytes[addr + 1],
                    ),
                )
            } else {
                self.out_of_bounds(addr)
            },
        }
    }

    pub open spec fn after_half_read(self, addr: u32) -> MemState {
        let next = self.checked(addr, 2, WatchMode::Read);
        if self.half_for_bank(addr) {
            next.with_bank(self.bank->0.after_half_read(addr))
        } else {
            next
        }
    }

    pub open spec fn word_read(self, addr: u32) -> Result<u32, Exception> {
        match self.bank {
            Some(bank) => match self.cached_word(addr) {
                Some(v) => Ok(v),
                None => if self.ram.has_run(addr, 4) {
                    self.ram.sram_word(addr)
                } else if addr % 4 != 0 {
                    Ok(0)
                } else {
                    bank.read_result(addr)
                },
            },
            None => if addr % 4 != 0 {
                Err(Exception::MisalignedAccess { address: addr })
            } else if addr + 4 <= self.ram.bytes.len() {
                Ok(
                    crate::cache::word_of(
                        self.ram.bytes[addr as int],
                        self.ram.bytes[addr + 1],
                        self.ram.bytes[addr + 2],
                        self.ram.bytes[addr + 3],
                    ),
                )
            } else {
                self.out_of_bounds(addr)
            },
        }
    }

    pub open spec fn after_word_read(self, addr: u32) -> MemState {
        let next = self.checked(addr, 4, WatchMode::Read);
        if self.word_for_bank(addr) {
            next.with_bank(self.bank->0.after_read(addr).drained())
        } else {
            next
        }
    }

    /// Whether the bank can answer a word read.
    pub open spec fn bank_reads_word(self, addr: u32) -> bool {
        self.bank->0.can_read(addr) && self.bank->0.after_read(addr).can_drain()
    }

    /// Whether the bank can take a word.
    pub open spec fn bank_takes_word(self, addr: u32, val: u32) -> bool {
        self.bank->0.can_write(addr, val) && self.bank->0.after_write(addr, val).can_drain()
    }

    /// The memory after a store to the bank: what it set off is carried out
    /// unless the store failed.
    pub open spec fn after_bank_store(
        self,
        bank: BankState,
        result: Result<(), Exception>,
    ) -> MemState {
        if result is Ok {
            self.with_bank(bank).worked_off()
        } else {
            self.with_bank(bank)
        }
    }

    pub open spec fn byte_write(self, addr: u32) -> Result<(), Exception> {
        match self.bank {
            Some(bank) => if self.ram.has(addr) {
                Ok(())
            } else {
                bank.narrow_write_result(addr)
            },
            None => if addr < self.ram.bytes.len() {
                Ok(())
            } else {
                self.out_of_bounds(addr)
            },
        }
    }

    pub open spec fn after_byte_write(self, addr: u32, val: u8) -> MemState {
        let next = self.checked(addr, 1, WatchMode::Write);
        match self.bank {
            Some(bank) => if self.ram.has(addr) {
                next.reported(addr, 1).with_ram(self.ram.put(addr, val))
            } else {
                next.after_bank_store(
                    bank.after_byte_write(addr, val),
                    bank.narrow_write_result(addr),
                )
            },
            None => if addr < self.ram.bytes.len() {
                next.with_ram(flat_put(self.ram, addr as int, val))
            } else {
                next
            },
        }
    }

    pub open spec fn half_write(self, addr: u32) -> Result<(), Exception> {
        match self.bank {
            Some(bank) => if self.ram.has_run(addr, 2) || addr % 2 != 0 {
                Ok(())
            } else {
                bank.narrow_write_result(addr)
            },
            None => if addr % 2 != 0 {
                Err(Exception::MisalignedAccess { address: addr })
            } else if addr + 2 <= self.ram.bytes.len() {
                Ok(())
            } else {
                self.out_of_bounds(addr)
            },
        }
    }

    pub open spec fn after_half_write(self, addr: u32, val: u16) -> MemState {
        let next = self.checked(addr, 2, WatchMode::Write);
        match self.bank {
            Some(bank) => if self.ram.has_run(addr, 2) {
                next.reported(addr, 2).with_ram(half_put(self.ram, addr, val))
            } else if addr % 2 != 0 {
                next
            } else {
                next.after_bank_store(
                    bank.after_half_write(addr, val),
                    bank.narrow_write_result(addr),
                )
            },
            None => if addr % 2 == 0 && addr + 2 <= self.ram.bytes.len() {
                next.with_ram(
                    flat_put(
                        flat_put(self.ram, addr as int, (val >> 8) as u8),
                        addr + 1,
                        val as u8,
                    ),
                )
            } else {
                next
            },
        }
    }

    pub open spec fn word_write(self, addr: u32, val: u32) -> Result<(), Exception> {
        match self.bank {
            Some(bank) => if self.ram.has_run(addr, 4) || addr % 4 != 0 {
                Ok(())
            } else {
                bank.write_result(addr, val)
            },
            None => if addr % 4 != 0 {
                Err(Exception::MisalignedAccess { address: addr })
            } else if addr + 4 <= self.ram.bytes.len() {
                Ok(())
            } else {
                self.out_of_bounds(addr)
            },
        }
    }

    pub open spec fn after_word_write(self, addr: u32, val: u32) -> MemState {
        let next = self.checked(addr, 4, WatchMode::Write);
        match self.bank {
            Some(bank) => if self.ram.has_run(addr, 4) {
                next.reported(addr, 4).with_ram(word_put(self.ram, addr, val))
            } else if addr % 4 != 0 {
                next
            } else {
                next.after_bank_store(
                    bank.after_write(addr, val).drained(),
                    bank.write_result(addr, val),
                )
            },
            None => if addr % 4 == 0 && addr + 4 <= self.ram.bytes.len() {
                next.with_ram(flat_word_put(self.ram, addr, val))
            } else {
                next
            },
        }
    }

    /// Whether a byte store asks for something its register can do.
    pub open spec fn takes_byte(self, addr: u32, val: u8) -> bool {
        self.bank is Some && !self.ram.has(addr) ==> self.bank->0.can_write_byte(addr, val)
    }

    pub open spec fn takes_half(self, addr: u32, val: u16) -> bool {
        self.bank is Some && !self.ram.has_run(addr, 2) && addr % 2 == 0
            ==> self.bank->0.can_write_half(addr, val)
    }

    pub open spec fn takes_word(self, addr: u32, val: u32) -> bool {
        self.bank is Some && !self.ram.has_run(addr, 4) && addr % 4 == 0 ==> self.bank_takes_word(
            addr,
            val,
        )
    }
}

/// Flat memory after a byte is stored at an index.
pub open spec fn flat_put(
    ram: crate::memory::ram::RamState,
    at: int,
    val: u8,
) -> crate::memory::ram::RamState {
    crate::memory::ram::RamState { bytes: ram.bytes.update(at, val), ..ram }
}

pub open spec fn flat_word_put(
    ram: crate::memory::ram::RamState,
    addr: u32,
    val: u32,
) -> crate::memory::ram::RamState {
    let one = flat_put(ram, addr as int, (val >> 24) as u8);
    let two = flat_put(one, addr + 1, (val >> 16) as u8);
    flat_put(flat_put(two, addr + 2, (val >> 8) as u8), addr + 3, val as u8)
}

/// SRAM after a half-word is stored, high byte first.
pub open spec fn half_put(
    ram: crate::memory::ram::RamState,
    addr: u32,
    val: u16,
) -> crate::memory::ram::RamState {
    ram.put(addr, (val >> 8) as u8).put((addr + 1) as u32, val as u8)
}

/// SRAM after a word is stored, high byte first.
pub open spec fn word_put(
    ram: crate::memory::ram::RamState,
    addr: u32,
    val: u32,
) -> crate::memory::ram::RamState {
    ram.put(addr, (val >> 24) as u8).put((addr + 1) as u32, (val >> 16) as u8).put(
        (addr + 2) as u32,
        (val >> 8) as u8,
    ).put((addr + 3) as u32, val as u8)
}

pub(crate) fn next_addr(addr: u32, k: u32) -> (r: u32)
    requires
        k < 4,
    ensures
        r == wrapped(addr, k as int),
{
    if addr <= u32::MAX - k {
        addr + k
    } else {
        k - (u32::MAX - addr) - 1
    }
}

impl Memory {
    pub(crate) fn check_watch(&mut self, addr: u32, size: u32, access: WatchMode)
        requires
            old(self).wf(),
        ensures
            final(self).wf(),
            final(self)@ == old(self)@.checked(addr, size, access),
    {
        let _ = self.watchpoints.check(addr, size, access);
    }

    pub(crate) fn bank_context(&self) -> (r: (u32, u32))
        ensures
            self@.bank is Some ==> r == (self@.bank->0.log.pc, self@.bank->0.log.blink),
            self@.bank is None ==> r == (0u32, 0u32),
    {
        match &self.bank {
            Some(b) => (b.log.current_pc, b.log.current_blink),
            None => (0, 0),
        }
    }

    fn watched_word(&self, watch: u32) -> (r: u32)
        ensures
            r == watched_word(self@.ram.bytes, watch),
    {
        let at: usize = watch as usize;
        if at < self.ram.data.len() && self.ram.data.len() - at > 3 {
            let d = &self.ram.data;
            ((d[at] as u32) << 24) | ((d[at + 1] as u32) << 16) | ((d[at + 2] as u32) << 8) | (d[at
                + 3] as u32)
        } else {
            0
        }
    }

    /// Report a store to the watched SRAM word.
    fn report_store(&mut self, addr: u32, size: u8)
        requires
            old(self).wf(),
            old(self)@.ram.has(addr),
            size <= 4,
        ensures
            final(self).wf(),
            final(self)@ == old(self)@.reported(addr, size),
    {
        if let Some(watch) = self.dccm_watchpoint {
            let offset: u32 = addr - self.ram.dccm_base;
            if (offset as u64) < watch as u64 + 4 && offset as u64 + size as u64 > watch as u64 {
                let (pc, blink) = self.bank_context();
                let old: u32 = self.watched_word(watch);
                self.dccm_reports.push(DccmReport { offset, size, watch, old, pc, blink });
            }
        }
    }

    pub(crate) fn bank_byte(&mut self, addr: u32) -> (r: Result<u8, Exception>)
        requires
            old(self).wf(),
            old(self)@.bank is Some,
            old(self)@.bank->0.can_read_narrow(addr),
        ensures
            final(self).wf(),
            r == old(self)@.bank->0.byte_result(addr),
            final(self)@ == old(self)@.with_bank(old(self)@.bank->0.after_byte_read(addr)),
    {
        if let Some(bank) = &mut self.bank {
            return bank.read_byte(addr);
        }
        Ok(0)
    }

    pub(crate) fn bank_half(&mut self, addr: u32) -> (r: Result<u16, Exception>)
        requires
            old(self).wf(),
            old(self)@.bank is Some,
            old(self)@.bank->0.can_read_narrow(addr),
        ensures
            final(self).wf(),
            r == old(self)@.bank->0.half_result(addr),
            final(self)@ == old(self)@.with_bank(old(self)@.bank->0.after_half_read(addr)),
    {
        if let Some(bank) = &mut self.bank {
            return bank.read_half(addr);
        }
        Ok(0)
    }

    pub(crate) fn bank_word(&mut self, addr: u32) -> (r: Result<u32, Exception>)
        requires
            old(self).wf(),
            old(self)@.bank is Some,
            old(self)@.bank_reads_word(addr),
        ensures
            final(self).wf(),
            r == old(self)@.bank->0.read_result(addr),
            final(self)@ == old(self)@.with_bank(old(self)@.bank->0.after_read(addr).drained()),
    {
        if let Some(bank) = &mut self.bank {
            return bank.read_word(addr);
        }
        Ok(0)
    }

    pub fn read_byte(&mut self, addr: u32) -> (r: Result<u8, Exception>)
        requires
            old(self).wf(),
            old(self)@.byte_for_bank(addr) ==> old(self)@.bank->0.can_read_narrow(addr),
        ensures
            final(self).wf(),
            r == old(self)@.byte_read(addr),
            final(self)@ == old(self)@.after_byte_read(addr),
    {
        self.check_watch(addr, 1, WatchMode::Read);
        if self.bank.is_some() {
            if let Some(v) = self.ram.peek(addr) {
                return Ok(v);
            }
            if self.ram.offset(addr).is_some() {
                return Ok(self.ram.load(addr));
            }
            return self.bank_byte(addr);
        }
        if (addr as usize) < self.ram.data.len() {
            Ok(self.ram.data[addr as usize])
        } else {
            Err(Exception::MemoryError { address: addr, is_write: false })
        }
    }

    fn peek_half(&self, addr: u32) -> (r: Option<u16>)
        requires
            self.wf(),
        ensures
            r == self@.cached_half(addr),
    {
        match (self.ram.peek(addr), self.ram.peek(next_addr(addr, 1))) {
            (Some(b0), Some(b1)) => Some(((b0 as u16) << 8) | (b1 as u16)),
            _ => None,
        }
    }

    pub fn read_half(&mut self, addr: u32) -> (r: Result<u16, Exception>)
        requires
            old(self).wf(),
            old(self)@.bank is Some ==> addr < u32::MAX,
            old(self)@.half_for_bank(addr) ==> old(self)@.bank->0.can_read_narrow(addr),
        ensures
            final(self).wf(),
            r == old(self)@.half_read(addr),
            final(self)@ == old(self)@.after_half_read(addr),
    {
        self.check_watch(addr, 2, WatchMode::Read);
        if self.bank.is_some() {
            if let Some(v) = self.peek_half(addr) {
                return Ok(v);
            }
            if self.ram.holds_run(addr, 2) {
                return self.ram.load_half(addr);
            }
            if addr % 2 != 0 {
                return Ok(0);
            }
            return self.bank_half(addr);
        }
        if addr % 2 != 0 {
            return Err(Exception::MisalignedAccess { address: addr });
        }
        let a: usize = addr as usize;
        if a < self.ram.data.len() && self.ram.data.len() - a >= 2 {
            let (b0, b1) = (self.ram.data[a], self.ram.data[a + 1]);
            Ok(((b0 as u16) << 8) | (b1 as u16))
        } else {
            Err(Exception::MemoryError { address: addr, is_write: false })
        }
    }

    fn peek_word(&self, addr: u32) -> (r: Option<u32>)
        requires
            self.wf(),
        ensures
            r == self@.cached_word(addr),
    {
        match (
            self.ram.peek(addr),
            self.ram.peek(next_addr(addr, 1)),
            self.ram.peek(next_addr(addr, 2)),
            self.ram.peek(next_addr(addr, 3)),
        ) {
            (Some(b0), Some(b1), Some(b2), Some(b3)) => Some(
                ((b0 as u32) << 24) | ((b1 as u32) << 16) | ((b2 as u32) << 8) | (b3 as u32),
            ),
            _ => None,
        }
    }

    pub fn read_word(&mut self, addr: u32) -> (r: Result<u32, Exception>)
        requires
            old(self).wf(),
            old(self)@.word_for_bank(addr) ==> old(self)@.bank_reads_word(addr),
        ensures
            final(self).wf(),
            r == old(self)@.word_read(addr),
            final(self)@ == old(self)@.after_word_read(addr),
    {
        self.check_watch(addr, 4, WatchMode::Read);
        if self.bank.is_some() {
            if let Some(v) = self.peek_word(addr) {
                return Ok(v);
            }
            if self.ram.holds_run(addr, 4) {
                return self.ram.load_word(addr);
            }
            if addr % 4 != 0 {
                return Ok(0);
            }
            return self.bank_word(addr);
        }
        if addr % 4 != 0 {
            return Err(Exception::MisalignedAccess { address: addr });
        }
        let a: usize = addr as usize;
        if a < self.ram.data.len() && self.ram.data.len() - a >= 4 {
            let d = &self.ram.data;
            Ok(
                ((d[a] as u32) << 24) | ((d[a + 1] as u32) << 16) | ((d[a + 2] as u32) << 8) | (d[a
                    + 3] as u32),
            )
        } else {
            Err(Exception::MemoryError { address: addr, is_write: false })
        }
    }

    fn put_byte(&mut self, addr: u32, val: u8)
        requires
            old(self).wf(),
            old(self)@.ram.has(addr),
        ensures
            final(self).wf(),
            final(self)@ == old(self)@.with_ram(old(self)@.ram.put(addr, val)),
    {
        self.ram.put_byte(addr, val);
    }

    /// Store a byte in flat memory.
    fn flat_byte(&mut self, at: usize, val: u8)
        requires
            old(self).wf(),
            at < old(self)@.ram.bytes.len(),
            old(self)@.bank is None,
        ensures
            final(self).wf(),
            final(self)@ == old(self)@.with_ram(flat_put(old(self)@.ram, at as int, val)),
    {
        self.ram.data.set(at, val);
    }

    fn bank_store_byte(&mut self, addr: u32, val: u8) -> (r: Result<(), Exception>)
        requires
            old(self).wf(),
            old(self)@.bank is Some,
            old(self)@.bank->0.can_write_byte(addr, val),
        ensures
            final(self).wf(),
            r == old(self)@.bank->0.narrow_write_result(addr),
            final(self)@ == old(self)@.with_bank(old(self)@.bank->0.after_byte_write(addr, val)),
    {
        if let Some(bank) = &mut self.bank {
            return bank.write_byte(addr, val);
        }
        Ok(())
    }

    fn bank_store_half(&mut self, addr: u32, val: u16) -> (r: Result<(), Exception>)
        requires
            old(self).wf(),
            old(self)@.bank is Some,
            old(self)@.bank->0.can_write_half(addr, val),
        ensures
            final(self).wf(),
            r == old(self)@.bank->0.narrow_write_result(addr),
            final(self)@ == old(self)@.with_bank(old(self)@.bank->0.after_half_write(addr, val)),
    {
        if let Some(bank) = &mut self.bank {
            return bank.write_half(addr, val);
        }
        Ok(())
    }

    fn bank_store_word(&mut self, addr: u32, val: u32) -> (r: Result<(), Exception>)
        requires
            old(self).wf(),
            old(self)@.bank is Some,
            old(self)@.bank_takes_word(addr, val),
        ensures
            final(self).wf(),
            r == old(self)@.bank->0.write_result(addr, val),
            final(self)@ == old(self)@.with_bank(
                old(self)@.bank->0.after_write(addr, val).drained(),
            ),
    {
        if let Some(bank) = &mut self.bank {
            return bank.write_word(addr, val);
        }
        Ok(())
    }

    /// Carry out what a store to the bank set off.
    fn finish_store(&mut self, result: Result<(), Exception>) -> (r: Result<(), Exception>)
        requires
            old(self).wf(),
            old(self)@.bank is Some,
        ensures
            final(self).wf(),
            r == result,
            final(self)@ == old(self)@.after_bank_store(old(self)@.bank->0, result),
    {
        if result.is_ok() {
            let _ = self.drain_datapath();
        }
        result
    }

    pub fn write_byte(&mut self, addr: u32, val: u8) -> (r: Result<(), Exception>)
        requires
            old(self).wf(),
            old(self)@.takes_byte(addr, val),
        ensures
            final(self).wf(),
            r == old(self)@.byte_write(addr),
            final(self)@ == old(self)@.after_byte_write(addr, val),
    {
        self.check_watch(addr, 1, WatchMode::Write);
        if self.bank.is_some() {
            if self.ram.offset(addr).is_some() {
                self.report_store(addr, 1);
                self.put_byte(addr, val);
                return Ok(());
            }
            let result = self.bank_store_byte(addr, val);
            return self.finish_store(result);
        }
        if (addr as usize) < self.ram.data.len() {
            self.flat_byte(addr as usize, val);
            Ok(())
        } else {
            Err(Exception::MemoryError { address: addr, is_write: false })
        }
    }

    fn put_half(&mut self, addr: u32, val: u16)
        requires
            old(self).wf(),
            old(self)@.ram.has_run(addr, 2),
        ensures
            final(self).wf(),
            final(self)@ == old(self)@.with_ram(half_put(old(self)@.ram, addr, val)),
    {
        self.put_byte(addr, (val >> 8) as u8);
        self.put_byte(addr + 1, val as u8);
    }

    pub fn write_half(&mut self, addr: u32, val: u16) -> (r: Result<(), Exception>)
        requires
            old(self).wf(),
            old(self)@.takes_half(addr, val),
        ensures
            final(self).wf(),
            r == old(self)@.half_write(addr),
            final(self)@ == old(self)@.after_half_write(addr, val),
    {
        self.check_watch(addr, 2, WatchMode::Write);
        if self.bank.is_some() {
            if self.ram.holds_run(addr, 2) {
                self.report_store(addr, 2);
                self.put_half(addr, val);
                return Ok(());
            }
            if addr % 2 != 0 {
                return Ok(());
            }
            let result = self.bank_store_half(addr, val);
            return self.finish_store(result);
        }
        if addr % 2 != 0 {
            return Err(Exception::MisalignedAccess { address: addr });
        }
        let a: usize = addr as usize;
        if a < self.ram.data.len() && self.ram.data.len() - a >= 2 {
            self.flat_byte(a, (val >> 8) as u8);
            self.flat_byte(a + 1, val as u8);
            Ok(())
        } else {
            Err(Exception::MemoryError { address: addr, is_write: false })
        }
    }

    fn put_word(&mut self, addr: u32, val: u32)
        requires
            old(self).wf(),
            old(self)@.ram.has_run(addr, 4),
        ensures
            final(self).wf(),
            final(self)@ == old(self)@.with_ram(word_put(old(self)@.ram, addr, val)),
    {
        self.put_byte(addr, (val >> 24) as u8);
        self.put_byte(addr + 1, (val >> 16) as u8);
        self.put_byte(addr + 2, (val >> 8) as u8);
        self.put_byte(addr + 3, val as u8);
    }

    fn flat_word(&mut self, addr: u32, val: u32)
        requires
            old(self).wf(),
            addr + 4 <= old(self)@.ram.bytes.len(),
            old(self)@.bank is None,
        ensures
            final(self).wf(),
            final(self)@ == old(self)@.with_ram(flat_word_put(old(self)@.ram, addr, val)),
    {
        let a: usize = addr as usize;
        self.flat_byte(a, (val >> 24) as u8);
        self.flat_byte(a + 1, (val >> 16) as u8);
        self.flat_byte(a + 2, (val >> 8) as u8);
        self.flat_byte(a + 3, val as u8);
    }

    pub fn write_word(&mut self, addr: u32, val: u32) -> (r: Result<(), Exception>)
        requires
            old(self).wf(),
            old(self)@.takes_word(addr, val),
        ensures
            final(self).wf(),
            r == old(self)@.word_write(addr, val),
            final(self)@ == old(self)@.after_word_write(addr, val),
    {
        self.check_watch(addr, 4, WatchMode::Write);
        if self.bank.is_some() {
            if self.ram.holds_run(addr, 4) {
                self.report_store(addr, 4);
                self.put_word(addr, val);
                return Ok(());
            }
            if addr % 4 != 0 {
                return Ok(());
            }
            let result = self.bank_store_word(addr, val);
            return self.finish_store(result);
        }
        if addr % 4 != 0 {
            return Err(Exception::MisalignedAccess { address: addr });
        }
        let a: usize = addr as usize;
        if a < self.ram.data.len() && self.ram.data.len() - a >= 4 {
            self.flat_word(addr, val);
            Ok(())
        } else {
            Err(Exception::MemoryError { address: addr, is_write: false })
        }
    }
}

/// An observer shows what waits in the cache where all its bytes wait there, the
/// first byte highest. Where one of them does not, it shows SRAM.
pub proof fn law_observers_show_waiting_bytes(m: MemState, addr: u32)
    requires
        m.bank is Some,
        m.ram.has_run(addr, 4),
        m.ram.wf(),
    ensures
        m.ram.cached(addr) matches Some(b0) ==> {
            &&& m.byte_read(addr) == Ok::<u8, Exception>(b0)
            &&& m.ram.cached((addr + 1) as u32) matches Some(b1) ==> {
                &&& m.half_read(addr) == Ok::<u16, Exception>((b0 * 0x100 + b1) as u16)
                &&& m.ram.cached((addr + 2) as u32) matches Some(b2) ==> {
                    &&& m.ram.cached((addr + 3) as u32) matches Some(b3) ==> m.word_read(addr)
                        == Ok::<u32, Exception>(
                        (b0 * 0x0100_0000 + b1 * 0x1_0000 + b2 * 0x100 + b3) as u32,
                    )
                    &&& m.ram.cached((addr + 3) as u32) is None ==> m.word_read(addr)
                        == m.ram.sram_word(addr)
                }
            }
            &&& m.ram.cached((addr + 1) as u32) is None ==> m.half_read(addr) == m.ram.sram_half(
                addr,
            ) && m.word_read(addr) == m.ram.sram_word(addr)
        },
        m.ram.cached(addr) is None ==> m.byte_read(addr) == Ok::<u8, Exception>(
            m.ram.at(addr as int),
        ),
{
    assert(wrapped(addr, 1) == addr + 1);
    assert(wrapped(addr, 2) == addr + 2);
    assert(wrapped(addr, 3) == addr + 3);
    let b0 = m.ram.cached(addr)->0;
    let b1 = m.ram.cached((addr + 1) as u32)->0;
    let b2 = m.ram.cached((addr + 2) as u32)->0;
    let b3 = m.ram.cached((addr + 3) as u32)->0;
    crate::bits::lemma_octets(b0, b1, b2, b3, 0);
}

/// Whatever answers, a read is held against the watchpoints once, with its
/// address and width, and leaves SRAM, its reports and the traces alone.
pub proof fn law_every_read_is_watched(m: MemState, addr: u32)
    ensures
        ({
            let b = m.after_byte_read(addr);
            let h = m.after_half_read(addr);
            let w = m.after_word_read(addr);
            &&& b.watch == m.watch.checked(addr, 1, WatchMode::Read)
            &&& h.watch == m.watch.checked(addr, 2, WatchMode::Read)
            &&& w.watch == m.watch.checked(addr, 4, WatchMode::Read)
            &&& b.ram == m.ram && h.ram == m.ram && w.ram == m.ram
            &&& b.reports == m.reports && h.reports == m.reports && w.reports == m.reports
            &&& b.trace == m.trace && h.trace == m.trace && w.trace == m.trace
            &&& m.ram.has_run(addr, 4) && m.bank is Some ==> b.bank == m.bank && h.bank == m.bank
                && w.bank == m.bank
        }),
{
}

/// A store to SRAM is held against the watchpoints as a write of its width and
/// reported as one of its width, and nothing else hears of it.
pub proof fn law_sram_stores_are_reported(m: MemState, addr: u32, val: u32, half: u16, byte: u8)
    requires
        m.bank is Some,
        m.ram.has_run(addr, 4),
    ensures
        ({
            let b = m.after_byte_write(addr, byte);
            let h = m.after_half_write(addr, half);
            let w = m.after_word_write(addr, val);
            &&& b.watch == m.watch.checked(addr, 1, WatchMode::Write)
            &&& h.watch == m.watch.checked(addr, 2, WatchMode::Write)
            &&& w.watch == m.watch.checked(addr, 4, WatchMode::Write)
            &&& b.reports == m.reported(addr, 1).reports
            &&& h.reports == m.reported(addr, 2).reports
            &&& w.reports == m.reported(addr, 4).reports
            &&& b.bank == m.bank && h.bank == m.bank && w.bank == m.bank
        }),
{
}

/// Flat memory holds half-words and bytes as it holds words: high byte first,
/// and no other byte changes.
pub proof fn law_flat_narrow_accesses(m: MemState, addr: u32, half: u16, byte: u8, i: int)
    requires
        m.bank is None,
        addr + 2 <= m.ram.bytes.len(),
        0 <= i < m.ram.bytes.len(),
    ensures
        addr % 2 == 0 ==> {
            let b = m.after_half_write(addr, half).ram.bytes;
            &&& m.half_write(addr) is Ok
            &&& b[addr as int] == half / 0x100
            &&& b[addr + 1] == half % 0x100
            &&& i < addr || i >= addr + 2 ==> b[i] == m.ram.bytes[i]
            &&& m.half_read(addr) == Ok::<u16, Exception>(
                (m.ram.bytes[addr as int] * 0x100 + m.ram.bytes[addr + 1]) as u16,
            )
        },
        addr % 2 != 0 ==> m.after_half_write(addr, half).ram == m.ram,
        m.byte_write(addr) is Ok,
        m.byte_read(addr) == Ok::<u8, Exception>(m.ram.bytes[addr as int]),
        m.after_byte_write(addr, byte).ram.bytes[addr as int] == byte,
        i != addr ==> m.after_byte_write(addr, byte).ram.bytes[i] == m.ram.bytes[i],
{
    let wide = half as u32;
    crate::bits::lemma_fields(wide);
    crate::bits::lemma_fields(wide >> 8);
    assert((half >> 8) as u8 == (wide >> 8) as u8);
    assert(half as u8 == wide as u8);
    crate::bits::lemma_octets(m.ram.bytes[addr as int], m.ram.bytes[addr + 1], 0, 0, 0);
}

/// A store outside SRAM is the bank's. What it set off is carried out if the
/// bank took it, and left alone if the bank refused it.
pub proof fn law_stores_outside_sram_are_the_banks(
    m: MemState,
    addr: u32,
    val: u32,
    half: u16,
    byte: u8,
)
    requires
        m.bank is Some,
        !m.ram.has(addr),
        !m.ram.has_run(addr, 2),
        !m.ram.has_run(addr, 4),
    ensures
        ({
            let bank = m.bank->0;
            let at = |size: u32, b: BankState|
                m.checked(addr, size, WatchMode::Write).with_bank(b);
            let w = at(4, bank.after_write(addr, val).drained());
            let h = at(2, bank.after_half_write(addr, half));
            let b = at(1, bank.after_byte_write(addr, byte));
            &&& addr % 4 == 0 && bank.write_result(addr, val) is Ok ==> m.after_word_write(
                addr,
                val,
            ) == w.worked_off()
            &&& addr % 4 == 0 && bank.write_result(addr, val) is Err ==> m.after_word_write(
                addr,
                val,
            ) == w
            &&& addr % 2 == 0 ==> m.half_write(addr) == bank.narrow_write_result(addr)
            &&& addr % 2 != 0 ==> m.half_write(addr) is Ok && m.after_half_write(addr, half).bank
                == m.bank
            &&& bank.narrow_write_result(addr) is Ok ==> m.after_byte_write(addr, byte)
                == b.worked_off() && (addr % 2 == 0 ==> m.after_half_write(addr, half)
                == h.worked_off())
            &&& bank.narrow_write_result(addr) is Err ==> m.after_byte_write(addr, byte) == b && (
            addr % 2 == 0 ==> m.after_half_write(addr, half) == h)
        }),
{
}

} // verus!
