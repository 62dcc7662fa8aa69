//! The boot-loader view of the bus: a UART, the serial-flash controller and a
//! small register file.

use vstd::prelude::*;

use crate::cpu::exception::Exception;

pub mod pbc;
pub mod spi_flash;
pub mod uart;

use pbc::{PbcState, PeripheralBusController};
use uart::SimpleUart;

verus! {

pub const UART_BASE: u32 = 0x00FC1010;

pub const UART_SIZE: u32 = 0x10;

pub const PBC_BASE: u32 = 0x010001F0;

pub const PBC_SIZE: u32 = 0x50;

pub const SYSREG_BASE: u32 = 0x01000000;

pub const SYSREG_SIZE: u32 = 0x1F0;

/// Lane status registers, all of which read 1.
pub const SERDES_BASE: u32 = 0x224A0000;

pub const SERDES_SIZE: u32 = 0x0800;

pub open spec fn is_uart_addr(addr: u32) -> bool {
    UART_BASE <= addr < UART_BASE + UART_SIZE
}

pub open spec fn is_pbc_addr(addr: u32) -> bool {
    PBC_BASE <= addr < PBC_BASE + PBC_SIZE
}

pub open spec fn is_sysreg_addr(addr: u32) -> bool {
    SYSREG_BASE <= addr < SYSREG_BASE + SYSREG_SIZE
}

pub open spec fn is_serdes_addr(addr: u32) -> bool {
    SERDES_BASE <= addr < SERDES_BASE + SERDES_SIZE
}

/// The controller, as values.
#[verifier::ext_equal]
pub struct MmioState {
    pub uart: SimpleUart,
    pub pbc: PbcState,
    pub trace: bool,
    pub timer_counter: u16,
    pub store: Seq<u32>,
    pub clock_toggles: u32,
}

impl MmioState {
    /// The word a system register reads as. Fixed registers answer their
    /// value; the two serial-bus lines read with the data line driven by the
    /// slave; every other word reads what was stored.
    pub open spec fn sysreg_word(self, offset: u32) -> u32 {
        if offset == 0x000 {
            0x47010203
        } else if offset == 0x004 {
            0xB2110816
        } else if offset == 0x00C {
            0x0114B820
        } else if offset == 0x018 {
            0x00000006
        } else if offset == 0x030 {
            0x0000FFFF
        } else if offset == 0x050 {
            self.timer_counter as u32
        } else if offset == 0x1E0 {
            0x45504F4E
        } else if offset == 0x048 {
            if self.store[0x12] & 0x10 != 0 {
                self.store[0x12] & !0x80000000
            } else {
                self.store[0x12] | 0x80000000
            }
        } else if offset == 0x04C {
            self.store[0x13] | 0x80000000
        } else if offset < SYSREG_SIZE {
            self.store[offset as int / 4]
        } else {
            0
        }
    }

    /// Whether a store raises the serial clock line.
    pub open spec fn raises_clock(self, offset: u32, val: u32) -> bool {
        offset == 0x04C && val & 1 != 0 && self.store[0x13] & 1 == 0
    }

    /// Whether a store begins a new serial transfer.
    pub open spec fn begins_transfer(self, offset: u32, val: u32) -> bool {
        offset == 0x040 && val & 0x8000 != 0 && self.store[0x10] & 0x8000 == 0
    }

    /// The controller after a store to a system register: the command bits
    /// complete at once and are never held.
    pub open spec fn after_sysreg(self, offset: u32, val: u32) -> MmioState {
        MmioState {
            clock_toggles: if self.begins_transfer(offset, val) {
                0
            } else if self.raises_clock(offset, val) {
                (self.clock_toggles + 1) as u32
            } else {
                self.clock_toggles
            },
            store: if offset < SYSREG_SIZE {
                self.store.update(offset as int / 4, val & 0x07FFFFFF)
            } else {
                self.store
            },
            ..self
        }
    }

    /// The word an address reads as.
    pub open spec fn word_at(self, addr: u32) -> u32 {
        if is_uart_addr(addr) {
            self.uart.word_at((addr - UART_BASE) as u32)
        } else if is_pbc_addr(addr) {
            self.pbc.word_at((addr - PBC_BASE) as u32)
        } else if is_sysreg_addr(addr) {
            self.sysreg_word((addr - SYSREG_BASE) as u32)
        } else if is_serdes_addr(addr) {
            1
        } else {
            0
        }
    }

    /// The half-word an address reads as.
    pub open spec fn half_at(self, addr: u32) -> u16 {
        if is_uart_addr(addr) {
            let hi = self.uart.word_at((addr - UART_BASE) as u32) as u8;
            let lo = self.uart.word_at((addr + 1 - UART_BASE) as u32) as u8;
            ((hi as u16) << 8) | (lo as u16)
        } else if is_sysreg_addr(addr) {
            let offset = (addr - SYSREG_BASE) as u32;
            (self.sysreg_word(offset & !3) >> ((16 - ((offset >> 1) & 1) * 16) as u32)) as u16
        } else if is_serdes_addr(addr) {
            1
        } else {
            0
        }
    }

    /// The byte an address reads as.
    pub open spec fn byte_at(self, addr: u32) -> u8 {
        if is_uart_addr(addr) {
            self.uart.word_at((addr - UART_BASE) as u32) as u8
        } else if is_pbc_addr(addr) {
            let offset = (addr - PBC_BASE) as u32;
            crate::soc::peripheral::byte_lane(self.pbc.word_at(offset & !3), offset)
        } else if is_sysreg_addr(addr) {
            let offset = (addr - SYSREG_BASE) as u32;
            crate::soc::peripheral::byte_lane(self.sysreg_word(offset & !3), offset)
        } else if is_serdes_addr(addr) {
            1
        } else {
            0
        }
    }

    /// The controller after a word store.
    pub open spec fn after_word(self, addr: u32, val: u32) -> MmioState {
        if is_uart_addr(addr) {
            MmioState { uart: self.uart.after_write((addr - UART_BASE) as u32, val), ..self }
        } else if is_pbc_addr(addr) {
            MmioState { pbc: self.pbc.after_write((addr - PBC_BASE) as u32, val), ..self }
        } else if is_sysreg_addr(addr) {
            self.after_sysreg((addr - SYSREG_BASE) as u32, val)
        } else {
            self
        }
    }

    /// The controller after a byte store. Only the UART has byte registers.
    pub open spec fn after_byte(self, addr: u32, val: u8) -> MmioState {
        if is_uart_addr(addr) {
            MmioState { uart: self.uart.after_write((addr - UART_BASE) as u32, val as u32), ..self }
        } else {
            self
        }
    }

    /// The controller after a half-word store.
    pub open spec fn after_half(self, addr: u32, val: u16) -> MmioState {
        if is_uart_addr(addr) {
            MmioState {
                uart: self.uart.after_write(
                    (addr - UART_BASE) as u32,
                    ((val >> 8) as u8) as u32,
                ).after_write((addr + 1 - UART_BASE) as u32, (val as u8) as u32),
                ..self
            }
        } else {
            self
        }
    }
}

/// Routes the boot loader's bus accesses.
pub struct MmioController {
    pub uart: SimpleUart,
    pub pbc: PeripheralBusController,
    pub trace: bool,
    /// The free-running counter behind register `0x050`.
    pub timer_counter: u16,
    pub sysreg_store: [u32; 124],
    /// Rising edges of the serial clock line since the last transfer began.
    pub i2c_clock_toggles: u32,
}

impl View for MmioController {
    type V = MmioState;

    open spec fn view(&self) -> MmioState {
        MmioState {
            uart: self.uart,
            pbc: self.pbc@,
            trace: self.trace,
            timer_counter: self.timer_counter,
            store: self.sysreg_store@,
            clock_toggles: self.i2c_clock_toggles,
        }
    }
}

impl MmioController {
    pub open spec fn wf(&self) -> bool {
        self.pbc.wf()
    }

    pub fn new() -> (r: Self)
        ensures
            r.wf(),
            !r.trace,
            r.timer_counter == 0,
            r.i2c_clock_toggles == 0,
            r@.store == Seq::new(124, |i: int| 0u32),
            r.uart == (SimpleUart { control: 0, baud_div_lo: 0, baud_div_hi: 0, rx_buffer: None }),
            r@.pbc == PbcState::fresh(),
    {
        let r = MmioController {
            uart: SimpleUart::new(),
            pbc: PeripheralBusController::new(),
            trace: false,
            timer_counter: 0,
            sysreg_store: [0u32; 124],
            i2c_clock_toggles: 0,
        };
        assert(r.sysreg_store@ =~= Seq::new(124, |i: int| 0u32));
        r
    }

    fn is_uart(addr: u32) -> (r: bool)
        ensures
            r == is_uart_addr(addr),
    {
        addr >= UART_BASE && addr < UART_BASE + UART_SIZE
    }

    fn is_pbc(addr: u32) -> (r: bool)
        ensures
            r == is_pbc_addr(addr),
    {
        addr >= PBC_BASE && addr < PBC_BASE + PBC_SIZE
    }

    fn is_sysreg(addr: u32) -> (r: bool)
        ensures
            r == is_sysreg_addr(addr),
    {
        addr >= SYSREG_BASE && addr < SYSREG_BASE + SYSREG_SIZE
    }

    fn is_serdes(addr: u32) -> (r: bool)
        ensures
            r == is_serdes_addr(addr),
    {
        addr >= SERDES_BASE && addr < SERDES_BASE + SERDES_SIZE
    }

    fn sysreg_read_word(&self, offset: u32) -> (r: u32)
        ensures
            r == self@.sysreg_word(offset),
    {
        if offset == 0x000 {
            0x47010203
        } else if offset == 0x004 {
            0xB2110816
        } else if offset == 0x00C {
            0x0114B820
        } else if offset == 0x018 {
            0x00000006
        } else if offset == 0x030 {
            0x0000FFFF
        } else if offset == 0x050 {
            self.timer_counter as u32
        } else if offset == 0x1E0 {
            0x45504F4E
        } else if offset == 0x048 {
            // The slave acknowledges while bit 4 asks for it, and releases the
            // line otherwise.
            let base: u32 = self.sysreg_store[0x12];
            if base & 0x10 != 0 {
                base & !0x80000000
            } else {
                base | 0x80000000
            }
        } else if offset == 0x04C {
            let base: u32 = self.sysreg_store[0x13];
            base | 0x80000000
        } else {
            let idx: usize = (offset / 4) as usize;
            if idx < 124 {
                self.sysreg_store[idx]
            } else {
                0
            }
        }
    }

    fn sysreg_write_word(&mut self, offset: u32, val: u32)
        requires
            old(self)@.raises_clock(offset, val) ==> old(self)@.clock_toggles < u32::MAX,
        ensures
            final(self)@ == old(self)@.after_sysreg(offset, val),
            old(self).wf() ==> final(self).wf(),
    {
        if offset == 0x04C {
            let before: u32 = self.sysreg_store[0x13];
            if (val & 1) != 0 && (before & 1) == 0 {
                self.i2c_clock_toggles = self.i2c_clock_toggles + 1;
            }
        }
        if offset == 0x040 {
            let before: u32 = self.sysreg_store[0x10];
            if (val & 0x8000) != 0 && (before & 0x8000) == 0 {
                self.i2c_clock_toggles = 0;
            }
        }
        let idx: usize = (offset / 4) as usize;
        if idx < 124 {
            self.sysreg_store[idx] = val & 0x07FFFFFF;
        }
    }

    pub fn read_byte(&mut self, addr: u32) -> (r: Result<u8, Exception>)
        ensures
            r == Ok::<u8, Exception>(old(self)@.byte_at(addr)),
            *final(self) == *old(self),
    {
        if Self::is_uart(addr) {
            return self.uart.read_byte(addr - UART_BASE);
        }
        if Self::is_pbc(addr) {
            let offset: u32 = addr - PBC_BASE;
            let word: u32 = self.pbc.read_word(offset & !3);
            return Ok(crate::soc::peripheral::select_byte(word, offset));
        }
        if Self::is_sysreg(addr) {
            let offset: u32 = addr - SYSREG_BASE;
            let word: u32 = self.sysreg_read_word(offset & !3);
            return Ok(crate::soc::peripheral::select_byte(word, offset));
        }
        if Self::is_serdes(addr) {
            return Ok(1);
        }
        Ok(0)
    }

    /// Store a byte. Only the UART has byte registers; its transmit register
    /// lies past the range routed here, so no byte leaves the line.
    pub fn write_byte(&mut self, addr: u32, val: u8) -> (r: Result<(), Exception>)
        ensures
            r == Ok::<(), Exception>(()),
            final(self)@ == old(self)@.after_byte(addr, val),
            old(self).wf() ==> final(self).wf(),
    {
        if Self::is_uart(addr) {
            let _ = self.uart.write_byte(addr - UART_BASE, val);
        }
        Ok(())
    }

    pub fn read_half(&mut self, addr: u32) -> (r: Result<u16, Exception>)
        ensures
            r == Ok::<u16, Exception>(old(self)@.half_at(addr)),
            *final(self) == *old(self),
    {
        if Self::is_uart(addr) {
            let hi: u8 = match self.uart.read_byte(addr - UART_BASE) {
                Ok(b) => b,
                Err(e) => return Err(e),
            };
            let lo: u8 = match self.uart.read_byte(addr + 1 - UART_BASE) {
                Ok(b) => b,
                Err(e) => return Err(e),
            };
            return Ok(((hi as u16) << 8) | (lo as u16));
        }
        if Self::is_sysreg(addr) {
            let offset: u32 = addr - SYSREG_BASE;
            proof {
                crate::bits::lemma_field_bounds(offset >> 1);
            }
            let half_idx: u32 = (offset >> 1) & 1;
            let word: u32 = self.sysreg_read_word(offset & !3);
            return Ok((word >> (16 - half_idx * 16)) as u16);
        }
        if Self::is_serdes(addr) {
            return Ok(1);
        }
        Ok(0)
    }

    pub fn write_half(&mut self, addr: u32, val: u16) -> (r: Result<(), Exception>)
        ensures
            r == Ok::<(), Exception>(()),
            final(self)@ == old(self)@.after_half(addr, val),
            old(self).wf() ==> final(self).wf(),
    {
        if Self::is_uart(addr) {
            let _ = self.uart.write_byte(addr - UART_BASE, (val >> 8) as u8);
            let _ = self.uart.write_byte(addr + 1 - UART_BASE, val as u8);
        }
        Ok(())
    }

    pub fn read_word(&mut self, addr: u32) -> (r: Result<u32, Exception>)
        ensures
            r == Ok::<u32, Exception>(old(self)@.word_at(addr)),
            *final(self) == *old(self),
    {
        if Self::is_uart(addr) {
            return self.uart.read_word(addr - UART_BASE);
        }
        if Self::is_pbc(addr) {
            return Ok(self.pbc.read_word(addr - PBC_BASE));
        }
        if Self::is_sysreg(addr) {
            return Ok(self.sysreg_read_word(addr - SYSREG_BASE));
        }
        if Self::is_serdes(addr) {
            return Ok(1);
        }
        Ok(0)
    }

    pub fn write_word(&mut self, addr: u32, val: u32) -> (r: Result<(), Exception>)
        requires
            old(self).wf(),
            is_pbc_addr(addr) ==> old(self)@.pbc.accepts((addr - PBC_BASE) as u32, val),
            is_sysreg_addr(addr) && old(self)@.raises_clock((addr - SYSREG_BASE) as u32, val)
                ==> old(self)@.clock_toggles < u32::MAX,
        ensures
            r == Ok::<(), Exception>(()),
            final(self).wf(),
            final(self)@ == old(self)@.after_word(addr, val),
    {
        if Self::is_uart(addr) {
            let _ = self.uart.write_word(addr - UART_BASE, val);
            return Ok(());
        }
        if Self::is_pbc(addr) {
            self.pbc.write_word(addr - PBC_BASE, val);
            return Ok(());
        }
        if Self::is_sysreg(addr) {
            self.sysreg_write_word(addr - SYSREG_BASE, val);
            return Ok(());
        }
        Ok(())
    }
}

/// Command bits written to a stored register are gone by the next read.
pub proof fn law_command_bits_complete_at_once(s: MmioState, offset: u32, val: u32)
    requires
        s.store.len() == 124,
        offset < SYSREG_SIZE,
        offset != 0x000 && offset != 0x004 && offset != 0x00C && offset != 0x018,
        offset != 0x030 && offset != 0x050 && offset != 0x1E0 && offset != 0x048 && offset != 0x04C,
    ensures
        s.after_sysreg(offset, val).sysreg_word(offset) == val & 0x07FFFFFF,
        s.after_sysreg(offset, val).sysreg_word(offset) & 0xF8000000 == 0,
{
    assert((val & 0x07FFFFFFu32) & 0xF8000000u32 == 0) by (bit_vector);
}

/// Where each block answers: the UART, the flash controller, the system
/// registers and the lane status registers, all of which read 1. Nothing else
/// answers.
pub proof fn law_blocks_have_their_places(s: MmioState, addr: u32, val: u32)
    ensures
        0x0100_01F0 <= addr < 0x0100_0240 ==> s.word_at(addr) == s.pbc.word_at(
            (addr - 0x0100_01F0) as u32,
        ) && s.after_word(addr, val) == (MmioState {
            pbc: s.pbc.after_write((addr - 0x0100_01F0) as u32, val),
            ..s
        }),
        0x224A_0000 <= addr < 0x224A_0800 ==> s.word_at(addr) == 1 && s.after_word(addr, val) == s,
        addr >= 0x224A_0800 || 0x0100_0240 <= addr < 0x224A_0000 ==> s.word_at(addr) == 0
            && s.after_word(addr, val) == s,
{
}

/// The chip says who it is: these words are fixed, whatever is stored.
pub proof fn law_fixed_registers_answer_their_value(s: MmioState, addr: u32, val: u32)
    requires
        s.store.len() == 124,
        0x0100_0000 <= addr < 0x0100_01F0,
    ensures
        ({
            let after = s.after_word(addr, val);
            &&& after.word_at(0x0100_0000) == 0x4701_0203
            &&& after.word_at(0x0100_0004) == 0xB211_0816
            &&& after.word_at(0x0100_000C) == 0x0114_B820
            &&& after.word_at(0x0100_0018) == 6
            &&& after.word_at(0x0100_0030) == 0xFFFF
            &&& after.word_at(0x0100_01E0) == 0x4550_4F4E
            &&& after.word_at(0x0100_0050) == s.timer_counter
        }),
{
}

/// The data line of the serial bus reads low exactly while software lets go of
/// it, and the clock line always reads high: both in their top bit.
pub proof fn law_serial_lines_read_their_level(s: MmioState)
    ensures
        s.word_at(0x0100_0048) >= 0x8000_0000 <==> s.store[0x12] & 0x10 == 0,
        s.word_at(0x0100_004C) >= 0x8000_0000,
{
    crate::bits::lemma_set_bits(s.store[0x12], 0x8000_0000);
    crate::bits::lemma_clear_bits(s.store[0x12], 0x8000_0000);
    crate::bits::lemma_set_bits(s.store[0x13], 0x8000_0000);
    crate::bits::lemma_fields(s.store[0x12] | 0x8000_0000);
    crate::bits::lemma_fields(s.store[0x12] & !0x8000_0000);
    crate::bits::lemma_fields(s.store[0x13] | 0x8000_0000);
}

/// A rising edge of the clock line is counted, a transfer that begins starts the
/// count over, and nothing else touches it.
pub proof fn law_clock_edges_count(s: MmioState, addr: u32, val: u32)
    requires
        s.store.len() == 124,
        s.clock_toggles < u32::MAX,
        0x0100_0000 <= addr < 0x0100_01F0,
    ensures
        ({
            let after = s.after_word(addr, val).clock_toggles;
            let rises = addr == 0x0100_004C && val % 2 == 1 && s.store[0x13] % 2 == 0;
            let begins = addr == 0x0100_0040 && (val / 0x8000) % 2 == 1 && (s.store[0x10] / 0x8000)
                % 2 == 0;
            &&& begins ==> after == 0
            &&& rises ==> after == s.clock_toggles + 1
            &&& !begins && !rises ==> after == s.clock_toggles
        }),
{
    crate::bits::lemma_fields(val);
    crate::bits::lemma_fields(s.store[0x13]);
    crate::bits::lemma_fields(s.store[0x10]);
}

} // verus!
