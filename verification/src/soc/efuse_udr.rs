//! The eFuse serial bus: three registers that software bit-bangs.
//!
//!   * `0x01000040`: bit 15 rising begins a transfer and clears the clock
//!     edge counter.
//!   * `0x01000048`: the data line, high unless bit 4 drives it low.
//!   * `0x0100004C`: the clock line; bit 0 rising is one clock edge.
//!
//! Command bits `[31:27]` are held until the register is next read.

use vstd::prelude::*;

use crate::cpu::exception::Exception;
use crate::soc::mmio_init::{sysreg_init_values, SYSREG_BASE};
use crate::soc::peripheral::{
    AddressRange, EfuseEvent, EfuseSnapshot, PeripheralError, PeripheralEvent, PeripheralSnapshot,
};

verus! {

pub const REG_I2C_UDR_CLK_RESET: u32 = 0x0100_0040;

pub const REG_I2C_UDR_SDA: u32 = 0x0100_0048;

pub const REG_I2C_UDR_SCL: u32 = 0x0100_004C;

pub const CMD_BIT_MASK: u32 = 0xF800_0000;

/// Bytes of the fuse image.
pub const EFUSE_BYTES: usize = 80;

/// The bus, as values.
#[verifier::ext_equal]
pub struct EfuseState {
    pub clk_reset: u32,
    pub sda: u32,
    pub scl: u32,
    pub clk_reset_clear: u32,
    pub sda_clear: u32,
    pub scl_clear: u32,
    pub clock_toggles: u32,
    pub image: Seq<u8>,
    pub trace: bool,
}

pub open spec fn efuse_claims(addr: u32) -> bool {
    let word = addr & !0x3;
    word == REG_I2C_UDR_CLK_RESET || word == REG_I2C_UDR_SDA || word == REG_I2C_UDR_SCL
}

/// The command bits a store leaves pending: the new ones, or those that were.
pub open spec fn pending_after(val: u32, before: u32) -> u32 {
    if val & CMD_BIT_MASK != 0 {
        val & CMD_BIT_MASK
    } else {
        before
    }
}

impl EfuseState {
    /// The word an address reads as.
    pub open spec fn word_at(self, addr: u32) -> u32 {
        if addr == REG_I2C_UDR_CLK_RESET {
            self.clk_reset
        } else if addr == REG_I2C_UDR_SDA {
            if self.sda & 0x10 != 0 {
                self.sda & !0x8000_0000
            } else {
                self.sda | 0x8000_0000
            }
        } else if addr == REG_I2C_UDR_SCL {
            self.scl | 0x8000_0000
        } else {
            0
        }
    }

    /// A read clears the command bits the register held.
    pub open spec fn after_read(self, addr: u32) -> EfuseState {
        if addr == REG_I2C_UDR_CLK_RESET && self.clk_reset_clear != 0 {
            EfuseState {
                clk_reset: self.clk_reset & !self.clk_reset_clear,
                clk_reset_clear: 0,
                ..self
            }
        } else if addr == REG_I2C_UDR_SDA && self.sda_clear != 0 {
            EfuseState { sda: self.sda & !self.sda_clear, sda_clear: 0, ..self }
        } else if addr == REG_I2C_UDR_SCL && self.scl_clear != 0 {
            EfuseState { scl: self.scl & !self.scl_clear, scl_clear: 0, ..self }
        } else {
            self
        }
    }

    pub open spec fn after_write(self, addr: u32, val: u32) -> EfuseState {
        if addr == REG_I2C_UDR_CLK_RESET {
            EfuseState {
                clock_toggles: if val & 0x8000 != 0 && self.clk_reset & 0x8000 == 0 {
                    0
                } else {
                    self.clock_toggles
                },
                clk_reset: val,
                clk_reset_clear: pending_after(val, self.clk_reset_clear),
                ..self
            }
        } else if addr == REG_I2C_UDR_SDA {
            EfuseState { sda: val, sda_clear: pending_after(val, self.sda_clear), ..self }
        } else if addr == REG_I2C_UDR_SCL {
            EfuseState {
                clock_toggles: if val & 1 != 0 && self.scl & 1 == 0 {
                    self.clock_toggles.wrapping_add(1)
                } else {
                    self.clock_toggles
                },
                scl: val,
                scl_clear: pending_after(val, self.scl_clear),
                ..self
            }
        } else {
            self
        }
    }

    /// The bus after a reset; the fuse image is not state of the bus.
    pub open spec fn cleared(self) -> EfuseState {
        EfuseState {
            clk_reset: 0,
            sda: 0,
            scl: 0,
            clk_reset_clear: 0,
            sda_clear: 0,
            scl_clear: 0,
            clock_toggles: 0,
            ..self
        }
    }

    /// The bus after the entries of a power-on table.
    pub open spec fn powered_on(self, table: Seq<(u32, u32)>) -> EfuseState
        decreases table.len(),
    {
        if table.len() == 0 {
            self
        } else {
            let before = self.powered_on(table.drop_last());
            let addr = (SYSREG_BASE + table.last().0) as u32;
            let val = table.last().1;
            if addr == REG_I2C_UDR_CLK_RESET {
                EfuseState { clk_reset: val, ..before }
            } else if addr == REG_I2C_UDR_SDA {
                EfuseState { sda: val, ..before }
            } else if addr == REG_I2C_UDR_SCL {
                EfuseState { scl: val, ..before }
            } else {
                before
            }
        }
    }
}

/// A fuse image of the full size: the bytes given, then unprogrammed ones.
pub open spec fn full_image(bytes: Seq<u8>) -> Seq<u8> {
    Seq::new(
        80,
        |i: int|
            if i < bytes.len() {
                bytes[i]
            } else {
                0xFFu8
            },
    )
}

pub struct EfuseUdr {
    pub reg_clk_reset: u32,
    pub reg_sda: u32,
    pub reg_scl: u32,
    pub clk_reset_clear: u32,
    pub sda_clear: u32,
    pub scl_clear: u32,
    pub clock_toggles: u32,
    pub efuse_snapshot: Vec<u8>,
    pub trace: bool,
}

impl View for EfuseUdr {
    type V = EfuseState;

    open spec fn view(&self) -> EfuseState {
        EfuseState {
            clk_reset: self.reg_clk_reset,
            sda: self.reg_sda,
            scl: self.reg_scl,
            clk_reset_clear: self.clk_reset_clear,
            sda_clear: self.sda_clear,
            scl_clear: self.scl_clear,
            clock_toggles: self.clock_toggles,
            image: self.efuse_snapshot@,
            trace: self.trace,
        }
    }
}

impl Clone for EfuseUdr {
    fn clone(&self) -> (r: Self)
        ensures
            r@ == self@,
    {
        let r = EfuseUdr {
            reg_clk_reset: self.reg_clk_reset,
            reg_sda: self.reg_sda,
            reg_scl: self.reg_scl,
            clk_reset_clear: self.clk_reset_clear,
            sda_clear: self.sda_clear,
            scl_clear: self.scl_clear,
            clock_toggles: self.clock_toggles,
            efuse_snapshot: self.efuse_snapshot.clone(),
            trace: self.trace,
        };
        assert(r.efuse_snapshot@ =~= self.efuse_snapshot@);
        assert(r@ =~= self@);
        r
    }
}

impl EfuseUdr {
    pub fn new() -> (r: Self)
        ensures
            r@ == (EfuseState {
                clk_reset: 0,
                sda: 0,
                scl: 0,
                clk_reset_clear: 0,
                sda_clear: 0,
                scl_clear: 0,
                clock_toggles: 0,
                image: full_image(Seq::empty()),
                trace: false,
            }),
    {
        let r = EfuseUdr {
            reg_clk_reset: 0,
            reg_sda: 0,
            reg_scl: 0,
            clk_reset_clear: 0,
            sda_clear: 0,
            scl_clear: 0,
            clock_toggles: 0,
            efuse_snapshot: vec![0xFFu8; 80],
            trace: false,
        };
        assert(r.efuse_snapshot@ =~= full_image(Seq::empty()));
        r
    }

    pub fn name(&self) -> (r: &'static str)
        ensures
            r@ == "efuse_udr"@,
    {
        "efuse_udr"
    }

    pub fn address_ranges(&self) -> (r: [AddressRange; 1])
        ensures
            r[0] == (AddressRange { start: 0x0100_0040, end: 0x0100_0050 }),
    {
        [AddressRange::new(0x0100_0040, 0x0100_0050)]
    }

    /// Byte and half-word addresses route with the word that covers them.
    pub fn claims(&self, addr: u32) -> (r: bool)
        ensures
            r == efuse_claims(addr),
    {
        let word: u32 = addr & !0x3;
        word == REG_I2C_UDR_CLK_RESET || word == REG_I2C_UDR_SDA || word == REG_I2C_UDR_SCL
    }

    pub fn read_word(&mut self, addr: u32) -> (r: Result<u32, Exception>)
        ensures
            r == Ok::<u32, Exception>(old(self)@.word_at(addr)),
            final(self)@ == old(self)@.after_read(addr),
    {
        if addr == REG_I2C_UDR_CLK_RESET {
            let val: u32 = self.reg_clk_reset;
            if self.clk_reset_clear != 0 {
                self.reg_clk_reset = self.reg_clk_reset & !self.clk_reset_clear;
                self.clk_reset_clear = 0;
            }
            Ok(val)
        } else if addr == REG_I2C_UDR_SDA {
            let base: u32 = self.reg_sda;
            if self.sda_clear != 0 {
                self.reg_sda = self.reg_sda & !self.sda_clear;
                self.sda_clear = 0;
            }
            if base & 0x10 != 0 {
                Ok(base & !0x8000_0000)
            } else {
                Ok(base | 0x8000_0000)
            }
        } else if addr == REG_I2C_UDR_SCL {
            let base: u32 = self.reg_scl;
            if self.scl_clear != 0 {
                self.reg_scl = self.reg_scl & !self.scl_clear;
                self.scl_clear = 0;
            }
            Ok(base | 0x8000_0000)
        } else {
            Ok(0)
        }
    }

    pub fn write_word(&mut self, addr: u32, val: u32) -> (r: Result<(), Exception>)
        ensures
            r == Ok::<(), Exception>(()),
            final(self)@ == old(self)@.after_write(addr, val),
    {
        let cmd_bits: u32 = val & CMD_BIT_MASK;
        if addr == REG_I2C_UDR_CLK_RESET {
            if (val & 0x8000) != 0 && (self.reg_clk_reset & 0x8000) == 0 {
                self.clock_toggles = 0;
            }
            self.reg_clk_reset = val;
            if cmd_bits != 0 {
                self.clk_reset_clear = cmd_bits;
            }
        } else if addr == REG_I2C_UDR_SDA {
            self.reg_sda = val;
            if cmd_bits != 0 {
                self.sda_clear = cmd_bits;
            }
        } else if addr == REG_I2C_UDR_SCL {
            if (val & 1) != 0 && (self.reg_scl & 1) == 0 {
                self.clock_toggles = self.clock_toggles.wrapping_add(1);
            }
            self.reg_scl = val;
            if cmd_bits != 0 {
                self.scl_clear = cmd_bits;
            }
        }
        Ok(())
    }

    /// Time does not touch the bus.
    pub fn tick(&mut self, _cpu_instructions: u64)
        ensures
            *final(self) == *old(self),
    {
    }

    pub fn reset_cold(&mut self)
        ensures
            final(self)@ == old(self)@.cleared(),
    {
        self.reg_clk_reset = 0;
        self.reg_sda = 0;
        self.reg_scl = 0;
        self.clk_reset_clear = 0;
        self.sda_clear = 0;
        self.scl_clear = 0;
        self.clock_toggles = 0;
    }

    pub fn reset_warm(&mut self)
        ensures
            final(self)@ == old(self)@.cleared().powered_on(
                crate::soc::mmio_init::power_on_table(),
            ),
    {
        self.reset_cold();
        self.apply_warm_snapshot();
    }

    fn apply_warm_snapshot(&mut self)
        ensures
            final(self)@ == old(self)@.powered_on(crate::soc::mmio_init::power_on_table()),
    {
        let table = sysreg_init_values();
        for i in 0..9usize
            invariant
                table@.len() == 9,
                crate::soc::mmio_init::table_in_window(table@),
                self@ == old(self)@.powered_on(table@.take(i as int)),
        {
            let (off, val) = table[i];
            let abs: u32 = SYSREG_BASE + off;
            proof {
                assert(table@.take(i + 1).drop_last() =~= table@.take(i as int));
                assert(table@.take(i + 1).last() == table@[i as int]);
            }
            if abs == REG_I2C_UDR_CLK_RESET {
                self.reg_clk_reset = val;
            } else if abs == REG_I2C_UDR_SDA {
                self.reg_sda = val;
            } else if abs == REG_I2C_UDR_SCL {
                self.reg_scl = val;
            }
        }
        assert(table@.take(9) =~= table@);
    }

    pub fn snapshot(&self) -> (r: PeripheralSnapshot)
        ensures
            r == PeripheralSnapshot::Efuse(
                EfuseSnapshot { udr_status: self@.sda, clock_toggles: self@.clock_toggles },
            ),
    {
        PeripheralSnapshot::Efuse(
            EfuseSnapshot { udr_status: self.reg_sda, clock_toggles: self.clock_toggles },
        )
    }

    /// Replace the fuse image, cut or padded to its size; refuse any other
    /// event.
    pub fn inject_event(&mut self, event: &PeripheralEvent) -> (r: Result<(), PeripheralError>)
        ensures
            r is Ok <==> event is Efuse,
            r is Err ==> r == Err::<(), PeripheralError>(PeripheralError::UnsupportedEvent),
            final(self)@ == (match *event {
                PeripheralEvent::Efuse(EfuseEvent::SetSnapshot(bytes)) => EfuseState {
                    image: full_image(bytes@),
                    ..old(self)@
                },
                _ => old(self)@,
            }),
    {
        match event {
            PeripheralEvent::Efuse(ev) => {
                match ev {
                    EfuseEvent::SetSnapshot(bytes) => {
                        let mut image: Vec<u8> = Vec::new();
                        for i in 0..80usize
                            invariant
                                image@ == full_image(bytes@).take(i as int),
                        {
                            if i < bytes.len() {
                                image.push(bytes[i]);
                            } else {
                                image.push(0xFF);
                            }
                            assert(image@ =~= full_image(bytes@).take(i + 1));
                        }
                        assert(full_image(bytes@).take(80) =~= full_image(bytes@));
                        self.efuse_snapshot = image;
                    },
                }
                Ok(())
            },
            _ => Err(PeripheralError::UnsupportedEvent),
        }
    }
}

/// The data line reads high unless bit 4 drives it low; the clock line always
/// reads high. The other bits of both read as they were written.
pub proof fn law_line_levels(s: EfuseState)
    ensures
        s.word_at(0x0100_0048) & 0x8000_0000 == 0 <==> s.sda & 0x10 != 0,
        s.word_at(0x0100_004C) & 0x8000_0000 != 0,
        s.word_at(0x0100_0048) & 0x7FFF_FFFF == s.sda & 0x7FFF_FFFF,
        s.word_at(0x0100_004C) & 0x7FFF_FFFF == s.scl & 0x7FFF_FFFF,
        s.word_at(0x0100_0040) == s.clk_reset,
{
    let a = s.sda;
    let b = s.scl;
    assert((a | 0x8000_0000u32) & 0x8000_0000 != 0 && (a & !0x8000_0000u32) & 0x8000_0000 == 0 && (b
        | 0x8000_0000u32) & 0x8000_0000 != 0 && (a | 0x8000_0000u32) & 0x7FFF_FFFF == a & 0x7FFF_FFFF
        && (a & !0x8000_0000u32) & 0x7FFF_FFFF == a & 0x7FFF_FFFF && (b | 0x8000_0000u32)
        & 0x7FFF_FFFF == b & 0x7FFF_FFFF) by (bit_vector);
}

/// One low-then-high of the clock line counts one edge, holding it high counts
/// none, and beginning a transfer starts the count over.
pub proof fn law_clock_edges_are_counted(s: EfuseState, low: u32, high: u32, begin: u32)
    requires
        low & 1 == 0,
        high & 1 != 0,
        begin & 0x8000 != 0,
        s.clk_reset & 0x8000 == 0,
    ensures
        ({
            let edge = s.after_write(0x0100_004C, low).after_write(0x0100_004C, high);
            &&& edge.clock_toggles == s.clock_toggles.wrapping_add(1)
            &&& edge.after_write(0x0100_004C, high).clock_toggles == edge.clock_toggles
            &&& edge.after_write(0x0100_004C, low).clock_toggles == edge.clock_toggles
            &&& edge.after_write(0x0100_0040, begin).clock_toggles == 0
        }),
{
}

/// A transfer that is already under way, a word without the begin bit and the
/// data line leave the count of edges alone.
pub proof fn law_only_beginning_clears_the_count(s: EfuseState, val: u32)
    ensures
        s.clk_reset & 0x8000 != 0 || val & 0x8000 == 0 ==> s.after_write(
            0x0100_0040,
            val,
        ).clock_toggles == s.clock_toggles,
        s.after_write(0x0100_0048, val).clock_toggles == s.clock_toggles,
{
}

/// Each of the three registers keeps its own word: a write reaches the register
/// at its address and no other, and nothing but the registers.
pub proof fn law_efuse_registers_are_apart(s: EfuseState, addr: u32, val: u32)
    ensures
        ({
            let after = s.after_write(addr, val);
            &&& after.clk_reset == (if addr == 0x0100_0040 { val } else { s.clk_reset })
            &&& after.sda == (if addr == 0x0100_0048 { val } else { s.sda })
            &&& after.scl == (if addr == 0x0100_004C { val } else { s.scl })
            &&& after.image == s.image
            &&& after.trace == s.trace
            &&& addr != 0x0100_0040 && addr != 0x0100_0048 && addr != 0x0100_004C ==> after == s
                && s.word_at(addr) == 0
        }),
{
}

/// The command bits of a written word show on one read; after it the register
/// holds the word without them.
pub proof fn law_efuse_command_bits_read_once(s: EfuseState, val: u32)
    requires
        val & 0xF800_0000 != 0,
    ensures
        s.after_write(0x0100_0040, val).word_at(0x0100_0040) == val,
        s.after_write(0x0100_0040, val).after_read(0x0100_0040).word_at(0x0100_0040) == val
            & 0x07FF_FFFF,
        s.after_write(0x0100_0048, val).after_read(0x0100_0048).sda == val & 0x07FF_FFFF,
        s.after_write(0x0100_004C, val).after_read(0x0100_004C).scl == val & 0x07FF_FFFF,
        s.after_read(0x0100_0040).sda == s.sda && s.after_read(0x0100_0040).scl == s.scl,
        s.after_read(0x0100_0048).clk_reset == s.clk_reset && s.after_read(0x0100_0048).scl
            == s.scl,
        s.after_read(0x0100_004C).clk_reset == s.clk_reset && s.after_read(0x0100_004C).sda
            == s.sda,
        forall|addr: u32| #[trigger]
            s.after_read(addr).clock_toggles == s.clock_toggles && s.after_read(addr).image
                == s.image,
{
    crate::bits::lemma_command_flags(val);
}

/// The bytes of the three registers are claimed, and the gap between the first
/// and the second is not.
pub proof fn law_efuse_claims_its_registers(addr: u32)
    ensures
        efuse_claims(addr) <==> 0x0100_0040 <= addr <= 0x0100_0043 || 0x0100_0048 <= addr
            <= 0x0100_004F,
{
    crate::bits::lemma_round_down(addr);
}

/// A fuse image is 80 bytes: those given, as far as they go, and 0xFF after
/// them.
pub proof fn law_fuse_image_is_padded(bytes: Seq<u8>, i: int)
    requires
        0 <= i < 80,
    ensures
        full_image(bytes).len() == 80,
        i < bytes.len() ==> full_image(bytes)[i] == bytes[i],
        i >= bytes.len() ==> full_image(bytes)[i] == 0xFF,
{
}

/// A reset idles the bus and keeps the fuses.
pub proof fn law_efuse_reset_keeps_the_fuses(s: EfuseState)
    ensures
        s.cleared().image == s.image,
        s.cleared().trace == s.trace,
        s.cleared().clock_toggles == 0,
        s.cleared().clk_reset == 0 && s.cleared().sda == 0 && s.cleared().scl == 0,
        s.cleared().clk_reset_clear == 0 && s.cleared().sda_clear == 0 && s.cleared().scl_clear
            == 0,
{
}

/// A power-on table sets each register to the last value listed at its offset,
/// and leaves the others, the count and the fuses.
pub proof fn law_power_on_sets_the_listed_words(s: EfuseState, table: Seq<(u32, u32)>, k: int)
    requires
        forall|j: int| 0 <= j < table.len() ==> (#[trigger] table[j]).0 < 0x0100_0000,
        0 <= k <= table.len(),
        forall|j: int|
            k < j < table.len() ==> (#[trigger] table[j]).0 != 0x40 && table[j].0 != 0x48
                && table[j].0 != 0x4C,
    ensures
        ({
            let after = s.powered_on(table);
            let before = s.powered_on(table.take(k));
            let at = if k < table.len() { table[k].0 } else { 0 };
            let v = if k < table.len() { table[k].1 } else { 0 };
            &&& after.clk_reset == (if at == 0x40 { v } else { before.clk_reset })
            &&& after.sda == (if at == 0x48 { v } else { before.sda })
            &&& after.scl == (if at == 0x4C { v } else { before.scl })
            &&& after.clock_toggles == s.clock_toggles
            &&& after.image == s.image
            &&& table.len() == 0 ==> after == s
        }),
    decreases table.len(),
{
    if table.len() == 0 {
        assert(table.take(k) =~= table);
    } else {
        let front = table.drop_last();
        assert(table.last() == table[table.len() - 1]);
        assert(forall|j: int| 0 <= j < front.len() ==> front[j] == #[trigger] table[j]);
        if k == table.len() {
            assert(table.take(k) =~= table);
            assert(front.take(k - 1) =~= front);
            law_power_on_keeps_count_and_fuses(s, front);
        } else if k == table.len() - 1 {
            assert(table.take(k) =~= front);
            law_power_on_keeps_count_and_fuses(s, front);
        } else {
            assert(table.take(k) =~= front.take(k));
            law_power_on_sets_the_listed_words(s, front, k);
        }
    }
}

/// A power-on table never touches the count of edges or the fuses.
pub proof fn law_power_on_keeps_count_and_fuses(s: EfuseState, table: Seq<(u32, u32)>)
    ensures
        s.powered_on(table).clock_toggles == s.clock_toggles,
        s.powered_on(table).image == s.image,
    decreases table.len(),
{
    if table.len() > 0 {
        law_power_on_keeps_count_and_fuses(s, table.drop_last());
    }
}

} // verus!
