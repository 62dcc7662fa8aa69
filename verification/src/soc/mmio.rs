//! The bus of the chip as one register file: a UART mirrored over eight
//! channels, the flash controller, the lane status words, and the system
//! registers, most of which hold what was written.

use std::collections::{HashMap, HashSet};

use vstd::prelude::*;

use crate::cpu::exception::Exception;
use crate::peripherals::pbc::{PbcState, PeripheralBusController};
use crate::peripherals::uart::SimpleUart;
use crate::soc::mmio_init::sysreg_init_values;
use crate::soc::peripheral::{merge_byte, merge_half, select_byte, select_half};
use crate::soc::sfp_eeprom::{SfpEeprom, SfpState};

verus! {

broadcast use vstd::std_specs::hash::group_hash_axioms;

/// The UART block: one controller, eight times every `0x20` bytes.
pub const UART_RANGE_START: u32 = 0x00FC_1000;

pub const UART_RANGE_SIZE: u32 = 0x100;

pub const UART_CHANNEL_SIZE: u32 = 0x20;

/// Where the registers of a channel start.
pub const UART_REG_OFFSET: u32 = 0x10;

pub const PBC_BASE: u32 = 0x0100_01F0;

pub const PBC_SIZE: u32 = 0x50;

pub const SYSREG_BASE: u32 = 0x0100_0000;

pub const SYSREG_SIZE: u32 = 0x3800;

/// Words of the system register store.
pub const SYSREG_WORDS: usize = 0xE00;

/// Lane status words, all of which read 1.
pub const SERDES_BASE: u32 = 0x224A_0000;

pub const SERDES_SIZE: u32 = 0x0800;

/// The I2C master in front of the optical module.
#[derive(Clone, Copy, Debug, PartialEq, Eq, Structural)]
pub struct BscI2cState {
    pub base_addr: u16,
    pub pending_read_off: u16,
    pub read_ready: bool,
    /// 0 for the identity page, 1 for the diagnostics page.
    pub device: u8,
}

impl Default for BscI2cState {
    fn default() -> (r: Self)
        ensures
            r == (BscI2cState {
                base_addr: 0,
                pending_read_off: 0,
                read_ready: false,
                device: 0,
            }),
    {
        BscI2cState { base_addr: 0, pending_read_off: 0, read_ready: false, device: 0 }
    }
}

/// The accesses of one register nothing models, summed up.
#[derive(Clone, Copy, Debug, PartialEq, Eq, Structural)]
pub struct MmioTraceEntry {
    pub reads: u64,
    pub writes: u64,
    pub last_read_value: u32,
    pub last_write_value: u32,
    pub first_pc: u32,
    pub first_insn: u64,
}

/// The first access of a register nothing models.
#[derive(Clone, Copy, Debug, PartialEq, Eq, Structural)]
pub struct UnhandledAccess {
    pub is_write: bool,
    pub offset: u32,
    pub value: u32,
    pub pc: u32,
}

pub open spec fn is_uart_addr(addr: u32) -> bool {
    UART_RANGE_START <= addr < UART_RANGE_START + UART_RANGE_SIZE
}

/// The register of a channel an address names, if it names one.
pub open spec fn uart_register(addr: int) -> Option<u32> {
    let off = (addr - UART_RANGE_START) % 0x20;
    if off >= UART_REG_OFFSET {
        Some((off - UART_REG_OFFSET) as u32)
    } else {
        None
    }
}

pub open spec fn is_pbc_addr(addr: u32) -> bool {
    PBC_BASE <= addr < PBC_BASE + PBC_SIZE
}

pub open spec fn is_sysreg_addr(addr: u32) -> bool {
    SYSREG_BASE <= addr < SYSREG_BASE + SYSREG_SIZE
}

pub open spec fn is_serdes_addr(addr: u32) -> bool {
    SERDES_BASE <= addr < SERDES_BASE + SERDES_SIZE
}

/// Counter result registers, zero on a quiet line.
pub open spec fn is_counter(offset: u32) -> bool {
    offset % 0x200 == 0x1D8 && 0x15D8 <= offset <= 0x1FD8
}

/// Queue drain registers, always done.
pub open spec fn is_drain(offset: u32) -> bool {
    0x1400 <= offset <= 0x3FFF && offset % 0x200 == 0x3C
}

/// Interrupt status of the links, always quiet.
pub open spec fn is_llid_status(offset: u32) -> bool {
    offset == 0x1404 || offset == 0x1604 || offset == 0x1804 || offset == 0x1A04 || offset == 0x1C04
        || offset == 0x1E04
}

/// Lane lock words, always locked.
pub open spec fn is_lane_lock(offset: u32) -> bool {
    offset == 0x194 || offset == 0x1D4
}

/// Registers with a fixed answer.
pub open spec fn fixed_word(offset: u32) -> Option<u32> {
    if offset == 0x000 {
        Some(0x4701_0203)
    } else if offset == 0x004 {
        Some(0xB211_0816)
    } else if offset == 0x00C {
        Some(0x0114_B820)
    } else if offset == 0x018 {
        Some(0x0000_0006)
    } else if offset == 0x030 {
        Some(0x0000_FFFF)
    } else if offset == 0x1E0 {
        Some(0x4550_4F4E)
    } else if is_counter(offset) || is_llid_status(offset) || offset == 0x2804 || offset == 0x3604 {
        Some(0)
    } else {
        None
    }
}

/// Registers whose reads nothing models beyond what was stored.
pub open spec fn read_unhandled(offset: u32) -> bool {
    &&& fixed_word(offset) is None
    &&& offset != 0x050 && offset != 0x048 && offset != 0x04C
    &&& offset != 0x140 && offset != 0x14C && offset != 0x150
    &&& !is_lane_lock(offset) && !is_drain(offset) && offset != 0x064
}

/// Registers whose writes nothing models beyond storing them.
pub open spec fn write_unhandled(offset: u32) -> bool {
    !(offset == 0x000 || offset == 0x004 || offset == 0x00C || offset == 0x018 || offset == 0x030
        || offset == 0x050 || offset == 0x040 || offset == 0x048 || offset == 0x04C || is_lane_lock(
        offset,
    ) || offset == 0x1E0 || offset == 0x2804 || offset == 0x3604 || offset == 0x140 || offset
        == 0x14C || offset == 0x150 || is_llid_status(offset) || is_drain(offset))
}

/// Link configuration words whose bit 0 the hardware clears.
pub open spec fn is_anchor(offset: u32) -> bool {
    offset == 0x043C || offset == 0x04B8 || offset == 0x0D00 || offset == 0x0D7C
}

/// The controller, as values.
#[verifier::ext_equal]
pub struct MmioState {
    pub uart: SimpleUart,
    pub pbc: PbcState,
    pub sfp: SfpState,
    pub pc: u32,
    pub blink: u32,
    pub insn: u64,
    pub timer: u16,
    pub store: Seq<u32>,
    pub pending: Seq<u32>,
    pub clock_toggles: u32,
    pub bsc: BscI2cState,
    pub logged: Set<u32>,
    pub notices: Seq<UnhandledAccess>,
    pub trace: Option<Map<u32, MmioTraceEntry>>,
    pub verbose: bool,
}

impl MmioState {
    pub open spec fn wf(self) -> bool {
        self.store.len() == 0xE00 && self.pending.len() == 0xE00 && self.sfp.a0.len() == 256
            && self.sfp.a2.len() == 256
    }

    /// The tally of a register so far.
    pub open spec fn tally(self, offset: u32) -> MmioTraceEntry {
        if self.trace is Some && self.trace->0.dom().contains(offset) {
            self.trace->0[offset]
        } else {
            MmioTraceEntry {
                reads: 0,
                writes: 0,
                last_read_value: 0,
                last_write_value: 0,
                first_pc: self.pc,
                first_insn: self.insn,
            }
        }
    }

    /// The controller after a key is noted: the first time leaves a notice.
    pub open spec fn noted(self, key: u32, notice: UnhandledAccess) -> MmioState {
        MmioState {
            logged: self.logged.insert(key),
            notices: if self.logged.contains(key) {
                self.notices
            } else {
                self.notices.push(notice)
            },
            ..self
        }
    }

    /// The controller after a read nothing models is logged.
    pub open spec fn read_logged(self, offset: u32) -> MmioState {
        let aligned = offset & !3;
        let val = self.store[aligned as int / 4];
        let next = self.noted(
            aligned,
            UnhandledAccess { is_write: false, offset: aligned, value: val, pc: self.pc },
        );
        match self.trace {
            None => next,
            Some(m) => MmioState {
                trace: Some(
                    m.insert(
                        aligned,
                        MmioTraceEntry {
                            reads: (self.tally(aligned).reads + 1) as u64,
                            last_read_value: val,
                            ..self.tally(aligned)
                        },
                    ),
                ),
                ..next
            },
        }
    }

    /// The controller after a write nothing models is logged.
    pub open spec fn write_logged(self, offset: u32, val: u32) -> MmioState {
        let aligned = offset & !3;
        let next = self.noted(
            aligned | 0x8000_0000,
            UnhandledAccess { is_write: true, offset: aligned, value: val, pc: self.pc },
        );
        match self.trace {
            None => next,
            Some(m) => MmioState {
                trace: Some(
                    m.insert(
                        aligned,
                        MmioTraceEntry {
                            writes: (self.tally(aligned).writes + 1) as u64,
                            last_write_value: val,
                            ..self.tally(aligned)
                        },
                    ),
                ),
                ..next
            },
        }
    }

    /// The controller after a stored word is read: pending command bits clear.
    pub open spec fn store_settled(self, offset: u32) -> MmioState {
        let i = offset as int / 4;
        if self.pending[i] != 0 {
            MmioState {
                store: self.store.update(i, self.store[i] & !self.pending[i]),
                pending: self.pending.update(i, 0),
                ..self
            }
        } else {
            self
        }
    }

    /// The word a system register reads as.
    pub open spec fn sysreg_word(self, offset: u32) -> u32 {
        let held = self.store[offset as int / 4];
        match fixed_word(offset) {
            Some(v) => v,
            None => if offset == 0x050 {
                self.timer as u32
            } else if offset == 0x048 {
                if held & 0x10 != 0 {
                    held & !0x8000_0000
                } else {
                    held | 0x8000_0000
                }
            } else if offset == 0x04C {
                held | 0x8000_0000
            } else if offset == 0x14C && self.bsc.read_ready {
                self.sfp.word(self.bsc.device, self.bsc.pending_read_off)
            } else if offset == 0x150 {
                held & !0x8000_0000
            } else if is_lane_lock(offset) {
                held | 0x0A
            } else if is_drain(offset) {
                held | 0x100
            } else if offset == 0x064 {
                (held & 0xFFFF_0000) | 0x0000_FFFF
            } else {
                held
            },
        }
    }

    /// The controller after a system register is read.
    pub open spec fn after_sysreg_read(self, offset: u32) -> MmioState {
        if fixed_word(offset) is Some || offset == 0x050 || offset == 0x048 || offset == 0x04C
            || is_lane_lock(offset) {
            self
        } else if offset == 0x14C && self.bsc.read_ready {
            MmioState { bsc: BscI2cState { read_ready: false, ..self.bsc }, ..self }
        } else if offset == 0x150 {
            MmioState {
                store: self.store.update(0x54, self.store[0x54] & !0x8000_0000),
                ..self
            }
        } else if read_unhandled(offset) {
            self.read_logged(offset).store_settled(offset)
        } else {
            self.store_settled(offset)
        }
    }

    /// The I2C master after a command word: a read command latches where the
    /// next data word comes from, and bit 0 selects the page.
    pub open spec fn bsc_commanded(self, val: u32) -> BscI2cState {
        let index = (val >> 18) & 0x1FF;
        let cmd = (val >> 27) & 0x1F;
        if cmd & 1 != 0 && index >= 0x100 {
            BscI2cState {
                pending_read_off: ((self.bsc.base_addr + (index - 0x100) * 4) % 0x1_0000) as u16,
                read_ready: true,
                device: (val & 1) as u8,
                ..self.bsc
            }
        } else {
            BscI2cState { device: (val & 1) as u8, ..self.bsc }
        }
    }

    pub open spec fn raises_clock(self, offset: u32, val: u32) -> bool {
        offset == 0x04C && val & 1 != 0 && self.store[0x13] & 1 == 0
    }

    pub open spec fn begins_transfer(self, offset: u32, val: u32) -> bool {
        offset == 0x040 && val & 0x8000 != 0 && self.store[0x10] & 0x8000 == 0
    }

    /// The controller after the machines behind a register saw a write.
    pub open spec fn machines_moved(self, offset: u32, val: u32) -> MmioState {
        MmioState {
            bsc: if offset == 0x140 {
                self.bsc_commanded(val)
            } else if offset == 0x14C {
                BscI2cState { base_addr: (val & 0xFFFF) as u16, ..self.bsc }
            } else {
                self.bsc
            },
            clock_toggles: if self.begins_transfer(offset, val) {
                0
            } else if self.raises_clock(offset, val) {
                (self.clock_toggles + 1) as u32
            } else {
                self.clock_toggles
            },
            ..self
        }
    }

    /// The controller after a word is stored: its command bits are pending.
    pub open spec fn word_stored(self, offset: u32, val: u32) -> MmioState {
        let i = offset as int / 4;
        let kept = if is_anchor(offset) {
            val & !1
        } else {
            val
        };
        MmioState {
            store: self.store.update(i, kept),
            pending: if kept & 0xF800_0000 != 0 {
                self.pending.update(i, kept & 0xF800_0000)
            } else {
                self.pending
            },
            ..self
        }
    }

    /// The controller after a system register is written.
    pub open spec fn after_sysreg_write(self, offset: u32, val: u32) -> MmioState {
        (if write_unhandled(offset) {
            self.write_logged(offset, val)
        } else {
            self
        }).machines_moved(offset, val).word_stored(offset, val)
    }

    /// Whether the tallies can count one more read.
    pub open spec fn can_read(self, offset: u32) -> bool {
        read_unhandled(offset) && self.trace is Some ==> self.tally(offset & !3).reads < u64::MAX
    }

    /// Whether the tallies can count one more write.
    pub open spec fn can_write(self, offset: u32, val: u32) -> bool {
        &&& write_unhandled(offset) && self.trace is Some ==> self.tally(offset & !3).writes
            < u64::MAX
        &&& self.raises_clock(offset, val) ==> self.clock_toggles < u32::MAX
    }

    /// The byte a UART channel reads as.
    pub open spec fn uart_byte(self, addr: int) -> u8 {
        match uart_register(addr) {
            Some(off) => self.uart.word_at(off) as u8,
            None => 0,
        }
    }

    /// The UART after a byte is stored in a channel.
    pub open spec fn uart_stored(self, addr: int, val: u8) -> SimpleUart {
        match uart_register(addr) {
            Some(off) => self.uart.after_write(off, val as u32),
            None => self.uart,
        }
    }

    pub open spec fn word_at(self, addr: u32) -> u32 {
        if is_uart_addr(addr) {
            match uart_register(addr as int) {
                Some(off) => self.uart.word_at(off),
                None => 0,
            }
        } else if is_pbc_addr(addr) {
            self.pbc.word_at((addr - PBC_BASE) as u32)
        } else if is_sysreg_addr(addr) {
            self.sysreg_word((addr - SYSREG_BASE) as u32)
        } else if is_serdes_addr(addr) {
            1
        } else {
            0
        }
    }

    pub open spec fn after_word_read(self, addr: u32) -> MmioState {
        if !is_uart_addr(addr) && !is_pbc_addr(addr) && is_sysreg_addr(addr) {
            self.after_sysreg_read((addr - SYSREG_BASE) as u32)
        } else {
            self
        }
    }

    pub open spec fn half_at(self, addr: u32) -> u16 {
        if is_uart_addr(addr) {
            crate::cache::half_of(self.uart_byte(addr as int), self.uart_byte(addr + 1))
        } else if is_sysreg_addr(addr) {
            let offset = (addr - SYSREG_BASE) as u32;
            crate::soc::peripheral::half_lane(self.sysreg_word(offset & !3), offset)
        } else if is_serdes_addr(addr) {
            1
        } else {
            0
        }
    }

    pub open spec fn after_half_read(self, addr: u32) -> MmioState {
        if !is_uart_addr(addr) && is_sysreg_addr(addr) {
            self.after_sysreg_read(((addr - SYSREG_BASE) as u32) & !3)
        } else {
            self
        }
    }

    pub open spec fn byte_at(self, addr: u32) -> u8 {
        if is_uart_addr(addr) {
            self.uart_byte(addr as int)
        } else if is_pbc_addr(addr) {
            let offset = (addr - PBC_BASE) as u32;
            crate::soc::peripheral::byte_lane(self.pbc.word_at(offset & !3), offset)
        } else if is_sysreg_addr(addr) {
            let offset = (addr - SYSREG_BASE) as u32;
            crate::soc::peripheral::byte_lane(self.sysreg_word(offset & !3), offset)
        } else if is_serdes_addr(addr) {
            1
        } else {
            0
        }
    }

    pub open spec fn after_byte_read(self, addr: u32) -> MmioState {
        if !is_uart_addr(addr) && !is_pbc_addr(addr) && is_sysreg_addr(addr) {
            self.after_sysreg_read(((addr - SYSREG_BASE) as u32) & !3)
        } else {
            self
        }
    }

    pub open spec fn after_word_write(self, addr: u32, val: u32) -> MmioState {
        if is_uart_addr(addr) {
            match uart_register(addr as int) {
                Some(off) => MmioState { uart: self.uart.after_write(off, val), ..self },
                None => self,
            }
        } else if is_pbc_addr(addr) {
            MmioState { pbc: self.pbc.after_write((addr - PBC_BASE) as u32, val), ..self }
        } else if is_sysreg_addr(addr) {
            self.after_sysreg_write((addr - SYSREG_BASE) as u32, val)
        } else {
            self
        }
    }

    /// The controller after a half-word is stored. A system register takes its
    /// lane and nothing behind it moves.
    pub open spec fn after_half_write(self, addr: u32, val: u16) -> MmioState {
        if is_uart_addr(addr) {
            let first = MmioState {
                uart: self.uart_stored(addr as int, (val >> 8) as u8),
                ..self
            };
            MmioState { uart: first.uart_stored(addr + 1, val as u8), ..first }
        } else if is_sysreg_addr(addr) {
            let offset = (addr - SYSREG_BASE) as u32;
            let i = offset as int / 4;
            MmioState {
                store: self.store.update(
                    i,
                    crate::soc::peripheral::with_half_lane(self.store[i], offset, val),
                ),
                ..self
            }
        } else {
            self
        }
    }

    pub open spec fn after_byte_write(self, addr: u32, val: u8) -> MmioState {
        if is_uart_addr(addr) {
            MmioState { uart: self.uart_stored(addr as int, val), ..self }
        } else if is_sysreg_addr(addr) {
            let offset = (addr - SYSREG_BASE) as u32;
            let i = offset as int / 4;
            MmioState {
                store: self.store.update(
                    i,
                    crate::soc::peripheral::with_byte_lane(self.store[i], offset, val),
                ),
                ..self
            }
        } else {
            self
        }
    }
}

/// The stored words at power-on.
pub open spec fn initial_store(table: Seq<(u32, u32)>) -> Seq<u32>
    decreases table.len(),
{
    if table.len() == 0 {
        Seq::new(0xE00, |i: int| 0u32)
    } else {
        let before = initial_store(table.drop_last());
        let i = table.last().0 as int / 4;
        if i < 0xE00 {
            before.update(i, table.last().1)
        } else {
            before
        }
    }
}

/// Routes bus accesses.
pub struct MmioController {
    pub uart: SimpleUart,
    pub pbc: PeripheralBusController,
    /// The optical module behind the I2C master.
    pub sfp: SfpEeprom,
    /// Whether a front end prints every access.
    pub trace: bool,
    /// The instruction that is accessing.
    pub current_pc: u32,
    pub current_blink: u32,
    /// The counter behind register `0x050`.
    pub timer_counter: u16,
    pub sysreg_store: Vec<u32>,
    /// Command bits the next read of a word clears.
    pub sysreg_pending_clear: Vec<u32>,
    /// Rising edges of the serial clock line since the last transfer began.
    pub i2c_clock_toggles: u32,
    pub bsc: BscI2cState,
    /// Registers whose first access has been noticed; writes with bit 31 set.
    pub unhandled_logged: HashSet<u32>,
    /// Those first accesses.
    pub notices: Vec<UnhandledAccess>,
    pub mmio_trace: Option<HashMap<u32, MmioTraceEntry>>,
    pub current_insn: u64,
}

impl View for MmioController {
    type V = MmioState;

    open spec fn view(&self) -> MmioState {
        MmioState {
            uart: self.uart,
            pbc: self.pbc@,
            sfp: self.sfp@,
            pc: self.current_pc,
            blink: self.current_blink,
            insn: self.current_insn,
            timer: self.timer_counter,
            store: self.sysreg_store@,
            pending: self.sysreg_pending_clear@,
            clock_toggles: self.i2c_clock_toggles,
            bsc: self.bsc,
            logged: self.unhandled_logged@,
            notices: self.notices@,
            trace: match self.mmio_trace {
                Some(m) => Some(m@),
                None => None,
            },
            verbose: self.trace,
        }
    }
}

impl MmioController {
    pub open spec fn wf(&self) -> bool {
        self@.wf() && self.pbc.wf()
    }

    pub fn new() -> (r: Self)
        ensures
            r.wf(),
            r.uart == (SimpleUart { control: 0, baud_div_lo: 0, baud_div_hi: 0, rx_buffer: None }),
            r@.pbc == PbcState::fresh(),
            r@.sfp == SfpState::placeholder(),
            r@.store == initial_store(crate::soc::mmio_init::power_on_table()),
            r@.pending == Seq::new(0xE00, |i: int| 0u32),
            r@.clock_toggles == 0 && r@.pc == 0 && r@.blink == 0 && r@.insn == 0 && r@.timer == 0,
            r@.bsc == (BscI2cState {
                base_addr: 0,
                pending_read_off: 0,
                read_ready: false,
                device: 0,
            }),
            r@.logged == Set::<u32>::empty(),
            r@.notices == Seq::<UnhandledAccess>::empty(),
            r@.trace is None,
            !r@.verbose,
    {
        let table: [(u32, u32); 9] = sysreg_init_values();
        let mut store: Vec<u32> = vec![0u32; SYSREG_WORDS];
        let pending: Vec<u32> = vec![0u32; SYSREG_WORDS];
        let ghost pairs = table@;
        assert(pairs.take(0) =~= Seq::<(u32, u32)>::empty());
        assert(store@ =~= initial_store(pairs.take(0)));
        for i in 0..9usize
            invariant
                pairs == table@,
                store@ == initial_store(pairs.take(i as int)),
                store@.len() == 0xE00,
        {
            assert(pairs.take(i + 1).drop_last() =~= pairs.take(i as int));
            assert(pairs.take(i + 1).last() == table@[i as int]);
            let (off, val) = table[i];
            let idx: usize = (off / 4) as usize;
            if idx < SYSREG_WORDS {
                store.set(idx, val);
            }
        }
        assert(pairs.take(9) =~= pairs);
        assert(pending@ =~= Seq::new(0xE00, |i: int| 0u32));
        MmioController {
            uart: SimpleUart::new(),
            pbc: PeripheralBusController::new(),
            sfp: SfpEeprom::new_default(),
            trace: false,
            current_pc: 0,
            current_blink: 0,
            timer_counter: 0,
            sysreg_store: store,
            sysreg_pending_clear: pending,
            i2c_clock_toggles: 0,
            bsc: BscI2cState::default(),
            unhandled_logged: HashSet::new(),
            notices: Vec::new(),
            mmio_trace: None,
            current_insn: 0,
        }
    }

    fn is_uart(addr: u32) -> (r: bool)
        ensures
            r == is_uart_addr(addr),
    {
        addr >= UART_RANGE_START && addr < UART_RANGE_START + UART_RANGE_SIZE
    }

    fn uart_reg_offset(addr: u32) -> (r: Option<u32>)
        requires
            addr >= UART_RANGE_START,
        ensures
            r == uart_register(addr as int),
    {
        let channel_off: u32 = (addr - UART_RANGE_START) % UART_CHANNEL_SIZE;
        if channel_off >= UART_REG_OFFSET {
            Some(channel_off - UART_REG_OFFSET)
        } else {
            None
        }
    }

    fn is_pbc(addr: u32) -> (r: bool)
        ensures
            r == is_pbc_addr(addr),
    {
        addr >= PBC_BASE && addr < PBC_BASE + PBC_SIZE
    }

    fn is_sysreg(addr: u32) -> (r: bool)
        ensures
            r == is_sysreg_addr(addr),
    {
        addr >= SYSREG_BASE && addr < SYSREG_BASE + SYSREG_SIZE
    }

    fn is_serdes(addr: u32) -> (r: bool)
        ensures
            r == is_serdes_addr(addr),
    {
        addr >= SERDES_BASE && addr < SERDES_BASE + SERDES_SIZE
    }

    fn drain_reg(offset: u32) -> (r: bool)
        ensures
            r == is_drain(offset),
    {
        offset >= 0x1400 && offset <= 0x3FFF && offset % 0x200 == 0x3C
    }

    fn llid_status_reg(offset: u32) -> (r: bool)
        ensures
            r == is_llid_status(offset),
    {
        offset == 0x1404 || offset == 0x1604 || offset == 0x1804 || offset == 0x1A04 || offset
            == 0x1C04 || offset == 0x1E04
    }

    fn fixed_reg(offset: u32) -> (r: Option<u32>)
        ensures
            r == fixed_word(offset),
    {
        match offset {
            0x000 => Some(0x4701_0203),
            0x004 => Some(0xB211_0816),
            0x00C => Some(0x0114_B820),
            0x018 => Some(0x0000_0006),
            0x030 => Some(0x0000_FFFF),
            0x1E0 => Some(0x4550_4F4E),
            _ => {
                if (offset % 0x200 == 0x1D8 && offset >= 0x15D8 && offset <= 0x1FD8)
                    || Self::llid_status_reg(offset) || offset == 0x2804 || offset == 0x3604 {
                    Some(0)
                } else {
                    None
                }
            },
        }
    }

    /// Note the first access of a register nothing models.
    fn note(&mut self, key: u32, notice: UnhandledAccess)
        requires
            old(self).wf(),
        ensures
            final(self).wf(),
            final(self)@ == old(self)@.noted(key, notice),
    {
        if self.unhandled_logged.insert(key) {
            self.notices.push(notice);
        }
        assert(self@.logged =~= old(self)@.logged.insert(key));
    }

    fn tally_of(&self, offset: u32) -> (r: MmioTraceEntry)
        ensures
            r == self@.tally(offset),
    {
        let fresh = MmioTraceEntry {
            reads: 0,
            writes: 0,
            last_read_value: 0,
            last_write_value: 0,
            first_pc: self.current_pc,
            first_insn: self.current_insn,
        };
        match &self.mmio_trace {
            Some(m) => match m.get(&offset) {
                Some(e) => *e,
                None => fresh,
            },
            None => fresh,
        }
    }

    fn put_tally(&mut self, offset: u32, entry: MmioTraceEntry)
        requires
            old(self).wf(),
        ensures
            final(self).wf(),
            final(self)@ == (MmioState {
                trace: match old(self)@.trace {
                    Some(m) => Some(m.insert(offset, entry)),
                    None => None,
                },
                ..old(self)@
            }),
    {
        if let Some(m) = &mut self.mmio_trace {
            m.insert(offset, entry);
        }
    }

    fn log_unhandled_read(&mut self, offset: u32)
        requires
            old(self).wf(),
            offset < SYSREG_SIZE,
            old(self)@.trace is Some ==> old(self)@.tally(offset & !3).reads < u64::MAX,
        ensures
            final(self).wf(),
            final(self)@ == old(self)@.read_logged(offset),
    {
        proof {
            crate::bits::lemma_round_down(offset);
        }
        let aligned: u32 = offset & !3;
        let value: u32 = self.sysreg_store[(aligned / 4) as usize];
        let entry = self.tally_of(aligned);
        let pc: u32 = self.current_pc;
        self.note(aligned, UnhandledAccess { is_write: false, offset: aligned, value, pc });
        if self.mmio_trace.is_some() {
            self.put_tally(
                aligned,
                MmioTraceEntry { reads: entry.reads + 1, last_read_value: value, ..entry },
            );
        }
    }

    fn log_unhandled_write(&mut self, offset: u32, val: u32)
        requires
            old(self).wf(),
            old(self)@.trace is Some ==> old(self)@.tally(offset & !3).writes < u64::MAX,
        ensures
            final(self).wf(),
            final(self)@ == old(self)@.write_logged(offset, val),
    {
        let aligned: u32 = offset & !3;
        let entry = self.tally_of(aligned);
        let pc: u32 = self.current_pc;
        self.note(
            aligned | 0x8000_0000,
            UnhandledAccess { is_write: true, offset: aligned, value: val, pc },
        );
        if self.mmio_trace.is_some() {
            self.put_tally(
                aligned,
                MmioTraceEntry { writes: entry.writes + 1, last_write_value: val, ..entry },
            );
        }
    }

    /// Read a stored word; pending command bits clear.
    fn store_read(&mut self, offset: u32) -> (r: u32)
        requires
            old(self).wf(),
            offset < SYSREG_SIZE,
        ensures
            final(self).wf(),
            r == old(self)@.store[offset as int / 4],
            final(self)@ == old(self)@.store_settled(offset),
    {
        let idx: usize = (offset / 4) as usize;
        let val: u32 = self.sysreg_store[idx];
        let clear_mask: u32 = self.sysreg_pending_clear[idx];
        if clear_mask != 0 {
            self.sysreg_store.set(idx, val & !clear_mask);
            self.sysreg_pending_clear.set(idx, 0);
        }
        val
    }

    fn take_sfp_word(&mut self) -> (r: u32)
        requires
            old(self).wf(),
        ensures
            final(self).wf(),
            r == old(self)@.sfp.word(old(self)@.bsc.device, old(self)@.bsc.pending_read_off),
            final(self)@ == (MmioState {
                bsc: BscI2cState { read_ready: false, ..old(self)@.bsc },
                ..old(self)@
            }),
    {
        let w: u32 = self.sfp.read_word(self.bsc.device, self.bsc.pending_read_off);
        self.bsc.read_ready = false;
        w
    }

    fn sysreg_read_word(&mut self, offset: u32) -> (r: u32)
        requires
            old(self).wf(),
            offset < SYSREG_SIZE,
            old(self)@.can_read(offset),
        ensures
            final(self).wf(),
            r == old(self)@.sysreg_word(offset),
            final(self)@ == old(self)@.after_sysreg_read(offset),
    {
        if let Some(v) = Self::fixed_reg(offset) {
            return v;
        }
        let idx: usize = (offset / 4) as usize;
        let held: u32 = self.sysreg_store[idx];
        if offset == 0x050 {
            return self.timer_counter as u32;
        }
        if offset == 0x048 {
            // The slave acknowledges while bit 4 asks for it, and releases the
            // line otherwise.
            return if held & 0x10 != 0 {
                held & !0x8000_0000
            } else {
                held | 0x8000_0000
            };
        }
        if offset == 0x04C {
            return held | 0x8000_0000;
        }
        if offset == 0x140 {
            return self.store_read(offset);
        }
        if offset == 0x14C {
            if self.bsc.read_ready {
                return self.take_sfp_word();
            }
            return self.store_read(offset);
        }
        if offset == 0x150 {
            self.sysreg_store.set(0x54, held & !0x8000_0000);
            return held & !0x8000_0000;
        }
        if offset == 0x194 || offset == 0x1D4 {
            return held | 0x0A;
        }
        if Self::drain_reg(offset) {
            return self.store_read(offset) | 0x100;
        }
        if offset == 0x064 {
            return (self.store_read(offset) & 0xFFFF_0000) | 0x0000_FFFF;
        }
        self.log_unhandled_read(offset);
        self.store_read(offset)
    }

    fn is_write_unhandled(offset: u32) -> (r: bool)
        ensures
            r == write_unhandled(offset),
    {
        !(offset == 0x000 || offset == 0x004 || offset == 0x00C || offset == 0x018 || offset
            == 0x030 || offset == 0x050 || offset == 0x040 || offset == 0x048 || offset == 0x04C
            || offset == 0x194 || offset == 0x1D4 || offset == 0x1E0 || offset == 0x2804 || offset
            == 0x3604 || offset == 0x140 || offset == 0x14C || offset == 0x150
            || Self::llid_status_reg(offset) || Self::drain_reg(offset))
    }

    fn command_bsc(&mut self, val: u32)
        requires
            old(self).wf(),
        ensures
            final(self).wf(),
            final(self)@ == (MmioState { bsc: old(self)@.bsc_commanded(val), ..old(self)@ }),
    {
        let index: u32 = (val >> 18) & 0x1FF;
        let cmd: u32 = (val >> 27) & 0x1F;
        proof {
            crate::bits::lemma_nine_bits(val >> 18);
            crate::bits::lemma_field_bounds(val);
        }
        if (cmd & 1) != 0 && index >= 0x100 {
            let at: u32 = self.bsc.base_addr as u32 + (index - 0x100) * 4;
            self.bsc.pending_read_off = (at % 0x1_0000) as u16;
            self.bsc.read_ready = true;
        }
        self.bsc.device = (val & 1) as u8;
    }

    fn move_machines(&mut self, offset: u32, val: u32)
        requires
            old(self).wf(),
            old(self)@.raises_clock(offset, val) ==> old(self)@.clock_toggles < u32::MAX,
        ensures
            final(self).wf(),
            final(self)@ == old(self)@.machines_moved(offset, val),
    {
        if offset == 0x140 {
            self.command_bsc(val);
        } else if offset == 0x14C {
            self.bsc.base_addr = (val & 0xFFFF) as u16;
        } else if offset == 0x04C {
            if (val & 1) != 0 && (self.sysreg_store[0x13] & 1) == 0 {
                self.i2c_clock_toggles = self.i2c_clock_toggles + 1;
            }
        } else if offset == 0x040 {
            if (val & 0x8000) != 0 && (self.sysreg_store[0x10] & 0x8000) == 0 {
                self.i2c_clock_toggles = 0;
            }
        }
    }

    fn store_word(&mut self, offset: u32, val: u32)
        requires
            old(self).wf(),
            offset < SYSREG_SIZE,
        ensures
            final(self).wf(),
            final(self)@ == old(self)@.word_stored(offset, val),
    {
        let kept: u32 = if offset == 0x043C || offset == 0x04B8 || offset == 0x0D00 || offset
            == 0x0D7C {
            val & !1
        } else {
            val
        };
        let idx: usize = (offset / 4) as usize;
        self.sysreg_store.set(idx, kept);
        let cmd_bits: u32 = kept & 0xF800_0000;
        if cmd_bits != 0 {
            self.sysreg_pending_clear.set(idx, cmd_bits);
        }
    }

    fn sysreg_write_word(&mut self, offset: u32, val: u32)
        requires
            old(self).wf(),
            offset < SYSREG_SIZE,
            old(self)@.can_write(offset, val),
        ensures
            final(self).wf(),
            final(self)@ == old(self)@.after_sysreg_write(offset, val),
    {
        if Self::is_write_unhandled(offset) {
            self.log_unhandled_write(offset, val);
        }
        self.move_machines(offset, val);
        self.store_word(offset, val);
    }

    fn uart_channel_byte(&mut self, addr: u32) -> (r: u8)
        requires
            addr >= UART_RANGE_START,
        ensures
            r == old(self)@.uart_byte(addr as int),
            *final(self) == *old(self),
    {
        match Self::uart_reg_offset(addr) {
            Some(off) => match self.uart.read_byte(off) {
                Ok(b) => b,
                Err(_) => 0,
            },
            None => 0,
        }
    }

    fn uart_channel_store(&mut self, addr: u32, val: u8)
        requires
            old(self).wf(),
            addr >= UART_RANGE_START,
        ensures
            final(self).wf(),
            final(self)@ == (MmioState {
                uart: old(self)@.uart_stored(addr as int, val),
                ..old(self)@
            }),
    {
        if let Some(off) = Self::uart_reg_offset(addr) {
            let _ = self.uart.write_byte(off, val);
        }
    }

    pub fn read_byte(&mut self, addr: u32) -> (r: Result<u8, Exception>)
        requires
            old(self).wf(),
            is_sysreg_addr(addr) ==> old(self)@.can_read(((addr - SYSREG_BASE) as u32) & !3),
        ensures
            final(self).wf(),
            r == Ok::<u8, Exception>(old(self)@.byte_at(addr)),
            final(self)@ == old(self)@.after_byte_read(addr),
    {
        if Self::is_uart(addr) {
            return Ok(self.uart_channel_byte(addr));
        }
        if Self::is_pbc(addr) {
            let offset: u32 = addr - PBC_BASE;
            let word: u32 = self.pbc.read_word(offset & !3);
            return Ok(select_byte(word, offset));
        }
        if Self::is_sysreg(addr) {
            let offset: u32 = addr - SYSREG_BASE;
            proof {
                crate::bits::lemma_round_down(offset);
            }
            let word: u32 = self.sysreg_read_word(offset & !3);
            return Ok(select_byte(word, offset));
        }
        if Self::is_serdes(addr) {
            return Ok(1);
        }
        Ok(0)
    }

    pub fn write_byte(&mut self, addr: u32, val: u8) -> (r: Result<(), Exception>)
        requires
            old(self).wf(),
        ensures
            final(self).wf(),
            r == Ok::<(), Exception>(()),
            final(self)@ == old(self)@.after_byte_write(addr, val),
    {
        if Self::is_uart(addr) {
            self.uart_channel_store(addr, val);
            return Ok(());
        }
        if Self::is_sysreg(addr) {
            let offset: u32 = addr - SYSREG_BASE;
            let idx: usize = (offset / 4) as usize;
            let word: u32 = merge_byte(self.sysreg_store[idx], offset, val);
            self.sysreg_store.set(idx, word);
        }
        Ok(())
    }

    pub fn read_half(&mut self, addr: u32) -> (r: Result<u16, Exception>)
        requires
            old(self).wf(),
            is_sysreg_addr(addr) ==> old(self)@.can_read(((addr - SYSREG_BASE) as u32) & !3),
        ensures
            final(self).wf(),
            r == Ok::<u16, Exception>(old(self)@.half_at(addr)),
            final(self)@ == old(self)@.after_half_read(addr),
    {
        if Self::is_uart(addr) {
            let hi: u8 = self.uart_channel_byte(addr);
            let lo: u8 = self.uart_channel_byte(addr + 1);
            return Ok(((hi as u16) << 8) | (lo as u16));
        }
        if Self::is_sysreg(addr) {
            let offset: u32 = addr - SYSREG_BASE;
            proof {
                crate::bits::lemma_round_down(offset);
            }
            let word: u32 = self.sysreg_read_word(offset & !3);
            return Ok(select_half(word, offset));
        }
        if Self::is_serdes(addr) {
            return Ok(1);
        }
        Ok(0)
    }

    pub fn write_half(&mut self, addr: u32, val: u16) -> (r: Result<(), Exception>)
        requires
            old(self).wf(),
        ensures
            final(self).wf(),
            r == Ok::<(), Exception>(()),
            final(self)@ == old(self)@.after_half_write(addr, val),
    {
        if Self::is_uart(addr) {
            self.uart_channel_store(addr, (val >> 8) as u8);
            self.uart_channel_store(addr + 1, val as u8);
            return Ok(());
        }
        if Self::is_sysreg(addr) {
            let offset: u32 = addr - SYSREG_BASE;
            let idx: usize = (offset / 4) as usize;
            let word: u32 = merge_half(self.sysreg_store[idx], offset, val);
            self.sysreg_store.set(idx, word);
        }
        Ok(())
    }

    pub fn read_word(&mut self, addr: u32) -> (r: Result<u32, Exception>)
        requires
            old(self).wf(),
            is_sysreg_addr(addr) ==> old(self)@.can_read((addr - SYSREG_BASE) as u32),
        ensures
            final(self).wf(),
            r == Ok::<u32, Exception>(old(self)@.word_at(addr)),
            final(self)@ == old(self)@.after_word_read(addr),
    {
        if Self::is_uart(addr) {
            return match Self::uart_reg_offset(addr) {
                Some(off) => self.uart.read_word(off),
                None => Ok(0),
            };
        }
        if Self::is_pbc(addr) {
            return Ok(self.pbc.read_word(addr - PBC_BASE));
        }
        if Self::is_sysreg(addr) {
            return Ok(self.sysreg_read_word(addr - SYSREG_BASE));
        }
        if Self::is_serdes(addr) {
            return Ok(1);
        }
        Ok(0)
    }

    pub fn write_word(&mut self, addr: u32, val: u32) -> (r: Result<(), Exception>)
        requires
            old(self).wf(),
            is_pbc_addr(addr) ==> old(self)@.pbc.accepts((addr - PBC_BASE) as u32, val),
            is_sysreg_addr(addr) && !is_pbc_addr(addr) ==> old(self)@.can_write(
                (addr - SYSREG_BASE) as u32,
                val,
            ),
        ensures
            final(self).wf(),
            r == Ok::<(), Exception>(()),
            final(self)@ == old(self)@.after_word_write(addr, val),
    {
        if Self::is_uart(addr) {
            if let Some(off) = Self::uart_reg_offset(addr) {
                let _ = self.uart.write_word(off, val);
            }
            return Ok(());
        }
        if Self::is_pbc(addr) {
            self.pbc.write_word(addr - PBC_BASE, val);
            return Ok(());
        }
        if Self::is_sysreg(addr) {
            self.sysreg_write_word(addr - SYSREG_BASE, val);
        }
        Ok(())
    }
}

/// Command bits of a register nothing models are seen by one read and gone by
/// the next.
pub proof fn law_command_bits_clear_on_read(s: MmioState, offset: u32, val: u32)
    requires
        s.wf(),
        offset < 0x3800,
        read_unhandled(offset),
        offset % 4 == 0,
        offset != 0x043C && offset != 0x04B8 && offset != 0x0D00 && offset != 0x0D7C,
    ensures
        ({
            let written = s.word_stored(offset, val);
            let read = written.after_sysreg_read(offset);
            &&& written.sysreg_word(offset) == val
            &&& val & 0xF800_0000 != 0 ==> read.sysreg_word(offset) & 0xF800_0000 == 0
                && read.sysreg_word(offset) & 0x07FF_FFFF == val & 0x07FF_FFFF
        }),
{
    crate::bits::lemma_round_down(offset);
    crate::bits::lemma_command_bits(val);
}

/// A register is noticed once, however often it is read.
pub proof fn law_unhandled_reads_are_noticed_once(s: MmioState, offset: u32)
    requires
        s.wf(),
        offset < 0x3800,
    ensures
        s.read_logged(offset).read_logged(offset).notices == s.read_logged(offset).notices,
        s.read_logged(offset).logged.contains(offset & !3),
{
}

/// Each block of the bus answers its own addresses: the serial port in eight
/// mirrors of its upper registers, the flash controller inside the system
/// registers, the lane words with one, and everything else with zero.
pub proof fn law_bus_has_its_blocks(s: MmioState, addr: u32)
    ensures
        0x00FC_1000 <= addr < 0x00FC_1100 && addr % 0x20 >= 0x10 ==> s.word_at(addr)
            == s.uart.word_at((addr % 0x20 - 0x10) as u32),
        0x00FC_1000 <= addr < 0x00FC_1100 && addr % 0x20 < 0x10 ==> s.word_at(addr) == 0,
        0x0100_01F0 <= addr < 0x0100_0240 ==> s.word_at(addr) == s.pbc.word_at(
            (addr - 0x0100_01F0) as u32,
        ),
        0x0100_0000 <= addr < 0x0100_01F0 || 0x0100_0240 <= addr < 0x0100_3800 ==> s.word_at(addr)
            == s.sysreg_word((addr - 0x0100_0000) as u32),
        0x224A_0000 <= addr < 0x224A_0800 ==> s.word_at(addr) == 1,
        addr < 0x00FC_1000 || 0x00FC_1100 <= addr < 0x0100_0000 || 0x0100_3800 <= addr < 0x224A_0000
            || 0x224A_0800 <= addr ==> s.word_at(addr) == 0,
{
}

/// Writes go to the block that answers the address and to nothing else; lane
/// words and unclaimed addresses take nothing.
pub proof fn law_writes_reach_their_block(s: MmioState, addr: u32, val: u32)
    ensures
        ({
            let after = s.after_word_write(addr, val);
            &&& 0x00FC_1000 <= addr < 0x00FC_1100 && addr % 0x20 >= 0x10 ==> after == (MmioState {
                uart: s.uart.after_write((addr % 0x20 - 0x10) as u32, val),
                ..s
            })
            &&& 0x00FC_1000 <= addr < 0x00FC_1100 && addr % 0x20 < 0x10 ==> after == s
            &&& 0x0100_01F0 <= addr < 0x0100_0240 ==> after == (MmioState {
                pbc: s.pbc.after_write((addr - 0x0100_01F0) as u32, val),
                ..s
            })
            &&& 0x0100_0000 <= addr < 0x0100_01F0 || 0x0100_0240 <= addr < 0x0100_3800 ==> after
                == s.after_sysreg_write((addr - 0x0100_0000) as u32, val)
            &&& addr < 0x00FC_1000 || 0x00FC_1100 <= addr < 0x0100_0000 || 0x0100_3800 <= addr
                ==> after == s
        }),
{
}

/// Reads change nothing but system registers.
pub proof fn law_reads_change_system_registers_alone(s: MmioState, addr: u32)
    ensures
        ({
            let sys = 0x0100_0000 <= addr < 0x0100_01F0 || 0x0100_0240 <= addr < 0x0100_3800;
            &&& sys ==> s.after_word_read(addr) == s.after_sysreg_read((addr - 0x0100_0000) as u32)
            &&& !sys ==> s.after_word_read(addr) == s
            &&& s.after_word_read(addr).uart == s.uart && s.after_word_read(addr).pbc == s.pbc
        }),
{
}

/// The registers with one answer give it whatever is stored, and a read of one
/// changes nothing: the chip identity, the masks, the signature, the interrupt
/// words of the six links, the six link counters and the two fatal words.
pub proof fn law_fixed_registers_never_change(s: MmioState, offset: u32, k: u32)
    requires
        k < 6,
    ensures
        s.sysreg_word(0x000) == 0x4701_0203,
        s.sysreg_word(0x004) == 0xB211_0816,
        s.sysreg_word(0x00C) == 0x0114_B820,
        s.sysreg_word(0x018) == 0x0000_0006,
        s.sysreg_word(0x030) == 0x0000_FFFF,
        s.sysreg_word(0x1E0) == 0x4550_4F4E,
        s.sysreg_word(0x2804) == 0,
        s.sysreg_word(0x3604) == 0,
        s.sysreg_word((0x1404 + 0x200 * k) as u32) == 0,
        s.sysreg_word((0x15D8 + 0x200 * k) as u32) == 0,
        fixed_word(offset) is Some ==> s.after_sysreg_read(offset) == s,
        fixed_word(offset) is Some <==> offset == 0 || offset == 4 || offset == 0xC || offset
            == 0x18 || offset == 0x30 || offset == 0x1E0 || offset == 0x2804 || offset == 0x3604 || (
        0x1404 <= offset <= 0x1E04 && (offset - 0x1404) % 0x200 == 0) || (0x15D8 <= offset <= 0x1FD8
            && (offset - 0x15D8) % 0x200 == 0),
{
}

/// The registers with hardware bits show them over what is stored: the data line
/// is high unless bit 4 drives it, the clock line is high, the transfer is never
/// busy, the lanes are locked, the queues are drained and the low half of word
/// 0x064 is all ones.
pub proof fn law_hardware_bits_show(s: MmioState, offset: u32)
    ensures
        s.sysreg_word(0x050) == s.timer,
        s.sysreg_word(0x048) & 0x8000_0000 == 0 <==> s.store[0x12] & 0x10 != 0,
        s.sysreg_word(0x048) & 0x7FFF_FFFF == s.store[0x12] & 0x7FFF_FFFF,
        s.sysreg_word(0x04C) & 0x8000_0000 != 0,
        s.sysreg_word(0x04C) & 0x7FFF_FFFF == s.store[0x13] & 0x7FFF_FFFF,
        s.sysreg_word(0x150) & 0x8000_0000 == 0,
        s.sysreg_word(0x150) & 0x7FFF_FFFF == s.store[0x54] & 0x7FFF_FFFF,
        s.sysreg_word(0x194) & 0xA == 0xA,
        s.sysreg_word(0x194) & !0xAu32 == s.store[0x65] & !0xAu32,
        s.sysreg_word(0x1D4) & 0xA == 0xA,
        s.sysreg_word(0x1D4) & !0xAu32 == s.store[0x75] & !0xAu32,
        0x1400 <= offset < 0x3800 && offset % 0x200 == 0x3C ==> s.sysreg_word(offset) & 0x100
            == 0x100 && s.sysreg_word(offset) & !0x100u32 == s.store[offset as int / 4] & !0x100u32,
        s.sysreg_word(0x064) == (s.store[0x19] / 0x1_0000) * 0x1_0000 + 0xFFFF,
{
    crate::bits::lemma_fields(s.store[0x12]);
    crate::bits::lemma_fields(s.store[0x13]);
    crate::bits::lemma_fields(s.store[0x54]);
    crate::bits::lemma_set_bits(s.store[0x65], 0xA);
    crate::bits::lemma_set_bits(s.store[0x75], 0xA);
    crate::bits::lemma_set_bits(s.store[offset as int / 4], 0x100);
    crate::bits::lemma_fields(2);
    crate::soc::peripheral::law_replaced_lanes_stand_big_endian(s.store[0x19], 2, 0, 0xFFFF);
}

/// A word written to a system register is stored there and nowhere else; four
/// words of the link configuration lose their bit 0.
pub proof fn law_words_are_stored_in_their_place(s: MmioState, offset: u32, val: u32, other: int)
    requires
        s.wf(),
        offset < 0x3800,
        0 <= other < 0xE00,
    ensures
        ({
            let after = s.after_sysreg_write(offset, val);
            let anchor = offset == 0x43C || offset == 0x4B8 || offset == 0xD00 || offset == 0xD7C;
            &&& anchor ==> after.store[offset as int / 4] == val & !1u32
            &&& !anchor ==> after.store[offset as int / 4] == val
            &&& other != offset as int / 4 ==> after.store[other] == s.store[other]
            &&& after.wf()
            &&& after.uart == s.uart && after.pbc == s.pbc && after.sfp == s.sfp && after.timer
                == s.timer
        }),
{
}

/// A command with bit 27 and an index of 0x100 or more latches where the next
/// data word comes from: four bytes an index past the base. Bit 0 of any command
/// selects the page.
pub proof fn law_i2c_command_latches_its_word(s: MmioState, val: u32)
    requires
        s.wf(),
    ensures
        ({
            let after = s.after_sysreg_write(0x140, val).bsc;
            let index = (val / 0x40000) % 512;
            let load = (val / 0x0800_0000) % 2 == 1 && index >= 0x100;
            &&& after.device == val % 2
            &&& after.base_addr == s.bsc.base_addr
            &&& load ==> after.read_ready && after.pending_read_off == (s.bsc.base_addr + (index
                - 0x100) * 4) % 0x1_0000
            &&& !load ==> after.read_ready == s.bsc.read_ready && after.pending_read_off
                == s.bsc.pending_read_off
        }),
        s.after_sysreg_write(0x14C, val).bsc.base_addr == val % 0x1_0000,
        s.after_sysreg_write(0x14C, val).bsc.read_ready == s.bsc.read_ready,
        forall|offset: u32|
            offset != 0x140 && offset != 0x14C ==> (#[trigger] s.after_sysreg_write(
                offset,
                val,
            )).bsc == s.bsc,
{
    crate::bits::lemma_fields(val);
    crate::bits::lemma_round_down(val);
}

/// A latched word is given once; without one the register reads as stored.
pub proof fn law_latched_word_is_given_once(s: MmioState)
    requires
        s.wf(),
    ensures
        s.bsc.read_ready ==> s.sysreg_word(0x14C) == s.sfp.word(
            s.bsc.device,
            s.bsc.pending_read_off,
        ) && !s.after_sysreg_read(0x14C).bsc.read_ready,
        !s.bsc.read_ready ==> s.sysreg_word(0x14C) == s.store[0x53] && !s.after_sysreg_read(
            0x14C,
        ).bsc.read_ready,
{
    crate::bits::lemma_round_down(0x14C);
}

/// A rising clock line counts one edge, a falling or level one none, and the
/// start of a transfer begins the count over.
pub proof fn law_i2c_edges_are_counted(s: MmioState, offset: u32, val: u32)
    requires
        s.wf(),
        s.clock_toggles < u32::MAX,
    ensures
        ({
            let after = s.after_sysreg_write(offset, val);
            let rises = offset == 0x4C && val % 2 == 1 && s.store[0x13] % 2 == 0;
            let begins = offset == 0x40 && (val / 0x8000) % 2 == 1 && (s.store[0x10] / 0x8000) % 2
                == 0;
            &&& rises ==> after.clock_toggles == s.clock_toggles + 1
            &&& begins ==> after.clock_toggles == 0
            &&& !rises && !begins ==> after.clock_toggles == s.clock_toggles
        }),
{
    crate::bits::lemma_fields(val);
    crate::bits::lemma_round_down(val);
    crate::bits::lemma_fields(s.store[0x13]);
    crate::bits::lemma_round_down(s.store[0x13]);
    crate::bits::lemma_fields(s.store[0x10]);
}

/// An access that nothing models is tallied by its word: one more of its kind,
/// with the value that went by and the first instruction that made one. The
/// first of each kind leaves a notice.
pub proof fn law_unmodelled_accesses_are_tallied(s: MmioState, offset: u32, val: u32)
    requires
        s.wf(),
        offset < 0x3800,
        s.tally((offset - offset % 4) as u32).reads < u64::MAX,
        s.tally((offset - offset % 4) as u32).writes < u64::MAX,
    ensures
        ({
            let at = (offset - offset % 4) as u32;
            let read = s.read_logged(offset);
            let wrote = s.write_logged(offset, val);
            let was = s.tally(at);
            &&& s.trace is Some ==> {
                &&& read.tally(at).reads == was.reads + 1
                &&& read.tally(at).writes == was.writes
                &&& read.tally(at).last_read_value == s.store[offset as int / 4]
                &&& read.tally(at).last_write_value == was.last_write_value
                &&& read.tally(at).first_pc == was.first_pc && read.tally(at).first_insn
                    == was.first_insn
                &&& wrote.tally(at).writes == was.writes + 1
                &&& wrote.tally(at).reads == was.reads
                &&& wrote.tally(at).last_write_value == val
                &&& wrote.tally(at).last_read_value == was.last_read_value
                &&& wrote.tally(at).first_pc == was.first_pc && wrote.tally(at).first_insn
                    == was.first_insn
            }
            &&& s.trace is None ==> read.trace is None && wrote.trace is None
            &&& !s.logged.contains(at) ==> read.notices == s.notices.push(
                UnhandledAccess {
                    is_write: false,
                    offset: at,
                    value: s.store[offset as int / 4],
                    pc: s.pc,
                },
            )
            &&& s.logged.contains(at) ==> read.notices == s.notices
            &&& !s.logged.contains(at | 0x8000_0000) ==> wrote.notices == s.notices.push(
                UnhandledAccess { is_write: true, offset: at, value: val, pc: s.pc },
            )
            &&& s.logged.contains(at | 0x8000_0000) ==> wrote.notices == s.notices
            &&& read.store == s.store && wrote.store == s.store
        }),
{
    crate::bits::lemma_round_down(offset);
}

/// A narrow read of a system register gives its part of the word that covers the
/// address, the highest first.
pub proof fn law_narrow_reads_give_parts_of_the_word(s: MmioState, addr: u32)
    requires
        0x0100_0000 <= addr < 0x0100_01F0 || 0x0100_0240 <= addr < 0x0100_3800,
    ensures
        ({
            let word = s.sysreg_word((addr - 0x0100_0000 - addr % 4) as u32);
            &&& addr % 4 < 2 ==> s.half_at(addr) == word / 0x1_0000
            &&& addr % 4 >= 2 ==> s.half_at(addr) == word % 0x1_0000
            &&& addr % 4 == 0 ==> s.byte_at(addr) == word / 0x0100_0000
            &&& addr % 4 == 1 ==> s.byte_at(addr) == (word / 0x1_0000) % 0x100
            &&& addr % 4 == 2 ==> s.byte_at(addr) == (word / 0x100) % 0x100
            &&& addr % 4 == 3 ==> s.byte_at(addr) == word % 0x100
        }),
{
    let offset = (addr - 0x0100_0000) as u32;
    crate::bits::lemma_round_down(offset);
    crate::soc::peripheral::law_bytes_stand_big_endian(s.sysreg_word(offset & !3), offset);
}

/// A narrow write of a system register replaces its part of the stored word and
/// moves nothing else.
pub proof fn law_narrow_writes_replace_parts(s: MmioState, addr: u32, half: u16, byte: u8, other: int)
    requires
        s.wf(),
        0x0100_0000 <= addr < 0x0100_3800,
        0 <= other < 0xE00,
    ensures
        ({
            let i = (addr - 0x0100_0000) / 4;
            let old = s.store[i];
            let h = s.after_half_write(addr, half);
            let b = s.after_byte_write(addr, byte);
            &&& addr % 4 < 2 ==> h.store[i] == half * 0x1_0000 + old % 0x1_0000
            &&& addr % 4 >= 2 ==> h.store[i] == (old / 0x1_0000) * 0x1_0000 + half
            &&& addr % 4 == 0 ==> b.store[i] == byte * 0x0100_0000 + old % 0x0100_0000
            &&& addr % 4 == 1 ==> b.store[i] == (old / 0x0100_0000) * 0x0100_0000 + byte * 0x1_0000
                + old % 0x1_0000
            &&& addr % 4 == 2 ==> b.store[i] == (old / 0x1_0000) * 0x1_0000 + byte * 0x100 + old
                % 0x100
            &&& addr % 4 == 3 ==> b.store[i] == (old / 0x100) * 0x100 + byte
            &&& other != i ==> h.store[other] == s.store[other] && b.store[other] == s.store[other]
            &&& h == (MmioState { store: h.store, ..s })
            &&& b == (MmioState { store: b.store, ..s })
        }),
{
    let offset = (addr - 0x0100_0000) as u32;
    crate::soc::peripheral::law_replaced_lanes_stand_big_endian(
        s.store[offset as int / 4],
        offset,
        byte,
        half,
    );
}

/// At power-on every word holds the last value the table lists for it, and the
/// rest hold zero.
pub proof fn law_power_on_words_are_the_listed_ones(table: Seq<(u32, u32)>, k: int, other: int)
    requires
        0 <= other < 0xE00,
    ensures
        initial_store(table).len() == 0xE00,
        0 <= k < table.len() && table[k].0 < 0x3800 && (forall|j: int|
            k < j < table.len() ==> (#[trigger] table[j]).0 / 4 != table[k].0 / 4)
            ==> initial_store(table)[table[k].0 as int / 4] == table[k].1,
        (forall|j: int| 0 <= j < table.len() ==> (#[trigger] table[j]).0 as int / 4 != other)
            ==> initial_store(table)[other] == 0,
    decreases table.len(),
{
    if table.len() > 0 {
        let front = table.drop_last();
        law_power_on_words_are_the_listed_ones(front, k, other);
        assert(table.last() == table[table.len() - 1]);
        assert(forall|j: int| 0 <= j < front.len() ==> front[j] == #[trigger] table[j]);
    }
}

} // verus!
