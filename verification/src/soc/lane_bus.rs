//! The lane indirect bus: a command, a data and a status word in front of a
//! file of 512 staged words, and behind those a file of 8-bit lane registers
//! with the receive-calibration engines they control.
//!
//!   * **CMD**: bits `[31:27]` are command flags. Flag 1 stores DATA in the
//!     staged word the command names; flag 0 loads it back into DATA.
//!   * **DATA**: operand and result.
//!   * **STAT**: bit 31 is the busy overlay. Writing it arms a lane-register
//!     transaction.
//!
//! A lane register is one byte, reached one transaction at a time: its number
//! and value travel in staged word 0, the result comes back in staged word
//! `0x100`. A page selector outside the bus says which of four register files
//! a transaction addresses, and each file has its own pair of engines.

use vstd::prelude::*;

use crate::soc::mmio_init::SYSREG_BASE;

verus! {

#[derive(Clone, Copy, Debug, PartialEq, Eq, Structural)]
pub enum BusState {
    Idle,
    Busy,
    Done,
}

/// Staged words a command can name.
pub const INDIRECT_REG_COUNT: usize = 512;

/// Lane registers in one file.
pub const LANE_REG_COUNT: usize = 256;

/// Register files the transport addresses.
pub const LANE_PAGE_COUNT: usize = 4;

/// Calibration control: bit 0 enables, bit 2 selects the cold algorithm.
pub const CAL_CTRL_EVEN: u8 = 0xBA;

pub const CAL_CTRL_ODD: u8 = 0xDA;

/// Calibration status: bit 7 says the calibration converged.
pub const CAL_STAT_EVEN: u8 = 0xBB;

pub const CAL_STAT_ODD: u8 = 0xDB;

pub const CAL_ENABLE_BIT: u8 = 0x01;

pub const CAL_COLD_BIT: u8 = 0x04;

pub const CAL_DONE_BIT: u8 = 0x80;

/// Status reads a cold calibration takes: the fastest convergence measured.
pub const DEFAULT_CAL_READS_TO_DONE: u32 = 14_693;

/// One calibration engine.
#[derive(Clone, Copy, Debug, PartialEq, Eq, Structural)]
pub enum CalState {
    /// Not armed.
    Idle,
    /// Armed and converging: this many status reads remain.
    Running { reads_left: u32 },
    /// Converged, until software clears the enable bit.
    Done,
}

/// The bus, as values.
#[verifier::ext_equal]
pub struct LaneState {
    pub cmd_addr: u32,
    pub data_addr: u32,
    pub stat_addr: u32,
    pub cmd: u32,
    pub data: u32,
    pub stat: u32,
    pub state: BusState,
    pub busy_counter: u8,
    pub busy_ticks: u8,
    pub pending_clear: u32,
    pub regs: Seq<u32>,
    pub lane: Seq<u8>,
    pub page: int,
    pub cal: Seq<CalState>,
    pub reads_to_done: u32,
    pub immediate: bool,
}

/// Where a lane register of a page lies.
pub open spec fn lane_index(page: int, reg: u8) -> int {
    page * 256 + reg
}

/// Where an engine of a page lies.
pub open spec fn engine_index(page: int, parity: int) -> int {
    page * 2 + parity
}

/// The engine a control register drives, if it is one.
pub open spec fn control_parity(reg: u8) -> Option<int> {
    if reg == CAL_CTRL_EVEN {
        Some(0)
    } else if reg == CAL_CTRL_ODD {
        Some(1)
    } else {
        None
    }
}

/// The engine a status register reports, if it is one.
pub open spec fn status_parity(reg: u8) -> Option<int> {
    if reg == CAL_STAT_EVEN {
        Some(0)
    } else if reg == CAL_STAT_ODD {
        Some(1)
    } else {
        None
    }
}

/// The status register of an engine.
pub open spec fn status_reg(parity: int) -> u8 {
    if parity == 0 {
        CAL_STAT_EVEN
    } else {
        CAL_STAT_ODD
    }
}

impl LaneState {
    pub open spec fn wf(self) -> bool {
        &&& self.regs.len() == 512
        &&& self.lane.len() == 1024
        &&& self.cal.len() == 8
        &&& 0 <= self.page < 4
        &&& self.pending_clear & 0x07FF_FFFF == 0
    }

    /// The status word, with the busy overlay.
    pub open spec fn status_word(self) -> u32 {
        if self.state is Busy {
            self.stat | 0x8000_0000
        } else {
            self.stat & !0x8000_0000
        }
    }

    /// The bus after the staged access of a command: store first, then load.
    pub open spec fn after_indirect(self, val: u32) -> LaneState {
        let flags = (val >> 27) & 0x1F;
        let idx = ((val >> 18) & 0x1FF) as int;
        let stored = if flags & 2 != 0 {
            LaneState { regs: self.regs.update(idx, self.data), ..self }
        } else {
            self
        };
        if flags & 1 != 0 {
            LaneState { data: stored.regs[idx], ..stored }
        } else {
            stored
        }
    }

    /// The bus after a command word.
    pub open spec fn after_cmd(self, val: u32) -> LaneState {
        LaneState {
            cmd: val,
            pending_clear: if val & 0xF800_0000 != 0 {
                val & 0xF800_0000
            } else {
                self.pending_clear
            },
            ..self
        }.after_indirect(val)
    }

    /// The bus after CMD is read: the flags it still showed are gone.
    pub open spec fn after_cmd_read(self) -> LaneState {
        if self.pending_clear != 0 {
            LaneState { cmd: self.cmd & !self.pending_clear, pending_clear: 0, ..self }
        } else {
            self
        }
    }

    /// The bus after a lane register is written.
    pub open spec fn after_lane_write(self, reg: u8, val: u8) -> LaneState {
        let at = lane_index(self.page, reg);
        let stored = LaneState { lane: self.lane.update(at, val), ..self };
        match control_parity(reg) {
            None => stored,
            Some(p) => {
                let engine = engine_index(self.page, p);
                let stat = lane_index(self.page, status_reg(p));
                if val & CAL_ENABLE_BIT == 0 {
                    LaneState {
                        cal: stored.cal.update(engine, CalState::Idle),
                        lane: stored.lane.update(stat, stored.lane[stat] & !CAL_DONE_BIT),
                        ..stored
                    }
                } else if val & CAL_COLD_BIT != 0 && stored.cal[engine] != CalState::Done {
                    LaneState {
                        cal: stored.cal.update(
                            engine,
                            CalState::Running {
                                reads_left: if self.immediate {
                                    1
                                } else {
                                    self.reads_to_done
                                },
                            },
                        ),
                        ..stored
                    }
                } else {
                    stored
                }
            },
        }
    }

    /// The bus after a lane register is read: a status read moves a running
    /// engine one step.
    pub open spec fn after_lane_read(self, reg: u8) -> LaneState {
        match status_parity(reg) {
            None => self,
            Some(p) => {
                let engine = engine_index(self.page, p);
                let at = lane_index(self.page, reg);
                match self.cal[engine] {
                    CalState::Running { reads_left } => if reads_left <= 1 {
                        LaneState {
                            cal: self.cal.update(engine, CalState::Done),
                            lane: self.lane.update(at, self.lane[at] | CAL_DONE_BIT),
                            ..self
                        }
                    } else {
                        LaneState {
                            cal: self.cal.update(
                                engine,
                                CalState::Running { reads_left: (reads_left - 1) as u32 },
                            ),
                            ..self
                        }
                    },
                    _ => self,
                }
            },
        }
    }

    /// The value a lane register reads as, counting the step the read makes.
    pub open spec fn lane_read_value(self, reg: u8) -> u8 {
        self.after_lane_read(reg).lane[lane_index(self.page, reg)]
    }

    /// The bus after an arming word: bit 22 executes the staged read, an
    /// operand length of two executes the staged write, anything else moves
    /// nothing.
    pub open spec fn after_arm(self, arm: u32) -> LaneState {
        let staged = self.regs[0];
        let reg = (staged & 0xFF) as u8;
        if arm & 0x40_0000 != 0 {
            let read = self.after_lane_read(reg);
            LaneState {
                regs: read.regs.update(0x100, self.lane_read_value(reg) as u32),
                ..read
            }
        } else if (arm >> 3) & 0x7FF == 2 {
            self.after_lane_write(reg, ((staged >> 8) & 0xFF) as u8)
        } else {
            self
        }
    }

    /// The bus after one tick.
    pub open spec fn after_tick(self) -> LaneState {
        if self.state is Busy && self.busy_counter > 0 {
            LaneState {
                busy_counter: (self.busy_counter - 1) as u8,
                state: if self.busy_counter == 1 {
                    BusState::Done
                } else {
                    self.state
                },
                ..self
            }
        } else {
            self
        }
    }

    /// The bus after a reset. Where it sits and how fast it calibrates are not
    /// state.
    pub open spec fn after_reset(self) -> LaneState {
        LaneState {
            cmd: 0,
            data: 0,
            stat: 0,
            state: BusState::Idle,
            busy_counter: 0,
            pending_clear: 0,
            regs: Seq::new(512, |i: int| 0u32),
            lane: Seq::new(1024, |i: int| 0u8),
            page: 0,
            cal: Seq::new(8, |i: int| CalState::Idle),
            ..self
        }
    }

    /// The bus after one power-on value.
    pub open spec fn seeded(self, addr: int, val: u32) -> LaneState {
        if addr == self.cmd_addr {
            LaneState { cmd: val, ..self }
        } else if addr == self.data_addr {
            LaneState { data: val, ..self }
        } else if addr == self.stat_addr {
            LaneState { stat: val, ..self }
        } else {
            self
        }
    }

    /// The bus after the power-on values of a table.
    pub open spec fn powered_on(self, table: Seq<(u32, u32)>) -> LaneState
        decreases table.len(),
    {
        if table.len() == 0 {
            self
        } else {
            self.powered_on(table.drop_last()).seeded(
                SYSREG_BASE + table.last().0,
                table.last().1,
            )
        }
    }
}

#[derive(Debug)]
pub struct LaneBus {
    pub cmd_addr: u32,
    pub data_addr: u32,
    pub stat_addr: u32,
    pub cmd: u32,
    pub data: u32,
    pub stat: u32,
    pub state: BusState,
    pub busy_counter: u8,
    pub busy_ticks: u8,
    /// Command flags the next read of CMD clears.
    pub cmd_pending_clear: u32,
    pub regs: Vec<u32>,
    /// One file per page, `page * LANE_REG_COUNT + reg`.
    pub lane_regs: Vec<u8>,
    pub page: usize,
    /// Two engines per page, even then odd.
    pub cal: [CalState; 8],
    pub cal_reads_to_done: u32,
    /// Converge on the first status read after arming.
    pub cal_immediate: bool,
}

impl View for LaneBus {
    type V = LaneState;

    open spec fn view(&self) -> LaneState {
        LaneState {
            cmd_addr: self.cmd_addr,
            data_addr: self.data_addr,
            stat_addr: self.stat_addr,
            cmd: self.cmd,
            data: self.data,
            stat: self.stat,
            state: self.state,
            busy_counter: self.busy_counter,
            busy_ticks: self.busy_ticks,
            pending_clear: self.cmd_pending_clear,
            regs: self.regs@,
            lane: self.lane_regs@,
            page: self.page as int,
            cal: self.cal@,
            reads_to_done: self.cal_reads_to_done,
            immediate: self.cal_immediate,
        }
    }
}

impl Clone for LaneBus {
    fn clone(&self) -> (r: Self)
        ensures
            r@ == self@,
    {
        let r = LaneBus {
            cmd_addr: self.cmd_addr,
            data_addr: self.data_addr,
            stat_addr: self.stat_addr,
            cmd: self.cmd,
            data: self.data,
            stat: self.stat,
            state: self.state,
            busy_counter: self.busy_counter,
            busy_ticks: self.busy_ticks,
            cmd_pending_clear: self.cmd_pending_clear,
            regs: self.regs.clone(),
            lane_regs: self.lane_regs.clone(),
            page: self.page,
            cal: self.cal,
            cal_reads_to_done: self.cal_reads_to_done,
            cal_immediate: self.cal_immediate,
        };
        assert(r.regs@ =~= self.regs@);
        assert(r.lane_regs@ =~= self.lane_regs@);
        assert(r@ =~= self@);
        r
    }
}

impl LaneBus {
    pub open spec fn wf(&self) -> bool {
        self@.wf()
    }

    pub fn new(base: u32, busy_ticks: u8) -> (r: Self)
        requires
            base + 0x58 <= u32::MAX,
        ensures
            r.wf(),
            r@ == (LaneState {
                cmd_addr: (base + 0x48) as u32,
                data_addr: (base + 0x54) as u32,
                stat_addr: (base + 0x58) as u32,
                cmd: 0,
                data: 0,
                stat: 0,
                state: BusState::Idle,
                busy_counter: 0,
                busy_ticks,
                pending_clear: 0,
                regs: Seq::new(512, |i: int| 0u32),
                lane: Seq::new(1024, |i: int| 0u8),
                page: 0,
                cal: Seq::new(8, |i: int| CalState::Idle),
                reads_to_done: DEFAULT_CAL_READS_TO_DONE,
                immediate: false,
            }),
    {
        let r = LaneBus {
            cmd_addr: base + 0x48,
            data_addr: base + 0x54,
            stat_addr: base + 0x58,
            cmd: 0,
            data: 0,
            stat: 0,
            state: BusState::Idle,
            busy_counter: 0,
            busy_ticks,
            cmd_pending_clear: 0,
            regs: vec![0u32; 512],
            lane_regs: vec![0u8; 1024],
            page: 0,
            cal: [CalState::Idle; 8],
            cal_reads_to_done: DEFAULT_CAL_READS_TO_DONE,
            cal_immediate: false,
        };
        proof {
            crate::bits::lemma_command_flags(0);
        }
        assert(r.regs@ =~= Seq::new(512, |i: int| 0u32));
        assert(r.lane_regs@ =~= Seq::new(1024, |i: int| 0u8));
        assert(r.cal@ =~= Seq::new(8, |i: int| CalState::Idle));
        r
    }

    /// Move the point at which a calibration converges.
    pub fn set_cal_reads_to_done(&mut self, reads: u32)
        ensures
            final(self)@ == (LaneState { reads_to_done: reads, ..old(self)@ }),
    {
        self.cal_reads_to_done = reads;
    }

    /// Converge on the first status read after arming, or not.
    pub fn set_cal_immediate(&mut self, on: bool)
        ensures
            final(self)@ == (LaneState { immediate: on, ..old(self)@ }),
    {
        self.cal_immediate = on;
    }

    /// Select the register file of the transactions that follow. A page there
    /// is none of is refused, not wrapped onto a live one.
    pub fn set_page(&mut self, page: usize)
        ensures
            final(self)@ == (if page < LANE_PAGE_COUNT {
                LaneState { page: page as int, ..old(self)@ }
            } else {
                old(self)@
            }),
    {
        if page < LANE_PAGE_COUNT {
            self.page = page;
        }
    }

    pub fn page(&self) -> (r: usize)
        ensures
            r == self@.page,
    {
        self.page
    }

    fn lane_slot(page: usize, reg: u8) -> (r: usize)
        requires
            page < 4,
        ensures
            r == lane_index(page as int, reg),
            r < 1024,
    {
        page * 256 + reg as usize
    }

    /// A lane register of the current page, without side effects.
    pub fn lane_reg(&self, reg: u8) -> (r: u8)
        requires
            self.wf(),
        ensures
            r == self@.lane[lane_index(self@.page, reg)],
    {
        self.lane_regs[Self::lane_slot(self.page, reg)]
    }

    /// A lane register of a named page; a page past the last names the last.
    pub fn lane_reg_on_page(&self, page: usize, reg: u8) -> (r: u8)
        requires
            self.wf(),
        ensures
            r == self@.lane[lane_index(
                if page < 4 {
                    page as int
                } else {
                    3
                },
                reg,
            )],
    {
        let p: usize = if page < LANE_PAGE_COUNT {
            page
        } else {
            LANE_PAGE_COUNT - 1
        };
        self.lane_regs[Self::lane_slot(p, reg)]
    }

    pub fn claims(&self, addr: u32) -> (r: bool)
        ensures
            r == (addr == self@.cmd_addr || addr == self@.data_addr || addr == self@.stat_addr),
    {
        addr == self.cmd_addr || addr == self.data_addr || addr == self.stat_addr
    }

    pub fn write_cmd(&mut self, val: u32)
        requires
            old(self).wf(),
        ensures
            final(self).wf(),
            final(self)@ == old(self)@.after_cmd(val),
    {
        proof {
            crate::bits::lemma_command_flags(val);
        }
        self.cmd = val;
        let cmd_bits: u32 = val & 0xF800_0000;
        if cmd_bits != 0 {
            self.cmd_pending_clear = cmd_bits;
        }
        self.execute_indirect(val);
    }

    fn execute_indirect(&mut self, val: u32)
        requires
            old(self).wf(),
        ensures
            final(self).wf(),
            final(self)@ == old(self)@.after_indirect(val),
    {
        let flags: u32 = (val >> 27) & 0x1F;
        assert((val >> 18) & 0x1FF < 512) by (bit_vector);
        let reg_idx: usize = ((val >> 18) & 0x1FF) as usize;
        if flags & 2 != 0 {
            self.regs[reg_idx] = self.data;
        }
        if flags & 1 != 0 {
            self.data = self.regs[reg_idx];
        }
    }

    /// Clear the command flags at once.
    pub fn clear_cmd_bits_now(&mut self)
        ensures
            final(self)@ == (LaneState {
                cmd: old(self)@.cmd & 0x07FF_FFFF,
                pending_clear: 0,
                ..old(self)@
            }),
            old(self).wf() ==> final(self).wf(),
    {
        proof {
            crate::bits::lemma_command_flags(0);
        }
        self.cmd = self.cmd & 0x07FF_FFFF;
        self.cmd_pending_clear = 0;
    }

    /// Read CMD. The flags read once more and are then cleared.
    pub fn read_cmd(&mut self) -> (r: u32)
        ensures
            r == old(self)@.cmd,
            final(self)@ == old(self)@.after_cmd_read(),
            old(self).wf() ==> final(self).wf(),
    {
        proof {
            crate::bits::lemma_command_flags(0);
        }
        let val: u32 = self.cmd;
        if self.cmd_pending_clear != 0 {
            self.cmd = self.cmd & !self.cmd_pending_clear;
            self.cmd_pending_clear = 0;
        }
        val
    }

    pub fn peek_cmd(&self) -> (r: u32)
        ensures
            r == self@.cmd,
    {
        self.cmd
    }

    /// The command flags.
    pub fn cmd_hi(&self) -> (r: u8)
        ensures
            r == ((self@.cmd >> 27) & 0x1F) as u8,
    {
        ((self.cmd >> 27) & 0x1F) as u8
    }

    pub fn write_data(&mut self, val: u32)
        ensures
            final(self)@ == (LaneState { data: val, ..old(self)@ }),
    {
        self.data = val;
    }

    pub fn read_data(&self) -> (r: u32)
        ensures
            r == self@.data,
    {
        self.data
    }

    pub fn set_data(&mut self, val: u32)
        ensures
            final(self)@ == (LaneState { data: val, ..old(self)@ }),
    {
        self.data = val;
    }

    /// Write STAT. Bit 0 starts the access and is not held.
    pub fn write_stat(&mut self, val: u32)
        ensures
            final(self)@ == (LaneState { stat: val & !1, ..old(self)@ }),
    {
        self.stat = val & !1;
    }

    pub fn read_stat(&self) -> (r: u32)
        ensures
            r == self@.status_word(),
    {
        if self.is_busy() {
            self.stat | 0x8000_0000
        } else {
            self.stat & !0x8000_0000
        }
    }

    pub fn peek_stat(&self) -> (r: u32)
        ensures
            r == self@.status_word(),
    {
        self.read_stat()
    }

    pub fn raw_stat(&self) -> (r: u32)
        ensures
            r == self@.stat,
    {
        self.stat
    }

    pub fn set_raw_stat(&mut self, val: u32)
        ensures
            final(self)@ == (LaneState { stat: val, ..old(self)@ }),
    {
        self.stat = val;
    }

    /// A staged word, zero past the file.
    pub fn reg(&self, idx: usize) -> (r: u32)
        ensures
            r == (if idx < self@.regs.len() {
                self@.regs[idx as int]
            } else {
                0
            }),
    {
        if idx < self.regs.len() {
            self.regs[idx]
        } else {
            0
        }
    }

    pub fn set_reg(&mut self, idx: usize, val: u32)
        ensures
            final(self)@ == (if idx < old(self)@.regs.len() {
                LaneState { regs: old(self)@.regs.update(idx as int, val), ..old(self)@ }
            } else {
                old(self)@
            }),
    {
        if idx < self.regs.len() {
            self.regs[idx] = val;
        }
    }

    /// The staged words from `start` on, as many of `len` as the file has.
    pub fn regs_slice(&self, start: usize, len: usize) -> (r: &[u32])
        requires
            self.wf(),
            start <= 512,
            start + len <= usize::MAX,
        ensures
            r@ == self@.regs.subrange(
                start as int,
                if start + len < 512 {
                    start + len
                } else {
                    512
                },
            ),
    {
        let end: usize = if start + len < self.regs.len() {
            start + len
        } else {
            self.regs.len()
        };
        vstd::slice::slice_subrange(self.regs.as_slice(), start, end)
    }

    /// Execute the lane-register transaction an arming word starts.
    pub fn arm_transaction(&mut self, arm: u32)
        requires
            old(self).wf(),
        ensures
            final(self).wf(),
            final(self)@ == old(self)@.after_arm(arm),
    {
        let staged: u32 = self.regs[0];
        let reg: u8 = (staged & 0xFF) as u8;
        if arm & 0x40_0000 != 0 {
            let val: u8 = self.lane_read(reg);
            self.regs[0x100] = val as u32;
        } else if (arm >> 3) & 0x7FF == 2 {
            let val: u8 = ((staged >> 8) & 0xFF) as u8;
            self.lane_write(reg, val);
        }
    }

    fn lane_write(&mut self, reg: u8, val: u8)
        requires
            old(self).wf(),
        ensures
            final(self).wf(),
            final(self)@ == old(self)@.after_lane_write(reg, val),
    {
        let page: usize = self.page;
        let at: usize = Self::lane_slot(page, reg);
        self.lane_regs[at] = val;
        if reg == CAL_CTRL_EVEN || reg == CAL_CTRL_ODD {
            let parity: usize = if reg == CAL_CTRL_EVEN {
                0
            } else {
                1
            };
            let engine: usize = page * 2 + parity;
            let stat_reg: u8 = if parity == 0 {
                CAL_STAT_EVEN
            } else {
                CAL_STAT_ODD
            };
            if val & CAL_ENABLE_BIT == 0 {
                // Disabled: the engine stops and its status bit goes away.
                self.cal[engine] = CalState::Idle;
                let stat: usize = Self::lane_slot(page, stat_reg);
                self.lane_regs[stat] = self.lane_regs[stat] & !CAL_DONE_BIT;
            } else if val & CAL_COLD_BIT != 0 && self.cal[engine] != CalState::Done {
                let reads: u32 = if self.cal_immediate {
                    1
                } else {
                    self.cal_reads_to_done
                };
                self.cal[engine] = CalState::Running { reads_left: reads };
            }
        }
    }

    fn lane_read(&mut self, reg: u8) -> (r: u8)
        requires
            old(self).wf(),
        ensures
            final(self).wf(),
            final(self)@ == old(self)@.after_lane_read(reg),
            r == old(self)@.lane_read_value(reg),
    {
        let page: usize = self.page;
        let at: usize = Self::lane_slot(page, reg);
        if reg == CAL_STAT_EVEN || reg == CAL_STAT_ODD {
            let parity: usize = if reg == CAL_STAT_EVEN {
                0
            } else {
                1
            };
            let engine: usize = page * 2 + parity;
            if let CalState::Running { reads_left } = self.cal[engine] {
                if reads_left <= 1 {
                    self.cal[engine] = CalState::Done;
                    self.lane_regs[at] = self.lane_regs[at] | CAL_DONE_BIT;
                } else {
                    self.cal[engine] = CalState::Running { reads_left: reads_left - 1 };
                }
            }
        }
        self.lane_regs[at]
    }

    pub fn go_busy(&mut self)
        ensures
            final(self)@ == (LaneState {
                state: BusState::Busy,
                busy_counter: old(self)@.busy_ticks,
                ..old(self)@
            }),
    {
        self.state = BusState::Busy;
        self.busy_counter = self.busy_ticks;
    }

    pub fn is_busy(&self) -> (r: bool)
        ensures
            r == (self@.state is Busy),
    {
        self.state == BusState::Busy
    }

    pub fn is_done(&self) -> (r: bool)
        ensures
            r == (self@.state is Done),
    {
        self.state == BusState::Done
    }

    pub fn set_idle(&mut self)
        ensures
            final(self)@ == (LaneState { state: BusState::Idle, ..old(self)@ }),
    {
        self.state = BusState::Idle;
    }

    pub fn tick(&mut self)
        ensures
            final(self)@ == old(self)@.after_tick(),
    {
        if self.is_busy() && self.busy_counter > 0 {
            self.busy_counter = self.busy_counter - 1;
            if self.busy_counter == 0 {
                self.state = BusState::Done;
            }
        }
    }

    pub fn reset(&mut self)
        ensures
            final(self).wf(),
            final(self)@ == old(self)@.after_reset(),
    {
        self.cmd = 0;
        self.data = 0;
        self.stat = 0;
        self.state = BusState::Idle;
        self.busy_counter = 0;
        self.regs = vec![0u32; 512];
        self.cmd_pending_clear = 0;
        self.lane_regs = vec![0u8; 1024];
        self.page = 0;
        self.cal = [CalState::Idle; 8];
        proof {
            crate::bits::lemma_command_flags(0);
        }
        assert(self.regs@ =~= Seq::new(512, |i: int| 0u32));
        assert(self.lane_regs@ =~= Seq::new(1024, |i: int| 0u8));
        assert(self.cal@ =~= Seq::new(8, |i: int| CalState::Idle));
    }

    /// Apply the power-on values that name one of the three words. Offsets
    /// count from the system register base.
    pub fn apply_init(&mut self, init_values: &[(u32, u32)])
        requires
            forall|i: int|
                0 <= i < init_values@.len() ==> SYSREG_BASE + (#[trigger] init_values@[i]).0
                    <= u32::MAX,
        ensures
            final(self)@ == old(self)@.powered_on(init_values@),
            old(self).wf() ==> final(self).wf(),
    {
        let n: usize = init_values.len();
        assert(init_values@.take(0) =~= Seq::<(u32, u32)>::empty());
        for i in 0..n
            invariant
                n == init_values@.len(),
                self.cmd_addr == old(self).cmd_addr,
                self.data_addr == old(self).data_addr,
                self.stat_addr == old(self).stat_addr,
                self@ == old(self)@.powered_on(init_values@.take(i as int)),
                old(self).wf() ==> self.wf(),
                forall|k: int|
                    0 <= k < init_values@.len() ==> SYSREG_BASE + (#[trigger] init_values@[k]).0
                        <= u32::MAX,
        {
            let (off, val) = init_values[i];
            proof {
                assert(init_values@.take(i + 1).drop_last() =~= init_values@.take(i as int));
                assert(init_values@.take(i + 1).last() == init_values@[i as int]);
            }
            let abs: u32 = SYSREG_BASE + off;
            if abs == self.cmd_addr {
                self.cmd = val;
            } else if abs == self.data_addr {
                self.data = val;
            } else if abs == self.stat_addr {
                self.stat = val;
            }
        }
        assert(init_values@.take(n as int) =~= init_values@);
    }
}

/// What a transaction writes on one page, no other page sees: neither in its
/// registers nor in its engines.
pub proof fn law_pages_are_isolated(s: LaneState, reg: u8, val: u8, page: int, other: u8, parity: int)
    requires
        s.wf(),
        0 <= page < 4,
        page != s.page,
        0 <= parity < 2,
    ensures
        s.after_lane_write(reg, val).lane[page * 256 + other] == s.lane[page * 256 + other],
        s.after_lane_read(reg).lane[page * 256 + other] == s.lane[page * 256 + other],
        s.after_lane_write(reg, val).cal[page * 2 + parity] == s.cal[page * 2 + parity],
        s.after_lane_read(reg).cal[page * 2 + parity] == s.cal[page * 2 + parity],
{
}

/// A lane register reads back what was written to it, unless it is a status
/// register whose engine is running.
pub proof fn law_lane_register_round_trip(s: LaneState, reg: u8, val: u8)
    requires
        s.wf(),
        reg != 0xBB && reg != 0xDB,
    ensures
        s.after_lane_write(reg, val).lane_read_value(reg) == val,
{
}

/// The two engines of a page are independent: what drives one leaves the
/// other, and its status register, alone.
pub proof fn law_parities_are_independent(s: LaneState, val: u8)
    requires
        s.wf(),
    ensures
        s.after_lane_write(0xBA, val).cal[s.page * 2 + 1] == s.cal[s.page * 2 + 1],
        s.after_lane_write(0xBA, val).lane[s.page * 256 + 0xDB]
            == s.lane[s.page * 256 + 0xDB],
        s.after_lane_write(0xDA, val).cal[s.page * 2 + 0] == s.cal[s.page * 2 + 0],
        s.after_lane_write(0xDA, val).lane[s.page * 256 + 0xBB]
            == s.lane[s.page * 256 + 0xBB],
{
}

/// Reading the status of an engine that is not running changes nothing: the
/// done bit is never there for the asking, and once there it stays.
pub proof fn law_status_reads_do_not_fabricate_done(s: LaneState, reg: u8)
    requires
        s.wf(),
        reg == 0xBB ==> !(s.cal[s.page * 2] is Running),
        reg == 0xDB ==> !(s.cal[s.page * 2 + 1] is Running),
    ensures
        s.after_lane_read(reg) == s,
{
}

/// The bus after reading one register `n` times.
pub open spec fn after_lane_reads(s: LaneState, reg: u8, n: nat) -> LaneState
    decreases n,
{
    if n == 0 {
        s
    } else {
        after_lane_reads(s, reg, (n - 1) as nat).after_lane_read(reg)
    }
}

/// A calibration converges with the status read it was armed for and not
/// before: `k` reads leave `reads - k` to go, and the last sets the done bit.
pub proof fn law_calibration_converges_on_time(s: LaneState, reg: u8, parity: int, reads: u32, k: nat)
    requires
        s.wf(),
        parity == 0 && reg == 0xBB || parity == 1 && reg == 0xDB,
        s.cal[s.page * 2 + parity] == (CalState::Running { reads_left: reads }),
        reads >= 1,
        k <= reads,
    ensures
        ({
            let after = after_lane_reads(s, reg, k);
            let at = s.page * 256 + reg;
            &&& after.wf() && after.page == s.page
            &&& k < reads ==> after.cal[s.page * 2 + parity] == (CalState::Running {
                reads_left: (reads - k) as u32,
            }) && after.lane == s.lane
            &&& k == reads ==> after.cal[s.page * 2 + parity] == CalState::Done
                && after.lane[at] == s.lane[at] | 0x80 && after.lane[at] & 0x80
                == 0x80
        }),
    decreases k,
{
    if k > 0 {
        law_calibration_converges_on_time(s, reg, parity, reads, (k - 1) as nat);
        let b = s.lane[s.page * 256 + reg];
        assert((b | 0x80u8) & 0x80 == 0x80) by (bit_vector);
    }
}

/// Arming takes the enable and the cold bit together. Enable alone starts
/// nothing, and clearing enable stops the engine and takes the done bit away.
pub proof fn law_arming_needs_both_bits(s: LaneState, reg: u8, parity: int, val: u8)
    requires
        s.wf(),
        parity == 0 && reg == 0xBA || parity == 1 && reg == 0xDA,
        s.cal[s.page * 2 + parity] == CalState::Idle,
    ensures
        ({
            let after = s.after_lane_write(reg, val);
            let engine = after.cal[s.page * 2 + parity];
            &&& engine is Running <==> val & 1 != 0 && val & 4 != 0
            &&& engine matches CalState::Running { reads_left } ==> reads_left == (if s.immediate {
                1
            } else {
                s.reads_to_done
            })
            &&& !(engine is Running) ==> engine == CalState::Idle
            &&& val & 1 == 0 ==> after.lane[s.page * 256 + (if parity == 0 { 0xBBint } else { 0xDB })]
                & 0x80 == 0
        }),
{
    let b = s.lane[s.page * 256 + (if parity == 0 { 0xBBint } else { 0xDB })];
    assert((b & !0x80u8) & 0x80 == 0) by (bit_vector);
}

/// Software clearing the cold bit of a converged engine leaves it converged,
/// and no read ever touches a control register.
pub proof fn law_hardware_never_clears_the_cold_bit(
    s: LaneState,
    reg: u8,
    parity: int,
    val: u8,
    read: u8,
)
    requires
        s.wf(),
        parity == 0 && reg == 0xBA || parity == 1 && reg == 0xDA,
        s.cal[s.page * 2 + parity] == CalState::Done,
        val & 1 != 0,
    ensures
        s.after_lane_write(reg, val).cal[s.page * 2 + parity] == CalState::Done,
        s.after_lane_write(reg, val).lane[s.page * 256 + (if parity == 0 { 0xBBint } else { 0xDB })]
            == s.lane[s.page * 256 + (if parity == 0 { 0xBBint } else { 0xDB })],
        s.after_lane_read(read).lane[s.page * 256 + reg] == s.lane[s.page * 256 + reg],
{
}

/// The bus after one logical lane-register write: the operand is staged
/// through DATA and CMD, then armed.
pub open spec fn after_write_transaction(s: LaneState, reg: u8, val: u8) -> LaneState {
    LaneState { data: ((val as u32) << 8) | (reg as u32), ..s }.after_cmd(0x1002_002A).after_arm(
        0x0000_0013,
    )
}

/// The bus after one logical lane-register read, the result loaded into DATA.
pub open spec fn after_read_transaction(s: LaneState, reg: u8) -> LaneState {
    LaneState { data: reg as u32, ..s }.after_cmd(0x1002_002A).after_arm(0x0000_000B).after_arm(
        0x0040_0009,
    ).after_cmd(0x0C02_002A)
}

/// What the transport carries to a lane register it carries back.
pub proof fn law_transport_round_trip(s: LaneState, reg: u8, val: u8)
    requires
        s.wf(),
        reg != 0xBB,
        reg != 0xDB,
    ensures
        after_read_transaction(after_write_transaction(s, reg, val), reg).data == val,
{
    let w = ((val as u32) << 8) | (reg as u32);
    assert({
        let w = ((val as u32) << 8u32) | (reg as u32);
        &&& (0x1002_002Au32 >> 27u32) & 0x1F == 2
        &&& (0x1002_002Au32 >> 18u32) & 0x1FF == 0
        &&& (0x0C02_002Au32 >> 27u32) & 0x1F == 1
        &&& (0x0C02_002Au32 >> 18u32) & 0x1FF == 0x100
        &&& 2u32 & 2 != 0
        &&& 2u32 & 1 == 0
        &&& 1u32 & 2 == 0
        &&& 1u32 & 1 != 0
        &&& 0x13u32 & 0x40_0000 == 0
        &&& (0x13u32 >> 3u32) & 0x7FF == 2
        &&& 0x0Bu32 & 0x40_0000 == 0
        &&& (0x0Bu32 >> 3u32) & 0x7FF == 1
        &&& 0x0040_0009u32 & 0x40_0000 != 0
        &&& (w & 0xFF) as u8 == reg
        &&& ((w >> 8u32) & 0xFF) as u8 == val
        &&& ((reg as u32) & 0xFF) as u8 == reg
    }) by (bit_vector);
    crate::bits::lemma_command_flags(0x1002_002A);
    let s1 = LaneState { data: w, ..s }.after_cmd(0x1002_002A);
    assert(s1.regs[0] == w);
    let s2 = after_write_transaction(s, reg, val);
    assert(s2 == s1.after_lane_write(reg, val));
    law_lane_register_round_trip(s1, reg, val);
    let s3 = LaneState { data: reg as u32, ..s2 }.after_cmd(0x1002_002A);
    assert(s3.regs[0] == reg as u32);
    assert(s3.after_arm(0x0000_000B) == s3);
}

/// A command reads back once in full, then without its flags, and so does every
/// later read. This holds of a command without flags too.
pub proof fn law_command_reads_back_once(s: LaneState, val: u32)
    requires
        s.wf(),
    ensures
        ({
            let written = s.after_cmd(val);
            let read = written.after_cmd_read();
            &&& written.cmd == val
            &&& read.cmd == val & 0x07FF_FFFF
            &&& read.after_cmd_read() == read
        }),
{
    crate::bits::lemma_command_flags(val);
    crate::bits::lemma_flags_apart(val, s.pending_clear);
}

/// Nothing but CMD itself moves the command or its flags: neither the other two
/// words, nor a transaction, nor a tick.
pub proof fn law_other_traffic_keeps_the_command(s: LaneState, val: u32, page: int)
    ensures
        ({
            let others = seq![
                LaneState { data: val, ..s },
                LaneState { stat: val & !1, ..s },
                LaneState { page, ..s },
                s.after_arm(val),
                s.after_tick(),
            ];
            forall|i: int|
                0 <= i < 5 ==> (#[trigger] others[i]).cmd == s.cmd && others[i].pending_clear
                    == s.pending_clear
        }),
{
}

/// The power-on value of CMD is the one the table holds for its address.
pub proof fn law_power_on_value_reaches_cmd(s: LaneState)
    requires
        s.cmd_addr == 0x0100_0160,
        s.data_addr == 0x0100_016C,
        s.stat_addr == 0x0100_0170,
    ensures
        s.powered_on(crate::soc::mmio_init::power_on_table()) == (LaneState {
            cmd: 0x0001_5000,
            ..s
        }),
{
    let table = crate::soc::mmio_init::power_on_table();
    assert forall|n: int| 0 <= n <= 2 implies s.powered_on(#[trigger] table.take(n)) == s by {
        lemma_powered_on_elsewhere(s, table.take(n));
    }
    let before = table.take(2);
    let at = table.take(3);
    assert(at.drop_last() =~= before);
    assert(s.powered_on(at) == (LaneState { cmd: 0x0001_5000, ..s }));
    let rest = table.skip(3);
    assert(at + rest =~= table);
    lemma_powered_on_in_two(s, at, rest);
    lemma_powered_on_elsewhere(s.powered_on(at), rest);
}

/// Values for other addresses leave the bus as it is.
proof fn lemma_powered_on_elsewhere(s: LaneState, table: Seq<(u32, u32)>)
    requires
        forall|i: int|
            0 <= i < table.len() ==> ({
                let addr = SYSREG_BASE + (#[trigger] table[i]).0;
                addr != s.cmd_addr && addr != s.data_addr && addr != s.stat_addr
            }),
    ensures
        s.powered_on(table) == s,
    decreases table.len(),
{
    if table.len() > 0 {
        lemma_powered_on_elsewhere(s, table.drop_last());
        assert(table.last() == table[table.len() - 1]);
    }
}

/// A table can be applied in two parts.
proof fn lemma_powered_on_in_two(s: LaneState, a: Seq<(u32, u32)>, b: Seq<(u32, u32)>)
    ensures
        s.powered_on(a + b) == s.powered_on(a).powered_on(b),
    decreases b.len(),
{
    if b.len() > 0 {
        lemma_powered_on_in_two(s, a, b.drop_last());
        assert((a + b).drop_last() =~= a + b.drop_last());
        assert((a + b).last() == b.last());
    } else {
        assert(a + b =~= a);
    }
}

/// A lane register that is written changes, and no other register does, but for
/// the status register that the two control registers drive.
pub proof fn law_lane_registers_are_apart(s: LaneState, reg: u8, val: u8, other: u8)
    requires
        s.wf(),
        other != reg,
        reg == 0xBA ==> other != 0xBB,
        reg == 0xDA ==> other != 0xDB,
    ensures
        s.after_lane_write(reg, val).lane[s.page * 256 + reg] == val,
        s.after_lane_write(reg, val).lane[s.page * 256 + other] == s.lane[s.page * 256 + other],
        s.after_lane_write(reg, val).regs == s.regs,
        s.after_lane_write(reg, val).data == s.data,
        reg != 0xBA && reg != 0xDA ==> s.after_lane_write(reg, val).cal == s.cal,
        s.after_lane_write(reg, val).wf(),
        other != 0xBB && other != 0xDB ==> s.after_lane_read(reg).lane[s.page * 256 + other]
            == s.lane[s.page * 256 + other],
        reg != 0xBB && reg != 0xDB ==> s.after_lane_read(reg) == s,
{
}

/// Clearing the enable bit stops an engine in any state; while the bit is set a
/// converged engine stays converged and an idle one that is not asked to
/// calibrate stays idle.
pub proof fn law_clearing_enable_stops_the_engine(s: LaneState, parity: int, val: u8)
    requires
        s.wf(),
        parity == 0 || parity == 1,
        val & 1 == 0,
    ensures
        ({
            let reg = if parity == 0 { 0xBAu8 } else { 0xDAu8 };
            let after = s.after_lane_write(reg, val);
            &&& after.cal[s.page * 2 + parity] == CalState::Idle
            &&& after.cal[s.page * 2 + 1 - parity] == s.cal[s.page * 2 + 1 - parity]
            &&& after.lane[s.page * 256 + reg + 1] == s.lane[s.page * 256 + reg + 1] & !0x80u8
        }),
{
}

/// The staged access of a command: bit 28 stores DATA in the word that bits 18
/// to 26 name, bit 27 loads DATA from it, and the store comes first. No other
/// staged word changes.
pub proof fn law_command_names_its_staged_word(s: LaneState, val: u32, other: int)
    requires
        s.wf(),
        0 <= other < 512,
    ensures
        ({
            let after = s.after_cmd(val);
            let idx = (val / 0x40000) % 512;
            let store = (val / 0x1000_0000) % 2 == 1;
            let load = (val / 0x0800_0000) % 2 == 1;
            &&& store ==> after.regs[idx as int] == s.data && after.data == s.data
            &&& !store ==> after.regs == s.regs
            &&& !store && load ==> after.data == s.regs[idx as int]
            &&& !store && !load ==> after.data == s.data
            &&& other != idx ==> after.regs[other] == s.regs[other]
            &&& after.lane == s.lane && after.cal == s.cal && after.stat == s.stat && after.page
                == s.page && after.state == s.state
        }),
{
    crate::bits::lemma_fields(val);
}

/// The status word shows the busy state in bit 31 and the written bits below
/// it.
pub proof fn law_status_shows_busy(s: LaneState)
    ensures
        s.status_word() & 0x8000_0000 != 0 <==> s.state is Busy,
        s.status_word() & 0x7FFF_FFFF == s.stat & 0x7FFF_FFFF,
{
    crate::bits::lemma_fields(s.stat);
}

/// An arming word with bit 22 reads the lane register that the low byte of the
/// first staged word names, into staged word 0x100. One whose length field, the
/// eleven bits from bit 3, is two writes the next byte to that register. Any
/// other moves nothing.
pub proof fn law_arming_moves_the_named_register(s: LaneState, arm: u32, other: int)
    requires
        s.wf(),
        0 <= other < 512,
    ensures
        ({
            let after = s.after_arm(arm);
            let reg = (s.regs[0] % 256) as u8;
            let val = ((s.regs[0] / 256) % 256) as u8;
            let read = (arm / 0x40_0000) % 2 == 1;
            let write = !read && (arm / 8) % 2048 == 2;
            &&& read ==> after.regs[0x100] == s.lane_read_value(reg) && after.lane
                == s.after_lane_read(reg).lane && after.cal == s.after_lane_read(reg).cal
            &&& read && other != 0x100 ==> after.regs[other] == s.regs[other]
            &&& write ==> after == s.after_lane_write(reg, val)
            &&& !read && !write ==> after == s
            &&& after.data == s.data && after.page == s.page && after.stat == s.stat
        }),
{
    crate::bits::lemma_fields(arm);
    crate::bits::lemma_fields(s.regs[0]);
    crate::bits::lemma_fields(s.regs[0] >> 8);
}

/// The bus after `n` ticks.
pub open spec fn after_ticks(s: LaneState, n: nat) -> LaneState
    decreases n,
{
    if n == 0 {
        s
    } else {
        after_ticks(s, (n - 1) as nat).after_tick()
    }
}

/// A busy bus stays busy for as many ticks as its counter says and is done with
/// the last of them; a tick moves nothing else.
pub proof fn law_busy_lasts_its_ticks(s: LaneState, n: nat)
    requires
        s.state is Busy,
        s.busy_counter > 0,
    ensures
        ({
            let after = after_ticks(s, n);
            &&& n < s.busy_counter ==> after.state is Busy && after.busy_counter == s.busy_counter
                - n
            &&& n >= s.busy_counter ==> after.state is Done && after.busy_counter == 0
            &&& after == (LaneState {
                state: after.state,
                busy_counter: after.busy_counter,
                ..s
            })
        }),
    decreases n,
{
    if n > 0 {
        law_busy_lasts_its_ticks(s, (n - 1) as nat);
    }
}

/// A reset clears what the bus holds, and leaves where it sits, how long it is
/// busy and how fast it calibrates.
pub proof fn law_lane_reset_keeps_the_setup(s: LaneState, i: int)
    ensures
        ({
            let after = s.after_reset();
            &&& after.cmd == 0 && after.data == 0 && after.stat == 0 && after.page == 0
            &&& after.state is Idle && after.busy_counter == 0 && after.pending_clear == 0
            &&& 0 <= i < 512 ==> after.regs[i] == 0
            &&& 0 <= i < 1024 ==> after.lane[i] == 0
            &&& 0 <= i < 8 ==> after.cal[i] == CalState::Idle
            &&& after.cmd_addr == s.cmd_addr && after.data_addr == s.data_addr
                && after.stat_addr == s.stat_addr
            &&& after.busy_ticks == s.busy_ticks && after.reads_to_done == s.reads_to_done
                && after.immediate == s.immediate
        }),
{
}

} // verus!
