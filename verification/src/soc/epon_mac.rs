//! The EPON MAC register surface.
//!
//! The MAC owns a sparse set of addresses rather than one contiguous range:
//! its registers are interleaved with those of other subsystems in the same
//! window, and a contiguous claim would steal them.
//!
//!   * Sparse core registers: chip identity, LLID masks, grant masks,
//!     interrupt mask, status and flags.
//!   * `0x01000400..0x01000E80`: per-LLID grant and enable tables. Four anchor
//!     words in it never store bit 0.
//!   * `0x01001400..0x01002000`: six blocks of `0x200` bytes, one per LLID
//!     slot, with interrupt status, the counter latch and the queue pointers.

use std::collections::HashMap;

use vstd::prelude::*;

use crate::cpu::exception::Exception;
use crate::soc::mmio_init::{sysreg_init_values, SYSREG_BASE};
use crate::soc::peripheral::{
    AddressRange, EponEvent, EponMacSnapshot, PeripheralError, PeripheralEvent, PeripheralSnapshot,
};

verus! {

broadcast use vstd::std_specs::hash::group_hash_axioms;

pub const CHIP_ID_VALUE: u32 = 0x47010203;

pub const CHIP_REV_VALUE: u32 = 0xB2110816;

/// Power-on value of the LLID capture mask. Bit 15 gates into an unclocked
/// domain, so a non-zero value would freeze the bus.
pub const LLID_CAPTURE_MASK_RESET: u32 = 0x0000_0000;

pub const LLID_ACTIVE_RESET: u32 = 0x0000_0000;

pub const RX_GRANT_MASK_RESET: u32 = 0x0000_FFFF;

pub const LLID_COUNTER_MASK_RESET: u32 = 0x0007_7FF7;

pub const MPCP_CMD_LATCH_RESET: u32 = 0x0001_5000;

/// The letters `EPON`.
pub const EPON_SIG_VALUE: u32 = 0x4550_4F4E;

/// LLID slots the stride-`0x200` blocks serve.
pub const LLID_SLOT_COUNT: usize = 6;

pub const EPON_LLID_BASE: u32 = 0x0100_1400;

pub const EPON_LLID_STRIDE: u32 = 0x0000_0200;

pub const EPON_LLID_TOP: u32 = 0x0100_2000;

pub const REG_REPORT_FRAME_PARAMS: u32 = 0x0100_04D8;

pub const REG_REPORT_FRAME_LEN: u32 = 0x0100_052C;

pub const EPON_TABLE_BASE: u32 = 0x0100_0400;

pub const EPON_TABLE_END: u32 = 0x0100_0E80;

pub const REG_CHIP_ID: u32 = 0x0100_0000;

pub const REG_CHIP_REV: u32 = 0x0100_0004;

pub const REG_LLID_CAPTURE_MASK: u32 = 0x0100_000C;

pub const REG_LLID_ACTIVE_BITMAP: u32 = 0x0100_0018;

pub const REG_LLID_MASK_CONTROL: u32 = 0x0100_0020;

pub const REG_LLID_COUNTER_MASK: u32 = 0x0100_0024;

pub const REG_TX_GRANT_MASK: u32 = 0x0100_0028;

pub const REG_RX_GRANT_MASK: u32 = 0x0100_0030;

pub const REG_IRQ_MASK: u32 = 0x0100_0034;

pub const REG_EPON_STATUS: u32 = 0x0100_0044;

pub const REG_ACTIVE_FLAGS: u32 = 0x0100_0054;

pub const REG_MDIO_COMMAND: u32 = 0x0100_0060;

/// 1G link status. Bit 1 is the link-change flag; a written 1 clears.
pub const REG_1G_LINK_STATUS: u32 = 0x0100_0410;

pub const REG_HW_STATE_STATUS: u32 = 0x0100_0E04;

pub const REG_SPECIAL_0064: u32 = 0x0100_0064;

/// Discovery status. Bits 1 and 2 clear when written as 1.
pub const REG_DISCOVERY_STATUS: u32 = 0x0100_1040;

/// The bit of a queue word that says its drain is done.
pub const DRAIN_DONE: u32 = 0x100;

/// Offsets inside an LLID slot.
pub const SLOT_IRQ_STATUS: u32 = 0x04;

pub const SLOT_QUEUE_POINTER: u32 = 0x3C;

pub const SLOT_LATCH_CMD: u32 = 0x1D4;

pub const SLOT_LATCH_DATA: u32 = 0x1D8;

/// The registers of the MAC, as values.
#[verifier::ext_equal]
pub struct EponRegs {
    pub table: Seq<u32>,
    pub llid: Seq<u32>,
    pub irq_pending: Seq<u32>,
    pub drain: Seq<bool>,
    pub arrivals: Map<u32, u64>,
    pub latch_cmd: Seq<u32>,
    pub unattributed: u64,
    pub capture_mask: u32,
    pub active_bitmap: u32,
    pub mask_control: u32,
    pub counter_mask: u32,
    pub tx_grant: u32,
    pub rx_grant: u32,
    pub irq_mask: u32,
    pub status: u32,
    pub flags: u32,
    pub link_1g: u32,
    pub hw_state: u32,
    pub discovery: u32,
    pub special: u32,
    pub trace: bool,
}

/// Whether an address lies in the LLID window.
pub open spec fn in_llid_window(addr: u32) -> bool {
    EPON_LLID_BASE <= addr < EPON_LLID_TOP
}

/// Whether an address lies in the table window.
pub open spec fn in_table_window(addr: u32) -> bool {
    EPON_TABLE_BASE <= addr < EPON_TABLE_END
}

/// The LLID slot an address of the LLID window belongs to.
pub open spec fn slot_of(addr: u32) -> int {
    (addr - EPON_LLID_BASE) / 0x200
}

/// The offset of an address inside its LLID slot.
pub open spec fn within_slot(addr: u32) -> int {
    (addr - EPON_LLID_BASE) % 0x200
}

/// The word of the LLID store an address names.
pub open spec fn llid_word(addr: u32) -> int {
    (addr - EPON_LLID_BASE) / 4
}

/// The word of the table store an address names.
pub open spec fn table_word(addr: u32) -> int {
    (addr - EPON_TABLE_BASE) / 4
}

/// The four table words whose bit 0 is a latch trigger and never stored.
pub open spec fn is_anchor(addr: u32) -> bool {
    addr == 0x0100_043C || addr == 0x0100_04B8 || addr == 0x0100_0D00 || addr == 0x0100_0D7C
}

/// The core registers, each claimed on its own.
pub open spec fn is_core_register(addr: u32) -> bool {
    ||| addr == REG_CHIP_ID
    ||| addr == REG_CHIP_REV
    ||| addr == REG_LLID_CAPTURE_MASK
    ||| addr == REG_LLID_ACTIVE_BITMAP
    ||| addr == REG_LLID_MASK_CONTROL
    ||| addr == REG_LLID_COUNTER_MASK
    ||| addr == REG_TX_GRANT_MASK
    ||| addr == REG_RX_GRANT_MASK
    ||| addr == REG_IRQ_MASK
    ||| addr == REG_EPON_STATUS
    ||| addr == REG_ACTIVE_FLAGS
    ||| addr == REG_MDIO_COMMAND
    ||| addr == REG_SPECIAL_0064
    ||| addr == REG_1G_LINK_STATUS
    ||| addr == REG_HW_STATE_STATUS
    ||| addr == REG_DISCOVERY_STATUS
}

/// The addresses the MAC answers.
pub open spec fn epon_claims(addr: u32) -> bool {
    is_core_register(addr & !0x3) || in_table_window(addr) || in_llid_window(addr)
}

/// Whether reading an address latches a counter.
pub open spec fn is_counter_port(addr: u32) -> bool {
    !is_core_register(addr) && in_llid_window(addr) && within_slot(addr) == SLOT_LATCH_DATA
}

/// The key under which a queue's arrivals are kept.
pub open spec fn arrival_key(chan: int, queue: int) -> u32 {
    (chan * 32 + queue) as u32
}

impl EponRegs {
    /// The registers after a reset, before the power-on values go in.
    pub open spec fn cleared(trace: bool) -> EponRegs {
        EponRegs {
            table: Seq::new(672, |i: int| 0u32),
            llid: Seq::new(768, |i: int| 0u32),
            irq_pending: Seq::new(6, |i: int| 0u32),
            drain: Seq::new(6, |i: int| true),
            arrivals: Map::empty(),
            latch_cmd: Seq::new(6, |i: int| 0u32),
            unattributed: 0,
            capture_mask: LLID_CAPTURE_MASK_RESET,
            active_bitmap: LLID_ACTIVE_RESET,
            mask_control: 0,
            counter_mask: LLID_COUNTER_MASK_RESET,
            tx_grant: 0,
            rx_grant: RX_GRANT_MASK_RESET,
            irq_mask: 0,
            status: 0,
            flags: 0,
            link_1g: 0,
            hw_state: 0,
            discovery: 0,
            special: 0,
            trace,
        }
    }

    /// Frames that arrived in a queue.
    pub open spec fn arrived(self, chan: int, queue: int) -> u64 {
        if self.arrivals.dom().contains(arrival_key(chan, queue)) {
            self.arrivals[arrival_key(chan, queue)]
        } else {
            0
        }
    }

    /// The queue the last latch command of a slot named.
    pub open spec fn latched_queue(self, slot: int) -> u32 {
        (self.latch_cmd[slot] >> 4) & 0x1F
    }

    /// The queue pointer word of a slot.
    ///
    /// The same address is a selector on write and a pointer on read: the
    /// start of the selected queue, from that queue's own configuration word,
    /// stands in bits `[26:9]`, and bit 8 is derived from the drain flag.
    pub open spec fn queue_pointer(self, addr: u32) -> u32 {
        let slot = slot_of(addr);
        let selector = self.llid[llid_word(addr)] & 0x3F;
        let queue = selector & 0x1F;
        let start = self.llid[slot * 0x80 + 0x20 + queue] & 0x7FF;
        let field = (start << 6) & 0x3_FFFF;
        let drain: u32 = if self.drain[slot] {
            0x100
        } else {
            0
        };
        (field << 9) | drain | selector
    }

    /// The word an address reads as.
    pub open spec fn word_at(self, addr: u32) -> u32 {
        if addr == REG_CHIP_ID {
            CHIP_ID_VALUE
        } else if addr == REG_CHIP_REV {
            CHIP_REV_VALUE
        } else if addr == REG_LLID_CAPTURE_MASK {
            self.capture_mask
        } else if addr == REG_LLID_ACTIVE_BITMAP {
            self.active_bitmap
        } else if addr == REG_LLID_MASK_CONTROL {
            self.mask_control
        } else if addr == REG_LLID_COUNTER_MASK {
            self.counter_mask
        } else if addr == REG_TX_GRANT_MASK {
            self.tx_grant
        } else if addr == REG_RX_GRANT_MASK {
            self.rx_grant
        } else if addr == REG_IRQ_MASK {
            self.irq_mask
        } else if addr == REG_EPON_STATUS {
            self.status
        } else if addr == REG_ACTIVE_FLAGS {
            self.flags
        } else if addr == REG_MDIO_COMMAND {
            0
        } else if addr == REG_1G_LINK_STATUS {
            self.link_1g
        } else if addr == REG_HW_STATE_STATUS {
            self.hw_state
        } else if addr == REG_SPECIAL_0064 {
            self.special
        } else if addr == REG_DISCOVERY_STATUS {
            self.discovery
        } else if in_llid_window(addr) {
            if within_slot(addr) == SLOT_IRQ_STATUS {
                self.irq_pending[slot_of(addr)]
            } else if within_slot(addr) == SLOT_QUEUE_POINTER {
                self.queue_pointer(addr)
            } else if within_slot(addr) == SLOT_LATCH_DATA {
                self.arrived(slot_of(addr), self.latched_queue(slot_of(addr)) as int) as u32
            } else {
                self.llid[llid_word(addr)]
            }
        } else if in_table_window(addr) {
            self.table[table_word(addr)]
        } else {
            0
        }
    }

    /// The registers after a read: a read of the counter port is counted.
    pub open spec fn after_read(self, addr: u32) -> EponRegs {
        if is_counter_port(addr) {
            EponRegs { unattributed: (self.unattributed + 1) as u64, ..self }
        } else {
            self
        }
    }

    /// The registers after a word is written.
    pub open spec fn after_write(self, addr: u32, val: u32) -> EponRegs {
        if addr == REG_CHIP_ID || addr == REG_CHIP_REV || addr == REG_MDIO_COMMAND {
            self
        } else if addr == REG_LLID_CAPTURE_MASK {
            EponRegs { capture_mask: val, ..self }
        } else if addr == REG_LLID_ACTIVE_BITMAP {
            EponRegs { active_bitmap: val, ..self }
        } else if addr == REG_LLID_MASK_CONTROL {
            EponRegs { mask_control: val, ..self }
        } else if addr == REG_LLID_COUNTER_MASK {
            EponRegs { counter_mask: val, ..self }
        } else if addr == REG_TX_GRANT_MASK {
            EponRegs { tx_grant: val, ..self }
        } else if addr == REG_RX_GRANT_MASK {
            EponRegs { rx_grant: val, ..self }
        } else if addr == REG_IRQ_MASK {
            EponRegs { irq_mask: val, ..self }
        } else if addr == REG_EPON_STATUS {
            EponRegs { status: val & !0x1, ..self }
        } else if addr == REG_ACTIVE_FLAGS {
            EponRegs { flags: val, ..self }
        } else if addr == REG_1G_LINK_STATUS {
            EponRegs { link_1g: self.link_1g & !val, ..self }
        } else if addr == REG_HW_STATE_STATUS {
            EponRegs { hw_state: self.hw_state & !val, ..self }
        } else if addr == REG_SPECIAL_0064 {
            EponRegs { special: val, ..self }
        } else if addr == REG_DISCOVERY_STATUS {
            EponRegs {
                discovery: (self.discovery & !(val & 0x6)) | (val & !0x6),
                ..self
            }
        } else if in_llid_window(addr) {
            let slot = slot_of(addr);
            if within_slot(addr) == SLOT_IRQ_STATUS {
                EponRegs {
                    irq_pending: self.irq_pending.update(slot, self.irq_pending[slot] & !val),
                    ..self
                }
            } else if within_slot(addr) == SLOT_LATCH_CMD {
                EponRegs { latch_cmd: self.latch_cmd.update(slot, val & !0x8000_0000), ..self }
            } else if within_slot(addr) == SLOT_QUEUE_POINTER {
                EponRegs {
                    drain: if val & DRAIN_DONE != 0 {
                        self.drain.update(slot, false)
                    } else {
                        self.drain
                    },
                    llid: self.llid.update(llid_word(addr), val & !0x100),
                    ..self
                }
            } else {
                EponRegs { llid: self.llid.update(llid_word(addr), val), ..self }
            }
        } else if in_table_window(addr) {
            EponRegs {
                table: self.table.update(
                    table_word(addr),
                    if is_anchor(addr) {
                        val & !0x1
                    } else {
                        val
                    },
                ),
                ..self
            }
        } else {
            self
        }
    }

    /// The registers after a power-on value goes in, past every side effect.
    pub open spec fn seeded(self, addr: u32, val: u32) -> EponRegs {
        if addr == REG_CHIP_ID || addr == REG_CHIP_REV || addr == REG_MDIO_COMMAND || addr
            == REG_HW_STATE_STATUS {
            self
        } else if addr == REG_SPECIAL_0064 {
            EponRegs { special: val, ..self }
        } else if addr == REG_LLID_CAPTURE_MASK {
            EponRegs { capture_mask: val, ..self }
        } else if addr == REG_LLID_ACTIVE_BITMAP {
            EponRegs { active_bitmap: val, ..self }
        } else if addr == REG_LLID_MASK_CONTROL {
            EponRegs { mask_control: val, ..self }
        } else if addr == REG_LLID_COUNTER_MASK {
            EponRegs { counter_mask: val, ..self }
        } else if addr == REG_TX_GRANT_MASK {
            EponRegs { tx_grant: val, ..self }
        } else if addr == REG_RX_GRANT_MASK {
            EponRegs { rx_grant: val, ..self }
        } else if addr == REG_IRQ_MASK {
            EponRegs { irq_mask: val, ..self }
        } else if addr == REG_EPON_STATUS {
            EponRegs { status: val, ..self }
        } else if addr == REG_ACTIVE_FLAGS {
            EponRegs { flags: val, ..self }
        } else if in_table_window(addr) {
            EponRegs { table: self.table.update(table_word(addr), val), ..self }
        } else if in_llid_window(addr) {
            EponRegs { llid: self.llid.update(llid_word(addr), val), ..self }
        } else {
            self
        }
    }

    /// The registers after every claimed entry of a power-on table goes in.
    pub open spec fn powered_on(self, table: Seq<(u32, u32)>) -> EponRegs
        decreases table.len(),
    {
        if table.len() == 0 {
            self
        } else {
            let before = self.powered_on(table.drop_last());
            let addr = (SYSREG_BASE + table.last().0) as u32;
            if epon_claims(addr) {
                before.seeded(addr, table.last().1)
            } else {
                before
            }
        }
    }
}

pub struct EponMac {
    pub table_store: Vec<u32>,
    pub llid_store: Vec<u32>,
    /// Interrupt bits latched per slot; software clears them by writing 1.
    pub llid_irq_pending: [u32; 6],
    /// Whether a slot has entries to drain. Cleared by an acknowledge, armed
    /// again by the next tick.
    pub llid_drain_flag: [bool; 6],
    /// Frames that arrived in each queue since reset. The datapath reports
    /// them; nothing here invents one.
    pub queue_arrivals: HashMap<u32, u64>,
    /// Last command written to each slot's counter latch, busy bit cleared.
    pub latch_cmd: [u32; 6],
    /// Counter reads whose selector the model cannot tell apart.
    pub unattributed_counter_reads: u64,
    pub llid_capture_mask: u32,
    pub llid_active_bitmap: u32,
    pub llid_mask_control: u32,
    pub llid_counter_mask: u32,
    pub tx_grant_mask: u32,
    pub rx_grant_mask: u32,
    pub irq_mask: u32,
    pub epon_status: u32,
    pub active_flags: u32,
    pub link_status_1g: u32,
    pub hw_state_status: u32,
    pub discovery_status: u32,
    pub special_0064: u32,
    pub trace: bool,
}

impl View for EponMac {
    type V = EponRegs;

    open spec fn view(&self) -> EponRegs {
        EponRegs {
            table: self.table_store@,
            llid: self.llid_store@,
            irq_pending: self.llid_irq_pending@,
            drain: self.llid_drain_flag@,
            arrivals: self.queue_arrivals@,
            latch_cmd: self.latch_cmd@,
            unattributed: self.unattributed_counter_reads,
            capture_mask: self.llid_capture_mask,
            active_bitmap: self.llid_active_bitmap,
            mask_control: self.llid_mask_control,
            counter_mask: self.llid_counter_mask,
            tx_grant: self.tx_grant_mask,
            rx_grant: self.rx_grant_mask,
            irq_mask: self.irq_mask,
            status: self.epon_status,
            flags: self.active_flags,
            link_1g: self.link_status_1g,
            hw_state: self.hw_state_status,
            discovery: self.discovery_status,
            special: self.special_0064,
            trace: self.trace,
        }
    }
}

impl Clone for EponMac {
    fn clone(&self) -> (r: Self)
        ensures
            r@ == self@,
    {
        let r = EponMac {
            table_store: self.table_store.clone(),
            llid_store: self.llid_store.clone(),
            llid_irq_pending: self.llid_irq_pending,
            llid_drain_flag: self.llid_drain_flag,
            queue_arrivals: self.queue_arrivals.clone(),
            latch_cmd: self.latch_cmd,
            unattributed_counter_reads: self.unattributed_counter_reads,
            llid_capture_mask: self.llid_capture_mask,
            llid_active_bitmap: self.llid_active_bitmap,
            llid_mask_control: self.llid_mask_control,
            llid_counter_mask: self.llid_counter_mask,
            tx_grant_mask: self.tx_grant_mask,
            rx_grant_mask: self.rx_grant_mask,
            irq_mask: self.irq_mask,
            epon_status: self.epon_status,
            active_flags: self.active_flags,
            link_status_1g: self.link_status_1g,
            hw_state_status: self.hw_state_status,
            discovery_status: self.discovery_status,
            special_0064: self.special_0064,
            trace: self.trace,
        };
        assert(r.table_store@ =~= self.table_store@);
        assert(r.llid_store@ =~= self.llid_store@);
        assert(r@ =~= self@);
        r
    }
}

impl EponMac {
    /// The stores cover their windows.
    pub open spec fn wf(&self) -> bool {
        &&& self.table_store@.len() == 672
        &&& self.llid_store@.len() == 768
    }

    pub fn new() -> (r: Self)
        ensures
            r.wf(),
            r@ == EponRegs::cleared(false).powered_on(crate::soc::mmio_init::power_on_table()),
    {
        let mut me = EponMac {
            table_store: vec![0u32; 672],
            llid_store: vec![0u32; 768],
            llid_irq_pending: [0u32; 6],
            llid_drain_flag: [true; 6],
            queue_arrivals: HashMap::new(),
            latch_cmd: [0u32; 6],
            unattributed_counter_reads: 0,
            llid_capture_mask: LLID_CAPTURE_MASK_RESET,
            llid_active_bitmap: LLID_ACTIVE_RESET,
            llid_mask_control: 0,
            llid_counter_mask: LLID_COUNTER_MASK_RESET,
            tx_grant_mask: 0,
            rx_grant_mask: RX_GRANT_MASK_RESET,
            irq_mask: 0,
            epon_status: 0,
            active_flags: 0,
            link_status_1g: 0,
            hw_state_status: 0,
            discovery_status: 0,
            special_0064: 0,
            trace: false,
        };
        assert(me@ =~= EponRegs::cleared(false));
        me.apply_silicon_power_on();
        me
    }

    pub fn name(&self) -> (r: &'static str)
        ensures
            r@ == "epon_mac"@,
    {
        "epon_mac"
    }

    /// The two large windows, for logs and displays.
    pub fn address_ranges(&self) -> (r: [AddressRange; 2])
        ensures
            r[0] == (AddressRange { start: EPON_TABLE_BASE, end: EPON_TABLE_END }),
            r[1] == (AddressRange { start: EPON_LLID_BASE, end: EPON_LLID_TOP }),
    {
        [
            AddressRange::new(EPON_TABLE_BASE, EPON_TABLE_END),
            AddressRange::new(EPON_LLID_BASE, EPON_LLID_TOP),
        ]
    }

    /// Raise the 1G link-change flag.
    pub fn set_1g_link_change_bit(&mut self)
        ensures
            final(self)@ == (EponRegs { link_1g: old(self)@.link_1g | 0x2, ..old(self)@ }),
            old(self).wf() ==> final(self).wf(),
    {
        self.link_status_1g = self.link_status_1g | 0x2;
    }

    /// Assert the 10G block-lock level. It is a level: it holds until a write
    /// clears it or [`Self::clear_phy_link_status_bit`] drops it.
    pub fn set_phy_link_status_bit(&mut self)
        ensures
            final(self)@ == (EponRegs { hw_state: old(self)@.hw_state | 0x40, ..old(self)@ }),
            old(self).wf() ==> final(self).wf(),
    {
        self.hw_state_status = self.hw_state_status | 0x40;
    }

    /// Drop the 10G block-lock level.
    pub fn clear_phy_link_status_bit(&mut self)
        ensures
            final(self)@ == (EponRegs { hw_state: old(self)@.hw_state & !0x40, ..old(self)@ }),
            old(self).wf() ==> final(self).wf(),
    {
        self.hw_state_status = self.hw_state_status & !0x40;
    }

    /// Raise the discovery-detected flag.
    pub fn set_discovery_status_bit(&mut self)
        ensures
            final(self)@ == (EponRegs { discovery: old(self)@.discovery | 0x4, ..old(self)@ }),
            old(self).wf() ==> final(self).wf(),
    {
        self.discovery_status = self.discovery_status | 0x4;
    }

    /// Write a word of the LLID store past every side effect. Outside the
    /// window nothing happens.
    pub fn poke_llid_store(&mut self, addr: u32, val: u32)
        requires
            old(self).wf(),
        ensures
            final(self).wf(),
            final(self)@ == (if in_llid_window(addr) {
                EponRegs { llid: old(self)@.llid.update(llid_word(addr), val), ..old(self)@ }
            } else {
                old(self)@
            }),
    {
        if EPON_LLID_BASE <= addr && addr < EPON_LLID_TOP {
            let idx: usize = Self::llid_idx(addr);
            self.llid_store[idx] = val;
        }
    }

    /// Write a word of the table store past every side effect. Outside the
    /// window nothing happens.
    pub fn poke_table_store(&mut self, addr: u32, val: u32)
        requires
            old(self).wf(),
        ensures
            final(self).wf(),
            final(self)@ == (if in_table_window(addr) {
                EponRegs { table: old(self)@.table.update(table_word(addr), val), ..old(self)@ }
            } else {
                old(self)@
            }),
    {
        if EPON_TABLE_BASE <= addr && addr < EPON_TABLE_END {
            let idx: usize = Self::table_idx(addr);
            self.table_store[idx] = val;
        }
    }

    /// Read a word of the LLID store past every side effect.
    pub fn peek_llid_store(&self, addr: u32) -> (r: u32)
        requires
            self.wf(),
        ensures
            r == (if in_llid_window(addr) {
                self@.llid[llid_word(addr)]
            } else {
                0
            }),
    {
        if EPON_LLID_BASE <= addr && addr < EPON_LLID_TOP {
            let idx: usize = Self::llid_idx(addr);
            self.llid_store[idx]
        } else {
            0
        }
    }

    /// Whether the MAC answers an address. Byte and half-word addresses route
    /// with the word that covers them.
    pub fn claims(&self, addr: u32) -> (r: bool)
        ensures
            r == epon_claims(addr),
    {
        let word: u32 = addr & !0x3;
        Self::is_core(word) || (EPON_TABLE_BASE <= addr && addr < EPON_TABLE_END) || (EPON_LLID_BASE
            <= addr && addr < EPON_LLID_TOP)
    }

    fn is_core(word: u32) -> (r: bool)
        ensures
            r == is_core_register(word),
    {
        word == REG_CHIP_ID || word == REG_CHIP_REV || word == REG_LLID_CAPTURE_MASK || word
            == REG_LLID_ACTIVE_BITMAP || word == REG_LLID_MASK_CONTROL || word
            == REG_LLID_COUNTER_MASK || word == REG_TX_GRANT_MASK || word == REG_RX_GRANT_MASK
            || word == REG_IRQ_MASK || word == REG_EPON_STATUS || word == REG_ACTIVE_FLAGS || word
            == REG_MDIO_COMMAND || word == REG_SPECIAL_0064 || word == REG_1G_LINK_STATUS || word
            == REG_HW_STATE_STATUS || word == REG_DISCOVERY_STATUS
    }

    fn table_idx(addr: u32) -> (r: usize)
        requires
            in_table_window(addr),
        ensures
            r == table_word(addr),
            r < 672,
    {
        ((addr - EPON_TABLE_BASE) / 4) as usize
    }

    fn llid_idx(addr: u32) -> (r: usize)
        requires
            in_llid_window(addr),
        ensures
            r == llid_word(addr),
            r < 768,
    {
        ((addr - EPON_LLID_BASE) / 4) as usize
    }

    /// The slot of an LLID-window address, and the offset inside it.
    fn llid_slot(addr: u32) -> (r: (usize, u32))
        requires
            in_llid_window(addr),
        ensures
            r.0 == slot_of(addr),
            r.1 == within_slot(addr),
            r.0 < 6,
    {
        let rel: u32 = addr - EPON_LLID_BASE;
        ((rel / EPON_LLID_STRIDE) as usize, rel % EPON_LLID_STRIDE)
    }

    /// The report template software programmed: the frame length, and the
    /// length word that follows it.
    pub fn report_template(&self) -> (r: (u16, u16))
        requires
            self.wf(),
        ensures
            r.0 == (self@.word_at(REG_REPORT_FRAME_PARAMS) >> 16) as u16,
            r.1 == self@.word_at(REG_REPORT_FRAME_LEN) as u16,
    {
        let head: u32 = self.peek(REG_REPORT_FRAME_PARAMS);
        let tail: u32 = self.peek(REG_REPORT_FRAME_LEN);
        ((head >> 16) as u16, tail as u16)
    }

    /// Record frames arriving in a queue. The slot names the channel in its
    /// high bits and the queue in the low five.
    pub fn record_queue_arrivals(&mut self, slot: u8, frames: u64)
        requires
            old(self)@.arrived(slot as int / 32, slot as int % 32) + frames <= u64::MAX,
        ensures
            old(self).wf() ==> final(self).wf(),
            final(self)@ == (if frames == 0 {
                old(self)@
            } else {
                EponRegs {
                    arrivals: old(self)@.arrivals.insert(
                        slot as u32,
                        (old(self)@.arrived(slot as int / 32, slot as int % 32) + frames) as u64,
                    ),
                    ..old(self)@
                }
            }),
    {
        if frames == 0 {
            return;
        }
        let key: u32 = slot as u32;
        let before: u64 = match self.queue_arrivals.get(&key) {
            Some(n) => *n,
            None => 0,
        };
        self.queue_arrivals.insert(key, before + frames);
    }

    /// Frames recorded for a queue.
    pub fn queue_arrivals(&self, chan: usize, queue: u32) -> (r: u64)
        ensures
            chan < 8 && queue < 32 ==> r == self@.arrived(chan as int, queue as int),
            !(chan < 8 && queue < 32) ==> r == 0,
    {
        if chan >= 8 || queue >= 32 {
            return 0;
        }
        let key: u32 = (chan as u32) * 32 + queue;
        match self.queue_arrivals.get(&key) {
            Some(n) => *n,
            None => 0,
        }
    }

    /// The latched counter of a slot: the arrivals of the queue named by the
    /// command written just before. The model knows one number about a queue
    /// and answers it for every counter selector.
    fn peek_latched_counter(&self, slot: usize) -> (r: u32)
        requires
            slot < 6,
        ensures
            r == self@.arrived(slot as int, self@.latched_queue(slot as int) as int) as u32,
    {
        let cmd: u32 = self.latch_cmd[slot];
        proof {
            crate::bits::lemma_field_bounds(cmd >> 4);
        }
        let queue: u32 = (cmd >> 4) & 0x1F;
        self.queue_arrivals(slot, queue) as u32
    }

    fn queue_pointer_word(&self, slot: usize, addr: u32) -> (r: u32)
        requires
            self.wf(),
            in_llid_window(addr),
            slot == slot_of(addr),
        ensures
            r == self@.queue_pointer(addr),
    {
        let idx: usize = Self::llid_idx(addr);
        let selector: u32 = self.llid_store[idx] & 0x3F;
        proof {
            crate::bits::lemma_field_bounds(selector);
        }
        let queue: u32 = selector & 0x1F;
        let cfg: usize = slot * 0x80 + 0x20 + queue as usize;
        let start: u32 = self.llid_store[cfg] & 0x7FF;
        let pointer_field: u32 = (start << 6) & 0x3_FFFF;
        let drain: u32 = if self.llid_drain_flag[slot] {
            0x100
        } else {
            0
        };
        (pointer_field << 9) | drain | selector
    }

    /// What an address reads as, with no side effect.
    fn peek(&self, addr: u32) -> (r: u32)
        requires
            self.wf(),
        ensures
            r == self@.word_at(addr),
    {
        if addr == REG_CHIP_ID {
            CHIP_ID_VALUE
        } else if addr == REG_CHIP_REV {
            CHIP_REV_VALUE
        } else if addr == REG_LLID_CAPTURE_MASK {
            self.llid_capture_mask
        } else if addr == REG_LLID_ACTIVE_BITMAP {
            self.llid_active_bitmap
        } else if addr == REG_LLID_MASK_CONTROL {
            self.llid_mask_control
        } else if addr == REG_LLID_COUNTER_MASK {
            self.llid_counter_mask
        } else if addr == REG_TX_GRANT_MASK {
            self.tx_grant_mask
        } else if addr == REG_RX_GRANT_MASK {
            self.rx_grant_mask
        } else if addr == REG_IRQ_MASK {
            self.irq_mask
        } else if addr == REG_EPON_STATUS {
            self.epon_status
        } else if addr == REG_ACTIVE_FLAGS {
            self.active_flags
        } else if addr == REG_MDIO_COMMAND {
            0
        } else if addr == REG_SPECIAL_0064 {
            self.special_0064
        } else if addr == REG_1G_LINK_STATUS {
            self.link_status_1g
        } else if addr == REG_HW_STATE_STATUS {
            self.hw_state_status
        } else if addr == REG_DISCOVERY_STATUS {
            self.discovery_status
        } else if EPON_LLID_BASE <= addr && addr < EPON_LLID_TOP {
            let (slot, within) = Self::llid_slot(addr);
            if within == SLOT_IRQ_STATUS {
                self.llid_irq_pending[slot]
            } else if within == SLOT_QUEUE_POINTER {
                self.queue_pointer_word(slot, addr)
            } else if within == SLOT_LATCH_DATA {
                self.peek_latched_counter(slot)
            } else {
                let idx: usize = Self::llid_idx(addr);
                self.llid_store[idx]
            }
        } else if EPON_TABLE_BASE <= addr && addr < EPON_TABLE_END {
            let idx: usize = Self::table_idx(addr);
            self.table_store[idx]
        } else {
            0
        }
    }

    /// Side-effect-free probe of a word.
    pub fn peek_word(&self, addr: u32) -> (r: Result<u32, Exception>)
        requires
            self.wf(),
        ensures
            r == Ok::<u32, Exception>(self@.word_at(addr)),
    {
        Ok(self.peek(addr))
    }

    /// Whether a read can be counted, where it is.
    pub(crate) fn counts_read(&self, addr: u32) -> (r: bool)
        ensures
            r == (is_counter_port(addr) ==> self@.unattributed < u64::MAX),
    {
        if Self::is_core(addr) || addr < EPON_LLID_BASE || addr >= EPON_LLID_TOP {
            return true;
        }
        let (_, within) = Self::llid_slot(addr);
        within != SLOT_LATCH_DATA || self.unattributed_counter_reads < u64::MAX
    }

    /// Read a word. Only the counter port changes anything: its reads are
    /// counted.
    pub fn read_word(&mut self, addr: u32) -> (r: Result<u32, Exception>)
        requires
            old(self).wf(),
            is_counter_port(addr) ==> old(self)@.unattributed < u64::MAX,
        ensures
            final(self).wf(),
            r == Ok::<u32, Exception>(old(self)@.word_at(addr)),
            final(self)@ == old(self)@.after_read(addr),
    {
        let val: u32 = self.peek(addr);
        if !Self::is_core(addr) && EPON_LLID_BASE <= addr && addr < EPON_LLID_TOP {
            let (_, within) = Self::llid_slot(addr);
            if within == SLOT_LATCH_DATA {
                self.unattributed_counter_reads = self.unattributed_counter_reads + 1;
            }
        }
        Ok(val)
    }

    /// Write a word.
    pub fn write_word(&mut self, addr: u32, val: u32) -> (r: Result<(), Exception>)
        requires
            old(self).wf(),
        ensures
            final(self).wf(),
            r == Ok::<(), Exception>(()),
            final(self)@ == old(self)@.after_write(addr, val),
    {
        if addr == REG_CHIP_ID || addr == REG_CHIP_REV || addr == REG_MDIO_COMMAND {
            return Ok(());
        }
        if addr == REG_LLID_CAPTURE_MASK {
            self.llid_capture_mask = val;
        } else if addr == REG_LLID_ACTIVE_BITMAP {
            self.llid_active_bitmap = val;
        } else if addr == REG_LLID_MASK_CONTROL {
            self.llid_mask_control = val;
        } else if addr == REG_LLID_COUNTER_MASK {
            self.llid_counter_mask = val;
        } else if addr == REG_TX_GRANT_MASK {
            self.tx_grant_mask = val;
        } else if addr == REG_RX_GRANT_MASK {
            self.rx_grant_mask = val;
        } else if addr == REG_IRQ_MASK {
            self.irq_mask = val;
        } else if addr == REG_EPON_STATUS {
            // Bit 0 is a latch trigger that clears itself.
            self.epon_status = val & !0x1;
        } else if addr == REG_ACTIVE_FLAGS {
            self.active_flags = val;
        } else if addr == REG_1G_LINK_STATUS {
            self.link_status_1g = self.link_status_1g & !val;
        } else if addr == REG_HW_STATE_STATUS {
            self.hw_state_status = self.hw_state_status & !val;
        } else if addr == REG_SPECIAL_0064 {
            self.special_0064 = val;
        } else if addr == REG_DISCOVERY_STATUS {
            // Bit 0 writes through; bits [2:1] clear where written as 1.
            self.discovery_status = (self.discovery_status & !(val & 0x6)) | (val & !0x6);
        } else if EPON_LLID_BASE <= addr && addr < EPON_LLID_TOP {
            let (slot, within) = Self::llid_slot(addr);
            if within == SLOT_IRQ_STATUS {
                self.llid_irq_pending[slot] = self.llid_irq_pending[slot] & !val;
            } else if within == SLOT_LATCH_CMD {
                // Software spins on this address for bit 31 with no timeout,
                // so the busy bit never survives the write.
                self.latch_cmd[slot] = val & !0x8000_0000;
            } else if within == SLOT_QUEUE_POINTER {
                if val & 0x100 != 0 {
                    self.llid_drain_flag[slot] = false;
                }
                let idx: usize = Self::llid_idx(addr);
                self.llid_store[idx] = val & !0x100;
            } else {
                let idx: usize = Self::llid_idx(addr);
                self.llid_store[idx] = val;
            }
        } else if EPON_TABLE_BASE <= addr && addr < EPON_TABLE_END {
            let idx: usize = Self::table_idx(addr);
            let anchored: bool = addr == 0x0100_043C || addr == 0x0100_04B8 || addr == 0x0100_0D00
                || addr == 0x0100_0D7C;
            self.table_store[idx] = if anchored {
                val & !0x1
            } else {
                val
            };
        }
        Ok(())
    }

    /// Put one power-on value in, past every side effect.
    fn write_store_no_side_effects(&mut self, addr: u32, val: u32)
        requires
            old(self).wf(),
        ensures
            final(self).wf(),
            final(self)@ == old(self)@.seeded(addr, val),
    {
        if addr == REG_CHIP_ID || addr == REG_CHIP_REV || addr == REG_MDIO_COMMAND || addr
            == REG_HW_STATE_STATUS {
            return;
        }
        if addr == REG_SPECIAL_0064 {
            self.special_0064 = val;
        } else if addr == REG_LLID_CAPTURE_MASK {
            self.llid_capture_mask = val;
        } else if addr == REG_LLID_ACTIVE_BITMAP {
            self.llid_active_bitmap = val;
        } else if addr == REG_LLID_MASK_CONTROL {
            self.llid_mask_control = val;
        } else if addr == REG_LLID_COUNTER_MASK {
            self.llid_counter_mask = val;
        } else if addr == REG_TX_GRANT_MASK {
            self.tx_grant_mask = val;
        } else if addr == REG_RX_GRANT_MASK {
            self.rx_grant_mask = val;
        } else if addr == REG_IRQ_MASK {
            self.irq_mask = val;
        } else if addr == REG_EPON_STATUS {
            self.epon_status = val;
        } else if addr == REG_ACTIVE_FLAGS {
            self.active_flags = val;
        } else if EPON_TABLE_BASE <= addr && addr < EPON_TABLE_END {
            let idx: usize = Self::table_idx(addr);
            self.table_store[idx] = val;
        } else if EPON_LLID_BASE <= addr && addr < EPON_LLID_TOP {
            let idx: usize = Self::llid_idx(addr);
            self.llid_store[idx] = val;
        }
    }

    fn apply_silicon_power_on(&mut self)
        requires
            old(self).wf(),
        ensures
            final(self).wf(),
            final(self)@ == old(self)@.powered_on(crate::soc::mmio_init::power_on_table()),
    {
        let table = sysreg_init_values();
        let ghost start = self@;
        for i in 0..9usize
            invariant
                table@.len() == 9,
                crate::soc::mmio_init::table_in_window(table@),
                self.wf(),
                self@ == start.powered_on(table@.take(i as int)),
        {
            let (off, val) = table[i];
            let abs: u32 = SYSREG_BASE + off;
            proof {
                assert(table@.take(i + 1).drop_last() =~= table@.take(i as int));
                assert(table@.take(i + 1).last() == table@[i as int]);
            }
            if self.claims(abs) {
                self.write_store_no_side_effects(abs, val);
            }
        }
        assert(table@.take(9) =~= table@);
    }

    /// Arm every drain flag again.
    pub fn tick(&mut self, _cpu_instructions: u64)
        ensures
            old(self).wf() ==> final(self).wf(),
            final(self)@ == (EponRegs { drain: Seq::new(6, |i: int| true), ..old(self)@ }),
    {
        self.llid_drain_flag = [true; 6];
        assert(self.llid_drain_flag@ =~= Seq::new(6, |i: int| true));
    }

    pub fn reset_cold(&mut self)
        requires
            old(self).wf(),
        ensures
            final(self).wf(),
            final(self)@ == EponRegs::cleared(old(self)@.trace).powered_on(
                crate::soc::mmio_init::power_on_table(),
            ),
    {
        self.table_store = vec![0u32; 672];
        self.llid_store = vec![0u32; 768];
        self.llid_irq_pending = [0u32; 6];
        self.llid_drain_flag = [true; 6];
        self.queue_arrivals = HashMap::new();
        self.latch_cmd = [0u32; 6];
        self.unattributed_counter_reads = 0;
        self.llid_capture_mask = LLID_CAPTURE_MASK_RESET;
        self.llid_active_bitmap = LLID_ACTIVE_RESET;
        self.llid_mask_control = 0;
        self.llid_counter_mask = LLID_COUNTER_MASK_RESET;
        self.tx_grant_mask = 0;
        self.rx_grant_mask = RX_GRANT_MASK_RESET;
        self.irq_mask = 0;
        self.epon_status = 0;
        self.active_flags = 0;
        self.link_status_1g = 0;
        self.hw_state_status = 0;
        self.discovery_status = 0;
        self.special_0064 = 0;
        assert(self@ =~= EponRegs::cleared(old(self)@.trace));
        self.apply_silicon_power_on();
    }

    /// The power-on state already covers a warm start.
    pub fn reset_warm(&mut self)
        requires
            old(self).wf(),
        ensures
            final(self).wf(),
            final(self)@ == EponRegs::cleared(old(self)@.trace).powered_on(
                crate::soc::mmio_init::power_on_table(),
            ),
    {
        self.reset_cold();
    }

    pub fn snapshot(&self) -> (r: PeripheralSnapshot)
        ensures
            r == PeripheralSnapshot::EponMac(
                EponMacSnapshot {
                    chip_id: CHIP_ID_VALUE,
                    chip_rev: CHIP_REV_VALUE,
                    llid_active_bitmap: self@.active_bitmap,
                    llid_capture_mask: self@.capture_mask,
                    rx_grant_mask: self@.rx_grant,
                    tx_grant_mask: self@.tx_grant,
                    irq_mask: self@.irq_mask,
                    llid_irq_pending: self.llid_irq_pending,
                },
            ),
    {
        PeripheralSnapshot::EponMac(
            EponMacSnapshot {
                chip_id: CHIP_ID_VALUE,
                chip_rev: CHIP_REV_VALUE,
                llid_active_bitmap: self.llid_active_bitmap,
                llid_capture_mask: self.llid_capture_mask,
                rx_grant_mask: self.rx_grant_mask,
                tx_grant_mask: self.tx_grant_mask,
                irq_mask: self.irq_mask,
                llid_irq_pending: self.llid_irq_pending,
            },
        )
    }

    /// Act on an event addressed to the MAC; refuse any other.
    pub fn inject_event(&mut self, event: &PeripheralEvent) -> (r: Result<(), PeripheralError>)
        requires
            event matches PeripheralEvent::Epon(EponEvent::SetLlidActive(llid, _)) ==> llid < 32,
        ensures
            old(self).wf() ==> final(self).wf(),
            r is Ok <==> event is Epon,
            r is Err ==> r == Err::<(), PeripheralError>(PeripheralError::UnsupportedEvent),
            final(self)@ == epon_after_event(old(self)@, *event),
    {
        match event {
            PeripheralEvent::Epon(ev) => {
                match ev {
                    EponEvent::SetLlidActive(llid, active) => {
                        let bit: u32 = 1u32 << (*llid as u32);
                        if *active {
                            self.llid_active_bitmap = self.llid_active_bitmap | bit;
                        } else {
                            self.llid_active_bitmap = self.llid_active_bitmap & !bit;
                        }
                    },
                    EponEvent::InjectLlidInterrupt(llid) => {
                        let slot: usize = (*llid as usize) % LLID_SLOT_COUNT;
                        let n: u32 = *llid as u32;
                        proof {
                            crate::bits::lemma_field_bounds(n);
                        }
                        self.llid_irq_pending[slot] = self.llid_irq_pending[slot] | (1u32 << (n
                            & 0x1F));
                    },
                    EponEvent::ResetCounters => {},
                }
                Ok(())
            },
            _ => Err(PeripheralError::UnsupportedEvent),
        }
    }
}

/// The registers after an injected event.
pub open spec fn epon_after_event(regs: EponRegs, event: PeripheralEvent) -> EponRegs {
    match event {
        PeripheralEvent::Epon(EponEvent::SetLlidActive(llid, active)) => EponRegs {
            active_bitmap: if active {
                regs.active_bitmap | (1u32 << (llid as u32))
            } else {
                regs.active_bitmap & !(1u32 << (llid as u32))
            },
            ..regs
        },
        PeripheralEvent::Epon(EponEvent::InjectLlidInterrupt(llid)) => {
            let slot = llid as int % 6;
            EponRegs {
                irq_pending: regs.irq_pending.update(
                    slot,
                    regs.irq_pending[slot] | (1u32 << (llid as u32 & 0x1F)),
                ),
                ..regs
            }
        },
        _ => regs,
    }
}

/// Registers that hold exactly what was written to them.
pub open spec fn is_plain_register(addr: u32) -> bool {
    ||| addr == 0x0100_000C
    ||| addr == 0x0100_0018
    ||| addr == 0x0100_0020
    ||| addr == 0x0100_0024
    ||| addr == 0x0100_0028
    ||| addr == 0x0100_0030
    ||| addr == 0x0100_0034
    ||| addr == 0x0100_0054
    ||| addr == 0x0100_0064
    ||| addr != 0x0100_0410 && addr != 0x0100_0E04 && 0x0100_0400 <= addr < 0x0100_0E80 && addr != 0x0100_043C && addr != 0x0100_04B8 && addr != 0x0100_0D00 && addr != 0x0100_0D7C
    ||| 0x0100_1400 <= addr < 0x0100_2000 && (addr - 0x0100_1400) % 0x200 != 0x04
        && (addr - 0x0100_1400) % 0x200 != 0x3C && (addr - 0x0100_1400) % 0x200 != 0x1D4
        && (addr - 0x0100_1400) % 0x200 != 0x1D8
}

/// Registers whose written ones clear the matching bits.
pub open spec fn is_write_one_to_clear(addr: u32) -> bool {
    ||| addr == 0x0100_0410
    ||| addr == 0x0100_0E04
    ||| 0x0100_1400 <= addr < 0x0100_2000 && (addr - 0x0100_1400) % 0x200 == 0x04
}

/// The sizes of the stores a register state has.
pub open spec fn sized(regs: EponRegs) -> bool {
    regs.table.len() == 672 && regs.llid.len() == 768 && regs.irq_pending.len() == 6
        && regs.drain.len() == 6 && regs.latch_cmd.len() == 6
}

/// A plain register reads back what was written to it.
pub proof fn law_plain_register_round_trip(regs: EponRegs, addr: u32, val: u32)
    requires
        sized(regs),
        is_plain_register(addr),
    ensures
        regs.after_write(addr, val).word_at(addr) == val,
{
}

/// The chip identity cannot be written.
pub proof fn law_chip_identity_is_fixed(regs: EponRegs, addr: u32, val: u32)
    ensures
        regs.after_write(addr, val).word_at(0x0100_0000) == 0x47010203,
        regs.after_write(addr, val).word_at(0x0100_0004) == 0xB2110816,
        regs.after_write(0x0100_0000, val) == regs,
        regs.after_write(0x0100_0004, val) == regs,
{
}

/// No read changes what any address reads as.
pub proof fn law_reads_change_no_word(regs: EponRegs, read: u32, other: u32)
    ensures
        regs.after_read(read).word_at(other) == regs.word_at(other),
{
}

/// On a write-one-to-clear register the written ones are gone, no other bit
/// moves, and writing all ones leaves zero.
pub proof fn law_write_one_to_clear(regs: EponRegs, addr: u32, val: u32)
    requires
        sized(regs),
        is_write_one_to_clear(addr),
    ensures
        regs.after_write(addr, val).word_at(addr) & val == 0,
        regs.after_write(addr, val).word_at(addr) == regs.word_at(addr) & !val,
        regs.after_write(addr, 0xFFFF_FFFF).word_at(addr) == 0,
{
    crate::bits::lemma_clear_bits(regs.word_at(addr), val);
    crate::bits::lemma_clear_bits(regs.word_at(addr), 0xFFFF_FFFF);
}

/// An anchor word never reads back bit 0 of what was written.
pub proof fn law_anchor_drops_bit_zero(regs: EponRegs, addr: u32, val: u32)
    requires
        sized(regs),
        addr == 0x0100_043C || addr == 0x0100_04B8 || addr == 0x0100_0D00 || addr == 0x0100_0D7C,
    ensures
        regs.after_write(addr, val).word_at(addr) == val & !0x1,
        regs.after_write(addr, val).word_at(addr) & 0x1 == 0,
{
    crate::bits::lemma_clear_bits(val, 0x1);
}

/// Bit 8 of a queue pointer word is derived from the drain flag, whatever was
/// written: it survives a selector write and goes only with an acknowledge.
pub proof fn law_drain_bit_is_derived(regs: EponRegs, addr: u32, val: u32)
    requires
        sized(regs),
        0x0100_1400 <= addr < 0x0100_2000,
        (addr - 0x0100_1400) % 0x200 == 0x3C,
    ensures
        (regs.word_at(addr) & 0x100 != 0) == regs.drain[(addr - 0x0100_1400) / 0x200],
        (regs.after_write(addr, val).word_at(addr) & 0x100 != 0) == (regs.drain[(addr - 0x0100_1400) / 0x200]
            && val & 0x100 == 0),
{
    lemma_pointer_word_drain_bit(regs, addr);
    lemma_pointer_word_drain_bit(regs.after_write(addr, val), addr);
}

proof fn lemma_pointer_word_drain_bit(regs: EponRegs, addr: u32)
    requires
        0x0100_1400 <= addr < 0x0100_2000,
        (addr - 0x0100_1400) % 0x200 == 0x3C,
    ensures
        (regs.word_at(addr) & 0x100 != 0) == regs.drain[(addr - 0x0100_1400) / 0x200],
        ({
            let slot = (addr - 0x0100_1400) / 0x200;
            let raw = regs.llid[(addr - 0x0100_1400) / 4];
            let start = regs.llid[slot * 128 + 32 + raw % 32] % 2048;
            regs.word_at(addr) == start * 0x8000 + (if regs.drain[slot] { 0x100int } else { 0 })
                + raw % 64
        }),
{
    let slot = (addr - 0x0100_1400) / 0x200;
    let raw = regs.llid[(addr - 0x0100_1400) / 4];
    let selector = raw & 0x3F;
    let word = regs.llid[slot * 0x80 + 0x20 + (selector & 0x1F)];
    let start = word & 0x7FF;
    let field = (start << 6) & 0x3_FFFF;
    assert({
        let field = (((word & 0x7FF) << 6u32) & 0x3_FFFF) << 9u32;
        &&& (field | 0x100u32 | (raw & 0x3F)) & 0x100 != 0
        &&& (field | 0u32 | (raw & 0x3F)) & 0x100 == 0
        &&& (field | 0x100u32 | (raw & 0x3F)) == (word % 2048) * 0x8000 + 0x100 + raw % 64
        &&& (field | 0u32 | (raw & 0x3F)) == (word % 2048) * 0x8000 + raw % 64
        &&& (raw & 0x3F) & 0x1F == raw % 32
    }) by (bit_vector);
}

/// A queue pointer word is the start of the selected queue in bits 15 to 25,
/// the drain flag in bit 8 and the selector in the low six bits. The start is
/// the low eleven bits of the configuration word that the low five bits of the
/// selector name.
pub proof fn law_queue_pointer_tells_where_the_queue_starts(regs: EponRegs, addr: u32)
    requires
        0x0100_1400 <= addr < 0x0100_2000,
        (addr - 0x0100_1400) % 0x200 == 0x3C,
    ensures
        ({
            let slot = (addr - 0x0100_1400) / 0x200;
            let raw = regs.llid[(addr - 0x0100_1400) / 4];
            let start = regs.llid[slot * 128 + 32 + raw % 32] % 2048;
            regs.word_at(addr) == start * 0x8000 + (if regs.drain[slot] { 0x100int } else { 0 })
                + raw % 64
        }),
{
    lemma_pointer_word_drain_bit(regs, addr);
}

/// Once a command names a queue, the counter port of that slot answers the
/// frames that arrived in that queue.
pub proof fn law_counter_port_answers_the_named_queue(
    regs: EponRegs,
    cmd: u32,
    data: u32,
    queue: u32,
    op: u32,
)
    requires
        sized(regs),
        0x0100_1400 <= cmd < 0x0100_2000,
        (cmd - 0x0100_1400) % 0x200 == 0x1D4,
        data == cmd + 4,
        queue < 32,
        op < 16,
    ensures
        regs.after_write(cmd, (queue << 4) | op).word_at(data) == regs.arrived(
            (cmd - 0x0100_1400) / 0x200,
            queue as int,
        ) as u32,
{
    assert((((((queue << 4u32) | op) & !0x8000_0000u32) >> 4u32) & 0x1F) == queue) by (bit_vector)
        requires
            queue < 32,
            op < 16,
    ;
}

/// No command leaves the latch busy, whatever it asks for.
pub proof fn law_counter_latch_never_stays_busy(regs: EponRegs, cmd: u32, val: u32)
    requires
        sized(regs),
        0x0100_1400 <= cmd < 0x0100_2000,
        (cmd - 0x0100_1400) % 0x200 == 0x1D4,
    ensures
        regs.after_write(cmd, val).latch_cmd[(cmd - 0x0100_1400) / 0x200] & 0x8000_0000 == 0,
        regs.after_write(cmd, val).word_at(cmd) == regs.word_at(cmd),
{
    crate::bits::lemma_clear_bits(val, 0x8000_0000);
}

/// A block-lock level, once asserted, reads back until it is cleared, and
/// clearing drops it whatever stood there.
pub proof fn law_block_lock_is_a_level(regs: EponRegs, ticked: Seq<bool>)
    ensures
        ({
            let raised = EponRegs { hw_state: regs.hw_state | 0x40, ..regs };
            let later = EponRegs { drain: ticked, ..raised };
            &&& later.word_at(0x0100_0E04) & 0x40 == 0x40
            &&& later.after_write(0x0100_0E04, 0x40).word_at(0x0100_0E04) & 0x40
                == 0
        }),
        (regs.hw_state & !0x40) & 0x40 == 0,
{
    crate::bits::lemma_set_bits(regs.hw_state, 0x40);
    crate::bits::lemma_clear_bits(regs.hw_state | 0x40, 0x40);
    crate::bits::lemma_clear_bits(regs.hw_state, 0x40);
}

/// The registers that answer on their own, by address.
pub open spec fn core_addresses() -> Seq<u32> {
    seq![
        0x0100_0000,
        0x0100_0004,
        0x0100_000C,
        0x0100_0018,
        0x0100_0020,
        0x0100_0024,
        0x0100_0028,
        0x0100_0030,
        0x0100_0034,
        0x0100_0044,
        0x0100_0054,
        0x0100_0060,
        0x0100_0064,
        0x0100_0410,
        0x0100_0E04,
        0x0100_1040,
    ]
}

/// The bytes of the registers that answer on their own, of the table window and
/// of the six LLID slots are claimed, and no others.
pub proof fn law_epon_claims_its_registers(addr: u32)
    ensures
        epon_claims(addr) <==> 0x0100_0400 <= addr <= 0x0100_0E7F || 0x0100_1400 <= addr
            <= 0x0100_1FFF || exists|i: int|
            0 <= i < 16 && #[trigger] core_addresses()[i] == addr - addr % 4,
{
    crate::bits::lemma_round_down(addr);
    let word = (addr - addr % 4) as u32;
    assert(addr & !3 == word);
    let core = core_addresses();
    assert(core[0] == 0x0100_0000 && core[1] == 0x0100_0004 && core[2] == 0x0100_000C && core[3]
        == 0x0100_0018 && core[4] == 0x0100_0020 && core[5] == 0x0100_0024 && core[6] == 0x0100_0028
        && core[7] == 0x0100_0030 && core[8] == 0x0100_0034 && core[9] == 0x0100_0044 && core[10]
        == 0x0100_0054 && core[11] == 0x0100_0060 && core[12] == 0x0100_0064 && core[13]
        == 0x0100_0410 && core[14] == 0x0100_0E04 && core[15] == 0x0100_1040);
}

/// What is written at one word shows in no other word, but for the counter port
/// behind a latch command and the queue pointer over its configuration words.
pub proof fn law_epon_words_are_apart(regs: EponRegs, addr: u32, other: u32, val: u32)
    requires
        sized(regs),
        addr / 4 != other / 4,
        addr % 4 == 0,
        other % 4 == 0,
        0x0100_1400 <= other < 0x0100_2000 && (other - 0x0100_1400) % 0x200 == 0x1D8 ==> addr
            != other - 4,
        0x0100_1400 <= other < 0x0100_2000 && (other - 0x0100_1400) % 0x200 == 0x3C ==> !(other
            - 0x3C + 0x80 <= addr < other - 0x3C + 0x100),
    ensures
        regs.after_write(addr, val).word_at(other) == regs.word_at(other),
        sized(regs.after_write(addr, val)),
{
    if 0x0100_1400 <= other < 0x0100_2000 && (other - 0x0100_1400) % 0x200 == 0x3C {
        lemma_pointer_word_drain_bit(regs, other);
        lemma_pointer_word_drain_bit(regs.after_write(addr, val), other);
        let slot = (other - 0x0100_1400) / 0x200;
        let raw = regs.llid[(other - 0x0100_1400) / 4];
        let at = slot * 128 + 32 + raw % 32;
        assert(0x0100_1400 + 4 * at == other - 0x3C + 0x80 + 4 * (raw % 32));
        if 0x0100_1400 <= addr < 0x0100_2000 {
            assert((addr - 0x0100_1400) / 4 != at);
            assert((addr - 0x0100_1400) / 4 != (other - 0x0100_1400) / 4);
        }
    }
}

/// The status word drops its bit 0; discovery bits 1 and 2 go when written as
/// ones and stay when written as zeros, and every other discovery bit that is
/// written is there afterwards.
pub proof fn law_status_registers_take_their_bits(regs: EponRegs, val: u32)
    ensures
        regs.after_write(0x0100_0044, val).word_at(0x0100_0044) == val & !1u32,
        regs.after_write(0x0100_1040, val).word_at(0x0100_1040) & 6 == regs.discovery & 6 & !val,
        regs.after_write(0x0100_1040, val).word_at(0x0100_1040) & !6u32 == (regs.discovery | val)
            & !6u32,
        regs.after_write(0x0100_0060, val) == regs,
        regs.word_at(0x0100_0060) == 0,
{
    let d = regs.discovery;
    assert({
        let after = (d & !(val & 0x6u32)) | (val & !0x6u32);
        &&& after & 6 == d & 6 & !val
        &&& after & !6u32 == (d | val) & !6u32
    }) by (bit_vector);
}

/// Waking and silencing a logical link shows in its bit alone; a forced
/// interrupt shows in one bit of the slot that the link falls on, counted in
/// six.
pub proof fn law_epon_events_mark_their_link(regs: EponRegs, llid: u8, other: u32)
    requires
        sized(regs),
        other < 32,
    ensures
        llid < 32 ==> ({
            let on = epon_after_event(
                regs,
                PeripheralEvent::Epon(EponEvent::SetLlidActive(llid, true)),
            );
            let off = epon_after_event(
                regs,
                PeripheralEvent::Epon(EponEvent::SetLlidActive(llid, false)),
            );
            &&& on.word_at(0x0100_0018) & (1u32 << (llid as u32)) != 0
            &&& off.word_at(0x0100_0018) & (1u32 << (llid as u32)) == 0
            &&& other != llid ==> on.word_at(0x0100_0018) & (1u32 << other) == regs.word_at(
                0x0100_0018,
            ) & (1u32 << other)
            &&& other != llid ==> off.word_at(0x0100_0018) & (1u32 << other) == regs.word_at(
                0x0100_0018,
            ) & (1u32 << other)
            &&& on == (EponRegs { active_bitmap: on.active_bitmap, ..regs })
            &&& off == (EponRegs { active_bitmap: off.active_bitmap, ..regs })
        }),
        ({
            let hit = epon_after_event(
                regs,
                PeripheralEvent::Epon(EponEvent::InjectLlidInterrupt(llid)),
            );
            let at = (0x0100_1404 + (llid % 6) * 0x200) as u32;
            &&& hit.word_at(at) & (1u32 << ((llid % 32) as u32)) != 0
            &&& other != llid % 32 ==> hit.word_at(at) & (1u32 << other) == regs.word_at(at) & (1u32
                << other)
            &&& forall|k: int|
                0 <= k < 6 && k != llid % 6 ==> hit.irq_pending[k] == regs.irq_pending[k]
            &&& hit == (EponRegs { irq_pending: hit.irq_pending, ..regs })
        }),
{
    let n = llid as u32;
    crate::bits::lemma_round_down(n);
    crate::bits::lemma_one_bit(regs.irq_pending[llid as int % 6], n % 32, other);
    if llid < 32 {
        crate::bits::lemma_one_bit(regs.active_bitmap, n, other);
    }
}

/// The arrivals of each queue are kept apart, channel by channel.
pub proof fn law_arrivals_are_kept_per_queue(
    regs: EponRegs,
    chan: int,
    queue: int,
    other_chan: int,
    other_queue: int,
    frames: u64,
)
    requires
        0 <= chan < 8,
        0 <= queue < 32,
        0 <= other_chan < 8,
        0 <= other_queue < 32,
    ensures
        ({
            let after = EponRegs {
                arrivals: regs.arrivals.insert(arrival_key(chan, queue), frames),
                ..regs
            };
            &&& after.arrived(chan, queue) == frames
            &&& (chan, queue) != (other_chan, other_queue) ==> after.arrived(
                other_chan,
                other_queue,
            ) == regs.arrived(other_chan, other_queue)
            &&& arrival_key(chan, queue) == chan * 32 + queue
        }),
{
}

/// Only a read of a counter port is counted, and it counts one.
pub proof fn law_counter_reads_are_counted(regs: EponRegs, addr: u32)
    requires
        regs.unattributed < u64::MAX,
    ensures
        0x0100_1400 <= addr < 0x0100_2000 && (addr - 0x0100_1400) % 0x200 == 0x1D8
            ==> regs.after_read(addr) == (EponRegs {
            unattributed: (regs.unattributed + 1) as u64,
            ..regs
        }),
        !(0x0100_1400 <= addr < 0x0100_2000 && (addr - 0x0100_1400) % 0x200 == 0x1D8)
            ==> regs.after_read(addr) == regs,
{
}

/// A power-on value goes into the word at its address and into no other, past
/// every side effect. What is fixed or latched takes none.
pub proof fn law_power_on_values_go_in_raw(regs: EponRegs, addr: u32, val: u32)
    requires
        sized(regs),
    ensures
        is_plain_register(addr) || addr == 0x0100_0044 || addr == 0x0100_043C || addr
            == 0x0100_04B8 || addr == 0x0100_0D00 || addr == 0x0100_0D7C ==> regs.seeded(
            addr,
            val,
        ).word_at(addr) == val,
        regs.seeded(addr, val).irq_pending == regs.irq_pending,
        regs.seeded(addr, val).drain == regs.drain,
        regs.seeded(addr, val).arrivals == regs.arrivals,
        regs.seeded(addr, val).latch_cmd == regs.latch_cmd,
        regs.seeded(addr, val).hw_state == regs.hw_state,
        regs.seeded(addr, val).discovery == regs.discovery,
        regs.seeded(addr, val).link_1g == regs.link_1g,
        addr == 0x0100_0000 || addr == 0x0100_0004 || addr == 0x0100_0060 || addr == 0x0100_0E04
            ==> regs.seeded(addr, val) == regs,
{
}

} // verus!
