//! The peripherals behind the bank, as values: who answers an address, what it
//! answers, and what an access leaves behind.

use vstd::prelude::*;

use crate::peripherals::pbc::PbcState;
use crate::soc::bsc_i2c::{BscState, BSC_BASE, BSC_END};
use crate::soc::dma::DmaState;
use crate::soc::efuse_udr::{EfuseState, REG_I2C_UDR_CLK_RESET};
use crate::soc::epon_mac::EponRegs;
use crate::soc::fatal_filter::FatalFilter;
use crate::soc::lane_bus::LaneState;
use crate::soc::lue::{ClassifierBinding, LueState};
use crate::soc::macsec::MacsecState;
use crate::soc::mpcp::MpcpState;
use crate::soc::nco::NcoState;
use crate::soc::olt::OltState;
use crate::soc::peripheral::{AddressRange, OpView};
use crate::soc::default_store::StoreState;
use crate::soc::scenario::ScenarioState;
use crate::soc::uart::UartState;
use crate::soc::window::WindowState;

verus! {

/// Base of the flash controller.
pub const PBC_BASE: u32 = 0x0100_01F0;

pub const PBC_SIZE: u32 = 0x50;

/// Bus base and busy time of the lane register file.
pub const LANE_BUS_BASE: u32 = 0x0100_0118;

pub const LANE_BUS_TICKS: u8 = 2;

/// The lane configuration word whose bit 11 fires a burst.
pub const PON_LANE_CONFIG: u32 = 0x0100_01B0;

pub const BURST_BIT: u32 = 0x800;

/// Slot 0 of the two tables registered links are matched by.
pub const LLID_MATCH_1G: u32 = 0x0100_043C;

pub const LLID_MATCH_10G: u32 = 0x0100_0D00;

/// The DMA mailbox: two status words, two mask words.
pub const DMA_STATUS_0: u32 = 0x0100_0010;

pub const DMA_MASK_0: u32 = 0x0100_0014;

pub const DMA_STATUS_1: u32 = 0x0100_0018;

pub const DMA_MASK_1: u32 = 0x0100_001C;

/// Time-sync words the hardware drives.
pub const TS_CAPTURED: u32 = 0x0100_00B4;

pub const TS_LOCK: u32 = 0x0100_0304;

pub const TS_NCO_TX: u32 = 0x0100_0D8C;

/// The captured timestamp the control-protocol registers show.
pub const MPCP_CAPTURED_TS: u32 = 0x0100_0320;

/// Queue bitmaps: the first of six, `0x200` apart.
pub const BITMAP_BASE: u32 = 0x0100_1438;

/// The system register range.
pub const SYSREG_START: u32 = 0x0100_0000;

pub const SYSREG_END: u32 = 0x0100_3800;

/// Where the lane interface answers.
pub open spec fn serdes_ranges() -> Seq<AddressRange> {
    seq![
        AddressRange { start: 0x0100_0180, end: 0x0100_01F0 },
        AddressRange { start: 0x224A_0000, end: 0x224A_0800 },
    ]
}

/// Where the free-running timer answers.
pub open spec fn timer_ranges() -> Seq<AddressRange> {
    seq![AddressRange { start: 0x0100_0050, end: 0x0100_0054 }]
}

/// Where the time-sync words answer.
pub open spec fn tssync_ranges() -> Seq<AddressRange> {
    seq![
        AddressRange { start: 0x0100_00B4, end: 0x0100_00B8 },
        AddressRange { start: 0x0100_0300, end: 0x0100_0308 },
        AddressRange { start: 0x0100_0314, end: 0x0100_0320 },
        AddressRange { start: 0x0100_0D88, end: 0x0100_0D90 },
    ]
}

/// Who answers an address.
#[derive(Clone, Copy, Debug, PartialEq, Eq, Structural)]
pub enum Owner {
    Uart,
    Pbc,
    BscI2c,
    LaneBus,
    Lue,
    SerDes,
    TsSync,
    EponMac,
    Macsec,
    Dma,
    Timer,
    Efuse,
    FatalFilter,
    Mpcp,
    Nco,
    MacFilter,
    DmaMailbox,
    Sysreg,
    Unmapped,
}

impl Owner {
    /// The name accesses are logged under.
    pub open spec fn tag(self) -> &'static str {
        match self {
            Owner::Uart => "uart",
            Owner::Pbc => "pbc",
            Owner::BscI2c => "bsc_i2c",
            Owner::LaneBus => "mpcp_bus",
            Owner::Lue => "lue",
            Owner::SerDes => "serdes",
            Owner::TsSync => "mpcp_tssync",
            Owner::EponMac => "epon_mac",
            Owner::Macsec => "macsec",
            Owner::Dma => "dma",
            Owner::Timer => "timer",
            Owner::Efuse => "efuse_udr",
            Owner::FatalFilter => "fatal_filter",
            Owner::Mpcp => "mpcp",
            Owner::Nco => "nco",
            Owner::MacFilter => "mac_filter",
            Owner::DmaMailbox => "dma_mbox",
            Owner::Sysreg => "sysreg",
            Owner::Unmapped => "unmapped",
        }
    }

    pub fn name(self) -> (r: &'static str)
        ensures
            r == self.tag(),
    {
        match self {
            Owner::Uart => "uart",
            Owner::Pbc => "pbc",
            Owner::BscI2c => "bsc_i2c",
            Owner::LaneBus => "mpcp_bus",
            Owner::Lue => "lue",
            Owner::SerDes => "serdes",
            Owner::TsSync => "mpcp_tssync",
            Owner::EponMac => "epon_mac",
            Owner::Macsec => "macsec",
            Owner::Dma => "dma",
            Owner::Timer => "timer",
            Owner::Efuse => "efuse_udr",
            Owner::FatalFilter => "fatal_filter",
            Owner::Mpcp => "mpcp",
            Owner::Nco => "nco",
            Owner::MacFilter => "mac_filter",
            Owner::DmaMailbox => "dma_mbox",
            Owner::Sysreg => "sysreg",
            Owner::Unmapped => "unmapped",
        }
    }
}

/// The peripherals, as values.
pub struct DevState {
    pub uart: UartState,
    pub pbc: PbcState,
    pub bsc: BscState,
    pub lane: LaneState,
    pub lue: LueState,
    pub use_classifier: bool,
    pub binding: ClassifierBinding,
    pub serdes: WindowState,
    pub rx_los: u32,
    pub tssync: WindowState,
    pub epon: EponRegs,
    pub macsec: MacsecState,
    pub dma: DmaState,
    pub alarm: Seq<u16>,
    pub alarm_trace: bool,
    pub timer: WindowState,
    pub efuse: EfuseState,
    pub fatal: FatalFilter,
    pub mpcp: MpcpState,
    pub nco: NcoState,
    pub mac_filter: WindowState,
    pub olt: OltState,
    pub scenario: ScenarioState,
    pub sysreg: StoreState,
    pub pending: Seq<OpView>,
    pub dma_status: Seq<u32>,
    pub dma_mask: Seq<u32>,
    pub guard_countdown: u32,
    pub nco_tx_ts: u32,
}

pub open spec fn pbc_claims(addr: u32) -> bool {
    PBC_BASE <= addr < PBC_BASE + PBC_SIZE
}

pub open spec fn is_dma_mailbox(addr: u32) -> bool {
    addr == DMA_STATUS_0 || addr == DMA_MASK_0 || addr == DMA_STATUS_1 || addr == DMA_MASK_1
}

/// The lane bus word an address reads as.
pub open spec fn lane_word(lane: LaneState, addr: u32) -> u32 {
    if addr == lane.cmd_addr {
        lane.cmd
    } else if addr == lane.data_addr {
        lane.data
    } else {
        lane.status_word()
    }
}

/// The lane bus after a word is read: pending command bits clear.
pub open spec fn lane_after_read(lane: LaneState, addr: u32) -> LaneState {
    if addr == lane.cmd_addr {
        lane.after_cmd_read()
    } else {
        lane
    }
}

/// The lane bus after a word is written: a command completes at once, and a
/// status write arms a lane-register transaction.
pub open spec fn lane_after_write(lane: LaneState, addr: u32, val: u32) -> LaneState {
    if addr == lane.cmd_addr {
        let after = lane.after_cmd(val);
        LaneState { cmd: after.cmd & 0x07FF_FFFF, pending_clear: 0, ..after }
    } else if addr == lane.data_addr {
        LaneState { data: val, ..lane }
    } else {
        LaneState { stat: val & !1, ..lane }.after_arm(val)
    }
}

/// What slot 0 of a match table holds after a write, once a link is
/// registered: the assigned link stays in its low half.
pub open spec fn enforced_llid(val: u32, llid: u16) -> u32 {
    (val & 0xFFFF_0000) | llid as u32
}

/// The MAC with the queue bitmaps put in.
pub open spec fn bitmaps_poked(epon: EponRegs, bitmap: Seq<u32>, n: nat) -> EponRegs
    decreases n,
{
    if n == 0 {
        epon
    } else {
        let before = bitmaps_poked(epon, bitmap, (n - 1) as nat);
        let addr = (BITMAP_BASE + (n - 1) * 0x200) as u32;
        EponRegs {
            llid: before.llid.update(crate::soc::epon_mac::llid_word(addr), bitmap[n - 1]),
            ..before
        }
    }
}

impl DevState {
    pub open spec fn wf(self) -> bool {
        &&& self.pbc.flash.data.len() == 0x40_0000
        &&& self.lane.wf()
        &&& self.lane.cmd_addr == 0x0100_0160
        &&& self.lane.data_addr == 0x0100_016C
        &&& self.lane.stat_addr == 0x0100_0170
        &&& self.macsec.wf()
        &&& self.dma.wf()
        &&& self.alarm.no_duplicates()
        &&& self.alarm.len() <= 64
        &&& self.mpcp.wf()
        &&& self.nco.wf()
        &&& self.sysreg.range.start & 3 == 0
        &&& self.dma_status.len() == 2
        &&& self.dma_mask.len() == 2
        &&& self.lue.inst.len() == 2
    }

    /// Who answers a word access, or a narrow one. The lane bus and the DMA
    /// mailbox have no narrow registers.
    #[verifier::opaque]
    pub open spec fn owner(self, addr: u32, narrow: bool) -> Owner {
        if crate::soc::uart::uart_claims(addr) {
            Owner::Uart
        } else if pbc_claims(addr) {
            Owner::Pbc
        } else if BSC_BASE <= addr < BSC_END {
            Owner::BscI2c
        } else if !narrow && (addr == self.lane.cmd_addr || addr == self.lane.data_addr || addr
            == self.lane.stat_addr) {
            Owner::LaneBus
        } else if crate::soc::lue::lue_place(addr) is Some {
            Owner::Lue
        } else if self.serdes.claims(addr) {
            Owner::SerDes
        } else if self.tssync.claims(addr) {
            Owner::TsSync
        } else if crate::soc::epon_mac::epon_claims(addr) {
            Owner::EponMac
        } else if crate::soc::macsec::macsec_claims(addr) {
            Owner::Macsec
        } else if crate::soc::dma::dma_claims(addr) {
            Owner::Dma
        } else if self.timer.claims(addr) {
            Owner::Timer
        } else if crate::soc::efuse_udr::efuse_claims(addr) {
            Owner::Efuse
        } else if crate::soc::fatal_filter::fatal_filter_claims(addr) {
            Owner::FatalFilter
        } else if crate::soc::mpcp::mpcp_claims(addr) {
            Owner::Mpcp
        } else if self.nco.regs.claims(addr) {
            Owner::Nco
        } else if self.mac_filter.claims(addr) {
            Owner::MacFilter
        } else if !narrow && is_dma_mailbox(addr) {
            Owner::DmaMailbox
        } else if self.sysreg.range.has(addr) {
            Owner::Sysreg
        } else {
            Owner::Unmapped
        }
    }

    /// What a look at a register shows. Register files without such a look
    /// show zero.
    #[verifier::opaque]
    pub open spec fn peek(self, owner: Owner, addr: u32) -> u32 {
        match owner {
            Owner::Uart => self.uart.word_at(addr),
            Owner::Pbc => self.pbc.word_at((addr - PBC_BASE) as u32),
            Owner::BscI2c => self.bsc.word_at(addr),
            Owner::LaneBus => lane_word(self.lane, addr),
            Owner::Lue => self.lue.word_at(addr),
            Owner::SerDes => self.serdes.word_at(addr),
            Owner::TsSync => self.tssync.word_at(addr),
            Owner::EponMac => self.epon.word_at(addr),
            Owner::Timer => self.timer.word_at(addr),
            Owner::Nco => self.nco.regs.word_at(addr),
            Owner::MacFilter => self.mac_filter.word_at(addr),
            _ => 0,
        }
    }

    /// What a register reads as.
    #[verifier::opaque]
    pub open spec fn word(self, owner: Owner, addr: u32) -> u32 {
        match owner {
            Owner::Macsec => self.macsec.word_at(addr),
            Owner::Dma => self.dma.word_at(addr),
            Owner::Efuse => self.efuse.word_at(addr),
            Owner::FatalFilter => self.fatal.word_at(addr),
            Owner::Mpcp => self.mpcp.word_at(addr),
            Owner::DmaMailbox => if addr == DMA_STATUS_0 {
                self.dma_status[0]
            } else if addr == DMA_MASK_0 {
                self.dma_mask[0]
            } else if addr == DMA_STATUS_1 {
                self.dma_status[1]
            } else {
                self.dma_mask[1]
            },
            Owner::Sysreg => self.sysreg.word_at(addr),
            _ => self.peek(owner, addr),
        }
    }

    /// The peripherals after a register is read as part of an access of some
    /// width.
    #[verifier::opaque]
    pub open spec fn after_read(self, owner: Owner, addr: u32, width: u32) -> DevState {
        match owner {
            Owner::Uart => DevState { uart: self.uart.after_read_at(addr), ..self },
            Owner::BscI2c => DevState { bsc: self.bsc.after_read(addr), ..self },
            Owner::LaneBus => DevState { lane: lane_after_read(self.lane, addr), ..self },
            Owner::EponMac => DevState { epon: self.epon.after_read(addr), ..self },
            Owner::Macsec => DevState { macsec: self.macsec.after_read(addr), ..self },
            Owner::Dma => DevState { dma: self.dma.after_read(addr), ..self },
            Owner::Efuse => DevState { efuse: self.efuse.after_read(addr), ..self },
            Owner::Sysreg => self.sysreg_read(addr, width),
            _ => self,
        }
    }

    /// The peripherals after a residual register is read, and tallied.
    #[verifier::opaque]
    pub open spec fn sysreg_read(self, addr: u32, width: u32) -> DevState {
        DevState { sysreg: self.sysreg.after_read(addr, width), ..self }
    }

    /// Whether a register can be read: the counters it moves can still count.
    pub open spec fn readable(self, owner: Owner, addr: u32) -> bool {
        &&& owner is EponMac && crate::soc::epon_mac::is_counter_port(addr)
            ==> self.epon.unattributed < u64::MAX
        &&& owner is Sysreg ==> self.sysreg.can_tally_read(
            crate::soc::default_store::word_address(addr),
        )
    }

    /// Whether a write to the MAC is one the registered link overrules.
    pub open spec fn llid_enforced(self, addr: u32, val: u32) -> bool {
        !self.olt.idle && (addr == LLID_MATCH_1G || addr == LLID_MATCH_10G) && val != 0
    }

    /// The value a write is logged with.
    pub open spec fn logged(self, owner: Owner, addr: u32, val: u32) -> u32 {
        if owner is EponMac && self.llid_enforced(addr, val) {
            enforced_llid(val, self.olt.assigned_llid)
        } else {
            val
        }
    }

    /// The peripherals after a word is written: what the register does with it,
    /// and what the bank carries across to other peripherals.
    #[verifier::opaque]
    pub open spec fn after_write(self, owner: Owner, addr: u32, val: u32) -> DevState {
        match owner {
            Owner::SerDes => self.serdes_carried(addr, val),
            Owner::EponMac => self.epon_carried(addr, val),
            Owner::Efuse => self.efuse_carried(addr, val),
            Owner::LaneBus => self.lane_carried(addr, val),
            _ => self.register_write(owner, addr, val, 4),
        }
    }

    /// A rising burst bit of the lane configuration fires a burst.
    #[verifier::opaque]
    pub open spec fn serdes_carried(self, addr: u32, val: u32) -> DevState {
        DevState {
            serdes: self.serdes.after_write(addr, val),
            olt: if addr == PON_LANE_CONFIG && val & BURST_BIT != 0 && self.serdes.word_at(addr)
                & BURST_BIT == 0 {
                self.olt.after_burst()
            } else {
                self.olt
            },
            ..self
        }
    }

    /// A registered link keeps its slot in the match tables.
    #[verifier::opaque]
    pub open spec fn epon_carried(self, addr: u32, val: u32) -> DevState {
        if self.llid_enforced(addr, val) {
            DevState {
                epon: EponRegs {
                    table: self.epon.table.update(
                        crate::soc::epon_mac::table_word(addr),
                        enforced_llid(val, self.olt.assigned_llid),
                    ),
                    ..self.epon
                },
                ..self
            }
        } else {
            self.epon_written(addr, val)
        }
    }

    /// The reset word selects the page of the lane registers.
    #[verifier::opaque]
    pub open spec fn efuse_carried(self, addr: u32, val: u32) -> DevState {
        DevState {
            lane: if addr == REG_I2C_UDR_CLK_RESET {
                LaneState { page: ((val >> 12) & 3) as int, ..self.lane }
            } else {
                self.lane
            },
            efuse: self.efuse.after_write(addr, val),
            ..self
        }
    }

    /// A lane command goes stale in the data cache at once.
    #[verifier::opaque]
    pub open spec fn lane_carried(self, addr: u32, val: u32) -> DevState {
        DevState {
            lane: lane_after_write(self.lane, addr, val),
            pending: if addr == self.lane.cmd_addr {
                self.pending.push(OpView::CacheInvalidate { addr })
            } else {
                self.pending
            },
            ..self
        }
    }

    /// The peripherals after the flash controller takes a write.
    #[verifier::opaque]
    pub open spec fn pbc_written(self, addr: u32, val: u32) -> DevState {
        DevState { pbc: self.pbc.after_write((addr - PBC_BASE) as u32, val), ..self }
    }

    /// The peripherals after the I2C master takes a write.
    #[verifier::opaque]
    pub open spec fn bsc_written(self, addr: u32, val: u32) -> DevState {
        DevState { bsc: self.bsc.after_write(addr, val), ..self }
    }

    /// The peripherals after the lane bus takes a write.
    #[verifier::opaque]
    pub open spec fn lane_written(self, addr: u32, val: u32) -> DevState {
        DevState { lane: lane_after_write(self.lane, addr, val), ..self }
    }

    /// The peripherals after the classifier takes a write.
    #[verifier::opaque]
    pub open spec fn lue_written(self, addr: u32, val: u32) -> DevState {
        DevState { lue: self.lue.after_write(addr, val), ..self }
    }

    /// The peripherals after the MAC takes a write.
    #[verifier::opaque]
    pub open spec fn epon_written(self, addr: u32, val: u32) -> DevState {
        DevState { epon: self.epon.after_write(addr, val), ..self }
    }

    /// The peripherals after the security block takes a write.
    #[verifier::opaque]
    pub open spec fn macsec_written(self, addr: u32, val: u32) -> DevState {
        DevState { macsec: self.macsec.after_write(addr, val), ..self }
    }

    /// The peripherals after the DMA channels takes a write.
    #[verifier::opaque]
    pub open spec fn dma_written(self, addr: u32, val: u32) -> DevState {
        DevState { dma: self.dma.after_write(addr, val), ..self }
    }

    /// The peripherals after the fuse bus takes a write.
    #[verifier::opaque]
    pub open spec fn efuse_written(self, addr: u32, val: u32) -> DevState {
        DevState { efuse: self.efuse.after_write(addr, val), ..self }
    }

    /// The peripherals after the control-protocol registers takes a write.
    #[verifier::opaque]
    pub open spec fn mpcp_written(self, addr: u32, val: u32) -> DevState {
        DevState { mpcp: self.mpcp.after_write(addr, val), ..self }
    }

    /// The peripherals after a residual register takes a write, and tallies it.
    #[verifier::opaque]
    pub open spec fn sysreg_written(self, addr: u32, val: u32, width: u32) -> DevState {
        DevState { sysreg: self.sysreg.after_write(addr, val, width), ..self }
    }

    /// The peripherals after the DMA mailbox takes a write: ones clear status
    /// bits, masks are stored.
    pub open spec fn mailbox_written(self, addr: u32, val: u32) -> DevState {
        if addr == DMA_STATUS_0 {
            DevState {
                dma_status: self.dma_status.update(0, self.dma_status[0] & !val),
                ..self
            }
        } else if addr == DMA_MASK_0 {
            DevState { dma_mask: self.dma_mask.update(0, val), ..self }
        } else if addr == DMA_STATUS_1 {
            DevState {
                dma_status: self.dma_status.update(1, self.dma_status[1] & !val),
                ..self
            }
        } else {
            DevState { dma_mask: self.dma_mask.update(1, val), ..self }
        }
    }

    /// The peripherals after a register is written, on its own, as part of an
    /// access of some width.
    #[verifier::opaque]
    pub open spec fn register_write(
        self,
        owner: Owner,
        addr: u32,
        val: u32,
        width: u32,
    ) -> DevState {
        match owner {
            Owner::Uart => DevState { uart: self.uart.after_write_at(addr, val), ..self },
            Owner::Pbc => self.pbc_written(addr, val),
            Owner::BscI2c => self.bsc_written(addr, val),
            Owner::LaneBus => self.lane_written(addr, val),
            Owner::Lue => self.lue_written(addr, val),
            Owner::SerDes => DevState { serdes: self.serdes.after_write(addr, val), ..self },
            Owner::TsSync => DevState { tssync: self.tssync.after_write(addr, val), ..self },
            Owner::EponMac => self.epon_written(addr, val),
            Owner::Macsec => self.macsec_written(addr, val),
            Owner::Dma => self.dma_written(addr, val),
            Owner::Timer => DevState { timer: self.timer.after_write(addr, val), ..self },
            Owner::Efuse => self.efuse_written(addr, val),
            Owner::FatalFilter => DevState { fatal: self.fatal.after_write(addr, val), ..self },
            Owner::Mpcp => self.mpcp_written(addr, val),
            Owner::Nco => DevState {
                nco: NcoState { regs: self.nco.regs.after_write(addr, val), ..self.nco },
                ..self
            },
            Owner::MacFilter => DevState {
                mac_filter: self.mac_filter.after_write(addr, val),
                ..self
            },
            Owner::DmaMailbox => self.mailbox_written(addr, val),
            Owner::Sysreg => self.sysreg_written(addr, val, width),
            Owner::Unmapped => self,
        }
    }

    /// Whether a write asks for something its register can do.
    pub open spec fn writable(self, owner: Owner, addr: u32, val: u32) -> bool {
        &&& owner is Pbc ==> self.pbc.accepts((addr - PBC_BASE) as u32, val)
        &&& owner is Lue ==> self.lue.can_take(addr, val)
        &&& owner is Sysreg ==> self.sysreg.can_tally_write(
            crate::soc::default_store::word_address(addr),
        )
    }

    /// The half-word an address reads as.
    pub open spec fn half(self, owner: Owner, addr: u32) -> u16 {
        crate::soc::peripheral::half_lane(self.word(owner, addr & !3), addr)
    }

    /// The byte an address reads as. The UART registers are a byte wide.
    pub open spec fn byte(self, owner: Owner, addr: u32) -> u8 {
        if owner is Uart {
            self.word(owner, addr) as u8
        } else {
            crate::soc::peripheral::byte_lane(self.word(owner, addr & !3), addr)
        }
    }

    /// The peripherals after a byte is read.
    pub open spec fn after_byte_read(self, owner: Owner, addr: u32) -> DevState {
        if owner is Uart {
            self.after_read(owner, addr, 1)
        } else {
            self.after_read(owner, addr & !3, 1)
        }
    }

    /// The word a narrow write merges into: what a look at it shows, or what
    /// the residual store holds.
    pub open spec fn merge_base(self, owner: Owner, addr: u32) -> u32 {
        if owner is Sysreg {
            self.sysreg.word_at(addr & !3)
        } else {
            self.peek(owner, addr & !3)
        }
    }

    /// The word a half-word write puts back.
    pub open spec fn half_merged(self, owner: Owner, addr: u32, val: u16) -> u32 {
        crate::soc::peripheral::with_half_lane(self.merge_base(owner, addr), addr, val)
    }

    /// The word a byte write puts back.
    pub open spec fn byte_merged(self, owner: Owner, addr: u32, val: u8) -> u32 {
        crate::soc::peripheral::with_byte_lane(self.merge_base(owner, addr), addr, val)
    }

    /// The peripherals after a half-word is written.
    pub open spec fn after_half_write(self, owner: Owner, addr: u32, val: u16) -> DevState {
        self.register_write(owner, addr & !3, self.half_merged(owner, addr, val), 2)
    }

    /// The peripherals after a byte is written.
    pub open spec fn after_byte_write(self, owner: Owner, addr: u32, val: u8) -> DevState {
        if owner is Uart {
            self.register_write(owner, addr, val as u32, 1)
        } else {
            self.register_write(owner, addr & !3, self.byte_merged(owner, addr, val), 1)
        }
    }
}

/// What it takes to own an address, for the peripherals whose registers are
/// counted from a base.
pub proof fn lemma_owner_claims(d: DevState, addr: u32, narrow: bool)
    ensures
        ({
            let owner = d.owner(addr, narrow);
            &&& owner is Uart ==> crate::soc::uart::uart_claims(addr)
                && crate::soc::uart::uart_claims(addr & !3)
            &&& owner is Pbc ==> addr >= PBC_BASE && addr & !3 >= PBC_BASE
            &&& owner is BscI2c ==> addr >= 0x0100_0000 && addr & !3 >= 0x0100_0000
            &&& owner is Dma ==> crate::soc::dma::in_dma_range(addr)
                && crate::soc::dma::in_dma_range(addr & !3)
            &&& owner is Sysreg ==> addr >= d.sysreg.range.start
            &&& owner is Sysreg && d.sysreg.range.start & 3 == 0 ==> addr & !3
                >= d.sysreg.range.start
        }),
{
    reveal(DevState::owner);
    crate::bits::lemma_round_down(addr);
    crate::bits::lemma_round_down(d.sysreg.range.start);
}

/// The places of the peripherals that are known by the words they hold.
pub open spec fn windows_in_place(d: DevState) -> bool {
    &&& d.serdes.ranges == seq![
        AddressRange { start: 0x0100_0180, end: 0x0100_01F0 },
        AddressRange { start: 0x224A_0000, end: 0x224A_0800 },
    ]
    &&& d.timer.ranges == seq![AddressRange { start: 0x0100_0050, end: 0x0100_0054 }]
    &&& d.tssync.ranges == seq![
        AddressRange { start: 0x0100_00B4, end: 0x0100_00B8 },
        AddressRange { start: 0x0100_0300, end: 0x0100_0308 },
        AddressRange { start: 0x0100_0314, end: 0x0100_0320 },
        AddressRange { start: 0x0100_0D88, end: 0x0100_0D90 },
    ]
    &&& d.nco.regs.ranges.len() == 0
    &&& d.mac_filter.ranges.len() == 0
    &&& d.sysreg.range == (AddressRange { start: 0x0100_0000, end: 0x0100_3800 })
}

proof fn lemma_window_claims(d: DevState, addr: u32)
    requires
        windows_in_place(d),
    ensures
        d.serdes.claims(addr) <==> 0x0100_0180 <= addr < 0x0100_01F0 || 0x224A_0000 <= addr
            < 0x224A_0800,
        d.timer.claims(addr) <==> 0x0100_0050 <= addr < 0x0100_0054,
        d.tssync.claims(addr) <==> 0x0100_00B4 <= addr < 0x0100_00B8 || 0x0100_0300 <= addr
            < 0x0100_0308 || 0x0100_0314 <= addr < 0x0100_0320 || 0x0100_0D88 <= addr < 0x0100_0D90,
        !d.nco.regs.claims(addr),
        !d.mac_filter.claims(addr),
{
    let serdes = d.serdes.ranges;
    let sync = d.tssync.ranges;
    assert(serdes[0].has(addr) <==> 0x0100_0180 <= addr < 0x0100_01F0);
    assert(serdes[1].has(addr) <==> 0x224A_0000 <= addr < 0x224A_0800);
    assert(d.timer.ranges[0].has(addr) <==> 0x0100_0050 <= addr < 0x0100_0054);
    assert(sync[0].has(addr) <==> 0x0100_00B4 <= addr < 0x0100_00B8);
    assert(sync[1].has(addr) <==> 0x0100_0300 <= addr < 0x0100_0308);
    assert(sync[2].has(addr) <==> 0x0100_0314 <= addr < 0x0100_0320);
    assert(sync[3].has(addr) <==> 0x0100_0D88 <= addr < 0x0100_0D90);
}

/// The large blocks answer their own addresses, at any width.
pub proof fn law_blocks_answer_their_addresses(d: DevState, addr: u32, narrow: bool)
    requires
        d.wf(),
        windows_in_place(d),
    ensures
        ({
            let o = d.owner(addr, narrow);
            &&& 0x00FC_1000 <= addr < 0x00FC_1100 ==> o == Owner::Uart
            &&& 0x0100_01F0 <= addr < 0x0100_0240 ==> o == Owner::Pbc
            &&& 0x0100_0140 <= addr < 0x0100_0158 ==> o == Owner::BscI2c
            &&& 0x0100_240C <= addr < 0x0100_2420 || 0x0100_280C <= addr < 0x0100_2820 ==> o
                == Owner::Lue
            &&& 0x0100_0180 <= addr < 0x0100_01F0 || 0x224A_0000 <= addr < 0x224A_0800 ==> o
                == Owner::SerDes
            &&& 0x0100_00B4 <= addr < 0x0100_00B8 || 0x0100_0300 <= addr < 0x0100_0308 || 0x0100_0314
                <= addr < 0x0100_0320 || 0x0100_0D88 <= addr < 0x0100_0D90 ==> o == Owner::TsSync
            &&& 0x0100_0400 <= addr < 0x0100_0D88 || 0x0100_0D90 <= addr < 0x0100_0E80 || 0x0100_1400
                <= addr < 0x0100_2000 ==> o == Owner::EponMac
            &&& 0x0100_2400 <= addr < 0x0100_240C || 0x0100_2420 <= addr < 0x0100_280C || 0x0100_2820
                <= addr < 0x0100_2D40 || 0x0100_3500 <= addr < 0x0100_3540 ==> o == Owner::Macsec
            &&& 0x0100_2000 <= addr < 0x0100_2400 || 0x0100_2D40 <= addr < 0x0100_3500 || 0x0100_3540
                <= addr < 0x0100_3600 || 0x0100_3614 <= addr < 0x0100_4000 ==> o == Owner::Dma
            &&& 0x0100_0050 <= addr < 0x0100_0054 ==> o == Owner::Timer
            &&& 0x0100_0040 <= addr < 0x0100_0044 || 0x0100_0048 <= addr < 0x0100_0050 ==> o
                == Owner::Efuse
            &&& 0x0100_3600 <= addr < 0x0100_3614 ==> o == Owner::FatalFilter
            &&& 0x0100_0120 <= addr < 0x0100_0140 || 0x0100_0320 <= addr < 0x0100_0328 || 0x0100_1180
                <= addr < 0x0100_11C0 || 0x0100_1268 <= addr < 0x0100_1390 ==> o == Owner::Mpcp
            &&& addr < 0x00FC_1000 || 0x00FC_1100 <= addr < 0x0100_0000 || 0x0100_4000 <= addr
                < 0x224A_0000 || 0x224A_0800 <= addr ==> o == Owner::Unmapped
            &&& 0x0100_0000 <= addr < 0x0100_4000 ==> o != Owner::Unmapped
        }),
{
    reveal(DevState::owner);
    crate::bits::lemma_round_down(addr);
    lemma_window_claims(d, addr);
    crate::soc::lue::law_ports_have_their_places(addr);
    crate::soc::macsec::law_macsec_claims_its_windows(addr);
    crate::soc::dma::law_dma_claims_its_slots(addr);
    crate::soc::efuse_udr::law_efuse_claims_its_registers(addr);
    crate::soc::mpcp::law_mpcp_claims_its_regions(addr);
}

/// The words of the lane bus and of the DMA mailbox answer word accesses alone;
/// a narrow access of one falls through to the plain registers.
pub proof fn law_some_words_answer_words_alone(d: DevState, addr: u32)
    requires
        d.wf(),
        windows_in_place(d),
    ensures
        addr == 0x0100_0160 || addr == 0x0100_016C || addr == 0x0100_0170 ==> d.owner(addr, false)
            == Owner::LaneBus && d.owner(addr, true) == Owner::Sysreg,
        addr == 0x0100_0010 || addr == 0x0100_0014 || addr == 0x0100_001C ==> d.owner(addr, false)
            == Owner::DmaMailbox && d.owner(addr, true) == Owner::Sysreg,
{
    reveal(DevState::owner);
    crate::bits::lemma_round_down(addr);
    lemma_window_claims(d, addr);
    crate::soc::lue::law_ports_have_their_places(addr);
    crate::soc::macsec::law_macsec_claims_its_windows(addr);
    crate::soc::dma::law_dma_claims_its_slots(addr);
    crate::soc::efuse_udr::law_efuse_claims_its_registers(addr);
    crate::soc::mpcp::law_mpcp_claims_its_regions(addr);
}

/// A read gives what the register file of the owner holds.
pub proof fn law_owner_gives_the_word(d: DevState, addr: u32)
    requires
        addr >= 0x0100_01F0,
    ensures
        d.word(Owner::Uart, addr) == d.uart.word_at(addr),
        d.word(Owner::Pbc, addr) == d.pbc.word_at((addr - 0x0100_01F0) as u32),
        d.word(Owner::BscI2c, addr) == d.bsc.word_at(addr),
        d.word(Owner::Lue, addr) == d.lue.word_at(addr),
        d.word(Owner::SerDes, addr) == d.serdes.word_at(addr),
        d.word(Owner::TsSync, addr) == d.tssync.word_at(addr),
        d.word(Owner::EponMac, addr) == d.epon.word_at(addr),
        d.word(Owner::Macsec, addr) == d.macsec.word_at(addr),
        d.word(Owner::Dma, addr) == d.dma.word_at(addr),
        d.word(Owner::Timer, addr) == d.timer.word_at(addr),
        d.word(Owner::Efuse, addr) == d.efuse.word_at(addr),
        d.word(Owner::FatalFilter, addr) == d.fatal.word_at(addr),
        d.word(Owner::Mpcp, addr) == d.mpcp.word_at(addr),
        d.word(Owner::Nco, addr) == d.nco.regs.word_at(addr),
        d.word(Owner::MacFilter, addr) == d.mac_filter.word_at(addr),
        d.word(Owner::Sysreg, addr) == d.sysreg.word_at(addr),
        d.word(Owner::Unmapped, addr) == 0,
{
    reveal(DevState::word);
    reveal(DevState::peek);
}

/// A look shows what a read would give, but for the register files that offer
/// no look, which show zero.
pub proof fn law_look_shows_what_a_read_gives(d: DevState, owner: Owner, addr: u32)
    ensures
        !(owner is Macsec || owner is Dma || owner is Efuse || owner is FatalFilter || owner is Mpcp
            || owner is DmaMailbox || owner is Sysreg) ==> d.peek(owner, addr) == d.word(
            owner,
            addr,
        ),
        owner is Macsec || owner is Dma || owner is Efuse || owner is FatalFilter || owner is Mpcp
            || owner is DmaMailbox || owner is Sysreg ==> d.peek(owner, addr) == 0,
{
    reveal(DevState::word);
    reveal(DevState::peek);
}

/// The words of the lane bus: the command, the data and the status.
pub proof fn law_lane_bus_shows_its_words(d: DevState, val: u32)
    requires
        d.wf(),
    ensures
        d.word(Owner::LaneBus, 0x0100_0160) == d.lane.cmd,
        d.word(Owner::LaneBus, 0x0100_016C) == d.lane.data,
        d.word(Owner::LaneBus, 0x0100_0170) == d.lane.status_word(),
        d.after_write(Owner::LaneBus, 0x0100_016C, val).lane.data == val,
        d.after_write(Owner::LaneBus, 0x0100_016C, val).lane.cmd == d.lane.cmd,
        d.after_write(Owner::LaneBus, 0x0100_016C, val).pending == d.pending,
        d.after_write(Owner::LaneBus, 0x0100_0160, val).lane.cmd == val & 0x07FF_FFFF,
        d.after_write(Owner::LaneBus, 0x0100_0160, val).pending == d.pending.push(
            OpView::CacheInvalidate { addr: 0x0100_0160 },
        ),
        d.after_write(Owner::LaneBus, 0x0100_0170, val).lane == (LaneState {
            stat: val & !1u32,
            ..d.lane
        }).after_arm(val),
        d.after_write(Owner::LaneBus, 0x0100_0170, val).pending == d.pending,
{
    reveal(DevState::word);
    reveal(DevState::peek);
    reveal(DevState::after_write);
    reveal(DevState::lane_carried);
}

/// The first pair of mailbox words and the mask of the second are apart: ones
/// written to a status clear its bits, and a mask is stored.
pub proof fn law_mailbox_status_clears_by_ones(d: DevState, val: u32)
    requires
        d.wf(),
    ensures
        ({
            let s0 = d.after_write(Owner::DmaMailbox, 0x0100_0010, val);
            let m0 = d.after_write(Owner::DmaMailbox, 0x0100_0014, val);
            let m1 = d.after_write(Owner::DmaMailbox, 0x0100_001C, val);
            &&& s0.word(Owner::DmaMailbox, 0x0100_0010) == d.dma_status[0] & !val
            &&& s0.word(Owner::DmaMailbox, 0x0100_0010) & val == 0
            &&& s0.word(Owner::DmaMailbox, 0x0100_0014) == d.dma_mask[0]
            &&& s0.word(Owner::DmaMailbox, 0x0100_001C) == d.dma_mask[1]
            &&& m0.word(Owner::DmaMailbox, 0x0100_0014) == val
            &&& m0.word(Owner::DmaMailbox, 0x0100_0010) == d.dma_status[0]
            &&& m0.word(Owner::DmaMailbox, 0x0100_001C) == d.dma_mask[1]
            &&& m1.word(Owner::DmaMailbox, 0x0100_001C) == val
            &&& m1.word(Owner::DmaMailbox, 0x0100_0014) == d.dma_mask[0]
            &&& m1.word(Owner::DmaMailbox, 0x0100_0010) == d.dma_status[0]
        }),
{
    reveal(DevState::word);
    reveal(DevState::after_write);
    reveal(DevState::register_write);
    crate::bits::lemma_clear_bits(d.dma_status[0], val);
}

/// A read changes the register file of the owner and nothing else, and only one
/// whose reads have an effect.
pub proof fn law_read_stays_with_its_owner(d: DevState, addr: u32, width: u32)
    ensures
        d.after_read(Owner::Uart, addr, width) == (DevState {
            uart: d.uart.after_read_at(addr),
            ..d
        }),
        d.after_read(Owner::BscI2c, addr, width) == (DevState { bsc: d.bsc.after_read(addr), ..d }),
        d.after_read(Owner::EponMac, addr, width) == (DevState {
            epon: d.epon.after_read(addr),
            ..d
        }),
        d.after_read(Owner::Macsec, addr, width) == (DevState {
            macsec: d.macsec.after_read(addr),
            ..d
        }),
        d.after_read(Owner::Dma, addr, width) == (DevState { dma: d.dma.after_read(addr), ..d }),
        d.after_read(Owner::Efuse, addr, width) == (DevState {
            efuse: d.efuse.after_read(addr),
            ..d
        }),
        d.after_read(Owner::Sysreg, addr, width) == (DevState {
            sysreg: d.sysreg.after_read(addr, width),
            ..d
        }),
        d.after_read(Owner::LaneBus, d.lane.cmd_addr, width) == (DevState {
            lane: d.lane.after_cmd_read(),
            ..d
        }),
        addr != d.lane.cmd_addr ==> d.after_read(Owner::LaneBus, addr, width) == d,
        d.after_read(Owner::Pbc, addr, width) == d,
        d.after_read(Owner::Lue, addr, width) == d,
        d.after_read(Owner::SerDes, addr, width) == d,
        d.after_read(Owner::TsSync, addr, width) == d,
        d.after_read(Owner::Timer, addr, width) == d,
        d.after_read(Owner::FatalFilter, addr, width) == d,
        d.after_read(Owner::Mpcp, addr, width) == d,
        d.after_read(Owner::Nco, addr, width) == d,
        d.after_read(Owner::MacFilter, addr, width) == d,
        d.after_read(Owner::DmaMailbox, addr, width) == d,
{
    reveal(DevState::after_read);
    reveal(DevState::sysreg_read);
}

/// A write reaches the register file of the owner and nothing else, but for the
/// four that the bank carries across.
pub proof fn law_write_stays_with_its_owner(d: DevState, addr: u32, val: u32)
    requires
        addr >= 0x0100_01F0,
    ensures
        d.after_write(Owner::Uart, addr, val) == (DevState {
            uart: d.uart.after_write_at(addr, val),
            ..d
        }),
        d.after_write(Owner::Pbc, addr, val) == (DevState {
            pbc: d.pbc.after_write((addr - 0x0100_01F0) as u32, val),
            ..d
        }),
        d.after_write(Owner::BscI2c, addr, val) == (DevState {
            bsc: d.bsc.after_write(addr, val),
            ..d
        }),
        d.after_write(Owner::Lue, addr, val) == (DevState {
            lue: d.lue.after_write(addr, val),
            ..d
        }),
        d.after_write(Owner::TsSync, addr, val) == (DevState {
            tssync: d.tssync.after_write(addr, val),
            ..d
        }),
        d.after_write(Owner::Macsec, addr, val) == (DevState {
            macsec: d.macsec.after_write(addr, val),
            ..d
        }),
        d.after_write(Owner::Dma, addr, val) == (DevState {
            dma: d.dma.after_write(addr, val),
            ..d
        }),
        d.after_write(Owner::Timer, addr, val) == (DevState {
            timer: d.timer.after_write(addr, val),
            ..d
        }),
        d.after_write(Owner::FatalFilter, addr, val) == (DevState {
            fatal: d.fatal.after_write(addr, val),
            ..d
        }),
        d.after_write(Owner::Mpcp, addr, val) == (DevState {
            mpcp: d.mpcp.after_write(addr, val),
            ..d
        }),
        d.after_write(Owner::MacFilter, addr, val) == (DevState {
            mac_filter: d.mac_filter.after_write(addr, val),
            ..d
        }),
        d.after_write(Owner::Nco, addr, val).nco.regs == d.nco.regs.after_write(addr, val),
        d.after_write(Owner::Nco, addr, val).nco.channels == d.nco.channels,
        d.after_write(Owner::Sysreg, addr, val) == (DevState {
            sysreg: d.sysreg.after_write(addr, val, 4),
            ..d
        }),
        d.after_write(Owner::Unmapped, addr, val) == d,
{
    reveal(DevState::after_write);
    reveal(DevState::register_write);
    reveal(DevState::pbc_written);
    reveal(DevState::bsc_written);
    reveal(DevState::lue_written);
    reveal(DevState::macsec_written);
    reveal(DevState::dma_written);
    reveal(DevState::mpcp_written);
    reveal(DevState::sysreg_written);
}

/// The burst bit, bit 11 of the lane configuration, fires once for each time it
/// rises; the word itself is stored like any other.
pub proof fn law_rising_burst_bit_fires(d: DevState, addr: u32, val: u32)
    ensures
        ({
            let after = d.after_write(Owner::SerDes, addr, val);
            let rises = addr == 0x0100_01B0 && val & 0x800 != 0 && d.serdes.word_at(addr) & 0x800
                == 0;
            &&& after.serdes == d.serdes.after_write(addr, val)
            &&& rises ==> after.olt == d.olt.after_burst()
            &&& !rises ==> after.olt == d.olt
            &&& after == (DevState { serdes: after.serdes, olt: after.olt, ..d })
        }),
{
    reveal(DevState::after_write);
    reveal(DevState::serdes_carried);
}

/// Once a link is registered, a word written to slot 0 of a match table keeps
/// the assigned link in its low half; a zero clears the slot all the same, and
/// every other word of the MAC is written as it is.
pub proof fn law_registered_link_keeps_its_slot(d: DevState, addr: u32, val: u32)
    requires
        d.epon.table.len() == 672,
    ensures
        ({
            let after = d.after_write(Owner::EponMac, addr, val);
            let kept = !d.olt.idle && (addr == 0x0100_043C || addr == 0x0100_0D00) && val != 0;
            &&& kept ==> after.epon.word_at(addr) == (val / 0x1_0000) * 0x1_0000
                + d.olt.assigned_llid && d.logged(Owner::EponMac, addr, val) == (val / 0x1_0000)
                * 0x1_0000 + d.olt.assigned_llid
            &&& !kept ==> after.epon == d.epon.after_write(addr, val) && d.logged(
                Owner::EponMac,
                addr,
                val,
            ) == val
            &&& after == (DevState { epon: after.epon, ..d })
        }),
{
    reveal(DevState::after_write);
    reveal(DevState::epon_carried);
    reveal(DevState::epon_written);
    crate::soc::peripheral::law_replaced_lanes_stand_big_endian(val, 2, 0, d.olt.assigned_llid);
    crate::bits::lemma_round_down(2);
    assert(2u32 & 2 != 0) by {
        crate::bits::lemma_fields(2);
    }
}

/// The reset word of the fuse bus selects the page of the lane registers, in
/// bits 12 and 13; the other words of the bus leave the page.
pub proof fn law_reset_word_selects_the_page(d: DevState, addr: u32, val: u32)
    ensures
        ({
            let after = d.after_write(Owner::Efuse, addr, val);
            &&& addr == 0x0100_0040 ==> after.lane.page == (val / 0x1000) % 4
            &&& after.lane == (LaneState { page: after.lane.page, ..d.lane })
            &&& addr != 0x0100_0040 ==> after.lane == d.lane
            &&& after.efuse == d.efuse.after_write(addr, val)
        }),
{
    reveal(DevState::after_write);
    reveal(DevState::efuse_carried);
    crate::bits::lemma_fields(val);
    crate::bits::lemma_fields(val >> 12);
}

/// A narrow read gives a part of the word that covers the address, the highest
/// first; a byte of the serial port is the low byte of its own register.
pub proof fn law_narrow_reads_give_parts_of_the_word(d: DevState, owner: Owner, addr: u32)
    ensures
        ({
            let word = d.word(owner, (addr - addr % 4) as u32);
            &&& addr % 4 < 2 ==> d.half(owner, addr) == word / 0x1_0000
            &&& addr % 4 >= 2 ==> d.half(owner, addr) == word % 0x1_0000
            &&& !(owner is Uart) && addr % 4 == 0 ==> d.byte(owner, addr) == word / 0x0100_0000
            &&& !(owner is Uart) && addr % 4 == 1 ==> d.byte(owner, addr) == (word / 0x1_0000)
                % 0x100
            &&& !(owner is Uart) && addr % 4 == 2 ==> d.byte(owner, addr) == (word / 0x100) % 0x100
            &&& !(owner is Uart) && addr % 4 == 3 ==> d.byte(owner, addr) == word % 0x100
            &&& owner is Uart ==> d.byte(owner, addr) == d.word(owner, addr) % 0x100
        }),
{
    crate::bits::lemma_round_down(addr);
    crate::bits::lemma_fields(d.word(owner, addr));
    crate::soc::peripheral::law_bytes_stand_big_endian(d.word(owner, addr & !3), addr);
}

/// A narrow write puts its value into the word that covers the address, in the
/// place that a narrow read takes it from, and leaves the rest of what a look
/// at the word shows.
pub proof fn law_narrow_writes_put_parts_in(
    d: DevState,
    owner: Owner,
    addr: u32,
    half: u16,
    byte: u8,
)
    ensures
        ({
            let at = (addr - addr % 4) as u32;
            let word = if owner is Sysreg { d.sysreg.word_at(at) } else { d.peek(owner, at) };
            let h = d.half_merged(owner, addr, half);
            let b = d.byte_merged(owner, addr, byte);
            &&& addr % 4 < 2 ==> h == half * 0x1_0000 + word % 0x1_0000
            &&& addr % 4 >= 2 ==> h == (word / 0x1_0000) * 0x1_0000 + half
            &&& addr % 4 == 0 ==> b == byte * 0x0100_0000 + word % 0x0100_0000
            &&& addr % 4 == 1 ==> b == (word / 0x0100_0000) * 0x0100_0000 + byte * 0x1_0000 + word
                % 0x1_0000
            &&& addr % 4 == 2 ==> b == (word / 0x1_0000) * 0x1_0000 + byte * 0x100 + word % 0x100
            &&& addr % 4 == 3 ==> b == (word / 0x100) * 0x100 + byte
            &&& d.after_half_write(owner, addr, half) == d.register_write(owner, at, h, 2)
            &&& !(owner is Uart) ==> d.after_byte_write(owner, addr, byte) == d.register_write(
                owner,
                at,
                b,
                1,
            )
            &&& owner is Uart ==> d.after_byte_write(owner, addr, byte) == d.register_write(
                owner,
                addr,
                byte as u32,
                1,
            )
        }),
{
    crate::bits::lemma_round_down(addr);
    crate::soc::peripheral::law_replaced_lanes_stand_big_endian(
        d.merge_base(owner, addr),
        addr,
        byte,
        half,
    );
}

/// The queue bitmaps stand at offset 0x38 of the six link slots, one word each,
/// and no other word of the MAC changes.
pub proof fn law_bitmaps_stand_in_their_slots(
    epon: EponRegs,
    bitmap: Seq<u32>,
    n: nat,
    k: int,
    other: int,
)
    requires
        n <= 6,
        epon.llid.len() == 768,
        0 <= other < 768,
    ensures
        bitmaps_poked(epon, bitmap, n).llid.len() == 768,
        0 <= k < n ==> bitmaps_poked(epon, bitmap, n).llid[14 + 128 * k] == bitmap[k],
        (forall|j: int| 0 <= j < n ==> other != 14 + #[trigger] (128 * j)) ==> bitmaps_poked(
            epon,
            bitmap,
            n,
        ).llid[other] == epon.llid[other],
        bitmaps_poked(epon, bitmap, n) == (EponRegs {
            llid: bitmaps_poked(epon, bitmap, n).llid,
            ..epon
        }),
    decreases n,
{
    if n > 0 {
        law_bitmaps_stand_in_their_slots(epon, bitmap, (n - 1) as nat, k, other);
        let j = n - 1;
        assert(crate::soc::epon_mac::llid_word((0x0100_1438 + j * 0x200) as u32) == 14 + 128 * j);
    }
}

} // verus!
