//! Peripheral bank: the central routing of bus accesses and the tick that
//! drives every model.
//!
//! The bank owns the peripherals by value and routes every load and store to
//! the one that claims the address, in a fixed order. Overrides are looked at
//! before any of them.

use std::collections::HashMap;

use vstd::prelude::*;

pub mod checks;
pub mod handover;
pub mod inspect;
pub mod narrow;
pub mod resets;
pub mod ticks;

use crate::cpu::exception::Exception;
use crate::peripherals::pbc::PeripheralBusController;
use crate::soc::access_log::{AccessLog, LogState};
use crate::soc::alarm_events::AlarmEvents;
use crate::soc::bsc_i2c::BscI2c;
use crate::soc::default_store::DefaultRegisterStore;
use crate::soc::devices::{
    DevState, Owner, BITMAP_BASE, BURST_BIT, DMA_MASK_0, DMA_MASK_1, DMA_STATUS_0, DMA_STATUS_1,
    LLID_MATCH_10G, LLID_MATCH_1G, PBC_BASE, PBC_SIZE, PON_LANE_CONFIG,
};
use crate::soc::dma::DmaChannelController;
use crate::soc::efuse_udr::{EfuseUdr, REG_I2C_UDR_CLK_RESET};
use crate::soc::epon_mac::{EponMac, EponRegs};
use crate::soc::fatal_filter::FatalFilter;
use crate::soc::lane_bus::LaneBus;
use crate::soc::lue::{ClassifierBinding, Lue};
use crate::soc::macsec::Macsec;
use crate::soc::mpcp::Mpcp;
use crate::soc::nco::{Nco, NcoState};
use crate::soc::olt::OltLink;
use crate::soc::peripheral::DatapathOp;
use crate::soc::scenario::{DeferredWrite, ScenarioEngine, ScenarioState};
use crate::soc::uart::Uart;
use crate::soc::window::RegisterWindow;

pub use crate::soc::access_log::{
    AuxWriteHistoryEntry, LastAccessInfo, MmioHistoryEntry, SeqTrace,
    DEFAULT_AUX_WRITE_HISTORY_SIZE, DEFAULT_MMIO_HISTORY_SIZE,
};

pub use crate::soc::bank::handover::PeripheralBankSaveState;

verus! {

/// The writes of one address, summed up.
#[derive(Clone, Copy, Debug, PartialEq, Eq, Structural)]
pub struct MmioSummaryEntry {
    pub write_count: u64,
    pub last_value: u32,
    pub first_insn: u64,
    pub last_insn: u64,
}

/// The accesses of one address, summed up.
#[derive(Clone, Copy, Debug)]
pub struct MmioTraceEntry {
    pub peripheral: &'static str,
    pub reads: u64,
    pub writes: u64,
    pub last_read_value: u32,
    pub last_write_value: u32,
    pub first_pc: u32,
    pub first_insn: u64,
    /// Bit 0 for byte accesses, bit 1 for half-words, bit 2 for words.
    pub access_widths: u8,
}

/// CPU instructions between bank ticks.
pub const BANK_TICK_PRESCALER: u64 = 64;

/// Whether peripherals start from their reset values or from the state a
/// finished boot leaves.
#[derive(Clone, Copy, Debug, PartialEq, Eq, Structural)]
pub enum BootMode {
    Cold,
    Warm,
}

/// The bank, as values.
pub struct BankState {
    pub dev: DevState,
    pub log: LogState,
    pub irq: u32,
    pub rx_channel: Seq<u8>,
    pub boot_mode: BootMode,
    pub unmapped_exception: bool,
    pub trace: bool,
    pub mmio_trace: Option<Map<u32, MmioTraceEntry>>,
    pub mmio_summaries: Map<String, HashMap<u32, MmioSummaryEntry>>,
}

impl BankState {
    pub open spec fn with_dev(self, dev: DevState) -> BankState {
        BankState { dev, ..self }
    }

    pub open spec fn with_log(self, log: LogState) -> BankState {
        BankState { log, ..self }
    }

    /// What a side-effect-free look at an address shows.
    pub open spec fn peek(self, addr: u32) -> u32 {
        match crate::soc::scenario::override_answer(self.dev.scenario.overrides, addr) {
            Some(v) => v,
            None => self.dev.peek(self.dev.owner(addr, false), addr),
        }
    }

    /// The bank after the overrides took part in a read.
    pub open spec fn after_override_read(self, addr: u32) -> BankState {
        self.with_dev(
            DevState {
                scenario: ScenarioState {
                    overrides: crate::soc::scenario::overrides_after_read(
                        self.dev.scenario.overrides,
                        addr,
                    ),
                    ..self.dev.scenario
                },
                ..self.dev
            },
        )
    }

    /// The bank after the frame mailbox answered a read.
    pub open spec fn after_mailbox_read(self, addr: u32, val: u32) -> BankState {
        self.with_dev(
            DevState { olt: self.dev.olt.after_mailbox_read(addr), ..self.dev },
        ).with_log(
            self.log.after_word_read(
                addr,
                val,
                if self.dev.olt.gives_status(addr) {
                    "olt_status"
                } else {
                    "olt_data"
                },
            ),
        )
    }

    /// What an access nobody claims gives.
    pub open spec fn unclaimed<T>(self, addr: u32, is_write: bool, v: T) -> Result<T, Exception> {
        if self.unmapped_exception {
            Err(Exception::MemoryError { address: addr, is_write })
        } else {
            Ok(v)
        }
    }

    /// What a word read gives: an override answers first, then the frame
    /// mailbox, then the peripheral that owns the address.
    #[verifier::opaque]
    pub open spec fn read_result(self, addr: u32) -> Result<u32, Exception> {
        match crate::soc::scenario::override_answer(self.dev.scenario.overrides, addr) {
            Some(v) => Ok(v),
            None => match self.dev.olt.mailbox_word(addr) {
                Some(v) => Ok(v),
                None => {
                    let dev = self.after_override_read(addr).dev;
                    let owner = dev.owner(addr, false);
                    if owner is Unmapped {
                        self.unclaimed(addr, false, 0u32)
                    } else {
                        Ok(dev.word(owner, addr))
                    }
                },
            },
        }
    }

    /// The bank after a word read, up to what outside stimulus asks for.
    #[verifier::opaque]
    pub open spec fn after_routed_read(self, addr: u32) -> BankState {
        let next = self.after_override_read(addr);
        match crate::soc::scenario::override_answer(self.dev.scenario.overrides, addr) {
            Some(v) => next.with_log(next.log.after_word_read(addr, v, "override")),
            None => match self.dev.olt.mailbox_word(addr) {
                Some(v) => next.after_mailbox_read(addr, v),
                None => {
                    let owner = next.dev.owner(addr, false);
                    if owner is Unmapped {
                        next.with_log(next.log.after_emit(addr, 0, "r"@, "word"@, "unmapped"@))
                    } else {
                        next.with_dev(next.dev.after_read(owner, addr, 4)).with_log(
                            next.log.after_word_read(
                                addr,
                                next.dev.word(owner, addr),
                                owner.tag(),
                            ),
                        )
                    }
                },
            },
        }
    }

    /// The value of a write after the overrides took part in it.
    pub open spec fn masked(self, addr: u32, val: u32) -> u32 {
        match crate::soc::scenario::masked_write(self.dev.scenario.overrides, addr, val) {
            Some(v) => v,
            None => val,
        }
    }

    /// The bank once a write is on its way: a mask took part in it, and the
    /// far end has seen it.
    pub open spec fn offered(self, addr: u32, val: u32) -> BankState {
        let seen = self.with_dev(
            DevState { olt: self.dev.olt.after_observing(addr, self.masked(addr, val)), ..self.dev },
        );
        match crate::soc::scenario::masked_write(self.dev.scenario.overrides, addr, val) {
            Some(v) => seen.with_log(self.log.after_word_write(addr, v, "override-mask")),
            None => seen,
        }
    }

    /// The bank after a mailbox command: the queue bitmaps follow at once.
    pub open spec fn after_mailbox_command(self, addr: u32, val: u32) -> BankState {
        self.with_dev(
            DevState {
                olt: self.dev.olt.after_command(val),
                epon: crate::soc::devices::bitmaps_poked(
                    self.dev.epon,
                    self.dev.olt.after_command(val).bitmap(),
                    6,
                ),
                ..self.dev
            },
        ).with_log(self.log.after_word_write(addr, val, "olt_cmd"))
    }

    /// What a word write gives.
    #[verifier::opaque]
    pub open spec fn write_result(self, addr: u32, val: u32) -> Result<(), Exception> {
        let next = self.offered(addr, val);
        if !next.dev.olt.is_command(addr) && next.dev.owner(addr, false) is Unmapped {
            self.unclaimed(addr, true, ())
        } else {
            Ok(())
        }
    }

    /// The bank after a word write, up to what outside stimulus asks for.
    #[verifier::opaque]
    pub open spec fn after_routed_write(self, addr: u32, val: u32) -> BankState {
        let next = self.offered(addr, val);
        let v = self.masked(addr, val);
        let owner = next.dev.owner(addr, false);
        if next.dev.olt.is_command(addr) {
            next.after_mailbox_command(addr, v)
        } else if owner is Unmapped {
            next.with_log(next.log.after_emit(addr, v, "w"@, "word"@, "unmapped"@))
        } else {
            next.with_dev(next.dev.after_write(owner, addr, v)).with_log(
                next.log.after_word_write(addr, next.dev.logged(owner, addr, v), owner.tag()),
            )
        }
    }

    /// Whether a write asks for something its register can do. A mailbox
    /// command reaches no register.
    #[verifier::opaque]
    pub open spec fn can_write(self, addr: u32, val: u32) -> bool {
        let dev = self.offered(addr, val).dev;
        dev.olt.is_command(addr) || dev.writable(
            dev.owner(addr, false),
            addr,
            self.masked(addr, val),
        )
    }

    /// The bank after the writes stimulus has queued.
    pub open spec fn after_deferred(self, writes: Seq<DeferredWrite>) -> BankState
        decreases writes.len(),
    {
        if writes.len() == 0 {
            self
        } else {
            let w = writes.last();
            self.after_deferred(writes.drop_last()).after_routed_write(w.address, w.value)
        }
    }

    /// Whether each of them asks for something its register can do.
    pub open spec fn can_defer(self, writes: Seq<DeferredWrite>) -> bool
        decreases writes.len(),
    {
        if writes.len() == 0 {
            true
        } else {
            let w = writes.last();
            &&& self.can_defer(writes.drop_last())
            &&& self.after_deferred(writes.drop_last()).can_write(w.address, w.value)
        }
    }

    /// The bank with no write queued.
    pub open spec fn undeferred(self) -> BankState {
        self.with_dev(
            DevState {
                scenario: ScenarioState { deferred: Seq::empty(), ..self.dev.scenario },
                ..self.dev
            },
        )
    }

    /// The bank once the queued writes went through.
    pub open spec fn drained(self) -> BankState {
        self.undeferred().after_deferred(self.dev.scenario.deferred)
    }

    /// Whether the queued writes can go through.
    pub open spec fn can_drain(self) -> bool {
        self.undeferred().can_defer(self.dev.scenario.deferred)
    }

    /// The bank once its events and watchpoints have seen an access.
    pub open spec fn noticed(self, is_write: bool, addr: u32, val: u32) -> BankState {
        self.with_dev(
            DevState {
                scenario: self.dev.scenario.after_access(is_write, addr, val),
                ..self.dev
            },
        )
    }

    /// The bank after a word read, its last-access record, and what its events
    /// and watchpoints make of it. A read that failed counts as a zero.
    pub open spec fn after_read(self, addr: u32) -> BankState {
        let next = self.after_routed_read(addr);
        match self.read_result(addr) {
            Ok(v) => next.with_log(next.log.after_remembering(addr, v, "read")).noticed(
                false,
                addr,
                v,
            ),
            Err(_) => next.noticed(false, addr, 0),
        }
    }

    /// The bank after a word write, its last-access record, and what its events
    /// and watchpoints make of it.
    pub open spec fn after_write(self, addr: u32, val: u32) -> BankState {
        let next = self.after_routed_write(addr, val);
        match self.write_result(addr, val) {
            Ok(_) => next.with_log(next.log.after_remembering(addr, val, "write")),
            Err(_) => next,
        }.noticed(true, addr, val)
    }

    /// Whether a word can be read: the counters the read moves can still
    /// count. An override or the frame mailbox moves none.
    #[verifier::opaque]
    pub open spec fn can_read(self, addr: u32) -> bool {
        let dev = self.after_override_read(addr).dev;
        ||| crate::soc::scenario::override_answer(self.dev.scenario.overrides, addr) is Some
        ||| self.dev.olt.mailbox_word(addr) is Some
        ||| dev.readable(dev.owner(addr, false), addr)
    }
}

pub struct PeripheralBank {
    pub uart: Uart,
    pub pbc: PeripheralBusController,
    pub bsc_i2c: BscI2c,
    /// Indirect bus to the lane registers.
    pub mpcp_bus: LaneBus,
    /// Packet classifier: ten addresses inside the lane window, so it is
    /// looked at before the SerDes.
    pub lue: Lue,
    /// Whether the classifier decides downstream routing. Shut by default.
    pub use_classifier: bool,
    pub classifier_binding: ClassifierBinding,
    pub serdes: RegisterWindow,
    /// Lanes without receive signal, one bit each.
    pub serdes_rx_los: u32,
    pub epon_mac: EponMac,
    pub macsec: Macsec,
    pub dma: DmaChannelController,
    pub alarm_events: AlarmEvents,
    pub timer: RegisterWindow,
    pub efuse_udr: EfuseUdr,
    pub fatal_filter: FatalFilter,
    pub mpcp: Mpcp,
    /// Time-sync words. Two of them lie inside the MAC's table window, so
    /// they are looked at before the MAC.
    pub mpcp_tssync: RegisterWindow,
    pub nco: Nco,
    pub mac_filter: RegisterWindow,
    pub olt: OltLink,
    /// Local transmit timestamp, in ticks.
    pub nco_tx_ts_counter: u32,
    pub pending_cache_inv: Vec<DatapathOp>,
    pub scenario: ScenarioEngine,
    /// Every register of the system range that no peripheral claims.
    pub sysreg: DefaultRegisterStore,
    /// Bytes on their way to the UART receiver.
    pub uart_rx: Vec<u8>,
    pub log: AccessLog,
    /// The accesses of each address, summed up, if they are kept.
    pub mmio_trace: Option<HashMap<u32, MmioTraceEntry>>,
    /// The writes of each address, summed up, under the names they were kept
    /// by.
    pub mmio_summaries: HashMap<String, HashMap<u32, MmioSummaryEntry>>,
    pub trace: bool,
    /// Interrupt lines of the peripherals after the last tick.
    pub irq_pending: u32,
    /// Status words clear where software writes ones.
    pub dma_master_status: [u32; 2],
    pub dma_channel_mask: [u32; 2],
    pub boot_mode: BootMode,
    /// Whether an access nobody claims is an error rather than a zero.
    pub unmapped_exception: bool,
    /// Ticks until the frame guard in SRAM is cleared.
    pub guard_clear_countdown: u32,
}

impl View for PeripheralBank {
    type V = BankState;

    open spec fn view(&self) -> BankState {
        BankState {
            dev: DevState {
                uart: self.uart@,
                pbc: self.pbc@,
                bsc: self.bsc_i2c@,
                lane: self.mpcp_bus@,
                lue: self.lue@,
                use_classifier: self.use_classifier,
                binding: self.classifier_binding,
                serdes: self.serdes@,
                rx_los: self.serdes_rx_los,
                tssync: self.mpcp_tssync@,
                epon: self.epon_mac@,
                macsec: self.macsec@,
                dma: self.dma@,
                alarm: self.alarm_events.forced@,
                alarm_trace: self.alarm_events.trace,
                timer: self.timer@,
                efuse: self.efuse_udr@,
                fatal: self.fatal_filter,
                mpcp: self.mpcp@,
                nco: self.nco@,
                mac_filter: self.mac_filter@,
                olt: self.olt@,
                scenario: self.scenario@,
                sysreg: self.sysreg@,
                pending: crate::soc::peripheral::op_views(self.pending_cache_inv@),
                dma_status: self.dma_master_status@,
                dma_mask: self.dma_channel_mask@,
                guard_countdown: self.guard_clear_countdown,
                nco_tx_ts: self.nco_tx_ts_counter,
            },
            log: self.log@,
            irq: self.irq_pending,
            rx_channel: self.uart_rx@,
            boot_mode: self.boot_mode,
            unmapped_exception: self.unmapped_exception,
            trace: self.trace,
            mmio_trace: match self.mmio_trace {
                Some(m) => Some(m@),
                None => None,
            },
            mmio_summaries: self.mmio_summaries@,
        }
    }
}

impl PeripheralBank {
    pub open spec fn wf(&self) -> bool {
        &&& self@.dev.wf()
        &&& self.pbc.wf()
        &&& self.bsc_i2c.wf()
        &&& self.mpcp_bus.wf()
        &&& self.epon_mac.wf()
        &&& self.log.wf()
    }

    /// Who answers an access.
    pub(crate) fn owner_of(&self, addr: u32, narrow: bool) -> (r: Owner)
        ensures
            r == self@.dev.owner(addr, narrow),
    {
        proof {
            reveal(DevState::owner);
        }
        if self.uart.claims(addr) {
            Owner::Uart
        } else if addr >= PBC_BASE && addr < PBC_BASE + PBC_SIZE {
            Owner::Pbc
        } else if self.bsc_i2c.claims(addr) {
            Owner::BscI2c
        } else if !narrow && self.mpcp_bus.claims(addr) {
            Owner::LaneBus
        } else if self.lue.claims(addr) {
            Owner::Lue
        } else if self.serdes.claims(addr) {
            Owner::SerDes
        } else if self.mpcp_tssync.claims(addr) {
            Owner::TsSync
        } else if self.epon_mac.claims(addr) {
            Owner::EponMac
        } else if self.macsec.claims(addr) {
            Owner::Macsec
        } else if self.dma.claims(addr) {
            Owner::Dma
        } else if self.timer.claims(addr) {
            Owner::Timer
        } else if self.efuse_udr.claims(addr) {
            Owner::Efuse
        } else if self.fatal_filter.claims(addr) {
            Owner::FatalFilter
        } else if self.mpcp.claims(addr) {
            Owner::Mpcp
        } else if self.nco.regs.claims(addr) {
            Owner::Nco
        } else if self.mac_filter.claims(addr) {
            Owner::MacFilter
        } else if !narrow && (addr == DMA_STATUS_0 || addr == DMA_MASK_0 || addr == DMA_STATUS_1
            || addr == DMA_MASK_1) {
            Owner::DmaMailbox
        } else if self.sysreg.contains(addr) {
            Owner::Sysreg
        } else {
            Owner::Unmapped
        }
    }

    /// The name of the peripheral that claims an address, if any.
    pub fn peripheral_for(&self, addr: u32) -> (r: Option<&'static str>)
        ensures
            r == (if self@.dev.owner(addr, true) is Unmapped {
                None
            } else {
                Some(self@.dev.owner(addr, true).tag())
            }),
    {
        match self.owner_of(addr, true) {
            Owner::Unmapped => None,
            owner => Some(owner.name()),
        }
    }

    pub(crate) fn peek_register(&self, owner: Owner, addr: u32) -> (r: u32)
        requires
            self.wf(),
            owner is Uart ==> crate::soc::uart::uart_claims(addr),
            owner is Pbc ==> addr >= PBC_BASE,
            owner is BscI2c ==> addr >= 0x0100_0000,
        ensures
            r == self@.dev.peek(owner, addr),
    {
        proof {
            reveal(DevState::peek);
        }
        match owner {
            Owner::Uart => {
                match self.uart.peek_word(addr) {
                    Ok(v) => v,
                    Err(_) => 0,
                }
            },
            Owner::Pbc => self.pbc.peek_word(addr - PBC_BASE),
            Owner::BscI2c => {
                match self.bsc_i2c.peek_word(addr) {
                    Ok(v) => v,
                    Err(_) => 0,
                }
            },
            Owner::LaneBus => {
                if addr == self.mpcp_bus.cmd_addr {
                    self.mpcp_bus.peek_cmd()
                } else if addr == self.mpcp_bus.data_addr {
                    self.mpcp_bus.read_data()
                } else {
                    self.mpcp_bus.peek_stat()
                }
            },
            Owner::Lue => {
                match self.lue.peek_word(addr) {
                    Some(v) => v,
                    None => 0,
                }
            },
            Owner::SerDes => self.serdes.read(addr),
            Owner::TsSync => self.mpcp_tssync.read(addr),
            Owner::EponMac => {
                match self.epon_mac.peek_word(addr) {
                    Ok(v) => v,
                    Err(_) => 0,
                }
            },
            Owner::Timer => self.timer.read(addr),
            Owner::Nco => self.nco.regs.read(addr),
            Owner::MacFilter => self.mac_filter.read(addr),
            _ => 0,
        }
    }

    fn read_uart(&mut self, addr: u32) -> (r: u32)
        requires
            old(self).wf(),
            crate::soc::uart::uart_claims(addr),
        ensures
            final(self).wf(),
            r == old(self)@.dev.uart.word_at(addr),
            final(self)@ == old(self)@.with_dev(
                DevState {
                    uart: old(self)@.dev.uart.after_read_at(addr),
                    ..old(self)@.dev
                },
            ),
    {
        match self.uart.read_word(addr) {
            Ok(v) => v,
            Err(_) => 0,
        }
    }

    fn read_bsc(&mut self, addr: u32) -> (r: u32)
        requires
            old(self).wf(),
            addr >= 0x0100_0000,
        ensures
            final(self).wf(),
            r == old(self)@.dev.bsc.word_at(addr),
            final(self)@ == old(self)@.with_dev(
                DevState {
                    bsc: old(self)@.dev.bsc.after_read(addr),
                    ..old(self)@.dev
                },
            ),
    {
        match self.bsc_i2c.read_word(addr) {
            Ok(v) => v,
            Err(_) => 0,
        }
    }

    fn read_epon(&mut self, addr: u32) -> (r: u32)
        requires
            old(self).wf(),
            old(self)@.dev.readable(Owner::EponMac, addr),
        ensures
            final(self).wf(),
            r == old(self)@.dev.epon.word_at(addr),
            final(self)@ == old(self)@.with_dev(
                DevState {
                    epon: old(self)@.dev.epon.after_read(addr),
                    ..old(self)@.dev
                },
            ),
    {
        match self.epon_mac.read_word(addr) {
            Ok(v) => v,
            Err(_) => 0,
        }
    }

    fn read_macsec(&mut self, addr: u32) -> (r: u32)
        requires
            old(self).wf(),
        ensures
            final(self).wf(),
            r == old(self)@.dev.macsec.word_at(addr),
            final(self)@ == old(self)@.with_dev(
                DevState {
                    macsec: old(self)@.dev.macsec.after_read(addr),
                    ..old(self)@.dev
                },
            ),
    {
        match self.macsec.read_word(addr) {
            Ok(v) => v,
            Err(_) => 0,
        }
    }

    fn read_dma(&mut self, addr: u32) -> (r: u32)
        requires
            old(self).wf(),
            crate::soc::dma::in_dma_range(addr),
        ensures
            final(self).wf(),
            r == old(self)@.dev.dma.word_at(addr),
            final(self)@ == old(self)@.with_dev(
                DevState {
                    dma: old(self)@.dev.dma.after_read(addr),
                    ..old(self)@.dev
                },
            ),
    {
        match self.dma.read_word(addr) {
            Ok(v) => v,
            Err(_) => 0,
        }
    }

    fn read_efuse(&mut self, addr: u32) -> (r: u32)
        requires
            old(self).wf(),
        ensures
            final(self).wf(),
            r == old(self)@.dev.efuse.word_at(addr),
            final(self)@ == old(self)@.with_dev(
                DevState {
                    efuse: old(self)@.dev.efuse.after_read(addr),
                    ..old(self)@.dev
                },
            ),
    {
        match self.efuse_udr.read_word(addr) {
            Ok(v) => v,
            Err(_) => 0,
        }
    }

    fn read_fatal(&mut self, addr: u32) -> (r: u32)
        requires
            old(self).wf(),
        ensures
            final(self).wf(),
            r == old(self)@.dev.fatal.word_at(addr),
            final(self)@ == old(self)@,
    {
        match self.fatal_filter.read_word(addr) {
            Ok(v) => v,
            Err(_) => 0,
        }
    }

    fn read_sysreg(&mut self, addr: u32, width: u32) -> (r: u32)
        requires
            old(self).wf(),
            addr >= old(self)@.dev.sysreg.range.start,
            old(self)@.dev.readable(Owner::Sysreg, addr),
        ensures
            final(self).wf(),
            r == old(self)@.dev.sysreg.word_at(addr),
            final(self)@ == old(self)@.with_dev(old(self)@.dev.sysreg_read(addr, width)),
    {
        proof {
            reveal(DevState::sysreg_read);
        }
        self.sysreg.read_as(addr, width)
    }

    fn read_lane(&mut self, addr: u32) -> (r: u32)
        requires
            old(self).wf(),
        ensures
            final(self).wf(),
            r == crate::soc::devices::lane_word(old(self)@.dev.lane, addr),
            final(self)@ == old(self)@.with_dev(
                DevState {
                    lane: crate::soc::devices::lane_after_read(old(self)@.dev.lane, addr),
                    ..old(self)@.dev
                },
            ),
    {
        if addr == self.mpcp_bus.cmd_addr {
            self.mpcp_bus.read_cmd()
        } else if addr == self.mpcp_bus.data_addr {
            self.mpcp_bus.read_data()
        } else {
            self.mpcp_bus.read_stat()
        }
    }

    pub(crate) fn read_register(&mut self, owner: Owner, addr: u32, width: u32) -> (r: u32)
        requires
            old(self).wf(),
            owner is Uart ==> crate::soc::uart::uart_claims(addr),
            owner is Pbc ==> addr >= PBC_BASE,
            owner is BscI2c ==> addr >= 0x0100_0000,
            owner is Dma ==> crate::soc::dma::in_dma_range(addr),
            owner is Sysreg ==> addr >= old(self)@.dev.sysreg.range.start,
            old(self)@.dev.readable(owner, addr),
        ensures
            final(self).wf(),
            r == old(self)@.dev.word(owner, addr),
            final(self)@ == old(self)@.with_dev(old(self)@.dev.after_read(owner, addr, width)),
    {
        proof {
            reveal(DevState::peek);
            reveal(DevState::word);
            reveal(DevState::after_read);
        }
        match owner {
            Owner::Uart => self.read_uart(addr),
            Owner::BscI2c => self.read_bsc(addr),
            Owner::LaneBus => self.read_lane(addr),
            Owner::EponMac => self.read_epon(addr),
            Owner::Macsec => self.read_macsec(addr),
            Owner::Dma => self.read_dma(addr),
            Owner::Efuse => self.read_efuse(addr),
            Owner::FatalFilter => self.read_fatal(addr),
            Owner::Mpcp => self.mpcp.peek_tx_rate(addr),
            Owner::DmaMailbox => {
                if addr == DMA_STATUS_0 {
                    self.dma_master_status[0]
                } else if addr == DMA_MASK_0 {
                    self.dma_channel_mask[0]
                } else if addr == DMA_STATUS_1 {
                    self.dma_master_status[1]
                } else {
                    self.dma_channel_mask[1]
                }
            },
            Owner::Sysreg => self.read_sysreg(addr, width),
            _ => self.peek_register(owner, addr),
        }
    }

    fn write_pbc(&mut self, addr: u32, val: u32)
        requires
            old(self).wf(),
            addr >= PBC_BASE,
            old(self)@.dev.pbc.accepts((addr - PBC_BASE) as u32, val),
        ensures
            final(self).wf(),
            final(self)@ == old(self)@.with_dev(old(self)@.dev.pbc_written(addr, val)),
    {
        proof {
            reveal(DevState::pbc_written);
        }
        self.pbc.write_word(addr - PBC_BASE, val);
    }

    fn write_bsc(&mut self, addr: u32, val: u32)
        requires
            old(self).wf(),
            addr >= 0x0100_0000,
        ensures
            final(self).wf(),
            final(self)@ == old(self)@.with_dev(old(self)@.dev.bsc_written(addr, val)),
    {
        proof {
            reveal(DevState::bsc_written);
        }
        let _ = self.bsc_i2c.write_word(addr, val);
    }

    fn write_lane(&mut self, addr: u32, val: u32)
        requires
            old(self).wf(),
        ensures
            final(self).wf(),
            final(self)@ == old(self)@.with_dev(old(self)@.dev.lane_written(addr, val)),
    {
        proof {
            reveal(DevState::lane_written);
        }
        if addr == self.mpcp_bus.cmd_addr {
            self.mpcp_bus.write_cmd(val);
            self.mpcp_bus.clear_cmd_bits_now();
        } else if addr == self.mpcp_bus.data_addr {
            self.mpcp_bus.write_data(val);
        } else {
            self.mpcp_bus.write_stat(val);
            self.mpcp_bus.arm_transaction(val);
        }
    }

    fn write_lue(&mut self, addr: u32, val: u32)
        requires
            old(self).wf(),
            old(self)@.dev.lue.can_take(addr, val),
        ensures
            final(self).wf(),
            final(self)@ == old(self)@.with_dev(old(self)@.dev.lue_written(addr, val)),
    {
        proof {
            reveal(DevState::lue_written);
        }
        let _ = self.lue.write_word(addr, val);
    }

    fn write_epon(&mut self, addr: u32, val: u32)
        requires
            old(self).wf(),
        ensures
            final(self).wf(),
            final(self)@ == old(self)@.with_dev(old(self)@.dev.epon_written(addr, val)),
    {
        proof {
            reveal(DevState::epon_written);
        }
        let _ = self.epon_mac.write_word(addr, val);
    }

    fn write_macsec(&mut self, addr: u32, val: u32)
        requires
            old(self).wf(),
        ensures
            final(self).wf(),
            final(self)@ == old(self)@.with_dev(old(self)@.dev.macsec_written(addr, val)),
    {
        proof {
            reveal(DevState::macsec_written);
        }
        let _ = self.macsec.write_word(addr, val);
    }

    fn write_dma(&mut self, addr: u32, val: u32)
        requires
            old(self).wf(),
            crate::soc::dma::in_dma_range(addr),
        ensures
            final(self).wf(),
            final(self)@ == old(self)@.with_dev(old(self)@.dev.dma_written(addr, val)),
    {
        proof {
            reveal(DevState::dma_written);
        }
        let _ = self.dma.write_word(addr, val);
    }

    fn write_efuse(&mut self, addr: u32, val: u32)
        requires
            old(self).wf(),
        ensures
            final(self).wf(),
            final(self)@ == old(self)@.with_dev(old(self)@.dev.efuse_written(addr, val)),
    {
        proof {
            reveal(DevState::efuse_written);
        }
        let _ = self.efuse_udr.write_word(addr, val);
    }

    fn write_mpcp(&mut self, addr: u32, val: u32)
        requires
            old(self).wf(),
        ensures
            final(self).wf(),
            final(self)@ == old(self)@.with_dev(old(self)@.dev.mpcp_written(addr, val)),
    {
        proof {
            reveal(DevState::mpcp_written);
        }
        let _ = self.mpcp.write_word(addr, val);
    }

    fn write_uart(&mut self, addr: u32, val: u32)
        requires
            old(self).wf(),
            crate::soc::uart::uart_claims(addr),
        ensures
            final(self).wf(),
            final(self)@ == old(self)@.with_dev(
                DevState {
                    uart: old(self)@.dev.uart.after_write_at(addr, val),
                    ..old(self)@.dev
                },
            ),
    {
        let _ = self.uart.write_word(addr, val);
    }

    fn write_serdes(&mut self, addr: u32, val: u32)
        requires
            old(self).wf(),
        ensures
            final(self).wf(),
            final(self)@ == old(self)@.with_dev(
                DevState {
                    serdes: old(self)@.dev.serdes.after_write(addr, val),
                    ..old(self)@.dev
                },
            ),
    {
        self.serdes.write(addr, val);
    }

    pub(crate) fn write_tssync(&mut self, addr: u32, val: u32)
        requires
            old(self).wf(),
        ensures
            final(self).wf(),
            final(self)@ == old(self)@.with_dev(
                DevState {
                    tssync: old(self)@.dev.tssync.after_write(addr, val),
                    ..old(self)@.dev
                },
            ),
    {
        self.mpcp_tssync.write(addr, val);
    }

    fn write_timer(&mut self, addr: u32, val: u32)
        requires
            old(self).wf(),
        ensures
            final(self).wf(),
            final(self)@ == old(self)@.with_dev(
                DevState {
                    timer: old(self)@.dev.timer.after_write(addr, val),
                    ..old(self)@.dev
                },
            ),
    {
        self.timer.write(addr, val);
    }

    fn write_mac_filter(&mut self, addr: u32, val: u32)
        requires
            old(self).wf(),
        ensures
            final(self).wf(),
            final(self)@ == old(self)@.with_dev(
                DevState {
                    mac_filter: old(self)@.dev.mac_filter.after_write(addr, val),
                    ..old(self)@.dev
                },
            ),
    {
        self.mac_filter.write(addr, val);
    }

    fn write_nco(&mut self, addr: u32, val: u32)
        requires
            old(self).wf(),
        ensures
            final(self).wf(),
            final(self)@ == old(self)@.with_dev(DevState { nco: NcoState {
                        regs: old(self)@.dev.nco.regs.after_write(addr, val),
                        ..old(self)@.dev.nco
                    }, ..old(self)@.dev }),
    {
        self.nco.regs.write(addr, val);
    }

    fn write_fatal(&mut self, addr: u32, val: u32)
        requires
            old(self).wf(),
        ensures
            final(self).wf(),
            final(self)@ == old(self)@.with_dev(
                DevState {
                    fatal: old(self)@.dev.fatal.after_write(addr, val),
                    ..old(self)@.dev
                },
            ),
    {
        let _ = self.fatal_filter.write_word(addr, val);
    }

    fn write_sysreg(&mut self, addr: u32, val: u32, width: u32)
        requires
            old(self).wf(),
            addr >= old(self)@.dev.sysreg.range.start,
            old(self)@.dev.writable(Owner::Sysreg, addr, val),
        ensures
            final(self).wf(),
            final(self)@ == old(self)@.with_dev(
                old(self)@.dev.sysreg_written(addr, val, width),
            ),
    {
        proof {
            reveal(DevState::sysreg_written);
        }
        self.sysreg.write_as(addr, val, width);
    }

    fn write_dma_mailbox(&mut self, addr: u32, val: u32)
        requires
            old(self).wf(),
        ensures
            final(self).wf(),
            final(self)@ == old(self)@.with_dev(old(self)@.dev.mailbox_written(addr, val)),
    {
        if addr == DMA_STATUS_0 {
            self.dma_master_status[0] = self.dma_master_status[0] & !val;
        } else if addr == DMA_MASK_0 {
            self.dma_channel_mask[0] = val;
        } else if addr == DMA_STATUS_1 {
            self.dma_master_status[1] = self.dma_master_status[1] & !val;
        } else {
            self.dma_channel_mask[1] = val;
        }
    }

    pub(crate) fn write_register(&mut self, owner: Owner, addr: u32, val: u32, width: u32)
        requires
            old(self).wf(),
            owner is Uart ==> crate::soc::uart::uart_claims(addr),
            owner is Pbc ==> addr >= PBC_BASE,
            owner is BscI2c ==> addr >= 0x0100_0000,
            owner is Dma ==> crate::soc::dma::in_dma_range(addr),
            owner is Sysreg ==> addr >= old(self)@.dev.sysreg.range.start,
            old(self)@.dev.writable(owner, addr, val),
        ensures
            final(self).wf(),
            final(self)@ == old(self)@.with_dev(
                old(self)@.dev.register_write(owner, addr, val, width),
            ),
    {
        proof {
            reveal(DevState::register_write);
        }
        match owner {
            Owner::Uart => self.write_uart(addr, val),
            Owner::Pbc => self.write_pbc(addr, val),
            Owner::BscI2c => self.write_bsc(addr, val),
            Owner::LaneBus => self.write_lane(addr, val),
            Owner::Lue => self.write_lue(addr, val),
            Owner::SerDes => self.write_serdes(addr, val),
            Owner::TsSync => self.write_tssync(addr, val),
            Owner::EponMac => self.write_epon(addr, val),
            Owner::Macsec => self.write_macsec(addr, val),
            Owner::Dma => self.write_dma(addr, val),
            Owner::Timer => self.write_timer(addr, val),
            Owner::Efuse => self.write_efuse(addr, val),
            Owner::FatalFilter => self.write_fatal(addr, val),
            Owner::Mpcp => self.write_mpcp(addr, val),
            Owner::Nco => self.write_nco(addr, val),
            Owner::MacFilter => self.write_mac_filter(addr, val),
            Owner::DmaMailbox => self.write_dma_mailbox(addr, val),
            Owner::Sysreg => self.write_sysreg(addr, val, width),
            Owner::Unmapped => {},
        }
    }

    pub(crate) fn push_op(&mut self, op: DatapathOp)
        requires
            old(self).wf(),
        ensures
            final(self).wf(),
            final(self)@ == old(self)@.with_dev(
                DevState { pending: old(self)@.dev.pending.push(op@), ..old(self)@.dev },
            ),
    {
        let ghost before = self.pending_cache_inv@;
        self.pending_cache_inv.push(op);
        assert(crate::soc::peripheral::op_views(self.pending_cache_inv@)
            =~= crate::soc::peripheral::op_views(before).push(op@));
        assert(self@ =~= old(self)@.with_dev(
            DevState { pending: old(self)@.dev.pending.push(op@), ..old(self)@.dev },
        ));
    }

    fn carry_serdes(&mut self, addr: u32, val: u32)
        requires
            old(self).wf(),
        ensures
            final(self).wf(),
            final(self)@ == old(self)@.with_dev(old(self)@.dev.serdes_carried(addr, val)),
    {
        proof {
            reveal(DevState::serdes_carried);
        }
        let before: u32 = self.serdes.read(addr);
        self.serdes.write(addr, val);
        if addr == PON_LANE_CONFIG && (val & BURST_BIT) != 0 && (before & BURST_BIT) == 0 {
            self.olt.handle_mpcp_burst_trigger();
        }
    }

    fn carry_epon(&mut self, addr: u32, val: u32) -> (r: u32)
        requires
            old(self).wf(),
        ensures
            final(self).wf(),
            final(self)@ == old(self)@.with_dev(old(self)@.dev.epon_carried(addr, val)),
            r == old(self)@.dev.logged(Owner::EponMac, addr, val),
    {
        proof {
            reveal(DevState::epon_carried);
        }
        if !self.olt.idle && (addr == LLID_MATCH_1G || addr == LLID_MATCH_10G) && val != 0 {
            let forced: u32 = (val & 0xFFFF_0000) | self.olt.assigned_llid as u32;
            self.epon_mac.poke_table_store(addr, forced);
            forced
        } else {
            self.write_epon(addr, val);
            val
        }
    }

    fn carry_efuse(&mut self, addr: u32, val: u32)
        requires
            old(self).wf(),
        ensures
            final(self).wf(),
            final(self)@ == old(self)@.with_dev(old(self)@.dev.efuse_carried(addr, val)),
    {
        proof {
            reveal(DevState::efuse_carried);
        }
        if addr == REG_I2C_UDR_CLK_RESET {
            proof {
                crate::bits::lemma_field_bounds(val >> 12);
            }
            self.mpcp_bus.set_page(((val >> 12) & 3) as usize);
        }
        let _ = self.efuse_udr.write_word(addr, val);
    }

    fn carry_lane(&mut self, addr: u32, val: u32)
        requires
            old(self).wf(),
        ensures
            final(self).wf(),
            final(self)@ == old(self)@.with_dev(old(self)@.dev.lane_carried(addr, val)),
    {
        proof {
            reveal(DevState::lane_carried);
            reveal(DevState::lane_written);
        }
        let command: bool = addr == self.mpcp_bus.cmd_addr;
        self.write_lane(addr, val);
        if command {
            self.push_op(DatapathOp::CacheInvalidate { addr });
        }
    }

    /// Write a word and carry across what it means to other peripherals. Gives
    /// back the value to log.
    fn write_routed(&mut self, owner: Owner, addr: u32, val: u32) -> (r: u32)
        requires
            old(self).wf(),
            owner == old(self)@.dev.owner(addr, false),
            old(self)@.dev.writable(owner, addr, val),
        ensures
            final(self).wf(),
            final(self)@ == old(self)@.with_dev(old(self)@.dev.after_write(owner, addr, val)),
            r == old(self)@.dev.logged(owner, addr, val),
    {
        proof {
            reveal(DevState::after_write);
            crate::soc::devices::lemma_owner_claims(self@.dev, addr, false);
        }
        match owner {
            Owner::SerDes => {
                self.carry_serdes(addr, val);
                val
            },
            Owner::EponMac => self.carry_epon(addr, val),
            Owner::Efuse => {
                self.carry_efuse(addr, val);
                val
            },
            Owner::LaneBus => {
                self.carry_lane(addr, val);
                val
            },
            _ => {
                self.write_register(owner, addr, val, 4);
                val
            },
        }
    }

    /// A side-effect-free look at an address.
    pub fn peek_word(&self, addr: u32) -> (r: Result<u32, Exception>)
        requires
            self.wf(),
        ensures
            r == Ok::<u32, Exception>(self@.peek(addr)),
    {
        if let Some(v) = self.scenario.overrides.peek_read(addr) {
            return Ok(v);
        }
        proof {
            crate::soc::devices::lemma_owner_claims(self@.dev, addr, false);
        }
        let owner = self.owner_of(addr, false);
        Ok(self.peek_register(owner, addr))
    }

    pub(crate) fn take_override(&mut self, addr: u32) -> (r: Option<u32>)
        requires
            old(self).wf(),
        ensures
            final(self).wf(),
            r == crate::soc::scenario::override_answer(old(self)@.dev.scenario.overrides, addr),
            final(self)@ == old(self)@.after_override_read(addr),
    {
        self.scenario.overrides.try_read(addr)
    }

    pub(crate) fn log_read(&mut self, addr: u32, val: u32, tag: &'static str)
        requires
            old(self).wf(),
        ensures
            final(self).wf(),
            final(self)@ == old(self)@.with_log(old(self)@.log.after_word_read(addr, val, tag)),
    {
        self.log.record_word_read(addr, val, tag);
    }

    pub(crate) fn log_write(&mut self, addr: u32, val: u32, tag: &'static str)
        requires
            old(self).wf(),
        ensures
            final(self).wf(),
            final(self)@ == old(self)@.with_log(old(self)@.log.after_word_write(addr, val, tag)),
    {
        self.log.record_word_write(addr, val, tag);
    }

    pub(crate) fn emit(&mut self, addr: u32, val: u32, rw: &str, width: &str, tag: &str)
        requires
            old(self).wf(),
        ensures
            final(self).wf(),
            final(self)@ == old(self)@.with_log(
                old(self)@.log.after_emit(addr, val, rw@, width@, tag@),
            ),
    {
        self.log.seq_emit(addr, val, rw, width, tag);
    }

    /// The frame mailbox lies inside the MAC's window, and its words are given
    /// once, so it is looked at before the MAC.
    fn take_mailbox(&mut self, addr: u32) -> (r: Option<u32>)
        requires
            old(self).wf(),
        ensures
            final(self).wf(),
            r == old(self)@.dev.olt.mailbox_word(addr),
            final(self)@ == (match r {
                Some(v) => old(self)@.after_mailbox_read(addr, v),
                None => old(self)@,
            }),
    {
        if let Some(v) = self.olt.read_cmd_status(addr) {
            self.log.record_word_read(addr, v, "olt_status");
            return Some(v);
        }
        if let Some(v) = self.olt.read_data(addr) {
            self.log.record_word_read(addr, v, "olt_data");
            return Some(v);
        }
        None
    }

    fn read_word_inner(&mut self, addr: u32) -> (r: Result<u32, Exception>)
        requires
            old(self).wf(),
            old(self)@.can_read(addr),
        ensures
            final(self).wf(),
            r == old(self)@.read_result(addr),
            final(self)@ == old(self)@.after_routed_read(addr),
    {
        proof {
            reveal(BankState::can_read);
            reveal(BankState::read_result);
            reveal(BankState::after_routed_read);
        }
        if let Some(v) = self.take_override(addr) {
            self.log_read(addr, v, "override");
            return Ok(v);
        }
        if let Some(v) = self.take_mailbox(addr) {
            return Ok(v);
        }
        let owner = self.owner_of(addr, false);
        proof {
            crate::soc::devices::lemma_owner_claims(self@.dev, addr, false);
        }
        if let Owner::Unmapped = owner {
            self.emit(addr, 0, "r", "word", "unmapped");
            if self.unmapped_exception {
                return Err(Exception::MemoryError { address: addr, is_write: false });
            }
            return Ok(0);
        }
        let v: u32 = self.read_register(owner, addr, 4);
        self.log_read(addr, v, owner.name());
        Ok(v)
    }

    /// Let the overrides and the far end take part in a write.
    fn offer_write(&mut self, addr: u32, val: u32) -> (r: u32)
        requires
            old(self).wf(),
        ensures
            final(self).wf(),
            r == old(self)@.masked(addr, val),
            final(self)@ == old(self)@.offered(addr, val),
    {
        match self.scenario.overrides.filter_write(addr, val) {
            Some(masked) => {
                self.log.record_word_write(addr, masked, "override-mask");
                self.olt.observe_write(addr, masked);
                masked
            },
            None => {
                self.olt.observe_write(addr, val);
                val
            },
        }
    }

    /// Put the queue bitmaps where software reads them.
    pub(crate) fn poke_bitmaps(&mut self)
        requires
            old(self).wf(),
        ensures
            final(self).wf(),
            final(self)@ == old(self)@.with_dev(
                DevState {
                    epon: crate::soc::devices::bitmaps_poked(
                        old(self)@.dev.epon,
                        old(self)@.dev.olt.bitmap(),
                        6,
                    ),
                    ..old(self)@.dev
                },
            ),
    {
        let bitmap: [u32; 6] = self.olt.mailbox_bitmap();
        for wi in 0..6u32
            invariant
                self.wf(),
                bitmap@ == old(self)@.dev.olt.bitmap(),
                bitmap@.len() == 6,
                self@ == old(self)@.with_dev(
                    DevState {
                        epon: crate::soc::devices::bitmaps_poked(
                            old(self)@.dev.epon,
                            bitmap@,
                            wi as nat,
                        ),
                        ..old(self)@.dev
                    },
                ),
        {
            self.poke_bitmap(BITMAP_BASE + wi * 0x200, bitmap[wi as usize]);
        }
    }

    pub(crate) fn poke_bitmap(&mut self, addr: u32, val: u32)
        requires
            old(self).wf(),
            crate::soc::epon_mac::in_llid_window(addr),
        ensures
            final(self).wf(),
            final(self)@ == old(self)@.with_dev(
                DevState {
                    epon: EponRegs {
                        llid: old(self)@.dev.epon.llid.update(
                            crate::soc::epon_mac::llid_word(addr),
                            val,
                        ),
                        ..old(self)@.dev.epon
                    },
                    ..old(self)@.dev
                },
            ),
    {
        self.epon_mac.poke_llid_store(addr, val);
    }

    /// Take a mailbox command, where the address is one's.
    fn take_command(&mut self, addr: u32, val: u32) -> (r: bool)
        requires
            old(self).wf(),
        ensures
            final(self).wf(),
            r == old(self)@.dev.olt.is_command(addr),
            final(self)@ == (if r {
                old(self)@.with_dev(
                    DevState { olt: old(self)@.dev.olt.after_command(val), ..old(self)@.dev },
                )
            } else {
                old(self)@
            }),
    {
        self.olt.write_cmd(addr, val)
    }

    fn write_word_inner(&mut self, addr: u32, val: u32) -> (r: Result<(), Exception>)
        requires
            old(self).wf(),
            old(self)@.can_write(addr, val),
        ensures
            final(self).wf(),
            r == old(self)@.write_result(addr, val),
            final(self)@ == old(self)@.after_routed_write(addr, val),
    {
        proof {
            reveal(BankState::can_write);
            reveal(BankState::write_result);
            reveal(BankState::after_routed_write);
        }
        let v: u32 = self.offer_write(addr, val);
        if self.take_command(addr, v) {
            self.poke_bitmaps();
            self.log_write(addr, v, "olt_cmd");
            return Ok(());
        }
        let owner = self.owner_of(addr, false);
        if let Owner::Unmapped = owner {
            self.emit(addr, v, "w", "word", "unmapped");
            if self.unmapped_exception {
                return Err(Exception::MemoryError { address: addr, is_write: true });
            }
            return Ok(());
        }
        let shown: u32 = self.write_routed(owner, addr, v);
        self.log_write(addr, shown, owner.name());
        Ok(())
    }

    fn take_deferred(&mut self) -> (r: Vec<DeferredWrite>)
        requires
            old(self).wf(),
        ensures
            final(self).wf(),
            r@ == old(self)@.dev.scenario.deferred,
            final(self)@ == old(self)@.undeferred(),
    {
        self.scenario.take_deferred_writes()
    }

    /// Carry out the writes scenario effects have queued.
    fn drain_scenario_deferred(&mut self)
        requires
            old(self).wf(),
            old(self)@.can_drain(),
        ensures
            final(self).wf(),
            final(self)@ == old(self)@.drained(),
    {
        let writes = self.take_deferred();
        let n: usize = writes.len();
        let ghost start = self@;
        assert(writes@.take(0) =~= Seq::<DeferredWrite>::empty());
        assert(writes@.take(n as int) =~= writes@);
        for i in 0..n
            invariant
                n == writes@.len(),
                self.wf(),
                start.can_defer(writes@),
                self@ == start.after_deferred(writes@.take(i as int)),
        {
            proof {
                lemma_can_defer_prefix(start, writes@, i + 1);
                assert(writes@.take(i + 1).drop_last() =~= writes@.take(i as int));
                assert(writes@.take(i + 1).last() == writes@[i as int]);
            }
            let _ = self.write_word_inner(writes[i].address, writes[i].value);
        }
    }

    fn remember(&mut self, addr: u32, val: u32, direction: &'static str)
        requires
            old(self).wf(),
        ensures
            final(self).wf(),
            final(self)@ == old(self)@.with_log(
                old(self)@.log.after_remembering(addr, val, direction),
            ),
    {
        self.log.record_last_access(addr, val, direction);
    }

    /// Let the events and watchpoints see an access.
    fn notice(&mut self, is_write: bool, addr: u32, val: u32)
        requires
            old(self).wf(),
        ensures
            final(self).wf(),
            final(self)@ == old(self)@.noticed(is_write, addr, val),
    {
        if is_write {
            self.scenario.on_mmio_write(addr, val);
        } else {
            self.scenario.on_mmio_read(addr, val);
        }
    }

    /// Read a word and let the events and watchpoints see it.
    fn begin_read(&mut self, addr: u32) -> (r: Result<u32, Exception>)
        requires
            old(self).wf(),
            old(self)@.can_read(addr),
        ensures
            final(self).wf(),
            r == old(self)@.read_result(addr),
            final(self)@ == old(self)@.after_read(addr),
    {
        let result = self.read_word_inner(addr);
        let value: u32 = match result {
            Ok(v) => v,
            Err(_) => 0,
        };
        if result.is_ok() {
            self.remember(addr, value, "read");
        }
        self.notice(false, addr, value);
        result
    }

    /// Write a word and let the events and watchpoints see it.
    fn begin_write(&mut self, addr: u32, val: u32) -> (r: Result<(), Exception>)
        requires
            old(self).wf(),
            old(self)@.can_write(addr, val),
        ensures
            final(self).wf(),
            r == old(self)@.write_result(addr, val),
            final(self)@ == old(self)@.after_write(addr, val),
    {
        let result = self.write_word_inner(addr, val);
        if let Ok(_) = result {
            self.remember(addr, val, "write");
        }
        self.notice(true, addr, val);
        result
    }

    /// Read a word, then carry out what scenario effects have queued.
    pub fn read_word(&mut self, addr: u32) -> (r: Result<u32, Exception>)
        requires
            old(self).wf(),
            old(self)@.can_read(addr),
            old(self)@.after_read(addr).can_drain(),
        ensures
            final(self).wf(),
            r == old(self)@.read_result(addr),
            final(self)@ == old(self)@.after_read(addr).drained(),
    {
        let result = self.begin_read(addr);
        self.drain_scenario_deferred();
        result
    }

    /// Write a word, then carry out what scenario effects have queued.
    pub fn write_word(&mut self, addr: u32, val: u32) -> (r: Result<(), Exception>)
        requires
            old(self).wf(),
            old(self)@.can_write(addr, val),
            old(self)@.after_write(addr, val).can_drain(),
        ensures
            final(self).wf(),
            r == old(self)@.write_result(addr, val),
            final(self)@ == old(self)@.after_write(addr, val).drained(),
    {
        let result = self.begin_write(addr, val);
        self.drain_scenario_deferred();
        result
    }
}

proof fn lemma_can_defer_prefix(start: BankState, writes: Seq<DeferredWrite>, n: int)
    requires
        0 <= n <= writes.len(),
        start.can_defer(writes),
    ensures
        start.can_defer(writes.take(n)),
    decreases writes.len() - n,
{
    if n == writes.len() {
        assert(writes.take(n) =~= writes);
    } else {
        lemma_can_defer_prefix(start, writes, n + 1);
        assert(writes.take(n + 1).drop_last() =~= writes.take(n));
    }
}

/// A word read that no override and no mailbox answers gives what the owner of
/// the address holds. One that nobody owns fails where that is asked for, and
/// gives zero otherwise.
pub proof fn law_reads_go_to_the_owner(b: BankState, addr: u32)
    requires
        crate::soc::scenario::override_answer(b.dev.scenario.overrides, addr) is None,
        crate::soc::scenario::overrides_after_read(b.dev.scenario.overrides, addr)
            == b.dev.scenario.overrides,
        b.dev.olt.mailbox_word(addr) is None,
    ensures
        ({
            let owner = b.dev.owner(addr, false);
            &&& !(owner is Unmapped) ==> b.read_result(addr) == Ok::<u32, Exception>(
                b.dev.word(owner, addr),
            )
            &&& !(owner is Unmapped) ==> b.after_routed_read(addr).dev == b.dev.after_read(
                owner,
                addr,
                4,
            )
            &&& owner is Unmapped && b.unmapped_exception ==> b.read_result(addr) == Err::<
                u32,
                Exception,
            >(Exception::MemoryError { address: addr, is_write: false })
            &&& owner is Unmapped && !b.unmapped_exception ==> b.read_result(addr) == Ok::<
                u32,
                Exception,
            >(0)
            &&& owner is Unmapped ==> b.after_routed_read(addr).dev == b.dev
        }),
{
    reveal(BankState::read_result);
    reveal(BankState::after_routed_read);
    assert(b.after_override_read(addr).dev == b.dev);
}

/// The mailbox of the link answers before the registers do, and moves on; the
/// registers do not see the read.
pub proof fn law_mailbox_answers_before_registers(b: BankState, addr: u32, word: u32)
    requires
        crate::soc::scenario::override_answer(b.dev.scenario.overrides, addr) is None,
        b.dev.olt.mailbox_word(addr) == Some(word),
    ensures
        b.read_result(addr) == Ok::<u32, Exception>(word),
        b.after_routed_read(addr).dev.olt == b.dev.olt.after_mailbox_read(addr),
        b.after_routed_read(addr).dev.epon == b.dev.epon,
        b.after_routed_read(addr).dev.uart == b.dev.uart,
        b.after_routed_read(addr).dev.sysreg == b.dev.sysreg,
{
    reveal(BankState::read_result);
    reveal(BankState::after_routed_read);
}

/// A word write that no mask takes part in and that is no mailbox command
/// reaches the owner of the address, with the value as it was written. One that
/// nobody owns fails where that is asked for, and changes no register.
pub proof fn law_writes_go_to_the_owner(b: BankState, addr: u32, val: u32)
    requires
        crate::soc::scenario::masked_write(b.dev.scenario.overrides, addr, val) is None,
        !b.dev.olt.is_command(addr),
    ensures
        ({
            let seen = DevState { olt: b.dev.olt.after_observing(addr, val), ..b.dev };
            let owner = b.dev.owner(addr, false);
            &&& !(owner is Unmapped) ==> b.write_result(addr, val) is Ok
            &&& !(owner is Unmapped) ==> b.after_routed_write(addr, val).dev == seen.after_write(
                owner,
                addr,
                val,
            )
            &&& owner is Unmapped ==> b.after_routed_write(addr, val).dev == seen
            &&& owner is Unmapped && b.unmapped_exception ==> b.write_result(addr, val) == Err::<
                (),
                Exception,
            >(Exception::MemoryError { address: addr, is_write: true })
            &&& owner is Unmapped && !b.unmapped_exception ==> b.write_result(addr, val) is Ok
        }),
{
    reveal(BankState::write_result);
    reveal(BankState::after_routed_write);
    reveal(DevState::owner);
}

/// A masked write loses the bits of the mask before anyone sees it.
pub proof fn law_masked_writes_arrive_masked(b: BankState, addr: u32, val: u32, left: u32)
    requires
        crate::soc::scenario::masked_write(b.dev.scenario.overrides, addr, val) == Some(left),
        !b.dev.olt.is_command(addr),
        !(b.dev.owner(addr, false) is Unmapped),
    ensures
        ({
            let seen = DevState { olt: b.dev.olt.after_observing(addr, left), ..b.dev };
            b.after_routed_write(addr, val).dev == seen.after_write(
                b.dev.owner(addr, false),
                addr,
                left,
            )
        }),
{
    reveal(BankState::after_routed_write);
    reveal(DevState::owner);
}

/// A mailbox command goes to the link and to no register, and the queue bitmaps
/// follow at once.
pub proof fn law_mailbox_command_goes_to_the_link(b: BankState, addr: u32, val: u32)
    requires
        crate::soc::scenario::masked_write(b.dev.scenario.overrides, addr, val) is None,
        b.dev.olt.is_command(addr),
    ensures
        ({
            let after = b.after_routed_write(addr, val);
            let link = b.dev.olt.after_observing(addr, val).after_command(val);
            &&& b.write_result(addr, val) is Ok
            &&& after.dev.olt == link
            &&& after.dev.epon == crate::soc::devices::bitmaps_poked(
                b.dev.epon,
                crate::soc::olt::bitmap_of(link.queued),
                6,
            )
            &&& after.dev.sysreg == b.dev.sysreg && after.dev.macsec == b.dev.macsec
                && after.dev.dma == b.dev.dma && after.dev.mpcp == b.dev.mpcp
        }),
{
    reveal(BankState::write_result);
    reveal(BankState::after_routed_write);
}

/// Queued writes go through one after the other, in the order they were queued.
pub proof fn law_queued_writes_go_through_in_order(
    b: BankState,
    first: Seq<DeferredWrite>,
    rest: Seq<DeferredWrite>,
    w: DeferredWrite,
)
    ensures
        b.after_deferred(first + rest) == b.after_deferred(first).after_deferred(rest),
        b.after_deferred(seq![w]) == b.after_routed_write(w.address, w.value),
        b.after_deferred(Seq::empty()) == b,
        b.undeferred().dev.scenario.deferred.len() == 0,
        b.drained() == b.undeferred().after_deferred(b.dev.scenario.deferred),
    decreases rest.len(),
{
    assert(seq![w].drop_last() =~= Seq::<DeferredWrite>::empty());
    if rest.len() == 0 {
        assert(first + rest =~= first);
    } else {
        law_queued_writes_go_through_in_order(b, first, rest.drop_last(), w);
        assert((first + rest).drop_last() =~= first + rest.drop_last());
        assert((first + rest).last() == rest.last());
    }
}

/// A read that went through is the last access of its address, with the value it
/// gave; so is a write, with the value that was written.
pub proof fn law_accesses_are_remembered(b: BankState, addr: u32, val: u32)
    requires
        b.log.last.len() <= 4096,
    ensures
        b.read_result(addr) matches Ok(v) ==> ({
            let info = crate::soc::access_log::record_of(b.after_read(addr).log.last, addr);
            info is Some && (info->0).value == v && (info->0).direction == "read"
        }),
        b.write_result(addr, val) is Ok ==> ({
            let info = crate::soc::access_log::record_of(b.after_write(addr, val).log.last, addr);
            info is Some && (info->0).value == val && (info->0).direction == "write"
        }),
{
    assert(b.after_routed_read(addr).log.last == b.log.last && b.after_routed_write(
        addr,
        val,
    ).log.last == b.log.last) by {
        reveal(BankState::after_routed_read);
        reveal(BankState::after_routed_write);
        reveal(LogState::after_word_read);
        reveal(LogState::after_word_write);
        reveal(LogState::after_history);
        reveal(LogState::after_emit);
    }
    if let Ok(v) = b.read_result(addr) {
        crate::soc::access_log::law_record_tells_the_access(
            b.after_routed_read(addr).log,
            addr,
            v,
            "read",
        );
    }
    crate::soc::access_log::law_record_tells_the_access(
        b.after_routed_write(addr, val).log,
        addr,
        val,
        "write",
    );
}

} // verus!
