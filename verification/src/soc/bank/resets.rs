//! How the bank starts, resets and hands its state over.

use std::collections::HashMap;

use vstd::prelude::*;

use super::{BankState, BootMode, PeripheralBank};
use crate::peripherals::pbc::{PbcState, PeripheralBusController};
use crate::soc::access_log::{
    AccessLog, LogState, DEFAULT_AUX_WRITE_HISTORY_SIZE, DEFAULT_MMIO_HISTORY_SIZE,
};
use crate::soc::alarm_events::AlarmEvents;
use crate::soc::bsc_i2c::{BscI2c, BscState};
use crate::soc::default_store::{DefaultRegisterStore, StoreState};
use crate::soc::devices::{
    DevState, LANE_BUS_BASE, LANE_BUS_TICKS, SYSREG_END, SYSREG_START,
};
use crate::soc::dma::{DmaChannelController, DmaState};
use crate::soc::efuse_udr::{EfuseState, EfuseUdr};
use crate::soc::epon_mac::{EponMac, EponRegs};
use crate::soc::fatal_filter::FatalFilter;
use crate::soc::lane_bus::{BusState, CalState, LaneBus, LaneState, DEFAULT_CAL_READS_TO_DONE};
use crate::soc::lue::{ClassifierBinding, Lue, LueState};
use crate::soc::macsec::{Macsec, MacsecState};
use crate::soc::mmio_init::sysreg_init_values;
use crate::soc::mpcp::{Mpcp, MpcpState};
use crate::soc::nco::{Nco, NcoState};
use crate::soc::olt::{OltLink, OltState};
use crate::soc::peripheral::{AddressRange, DatapathOp, OpView};
use crate::soc::scenario::{ScenarioEngine, ScenarioState};
use crate::soc::sfp_eeprom::SfpState;
use crate::soc::uart::{Uart, UartState};
use crate::soc::window::{RegisterWindow, WindowState};

verus! {

/// A window nothing has been written to.
pub open spec fn empty_window(ranges: Seq<AddressRange>) -> WindowState {
    WindowState { ranges, words: Map::empty() }
}

/// The flash controller, the serial port and the two buses after a reset.
pub open spec fn front_reset(d: DevState) -> DevState {
    DevState {
        uart: UartState::cleared(d.uart.irq_mask),
        pbc: d.pbc.registers_cleared(),
        bsc: BscState::cleared(SfpState::placeholder()),
        lane: d.lane.after_reset().powered_on(crate::soc::mmio_init::power_on_table()),
        ..d
    }
}

/// The link side after a reset. A warm one puts the power-on words back in.
pub open spec fn link_reset(d: DevState, warm: bool) -> DevState {
    let table = crate::soc::mmio_init::power_on_table();
    let macsec = MacsecState::cleared(d.macsec.trace);
    let dma = DmaState::cleared(d.dma.trace);
    DevState {
        serdes: d.serdes.cleared(),
        rx_los: 0,
        epon: EponRegs::cleared(d.epon.trace).powered_on(table),
        macsec: if warm {
            macsec.powered_on(table)
        } else {
            macsec
        },
        dma: if warm {
            dma.powered_on(table)
        } else {
            dma
        },
        ..d
    }
}

/// The tables and the slow registers after a reset.
pub open spec fn table_reset(d: DevState, warm: bool) -> DevState {
    let table = crate::soc::mmio_init::power_on_table();
    DevState {
        alarm: Seq::empty(),
        timer: d.timer.cleared(),
        lue: LueState::cleared(),
        efuse: if warm {
            d.efuse.cleared().powered_on(table)
        } else {
            d.efuse.cleared()
        },
        fatal: FatalFilter::cleared(d.fatal.trace).powered_on(table),
        ..d
    }
}

/// The timestamps, the far end and the rest of the system range after a reset.
pub open spec fn sync_reset(d: DevState, warm: bool) -> DevState {
    let table = crate::soc::mmio_init::power_on_table();
    DevState {
        mpcp: MpcpState::cleared(d.mpcp.trace).powered_on(table),
        tssync: d.tssync.cleared(),
        nco: d.nco.cleared(),
        mac_filter: d.mac_filter.cleared(),
        olt: d.olt.after_reset(),
        sysreg: if warm {
            d.sysreg.cleared().loaded(table)
        } else {
            d.sysreg.cleared()
        },
        nco_tx_ts: 0,
        ..d
    }
}

impl DevState {
    /// The peripherals after a reset. What outside stimulus was set up, what
    /// work is pending and the DMA mailbox are not theirs.
    #[verifier::opaque]
    pub open spec fn after_reset(self, warm: bool) -> DevState {
        sync_reset(table_reset(link_reset(front_reset(self), warm), warm), warm)
    }
}

impl BankState {
    /// The bank as it is put together, before its first reset.
    pub open spec fn assembled(boot_mode: BootMode) -> BankState {
        BankState {
            dev: DevState {
                uart: UartState::cleared(0),
                pbc: PbcState::fresh(),
                bsc: BscState::cleared(SfpState::placeholder()),
                lane: LaneState {
                    cmd_addr: 0x0100_0160,
                    data_addr: 0x0100_016C,
                    stat_addr: 0x0100_0170,
                    cmd: 0,
                    data: 0,
                    stat: 0,
                    state: BusState::Idle,
                    busy_counter: 0,
                    busy_ticks: LANE_BUS_TICKS,
                    pending_clear: 0,
                    regs: Seq::new(512, |i: int| 0u32),
                    lane: Seq::new(1024, |i: int| 0u8),
                    page: 0,
                    cal: Seq::new(8, |i: int| CalState::Idle),
                    reads_to_done: DEFAULT_CAL_READS_TO_DONE,
                    immediate: false,
                },
                lue: LueState::cleared(),
                use_classifier: false,
                binding: ClassifierBinding { instance: 1, table: 8 },
                serdes: empty_window(crate::soc::devices::serdes_ranges()),
                rx_los: 0,
                tssync: empty_window(crate::soc::devices::tssync_ranges()),
                epon: EponRegs::cleared(false).powered_on(
                    crate::soc::mmio_init::power_on_table(),
                ),
                macsec: MacsecState::cleared(false),
                dma: DmaState::cleared(false),
                alarm: Seq::empty(),
                alarm_trace: false,
                timer: empty_window(crate::soc::devices::timer_ranges()),
                efuse: EfuseState {
                    clk_reset: 0,
                    sda: 0,
                    scl: 0,
                    clk_reset_clear: 0,
                    sda_clear: 0,
                    scl_clear: 0,
                    clock_toggles: 0,
                    image: crate::soc::efuse_udr::full_image(Seq::empty()),
                    trace: false,
                },
                fatal: FatalFilter::cleared(false),
                mpcp: MpcpState::cleared(false),
                nco: NcoState {
                    regs: empty_window(Seq::empty()),
                    channels: Seq::new(32, |i: int| 0u32),
                },
                mac_filter: empty_window(Seq::empty()),
                olt: OltState::absent(),
                scenario: ScenarioState::nothing(),
                sysreg: StoreState {
                    range: AddressRange { start: SYSREG_START, end: SYSREG_END },
                    words: Seq::new(0xE00, |i: int| 0u32),
                    trace: Some(Map::empty()),
                    pc: 0,
                    insn: 0,
                },
                pending: Seq::empty(),
                dma_status: seq![0u32, 0u32],
                dma_mask: seq![0u32, 0u32],
                guard_countdown: 0,
                nco_tx_ts: 0,
            },
            log: LogState {
                pc: 0,
                blink: 0,
                insn: 0,
                di: false,
                history: Seq::empty(),
                history_max: DEFAULT_MMIO_HISTORY_SIZE as int,
                aux: Seq::empty(),
                aux_max: DEFAULT_AUX_WRITE_HISTORY_SIZE as int,
                last: Seq::empty(),
                seq_trace: None,
            },
            irq: 0,
            rx_channel: Seq::empty(),
            boot_mode,
            unmapped_exception: false,
            trace: false,
            mmio_trace: None,
            mmio_summaries: Map::empty(),
        }
    }

    /// The bank a boot starts with.
    pub open spec fn fresh(boot_mode: BootMode) -> BankState {
        match boot_mode {
            BootMode::Cold => BankState::assembled(boot_mode).after_cold_reset(),
            BootMode::Warm => BankState::assembled(boot_mode).after_warm_reset(),
        }
    }

    /// The bank after a cold reset.
    pub open spec fn after_cold_reset(self) -> BankState {
        BankState {
            dev: DevState {
                dma_status: seq![0u32, 0u32],
                dma_mask: seq![0u32, 0u32],
                ..self.dev.after_reset(false)
            },
            irq: 0,
            log: LogState { pc: 0, blink: 0, insn: 0, di: false, ..self.log },
            ..self
        }
    }

    /// The bank after a warm reset: a cold one, with the power-on words of a
    /// finished boot on top.
    pub open spec fn after_warm_reset(self) -> BankState {
        BankState {
            dev: DevState {
                dma_status: seq![0u32, 0u32],
                dma_mask: seq![0u32, 0u32],
                ..self.dev.after_reset(true)
            },
            irq: 0,
            log: LogState { pc: 0, blink: 0, insn: 0, di: false, ..self.log },
            ..self
        }
    }
}

proof fn lemma_lane_keeps_its_place(lane: LaneState, table: Seq<(u32, u32)>)
    ensures
        lane.powered_on(table).cmd_addr == lane.cmd_addr,
        lane.powered_on(table).data_addr == lane.data_addr,
        lane.powered_on(table).stat_addr == lane.stat_addr,
    decreases table.len(),
{
    if table.len() > 0 {
        lemma_lane_keeps_its_place(lane, table.drop_last());
    }
}

proof fn lemma_loading_keeps_the_range(s: StoreState, table: Seq<(u32, u32)>)
    ensures
        s.loaded(table).range == s.range,
        s.loaded(table).trace == s.trace,
    decreases table.len(),
{
    if table.len() > 0 {
        lemma_loading_keeps_the_range(s, table.drop_last());
    }
}

fn serdes_window() -> (r: RegisterWindow)
    ensures
        r@ == empty_window(crate::soc::devices::serdes_ranges()),
{
    let ranges: Vec<AddressRange> = vec![
        AddressRange::new(0x0100_0180, 0x0100_01F0),
        AddressRange::new(0x224A_0000, 0x224A_0800),
    ];
    assert(ranges@ =~= crate::soc::devices::serdes_ranges());
    RegisterWindow::new(ranges)
}

fn timer_window() -> (r: RegisterWindow)
    ensures
        r@ == empty_window(crate::soc::devices::timer_ranges()),
{
    let ranges: Vec<AddressRange> = vec![AddressRange::new(0x0100_0050, 0x0100_0054)];
    assert(ranges@ =~= crate::soc::devices::timer_ranges());
    RegisterWindow::new(ranges)
}

fn tssync_window() -> (r: RegisterWindow)
    ensures
        r@ == empty_window(crate::soc::devices::tssync_ranges()),
{
    let ranges: Vec<AddressRange> = vec![
        AddressRange::new(0x0100_00B4, 0x0100_00B8),
        AddressRange::new(0x0100_0300, 0x0100_0308),
        AddressRange::new(0x0100_0314, 0x0100_0320),
        AddressRange::new(0x0100_0D88, 0x0100_0D90),
    ];
    assert(ranges@ =~= crate::soc::devices::tssync_ranges());
    RegisterWindow::new(ranges)
}

/// The rest of the system range, its accesses tallied from the start.
fn residual_store() -> (r: DefaultRegisterStore)
    ensures
        r@ == (StoreState {
            range: AddressRange { start: SYSREG_START, end: SYSREG_END },
            words: Seq::new(0xE00, |i: int| 0u32),
            trace: Some(Map::empty()),
            pc: 0,
            insn: 0,
        }),
{
    let mut store = DefaultRegisterStore::new(AddressRange::new(SYSREG_START, SYSREG_END));
    store.trace = Some(HashMap::new());
    store
}

impl PeripheralBank {
    /// Put the bank together.
    fn assemble(boot_mode: BootMode) -> (r: Self)
        ensures
            r.wf(),
            r@ == BankState::assembled(boot_mode),
    {
        let pending: Vec<DatapathOp> = Vec::new();
        assert(crate::soc::peripheral::op_views(pending@) =~= Seq::<OpView>::empty());
        let status: [u32; 2] = [0u32; 2];
        assert(status@ =~= seq![0u32, 0u32]);
        proof {
            crate::bits::lemma_round_down(SYSREG_START);
        }
        PeripheralBank {
            uart: Uart::new(),
            pbc: PeripheralBusController::new(),
            bsc_i2c: BscI2c::new(),
            mpcp_bus: LaneBus::new(LANE_BUS_BASE, LANE_BUS_TICKS),
            lue: Lue::new(),
            use_classifier: false,
            classifier_binding: ClassifierBinding::default(),
            serdes: serdes_window(),
            serdes_rx_los: 0,
            epon_mac: EponMac::new(),
            macsec: Macsec::new(),
            dma: DmaChannelController::new(),
            alarm_events: AlarmEvents::new(),
            timer: timer_window(),
            efuse_udr: EfuseUdr::new(),
            fatal_filter: FatalFilter::new(),
            mpcp: Mpcp::new(),
            mpcp_tssync: tssync_window(),
            nco: Nco::new(RegisterWindow::new(Vec::new())),
            mac_filter: RegisterWindow::new(Vec::new()),
            olt: OltLink::new(),
            nco_tx_ts_counter: 0,
            pending_cache_inv: pending,
            scenario: ScenarioEngine::new(),
            sysreg: residual_store(),
            uart_rx: Vec::new(),
            log: AccessLog::new(),
            mmio_trace: None,
            mmio_summaries: HashMap::new(),
            trace: false,
            irq_pending: 0,
            dma_master_status: status,
            dma_channel_mask: status,
            boot_mode,
            unmapped_exception: false,
            guard_clear_countdown: 0,
        }
    }

    /// A bank, reset the way the boot mode asks for.
    pub fn new(boot_mode: BootMode) -> (r: Self)
        ensures
            r.wf(),
            r@ == BankState::fresh(boot_mode),
    {
        let mut bank = PeripheralBank::assemble(boot_mode);
        match boot_mode {
            BootMode::Cold => bank.reset_cold(),
            BootMode::Warm => bank.reset_warm(),
        }
        bank
    }

    fn reset_lane(&mut self)
        requires
            old(self).wf(),
        ensures
            final(self).wf(),
            final(self)@ == old(self)@.with_dev(
                DevState {
                    lane: old(self)@.dev.lane.after_reset().powered_on(
                        crate::soc::mmio_init::power_on_table(),
                    ),
                    ..old(self)@.dev
                },
            ),
    {
        let table: [(u32, u32); 9] = sysreg_init_values();
        proof {
            lemma_lane_keeps_its_place(self@.dev.lane.after_reset(), table@);
        }
        self.mpcp_bus.reset();
        self.mpcp_bus.apply_init(table.as_slice());
    }

    fn reset_front(&mut self)
        requires
            old(self).wf(),
        ensures
            final(self).wf(),
            final(self)@ == old(self)@.with_dev(front_reset(old(self)@.dev)),
    {
        self.uart.reset();
        self.pbc.reset();
        self.bsc_i2c.reset_cold();
        self.reset_lane();
    }

    fn reset_security(&mut self, warm: bool)
        requires
            old(self).wf(),
        ensures
            final(self).wf(),
            final(self)@ == old(self)@.with_dev(
                DevState {
                    macsec: link_reset(old(self)@.dev, warm).macsec,
                    ..old(self)@.dev
                },
            ),
    {
        if warm {
            self.macsec.reset_warm();
        } else {
            self.macsec.reset_cold();
        }
    }

    fn reset_dma(&mut self, warm: bool)
        requires
            old(self).wf(),
        ensures
            final(self).wf(),
            final(self)@ == old(self)@.with_dev(
                DevState { dma: link_reset(old(self)@.dev, warm).dma, ..old(self)@.dev },
            ),
    {
        if warm {
            self.dma.reset_warm();
        } else {
            self.dma.reset_cold();
        }
    }

    fn reset_link(&mut self, warm: bool)
        requires
            old(self).wf(),
        ensures
            final(self).wf(),
            final(self)@ == old(self)@.with_dev(link_reset(old(self)@.dev, warm)),
    {
        self.serdes.reset();
        self.serdes_rx_los = 0;
        self.epon_mac.reset_cold();
        self.reset_security(warm);
        self.reset_dma(warm);
    }

    fn reset_efuse(&mut self, warm: bool)
        requires
            old(self).wf(),
        ensures
            final(self).wf(),
            final(self)@ == old(self)@.with_dev(
                DevState { efuse: table_reset(old(self)@.dev, warm).efuse, ..old(self)@.dev },
            ),
    {
        if warm {
            self.efuse_udr.reset_warm();
        } else {
            self.efuse_udr.reset_cold();
        }
    }

    fn reset_tables(&mut self, warm: bool)
        requires
            old(self).wf(),
        ensures
            final(self).wf(),
            final(self)@ == old(self)@.with_dev(table_reset(old(self)@.dev, warm)),
    {
        self.alarm_events.reset_cold();
        self.timer.reset();
        self.lue.reset_cold();
        self.fatal_filter.reset_cold();
        self.reset_efuse(warm);
    }

    fn reset_sysreg(&mut self, warm: bool)
        requires
            old(self).wf(),
        ensures
            final(self).wf(),
            final(self)@ == old(self)@.with_dev(
                DevState { sysreg: sync_reset(old(self)@.dev, warm).sysreg, ..old(self)@.dev },
            ),
    {
        self.sysreg.reset();
        if warm {
            let table: [(u32, u32); 9] = sysreg_init_values();
            proof {
                lemma_loading_keeps_the_range(self.sysreg@, table@);
            }
            self.sysreg.load_init_slice(table.as_slice());
        }
    }

    fn reset_sync(&mut self, warm: bool)
        requires
            old(self).wf(),
        ensures
            final(self).wf(),
            final(self)@ == old(self)@.with_dev(sync_reset(old(self)@.dev, warm)),
    {
        self.mpcp.reset_cold();
        self.mpcp_tssync.reset();
        self.nco.reset();
        self.mac_filter.reset();
        self.olt.reset();
        self.reset_sysreg(warm);
        self.nco_tx_ts_counter = 0;
    }

    fn reset_devices(&mut self, warm: bool)
        requires
            old(self).wf(),
        ensures
            final(self).wf(),
            final(self)@ == old(self)@.with_dev(old(self)@.dev.after_reset(warm)),
    {
        proof {
            reveal(DevState::after_reset);
        }
        self.reset_front();
        self.reset_link(warm);
        self.reset_tables(warm);
        self.reset_sync(warm);
    }

    fn clear_dma_mailbox(&mut self)
        requires
            old(self).wf(),
        ensures
            final(self).wf(),
            final(self)@ == old(self)@.with_dev(
                DevState {
                    dma_status: seq![0u32, 0u32],
                    dma_mask: seq![0u32, 0u32],
                    ..old(self)@.dev
                },
            ),
    {
        self.dma_master_status = [0u32; 2];
        self.dma_channel_mask = [0u32; 2];
        assert(self.dma_master_status@ =~= seq![0u32, 0u32]);
        assert(self.dma_channel_mask@ =~= seq![0u32, 0u32]);
    }

    pub(crate) fn clear_context(&mut self)
        requires
            old(self).wf(),
        ensures
            final(self).wf(),
            final(self)@ == (BankState {
                irq: 0,
                log: LogState { pc: 0, blink: 0, insn: 0, di: false, ..old(self)@.log },
                ..old(self)@
            }),
    {
        self.irq_pending = 0;
        self.log.set_context(0, 0, 0, false);
    }

    /// Cold reset: every peripheral starts from nothing.
    pub fn reset_cold(&mut self)
        requires
            old(self).wf(),
        ensures
            final(self).wf(),
            final(self)@ == old(self)@.after_cold_reset(),
    {
        self.reset_devices(false);
        self.clear_dma_mailbox();
        self.clear_context();
    }

    /// Warm reset: the words a finished boot leaves stand in their registers.
    pub fn reset_warm(&mut self)
        requires
            old(self).wf(),
        ensures
            final(self).wf(),
            final(self)@ == old(self)@.after_warm_reset(),
    {
        self.reset_devices(true);
        self.clear_dma_mailbox();
        self.clear_context();
    }
}

/// A warm reset is a cold one with the power-on words on top: they stand in the
/// security block, the DMA channels, the fuse lines and the plain registers, and
/// everything else is as a cold reset leaves it.
pub proof fn law_warm_reset_is_a_cold_one_with_words_on_top(b: BankState)
    ensures
        ({
            let table = crate::soc::mmio_init::power_on_table();
            let cold = b.after_cold_reset();
            b.after_warm_reset() == cold.with_dev(
                DevState {
                    macsec: cold.dev.macsec.powered_on(table),
                    dma: cold.dev.dma.powered_on(table),
                    efuse: cold.dev.efuse.powered_on(table),
                    sysreg: cold.dev.sysreg.loaded(table),
                    ..cold.dev
                },
            )
        }),
{
    reveal(DevState::after_reset);
}

/// A reset of either kind leaves nothing of the DMA mailbox.
pub proof fn law_resets_drop_the_dma_mailbox(b: BankState)
    ensures
        b.after_cold_reset().dev.dma_status == seq![0u32, 0u32],
        b.after_cold_reset().dev.dma_mask == seq![0u32, 0u32],
        b.after_warm_reset().dev.dma_status == seq![0u32, 0u32],
        b.after_warm_reset().dev.dma_mask == seq![0u32, 0u32],
        !b.after_warm_reset().log.di,
{
}

/// After a reset of either kind the lane bus shows its power-on command.
pub proof fn law_resets_power_the_lane_bus_on(b: BankState)
    requires
        b.dev.wf(),
    ensures
        b.after_cold_reset().dev.lane.cmd == 0x0001_5000,
        b.after_warm_reset().dev.lane.cmd == 0x0001_5000,
{
    reveal(DevState::after_reset);
    crate::soc::lane_bus::law_power_on_value_reaches_cmd(b.dev.lane.after_reset());
}

/// A bank tallies the accesses no peripheral claims from the start, and goes on
/// with its tallies across resets.
pub proof fn law_tallies_stay_on(b: BankState, boot_mode: BootMode)
    ensures
        BankState::fresh(boot_mode).dev.sysreg.trace == Some(
            Map::<u32, crate::soc::default_store::ResidualTraceEntry>::empty(),
        ),
        b.after_cold_reset().dev.sysreg.trace == b.dev.sysreg.trace,
        b.after_warm_reset().dev.sysreg.trace == b.dev.sysreg.trace,
{
    reveal(DevState::after_reset);
    let table = crate::soc::mmio_init::power_on_table();
    lemma_loading_keeps_the_range(b.dev.sysreg.cleared(), table);
    lemma_loading_keeps_the_range(
        BankState::assembled(boot_mode).dev.sysreg.cleared(),
        table,
    );
}

/// A bank starts with its peripherals in their places, and a reset leaves them
/// there.
pub proof fn law_peripherals_keep_their_places(b: BankState, boot_mode: BootMode)
    ensures
        crate::soc::devices::windows_in_place(BankState::fresh(boot_mode).dev),
        crate::soc::devices::windows_in_place(b.dev) ==> crate::soc::devices::windows_in_place(
            b.after_cold_reset().dev,
        ) && crate::soc::devices::windows_in_place(b.after_warm_reset().dev),
        BankState::fresh(boot_mode).boot_mode == boot_mode,
        b.after_cold_reset().boot_mode == b.boot_mode,
        b.after_warm_reset().boot_mode == b.boot_mode,
{
    reveal(DevState::after_reset);
    let table = crate::soc::mmio_init::power_on_table();
    lemma_loading_keeps_the_range(b.dev.sysreg.cleared(), table);
    lemma_loading_keeps_the_range(
        BankState::assembled(boot_mode).dev.sysreg.cleared(),
        table,
    );
}

/// A cold reset empties the serial port but for its interrupt mask, the windows,
/// the classifier, the alarms and the far end, and forgets who was accessing. It
/// keeps the flash, the outside stimulus, the work that is pending, the
/// classifier's gate and the history of accesses.
pub proof fn law_cold_reset_clears_and_keeps(b: BankState, addr: u32, i: int)
    ensures
        ({
            let after = b.after_cold_reset();
            let d = after.dev;
            &&& d.uart.rx.len() == 0 && d.uart.tx.len() == 0 && d.uart.irq_mask
                == b.dev.uart.irq_mask && d.uart.control == 0
            &&& d.serdes.word_at(addr) == 0 && d.tssync.word_at(addr) == 0 && d.timer.word_at(addr)
                == 0 && d.mac_filter.word_at(addr) == 0 && d.nco.regs.word_at(addr) == 0
            &&& d.rx_los == 0 && d.nco_tx_ts == 0
            &&& d.alarm.len() == 0
            &&& 0 <= i < 592 ==> d.macsec.sa[i] == 0
            &&& 0 <= i < 2048 ==> d.dma.store[i] == 0
            &&& d.efuse == b.dev.efuse.cleared()
            &&& d.olt == b.dev.olt.after_reset()
            &&& d.sysreg == b.dev.sysreg.cleared()
            &&& d.lue == LueState::cleared()
            &&& d.pbc.flash == b.dev.pbc.flash
            &&& d.scenario == b.dev.scenario
            &&& d.pending == b.dev.pending
            &&& d.guard_countdown == b.dev.guard_countdown
            &&& d.use_classifier == b.dev.use_classifier && d.binding == b.dev.binding
            &&& after.irq == 0
            &&& after.log.pc == 0 && after.log.blink == 0 && after.log.insn == 0 && !after.log.di
            &&& after.log.history == b.log.history && after.log.aux == b.log.aux && after.log.last
                == b.log.last
            &&& after.rx_channel == b.rx_channel
            &&& after.unmapped_exception == b.unmapped_exception
            &&& after.mmio_trace == b.mmio_trace
        }),
{
    reveal(DevState::after_reset);
}

/// A fresh bank has nothing on its way and nothing logged, lets unclaimed
/// accesses pass, and has the classifier's gate shut on the second instance.
pub proof fn law_fresh_bank_is_quiet(boot_mode: BootMode)
    ensures
        ({
            let b = BankState::fresh(boot_mode);
            &&& b.irq == 0 && b.rx_channel.len() == 0 && !b.unmapped_exception && !b.trace
            &&& b.mmio_trace is None
            &&& b.log.history.len() == 0 && b.log.aux.len() == 0 && b.log.last.len() == 0
            &&& b.log.history_max == 8192 && b.log.aux_max == 8192
            &&& !b.dev.use_classifier && b.dev.binding.instance == 1 && b.dev.binding.table == 8
            &&& b.dev.pending.len() == 0 && b.dev.scenario == ScenarioState::nothing()
            &&& b.dev.lane.busy_ticks == 2 && b.dev.lane.reads_to_done == 14_693
                && !b.dev.lane.immediate
        }),
{
    reveal(DevState::after_reset);
    let table = crate::soc::mmio_init::power_on_table();
    let lane = BankState::assembled(boot_mode).dev.lane;
    crate::soc::lane_bus::law_power_on_value_reaches_cmd(lane.after_reset());
}

} // verus!
