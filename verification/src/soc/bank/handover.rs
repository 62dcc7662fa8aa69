//! Handing the state of the peripherals over: to a saved copy and back.

use vstd::prelude::*;

use super::{BankState, PeripheralBank};
use crate::peripherals::pbc::PeripheralBusController;
use crate::soc::access_log::LogState;
use crate::soc::alarm_events::AlarmEvents;
use crate::soc::bsc_i2c::BscI2c;
use crate::soc::default_store::DefaultRegisterStore;
use crate::soc::devices::DevState;
use crate::soc::dma::DmaChannelController;
use crate::soc::efuse_udr::EfuseUdr;
use crate::soc::epon_mac::EponMac;
use crate::soc::fatal_filter::FatalFilter;
use crate::soc::lane_bus::LaneBus;
use crate::soc::lue::{ClassifierBinding, Lue};
use crate::soc::macsec::Macsec;
use crate::soc::mpcp::Mpcp;
use crate::soc::nco::Nco;
use crate::soc::olt::OltLink;
use crate::soc::peripheral::DatapathOp;
use crate::soc::scenario::ScenarioEngine;
use crate::soc::uart::Uart;
use crate::soc::window::RegisterWindow;

verus! {

/// The peripherals of a bank, saved.
pub struct PeripheralBankSaveState {
    pub uart: Uart,
    pub pbc: PeripheralBusController,
    pub bsc_i2c: BscI2c,
    pub mpcp_bus: LaneBus,
    pub lue: Lue,
    pub serdes: RegisterWindow,
    pub epon_mac: EponMac,
    pub macsec: Macsec,
    pub dma: DmaChannelController,
    pub alarm_events: AlarmEvents,
    pub timer: RegisterWindow,
    pub efuse_udr: EfuseUdr,
    pub mpcp: Mpcp,
    pub mpcp_tssync: RegisterWindow,
    pub nco: Nco,
    pub mac_filter: RegisterWindow,
    pub olt: OltLink,
    pub scenario: ScenarioEngine,
    pub sysreg: DefaultRegisterStore,
    pub use_classifier: bool,
    pub classifier_binding: ClassifierBinding,
    pub serdes_rx_los: u32,
    pub fatal_filter: FatalFilter,
    pub dma_master_status: [u32; 2],
    pub dma_channel_mask: [u32; 2],
    pub guard_clear_countdown: u32,
    pub nco_tx_ts_counter: u32,
    pub pending_cache_inv: Vec<DatapathOp>,
}

impl View for PeripheralBankSaveState {
    type V = DevState;

    open spec fn view(&self) -> DevState {
        DevState {
            uart: self.uart@,
            pbc: self.pbc@,
            bsc: self.bsc_i2c@,
            lane: self.mpcp_bus@,
            lue: self.lue@,
            serdes: self.serdes@,
            epon: self.epon_mac@,
            macsec: self.macsec@,
            dma: self.dma@,
            timer: self.timer@,
            efuse: self.efuse_udr@,
            mpcp: self.mpcp@,
            tssync: self.mpcp_tssync@,
            nco: self.nco@,
            mac_filter: self.mac_filter@,
            olt: self.olt@,
            scenario: self.scenario@,
            sysreg: self.sysreg@,
            alarm: self.alarm_events.forced@,
            alarm_trace: self.alarm_events.trace,
            use_classifier: self.use_classifier,
            binding: self.classifier_binding,
            rx_los: self.serdes_rx_los,
            fatal: self.fatal_filter,
            dma_status: self.dma_master_status@,
            dma_mask: self.dma_channel_mask@,
            guard_countdown: self.guard_clear_countdown,
            nco_tx_ts: self.nco_tx_ts_counter,
            pending: crate::soc::peripheral::op_views(self.pending_cache_inv@),
        }
    }
}

impl PeripheralBankSaveState {
    pub open spec fn wf(&self) -> bool {
        &&& self@.wf()
        &&& self.pbc.wf()
        &&& self.bsc_i2c.wf()
        &&& self.mpcp_bus.wf()
        &&& self.epon_mac.wf()
    }
}

impl BankState {
    /// The bank with saved peripherals put back. It starts from no pending
    /// interrupt and no accessing instruction.
    pub open spec fn restored(self, saved: DevState) -> BankState {
        BankState {
            dev: saved,
            irq: 0,
            log: LogState { pc: 0, blink: 0, insn: 0, di: false, ..self.log },
            ..self
        }
    }
}

fn copy_ops(ops: &Vec<DatapathOp>) -> (r: Vec<DatapathOp>)
    ensures
        crate::soc::peripheral::op_views(r@) == crate::soc::peripheral::op_views(ops@),
{
    let mut r: Vec<DatapathOp> = Vec::new();
    for i in 0..ops.len()
        invariant
            r@.len() == i,
            forall|k: int| 0 <= k < i ==> (#[trigger] r@[k])@ == ops@[k]@,
    {
        r.push(ops[i].clone());
    }
    assert(crate::soc::peripheral::op_views(r@) =~= crate::soc::peripheral::op_views(ops@));
    r
}

impl PeripheralBank {
    /// Save the peripherals.
    pub fn capture_for_snapshot(&self) -> (r: PeripheralBankSaveState)
        requires
            self.wf(),
        ensures
            r.wf(),
            r@ == self@.dev,
    {
        PeripheralBankSaveState {
            uart: self.uart.clone(),
            pbc: self.pbc.clone(),
            bsc_i2c: self.bsc_i2c.clone(),
            mpcp_bus: self.mpcp_bus.clone(),
            lue: self.lue.clone(),
            serdes: self.serdes.clone(),
            epon_mac: self.epon_mac.clone(),
            macsec: self.macsec.clone(),
            dma: self.dma.clone(),
            alarm_events: self.alarm_events.clone(),
            timer: self.timer.clone(),
            efuse_udr: self.efuse_udr.clone(),
            mpcp: self.mpcp.clone(),
            mpcp_tssync: self.mpcp_tssync.clone(),
            nco: self.nco.clone(),
            mac_filter: self.mac_filter.clone(),
            olt: self.olt.clone(),
            scenario: self.scenario.clone(),
            sysreg: self.sysreg.clone(),
            use_classifier: self.use_classifier,
            classifier_binding: self.classifier_binding,
            serdes_rx_los: self.serdes_rx_los,
            fatal_filter: self.fatal_filter,
            dma_master_status: self.dma_master_status,
            dma_channel_mask: self.dma_channel_mask,
            guard_clear_countdown: self.guard_clear_countdown,
            nco_tx_ts_counter: self.nco_tx_ts_counter,
            pending_cache_inv: copy_ops(&self.pending_cache_inv),
        }
    }

    fn restore_front(
        &mut self,
        uart: Uart,
        pbc: PeripheralBusController,
        bsc_i2c: BscI2c,
        mpcp_bus: LaneBus,
        lue: Lue,
    )
        requires
            old(self).wf(),
            pbc.wf(),
            bsc_i2c.wf(),
            mpcp_bus.wf(),
            (DevState {
                uart: uart@,
                pbc: pbc@,
                bsc: bsc_i2c@,
                lane: mpcp_bus@,
                lue: lue@,
                ..old(self)@.dev
            }).wf(),
        ensures
            final(self).wf(),
            final(self)@ == old(self)@.with_dev(
                DevState {
                    uart: uart@,
                    pbc: pbc@,
                    bsc: bsc_i2c@,
                    lane: mpcp_bus@,
                    lue: lue@,
                    ..old(self)@.dev
                },
            ),
    {
        self.uart = uart;
        self.pbc = pbc;
        self.bsc_i2c = bsc_i2c;
        self.mpcp_bus = mpcp_bus;
        self.lue = lue;
    }

    fn restore_link(
        &mut self,
        serdes: RegisterWindow,
        epon_mac: EponMac,
        macsec: Macsec,
        dma: DmaChannelController,
        alarm_events: AlarmEvents,
    )
        requires
            old(self).wf(),
            epon_mac.wf(),
            (DevState {
                serdes: serdes@,
                epon: epon_mac@,
                macsec: macsec@,
                dma: dma@,
                alarm: alarm_events.forced@,
                alarm_trace: alarm_events.trace,
                ..old(self)@.dev
            }).wf(),
        ensures
            final(self).wf(),
            final(self)@ == old(self)@.with_dev(
                DevState {
                    serdes: serdes@,
                    epon: epon_mac@,
                    macsec: macsec@,
                    dma: dma@,
                    alarm: alarm_events.forced@,
                    alarm_trace: alarm_events.trace,
                    ..old(self)@.dev
                },
            ),
    {
        self.serdes = serdes;
        self.epon_mac = epon_mac;
        self.macsec = macsec;
        self.dma = dma;
        self.alarm_events = alarm_events;
    }

    fn restore_timing(
        &mut self,
        timer: RegisterWindow,
        efuse_udr: EfuseUdr,
        mpcp: Mpcp,
        mpcp_tssync: RegisterWindow,
        nco: Nco,
    )
        requires
            old(self).wf(),
            (DevState {
                timer: timer@,
                efuse: efuse_udr@,
                mpcp: mpcp@,
                tssync: mpcp_tssync@,
                nco: nco@,
                ..old(self)@.dev
            }).wf(),
        ensures
            final(self).wf(),
            final(self)@ == old(self)@.with_dev(
                DevState {
                    timer: timer@,
                    efuse: efuse_udr@,
                    mpcp: mpcp@,
                    tssync: mpcp_tssync@,
                    nco: nco@,
                    ..old(self)@.dev
                },
            ),
    {
        self.timer = timer;
        self.efuse_udr = efuse_udr;
        self.mpcp = mpcp;
        self.mpcp_tssync = mpcp_tssync;
        self.nco = nco;
    }

    fn restore_far_end(
        &mut self,
        mac_filter: RegisterWindow,
        olt: OltLink,
        scenario: ScenarioEngine,
        sysreg: DefaultRegisterStore,
    )
        requires
            old(self).wf(),
            (DevState {
                mac_filter: mac_filter@,
                olt: olt@,
                scenario: scenario@,
                sysreg: sysreg@,
                ..old(self)@.dev
            }).wf(),
        ensures
            final(self).wf(),
            final(self)@ == old(self)@.with_dev(
                DevState {
                    mac_filter: mac_filter@,
                    olt: olt@,
                    scenario: scenario@,
                    sysreg: sysreg@,
                    ..old(self)@.dev
                },
            ),
    {
        self.mac_filter = mac_filter;
        self.olt = olt;
        self.scenario = scenario;
        self.sysreg = sysreg;
    }

    fn restore_flags(
        &mut self,
        use_classifier: bool,
        classifier_binding: ClassifierBinding,
        serdes_rx_los: u32,
        fatal_filter: FatalFilter,
    )
        requires
            old(self).wf(),
            (DevState {
                use_classifier: use_classifier,
                binding: classifier_binding,
                rx_los: serdes_rx_los,
                fatal: fatal_filter,
                ..old(self)@.dev
            }).wf(),
        ensures
            final(self).wf(),
            final(self)@ == old(self)@.with_dev(
                DevState {
                    use_classifier: use_classifier,
                    binding: classifier_binding,
                    rx_los: serdes_rx_los,
                    fatal: fatal_filter,
                    ..old(self)@.dev
                },
            ),
    {
        self.use_classifier = use_classifier;
        self.classifier_binding = classifier_binding;
        self.serdes_rx_los = serdes_rx_los;
        self.fatal_filter = fatal_filter;
    }

    fn restore_counters(
        &mut self,
        dma_master_status: [u32; 2],
        dma_channel_mask: [u32; 2],
        guard_clear_countdown: u32,
        nco_tx_ts_counter: u32,
    )
        requires
            old(self).wf(),
            (DevState {
                dma_status: dma_master_status@,
                dma_mask: dma_channel_mask@,
                guard_countdown: guard_clear_countdown,
                nco_tx_ts: nco_tx_ts_counter,
                ..old(self)@.dev
            }).wf(),
        ensures
            final(self).wf(),
            final(self)@ == old(self)@.with_dev(
                DevState {
                    dma_status: dma_master_status@,
                    dma_mask: dma_channel_mask@,
                    guard_countdown: guard_clear_countdown,
                    nco_tx_ts: nco_tx_ts_counter,
                    ..old(self)@.dev
                },
            ),
    {
        self.dma_master_status = dma_master_status;
        self.dma_channel_mask = dma_channel_mask;
        self.guard_clear_countdown = guard_clear_countdown;
        self.nco_tx_ts_counter = nco_tx_ts_counter;
    }

    fn restore_pending(&mut self, pending: Vec<DatapathOp>)
        requires
            old(self).wf(),
        ensures
            final(self).wf(),
            final(self)@ == old(self)@.with_dev(
                DevState {
                    pending: crate::soc::peripheral::op_views(pending@),
                    ..old(self)@.dev
                },
            ),
    {
        self.pending_cache_inv = pending;
    }

    /// Put saved peripherals back.
    pub fn restore_from_snapshot(&mut self, state: PeripheralBankSaveState)
        requires
            old(self).wf(),
            state.wf(),
        ensures
            final(self).wf(),
            final(self)@ == old(self)@.restored(state@),
    {
        self.restore_front(state.uart, state.pbc, state.bsc_i2c, state.mpcp_bus, state.lue);
        self.restore_link(
            state.serdes,
            state.epon_mac,
            state.macsec,
            state.dma,
            state.alarm_events,
        );
        self.restore_timing(state.timer, state.efuse_udr, state.mpcp, state.mpcp_tssync, state.nco);
        self.restore_far_end(state.mac_filter, state.olt, state.scenario, state.sysreg);
        self.restore_flags(
            state.use_classifier,
            state.classifier_binding,
            state.serdes_rx_los,
            state.fatal_filter,
        );
        self.restore_counters(
            state.dma_master_status,
            state.dma_channel_mask,
            state.guard_clear_countdown,
            state.nco_tx_ts_counter,
        );
        self.restore_pending(state.pending_cache_inv);
        self.clear_context();
    }
}

/// What was saved comes back whole, whatever happened in between.
pub proof fn law_restoring_brings_back_what_was_saved(before: BankState, between: BankState)
    ensures
        between.restored(before.dev).dev == before.dev,
        between.restored(before.dev).boot_mode == between.boot_mode,
        between.restored(before.dev).log.history == between.log.history,
{
}

/// A bank whose peripherals were put back has no interrupt pending and stands
/// between accesses; what it recorded and how it is set up stay.
pub proof fn law_restored_bank_stands_between_accesses(b: BankState, saved: DevState)
    ensures
        ({
            let after = b.restored(saved);
            &&& after.irq == 0
            &&& after.log.pc == 0 && after.log.blink == 0 && after.log.insn == 0 && !after.log.di
            &&& after.log.history == b.log.history && after.log.aux == b.log.aux
            &&& after.log.last == b.log.last && after.log.seq_trace == b.log.seq_trace
            &&& after.log.history_max == b.log.history_max && after.log.aux_max == b.log.aux_max
            &&& after.rx_channel == b.rx_channel
            &&& after.unmapped_exception == b.unmapped_exception && after.trace == b.trace
            &&& after.mmio_trace == b.mmio_trace && after.mmio_summaries == b.mmio_summaries
        }),
{
}

} // verus!
