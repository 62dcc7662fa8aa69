//! What a front end and the memory system ask of the bank.

use vstd::prelude::*;

use super::{BankState, PeripheralBank};
use crate::peripherals::pbc::{DmaWrite, PbcState};
use crate::peripherals::spi_flash::FlashState;
use crate::soc::access_log::{AuxWriteHistoryEntry, LogState};
use crate::soc::default_store::StoreState;
use crate::soc::devices::DevState;
use crate::soc::efuse_udr::EfuseState;
use crate::soc::lue::{EngineCounters, Verdict};
use crate::soc::peripheral::{
    AlarmEvent, BscSnapshot, DatapathOp, EfuseEvent, EfuseSnapshot, EponEvent, FatalFilterSnapshot,
    OpView, PeripheralEvent, PeripheralId, PeripheralSnapshot, SerDesEvent, SfpEvent,
};
use crate::soc::scenario::ScenarioState;
use crate::soc::uart::UartState;

verus! {

/// Whether an event names something its peripheral has.
pub open spec fn event_in_range(event: PeripheralEvent) -> bool {
    match event {
        PeripheralEvent::Sfp(SfpEvent::SetTxPowerUw(uw)) => uw * 10 <= u32::MAX,
        PeripheralEvent::Sfp(SfpEvent::SetRxPowerUw(uw)) => uw * 10 <= u32::MAX,
        PeripheralEvent::Epon(EponEvent::SetLlidActive(llid, _)) => llid < 32,
        PeripheralEvent::SerDes(SerDesEvent::InjectRxLos(lane, _)) => lane < 32,
        _ => true,
    }
}

/// The lanes without signal after one of them gains or loses it.
pub open spec fn rx_los_after(rx_los: u32, lane: u8, lost: bool) -> u32 {
    if lost {
        rx_los | (1u32 << (lane as u32))
    } else {
        rx_los & !(1u32 << (lane as u32))
    }
}

impl DevState {
    /// The peripherals after an event, which reaches the one it is for.
    #[verifier::opaque]
    pub open spec fn after_event(self, event: PeripheralEvent) -> DevState {
        match event {
            PeripheralEvent::Uart(_) => DevState {
                uart: UartState { tx: Seq::empty(), ..self.uart },
                ..self
            },
            PeripheralEvent::Bsc(_) | PeripheralEvent::Sfp(_) => match self.bsc.after_event(event) {
                Some(bsc) => DevState { bsc, ..self },
                None => self,
            },
            PeripheralEvent::SerDes(SerDesEvent::InjectRxLos(lane, lost)) => DevState {
                rx_los: rx_los_after(self.rx_los, lane, lost),
                ..self
            },
            PeripheralEvent::Epon(_) => DevState {
                epon: crate::soc::epon_mac::epon_after_event(self.epon, event),
                ..self
            },
            PeripheralEvent::Macsec(_) => match self.macsec.after_event(event) {
                Some(macsec) => DevState { macsec, ..self },
                None => self,
            },
            PeripheralEvent::Dma(_) => match self.dma.after_event(event) {
                Some(dma) => DevState { dma, ..self },
                None => self,
            },
            PeripheralEvent::Alarm(ev) => DevState {
                alarm: match ev {
                    AlarmEvent::ForcePending(op) => crate::soc::alarm_events::after_force(
                        self.alarm,
                        op,
                    ),
                    AlarmEvent::ClearPending(op) => crate::soc::alarm_events::after_clear(
                        self.alarm,
                        op,
                    ),
                    AlarmEvent::ClearAll => Seq::empty(),
                },
                ..self
            },
            PeripheralEvent::Efuse(EfuseEvent::SetSnapshot(bytes)) => DevState {
                efuse: EfuseState {
                    image: crate::soc::efuse_udr::full_image(bytes@),
                    ..self.efuse
                },
                ..self
            },
            PeripheralEvent::FatalFilter(_) => match self.fatal.after_event(event) {
                Some(fatal) => DevState { fatal, ..self },
                None => self,
            },
        }
    }
}

/// Finished flash transfers as work for the memory system.
pub open spec fn landed(pending: Seq<(u32, Seq<u8>)>) -> Seq<OpView> {
    Seq::new(
        pending.len(),
        |i: int| OpView::SramWrite { sram_addr: pending[i].0, data: pending[i].1 },
    )
}

impl PeripheralBank {
    /// Put a byte on its way to the UART receiver.
    pub fn push_uart_rx(&mut self, byte: u8)
        requires
            old(self).wf(),
        ensures
            final(self).wf(),
            final(self)@ == (BankState {
                rx_channel: old(self)@.rx_channel.push(byte),
                ..old(self)@
            }),
    {
        self.uart_rx.push(byte);
    }

    /// Whether outside stimulus asked for a pause since the last time.
    pub fn scenario_pause_requested(&mut self) -> (r: bool)
        requires
            old(self).wf(),
        ensures
            final(self).wf(),
            r == old(self)@.dev.scenario.pause,
            final(self)@ == old(self)@.with_dev(
                DevState {
                    scenario: ScenarioState { pause: false, ..old(self)@.dev.scenario },
                    ..old(self)@.dev
                },
            ),
    {
        self.scenario.take_pause()
    }

    fn set_sysreg_context(&mut self, pc: u32, insn: u64)
        requires
            old(self).wf(),
        ensures
            final(self).wf(),
            final(self)@ == old(self)@.with_dev(
                DevState {
                    sysreg: StoreState { pc, insn, ..old(self)@.dev.sysreg },
                    ..old(self)@.dev
                },
            ),
    {
        self.sysreg.update_cpu_context(pc, insn);
    }

    /// Say which instruction is about to access the bank.
    pub fn update_cpu_context(&mut self, pc: u32, blink: u32, insn: u64)
        requires
            old(self).wf(),
        ensures
            final(self).wf(),
            final(self)@ == (BankState {
                log: LogState { pc, blink, insn, di: false, ..old(self)@.log },
                dev: DevState {
                    sysreg: StoreState { pc, insn, ..old(self)@.dev.sysreg },
                    ..old(self)@.dev
                },
                ..old(self)@
            }),
    {
        self.set_sysreg_context(pc, insn);
        self.log.set_context(pc, blink, insn, false);
    }

    /// Record a write of an auxiliary register.
    pub fn record_aux_write(&mut self, aux_num: u32, value: u32)
        requires
            old(self).wf(),
        ensures
            final(self).wf(),
            final(self)@ == old(self)@.with_log(
                LogState {
                    aux: crate::soc::access_log::ring_push(
                        old(self)@.log.aux,
                        old(self)@.log.aux_max,
                        AuxWriteHistoryEntry {
                            insn: old(self)@.log.insn,
                            pc: old(self)@.log.pc,
                            aux_num,
                            value,
                        },
                    ),
                    ..old(self)@.log
                },
            ),
    {
        self.log.record_aux_write(aux_num, value);
    }

    /// What each peripheral shows of itself.
    pub fn snapshot_all(&self) -> (r: Vec<PeripheralSnapshot>)
        requires
            self.wf(),
        ensures
            r@.len() == 13,
            r@[0] == PeripheralSnapshot::Empty("uart"),
            r@[1] == PeripheralSnapshot::Empty("pbc"),
            r@[2] == PeripheralSnapshot::Bsc(
                BscSnapshot {
                    busy: self@.dev.bsc.state is Busy,
                    last_device_addr: if self@.dev.bsc.last_device == 0 {
                        0xA0
                    } else {
                        0xA2
                    },
                    last_word_addr: self@.dev.bsc.eeprom_ptr,
                },
            ),
            r@[3] matches PeripheralSnapshot::Sfp(s) && s.vendor@
                == self@.dev.bsc.sfp.a0.subrange(20, 36) && s.part_number@
                == self@.dev.bsc.sfp.a0.subrange(40, 56) && s.serial@
                == self@.dev.bsc.sfp.a0.subrange(68, 84) && s.temperature_c256
                == self@.dev.bsc.sfp.ddm.temperature_c256 && s.vcc_uv
                == self@.dev.bsc.sfp.ddm.vcc_100uv * 100 && s.tx_bias_ua
                == self@.dev.bsc.sfp.ddm.tx_bias_2ua * 2 && s.tx_power_uw
                == self@.dev.bsc.sfp.ddm.tx_power_01uw as int / 10 && s.rx_power_uw
                == self@.dev.bsc.sfp.ddm.rx_power_01uw as int / 10,
            r@[4] == PeripheralSnapshot::Empty("serdes"),
            r@[5] matches PeripheralSnapshot::EponMac(s) && s.chip_id
                == crate::soc::epon_mac::CHIP_ID_VALUE && s.chip_rev
                == crate::soc::epon_mac::CHIP_REV_VALUE && s.llid_active_bitmap
                == self@.dev.epon.active_bitmap && s.llid_capture_mask
                == self@.dev.epon.capture_mask && s.rx_grant_mask == self@.dev.epon.rx_grant
                && s.tx_grant_mask == self@.dev.epon.tx_grant && s.irq_mask
                == self@.dev.epon.irq_mask && s.llid_irq_pending@ == self@.dev.epon.irq_pending,
            r@[6] matches PeripheralSnapshot::Macsec(s) && s.control
                == self@.dev.macsec.word_at(0x0100_2468) && s.enable_mode
                == self@.dev.macsec.word_at(0x0100_2420) && !s.key_engine_busy
                && !s.pn_threshold_busy && s.sa_slots_programmed
                == crate::soc::macsec::chunks_used(self@.dev.macsec.sa, 10) && s.pn_overflow_mask
                == self@.dev.macsec.pn_overflow_mask,
            r@[7] matches PeripheralSnapshot::Dma(s) && s.channels_enabled == 0
                && s.irq_pending_bitmap == 0 && s.channels_busy == crate::soc::dma::flags_up(
                self@.dev.dma.drain,
                16,
            ),
            r@[8] matches PeripheralSnapshot::Alarm(s) && s.forced_opcodes@ == self@.dev.alarm
                && s.live_opcodes@ == Seq::<u16>::empty(),
            r@[9] == PeripheralSnapshot::Empty("timer"),
            r@[10] == PeripheralSnapshot::Efuse(
                EfuseSnapshot {
                    udr_status: self@.dev.efuse.sda,
                    clock_toggles: self@.dev.efuse.clock_toggles,
                },
            ),
            r@[11] == PeripheralSnapshot::FatalFilter(
                FatalFilterSnapshot {
                    fatal_status: self@.dev.fatal.fatal_status,
                    link_up_bitmap: self@.dev.fatal.link_up_bitmap,
                },
            ),
            r@[12] == PeripheralSnapshot::Empty("olt"),
    {
        let mut all: Vec<PeripheralSnapshot> = Vec::new();
        all.push(PeripheralSnapshot::Empty("uart"));
        all.push(PeripheralSnapshot::Empty("pbc"));
        all.push(self.bsc_i2c.snapshot());
        all.push(self.bsc_i2c.sfp_snapshot());
        all.push(PeripheralSnapshot::Empty("serdes"));
        all.push(self.epon_mac.snapshot());
        all.push(self.macsec.snapshot());
        all.push(self.dma.snapshot());
        all.push(self.alarm_events.snapshot());
        all.push(PeripheralSnapshot::Empty("timer"));
        all.push(self.efuse_udr.snapshot());
        all.push(self.fatal_filter.snapshot());
        all.push(PeripheralSnapshot::Empty("olt"));
        all
    }

    fn clear_uart_log(&mut self)
        requires
            old(self).wf(),
        ensures
            final(self).wf(),
            final(self)@ == old(self)@.with_dev(
                DevState {
                    uart: UartState { tx: Seq::empty(), ..old(self)@.dev.uart },
                    ..old(self)@.dev
                },
            ),
    {
        self.uart.clear_tx_log();
    }

    fn inject_rx_los(&mut self, lane: u8, lost: bool)
        requires
            old(self).wf(),
            lane < 32,
        ensures
            final(self).wf(),
            final(self)@ == old(self)@.with_dev(
                DevState {
                    rx_los: rx_los_after(old(self)@.dev.rx_los, lane, lost),
                    ..old(self)@.dev
                },
            ),
    {
        let bit: u32 = 1u32 << (lane as u32);
        self.serdes_rx_los = if lost {
            self.serdes_rx_los | bit
        } else {
            self.serdes_rx_los & !bit
        };
    }

    fn inject_bsc(&mut self, event: &PeripheralEvent)
        requires
            old(self).wf(),
            event_in_range(*event),
            event is Bsc || event is Sfp,
        ensures
            final(self).wf(),
            final(self)@ == old(self)@.with_dev(old(self)@.dev.after_event(*event)),
    {
        proof {
            reveal(DevState::after_event);
        }
        let _ = self.bsc_i2c.inject_event(event);
    }

    fn inject_epon(&mut self, event: &PeripheralEvent)
        requires
            old(self).wf(),
            event_in_range(*event),
            event is Epon,
        ensures
            final(self).wf(),
            final(self)@ == old(self)@.with_dev(old(self)@.dev.after_event(*event)),
    {
        proof {
            reveal(DevState::after_event);
        }
        let _ = self.epon_mac.inject_event(event);
    }

    fn inject_macsec(&mut self, event: &PeripheralEvent)
        requires
            old(self).wf(),
            event is Macsec,
        ensures
            final(self).wf(),
            final(self)@ == old(self)@.with_dev(old(self)@.dev.after_event(*event)),
    {
        proof {
            reveal(DevState::after_event);
        }
        let _ = self.macsec.inject_event(event);
    }

    fn inject_dma(&mut self, event: &PeripheralEvent)
        requires
            old(self).wf(),
            event is Dma,
        ensures
            final(self).wf(),
            final(self)@ == old(self)@.with_dev(old(self)@.dev.after_event(*event)),
    {
        proof {
            reveal(DevState::after_event);
        }
        let _ = self.dma.inject_event(event);
    }

    fn inject_alarm(&mut self, event: &PeripheralEvent)
        requires
            old(self).wf(),
            event is Alarm,
        ensures
            final(self).wf(),
            final(self)@ == old(self)@.with_dev(old(self)@.dev.after_event(*event)),
    {
        proof {
            reveal(DevState::after_event);
        }
        let _ = self.alarm_events.inject_event(event);
    }

    fn inject_efuse(&mut self, event: &PeripheralEvent)
        requires
            old(self).wf(),
            event is Efuse,
        ensures
            final(self).wf(),
            final(self)@ == old(self)@.with_dev(old(self)@.dev.after_event(*event)),
    {
        proof {
            reveal(DevState::after_event);
        }
        let _ = self.efuse_udr.inject_event(event);
    }

    fn inject_fatal(&mut self, event: &PeripheralEvent)
        requires
            old(self).wf(),
            event is FatalFilter,
        ensures
            final(self).wf(),
            final(self)@ == old(self)@.with_dev(old(self)@.dev.after_event(*event)),
    {
        proof {
            reveal(DevState::after_event);
        }
        let _ = self.fatal_filter.inject_event(event);
    }

    /// Hand an event to the peripheral it is for. Every event has one.
    pub fn inject_event(&mut self, event: &PeripheralEvent) -> (r: bool)
        requires
            old(self).wf(),
            event_in_range(*event),
        ensures
            final(self).wf(),
            r,
            final(self)@ == old(self)@.with_dev(old(self)@.dev.after_event(*event)),
    {
        match event {
            PeripheralEvent::Uart(_) => {
                proof {
                    reveal(DevState::after_event);
                }
                self.clear_uart_log();
            },
            PeripheralEvent::SerDes(SerDesEvent::InjectRxLos(lane, lost)) => {
                proof {
                    reveal(DevState::after_event);
                }
                self.inject_rx_los(*lane, *lost);
            },
            PeripheralEvent::Bsc(_) => self.inject_bsc(event),
            PeripheralEvent::Sfp(_) => self.inject_bsc(event),
            PeripheralEvent::Epon(_) => self.inject_epon(event),
            PeripheralEvent::Macsec(_) => self.inject_macsec(event),
            PeripheralEvent::Dma(_) => self.inject_dma(event),
            PeripheralEvent::Alarm(_) => self.inject_alarm(event),
            PeripheralEvent::Efuse(_) => self.inject_efuse(event),
            PeripheralEvent::FatalFilter(_) => self.inject_fatal(event),
        }
        true
    }

    fn take_flash_transfers(&mut self) -> (r: Vec<DmaWrite>)
        requires
            old(self).wf(),
        ensures
            final(self).wf(),
            r@.map_values(|w: DmaWrite| w@) == old(self)@.dev.pbc.pending,
            final(self)@ == old(self)@.with_dev(
                DevState {
                    pbc: PbcState { pending: Seq::empty(), ..old(self)@.dev.pbc },
                    ..old(self)@.dev
                },
            ),
    {
        self.pbc.take_pending_dma()
    }

    fn take_queued_ops(&mut self) -> (r: Vec<DatapathOp>)
        requires
            old(self).wf(),
        ensures
            final(self).wf(),
            crate::soc::peripheral::op_views(r@) == old(self)@.dev.pending,
            final(self)@ == old(self)@.with_dev(
                DevState { pending: Seq::empty(), ..old(self)@.dev },
            ),
    {
        let mut taken: Vec<DatapathOp> = Vec::new();
        std::mem::swap(&mut taken, &mut self.pending_cache_inv);
        assert(self@.dev.pending =~= Seq::<OpView>::empty());
        taken
    }

    /// Take the work waiting for the memory system: finished flash transfers
    /// first, then the rest in the order it was queued.
    pub fn take_pending_datapath(&mut self) -> (r: Vec<DatapathOp>)
        requires
            old(self).wf(),
        ensures
            final(self).wf(),
            crate::soc::peripheral::op_views(r@) == landed(old(self)@.dev.pbc.pending)
                + old(self)@.dev.pending,
            final(self)@ == old(self)@.with_dev(
                DevState {
                    pbc: PbcState { pending: Seq::empty(), ..old(self)@.dev.pbc },
                    pending: Seq::empty(),
                    ..old(self)@.dev
                },
            ),
    {
        let transfers = self.take_flash_transfers();
        let queued = self.take_queued_ops();
        let ops = gather(transfers, queued);
        ops
    }

    fn write_flash(&mut self, flash_addr: u32, data: &[u8])
        requires
            old(self).wf(),
        ensures
            final(self).wf(),
            final(self)@ == old(self)@.with_dev(
                DevState {
                    pbc: PbcState {
                        flash: FlashState {
                            data: crate::peripherals::spi_flash::programmed(
                                old(self)@.dev.pbc.flash.data,
                                flash_addr as int,
                                data@,
                            ),
                            dirty: true,
                            ..old(self)@.dev.pbc.flash
                        },
                        ..old(self)@.dev.pbc
                    },
                    ..old(self)@.dev
                },
            ),
    {
        self.pbc.flash.dma_write(flash_addr, data);
    }

    /// Hand the bytes a peripheral asked for back to it.
    pub fn complete_flash_write(&mut self, peripheral: PeripheralId, flash_addr: u32, data: &[u8])
        requires
            old(self).wf(),
        ensures
            final(self).wf(),
            final(self)@ == old(self)@.with_dev(
                DevState {
                    pbc: PbcState {
                        flash: FlashState {
                            data: crate::peripherals::spi_flash::programmed(
                                old(self)@.dev.pbc.flash.data,
                                flash_addr as int,
                                data@,
                            ),
                            dirty: true,
                            ..old(self)@.dev.pbc.flash
                        },
                        ..old(self)@.dev.pbc
                    },
                    ..old(self)@.dev
                },
            ),
    {
        match peripheral {
            PeripheralId::Pbc => self.write_flash(flash_addr, data),
        }
    }

    /// What the classifier says of a downstream frame. While its gate is shut
    /// it decides nothing.
    pub fn classify_downstream(&self, frame: &[u8]) -> (r: Option<(Verdict, EngineCounters)>)
        ensures
            r is Some <==> self@.dev.use_classifier,
            r matches Some(v) ==> crate::soc::lue::decided(
                self@.dev.lue.inst[(self@.dev.binding.instance & 1) as int],
                self@.dev.binding.table,
                frame@,
                v.0,
                v.1,
            ),
    {
        if self.use_classifier {
            Some(self.lue.classify(self.classifier_binding, frame))
        } else {
            None
        }
    }
}

/// Finished transfers and queued work, in that order.
fn gather(transfers: Vec<DmaWrite>, queued: Vec<DatapathOp>) -> (r: Vec<DatapathOp>)
    ensures
        crate::soc::peripheral::op_views(r@) == landed(transfers@.map_values(|w: DmaWrite| w@))
            + crate::soc::peripheral::op_views(queued@),
{
    let mut ops: Vec<DatapathOp> = Vec::new();
    let n: usize = transfers.len();
    for i in 0..n
        invariant
            n == transfers@.len(),
            ops@.len() == i,
            forall|k: int|
                0 <= k < i ==> (#[trigger] ops@[k])@ == (OpView::SramWrite {
                    sram_addr: transfers@[k].dccm_addr,
                    data: transfers@[k].data@,
                }),
    {
        let data: Vec<u8> = transfers[i].data.clone();
        assert(data@ =~= transfers@[i as int].data@);
        ops.push(DatapathOp::SramWrite { sram_addr: transfers[i].dccm_addr, data });
    }
    let mut rest = queued;
    ops.append(&mut rest);
    assert(crate::soc::peripheral::op_views(ops@) =~= landed(
        transfers@.map_values(|w: DmaWrite| w@),
    ) + crate::soc::peripheral::op_views(queued@));
    ops
}

/// Work is handed over once: taking twice gives nothing the second time.
pub proof fn law_work_is_handed_over_once(b: BankState)
    ensures
        ({
            let after = b.with_dev(
                DevState {
                    pbc: PbcState { pending: Seq::empty(), ..b.dev.pbc },
                    pending: Seq::empty(),
                    ..b.dev
                },
            );
            landed(after.dev.pbc.pending) + after.dev.pending == Seq::<OpView>::empty()
        }),
{
    assert(landed(Seq::<(u32, Seq<u8>)>::empty()) + Seq::<OpView>::empty() =~= Seq::<
        OpView,
    >::empty());
}

/// An override answers before any peripheral does, for a look as for a read.
pub proof fn law_override_answers_first(b: BankState, addr: u32, value: u32)
    requires
        crate::soc::scenario::override_answer(b.dev.scenario.overrides, addr) == Some(value),
    ensures
        b.peek(addr) == value,
        b.read_result(addr) == Ok::<u32, crate::cpu::exception::Exception>(value),
{
    reveal(BankState::read_result);
}

/// Every word access of a system register that no peripheral claims is tallied:
/// one more read or write, and the value that went by.
pub proof fn law_unclaimed_accesses_are_tallied(b: BankState, addr: u32, val: u32)
    requires
        b.dev.sysreg.trace is Some,
        b.dev.owner(addr, false) is Sysreg,
        crate::soc::scenario::override_answer(b.dev.scenario.overrides, addr) is None,
        b.dev.olt.mailbox_word(addr) is None,
        !b.dev.olt.is_command(addr),
        b.can_read(addr),
        b.can_write(addr, val),
    ensures
        ({
            let at = crate::soc::default_store::word_address(addr);
            let before = b.dev.sysreg;
            let read = b.after_read(addr).dev.sysreg;
            let written = b.after_write(addr, val).dev.sysreg;
            &&& read.trace is Some && read.trace->0.dom().contains(at)
            &&& read.tally(at).reads == before.tally(at).reads + 1
            &&& read.tally(at).last_read_value == before.word_at(addr)
            &&& read.tally(at).writes == before.tally(at).writes
            &&& written.trace is Some && written.trace->0.dom().contains(at)
            &&& written.tally(at).writes == before.tally(at).writes + 1
            &&& written.tally(at).last_write_value == b.masked(addr, val)
            &&& written.tally(at).reads == before.tally(at).reads
        }),
{
    reveal(DevState::owner);
    reveal(DevState::word);
    reveal(DevState::after_read);
    reveal(DevState::after_write);
    reveal(DevState::register_write);
    reveal(DevState::sysreg_read);
    reveal(DevState::sysreg_written);
    reveal(BankState::can_read);
    reveal(BankState::can_write);
    reveal(BankState::read_result);
    reveal(BankState::write_result);
    reveal(BankState::after_routed_read);
    reveal(BankState::after_routed_write);
}

/// An event reaches the peripheral it is for and no other.
pub proof fn law_events_reach_their_peripheral(d: DevState, event: PeripheralEvent)
    ensures
        ({
            let after = d.after_event(event);
            &&& event is Uart ==> after.uart.tx.len() == 0 && after.uart.rx == d.uart.rx
                && after.uart.control == d.uart.control && after == (DevState {
                uart: after.uart,
                ..d
            })
            &&& event is Bsc || event is Sfp ==> after == (DevState { bsc: after.bsc, ..d }) && (
            d.bsc.after_event(event) matches Some(bsc) ==> after.bsc == bsc)
            &&& event is SerDes ==> after == (DevState { rx_los: after.rx_los, ..d })
            &&& event is Epon ==> after == (DevState {
                epon: crate::soc::epon_mac::epon_after_event(d.epon, event),
                ..d
            })
            &&& event is Macsec ==> after == (DevState { macsec: after.macsec, ..d }) && (
            d.macsec.after_event(event) matches Some(m) ==> after.macsec == m)
            &&& event is Dma ==> after == (DevState { dma: after.dma, ..d }) && (d.dma.after_event(
                event,
            ) matches Some(m) ==> after.dma == m)
            &&& event is Alarm ==> after == (DevState { alarm: after.alarm, ..d })
            &&& event is Efuse ==> after == (DevState { efuse: after.efuse, ..d })
                && after.efuse.sda == d.efuse.sda && after.efuse.clock_toggles
                == d.efuse.clock_toggles
            &&& event is FatalFilter ==> after == (DevState { fatal: after.fatal, ..d }) && (
            d.fatal.after_event(event) matches Some(f) ==> after.fatal == f)
        }),
{
    reveal(DevState::after_event);
}

/// Alarm events act on the list of forced alarms, and a fuse event on the image.
pub proof fn law_alarm_and_fuse_events(d: DevState, opcode: u16, bytes: Vec<u8>)
    ensures
        d.after_event(PeripheralEvent::Alarm(AlarmEvent::ForcePending(opcode))).alarm
            == crate::soc::alarm_events::after_force(d.alarm, opcode),
        d.after_event(PeripheralEvent::Alarm(AlarmEvent::ClearPending(opcode))).alarm
            == crate::soc::alarm_events::after_clear(d.alarm, opcode),
        d.after_event(PeripheralEvent::Alarm(AlarmEvent::ClearAll)).alarm.len() == 0,
        d.after_event(PeripheralEvent::Efuse(EfuseEvent::SetSnapshot(bytes))).efuse.image
            == crate::soc::efuse_udr::full_image(bytes@),
{
    reveal(DevState::after_event);
}

/// A lane that loses its signal shows in its own bit, and one that gains it
/// again no longer does.
pub proof fn law_lost_signal_shows_in_its_lane(d: DevState, lane: u8, other: u32)
    requires
        lane < 32,
        other < 32,
    ensures
        ({
            let lost = d.after_event(PeripheralEvent::SerDes(SerDesEvent::InjectRxLos(lane, true)));
            let back = d.after_event(PeripheralEvent::SerDes(SerDesEvent::InjectRxLos(lane, false)));
            &&& lost.rx_los & (1u32 << (lane as u32)) != 0
            &&& back.rx_los & (1u32 << (lane as u32)) == 0
            &&& other != lane ==> lost.rx_los & (1u32 << other) == d.rx_los & (1u32 << other)
            &&& other != lane ==> back.rx_los & (1u32 << other) == d.rx_los & (1u32 << other)
        }),
{
    reveal(DevState::after_event);
    crate::bits::lemma_one_bit(d.rx_los, lane as u32, other);
}

/// Finished flash transfers become writes of data memory, each to its address,
/// in order.
pub proof fn law_transfers_become_memory_writes(pending: Seq<(u32, Seq<u8>)>, i: int)
    requires
        0 <= i < pending.len(),
    ensures
        landed(pending).len() == pending.len(),
        landed(pending)[i] == (OpView::SramWrite {
            sram_addr: pending[i].0,
            data: pending[i].1,
        }),
{
}

} // verus!
