//! The tick: every peripheral moves on, and what the far end of the link has to
//! say is carried into the registers software reads.

use vstd::prelude::*;

use super::{BankState, PeripheralBank};
use crate::soc::devices::{
    DevState, LLID_MATCH_10G, LLID_MATCH_1G, MPCP_CAPTURED_TS, TS_CAPTURED, TS_LOCK, TS_NCO_TX,
};
use crate::soc::epon_mac::EponRegs;
use crate::soc::lane_bus::LaneState;
use crate::soc::olt::{FrameState, LineFrame, OltState, QueuedState};
use crate::soc::peripheral::{DatapathOp, OpView};
use crate::soc::uart::UartState;

verus! {

/// Where the link state byte stands in SRAM.
pub const LLID_STATE_ADDR: u32 = 0x0000_461C;

/// Ticks between an idle mailbox and the clearing of the frame guard.
pub const GUARD_CLEAR_TICKS: u32 = 3;

/// Where the frame guard stands in SRAM.
pub const GUARD_ADDR: u32 = 0x0007_E3CA;

/// The mailbox interrupt bit of the first DMA status word.
pub const MAILBOX_STATUS_BIT: u32 = 0x0800_0000;

/// The cached words the link change registers go stale in.
pub const LINK_CHANGE_1G: u32 = 0x0100_0410;

pub const LINK_STATE_10G: u32 = 0x0100_0E04;

pub const DISCOVERY_STATUS: u32 = 0x0100_1040;

/// The invalidation of a cached word.
pub open spec fn stale(addr: u32) -> OpView {
    OpView::CacheInvalidate { addr }
}

/// The MAC after frames landed in its queues.
pub open spec fn all_arrived(epon: EponRegs, arrivals: Seq<(u8, u64)>) -> EponRegs
    decreases arrivals.len(),
{
    if arrivals.len() == 0 {
        epon
    } else {
        let before = all_arrived(epon, arrivals.drop_last());
        let (slot, frames) = arrivals.last();
        if frames == 0 {
            before
        } else {
            EponRegs {
                arrivals: before.arrivals.insert(
                    slot as u32,
                    (before.arrived(slot as int / 32, slot as int % 32) + frames) as u64,
                ),
                ..before
            }
        }
    }
}

/// Whether the queue counters can take them.
pub open spec fn arrivals_fit(epon: EponRegs, arrivals: Seq<(u8, u64)>) -> bool
    decreases arrivals.len(),
{
    if arrivals.len() == 0 {
        true
    } else {
        let before = all_arrived(epon, arrivals.drop_last());
        let (slot, frames) = arrivals.last();
        &&& arrivals_fit(epon, arrivals.drop_last())
        &&& before.arrived(slot as int / 32, slot as int % 32) + frames <= u64::MAX
    }
}

/// The MAC with a link put into slot 0 of one match table.
pub open spec fn llid_assigned(epon: EponRegs, base: u32, llid: u16) -> EponRegs {
    EponRegs {
        table: epon.table.update(
            crate::soc::epon_mac::table_word(base),
            (epon.word_at(base) & 0xFFFF_0000) | llid as u32,
        ),
        ..epon
    }
}

impl DevState {
    /// Each peripheral moves on by itself.
    pub open spec fn moved_on(self, insns: u64) -> DevState {
        DevState {
            olt: OltState { elapsed: self.olt.elapsed.wrapping_add(insns), ..self.olt },
            bsc: self.bsc.after_tick(),
            lane: self.lane.after_tick(),
            epon: EponRegs { drain: Seq::new(6, |i: int| true), ..self.epon },
            dma: self.dma.after_tick(),
            ..self
        }
    }

    /// The queue a frame goes to: the one the classifier names while its gate
    /// is open, the one its EtherType names otherwise.
    pub open spec fn slot_for(self, frame: FrameState) -> u8 {
        if self.use_classifier {
            match crate::soc::lue::engine::queue_of(
                crate::soc::lue::classified(
                    self.lue.inst[(self.binding.instance & 1) as int],
                    self.binding.table,
                    frame.bytes,
                ),
            ) {
                Some(queue) => queue,
                None => frame.slot,
            }
        } else {
            frame.slot
        }
    }

    /// The first `n` frames that came down wait in their queues.
    pub open spec fn frames_queued(self, frames: Seq<FrameState>, n: nat) -> DevState
        decreases n,
    {
        if n == 0 {
            self
        } else {
            let before = self.frames_queued(frames, (n - 1) as nat);
            let f = frames[n - 1];
            DevState { olt: before.olt.after_queueing(self.slot_for(f), f.words), ..before }
        }
    }

    /// Every frame that came down waits in its queue.
    pub open spec fn frames_loaded(self) -> DevState {
        DevState { olt: OltState { downstream: Seq::empty(), ..self.olt }, ..self }.frames_queued(
            self.olt.downstream,
            self.olt.downstream.len(),
        )
    }

    /// Frames that came down go to their queues and are counted, and a fuller
    /// mailbox is announced.
    pub open spec fn frames_counted(self) -> DevState {
        let loaded = self.frames_loaded();
        let d = DevState {
            epon: all_arrived(self.epon, loaded.olt.arrivals),
            olt: OltState { arrivals: Seq::empty(), ..loaded.olt },
            ..self
        };
        if loaded.olt.queued.len() > self.olt.queued.len() {
            DevState {
                dma_status: self.dma_status.update(0, self.dma_status[0] | MAILBOX_STATUS_BIT),
                dma_mask: self.dma_mask.update(0, self.dma_mask[0] | 1),
                pending: self.pending.push(stale(0x0100_0010)),
                ..d
            }
        } else {
            d
        }
    }

    /// A link the terminal assigned goes into both match tables.
    pub open spec fn link_assigned(self) -> DevState {
        match self.olt.pending_llid {
            None => self,
            Some(llid) => DevState {
                epon: llid_assigned(
                    llid_assigned(self.epon, LLID_MATCH_1G, llid),
                    LLID_MATCH_10G,
                    llid,
                ),
                olt: OltState { pending_llid: None, ..self.olt },
                pending: self.pending.push(stale(LLID_MATCH_1G)).push(stale(LLID_MATCH_10G)),
                ..self
            },
        }
    }

    /// A link change sets its bits once; a link that is up keeps discovery
    /// set; and the block lock follows the downstream.
    pub open spec fn link_followed(self) -> DevState {
        self.link_change_followed().discovery_followed().lock_followed()
    }

    pub open spec fn link_change_followed(self) -> DevState {
        if self.olt.link_change {
            DevState {
                epon: EponRegs {
                    link_1g: self.epon.link_1g | 0x2,
                    discovery: self.epon.discovery | 0x4,
                    ..self.epon
                },
                olt: OltState { link_change: false, ..self.olt },
                pending: self.pending.push(stale(LINK_CHANGE_1G)).push(stale(LINK_STATE_10G)).push(
                    stale(DISCOVERY_STATUS),
                ),
                ..self
            }
        } else {
            self
        }
    }

    pub open spec fn discovery_followed(self) -> DevState {
        if self.olt.link_up {
            DevState {
                epon: EponRegs { discovery: self.epon.discovery | 0x4, ..self.epon },
                ..self
            }
        } else {
            self
        }
    }

    /// The block lock is a level: set on every tick while the downstream is
    /// there, dropped when it is gone.
    pub open spec fn lock_followed(self) -> DevState {
        if self.olt.link_up && self.olt.gate {
            DevState {
                epon: EponRegs { hw_state: self.epon.hw_state | 0x40, ..self.epon },
                pending: self.pending.push(stale(LINK_STATE_10G)),
                ..self
            }
        } else if !self.olt.link_up {
            DevState {
                epon: EponRegs { hw_state: self.epon.hw_state & !0x40, ..self.epon },
                pending: self.pending.push(stale(LINK_STATE_10G)),
                ..self
            }
        } else {
            self
        }
    }

    /// While the link is up, the time-sync words follow the terminal's clock
    /// and the local one; the lock bit shows whether a gate was broadcast.
    pub open spec fn clocks_followed(self) -> DevState {
        if self.olt.link_up {
            let ts = self.olt.timestamp;
            let local = self.nco_tx_ts.wrapping_add(1);
            let clocks = self.tssync.after_write(TS_CAPTURED, ts).after_write(TS_NCO_TX, local);
            DevState {
                nco_tx_ts: local,
                tssync: clocks.after_write(
                    TS_LOCK,
                    (clocks.word_at(TS_LOCK) & !1) | (if self.olt.gate {
                        1u32
                    } else {
                        0u32
                    }),
                ),
                mpcp: self.mpcp.poked(MPCP_CAPTURED_TS, ts),
                pending: self.pending.push(stale(TS_CAPTURED)).push(stale(TS_LOCK)).push(
                    stale(MPCP_CAPTURED_TS),
                ).push(stale(TS_NCO_TX)),
                ..self
            }
        } else {
            self
        }
    }

    /// A finished registration leaves its link state after a while.
    pub open spec fn registration_followed(self) -> DevState {
        DevState {
            olt: self.olt.registration_counted(),
            pending: if self.olt.registration_ticks() == 1 {
                self.pending.push(
                    OpView::SramWrite { sram_addr: LLID_STATE_ADDR, data: seq![0x01u8] },
                )
            } else {
                self.pending
            },
            ..self
        }
    }

    /// The queue bitmaps go where software reads them.
    pub open spec fn bitmaps_followed(self) -> DevState {
        DevState {
            epon: crate::soc::devices::bitmaps_poked(self.epon, self.olt.bitmap(), 6),
            pending: self.pending.push(stale(0x0100_1438)).push(stale(0x0100_1638)).push(
                stale(0x0100_1838),
            ).push(stale(0x0100_1A38)).push(stale(0x0100_1C38)).push(stale(0x0100_1E38)),
            ..self
        }
    }

    /// Ticks until the frame guard is cleared; zero while it is not due.
    pub open spec fn guard_ticks(self) -> u32 {
        if self.olt.mailbox_done() && self.guard_countdown == 0 {
            GUARD_CLEAR_TICKS
        } else {
            self.guard_countdown
        }
    }

    pub open spec fn guard_counted(self) -> DevState {
        DevState {
            olt: self.olt.done_noticed(),
            guard_countdown: if self.guard_ticks() > 0 {
                (self.guard_ticks() - 1) as u32
            } else {
                0
            },
            ..self
        }
    }

    /// A consumed frame, or an idle mailbox, clears the frame guard a few
    /// ticks later.
    pub open spec fn guard_followed(self) -> DevState {
        DevState {
            pending: if self.guard_ticks() == 1 {
                self.pending.push(
                    OpView::SramWrite { sram_addr: GUARD_ADDR, data: seq![0u8, 0u8] },
                )
            } else {
                self.pending
            },
            ..self.guard_counted()
        }
    }

    /// The scheduled events look at how far the processor has come.
    pub open spec fn events_timed(self, insns: u64) -> DevState {
        DevState { scenario: self.scenario.after_tick(insns), ..self }
    }

    /// A converged analog state skips the wait for the calibration.
    pub open spec fn calibration_followed(self) -> DevState {
        if self.scenario.cal_converged {
            DevState { lane: LaneState { immediate: true, ..self.lane }, ..self }
        } else {
            self
        }
    }

    /// The peripherals after a tick.
    pub open spec fn ticked(self, insns: u64) -> DevState {
        self.moved_on(insns).frames_counted().link_assigned().link_followed().clocks_followed()
            .registration_followed().bitmaps_followed().guard_followed().events_timed(
            insns,
        ).calibration_followed()
    }
}

impl BankState {
    /// The bank once the bytes on their way reached the UART.
    pub open spec fn received(self) -> BankState {
        BankState { rx_channel: Seq::empty(), ..self }.with_dev(
            DevState {
                uart: UartState { rx: self.dev.uart.rx + self.rx_channel, ..self.dev.uart },
                ..self.dev
            },
        )
    }

    /// Whether the queue counters can take the frames that came down.
    pub open spec fn can_tick(self, insns: u64) -> bool {
        let dev = self.received().dev.moved_on(insns);
        arrivals_fit(dev.epon, dev.frames_loaded().olt.arrivals)
    }

    /// The bank after a tick.
    pub open spec fn after_tick(self, insns: u64) -> BankState {
        let dev = self.received().dev.ticked(insns);
        BankState { irq: dev.uart.irq(), ..self.received().with_dev(dev) }
    }
}

impl PeripheralBank {
    /// Hand the bytes on their way to the UART, oldest first.
    fn drain_uart_channel(&mut self)
        requires
            old(self).wf(),
        ensures
            final(self).wf(),
            final(self)@ == old(self)@.received(),
    {
        let mut bytes: Vec<u8> = Vec::new();
        std::mem::swap(&mut bytes, &mut self.uart_rx);
        self.feed_uart(bytes.as_slice());
        assert(self@ == old(self)@.received());
    }

    fn feed_uart(&mut self, bytes: &[u8])
        requires
            old(self).wf(),
        ensures
            final(self).wf(),
            final(self)@ == old(self)@.with_dev(
                DevState {
                    uart: UartState {
                        rx: old(self)@.dev.uart.rx + bytes@,
                        ..old(self)@.dev.uart
                    },
                    ..old(self)@.dev
                },
            ),
    {
        let n: usize = bytes.len();
        assert(old(self)@.dev.uart.rx + bytes@.take(0) =~= old(self)@.dev.uart.rx);
        for i in 0..n
            invariant
                n == bytes@.len(),
                self.wf(),
                old(self).wf(),
                self@ == old(self)@.with_dev(
                    DevState {
                        uart: UartState {
                            rx: old(self)@.dev.uart.rx + bytes@.take(i as int),
                            ..old(self)@.dev.uart
                        },
                        ..old(self)@.dev
                    },
                ),
        {
            self.uart.push_rx_byte(bytes[i]);
            assert((old(self)@.dev.uart.rx + bytes@.take(i as int)).push(bytes@[i as int])
                =~= old(self)@.dev.uart.rx + bytes@.take(i + 1));
        }
        assert(bytes@.take(n as int) =~= bytes@);
    }

    fn move_on(&mut self, cpu_instructions: u64)
        requires
            old(self).wf(),
        ensures
            final(self).wf(),
            final(self)@ == old(self)@.with_dev(old(self)@.dev.moved_on(cpu_instructions)),
    {
        self.olt.tick(cpu_instructions);
        self.bsc_i2c.tick(cpu_instructions);
        self.mpcp_bus.tick();
        self.epon_mac.tick(cpu_instructions);
        self.dma.tick(cpu_instructions);
    }

    fn push_stale(&mut self, addr: u32)
        requires
            old(self).wf(),
        ensures
            final(self).wf(),
            final(self)@ == old(self)@.with_dev(
                DevState { pending: old(self)@.dev.pending.push(stale(addr)), ..old(self)@.dev },
            ),
    {
        self.push_op(DatapathOp::CacheInvalidate { addr });
    }

    fn take_arrivals(&mut self) -> (r: Vec<(u8, u64)>)
        requires
            old(self).wf(),
        ensures
            final(self).wf(),
            r@ == old(self)@.dev.olt.arrivals,
            final(self)@ == old(self)@.with_dev(
                DevState {
                    olt: OltState { arrivals: Seq::empty(), ..old(self)@.dev.olt },
                    ..old(self)@.dev
                },
            ),
    {
        self.olt.drain_arrivals()
    }

    fn count_arrival(&mut self, slot: u8, frames: u64)
        requires
            old(self).wf(),
            old(self)@.dev.epon.arrived(slot as int / 32, slot as int % 32) + frames <= u64::MAX,
        ensures
            final(self).wf(),
            final(self)@ == old(self)@.with_dev(
                DevState {
                    epon: all_arrived(old(self)@.dev.epon, seq![(slot, frames)]),
                    ..old(self)@.dev
                },
            ),
    {
        assert(seq![(slot, frames)].drop_last() =~= Seq::<(u8, u64)>::empty());
        reveal_with_fuel(all_arrived, 2);
        self.epon_mac.record_queue_arrivals(slot, frames);
    }

    fn announce_frames(&mut self)
        requires
            old(self).wf(),
        ensures
            final(self).wf(),
            final(self)@ == old(self)@.with_dev(
                DevState {
                    dma_status: old(self)@.dev.dma_status.update(
                        0,
                        old(self)@.dev.dma_status[0] | MAILBOX_STATUS_BIT,
                    ),
                    dma_mask: old(self)@.dev.dma_mask.update(0, old(self)@.dev.dma_mask[0] | 1),
                    pending: old(self)@.dev.pending.push(stale(0x0100_0010)),
                    ..old(self)@.dev
                },
            ),
    {
        self.dma_master_status[0] = self.dma_master_status[0] | MAILBOX_STATUS_BIT;
        self.dma_channel_mask[0] = self.dma_channel_mask[0] | 1;
        self.push_stale(0x0100_0010);
    }

    fn take_downstream(&mut self) -> (r: Vec<LineFrame>)
        requires
            old(self).wf(),
        ensures
            final(self).wf(),
            crate::soc::olt::frame_views(r@) == old(self)@.dev.olt.downstream,
            final(self)@ == old(self)@.with_dev(
                DevState {
                    olt: OltState { downstream: Seq::empty(), ..old(self)@.dev.olt },
                    ..old(self)@.dev
                },
            ),
    {
        self.olt.take_downstream()
    }

    fn queue_frame(&mut self, slot: u8, words: Vec<u32>)
        requires
            old(self).wf(),
        ensures
            final(self).wf(),
            final(self)@ == old(self)@.with_dev(
                DevState {
                    olt: old(self)@.dev.olt.after_queueing(slot, words@),
                    ..old(self)@.dev
                },
            ),
    {
        self.olt.enqueue(slot, words);
    }

    /// The queue a frame goes to.
    fn route(&self, frame: &LineFrame) -> (r: u8)
        ensures
            r == self@.dev.slot_for(frame@),
    {
        match self.classify_downstream(frame.bytes.as_slice()) {
            None => frame.slot,
            Some((verdict, counters)) => {
                proof {
                    crate::soc::lue::law_verdicts_agree(
                        self@.dev.lue.inst[(self@.dev.binding.instance & 1) as int],
                        self@.dev.binding.table,
                        frame.bytes@,
                        verdict,
                        counters,
                    );
                }
                match verdict.queue() {
                    Some(queue) => queue,
                    None => frame.slot,
                }
            },
        }
    }

    /// Put the frames that came down in their queues.
    fn load_frames_into_mailbox(&mut self)
        requires
            old(self).wf(),
        ensures
            final(self).wf(),
            final(self)@ == old(self)@.with_dev(old(self)@.dev.frames_loaded()),
    {
        let frames = self.take_downstream();
        let ghost taken = self@;
        let ghost views = crate::soc::olt::frame_views(frames@);
        let n: usize = frames.len();
        for i in 0..n
            invariant
                n == frames@.len(),
                views == crate::soc::olt::frame_views(frames@),
                self.wf(),
                self@ == taken.with_dev(taken.dev.frames_queued(views, i as nat)),
                self@.dev.use_classifier == taken.dev.use_classifier,
                self@.dev.lue == taken.dev.lue,
                self@.dev.binding == taken.dev.binding,
        {
            let slot: u8 = self.route(&frames[i]);
            let words: Vec<u32> = frames[i].words.clone();
            assert(words@ =~= views[i as int].words);
            assert(slot == taken.dev.slot_for(views[i as int]));
            self.queue_frame(slot, words);
        }
    }

    fn waiting(&self) -> (r: usize)
        ensures
            r == self@.dev.olt.queued.len(),
    {
        self.olt.queued.len()
    }

    fn count_frames(&mut self)
        requires
            old(self).wf(),
            arrivals_fit(old(self)@.dev.epon, old(self)@.dev.frames_loaded().olt.arrivals),
        ensures
            final(self).wf(),
            final(self)@ == old(self)@.with_dev(old(self)@.dev.frames_counted()),
    {
        let before: usize = self.waiting();
        self.load_frames_into_mailbox();
        proof {
            lemma_loading_moves_only_the_link(
                DevState {
                    olt: OltState { downstream: Seq::empty(), ..old(self)@.dev.olt },
                    ..old(self)@.dev
                },
                old(self)@.dev.olt.downstream,
                old(self)@.dev.olt.downstream.len(),
            );
        }
        let grew: bool = self.waiting() > before;
        let arrivals = self.take_arrivals();
        let ghost taken = self@;
        let n: usize = arrivals.len();
        assert(arrivals@.take(0) =~= Seq::<(u8, u64)>::empty());
        assert(arrivals@.take(n as int) =~= arrivals@);
        for i in 0..n
            invariant
                n == arrivals@.len(),
                self.wf(),
                arrivals_fit(taken.dev.epon, arrivals@),
                self@ == taken.with_dev(
                    DevState {
                        epon: all_arrived(taken.dev.epon, arrivals@.take(i as int)),
                        ..taken.dev
                    },
                ),
        {
            let (slot, frames) = arrivals[i];
            proof {
                lemma_arrivals_fit_prefix(taken.dev.epon, arrivals@, i + 1);
                assert(arrivals@.take(i + 1).drop_last() =~= arrivals@.take(i as int));
                assert(arrivals@.take(i + 1).last() == arrivals@[i as int]);
                lemma_one_arrival(
                    all_arrived(taken.dev.epon, arrivals@.take(i as int)),
                    slot,
                    frames,
                );
            }
            self.count_arrival(slot, frames);
        }
        if grew {
            self.announce_frames();
        }
    }

    fn assign_in_table(&mut self, base: u32, llid: u16)
        requires
            old(self).wf(),
            crate::soc::epon_mac::in_table_window(base),
        ensures
            final(self).wf(),
            final(self)@ == old(self)@.with_dev(
                DevState {
                    epon: llid_assigned(old(self)@.dev.epon, base, llid),
                    pending: old(self)@.dev.pending.push(stale(base)),
                    ..old(self)@.dev
                },
            ),
    {
        let before: u32 = match self.epon_mac.peek_word(base) {
            Ok(v) => v,
            Err(_) => 0,
        };
        self.epon_mac.poke_table_store(base, (before & 0xFFFF_0000) | llid as u32);
        self.push_stale(base);
    }

    /// The link the terminal assigned, which is then no longer pending.
    fn take_link(&mut self) -> (r: Option<u16>)
        requires
            old(self).wf(),
        ensures
            final(self).wf(),
            r == old(self)@.dev.olt.pending_llid,
            final(self)@ == old(self)@.with_dev(
                DevState {
                    olt: OltState { pending_llid: None, ..old(self)@.dev.olt },
                    ..old(self)@.dev
                },
            ),
    {
        let link = self.olt.pending_llid_update;
        self.olt.pending_llid_update = None;
        link
    }

    #[verifier::spinoff_prover]
    #[verifier::rlimit(40)]
    fn assign_link(&mut self)
        requires
            old(self).wf(),
        ensures
            final(self).wf(),
            final(self)@ == old(self)@.with_dev(old(self)@.dev.link_assigned()),
    {
        if let Some(llid) = self.take_link() {
            self.assign_in_table(LLID_MATCH_1G, llid);
            self.assign_in_table(LLID_MATCH_10G, llid);
        }
    }

    fn follow_link_change(&mut self)
        requires
            old(self).wf(),
        ensures
            final(self).wf(),
            final(self)@ == old(self)@.with_dev(old(self)@.dev.link_change_followed()),
    {
        if self.olt.link_change_pending {
            self.olt.link_change_pending = false;
            self.epon_mac.set_1g_link_change_bit();
            self.epon_mac.set_discovery_status_bit();
            self.push_stale(LINK_CHANGE_1G);
            self.push_stale(LINK_STATE_10G);
            self.push_stale(DISCOVERY_STATUS);
        }
    }

    fn follow_discovery(&mut self)
        requires
            old(self).wf(),
        ensures
            final(self).wf(),
            final(self)@ == old(self)@.with_dev(old(self)@.dev.discovery_followed()),
    {
        if self.olt.link_up {
            self.epon_mac.set_discovery_status_bit();
        }
    }

    fn follow_lock(&mut self)
        requires
            old(self).wf(),
        ensures
            final(self).wf(),
            final(self)@ == old(self)@.with_dev(old(self)@.dev.lock_followed()),
    {
        if self.olt.link_up && self.olt.broadcast_gate {
            self.epon_mac.set_phy_link_status_bit();
            self.push_stale(LINK_STATE_10G);
        } else if !self.olt.link_up {
            self.epon_mac.clear_phy_link_status_bit();
            self.push_stale(LINK_STATE_10G);
        }
    }

    fn drive_clocks(&mut self)
        requires
            old(self).wf(),
            old(self)@.dev.olt.link_up,
        ensures
            final(self).wf(),
            final(self)@ == old(self)@.with_dev(
                DevState {
                    pending: old(self)@.dev.pending,
                    ..old(self)@.dev.clocks_followed()
                },
            ),
    {
        let ts: u32 = self.olt.mpcp_timestamp;
        self.mpcp_tssync.write(TS_CAPTURED, ts);
        self.nco_tx_ts_counter = self.nco_tx_ts_counter.wrapping_add(1);
        self.mpcp_tssync.write(TS_NCO_TX, self.nco_tx_ts_counter);
        self.mpcp.poke_tx_rate(MPCP_CAPTURED_TS, ts);
        let lock: u32 = if self.olt.broadcast_gate {
            1
        } else {
            0
        };
        let before: u32 = self.mpcp_tssync.read(TS_LOCK);
        self.mpcp_tssync.write(TS_LOCK, (before & !1) | lock);
    }

    fn follow_clocks(&mut self)
        requires
            old(self).wf(),
        ensures
            final(self).wf(),
            final(self)@ == old(self)@.with_dev(old(self)@.dev.clocks_followed()),
    {
        if self.olt.link_up {
            self.drive_clocks();
            self.push_stale(TS_CAPTURED);
            self.push_stale(TS_LOCK);
            self.push_stale(MPCP_CAPTURED_TS);
            self.push_stale(TS_NCO_TX);
        }
    }

    fn push_sram_write(&mut self, sram_addr: u32, data: Vec<u8>)
        requires
            old(self).wf(),
        ensures
            final(self).wf(),
            final(self)@ == old(self)@.with_dev(
                DevState {
                    pending: old(self)@.dev.pending.push(
                        OpView::SramWrite { sram_addr, data: data@ },
                    ),
                    ..old(self)@.dev
                },
            ),
    {
        self.push_op(DatapathOp::SramWrite { sram_addr, data });
    }

    /// Count a registration down. Gives back whether its state is due.
    fn count_registration(&mut self) -> (r: bool)
        requires
            old(self).wf(),
        ensures
            final(self).wf(),
            r == (old(self)@.dev.olt.registration_ticks() == 1),
            final(self)@ == old(self)@.with_dev(
                DevState { olt: old(self)@.dev.olt.registration_counted(), ..old(self)@.dev },
            ),
    {
        self.olt.count_registration()
    }

    fn follow_registration(&mut self)
        requires
            old(self).wf(),
        ensures
            final(self).wf(),
            final(self)@ == old(self)@.with_dev(old(self)@.dev.registration_followed()),
    {
        if self.count_registration() {
            let data: Vec<u8> = vec![0x01u8];
            assert(data@ =~= seq![0x01u8]);
            self.push_sram_write(LLID_STATE_ADDR, data);
        }
    }

    fn follow_bitmaps(&mut self)
        requires
            old(self).wf(),
        ensures
            final(self).wf(),
            final(self)@ == old(self)@.with_dev(old(self)@.dev.bitmaps_followed()),
    {
        self.poke_bitmaps();
        self.push_stale(0x0100_1438);
        self.push_stale(0x0100_1638);
        self.push_stale(0x0100_1838);
        self.push_stale(0x0100_1A38);
        self.push_stale(0x0100_1C38);
        self.push_stale(0x0100_1E38);
    }

    fn notice_done(&mut self) -> (r: bool)
        requires
            old(self).wf(),
        ensures
            final(self).wf(),
            r == old(self)@.dev.olt.mailbox_done(),
            final(self)@ == old(self)@.with_dev(
                DevState { olt: old(self)@.dev.olt.done_noticed(), ..old(self)@.dev },
            ),
    {
        self.olt.notice_done()
    }

    fn set_guard(&mut self, ticks: u32)
        requires
            old(self).wf(),
        ensures
            final(self).wf(),
            final(self)@ == old(self)@.with_dev(
                DevState { guard_countdown: ticks, ..old(self)@.dev },
            ),
    {
        self.guard_clear_countdown = ticks;
    }

    /// Count the frame guard down. Gives back whether it is to be cleared.
    #[verifier::spinoff_prover]
    fn count_guard(&mut self) -> (r: bool)
        requires
            old(self).wf(),
        ensures
            final(self).wf(),
            r == (old(self)@.dev.guard_ticks() == 1),
            final(self)@ == old(self)@.with_dev(old(self)@.dev.guard_counted()),
    {
        let ghost start = self@.dev;
        let before: u32 = self.guard_clear_countdown;
        let done: bool = self.notice_done();
        let (ticks, due) = guard_tick(before, done);
        assert(ticks == start.guard_counted().guard_countdown);
        self.set_guard(ticks);
        due
    }

    fn follow_guard(&mut self)
        requires
            old(self).wf(),
        ensures
            final(self).wf(),
            final(self)@ == old(self)@.with_dev(old(self)@.dev.guard_followed()),
    {
        if self.count_guard() {
            let data: Vec<u8> = vec![0u8; 2];
            assert(data@ =~= seq![0u8, 0u8]);
            self.push_sram_write(GUARD_ADDR, data);
        }
    }

    fn time_events(&mut self, cpu_instructions: u64)
        requires
            old(self).wf(),
        ensures
            final(self).wf(),
            final(self)@ == old(self)@.with_dev(old(self)@.dev.events_timed(cpu_instructions)),
    {
        self.scenario.tick(cpu_instructions);
    }

    fn follow_calibration(&mut self)
        requires
            old(self).wf(),
        ensures
            final(self).wf(),
            final(self)@ == old(self)@.with_dev(old(self)@.dev.calibration_followed()),
    {
        if self.scenario.serdes_cal_converged {
            self.mpcp_bus.set_cal_immediate(true);
        }
    }

    fn raise_irqs(&mut self)
        requires
            old(self).wf(),
        ensures
            final(self).wf(),
            final(self)@ == (BankState { irq: old(self)@.dev.uart.irq(), ..old(self)@ }),
    {
        self.irq_pending = self.uart.irq_pending();
    }

    /// Advance all peripherals.
    pub fn tick(&mut self, cpu_instructions: u64)
        requires
            old(self).wf(),
            old(self)@.can_tick(cpu_instructions),
        ensures
            final(self).wf(),
            final(self)@ == old(self)@.after_tick(cpu_instructions),
    {
        self.drain_uart_channel();
        self.move_on(cpu_instructions);
        self.count_frames();
        self.assign_link();
        self.follow_link_change();
        self.follow_discovery();
        self.follow_lock();
        self.follow_clocks();
        self.follow_registration();
        self.follow_bitmaps();
        self.follow_guard();
        self.time_events(cpu_instructions);
        self.follow_calibration();
        self.raise_irqs();
    }
}

/// One tick of the frame guard: what is left of it, and whether it runs out.
fn guard_tick(before: u32, done: bool) -> (r: (u32, bool))
    ensures
        ({
            let count = if done && before == 0 {
                GUARD_CLEAR_TICKS
            } else {
                before
            };
            r.0 == (if count > 0 {
                (count - 1) as u32
            } else {
                0
            }) && r.1 == (count == 1)
        }),
{
    let count: u32 = if done && before == 0 {
        GUARD_CLEAR_TICKS
    } else {
        before
    };
    if count > 0 {
        (count - 1, count == 1)
    } else {
        (0, false)
    }
}

/// Putting frames in their queues moves nothing but the link.
proof fn lemma_loading_moves_only_the_link(d: DevState, frames: Seq<FrameState>, n: nat)
    ensures
        d.frames_queued(frames, n) == (DevState { olt: d.frames_queued(frames, n).olt, ..d }),
    decreases n,
{
    if n > 0 {
        lemma_loading_moves_only_the_link(d, frames, (n - 1) as nat);
    }
}

/// Every frame that comes down waits in the queue it was sent to, behind those
/// that wait already, and is counted there once.
pub proof fn law_frames_wait_in_their_queues(d: DevState, i: int)
    requires
        0 <= i < d.olt.downstream.len(),
    ensures
        ({
            let after = d.frames_loaded().olt;
            let at = d.olt.queued.len() + i;
            &&& after.downstream.len() == 0
            &&& after.queued.len() == d.olt.queued.len() + d.olt.downstream.len()
            &&& after.queued[at] == (QueuedState {
                slot: d.slot_for(d.olt.downstream[i]),
                words: d.olt.downstream[i].words,
            })
            &&& after.arrivals[d.olt.arrivals.len() + i] == (d.slot_for(d.olt.downstream[i]), 1u64)
        }),
{
    let start = DevState { olt: OltState { downstream: Seq::empty(), ..d.olt }, ..d };
    lemma_frames_queued(start, d.olt.downstream, d.olt.downstream.len());
    assert(start.slot_for(d.olt.downstream[i]) == d.slot_for(d.olt.downstream[i]));
}

proof fn lemma_frames_queued(d: DevState, frames: Seq<FrameState>, n: nat)
    requires
        n <= frames.len(),
    ensures
        ({
            let after = d.frames_queued(frames, n).olt;
            &&& after.downstream == d.olt.downstream
            &&& after.queued.len() == d.olt.queued.len() + n
            &&& after.arrivals.len() == d.olt.arrivals.len() + n
            &&& forall|i: int|
                #![trigger frames[i]]
                0 <= i < n ==> after.queued[d.olt.queued.len() + i] == (QueuedState {
                    slot: d.slot_for(frames[i]),
                    words: frames[i].words,
                }) && after.arrivals[d.olt.arrivals.len() + i] == (d.slot_for(frames[i]), 1u64)
        }),
    decreases n,
{
    if n > 0 {
        lemma_frames_queued(d, frames, (n - 1) as nat);
    }
}

/// While the classifier's gate is shut, a frame goes where its EtherType says.
pub proof fn law_shut_gate_decides_nothing(d: DevState, frame: FrameState)
    requires
        !d.use_classifier,
    ensures
        d.slot_for(frame) == frame.slot,
{
}

proof fn lemma_arrivals_fit_prefix(epon: EponRegs, arrivals: Seq<(u8, u64)>, n: int)
    requires
        0 <= n <= arrivals.len(),
        arrivals_fit(epon, arrivals),
    ensures
        arrivals_fit(epon, arrivals.take(n)),
    decreases arrivals.len() - n,
{
    if n == arrivals.len() {
        assert(arrivals.take(n) =~= arrivals);
    } else {
        lemma_arrivals_fit_prefix(epon, arrivals, n + 1);
        assert(arrivals.take(n + 1).drop_last() =~= arrivals.take(n));
    }
}

proof fn lemma_one_arrival(epon: EponRegs, slot: u8, frames: u64)
    ensures
        all_arrived(epon, seq![(slot, frames)]) == (if frames == 0 {
            epon
        } else {
            EponRegs {
                arrivals: epon.arrivals.insert(
                    slot as u32,
                    (epon.arrived(slot as int / 32, slot as int % 32) + frames) as u64,
                ),
                ..epon
            }
        }),
{
    reveal_with_fuel(all_arrived, 2);
    assert(seq![(slot, frames)].drop_last() =~= Seq::<(u8, u64)>::empty());
}

/// A tick moves each peripheral by its own step and no other: time passes on the
/// link, the queues of the MAC are ready to drain, and the two buses and the DMA
/// channels take their ticks.
pub proof fn law_tick_moves_each_peripheral(d: DevState, insns: u64, i: int)
    requires
        0 <= i < 6,
    ensures
        ({
            let after = d.moved_on(insns);
            &&& after.olt == (OltState { elapsed: d.olt.elapsed.wrapping_add(insns), ..d.olt })
            &&& after.bsc == d.bsc.after_tick()
            &&& after.lane == d.lane.after_tick()
            &&& after.dma == d.dma.after_tick()
            &&& after.epon.drain[i]
            &&& after.epon == (EponRegs { drain: after.epon.drain, ..d.epon })
            &&& after.uart == d.uart && after.pbc == d.pbc && after.lue == d.lue && after.macsec
                == d.macsec && after.mpcp == d.mpcp && after.sysreg == d.sysreg && after.scenario
                == d.scenario && after.pending == d.pending
        }),
{
}

/// Frames that came down are announced: the mailbox bit, bit 27 of the first DMA
/// status, and the first bit of its mask go up, and the status word goes stale.
/// Where none came, nothing is announced.
pub proof fn law_frames_are_announced(d: DevState)
    requires
        d.dma_status.len() == 2,
        d.dma_mask.len() == 2,
    ensures
        ({
            let after = d.frames_counted();
            &&& d.olt.downstream.len() > 0 ==> after.dma_status[0] == d.dma_status[0]
                | 0x0800_0000 && after.dma_status[0] & 0x0800_0000 != 0 && after.dma_mask[0] & 1
                != 0 && after.pending == d.pending.push(
                OpView::CacheInvalidate { addr: 0x0100_0010 },
            )
            &&& d.olt.downstream.len() == 0 ==> after.dma_status == d.dma_status && after.dma_mask
                == d.dma_mask && after.pending == d.pending
            &&& after.dma_status[1] == d.dma_status[1] && after.dma_mask[1] == d.dma_mask[1]
            &&& after.olt.arrivals.len() == 0
            &&& after.olt.queued == d.frames_loaded().olt.queued
        }),
{
    let start = DevState { olt: OltState { downstream: Seq::empty(), ..d.olt }, ..d };
    lemma_frames_queued(start, d.olt.downstream, d.olt.downstream.len());
    lemma_loading_moves_only_the_link(start, d.olt.downstream, d.olt.downstream.len());
    crate::bits::lemma_set_bits(d.dma_status[0], 0x0800_0000);
    crate::bits::lemma_set_bits(d.dma_mask[0], 1);
}

/// The arrivals of a queue add up, and count for no other queue.
pub proof fn law_arrivals_add_up(
    epon: EponRegs,
    arrivals: Seq<(u8, u64)>,
    slot: u8,
    frames: u64,
    other: u8,
)
    requires
        arrivals_fit(epon, arrivals.push((slot, frames))),
    ensures
        ({
            let before = all_arrived(epon, arrivals);
            let after = all_arrived(epon, arrivals.push((slot, frames)));
            &&& after.arrived(slot as int / 32, slot as int % 32) == before.arrived(
                slot as int / 32,
                slot as int % 32,
            ) + frames
            &&& other != slot ==> after.arrived(other as int / 32, other as int % 32)
                == before.arrived(other as int / 32, other as int % 32)
            &&& after == (EponRegs { arrivals: after.arrivals, ..before })
        }),
        all_arrived(epon, Seq::empty()) == epon,
{
    let all = arrivals.push((slot, frames));
    assert(all.drop_last() =~= arrivals);
    assert(all.last() == (slot, frames));
}

/// A link the terminal assigned stands in the low half of slot 0 of both match
/// tables, beside what their high halves held, and is assigned once.
pub proof fn law_assigned_link_reaches_both_tables(d: DevState, llid: u16)
    requires
        d.olt.pending_llid == Some(llid),
        d.epon.table.len() == 672,
    ensures
        ({
            let after = d.link_assigned();
            &&& after.epon.word_at(0x0100_043C) == (d.epon.word_at(0x0100_043C) / 0x1_0000)
                * 0x1_0000 + llid
            &&& after.epon.word_at(0x0100_0D00) == (d.epon.word_at(0x0100_0D00) / 0x1_0000)
                * 0x1_0000 + llid
            &&& after.olt.pending_llid is None
            &&& after.link_assigned() == after
            &&& after.pending == d.pending.push(OpView::CacheInvalidate { addr: 0x0100_043C }).push(
                OpView::CacheInvalidate { addr: 0x0100_0D00 },
            )
        }),
{
    crate::bits::lemma_fields(2);
    crate::soc::peripheral::law_replaced_lanes_stand_big_endian(
        d.epon.word_at(0x0100_043C),
        2,
        0,
        llid,
    );
    crate::soc::peripheral::law_replaced_lanes_stand_big_endian(
        d.epon.word_at(0x0100_0D00),
        2,
        0,
        llid,
    );
}

/// A link change shows once, as bit 1 of the 1G status and bit 2 of discovery;
/// while the link is up, discovery bit 2 is kept up.
pub proof fn law_link_change_shows_once(d: DevState)
    ensures
        ({
            let after = d.link_change_followed();
            &&& d.olt.link_change ==> after.epon.link_1g & 2 == 2 && after.epon.discovery & 4 == 4
                && after.epon.link_1g & !2u32 == d.epon.link_1g & !2u32 && after.epon.discovery
                & !4u32 == d.epon.discovery & !4u32
            &&& !after.olt.link_change
            &&& after.link_change_followed() == after
            &&& !d.olt.link_change ==> after == d
        }),
        d.olt.link_up ==> d.discovery_followed().epon.discovery & 4 == 4,
        !d.olt.link_up ==> d.discovery_followed() == d,
{
    crate::bits::lemma_set_bits(d.epon.link_1g, 2);
    crate::bits::lemma_set_bits(d.epon.discovery, 4);
}

/// The block lock, bit 6 of the 10G state, is up while the downstream is there
/// and down while the link is down; other bits of the word stay.
pub proof fn law_block_lock_follows_the_downstream(d: DevState)
    ensures
        ({
            let after = d.lock_followed();
            &&& d.olt.link_up && d.olt.gate ==> after.epon.hw_state & 0x40 == 0x40
            &&& !d.olt.link_up ==> after.epon.hw_state & 0x40 == 0
            &&& d.olt.link_up && !d.olt.gate ==> after == d
            &&& after.epon.hw_state & !0x40u32 == d.epon.hw_state & !0x40u32
            &&& after.epon == (EponRegs { hw_state: after.epon.hw_state, ..d.epon })
        }),
{
    crate::bits::lemma_set_bits(d.epon.hw_state, 0x40);
    crate::bits::lemma_clear_bits(d.epon.hw_state, 0x40);
}

/// While the link is up, the captured time is the terminal's, in both places;
/// the local time has moved on by one; and the lock bit says whether the terminal
/// grants. While it is down, the clocks stand.
pub proof fn law_clocks_follow_the_terminal(d: DevState)
    requires
        d.mpcp.wf(),
    ensures
        ({
            let after = d.clocks_followed();
            &&& d.olt.link_up ==> {
                &&& after.tssync.word_at(0x0100_00B4) == d.olt.timestamp
                &&& after.tssync.word_at(0x0100_0D8C) == d.nco_tx_ts.wrapping_add(1)
                &&& after.nco_tx_ts == d.nco_tx_ts.wrapping_add(1)
                &&& after.tssync.word_at(0x0100_0304) & 1 == (if d.olt.gate { 1u32 } else { 0 })
                &&& after.tssync.word_at(0x0100_0304) / 2 == d.tssync.word_at(0x0100_0304) / 2
                &&& after.mpcp.word_at(0x0100_0320) == d.olt.timestamp
                &&& after.pending.len() == d.pending.len() + 4
            }
            &&& !d.olt.link_up ==> after == d
        }),
{
    let w = d.tssync.word_at(0x0100_0304);
    crate::bits::lemma_round_down(0x0100_00B4);
    crate::bits::lemma_round_down(0x0100_0D8C);
    crate::bits::lemma_round_down(0x0100_0304);
    crate::bits::lemma_round_down(0x0100_0320);
    assert({
        &&& ((w & !1) | 1u32) & 1 == 1
        &&& ((w & !1) | 0u32) & 1 == 0
        &&& ((w & !1) | 1u32) / 2 == w / 2
        &&& ((w & !1) | 0u32) / 2 == w / 2
    }) by (bit_vector);
}

/// The link state of a finished registration is left in memory with the last of
/// its ticks, and only then.
pub proof fn law_registration_leaves_its_state_once(d: DevState)
    ensures
        ({
            let after = d.registration_followed();
            let due = !d.olt.registered && d.olt.init_countdown == 1;
            &&& due ==> after.pending == d.pending.push(
                OpView::SramWrite { sram_addr: 0x461C, data: seq![1u8] },
            )
            &&& !due ==> after.pending == d.pending
            &&& after.olt == d.olt.registration_counted()
            &&& after.epon == d.epon
        }),
{
}

/// The frame guard is cleared by two bytes of zero three ticks after the mailbox
/// was found done.
pub proof fn law_guard_clears_after_three_ticks(d: DevState)
    ensures
        ({
            let after = d.guard_followed();
            let found = d.olt.mailbox_done() && d.guard_countdown == 0;
            &&& found ==> after.guard_countdown == 2 && after.pending == d.pending
            &&& !found && d.guard_countdown > 1 ==> after.guard_countdown == d.guard_countdown - 1
                && after.pending == d.pending
            &&& d.guard_countdown == 1 ==> after.guard_countdown == 0 && after.pending
                == d.pending.push(
                OpView::SramWrite { sram_addr: 0x0007_E3CA, data: seq![0u8, 0u8] },
            )
            &&& !found && d.guard_countdown == 0 ==> after.guard_countdown == 0 && after.pending
                == d.pending
            &&& after.olt == d.olt.done_noticed()
        }),
{
}

/// While the classifier's gate is open, a frame goes to the queue that its rules
/// name; where they name none, it goes where its EtherType says. The instance
/// counts in two.
pub proof fn law_open_gate_asks_the_rules(d: DevState, frame: FrameState)
    requires
        d.use_classifier,
    ensures
        ({
            let says = crate::soc::lue::engine::queue_of(
                crate::soc::lue::classified(
                    d.lue.inst[d.binding.instance as int % 2],
                    d.binding.table,
                    frame.bytes,
                ),
            );
            &&& says matches Some(q) ==> d.slot_for(frame) == q
            &&& says is None ==> d.slot_for(frame) == frame.slot
        }),
{
    crate::soc::lue::port::lemma_slot_bound(d.binding.instance);
}

/// A converged analog state makes the lanes calibrate at once; nothing else of
/// the lanes changes.
pub proof fn law_converged_lanes_calibrate_at_once(d: DevState)
    ensures
        d.scenario.cal_converged ==> d.calibration_followed().lane.immediate,
        d.calibration_followed().lane == (LaneState {
            immediate: d.calibration_followed().lane.immediate,
            ..d.lane
        }),
        !d.scenario.cal_converged ==> d.calibration_followed() == d,
{
}

/// Bytes on their way reach the serial port in order, behind those that wait,
/// and none is left on the way. The pending interrupts are then those of the
/// serial port.
pub proof fn law_bytes_reach_the_serial_port(b: BankState, insns: u64)
    ensures
        b.received().dev.uart.rx == b.dev.uart.rx + b.rx_channel,
        b.received().dev.uart.tx == b.dev.uart.tx,
        b.received().rx_channel.len() == 0,
        b.after_tick(insns).rx_channel.len() == 0,
        b.after_tick(insns).irq == b.after_tick(insns).dev.uart.irq(),
        b.after_tick(insns).log == b.log,
{
}

/// After a tick with the link up, the time-sync words show the terminal's clock,
/// and neither a link change nor an assigned link is left to be told.
pub proof fn law_tick_tells_of_the_link(d: DevState, insns: u64)
    requires
        d.mpcp.wf(),
    ensures
        ({
            let after = d.ticked(insns);
            &&& d.olt.link_up ==> after.tssync.word_at(0x0100_00B4) == d.olt.timestamp
                && after.mpcp.word_at(0x0100_0320) == d.olt.timestamp
            &&& !after.olt.link_change
            &&& after.olt.pending_llid is None
            &&& after.olt.downstream.len() == 0
            &&& after.olt.arrivals.len() == 0
            &&& after.scenario == d.scenario.after_tick(insns)
            &&& after.bsc == d.bsc.after_tick()
            &&& after.dma == d.dma.after_tick()
            &&& after.macsec == d.macsec && after.lue == d.lue && after.sysreg == d.sysreg
        }),
{
    let moved = d.moved_on(insns);
    let start = DevState { olt: OltState { downstream: Seq::empty(), ..moved.olt }, ..moved };
    lemma_loading_moves_only_the_link(start, moved.olt.downstream, moved.olt.downstream.len());
    lemma_queueing_keeps_the_link(start, moved.olt.downstream, moved.olt.downstream.len());
    let counted = moved.frames_counted();
    assert(counted.olt.link_up == d.olt.link_up && counted.olt.timestamp == d.olt.timestamp);
    assert(counted.mpcp == d.mpcp);
    let followed = counted.link_assigned().link_followed();
    assert(followed.olt.link_up == d.olt.link_up && followed.olt.timestamp == d.olt.timestamp);
    law_clocks_follow_the_terminal(followed);
}

proof fn lemma_queueing_keeps_the_link(d: DevState, frames: Seq<FrameState>, n: nat)
    requires
        n <= frames.len(),
    ensures
        ({
            let after = d.frames_queued(frames, n).olt;
            after == (OltState { queued: after.queued, arrivals: after.arrivals, ..d.olt })
        }),
    decreases n,
{
    if n > 0 {
        lemma_queueing_keeps_the_link(d, frames, (n - 1) as nat);
    }
}

} // verus!
