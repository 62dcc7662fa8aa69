//! The far end of the optical link, as the bank sees it.
//!
//! The line terminal itself runs elsewhere. What it has to say between two
//! ticks stands here as plain values: frames on their way down, link and
//! registration changes, the timestamp. What software did stands here for it to
//! pick up: mailbox commands, observed writes, bursts the transmitter was told
//! to fire, and how far the processor has come.
//!
//! A frame that comes down is put in a queue on the next tick, and its bit in
//! the queue bitmap goes up. A mailbox command moves the oldest frame of the
//! queue it names to where software reads it, word by word, and the bitmap
//! follows at once.

use vstd::prelude::*;

use crate::soc::epon_mac::{REG_REPORT_FRAME_LEN, REG_REPORT_FRAME_PARAMS};
use crate::soc::peripheral::AddressRange;

verus! {

/// Queue bitmap words.
pub const MAILBOX_BITMAP_WORDS: usize = 6;

/// A registration request the transmitter was told to send.
#[derive(Clone, Copy, Debug, PartialEq, Eq, Structural)]
pub struct RegisterRequest {
    /// Source address to use instead of the placeholder, if one is configured.
    pub source: Option<u64>,
    pub timestamp: u32,
    /// Discovery windows the frame claims.
    pub discovery_information: u16,
    pub laser_on: u8,
    pub laser_off: u8,
}

/// Ticks between the end of a registration and the link state it leaves.
pub const LLID_STATE_INIT_TICKS: u32 = 2000;

/// Discovery windows a synthesized request claims: the 10/1 Gbit/s row.
pub const SYNTHETIC_DISCOVERY_INFORMATION: u16 = 0x0011;

/// Laser on and off times a synthesized request declares.
pub const SYNTHETIC_LASER_TQ: u8 = 32;

/// A frame on its way down.
#[derive(Debug)]
pub struct LineFrame {
    pub bytes: Vec<u8>,
    /// The words software reads of it.
    pub words: Vec<u32>,
    /// The queue its EtherType puts it in.
    pub slot: u8,
}

/// A frame on its way down, as values.
#[verifier::ext_equal]
pub struct FrameState {
    pub bytes: Seq<u8>,
    pub words: Seq<u32>,
    pub slot: u8,
}

impl View for LineFrame {
    type V = FrameState;

    open spec fn view(&self) -> FrameState {
        FrameState { bytes: self.bytes@, words: self.words@, slot: self.slot }
    }
}

pub open spec fn frame_views(frames: Seq<LineFrame>) -> Seq<FrameState> {
    Seq::new(frames.len(), |i: int| frames[i]@)
}

fn clone_frames(frames: &Vec<LineFrame>) -> (r: Vec<LineFrame>)
    ensures
        frame_views(r@) == frame_views(frames@),
{
    let mut out: Vec<LineFrame> = Vec::new();
    for i in 0..frames.len()
        invariant
            out@.len() == i,
            forall|k: int| 0 <= k < i ==> (#[trigger] out@[k])@ == frames@[k]@,
    {
        let f = &frames[i];
        let bytes: Vec<u8> = f.bytes.clone();
        let words: Vec<u32> = f.words.clone();
        assert(bytes@ =~= f.bytes@ && words@ =~= f.words@);
        out.push(LineFrame { bytes, words, slot: f.slot });
    }
    assert(frame_views(out@) =~= frame_views(frames@));
    out
}

/// A frame that waits in a queue.
#[derive(Debug)]
pub struct QueuedFrame {
    pub slot: u8,
    pub words: Vec<u32>,
}

/// A frame that waits in a queue, as values.
#[verifier::ext_equal]
pub struct QueuedState {
    pub slot: u8,
    pub words: Seq<u32>,
}

impl View for QueuedFrame {
    type V = QueuedState;

    open spec fn view(&self) -> QueuedState {
        QueuedState { slot: self.slot, words: self.words@ }
    }
}

pub open spec fn queue_views(queued: Seq<QueuedFrame>) -> Seq<QueuedState> {
    Seq::new(queued.len(), |i: int| queued[i]@)
}

fn clone_queued(queued: &Vec<QueuedFrame>) -> (r: Vec<QueuedFrame>)
    ensures
        queue_views(r@) == queue_views(queued@),
{
    let mut out: Vec<QueuedFrame> = Vec::new();
    for i in 0..queued.len()
        invariant
            out@.len() == i,
            forall|k: int| 0 <= k < i ==> (#[trigger] out@[k])@ == queued@[k]@,
    {
        let words: Vec<u32> = queued[i].words.clone();
        assert(words@ =~= queued@[i as int].words@);
        out.push(QueuedFrame { slot: queued[i].slot, words });
    }
    assert(queue_views(out@) =~= queue_views(queued@));
    out
}

/// The queue bitmap: one bit for each queue with a frame in it, 32 queues a
/// word.
pub open spec fn bitmap_of(queued: Seq<QueuedState>) -> Seq<u32>
    decreases queued.len(),
{
    if queued.len() == 0 {
        Seq::new(6, |i: int| 0u32)
    } else {
        let before = bitmap_of(queued.drop_last());
        let slot = queued.last().slot;
        if slot / 32 < 6 {
            before.update(slot as int / 32, before[slot as int / 32] | (1u32 << (slot % 32) as u32))
        } else {
            before
        }
    }
}

/// The oldest frame of a queue, if it has one.
pub open spec fn oldest_of(queued: Seq<QueuedState>, slot: u32) -> Option<int>
    decreases queued.len(),
{
    if queued.len() == 0 {
        None
    } else {
        match oldest_of(queued.drop_last(), slot) {
            Some(i) => Some(i),
            None => if queued.last().slot == slot {
                Some(queued.len() - 1)
            } else {
                None
            },
        }
    }
}

/// Whether an address is one the MAC takes the report template from.
pub open spec fn is_report_template(addr: u32) -> bool {
    addr == REG_REPORT_FRAME_PARAMS || addr == REG_REPORT_FRAME_LEN
}

/// The link, as values.
#[verifier::ext_equal]
pub struct OltState {
    pub mailbox: AddressRange,
    pub status: Option<(u32, u32)>,
    pub data_addr: Option<u32>,
    pub fifo: Seq<u32>,
    pub cmd_addr: Option<u32>,
    pub slot_shift: u32,
    pub slot_mask: u32,
    pub commands: Seq<u32>,
    pub observed: Seq<(u32, u32)>,
    pub template: Seq<(u32, u32)>,
    pub downstream: Seq<FrameState>,
    pub queued: Seq<QueuedState>,
    pub arrivals: Seq<(u8, u64)>,
    pub elapsed: u64,
    pub pending_llid: Option<u16>,
    pub link_change: bool,
    pub link_up: bool,
    pub gate: bool,
    pub timestamp: u32,
    pub registered: bool,
    pub init_countdown: u32,
    pub frame_consumed: bool,
    pub idle: bool,
    pub assigned_llid: u16,
    pub real_tx_seen: bool,
    pub onu_mac: Option<u64>,
    pub bursts: Seq<RegisterRequest>,
}

impl OltState {
    /// What a mailbox read gives, if the link answers it: the command status,
    /// or the next word of the frame at the head.
    pub open spec fn mailbox_word(self, addr: u32) -> Option<u32> {
        if !self.mailbox.has(addr) {
            None
        } else if self.status is Some && (self.status->0).0 == addr {
            Some((self.status->0).1)
        } else if self.data_addr == Some(addr) && self.fifo.len() > 0 {
            Some(self.fifo[0])
        } else {
            None
        }
    }

    /// Whether a mailbox read gives the command status.
    pub open spec fn gives_status(self, addr: u32) -> bool {
        self.mailbox.has(addr) && self.status is Some && (self.status->0).0 == addr
    }

    /// The link after a mailbox read: a frame word is given once, and with the
    /// last one the frame is consumed.
    pub open spec fn after_mailbox_read(self, addr: u32) -> OltState {
        if self.mailbox_word(addr) is Some && !self.gives_status(addr) {
            OltState {
                fifo: self.fifo.skip(1),
                frame_consumed: self.frame_consumed || self.fifo.len() == 1,
                ..self
            }
        } else {
            self
        }
    }

    /// The link after it sees a write on the bus: one of the report template,
    /// or one to the mailbox.
    pub open spec fn after_observing(self, addr: u32, val: u32) -> OltState {
        OltState {
            template: if is_report_template(addr) {
                self.template.push((addr, val))
            } else {
                self.template
            },
            observed: if self.mailbox.has(addr) {
                self.observed.push((addr, val))
            } else {
                self.observed
            },
            ..self
        }
    }

    /// Whether a write is a mailbox command.
    pub open spec fn is_command(self, addr: u32) -> bool {
        self.mailbox.has(addr) && self.cmd_addr == Some(addr)
    }

    /// The queue a command names.
    pub open spec fn command_slot(self, val: u32) -> u32 {
        if self.slot_shift < 32 {
            (val >> self.slot_shift) & self.slot_mask
        } else {
            0
        }
    }

    /// The queue bitmap software reads.
    pub open spec fn bitmap(self) -> Seq<u32> {
        bitmap_of(self.queued)
    }

    /// The link after a mailbox command: the oldest frame of the queue it names
    /// moves to where software reads it.
    pub open spec fn after_command(self, val: u32) -> OltState {
        let noted = OltState { commands: self.commands.push(val), ..self };
        match oldest_of(self.queued, self.command_slot(val)) {
            Some(i) => OltState {
                fifo: self.queued[i].words,
                queued: self.queued.remove(i),
                ..noted
            },
            None => noted,
        }
    }

    /// The link after a frame was put in a queue.
    pub open spec fn after_queueing(self, slot: u8, words: Seq<u32>) -> OltState {
        OltState {
            queued: self.queued.push(QueuedState { slot, words }),
            arrivals: self.arrivals.push((slot, 1u64)),
            ..self
        }
    }

    /// The link after the transmitter was told to fire: a request stands in
    /// for the frame until the firmware's own transmission has been seen.
    pub open spec fn after_burst(self) -> OltState {
        if self.link_up && !self.real_tx_seen {
            OltState {
                bursts: self.bursts.push(
                    RegisterRequest {
                        source: self.onu_mac,
                        timestamp: self.timestamp,
                        discovery_information: SYNTHETIC_DISCOVERY_INFORMATION,
                        laser_on: SYNTHETIC_LASER_TQ,
                        laser_off: SYNTHETIC_LASER_TQ,
                    },
                ),
                ..self
            }
        } else {
            self
        }
    }

    /// Ticks until the link state of a registration is due.
    pub open spec fn registration_ticks(self) -> u32 {
        if self.registered {
            LLID_STATE_INIT_TICKS
        } else {
            self.init_countdown
        }
    }

    /// The link after a tick of a registration.
    pub open spec fn registration_counted(self) -> OltState {
        OltState {
            registered: false,
            init_countdown: if self.registration_ticks() > 0 {
                (self.registration_ticks() - 1) as u32
            } else {
                0
            },
            ..self
        }
    }

    /// Whether software is done with the frame in the mailbox.
    pub open spec fn mailbox_done(self) -> bool {
        self.frame_consumed || (self.queued.len() == 0 && self.fifo.len() == 0)
    }

    /// The link once that was noticed.
    pub open spec fn done_noticed(self) -> OltState {
        if self.mailbox_done() {
            OltState { frame_consumed: false, ..self }
        } else {
            self
        }
    }

    /// The link after a reset: where its mailbox lies and whom it sends for
    /// are not state.
    pub open spec fn after_reset(self) -> OltState {
        OltState {
            mailbox: self.mailbox,
            data_addr: self.data_addr,
            cmd_addr: self.cmd_addr,
            slot_shift: self.slot_shift,
            slot_mask: self.slot_mask,
            onu_mac: self.onu_mac,
            ..OltState::absent()
        }
    }

    /// A link with nobody at the far end.
    pub open spec fn absent() -> OltState {
        OltState {
            mailbox: AddressRange { start: 0, end: 0 },
            status: None,
            data_addr: None,
            fifo: Seq::empty(),
            cmd_addr: None,
            slot_shift: 0,
            slot_mask: 0xFF,
            commands: Seq::empty(),
            observed: Seq::empty(),
            template: Seq::empty(),
            downstream: Seq::empty(),
            queued: Seq::empty(),
            arrivals: Seq::empty(),
            elapsed: 0,
            pending_llid: None,
            link_change: false,
            link_up: false,
            gate: false,
            timestamp: 0,
            registered: false,
            init_countdown: 0,
            frame_consumed: false,
            idle: true,
            assigned_llid: 0,
            real_tx_seen: false,
            onu_mac: None,
            bursts: Seq::empty(),
        }
    }
}

#[derive(Debug)]
pub struct OltLink {
    /// Where the frame mailbox lies.
    pub mailbox: AddressRange,
    /// Address and value of the command status.
    pub status: Option<(u32, u32)>,
    /// Where the words of the frame at the head are read.
    pub data_addr: Option<u32>,
    pub fifo: Vec<u32>,
    /// Where commands are written.
    pub cmd_addr: Option<u32>,
    /// Where a command names its queue.
    pub slot_shift: u32,
    pub slot_mask: u32,
    /// Commands taken since the terminal last looked.
    pub commands: Vec<u32>,
    /// Mailbox writes seen since the terminal last looked.
    pub observed: Vec<(u32, u32)>,
    /// Writes of the report template seen since the terminal last looked.
    pub template: Vec<(u32, u32)>,
    /// Frames the terminal has sent down since the last tick.
    pub downstream: Vec<LineFrame>,
    /// Frames that wait in their queues, oldest first.
    pub queued: Vec<QueuedFrame>,
    /// Queue and number of the frames that landed.
    pub arrivals: Vec<(u8, u64)>,
    /// Instructions the processor has run.
    pub elapsed: u64,
    pub pending_llid_update: Option<u16>,
    pub link_change_pending: bool,
    pub link_up: bool,
    /// Whether a downstream gate was broadcast.
    pub broadcast_gate: bool,
    pub mpcp_timestamp: u32,
    pub registration_complete: bool,
    pub llid_state_init_countdown: u32,
    pub frame_consumed: bool,
    /// Whether no terminal has been registered with.
    pub idle: bool,
    pub assigned_llid: u16,
    /// Whether the firmware's own transmission has been captured.
    pub real_tx_seen: bool,
    /// Source address for synthesized frames, in its low six bytes.
    pub onu_mac_override: Option<u64>,
    /// Bursts to put on the line.
    pub bursts: Vec<RegisterRequest>,
}

impl View for OltLink {
    type V = OltState;

    open spec fn view(&self) -> OltState {
        OltState {
            mailbox: self.mailbox,
            status: self.status,
            data_addr: self.data_addr,
            fifo: self.fifo@,
            cmd_addr: self.cmd_addr,
            slot_shift: self.slot_shift,
            slot_mask: self.slot_mask,
            commands: self.commands@,
            observed: self.observed@,
            template: self.template@,
            downstream: frame_views(self.downstream@),
            queued: queue_views(self.queued@),
            arrivals: self.arrivals@,
            elapsed: self.elapsed,
            pending_llid: self.pending_llid_update,
            link_change: self.link_change_pending,
            link_up: self.link_up,
            gate: self.broadcast_gate,
            timestamp: self.mpcp_timestamp,
            registered: self.registration_complete,
            init_countdown: self.llid_state_init_countdown,
            frame_consumed: self.frame_consumed,
            idle: self.idle,
            assigned_llid: self.assigned_llid,
            real_tx_seen: self.real_tx_seen,
            onu_mac: self.onu_mac_override,
            bursts: self.bursts@,
        }
    }
}

impl Clone for OltLink {
    fn clone(&self) -> (r: Self)
        ensures
            r@ == self@,
    {
        let r = OltLink {
            mailbox: self.mailbox,
            status: self.status,
            data_addr: self.data_addr,
            fifo: self.fifo.clone(),
            cmd_addr: self.cmd_addr,
            slot_shift: self.slot_shift,
            slot_mask: self.slot_mask,
            commands: self.commands.clone(),
            observed: vstd::slice::slice_to_vec(self.observed.as_slice()),
            template: vstd::slice::slice_to_vec(self.template.as_slice()),
            downstream: clone_frames(&self.downstream),
            queued: clone_queued(&self.queued),
            arrivals: vstd::slice::slice_to_vec(self.arrivals.as_slice()),
            elapsed: self.elapsed,
            pending_llid_update: self.pending_llid_update,
            link_change_pending: self.link_change_pending,
            link_up: self.link_up,
            broadcast_gate: self.broadcast_gate,
            mpcp_timestamp: self.mpcp_timestamp,
            registration_complete: self.registration_complete,
            llid_state_init_countdown: self.llid_state_init_countdown,
            frame_consumed: self.frame_consumed,
            idle: self.idle,
            assigned_llid: self.assigned_llid,
            real_tx_seen: self.real_tx_seen,
            onu_mac_override: self.onu_mac_override,
            bursts: self.bursts.clone(),
        };
        assert(r.fifo@ =~= self.fifo@);
        assert(r.commands@ =~= self.commands@);
        assert(r.observed@ =~= self.observed@);
        assert(r.template@ =~= self.template@);
        assert(r.arrivals@ =~= self.arrivals@);
        assert(r.bursts@ =~= self.bursts@);
        assert(r@ =~= self@);
        r
    }
}

impl OltLink {
    /// No terminal at the far end.
    pub fn new() -> (r: Self)
        ensures
            r@ == OltState::absent(),
    {
        let r = OltLink {
            mailbox: AddressRange::new(0, 0),
            status: None,
            data_addr: None,
            fifo: Vec::new(),
            cmd_addr: None,
            slot_shift: 0,
            slot_mask: 0xFF,
            commands: Vec::new(),
            observed: Vec::new(),
            template: Vec::new(),
            downstream: Vec::new(),
            queued: Vec::new(),
            arrivals: Vec::new(),
            elapsed: 0,
            pending_llid_update: None,
            link_change_pending: false,
            link_up: false,
            broadcast_gate: false,
            mpcp_timestamp: 0,
            registration_complete: false,
            llid_state_init_countdown: 0,
            frame_consumed: false,
            idle: true,
            assigned_llid: 0,
            real_tx_seen: false,
            onu_mac_override: None,
            bursts: Vec::new(),
        };
        assert(r@ =~= OltState::absent());
        r
    }

    pub fn claims_mailbox(&self, addr: u32) -> (r: bool)
        ensures
            r == self@.mailbox.has(addr),
    {
        self.mailbox.contains(addr)
    }

    /// The command status, where it stands at an address of the mailbox.
    pub fn read_cmd_status(&self, addr: u32) -> (r: Option<u32>)
        ensures
            r == (if self@.gives_status(addr) {
                self@.mailbox_word(addr)
            } else {
                None
            }),
    {
        if !self.mailbox.contains(addr) {
            return None;
        }
        match self.status {
            Some((a, v)) => {
                if a == addr {
                    Some(v)
                } else {
                    None
                }
            },
            None => None,
        }
    }

    /// Whether the mailbox answers a read of an address.
    pub fn answers(&self, addr: u32) -> (r: bool)
        ensures
            r == self@.mailbox_word(addr) is Some,
    {
        let data: bool = match self.data_addr {
            Some(a) => a == addr && self.fifo.len() > 0,
            None => false,
        };
        self.mailbox.contains(addr) && (data || self.read_cmd_status(addr).is_some())
    }

    /// Whether a write of an address is a mailbox command.
    pub fn takes_command(&self, addr: u32) -> (r: bool)
        ensures
            r == self@.is_command(addr),
    {
        let command: bool = match self.cmd_addr {
            Some(a) => a == addr,
            None => false,
        };
        self.mailbox.contains(addr) && command
    }

    /// Give the next word of the frame at the head, where an address of the
    /// mailbox reads it.
    pub fn read_data(&mut self, addr: u32) -> (r: Option<u32>)
        requires
            !old(self)@.gives_status(addr),
        ensures
            r == old(self)@.mailbox_word(addr),
            final(self)@ == old(self)@.after_mailbox_read(addr),
    {
        if !self.mailbox.contains(addr) {
            return None;
        }
        match self.data_addr {
            Some(a) => {
                if a == addr && self.fifo.len() > 0 {
                    let v: u32 = self.fifo.remove(0);
                    assert(self.fifo@ =~= old(self).fifo@.skip(1));
                    if self.fifo.len() == 0 {
                        self.frame_consumed = true;
                    }
                    Some(v)
                } else {
                    None
                }
            },
            None => None,
        }
    }

    /// See a write on the bus.
    pub fn observe_write(&mut self, addr: u32, val: u32)
        ensures
            final(self)@ == old(self)@.after_observing(addr, val),
    {
        if addr == REG_REPORT_FRAME_PARAMS || addr == REG_REPORT_FRAME_LEN {
            self.template.push((addr, val));
        }
        if self.mailbox.contains(addr) {
            self.observed.push((addr, val));
        }
    }

    /// The queue a command names.
    fn slot_named(&self, val: u32) -> (r: u32)
        ensures
            r == self@.command_slot(val),
    {
        if self.slot_shift < 32 {
            (val >> self.slot_shift) & self.slot_mask
        } else {
            0
        }
    }

    /// Where the oldest frame of a queue waits.
    fn find_oldest(&self, slot: u32) -> (r: Option<usize>)
        ensures
            match oldest_of(self@.queued, slot) {
                Some(i) => r matches Some(at) && at == i && 0 <= i < self.queued@.len(),
                None => r is None,
            },
    {
        let ghost all = self@.queued;
        assert(all.take(0) =~= Seq::<QueuedState>::empty());
        for i in 0..self.queued.len()
            invariant
                all == self@.queued,
                all.len() == self.queued@.len(),
                oldest_of(all.take(i as int), slot) is None,
        {
            proof {
                assert(all.take(i + 1).drop_last() =~= all.take(i as int));
                assert(all.take(i + 1).last() == self.queued@[i as int]@);
            }
            if self.queued[i].slot as u32 == slot {
                proof {
                    assert(oldest_of(all.take(i + 1), slot) == Some(i as int));
                    lemma_oldest_stands(all, i + 1, slot);
                }
                return Some(i);
            }
        }
        assert(all.take(all.len() as int) =~= all);
        None
    }

    /// The queue bitmap software reads.
    pub fn mailbox_bitmap(&self) -> (r: [u32; 6])
        ensures
            r@ == self@.bitmap(),
    {
        let ghost all = self@.queued;
        let mut words: [u32; 6] = [0u32; 6];
        assert(all.take(0) =~= Seq::<QueuedState>::empty());
        assert(words@ =~= bitmap_of(all.take(0)));
        for i in 0..self.queued.len()
            invariant
                all == self@.queued,
                all.len() == self.queued@.len(),
                words@ == bitmap_of(all.take(i as int)),
        {
            let slot: u8 = self.queued[i].slot;
            proof {
                assert(all.take(i + 1).drop_last() =~= all.take(i as int));
                assert(all.take(i + 1).last() == self.queued@[i as int]@);
            }
            let at: usize = (slot / 32) as usize;
            if at < 6 {
                words[at] = words[at] | (1u32 << (slot % 32) as u32);
            }
        }
        assert(all.take(all.len() as int) =~= all);
        words
    }

    /// Put a frame in a queue.
    pub fn enqueue(&mut self, slot: u8, words: Vec<u32>)
        ensures
            final(self)@ == old(self)@.after_queueing(slot, words@),
    {
        self.queued.push(QueuedFrame { slot, words });
        self.arrivals.push((slot, 1));
        assert(self@ =~= old(self)@.after_queueing(slot, words@));
    }

    /// Take the frames the terminal has sent down, oldest first.
    pub fn take_downstream(&mut self) -> (r: Vec<LineFrame>)
        ensures
            frame_views(r@) == old(self)@.downstream,
            final(self)@ == (OltState { downstream: Seq::empty(), ..old(self)@ }),
    {
        let mut frames: Vec<LineFrame> = Vec::new();
        std::mem::swap(&mut frames, &mut self.downstream);
        assert(self@ =~= (OltState { downstream: Seq::empty(), ..old(self)@ }));
        frames
    }

    /// Let the terminal know how far the processor has come.
    pub fn tick(&mut self, cpu_instructions: u64)
        ensures
            final(self)@ == (OltState {
                elapsed: old(self)@.elapsed.wrapping_add(cpu_instructions),
                ..old(self)@
            }),
    {
        self.elapsed = self.elapsed.wrapping_add(cpu_instructions);
    }

    /// Take a mailbox command. `false` where the address is no command
    /// register.
    pub fn write_cmd(&mut self, addr: u32, val: u32) -> (r: bool)
        ensures
            r == old(self)@.is_command(addr),
            final(self)@ == (if r {
                old(self)@.after_command(val)
            } else {
                old(self)@
            }),
    {
        if !self.mailbox.contains(addr) {
            return false;
        }
        match self.cmd_addr {
            Some(a) => {
                if a == addr {
                    let slot: u32 = self.slot_named(val);
                    self.commands.push(val);
                    if let Some(i) = self.find_oldest(slot) {
                        let frame = self.queued.remove(i);
                        self.fifo = frame.words;
                    }
                    assert(self@ =~= old(self)@.after_command(val));
                    true
                } else {
                    false
                }
            },
            None => false,
        }
    }

    pub fn reset(&mut self)
        ensures
            final(self)@ == old(self)@.after_reset(),
    {
        let mut fresh = OltLink::new();
        fresh.mailbox = self.mailbox;
        fresh.data_addr = self.data_addr;
        fresh.cmd_addr = self.cmd_addr;
        fresh.slot_shift = self.slot_shift;
        fresh.slot_mask = self.slot_mask;
        fresh.onu_mac_override = self.onu_mac_override;
        *self = fresh;
    }

    /// Count a registration down. Gives back whether its state is due.
    pub fn count_registration(&mut self) -> (r: bool)
        ensures
            r == (old(self)@.registration_ticks() == 1),
            final(self)@ == old(self)@.registration_counted(),
    {
        let count: u32 = if self.registration_complete {
            LLID_STATE_INIT_TICKS
        } else {
            self.llid_state_init_countdown
        };
        self.registration_complete = false;
        self.llid_state_init_countdown = if count > 0 {
            count - 1
        } else {
            0
        };
        count == 1
    }

    /// Notice that software is done with the frame in the mailbox.
    pub fn notice_done(&mut self) -> (r: bool)
        ensures
            r == old(self)@.mailbox_done(),
            final(self)@ == old(self)@.done_noticed(),
    {
        let done: bool = self.frame_consumed || (self.queued.len() == 0 && self.fifo.len() == 0);
        if done {
            self.frame_consumed = false;
        }
        done
    }

    /// Take what landed since the last tick.
    pub fn drain_arrivals(&mut self) -> (r: Vec<(u8, u64)>)
        ensures
            r@ == old(self)@.arrivals,
            final(self)@ == (OltState { arrivals: Seq::empty(), ..old(self)@ }),
    {
        let mut arrivals: Vec<(u8, u64)> = Vec::new();
        std::mem::swap(&mut arrivals, &mut self.arrivals);
        arrivals
    }

    /// The transmitter was told to fire.
    pub fn handle_mpcp_burst_trigger(&mut self)
        ensures
            final(self)@ == old(self)@.after_burst(),
    {
        if self.link_up && !self.real_tx_seen {
            self.bursts.push(
                RegisterRequest {
                    source: self.onu_mac_override,
                    timestamp: self.mpcp_timestamp,
                    discovery_information: SYNTHETIC_DISCOVERY_INFORMATION,
                    laser_on: SYNTHETIC_LASER_TQ,
                    laser_off: SYNTHETIC_LASER_TQ,
                },
            );
        }
    }
}

/// The oldest frame of a queue is the oldest whatever waits behind it.
proof fn lemma_oldest_stands(queued: Seq<QueuedState>, n: int, slot: u32)
    requires
        0 <= n <= queued.len(),
        oldest_of(queued.take(n), slot) is Some,
    ensures
        oldest_of(queued, slot) == oldest_of(queued.take(n), slot),
    decreases queued.len(),
{
    if n == queued.len() {
        assert(queued.take(n) =~= queued);
    } else {
        assert(queued.drop_last().take(n) =~= queued.take(n));
        lemma_oldest_stands(queued.drop_last(), n, slot);
    }
}

/// The oldest frame of a queue is one of that queue, and none before it is.
proof fn lemma_oldest_is_first(queued: Seq<QueuedState>, slot: u32)
    ensures
        match oldest_of(queued, slot) {
            Some(i) => 0 <= i < queued.len() && queued[i].slot == slot && forall|j: int|
                0 <= j < i ==> (#[trigger] queued[j]).slot != slot,
            None => forall|j: int| 0 <= j < queued.len() ==> (#[trigger] queued[j]).slot != slot,
        },
    decreases queued.len(),
{
    if queued.len() > 0 {
        let init = queued.drop_last();
        lemma_oldest_is_first(init, slot);
        assert forall|j: int| 0 <= j < queued.len() implies (#[trigger] queued[j]) == (if j
            < init.len() {
            init[j]
        } else {
            queued.last()
        }) by {}
    }
}

/// A command takes the oldest frame of the queue it names: software then reads
/// the words of that frame, one frame fewer waits, and the frames of other
/// queues all wait on. A command that names an empty queue moves nothing.
pub proof fn law_command_takes_the_oldest_frame(s: OltState, val: u32)
    ensures
        ({
            let slot = s.command_slot(val);
            let after = s.after_command(val);
            match oldest_of(s.queued, slot) {
                Some(i) => {
                    &&& 0 <= i < s.queued.len()
                    &&& s.queued[i].slot == slot
                    &&& forall|j: int| 0 <= j < i ==> (#[trigger] s.queued[j]).slot != slot
                    &&& after.fifo == s.queued[i].words
                    &&& after.queued == s.queued.remove(i)
                },
                None => {
                    &&& forall|j: int|
                        0 <= j < s.queued.len() ==> (#[trigger] s.queued[j]).slot != slot
                    &&& after.fifo == s.fifo
                    &&& after.queued == s.queued
                },
            }
        }),
{
    lemma_oldest_is_first(s.queued, s.command_slot(val));
}

/// A bit of the queue bitmap is up exactly while a frame waits in its queue.
pub proof fn law_bitmap_shows_the_waiting_queues(queued: Seq<QueuedState>, slot: u8)
    requires
        slot < 192,
    ensures
        bitmap_of(queued).len() == 6,
        bitmap_of(queued)[slot as int / 32] & (1u32 << (slot % 32) as u32) != 0 <==> exists|i: int|
            0 <= i < queued.len() && (#[trigger] queued[i]).slot == slot,
    decreases queued.len(),
{
    let bit = (slot % 32) as u32;
    if queued.len() == 0 {
        crate::bits::lemma_no_bits(1u32 << bit);
    } else {
        let init = queued.drop_last();
        law_bitmap_shows_the_waiting_queues(init, slot);
        let last = queued.last().slot;
        let other = (last % 32) as u32;
        let word = bitmap_of(init)[slot as int / 32];
        crate::bits::lemma_one_bit(word, other, bit);
        if last == slot {
            assert(queued[queued.len() - 1].slot == slot);
        }
        if exists|i: int| 0 <= i < queued.len() && (#[trigger] queued[i]).slot == slot {
            let i = choose|i: int| 0 <= i < queued.len() && (#[trigger] queued[i]).slot == slot;
            if i < init.len() {
                assert(init[i].slot == slot);
            }
        }
        if exists|i: int| 0 <= i < init.len() && (#[trigger] init[i]).slot == slot {
            let i = choose|i: int| 0 <= i < init.len() && (#[trigger] init[i]).slot == slot;
            assert(queued[i].slot == slot);
        }
    }
}

/// A frame word is given once, in order, and with the last one the frame counts
/// as consumed.
pub proof fn law_frame_words_come_out_in_order(s: OltState, addr: u32)
    requires
        s.mailbox.start <= addr < s.mailbox.end,
        s.status matches Some(st) ==> st.0 != addr,
        s.data_addr == Some(addr),
        s.fifo.len() > 0,
    ensures
        s.mailbox_word(addr) == Some(s.fifo[0]),
        s.fifo.len() > 1 ==> s.after_mailbox_read(addr).mailbox_word(addr) == Some(s.fifo[1])
            && s.after_mailbox_read(addr).frame_consumed == s.frame_consumed,
        s.fifo.len() == 1 ==> s.after_mailbox_read(addr).mailbox_word(addr) is None
            && s.after_mailbox_read(addr).frame_consumed,
        s.after_mailbox_read(addr).fifo == s.fifo.skip(1),
        s.after_mailbox_read(addr).queued == s.queued,
{
}

/// The command status answers at its address before any frame word and is not
/// used up; outside the mailbox the link answers nothing.
pub proof fn law_status_stands_at_its_address(s: OltState, addr: u32)
    ensures
        s.status matches Some(st) ==> (s.mailbox.start <= st.0 < s.mailbox.end ==> s.mailbox_word(
            st.0,
        ) == Some(st.1) && s.after_mailbox_read(st.0) == s),
        !(s.mailbox.start <= addr < s.mailbox.end) ==> s.mailbox_word(addr) is None
            && s.after_mailbox_read(addr) == s && !s.is_command(addr),
        s.mailbox.start <= addr < s.mailbox.end ==> (s.is_command(addr) <==> s.cmd_addr == Some(
            addr,
        )),
        s.fifo.len() == 0 && (s.status matches Some(st) ==> st.0 != addr) ==> s.mailbox_word(
            addr,
        ) is None,
{
}

/// A command names its queue in a field of the word: shifted down by the
/// configured place, and with the mask of a byte cut to eight bits.
pub proof fn law_command_names_its_queue(s: OltState, val: u32)
    requires
        s.slot_shift < 32,
        s.slot_mask == 0xFF,
    ensures
        s.command_slot(val) == (val as nat / vstd::arithmetic::power2::pow2(s.slot_shift as nat))
            % 256,
{
    vstd::bits::lemma_u32_shr_is_div(val, s.slot_shift);
    crate::bits::lemma_fields(val >> s.slot_shift);
}

/// Every command is kept, whether or not its queue had a frame.
pub proof fn law_commands_are_kept(s: OltState, val: u32)
    ensures
        s.after_command(val).commands == s.commands.push(val),
        s.after_command(val).arrivals == s.arrivals,
        s.after_command(val).observed == s.observed,
{
}

/// A frame put in a queue waits behind those that are there and counts as one
/// arrival of that queue.
pub proof fn law_queued_frame_waits_last(s: OltState, slot: u8, words: Seq<u32>)
    ensures
        ({
            let after = s.after_queueing(slot, words);
            &&& after.queued.len() == s.queued.len() + 1
            &&& after.queued.last().slot == slot
            &&& after.queued.last().words == words
            &&& after.queued.drop_last() == s.queued
            &&& after.arrivals == s.arrivals.push((slot, 1u64))
            &&& after.fifo == s.fifo
        }),
{
    assert(s.after_queueing(slot, words).queued.drop_last() =~= s.queued);
}

/// The link keeps a write to the report template under its address, and a write
/// inside the mailbox; it keeps no other.
pub proof fn law_link_sees_its_writes(s: OltState, addr: u32, val: u32)
    ensures
        ({
            let after = s.after_observing(addr, val);
            let template = addr == 0x0100_04D8 || addr == 0x0100_052C;
            let inside = s.mailbox.start <= addr < s.mailbox.end;
            &&& template ==> after.template == s.template.push((addr, val))
            &&& !template ==> after.template == s.template
            &&& inside ==> after.observed == s.observed.push((addr, val))
            &&& !inside ==> after.observed == s.observed
            &&& after.queued == s.queued && after.fifo == s.fifo && after.commands == s.commands
        }),
{
}

/// With the link up and nothing of the firmware's own seen, the transmitter
/// sends one request, with the link's time and the configured address. Once the
/// firmware's own transmission has been seen, or with the link down, nothing is
/// synthesized.
pub proof fn law_no_synthetic_frame_beside_real_ones(s: OltState)
    ensures
        s.real_tx_seen || !s.link_up ==> s.after_burst() == s,
        !s.real_tx_seen && s.link_up ==> ({
            let after = s.after_burst();
            &&& after.bursts.len() == s.bursts.len() + 1
            &&& after.bursts.drop_last() == s.bursts
            &&& after.bursts.last().source == s.onu_mac
            &&& after.bursts.last().timestamp == s.timestamp
            &&& after.bursts.last().discovery_information == 0x11
            &&& after.bursts.last().laser_on == 32
            &&& after.bursts.last().laser_off == 32
            &&& after == (OltState { bursts: after.bursts, ..s })
        }),
{
    assert(s.bursts.push(s.after_burst().bursts.last()).drop_last() =~= s.bursts);
}

/// A registration counts 2000 ticks down from when it is seen, and then stays
/// at zero.
pub proof fn law_registration_takes_its_ticks(s: OltState)
    ensures
        s.registered ==> s.registration_counted().init_countdown == 1999,
        !s.registered && s.init_countdown > 0 ==> s.registration_counted().init_countdown
            == s.init_countdown - 1,
        !s.registered && s.init_countdown == 0 ==> s.registration_counted().init_countdown == 0,
        !s.registration_counted().registered,
        s.registration_counted().queued == s.queued,
{
}

/// Software is done with the mailbox when it has read a frame to its end, or
/// when nothing waits and nothing is left to read; noticing it once is enough.
pub proof fn law_consumed_frame_is_noticed_once(s: OltState)
    ensures
        s.frame_consumed ==> s.mailbox_done() && !s.done_noticed().frame_consumed,
        s.queued.len() == 0 && s.fifo.len() == 0 ==> s.mailbox_done(),
        !s.frame_consumed && (s.queued.len() > 0 || s.fifo.len() > 0) ==> !s.mailbox_done()
            && s.done_noticed() == s,
        s.done_noticed().queued == s.queued && s.done_noticed().fifo == s.fifo,
{
}

/// A reset empties the link and keeps where its mailbox lies and whom it sends
/// for.
pub proof fn law_link_reset_keeps_the_setup(s: OltState)
    ensures
        ({
            let after = s.after_reset();
            &&& after.mailbox == s.mailbox && after.data_addr == s.data_addr && after.cmd_addr
                == s.cmd_addr
            &&& after.slot_shift == s.slot_shift && after.slot_mask == s.slot_mask
                && after.onu_mac == s.onu_mac
            &&& after.status is None && after.fifo.len() == 0 && after.commands.len() == 0
            &&& after.observed.len() == 0 && after.template.len() == 0 && after.downstream.len()
                == 0
            &&& after.queued.len() == 0 && after.arrivals.len() == 0 && after.bursts.len() == 0
            &&& after.elapsed == 0 && after.pending_llid is None && !after.link_change
                && !after.link_up
            &&& !after.gate && after.timestamp == 0 && !after.registered && after.init_countdown
                == 0
            &&& !after.frame_consumed && !after.real_tx_seen
        }),
{
}

} // verus!
