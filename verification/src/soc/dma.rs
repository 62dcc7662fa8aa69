//! The DMA channel file at `0x01002000..0x01004000`: slots of `0x200` bytes,
//! one per channel.
//!
//! The word at `+0x3C` of a slot is the queue drain register: its bit 8 reads
//! back the channel's ready flag, which an acknowledge clears and the next
//! tick arms again. Everywhere else the file is a store whose command bits
//! `[31:27]` read back once and then clear. Three windows inside the range
//! belong to other peripherals and are not claimed.

use vstd::prelude::*;

use crate::cpu::exception::Exception;
use crate::soc::mmio_init::{sysreg_init_values, SYSREG_BASE};
use crate::soc::peripheral::{
    AddressRange, DmaEvent, DmaSnapshot, PeripheralError, PeripheralEvent, PeripheralSnapshot,
};

verus! {

pub const DMA_BASE: u32 = 0x0100_2000;

pub const DMA_END: u32 = 0x0100_4000;

pub const DMA_STRIDE: u32 = 0x0200;

/// Offset of the queue drain register in a slot.
pub const SUB_QUEUE_DRAIN: u32 = 0x003C;

pub const CMD_BIT_MASK: u32 = 0xF800_0000;

/// The file, as values.
#[verifier::ext_equal]
pub struct DmaState {
    pub store: Seq<u32>,
    pub pending: Seq<u32>,
    pub drain: Seq<bool>,
    pub trace: bool,
}

/// The windows other peripherals own.
pub open spec fn in_carveout(addr: u32) -> bool {
    0x0100_2400 <= addr < 0x0100_2D40 || 0x0100_3500 <= addr < 0x0100_3540 || 0x0100_3600 <= addr
        < 0x0100_3614
}

pub open spec fn in_dma_range(addr: u32) -> bool {
    DMA_BASE <= addr < DMA_END
}

pub open spec fn dma_claims(addr: u32) -> bool {
    in_dma_range(addr) && !in_carveout(addr)
}

pub open spec fn dma_word(addr: u32) -> int {
    (addr - DMA_BASE) / 4
}

pub open spec fn channel_of(addr: u32) -> int {
    (addr - DMA_BASE) / 0x200
}

pub open spec fn is_drain_register(addr: u32) -> bool {
    (addr - DMA_BASE) % 0x200 == SUB_QUEUE_DRAIN
}

impl DmaState {
    pub open spec fn cleared(trace: bool) -> DmaState {
        DmaState {
            store: Seq::new(2048, |i: int| 0u32),
            pending: Seq::new(2048, |i: int| 0u32),
            drain: Seq::new(16, |i: int| true),
            trace,
        }
    }

    pub open spec fn wf(self) -> bool {
        self.store.len() == 2048 && self.pending.len() == 2048 && self.drain.len() == 16
    }

    /// The word an address reads as.
    pub open spec fn word_at(self, addr: u32) -> u32 {
        let i = dma_word(addr);
        if is_drain_register(addr) {
            (self.store[i] & !0x100) | (if self.drain[channel_of(addr)] {
                0x100u32
            } else {
                0u32
            })
        } else {
            self.store[i]
        }
    }

    /// A read clears the command bits it has shown.
    pub open spec fn after_read(self, addr: u32) -> DmaState {
        let i = dma_word(addr);
        if self.pending[i] != 0 {
            DmaState {
                store: self.store.update(i, self.store[i] & !self.pending[i]),
                pending: self.pending.update(i, 0),
                ..self
            }
        } else {
            self
        }
    }

    pub open spec fn after_write(self, addr: u32, val: u32) -> DmaState {
        let i = dma_word(addr);
        if is_drain_register(addr) {
            DmaState {
                drain: if val & 0x100 != 0 {
                    self.drain.update(channel_of(addr), false)
                } else {
                    self.drain
                },
                store: self.store.update(i, val & !0x100),
                ..self
            }
        } else {
            DmaState {
                store: self.store.update(i, val),
                pending: if val & CMD_BIT_MASK != 0 {
                    self.pending.update(i, val & CMD_BIT_MASK)
                } else {
                    self.pending
                },
                ..self
            }
        }
    }

    pub open spec fn after_tick(self) -> DmaState {
        DmaState { drain: Seq::new(self.drain.len(), |i: int| true), ..self }
    }

    /// The file after the claimed entries of a power-on table.
    pub open spec fn powered_on(self, table: Seq<(u32, u32)>) -> DmaState
        decreases table.len(),
    {
        if table.len() == 0 {
            self
        } else {
            let before = self.powered_on(table.drop_last());
            let addr = (SYSREG_BASE + table.last().0) as u32;
            if dma_claims(addr) {
                DmaState { store: before.store.update(dma_word(addr), table.last().1), ..before }
            } else {
                before
            }
        }
    }

    /// The file after an event; `None` where it is not addressed to it.
    pub open spec fn after_event(self, event: PeripheralEvent) -> Option<DmaState> {
        match event {
            PeripheralEvent::Dma(DmaEvent::InjectQueueEntry(chan)) => Some(
                DmaState {
                    drain: self.drain.update(
                        if chan < 16 {
                            chan as int
                        } else {
                            15
                        },
                        true,
                    ),
                    ..self
                },
            ),
            PeripheralEvent::Dma(DmaEvent::InjectBusError(_)) => Some(self),
            _ => None,
        }
    }
}

/// How many of the first `n` flags are up.
pub open spec fn flags_up(flags: Seq<bool>, n: nat) -> nat
    decreases n,
{
    if n == 0 {
        0
    } else {
        flags_up(flags, (n - 1) as nat) + (if flags[n - 1] {
            1nat
        } else {
            0nat
        })
    }
}

pub struct DmaChannelController {
    pub store: Vec<u32>,
    /// Command bits the next read of a word clears.
    pub pending_clear: Vec<u32>,
    pub drain_flag: Vec<bool>,
    pub trace: bool,
}

impl View for DmaChannelController {
    type V = DmaState;

    open spec fn view(&self) -> DmaState {
        DmaState {
            store: self.store@,
            pending: self.pending_clear@,
            drain: self.drain_flag@,
            trace: self.trace,
        }
    }
}

impl Clone for DmaChannelController {
    fn clone(&self) -> (r: Self)
        ensures
            r@ == self@,
    {
        let r = DmaChannelController {
            store: self.store.clone(),
            pending_clear: self.pending_clear.clone(),
            drain_flag: self.drain_flag.clone(),
            trace: self.trace,
        };
        assert(r.store@ =~= self.store@);
        assert(r.pending_clear@ =~= self.pending_clear@);
        assert(r.drain_flag@ =~= self.drain_flag@);
        assert(r@ =~= self@);
        r
    }
}

impl DmaChannelController {
    pub open spec fn wf(&self) -> bool {
        self@.wf()
    }

    pub fn new() -> (r: Self)
        ensures
            r.wf(),
            r@ == DmaState::cleared(false),
    {
        let r = DmaChannelController {
            store: vec![0u32; 2048],
            pending_clear: vec![0u32; 2048],
            drain_flag: vec![true; 16],
            trace: false,
        };
        assert(r@ =~= DmaState::cleared(false));
        r
    }

    pub fn name(&self) -> (r: &'static str)
        ensures
            r@ == "dma"@,
    {
        "dma"
    }

    pub fn address_ranges(&self) -> (r: [AddressRange; 1])
        ensures
            r[0] == (AddressRange { start: DMA_BASE, end: DMA_END }),
    {
        [AddressRange::new(DMA_BASE, DMA_END)]
    }

    pub fn claims(&self, addr: u32) -> (r: bool)
        ensures
            r == dma_claims(addr),
    {
        if !(DMA_BASE <= addr && addr < DMA_END) {
            return false;
        }
        !((0x0100_2400 <= addr && addr < 0x0100_2D40) || (0x0100_3500 <= addr && addr < 0x0100_3540)
            || (0x0100_3600 <= addr && addr < 0x0100_3614))
    }

    fn idx(addr: u32) -> (r: usize)
        requires
            in_dma_range(addr),
        ensures
            r == dma_word(addr),
            r < 2048,
    {
        ((addr - DMA_BASE) / 4) as usize
    }

    /// The channel of an address, and the offset inside its slot.
    fn slot_of(addr: u32) -> (r: (usize, u32))
        requires
            in_dma_range(addr),
        ensures
            r.0 == channel_of(addr),
            r.0 < 16,
            (r.1 == SUB_QUEUE_DRAIN) == is_drain_register(addr),
    {
        let rel: u32 = addr - DMA_BASE;
        ((rel / DMA_STRIDE) as usize, rel % DMA_STRIDE)
    }

    pub fn read_word(&mut self, addr: u32) -> (r: Result<u32, Exception>)
        requires
            old(self).wf(),
            in_dma_range(addr),
        ensures
            final(self).wf(),
            r == Ok::<u32, Exception>(old(self)@.word_at(addr)),
            final(self)@ == old(self)@.after_read(addr),
    {
        let idx: usize = Self::idx(addr);
        let (slot, within) = Self::slot_of(addr);
        let val: u32 = self.store[idx];
        let clear_mask: u32 = self.pending_clear[idx];
        if clear_mask != 0 {
            self.store[idx] = val & !clear_mask;
            self.pending_clear[idx] = 0;
        }
        if within == SUB_QUEUE_DRAIN {
            let set: u32 = if self.drain_flag[slot] {
                0x100
            } else {
                0
            };
            return Ok((val & !0x100) | set);
        }
        Ok(val)
    }

    pub fn write_word(&mut self, addr: u32, val: u32) -> (r: Result<(), Exception>)
        requires
            old(self).wf(),
            in_dma_range(addr),
        ensures
            final(self).wf(),
            r == Ok::<(), Exception>(()),
            final(self)@ == old(self)@.after_write(addr, val),
    {
        let idx: usize = Self::idx(addr);
        let (slot, within) = Self::slot_of(addr);
        if within == SUB_QUEUE_DRAIN {
            if val & 0x100 != 0 {
                self.drain_flag[slot] = false;
            }
            self.store[idx] = val & !0x100;
            return Ok(());
        }
        self.store[idx] = val;
        let cmd_bits: u32 = val & CMD_BIT_MASK;
        if cmd_bits != 0 {
            self.pending_clear[idx] = cmd_bits;
        }
        Ok(())
    }

    /// Arm every ready flag again.
    pub fn tick(&mut self, _cpu_instructions: u64)
        ensures
            final(self)@ == old(self)@.after_tick(),
    {
        let n: usize = self.drain_flag.len();
        self.drain_flag = vec![true; n];
        assert(self@ =~= old(self)@.after_tick());
    }

    pub fn reset_cold(&mut self)
        ensures
            final(self).wf(),
            final(self)@ == DmaState::cleared(old(self)@.trace),
    {
        self.store = vec![0u32; 2048];
        self.pending_clear = vec![0u32; 2048];
        self.drain_flag = vec![true; 16];
        assert(self@ =~= DmaState::cleared(old(self)@.trace));
    }

    pub fn reset_warm(&mut self)
        ensures
            final(self).wf(),
            final(self)@ == DmaState::cleared(old(self)@.trace).powered_on(
                crate::soc::mmio_init::power_on_table(),
            ),
    {
        self.reset_cold();
        self.apply_warm_snapshot();
    }

    fn apply_warm_snapshot(&mut self)
        requires
            old(self).wf(),
        ensures
            final(self).wf(),
            final(self)@ == old(self)@.powered_on(crate::soc::mmio_init::power_on_table()),
    {
        let table = sysreg_init_values();
        for i in 0..9usize
            invariant
                table@.len() == 9,
                crate::soc::mmio_init::table_in_window(table@),
                self.wf(),
                self@ == old(self)@.powered_on(table@.take(i as int)),
        {
            let (off, val) = table[i];
            let abs: u32 = SYSREG_BASE + off;
            proof {
                assert(table@.take(i + 1).drop_last() =~= table@.take(i as int));
                assert(table@.take(i + 1).last() == table@[i as int]);
            }
            if self.claims(abs) {
                let idx: usize = Self::idx(abs);
                self.store[idx] = val;
            }
        }
        assert(table@.take(9) =~= table@);
    }

    pub fn snapshot(&self) -> (r: PeripheralSnapshot)
        requires
            self.wf(),
        ensures
            r matches PeripheralSnapshot::Dma(s) && s.channels_enabled == 0 && s.irq_pending_bitmap
                == 0 && s.channels_busy == flags_up(self@.drain, 16),
    {
        let mut busy: u32 = 0;
        for i in 0..16usize
            invariant
                self.wf(),
                busy == flags_up(self@.drain, i as nat),
                busy <= i,
        {
            if self.drain_flag[i] {
                busy = busy + 1;
            }
        }
        PeripheralSnapshot::Dma(
            DmaSnapshot { channels_enabled: 0, channels_busy: busy, irq_pending_bitmap: 0 },
        )
    }

    pub fn inject_event(&mut self, event: &PeripheralEvent) -> (r: Result<(), PeripheralError>)
        requires
            old(self).wf(),
        ensures
            final(self).wf(),
            r is Ok <==> old(self)@.after_event(*event) is Some,
            r is Err ==> r == Err::<(), PeripheralError>(PeripheralError::UnsupportedEvent),
            final(self)@ == (match old(self)@.after_event(*event) {
                Some(s) => s,
                None => old(self)@,
            }),
    {
        match event {
            PeripheralEvent::Dma(ev) => {
                match ev {
                    DmaEvent::InjectQueueEntry(chan) => {
                        let idx: usize = if (*chan as usize) < 16 {
                            *chan as usize
                        } else {
                            15
                        };
                        self.drain_flag[idx] = true;
                    },
                    DmaEvent::InjectBusError(_) => {},
                }
                Ok(())
            },
            _ => Err(PeripheralError::UnsupportedEvent),
        }
    }
}

/// Command bits read back once; the second read shows the word without them.
pub proof fn law_command_bits_clear_on_read(s: DmaState, addr: u32, val: u32)
    requires
        s.wf(),
        0x0100_2000 <= addr < 0x0100_4000,
        (addr - 0x0100_2000) % 0x200 != 0x3C,
        s.pending[(addr - 0x0100_2000) / 4] & !0xF800_0000u32 == 0,
    ensures
        s.after_write(addr, val).word_at(addr) == val,
        val & 0xF800_0000u32 != 0 ==> s.after_write(addr, val).after_read(addr).word_at(addr) == val
            & !0xF800_0000u32,
        s.after_write(addr, val).after_read(addr).word_at(addr) & !0xF800_0000u32 == val
            & !0xF800_0000u32,
{
    let p = s.pending[(addr - 0x0100_2000) / 4];
    assert({
        let m = 0xF800_0000u32;
        &&& (val & !(val & m)) == val & !m
        &&& (val & !(val & m)) & !m == val & !m
        &&& p & !m == 0 ==> (val & !p) & !m == val & !m
    }) by (bit_vector);
}

/// The ready flag reads as bit 8 beside the word that was written. Writing the
/// bit takes the flag away, writing a word without it leaves the flag as it
/// was, and a tick arms it again.
pub proof fn law_drain_bit_cycles(s: DmaState, addr: u32, val: u32)
    requires
        s.wf(),
        0x0100_2000 <= addr < 0x0100_4000,
        (addr - 0x0100_2000) % 0x200 == 0x3C,
    ensures
        (s.word_at(addr) & 0x100 != 0) == s.drain[(addr - 0x0100_2000) / 0x200],
        s.after_write(addr, val).word_at(addr) & 0x100 != 0 <==> s.word_at(addr) & 0x100 != 0 && val
            & 0x100 == 0,
        s.after_write(addr, val).word_at(addr) & !0x100u32 == val & !0x100u32,
        s.after_write(addr, 0x100).word_at(addr) & 0x100 == 0,
        s.after_tick().word_at(addr) & 0x100 != 0,
        s.after_tick().word_at(addr) & !0x100u32 == s.word_at(addr) & !0x100u32,
        s.after_tick().wf(),
{
    let a = s.store[(addr - 0x0100_2000) / 4];
    assert({
        &&& ((a & !0x100u32) | 0x100u32) & 0x100 != 0
        &&& ((a & !0x100u32) | 0u32) & 0x100 == 0
        &&& (((val & !0x100u32) & !0x100u32) | 0x100u32) & 0x100 != 0
        &&& (((val & !0x100u32) & !0x100u32) | 0u32) & 0x100 == 0
        &&& (((0x100u32 & !0x100u32) & !0x100u32) | 0u32) & 0x100 == 0
        &&& ((a & !0x100u32) | 0x100u32) & !0x100u32 == a & !0x100u32
        &&& ((a & !0x100u32) | 0u32) & !0x100u32 == a & !0x100u32
        &&& (((val & !0x100u32) & !0x100u32) | 0x100u32) & !0x100u32 == val & !0x100u32
        &&& (((val & !0x100u32) & !0x100u32) | 0u32) & !0x100u32 == val & !0x100u32
        &&& 0x100u32 & 0x100 != 0
    }) by (bit_vector);
}

/// What is read or written at one word shows in no other word, and time moves
/// no word but the ready flags.
pub proof fn law_dma_words_are_apart(s: DmaState, addr: u32, other: u32, val: u32)
    requires
        s.wf(),
        0x0100_2000 <= addr < 0x0100_4000,
        0x0100_2000 <= other < 0x0100_4000,
        addr / 4 != other / 4,
    ensures
        s.after_write(addr, val).word_at(other) == s.word_at(other),
        s.after_read(addr).word_at(other) == s.word_at(other),
        (other - 0x0100_2000) % 0x200 != 0x3C ==> s.after_tick().word_at(other) == s.word_at(other),
        s.after_write(addr, val).wf(),
        s.after_read(addr).wf(),
{
}

/// The file is 16 slots of 0x200 bytes without the three windows that belong
/// to the security block and the fatal filter.
pub proof fn law_dma_claims_its_slots(addr: u32)
    ensures
        dma_claims(addr) <==> 0x0100_2000 <= addr <= 0x0100_3FFF && !(0x0100_2400 <= addr
            <= 0x0100_2D3F) && !(0x0100_3500 <= addr <= 0x0100_353F) && !(0x0100_3600 <= addr
            <= 0x0100_3613),
{
}

/// A queue entry raises the flag of its channel and no other; channels past the
/// last count as the last.
pub proof fn law_queue_entry_arms_its_channel(s: DmaState, chan: u8)
    requires
        s.wf(),
    ensures
        ({
            let event = PeripheralEvent::Dma(DmaEvent::InjectQueueEntry(chan));
            let after = s.after_event(event)->0;
            let slot = if chan <= 15 { chan as int } else { 15 };
            &&& s.after_event(event) is Some
            &&& after.drain[slot]
            &&& forall|i: int| 0 <= i < 16 && i != slot ==> after.drain[i] == s.drain[i]
            &&& after.store == s.store
            &&& after.pending == s.pending
            &&& after.wf()
        }),
{
}

/// The count of raised flags is how many there are.
pub proof fn law_flags_are_counted(flags: Seq<bool>, n: nat)
    requires
        n <= flags.len(),
    ensures
        ({
            let up = Set::new(|i: int| 0 <= i < n && flags[i]);
            up.finite() && up.len() == flags_up(flags, n)
        }),
    decreases n,
{
    let up = Set::new(|i: int| 0 <= i < n && flags[i]);
    if n == 0 {
        assert(up =~= Set::empty());
    } else {
        law_flags_are_counted(flags, (n - 1) as nat);
        let before = Set::new(|i: int| 0 <= i < n - 1 && flags[i]);
        if flags[n - 1] {
            assert(up =~= before.insert(n - 1));
        } else {
            assert(up =~= before);
        }
    }
}

/// A power-on table sets every word it lists to the last value listed for it,
/// and no other word.
pub proof fn law_power_on_sets_the_listed_words(
    s: DmaState,
    table: Seq<(u32, u32)>,
    k: int,
    other: u32,
)
    requires
        s.wf(),
        forall|j: int| 0 <= j < table.len() ==> (#[trigger] table[j]).0 < 0x0100_0000,
    ensures
        s.powered_on(table).wf(),
        0 <= k < table.len() && dma_claims((0x0100_0000 + table[k].0) as u32) && (forall|j: int|
            k < j < table.len() ==> (#[trigger] table[j]).0 / 4 != table[k].0 / 4)
            ==> s.powered_on(table).store[(table[k].0 - 0x2000) / 4] == table[k].1,
        0x0100_2000 <= other < 0x0100_4000 && (forall|j: int|
            0 <= j < table.len() ==> (0x0100_0000 + (#[trigger] table[j]).0) / 4 != other / 4)
            ==> s.powered_on(table).word_at(other) == s.word_at(other),
        s.powered_on(table).drain == s.drain,
        s.powered_on(table).pending == s.pending,
    decreases table.len(),
{
    if table.len() > 0 {
        let front = table.drop_last();
        assert forall|j: int| 0 <= j < front.len() implies (#[trigger] front[j]).0 < 0x0100_0000 by {
            assert(front[j] == table[j]);
        }
        law_power_on_sets_the_listed_words(s, front, k, other);
        assert(table.last() == table[table.len() - 1]);
        assert(forall|j: int| 0 <= j < front.len() ==> front[j] == #[trigger] table[j]);
    }
}

} // verus!
