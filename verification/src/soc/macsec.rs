//! MACsec programming windows: security associations at
//! `0x01002400..0x01002D40` and the key table tail at
//! `0x01003500..0x01003540`.
//!
//! The windows are register files. Four registers in them run the bit-31
//! command protocol: the bit reads back once and then clears. The word at
//! `0x01002804` is write-one-read-another: a write sets the fatal error mask,
//! a read shows the fatal status, which is zero.

use vstd::prelude::*;

use crate::cpu::exception::Exception;
use crate::soc::mmio_init::{sysreg_init_values, SYSREG_BASE};
use crate::soc::peripheral::{
    AddressRange, MacsecEvent, MacsecSnapshot, PeripheralError, PeripheralEvent, PeripheralSnapshot,
};

verus! {

pub const MACSEC_SA_BASE: u32 = 0x0100_2400;

pub const MACSEC_SA_END: u32 = 0x0100_2D40;

pub const MACSEC_KEY_TAIL_BASE: u32 = 0x0100_3500;

pub const MACSEC_KEY_TAIL_END: u32 = 0x0100_3540;

/// The command trigger.
pub const CMD_BIT: u32 = 0x8000_0000;

/// Fatal error mask on write, fatal error status on read.
pub const REG_FATAL: u32 = 0x0100_2804;

/// Words one chunk of the association table has.
pub const SA_CHUNK_WORDS: usize = 0x40;

/// The windows, as values.
#[verifier::ext_equal]
pub struct MacsecState {
    pub sa: Seq<u32>,
    pub sa_pending: Seq<u32>,
    pub tail: Seq<u32>,
    pub tail_pending: Seq<u32>,
    pub pn_overflow_mask: u32,
    pub fatal_error_mask: u32,
    pub trace: bool,
}

pub open spec fn in_sa(addr: u32) -> bool {
    MACSEC_SA_BASE <= addr < MACSEC_SA_END
}

pub open spec fn in_key_tail(addr: u32) -> bool {
    MACSEC_KEY_TAIL_BASE <= addr < MACSEC_KEY_TAIL_END
}

pub open spec fn macsec_claims(addr: u32) -> bool {
    in_sa(addr) || in_key_tail(addr)
}

pub open spec fn sa_word(addr: u32) -> int {
    (addr - MACSEC_SA_BASE) / 4
}

pub open spec fn tail_word(addr: u32) -> int {
    (addr - MACSEC_KEY_TAIL_BASE) / 4
}

/// The registers with the bit-31 command protocol.
pub open spec fn is_command_register(addr: u32) -> bool {
    addr == 0x0100_240C || addr == 0x0100_280C || addr == 0x0100_2644 || addr == 0x0100_2A44
}

/// What a write leaves for the next read to clear.
pub open spec fn pending_after(addr: u32, val: u32, before: u32) -> u32 {
    if is_command_register(addr) && val & CMD_BIT != 0 {
        CMD_BIT
    } else {
        before
    }
}

impl MacsecState {
    pub open spec fn cleared(trace: bool) -> MacsecState {
        MacsecState {
            sa: Seq::new(592, |i: int| 0u32),
            sa_pending: Seq::new(592, |i: int| 0u32),
            tail: Seq::new(16, |i: int| 0u32),
            tail_pending: Seq::new(16, |i: int| 0u32),
            pn_overflow_mask: 0,
            fatal_error_mask: 0,
            trace,
        }
    }

    pub open spec fn wf(self) -> bool {
        self.sa.len() == 592 && self.sa_pending.len() == 592 && self.tail.len() == 16
            && self.tail_pending.len() == 16
    }

    /// The word an address reads as.
    pub open spec fn word_at(self, addr: u32) -> u32 {
        if addr == REG_FATAL {
            0
        } else if in_sa(addr) {
            self.sa[sa_word(addr)]
        } else if in_key_tail(addr) {
            self.tail[tail_word(addr)]
        } else {
            0
        }
    }

    pub open spec fn after_read(self, addr: u32) -> MacsecState {
        if addr == REG_FATAL {
            self
        } else if in_sa(addr) && self.sa_pending[sa_word(addr)] != 0 {
            let i = sa_word(addr);
            MacsecState {
                sa: self.sa.update(i, self.sa[i] & !self.sa_pending[i]),
                sa_pending: self.sa_pending.update(i, 0),
                ..self
            }
        } else if in_key_tail(addr) && self.tail_pending[tail_word(addr)] != 0 {
            let i = tail_word(addr);
            MacsecState {
                tail: self.tail.update(i, self.tail[i] & !self.tail_pending[i]),
                tail_pending: self.tail_pending.update(i, 0),
                ..self
            }
        } else {
            self
        }
    }

    pub open spec fn after_write(self, addr: u32, val: u32) -> MacsecState {
        if addr == REG_FATAL {
            MacsecState { fatal_error_mask: val, ..self }
        } else if in_sa(addr) {
            let i = sa_word(addr);
            MacsecState {
                sa: self.sa.update(i, val),
                sa_pending: self.sa_pending.update(i, pending_after(addr, val, self.sa_pending[i])),
                ..self
            }
        } else if in_key_tail(addr) {
            let i = tail_word(addr);
            MacsecState {
                tail: self.tail.update(i, val),
                tail_pending: self.tail_pending.update(
                    i,
                    pending_after(addr, val, self.tail_pending[i]),
                ),
                ..self
            }
        } else {
            self
        }
    }

    /// The windows after the claimed entries of a power-on table.
    pub open spec fn powered_on(self, table: Seq<(u32, u32)>) -> MacsecState
        decreases table.len(),
    {
        if table.len() == 0 {
            self
        } else {
            let before = self.powered_on(table.drop_last());
            let addr = (SYSREG_BASE + table.last().0) as u32;
            let val = table.last().1;
            if in_sa(addr) {
                MacsecState { sa: before.sa.update(sa_word(addr), val), ..before }
            } else if in_key_tail(addr) {
                MacsecState { tail: before.tail.update(tail_word(addr), val), ..before }
            } else {
                before
            }
        }
    }

    /// The windows after an event; `None` where it is not addressed here.
    pub open spec fn after_event(self, event: PeripheralEvent) -> Option<MacsecState> {
        match event {
            PeripheralEvent::Macsec(MacsecEvent::InjectPnOverflow(slot)) => Some(
                MacsecState {
                    pn_overflow_mask: self.pn_overflow_mask | (1u32 << (slot as u32 & 0x1F)),
                    ..self
                },
            ),
            PeripheralEvent::Macsec(MacsecEvent::ResetSaTable) => Some(
                MacsecState {
                    sa: Seq::new(592, |i: int| 0u32),
                    sa_pending: Seq::new(592, |i: int| 0u32),
                    pn_overflow_mask: 0,
                    ..self
                },
            ),
            _ => None,
        }
    }
}

/// Whether a chunk of the association table holds anything.
pub open spec fn chunk_used(sa: Seq<u32>, chunk: int) -> bool {
    exists|i: int| chunk * 0x40 <= i < chunk * 0x40 + 0x40 && i < sa.len() && #[trigger] sa[i] != 0
}

/// How many of the first `n` chunks hold anything.
pub open spec fn chunks_used(sa: Seq<u32>, n: nat) -> nat
    decreases n,
{
    if n == 0 {
        0
    } else {
        chunks_used(sa, (n - 1) as nat) + (if chunk_used(sa, n - 1) {
            1nat
        } else {
            0nat
        })
    }
}

pub struct Macsec {
    pub sa_store: Vec<u32>,
    pub sa_pending_clear: Vec<u32>,
    pub key_tail_store: Vec<u32>,
    pub key_tail_pending_clear: Vec<u32>,
    /// Bit `n` says association slot `n` has a forced packet-number overflow.
    pub pn_overflow_mask: u32,
    pub fatal_error_mask: u32,
    pub trace: bool,
}

impl View for Macsec {
    type V = MacsecState;

    open spec fn view(&self) -> MacsecState {
        MacsecState {
            sa: self.sa_store@,
            sa_pending: self.sa_pending_clear@,
            tail: self.key_tail_store@,
            tail_pending: self.key_tail_pending_clear@,
            pn_overflow_mask: self.pn_overflow_mask,
            fatal_error_mask: self.fatal_error_mask,
            trace: self.trace,
        }
    }
}

impl Clone for Macsec {
    fn clone(&self) -> (r: Self)
        ensures
            r@ == self@,
    {
        let r = Macsec {
            sa_store: self.sa_store.clone(),
            sa_pending_clear: self.sa_pending_clear.clone(),
            key_tail_store: self.key_tail_store.clone(),
            key_tail_pending_clear: self.key_tail_pending_clear.clone(),
            pn_overflow_mask: self.pn_overflow_mask,
            fatal_error_mask: self.fatal_error_mask,
            trace: self.trace,
        };
        assert(r.sa_store@ =~= self.sa_store@);
        assert(r.sa_pending_clear@ =~= self.sa_pending_clear@);
        assert(r.key_tail_store@ =~= self.key_tail_store@);
        assert(r.key_tail_pending_clear@ =~= self.key_tail_pending_clear@);
        assert(r@ =~= self@);
        r
    }
}

impl Macsec {
    pub open spec fn wf(&self) -> bool {
        self@.wf()
    }

    pub fn new() -> (r: Self)
        ensures
            r.wf(),
            r@ == MacsecState::cleared(false),
    {
        let r = Macsec {
            sa_store: vec![0u32; 592],
            sa_pending_clear: vec![0u32; 592],
            key_tail_store: vec![0u32; 16],
            key_tail_pending_clear: vec![0u32; 16],
            pn_overflow_mask: 0,
            fatal_error_mask: 0,
            trace: false,
        };
        assert(r@ =~= MacsecState::cleared(false));
        r
    }

    pub fn name(&self) -> (r: &'static str)
        ensures
            r@ == "macsec"@,
    {
        "macsec"
    }

    pub fn address_ranges(&self) -> (r: [AddressRange; 2])
        ensures
            r[0] == (AddressRange { start: MACSEC_SA_BASE, end: MACSEC_SA_END }),
            r[1] == (AddressRange { start: MACSEC_KEY_TAIL_BASE, end: MACSEC_KEY_TAIL_END }),
    {
        [
            AddressRange::new(MACSEC_SA_BASE, MACSEC_SA_END),
            AddressRange::new(MACSEC_KEY_TAIL_BASE, MACSEC_KEY_TAIL_END),
        ]
    }

    pub fn claims(&self, addr: u32) -> (r: bool)
        ensures
            r == macsec_claims(addr),
    {
        (MACSEC_SA_BASE <= addr && addr < MACSEC_SA_END) || (MACSEC_KEY_TAIL_BASE <= addr && addr
            < MACSEC_KEY_TAIL_END)
    }

    fn sa_idx(addr: u32) -> (r: usize)
        requires
            in_sa(addr),
        ensures
            r == sa_word(addr),
            r < 592,
    {
        ((addr - MACSEC_SA_BASE) / 4) as usize
    }

    fn key_tail_idx(addr: u32) -> (r: usize)
        requires
            in_key_tail(addr),
        ensures
            r == tail_word(addr),
            r < 16,
    {
        ((addr - MACSEC_KEY_TAIL_BASE) / 4) as usize
    }

    /// Read a word and clear the command bits it has shown.
    fn read_slot(store: &mut Vec<u32>, pending: &mut Vec<u32>, idx: usize) -> (r: u32)
        requires
            idx < old(store)@.len(),
            idx < old(pending)@.len(),
        ensures
            r == old(store)@[idx as int],
            final(store)@ == (if old(pending)@[idx as int] != 0 {
                old(store)@.update(
                    idx as int,
                    old(store)@[idx as int] & !old(pending)@[idx as int],
                )
            } else {
                old(store)@
            }),
            final(pending)@ == (if old(pending)@[idx as int] != 0 {
                old(pending)@.update(idx as int, 0)
            } else {
                old(pending)@
            }),
    {
        let val: u32 = store[idx];
        let clear_mask: u32 = pending[idx];
        if clear_mask != 0 {
            store[idx] = val & !clear_mask;
            pending[idx] = 0;
        }
        val
    }

    fn write_slot_sparse(
        store: &mut Vec<u32>,
        pending: &mut Vec<u32>,
        idx: usize,
        abs_addr: u32,
        val: u32,
    )
        requires
            idx < old(store)@.len(),
            idx < old(pending)@.len(),
        ensures
            final(store)@ == old(store)@.update(idx as int, val),
            final(pending)@ == old(pending)@.update(
                idx as int,
                pending_after(abs_addr, val, old(pending)@[idx as int]),
            ),
    {
        store[idx] = val;
        let command: bool = abs_addr == 0x0100_240C || abs_addr == 0x0100_280C || abs_addr
            == 0x0100_2644 || abs_addr == 0x0100_2A44;
        if command && (val & CMD_BIT) != 0 {
            pending[idx] = CMD_BIT;
        }
        assert(pending@ =~= old(pending)@.update(
            idx as int,
            pending_after(abs_addr, val, old(pending)@[idx as int]),
        ));
    }

    pub fn read_word(&mut self, addr: u32) -> (r: Result<u32, Exception>)
        requires
            old(self).wf(),
        ensures
            final(self).wf(),
            r == Ok::<u32, Exception>(old(self)@.word_at(addr)),
            final(self)@ == old(self)@.after_read(addr),
    {
        if addr == REG_FATAL {
            return Ok(0);
        }
        if MACSEC_SA_BASE <= addr && addr < MACSEC_SA_END {
            let idx: usize = Self::sa_idx(addr);
            return Ok(Self::read_slot(&mut self.sa_store, &mut self.sa_pending_clear, idx));
        }
        if MACSEC_KEY_TAIL_BASE <= addr && addr < MACSEC_KEY_TAIL_END {
            let idx: usize = Self::key_tail_idx(addr);
            return Ok(
                Self::read_slot(&mut self.key_tail_store, &mut self.key_tail_pending_clear, idx),
            );
        }
        Ok(0)
    }

    pub fn write_word(&mut self, addr: u32, val: u32) -> (r: Result<(), Exception>)
        requires
            old(self).wf(),
        ensures
            final(self).wf(),
            r == Ok::<(), Exception>(()),
            final(self)@ == old(self)@.after_write(addr, val),
    {
        if addr == REG_FATAL {
            self.fatal_error_mask = val;
            return Ok(());
        }
        if MACSEC_SA_BASE <= addr && addr < MACSEC_SA_END {
            let idx: usize = Self::sa_idx(addr);
            Self::write_slot_sparse(
                &mut self.sa_store,
                &mut self.sa_pending_clear,
                idx,
                addr,
                val,
            );
            return Ok(());
        }
        if MACSEC_KEY_TAIL_BASE <= addr && addr < MACSEC_KEY_TAIL_END {
            let idx: usize = Self::key_tail_idx(addr);
            Self::write_slot_sparse(
                &mut self.key_tail_store,
                &mut self.key_tail_pending_clear,
                idx,
                addr,
                val,
            );
            return Ok(());
        }
        Ok(())
    }

    /// Time does not touch the windows.
    pub fn tick(&mut self, _cpu_instructions: u64)
        ensures
            *final(self) == *old(self),
    {
    }

    pub fn reset_cold(&mut self)
        ensures
            final(self).wf(),
            final(self)@ == MacsecState::cleared(old(self)@.trace),
    {
        self.sa_store = vec![0u32; 592];
        self.sa_pending_clear = vec![0u32; 592];
        self.key_tail_store = vec![0u32; 16];
        self.key_tail_pending_clear = vec![0u32; 16];
        self.pn_overflow_mask = 0;
        self.fatal_error_mask = 0;
        assert(self@ =~= MacsecState::cleared(old(self)@.trace));
    }

    pub fn reset_warm(&mut self)
        ensures
            final(self).wf(),
            final(self)@ == MacsecState::cleared(old(self)@.trace).powered_on(
                crate::soc::mmio_init::power_on_table(),
            ),
    {
        self.reset_cold();
        self.apply_warm_snapshot();
    }

    fn apply_warm_snapshot(&mut self)
        requires
            old(self).wf(),
        ensures
            final(self).wf(),
            final(self)@ == old(self)@.powered_on(crate::soc::mmio_init::power_on_table()),
    {
        let table = sysreg_init_values();
        for i in 0..9usize
            invariant
                table@.len() == 9,
                crate::soc::mmio_init::table_in_window(table@),
                self.wf(),
                self@ == old(self)@.powered_on(table@.take(i as int)),
        {
            let (off, val) = table[i];
            let abs: u32 = SYSREG_BASE + off;
            proof {
                assert(table@.take(i + 1).drop_last() =~= table@.take(i as int));
                assert(table@.take(i + 1).last() == table@[i as int]);
            }
            if MACSEC_SA_BASE <= abs && abs < MACSEC_SA_END {
                let idx: usize = Self::sa_idx(abs);
                self.sa_store[idx] = val;
            } else if MACSEC_KEY_TAIL_BASE <= abs && abs < MACSEC_KEY_TAIL_END {
                let idx: usize = Self::key_tail_idx(abs);
                self.key_tail_store[idx] = val;
            }
        }
        assert(table@.take(9) =~= table@);
    }

    /// Whether a chunk of the association table holds anything.
    fn chunk_in_use(&self, chunk: usize) -> (r: bool)
        requires
            self.wf(),
            chunk < 10,
        ensures
            r == chunk_used(self@.sa, chunk as int),
    {
        let start: usize = chunk * SA_CHUNK_WORDS;
        let end: usize = if start + SA_CHUNK_WORDS < 592 {
            start + SA_CHUNK_WORDS
        } else {
            592
        };
        for i in start..end
            invariant
                self.wf(),
                chunk < 10,
                start == chunk * 0x40,
                end <= start + 0x40,
                end <= 592,
                end == start + 0x40 || end == 592,
                forall|k: int| start <= k < i ==> self@.sa[k] == 0,
        {
            if self.sa_store[i] != 0 {
                assert(self@.sa[i as int] != 0);
                return true;
            }
        }
        false
    }

    pub fn snapshot(&self) -> (r: PeripheralSnapshot)
        requires
            self.wf(),
        ensures
            r matches PeripheralSnapshot::Macsec(s) && s.control == self@.word_at(0x0100_2468)
                && s.enable_mode == self@.word_at(0x0100_2420) && !s.key_engine_busy
                && !s.pn_threshold_busy && s.sa_slots_programmed == chunks_used(self@.sa, 10)
                && s.pn_overflow_mask == self@.pn_overflow_mask,
    {
        let mut used: u8 = 0;
        for c in 0..10usize
            invariant
                self.wf(),
                used == chunks_used(self@.sa, c as nat),
                used <= c,
        {
            if self.chunk_in_use(c) {
                used = used + 1;
            }
        }
        PeripheralSnapshot::Macsec(
            MacsecSnapshot {
                control: self.sa_store[26],
                enable_mode: self.sa_store[8],
                key_engine_busy: false,
                pn_threshold_busy: false,
                sa_slots_programmed: used,
                pn_overflow_mask: self.pn_overflow_mask,
            },
        )
    }

    pub fn inject_event(&mut self, event: &PeripheralEvent) -> (r: Result<(), PeripheralError>)
        requires
            old(self).wf(),
        ensures
            final(self).wf(),
            r is Ok <==> old(self)@.after_event(*event) is Some,
            r is Err ==> r == Err::<(), PeripheralError>(PeripheralError::UnsupportedEvent),
            final(self)@ == (match old(self)@.after_event(*event) {
                Some(s) => s,
                None => old(self)@,
            }),
    {
        match event {
            PeripheralEvent::Macsec(ev) => {
                match ev {
                    MacsecEvent::InjectPnOverflow(slot) => {
                        let n: u32 = *slot as u32;
                        proof {
                            crate::bits::lemma_field_bounds(n);
                        }
                        self.pn_overflow_mask = self.pn_overflow_mask | (1u32 << (n & 0x1F));
                    },
                    MacsecEvent::ResetSaTable => {
                        self.sa_store = vec![0u32; 592];
                        self.sa_pending_clear = vec![0u32; 592];
                        self.pn_overflow_mask = 0;
                        assert(self@ =~= old(self)@.after_event(*event)->0);
                    },
                }
                Ok(())
            },
            _ => Err(PeripheralError::UnsupportedEvent),
        }
    }
}

/// A register without the command protocol reads back what was written, again
/// and again. The command registers are four, two for each direction.
pub proof fn law_plain_register_is_backing_store(s: MacsecState, addr: u32, val: u32)
    requires
        s.wf(),
        0x0100_2400 <= addr < 0x0100_2D40 || 0x0100_3500 <= addr < 0x0100_3540,
        addr != 0x0100_2804,
        addr != 0x0100_240C,
        addr != 0x0100_280C,
        addr != 0x0100_2644,
        addr != 0x0100_2A44,
        addr < 0x0100_3500 ==> s.sa_pending[(addr - 0x0100_2400) / 4] == 0,
        addr >= 0x0100_3500 ==> s.tail_pending[(addr - 0x0100_3500) / 4] == 0,
    ensures
        ({
            let after = s.after_write(addr, val);
            &&& after.word_at(addr) == val
            &&& after.after_read(addr) == after
        }),
{
}

/// A command register shows the trigger once; the next read shows the word
/// without it.
pub proof fn law_command_trigger_reads_once(s: MacsecState, addr: u32, val: u32)
    requires
        s.wf(),
        addr == 0x0100_240C || addr == 0x0100_280C || addr == 0x0100_2644 || addr == 0x0100_2A44,
        val & 0x8000_0000 != 0,
    ensures
        ({
            let after = s.after_write(addr, val);
            &&& after.word_at(addr) == val
            &&& after.after_read(addr).word_at(addr) == val & !0x8000_0000u32
            &&& after.after_read(addr).after_read(addr) == after.after_read(addr)
        }),
{
}

/// The fatal mask never shows in the fatal status, and is kept as written.
pub proof fn law_fatal_mask_does_not_alias_status(s: MacsecState, addr: u32, val: u32)
    ensures
        s.after_write(addr, val).word_at(0x0100_2804) == 0,
        s.after_write(0x0100_2804, val).fatal_error_mask == val,
        addr != 0x0100_2804 ==> s.after_write(addr, val).fatal_error_mask == s.fatal_error_mask,
{
}

/// What is read or written at one word shows in no other word.
pub proof fn law_macsec_words_are_apart(s: MacsecState, addr: u32, other: u32, val: u32)
    requires
        s.wf(),
        0x0100_2400 <= other < 0x0100_2D40 || 0x0100_3500 <= other < 0x0100_3540,
        addr / 4 != other / 4,
    ensures
        s.after_write(addr, val).word_at(other) == s.word_at(other),
        s.after_read(addr).word_at(other) == s.word_at(other),
        s.after_write(addr, val).wf(),
        s.after_read(addr).wf(),
{
}

/// The two windows and nothing else are claimed.
pub proof fn law_macsec_claims_its_windows(addr: u32)
    ensures
        macsec_claims(addr) <==> 0x0100_2400 <= addr <= 0x0100_2D3F || 0x0100_3500 <= addr
            <= 0x0100_353F,
{
}

/// A forced overflow marks its slot, counted in 32, beside those marked before;
/// clearing the association table forgets the marks and the table, and leaves
/// the key tail and the fatal mask alone.
pub proof fn law_macsec_events(s: MacsecState, slot: u8, other: u32)
    requires
        s.wf(),
        other < 32,
    ensures
        ({
            let hit = PeripheralEvent::Macsec(MacsecEvent::InjectPnOverflow(slot));
            let wipe = PeripheralEvent::Macsec(MacsecEvent::ResetSaTable);
            let marked = s.after_event(hit)->0;
            let wiped = s.after_event(wipe)->0;
            &&& s.after_event(hit) is Some
            &&& s.after_event(wipe) is Some
            &&& marked.pn_overflow_mask & (1u32 << ((slot % 32) as u32)) != 0
            &&& marked.pn_overflow_mask & s.pn_overflow_mask == s.pn_overflow_mask
            &&& other != slot % 32 ==> marked.pn_overflow_mask & (1u32 << other)
                == s.pn_overflow_mask & (1u32 << other)
            &&& marked.sa == s.sa && marked.tail == s.tail && marked.fatal_error_mask
                == s.fatal_error_mask
            &&& marked.sa_pending == s.sa_pending && marked.tail_pending == s.tail_pending
            &&& wiped.pn_overflow_mask == 0
            &&& forall|i: int| 0 <= i < 592 ==> wiped.sa[i] == 0 && wiped.sa_pending[i] == 0
            &&& wiped.tail == s.tail && wiped.tail_pending == s.tail_pending
            &&& wiped.fatal_error_mask == s.fatal_error_mask
            &&& wiped.wf()
        }),
{
    let x = s.pn_overflow_mask;
    let n = slot as u32;
    crate::bits::lemma_fields(n);
    let b = n & 0x1F;
    assert(b == (slot % 32) as u32);
    crate::bits::lemma_one_bit(x, b, other);
}

/// The slots that count as programmed are the 64-word chunks with a word that
/// is not zero.
pub proof fn law_programmed_slots_are_counted(sa: Seq<u32>, n: nat)
    ensures
        ({
            let used = Set::new(
                |c: int|
                    0 <= c < n && exists|i: int|
                        0 <= i < sa.len() && i / 64 == c && #[trigger] sa[i] != 0,
            );
            used.finite() && used.len() == chunks_used(sa, n)
        }),
    decreases n,
{
    let used = Set::new(
        |c: int|
            0 <= c < n && exists|i: int| 0 <= i < sa.len() && i / 64 == c && #[trigger] sa[i] != 0,
    );
    if n == 0 {
        assert(used =~= Set::empty());
    } else {
        law_programmed_slots_are_counted(sa, (n - 1) as nat);
        let before = Set::new(
            |c: int|
                0 <= c < n - 1 && exists|i: int|
                    0 <= i < sa.len() && i / 64 == c && #[trigger] sa[i] != 0,
        );
        assert(chunk_used(sa, n - 1) <==> used.contains(n - 1)) by {
            if chunk_used(sa, n - 1) {
                let i = choose|i: int|
                    (n - 1) * 0x40 <= i < (n - 1) * 0x40 + 0x40 && i < sa.len() && #[trigger] sa[i]
                        != 0;
                assert(i / 64 == n - 1 && sa[i] != 0);
            }
        }
        if chunk_used(sa, n - 1) {
            assert(used =~= before.insert(n - 1));
        } else {
            assert(used =~= before);
        }
    }
}

/// A power-on table sets every word it lists to the last value listed for it,
/// and no other word.
pub proof fn law_power_on_sets_the_listed_words(
    s: MacsecState,
    table: Seq<(u32, u32)>,
    k: int,
    other: u32,
)
    requires
        s.wf(),
        forall|j: int| 0 <= j < table.len() ==> (#[trigger] table[j]).0 < 0x0100_0000,
    ensures
        s.powered_on(table).wf(),
        0 <= k < table.len() && (0x2400 <= table[k].0 < 0x2D40 || 0x3500 <= table[k].0 < 0x3540)
            && table[k].0 != 0x2804 && (forall|j: int|
            k < j < table.len() ==> (#[trigger] table[j]).0 / 4 != table[k].0 / 4)
            ==> s.powered_on(table).word_at((0x0100_0000 + table[k].0) as u32) == table[k].1,
        (forall|j: int|
            0 <= j < table.len() ==> (0x0100_0000 + (#[trigger] table[j]).0) / 4 != other / 4)
            ==> s.powered_on(table).word_at(other) == s.word_at(other),
    decreases table.len(),
{
    if table.len() > 0 {
        let front = table.drop_last();
        assert forall|j: int| 0 <= j < front.len() implies (#[trigger] front[j]).0 < 0x0100_0000 by {
            assert(front[j] == table[j]);
        }
        law_power_on_sets_the_listed_words(s, front, k, other);
        assert(table.last() == table[table.len() - 1]);
        assert(forall|j: int| 0 <= j < front.len() ==> front[j] == #[trigger] table[j]);
    }
}

} // verus!
