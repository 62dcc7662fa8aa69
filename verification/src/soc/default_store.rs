//! Residual register store for addresses no peripheral claims.
//!
//! Writes are kept verbatim and read back: no bit clears itself, nothing is
//! forced. An optional trace tallies the accesses, so that unmodelled
//! registers show up.

use std::collections::HashMap;

use vstd::prelude::*;

use crate::cpu::exception::Exception;
use crate::soc::peripheral::{merge_byte, merge_half, select_byte, select_half, AddressRange};

verus! {

broadcast use vstd::std_specs::hash::group_hash_axioms;

/// The accesses one register saw.
#[derive(Clone, Copy, Debug, PartialEq, Eq, Structural)]
pub struct ResidualTraceEntry {
    pub reads: u64,
    pub writes: u64,
    pub last_read_value: u32,
    pub last_write_value: u32,
    pub first_pc: u32,
    pub first_insn: u64,
    /// Bit 0 for byte, bit 1 for half-word, bit 2 for word accesses.
    pub access_widths: u8,
}

/// The bit that stands for an access width.
pub open spec fn width_bit(width: u32) -> u8 {
    if width == 1 {
        1
    } else if width == 2 {
        2
    } else if width == 4 {
        4
    } else {
        0
    }
}

/// The store, as values.
#[verifier::ext_equal]
pub struct StoreState {
    pub range: AddressRange,
    pub words: Seq<u32>,
    pub trace: Option<Map<u32, ResidualTraceEntry>>,
    pub pc: u32,
    pub insn: u64,
}

impl StoreState {
    /// The word of the store an address names.
    pub open spec fn index(self, addr: u32) -> int {
        (addr - self.range.start) / 4
    }

    /// The store with no word written.
    pub open spec fn cleared(self) -> StoreState {
        StoreState {
            words: Seq::new(self.words.len(), |i: int| 0u32),
            pc: 0,
            insn: 0,
            ..self
        }
    }

    /// The word an address reads as; zero where the store ends early.
    pub open spec fn word_at(self, addr: u32) -> u32 {
        if self.index(addr) < self.words.len() {
            self.words[self.index(addr)]
        } else {
            0
        }
    }

    /// The store after a word is put at an address.
    pub open spec fn stored(self, addr: u32, val: u32) -> StoreState {
        if self.index(addr) < self.words.len() {
            StoreState { words: self.words.update(self.index(addr), val), ..self }
        } else {
            self
        }
    }

    /// The tally of a register so far.
    pub open spec fn tally(self, addr: u32) -> ResidualTraceEntry {
        if self.trace is Some && self.trace->0.dom().contains(addr) {
            self.trace->0[addr]
        } else {
            ResidualTraceEntry {
                reads: 0,
                writes: 0,
                last_read_value: 0,
                last_write_value: 0,
                first_pc: self.pc,
                first_insn: self.insn,
                access_widths: 0,
            }
        }
    }

    /// The store after a read is tallied.
    pub open spec fn read_logged(self, addr: u32, val: u32, width: u32) -> StoreState {
        match self.trace {
            None => self,
            Some(m) => StoreState {
                trace: Some(
                    m.insert(
                        addr,
                        ResidualTraceEntry {
                            reads: (self.tally(addr).reads + 1) as u64,
                            last_read_value: val,
                            access_widths: self.tally(addr).access_widths | width_bit(width),
                            ..self.tally(addr)
                        },
                    ),
                ),
                ..self
            },
        }
    }

    /// The store after a write is tallied.
    pub open spec fn write_logged(self, addr: u32, val: u32, width: u32) -> StoreState {
        match self.trace {
            None => self,
            Some(m) => StoreState {
                trace: Some(
                    m.insert(
                        addr,
                        ResidualTraceEntry {
                            writes: (self.tally(addr).writes + 1) as u64,
                            last_write_value: val,
                            access_widths: self.tally(addr).access_widths | width_bit(width),
                            ..self.tally(addr)
                        },
                    ),
                ),
                ..self
            },
        }
    }

    /// Whether the tally of a register can take one more read.
    pub open spec fn can_tally_read(self, addr: u32) -> bool {
        self.tally(addr).reads < u64::MAX
    }

    /// Whether the tally of a register can take one more write.
    pub open spec fn can_tally_write(self, addr: u32) -> bool {
        self.tally(addr).writes < u64::MAX
    }

    /// The store after a word was read as part of an access of some width.
    pub open spec fn after_read(self, addr: u32, width: u32) -> StoreState {
        self.read_logged(word_address(addr), self.word_at(addr), width)
    }

    /// The store after a word was written as part of an access of some width.
    /// Past the store, a narrow access finds no word to merge into.
    pub open spec fn after_write(self, addr: u32, val: u32, width: u32) -> StoreState {
        if width == 4 || self.index(addr) < self.words.len() {
            self.stored(addr, val).write_logged(word_address(addr), val, width)
        } else {
            self
        }
    }

    /// The store after a half-word was written.
    pub open spec fn after_half_write(self, addr: u32, val: u16) -> StoreState {
        let at = word_address(addr);
        self.after_write(
            at,
            crate::soc::peripheral::with_half_lane(self.word_at(at), addr, val),
            2,
        )
    }

    /// The store after a byte was written.
    pub open spec fn after_byte_write(self, addr: u32, val: u8) -> StoreState {
        let at = word_address(addr);
        self.after_write(
            at,
            crate::soc::peripheral::with_byte_lane(self.word_at(at), addr, val),
            1,
        )
    }

    /// The store after a list of `(offset, value)` pairs goes in.
    pub open spec fn loaded(self, pairs: Seq<(u32, u32)>) -> StoreState
        decreases pairs.len(),
    {
        if pairs.len() == 0 {
            self
        } else {
            let before = self.loaded(pairs.drop_last());
            let idx = pairs.last().0 as int / 4;
            if idx < before.words.len() {
                StoreState { words: before.words.update(idx, pairs.last().1), ..before }
            } else {
                before
            }
        }
    }
}

/// The word-aligned address that covers an address.
pub open spec fn word_address(addr: u32) -> u32 {
    addr & !3
}

pub struct DefaultRegisterStore {
    pub range: AddressRange,
    /// Indexed by `(addr - range.start) / 4`.
    pub store: Vec<u32>,
    pub trace: Option<HashMap<u32, ResidualTraceEntry>>,
    pub current_pc: u32,
    pub current_insn: u64,
}

impl View for DefaultRegisterStore {
    type V = StoreState;

    open spec fn view(&self) -> StoreState {
        StoreState {
            range: self.range,
            words: self.store@,
            trace: match self.trace {
                Some(m) => Some(m@),
                None => None,
            },
            pc: self.current_pc,
            insn: self.current_insn,
        }
    }
}

impl Clone for DefaultRegisterStore {
    fn clone(&self) -> (r: Self)
        ensures
            r@ == self@,
    {
        let r = DefaultRegisterStore {
            range: self.range,
            store: self.store.clone(),
            trace: match &self.trace {
                Some(m) => Some(m.clone()),
                None => None,
            },
            current_pc: self.current_pc,
            current_insn: self.current_insn,
        };
        assert(r.store@ =~= self.store@);
        assert(r@ =~= self@);
        r
    }
}

impl DefaultRegisterStore {
    pub fn new(range: AddressRange) -> (r: Self)
        requires
            range.start <= range.end,
        ensures
            r@ == (StoreState {
                range,
                words: Seq::new(((range.end - range.start) / 4) as nat, |i: int| 0u32),
                trace: None,
                pc: 0,
                insn: 0,
            }),
    {
        let num: usize = ((range.end - range.start) / 4) as usize;
        let r = DefaultRegisterStore {
            range,
            store: vec![0u32; num],
            trace: None,
            current_pc: 0,
            current_insn: 0,
        };
        assert(r.store@ =~= Seq::new(((range.end - range.start) / 4) as nat, |i: int| 0u32));
        r
    }

    /// Clear the words. The range and the trace stay.
    pub fn reset(&mut self)
        ensures
            final(self)@ == old(self)@.cleared(),
    {
        let num: usize = self.store.len();
        self.store = vec![0u32; num];
        self.current_pc = 0;
        self.current_insn = 0;
        assert(self@ =~= old(self)@.cleared());
    }

    /// Say which instruction is accessing.
    pub fn update_cpu_context(&mut self, pc: u32, insn: u64)
        ensures
            final(self)@ == (StoreState { pc, insn, ..old(self)@ }),
    {
        self.current_pc = pc;
        self.current_insn = insn;
    }

    pub fn range(&self) -> (r: AddressRange)
        ensures
            r == self@.range,
    {
        self.range
    }

    pub fn contains(&self, addr: u32) -> (r: bool)
        ensures
            r == self@.range.has(addr),
    {
        self.range.contains(addr)
    }

    fn idx(&self, addr: u32) -> (r: usize)
        requires
            self.range.start <= addr,
        ensures
            r == self@.index(addr),
    {
        ((addr - self.range.start) / 4) as usize
    }

    /// The word an address holds, which a look leaves as it is.
    pub fn word(&self, addr: u32) -> (r: u32)
        requires
            self.range.start <= addr,
        ensures
            r == self@.word_at(addr),
    {
        let idx: usize = self.idx(addr);
        if idx < self.store.len() {
            self.store[idx]
        } else {
            0
        }
    }

    /// Read a word as part of an access of some width.
    pub(crate) fn read_as(&mut self, addr: u32, width: u32) -> (r: u32)
        requires
            old(self)@.range.start <= addr,
            old(self)@.can_tally_read(word_address(addr)),
        ensures
            r == old(self)@.word_at(addr),
            final(self)@ == old(self)@.after_read(addr, width),
    {
        let val: u32 = self.word(addr);
        self.log_read(addr & !3, val, width);
        val
    }

    /// Write a word as part of an access of some width.
    pub(crate) fn write_as(&mut self, addr: u32, val: u32, width: u32)
        requires
            old(self)@.range.start <= addr,
            old(self)@.can_tally_write(word_address(addr)),
        ensures
            final(self)@ == old(self)@.after_write(addr, val, width),
    {
        let idx: usize = self.idx(addr);
        if idx < self.store.len() {
            self.store[idx] = val;
            self.log_write(addr & !3, val, width);
        } else if width == 4 {
            self.log_write(addr & !3, val, width);
        }
    }

    pub fn read_word(&mut self, addr: u32) -> (r: Result<u32, Exception>)
        requires
            old(self)@.range.start <= addr,
            old(self)@.can_tally_read(word_address(addr)),
        ensures
            r == Ok::<u32, Exception>(old(self)@.word_at(addr)),
            final(self)@ == old(self)@.after_read(addr, 4),
    {
        Ok(self.read_as(addr, 4))
    }

    pub fn write_word(&mut self, addr: u32, val: u32) -> (r: Result<(), Exception>)
        requires
            old(self)@.range.start <= addr,
            old(self)@.can_tally_write(word_address(addr)),
        ensures
            r == Ok::<(), Exception>(()),
            final(self)@ == old(self)@.after_write(addr, val, 4),
    {
        self.write_as(addr, val, 4);
        Ok(())
    }

    /// Read a byte, most significant first.
    pub fn read_byte(&mut self, addr: u32) -> (r: Result<u8, Exception>)
        requires
            old(self)@.range.start <= word_address(addr),
            old(self)@.can_tally_read(word_address(addr)),
        ensures
            r == Ok::<u8, Exception>(
                crate::soc::peripheral::byte_lane(old(self)@.word_at(word_address(addr)), addr),
            ),
            final(self)@ == old(self)@.after_read(word_address(addr), 1),
    {
        proof {
            lemma_word_address_stays(addr);
        }
        let word: u32 = self.read_as(addr & !3, 1);
        Ok(select_byte(word, addr))
    }

    /// Write a byte into its lane of the word.
    pub fn write_byte(&mut self, addr: u32, val: u8) -> (r: Result<(), Exception>)
        requires
            old(self)@.range.start <= word_address(addr),
            old(self)@.can_tally_write(word_address(addr)),
        ensures
            r == Ok::<(), Exception>(()),
            final(self)@ == old(self)@.after_byte_write(addr, val),
    {
        proof {
            lemma_word_address_stays(addr);
        }
        let word: u32 = merge_byte(self.word(addr & !3), addr, val);
        self.write_as(addr & !3, word, 1);
        Ok(())
    }

    /// Read a half-word, most significant first.
    pub fn read_half(&mut self, addr: u32) -> (r: Result<u16, Exception>)
        requires
            old(self)@.range.start <= word_address(addr),
            old(self)@.can_tally_read(word_address(addr)),
        ensures
            r == Ok::<u16, Exception>(
                crate::soc::peripheral::half_lane(old(self)@.word_at(word_address(addr)), addr),
            ),
            final(self)@ == old(self)@.after_read(word_address(addr), 2),
    {
        proof {
            lemma_word_address_stays(addr);
        }
        let word: u32 = self.read_as(addr & !3, 2);
        Ok(select_half(word, addr))
    }

    /// Write a half-word into its lane of the word.
    pub fn write_half(&mut self, addr: u32, val: u16) -> (r: Result<(), Exception>)
        requires
            old(self)@.range.start <= word_address(addr),
            old(self)@.can_tally_write(word_address(addr)),
        ensures
            r == Ok::<(), Exception>(()),
            final(self)@ == old(self)@.after_half_write(addr, val),
    {
        proof {
            lemma_word_address_stays(addr);
        }
        let word: u32 = merge_half(self.word(addr & !3), addr, val);
        self.write_as(addr & !3, word, 2);
        Ok(())
    }

    /// Whether the tally of a register can take one more read, and one more
    /// write.
    pub(crate) fn tally_room(&self, addr: u32) -> (r: (bool, bool))
        ensures
            r.0 == self@.can_tally_read(word_address(addr)),
            r.1 == self@.can_tally_write(word_address(addr)),
    {
        match &self.trace {
            Some(trace) => {
                let e = Self::tally_of(trace, addr & !3, self.current_pc, self.current_insn);
                (e.reads < u64::MAX, e.writes < u64::MAX)
            },
            None => (true, true),
        }
    }

    fn width_bit_of(width: u32) -> (r: u8)
        ensures
            r == width_bit(width),
    {
        if width == 1 {
            1
        } else if width == 2 {
            2
        } else if width == 4 {
            4
        } else {
            0
        }
    }

    /// The tally a register has in a trace, or a fresh one.
    fn tally_of(
        trace: &HashMap<u32, ResidualTraceEntry>,
        addr: u32,
        pc: u32,
        insn: u64,
    ) -> (r: ResidualTraceEntry)
        ensures
            trace@.dom().contains(addr) ==> r == trace@[addr],
            !trace@.dom().contains(addr) ==> r == (ResidualTraceEntry {
                reads: 0,
                writes: 0,
                last_read_value: 0,
                last_write_value: 0,
                first_pc: pc,
                first_insn: insn,
                access_widths: 0,
            }),
    {
        match trace.get(&addr) {
            Some(e) => *e,
            None => ResidualTraceEntry {
                reads: 0,
                writes: 0,
                last_read_value: 0,
                last_write_value: 0,
                first_pc: pc,
                first_insn: insn,
                access_widths: 0,
            },
        }
    }

    fn log_read(&mut self, word_addr: u32, val: u32, width: u32)
        requires
            old(self)@.can_tally_read(word_addr),
        ensures
            final(self)@ == old(self)@.read_logged(word_addr, val, width),
    {
        let pc: u32 = self.current_pc;
        let insn: u64 = self.current_insn;
        if let Some(trace) = &mut self.trace {
            let mut entry = Self::tally_of(trace, word_addr, pc, insn);
            entry.reads = entry.reads + 1;
            entry.last_read_value = val;
            entry.access_widths = entry.access_widths | Self::width_bit_of(width);
            trace.insert(word_addr, entry);
        }
        assert(self@ =~= old(self)@.read_logged(word_addr, val, width));
    }

    fn log_write(&mut self, word_addr: u32, val: u32, width: u32)
        requires
            old(self)@.can_tally_write(word_addr),
        ensures
            final(self)@ == old(self)@.write_logged(word_addr, val, width),
    {
        let pc: u32 = self.current_pc;
        let insn: u64 = self.current_insn;
        if let Some(trace) = &mut self.trace {
            let mut entry = Self::tally_of(trace, word_addr, pc, insn);
            entry.writes = entry.writes + 1;
            entry.last_write_value = val;
            entry.access_widths = entry.access_widths | Self::width_bit_of(width);
            trace.insert(word_addr, entry);
        }
        assert(self@ =~= old(self)@.write_logged(word_addr, val, width));
    }

    /// Load `(offset, value)` pairs, offsets counted from the start of the
    /// range. Pairs past the store are dropped.
    pub fn load_init_slice(&mut self, pairs: &[(u32, u32)])
        ensures
            final(self)@ == old(self)@.loaded(pairs@),
    {
        let n: usize = pairs.len();
        assert(pairs@.take(0) =~= Seq::<(u32, u32)>::empty());
        for i in 0..n
            invariant
                n == pairs@.len(),
                self@ == old(self)@.loaded(pairs@.take(i as int)),
        {
            let (off, val) = pairs[i];
            proof {
                assert(pairs@.take(i + 1).drop_last() =~= pairs@.take(i as int));
                assert(pairs@.take(i + 1).last() == pairs@[i as int]);
            }
            let idx: usize = (off / 4) as usize;
            if idx < self.store.len() {
                self.store[idx] = val;
            }
        }
        assert(pairs@.take(n as int) =~= pairs@);
    }
}

/// A word written inside the store reads back whole, high bits and all, and
/// reading it again gives it again; every other word keeps its value.
pub proof fn law_store_keeps_what_was_written(s: StoreState, addr: u32, val: u32, other: u32)
    requires
        s.range.start <= addr,
        s.range.start <= other,
        (addr - s.range.start) / 4 < s.words.len(),
    ensures
        ({
            let after = s.after_write(addr, val, 4);
            &&& after.word_at(addr) == val
            &&& after.after_read(addr, 4).word_at(addr) == val
            &&& (other - s.range.start) / 4 != (addr - s.range.start) / 4 ==> after.word_at(other)
                == s.word_at(other)
            &&& (other - s.range.start) / 4 == (addr - s.range.start) / 4 ==> after.word_at(other)
                == val
            &&& (other - s.range.start) / 4 >= s.words.len() ==> s.word_at(other) == 0
        }),
{
}

/// A byte written into a store of whole words reads back. Its word changes in
/// that lane alone, and every other word keeps its value.
pub proof fn law_byte_lands_in_its_lane(s: StoreState, addr: u32, other: u32, val: u8)
    requires
        s.range.start % 4 == 0,
        s.range.start <= addr < s.range.end,
        s.range.start <= other < s.range.end,
        s.words.len() * 4 == s.range.end - s.range.start,
    ensures
        ({
            let at = word_address(addr);
            let after = s.after_byte_write(addr, val);
            let sh = (24 - 8 * (addr & 3)) as u32;
            &&& crate::soc::peripheral::byte_lane(after.word_at(at), addr) == val
            &&& after.word_at(at) == (s.word_at(at) & !(0xFFu32 << sh)) | ((val as u32) << sh)
            &&& word_address(other) != at ==> after.word_at(word_address(other)) == s.word_at(
                word_address(other),
            )
        }),
{
    crate::bits::lemma_round_down(addr);
    crate::bits::lemma_round_down(other);
    crate::soc::peripheral::law_byte_lane_round_trip(
        s.word_at(word_address(addr)),
        addr,
        other,
        val,
    );
}

/// A half-word written into a store of whole words reads back, and every other
/// word keeps its value.
pub proof fn law_half_lands_in_its_lane(s: StoreState, addr: u32, other: u32, val: u16)
    requires
        s.range.start % 4 == 0,
        s.range.start <= addr < s.range.end,
        s.range.start <= other < s.range.end,
        s.words.len() * 4 == s.range.end - s.range.start,
    ensures
        ({
            let at = word_address(addr);
            let after = s.after_half_write(addr, val);
            &&& crate::soc::peripheral::half_lane(after.word_at(at), addr) == val
            &&& word_address(other) != at ==> after.word_at(word_address(other)) == s.word_at(
                word_address(other),
            )
        }),
{
    crate::bits::lemma_round_down(addr);
    crate::bits::lemma_round_down(other);
    crate::soc::peripheral::law_half_lane_round_trip(
        s.word_at(word_address(addr)),
        addr,
        other,
        val,
    );
}

/// A word address is its own.
pub proof fn lemma_word_address_stays(addr: u32)
    ensures
        word_address(word_address(addr)) == word_address(addr),
        word_address(addr) <= addr,
{
    crate::bits::lemma_round_down(addr);
    crate::bits::lemma_round_down(addr & !3);
}

/// The trace sees every access and changes no word: it counts the access, keeps
/// its value and its width, and leaves the tallies of other registers. Where
/// nothing is traced, nothing is tallied.
pub proof fn law_trace_counts_and_changes_no_word(
    s: StoreState,
    addr: u32,
    val: u32,
    width: u32,
    other: u32,
)
    requires
        s.can_tally_read(addr),
        s.can_tally_write(addr),
    ensures
        ({
            let read = s.read_logged(addr, val, width);
            let wrote = s.write_logged(addr, val, width);
            let was = s.tally(addr);
            &&& s.trace is Some ==> {
                &&& read.tally(addr).reads == was.reads + 1
                &&& read.tally(addr).writes == was.writes
                &&& read.tally(addr).last_read_value == val
                &&& read.tally(addr).last_write_value == was.last_write_value
                &&& wrote.tally(addr).writes == was.writes + 1
                &&& wrote.tally(addr).reads == was.reads
                &&& wrote.tally(addr).last_write_value == val
                &&& wrote.tally(addr).last_read_value == was.last_read_value
                &&& read.tally(addr).first_pc == was.first_pc
                &&& wrote.tally(addr).first_pc == was.first_pc
                &&& read.tally(addr).first_insn == was.first_insn
                &&& wrote.tally(addr).first_insn == was.first_insn
                &&& read.tally(addr).access_widths == wrote.tally(addr).access_widths
                &&& width == 1 ==> read.tally(addr).access_widths & 1 == 1
                &&& width == 2 ==> read.tally(addr).access_widths & 2 == 2
                &&& width == 4 ==> read.tally(addr).access_widths & 4 == 4
                &&& read.tally(addr).access_widths & was.access_widths == was.access_widths
                &&& other != addr ==> read.tally(other) == s.tally(other) && wrote.tally(other)
                    == s.tally(other)
                &&& !(s.trace->0).dom().contains(addr) ==> was.first_pc == s.pc && was.first_insn
                    == s.insn && was.reads == 0 && was.writes == 0
            }
            &&& s.trace is None ==> read == s && wrote == s
            &&& read.word_at(other) == s.word_at(other)
            &&& wrote.word_at(other) == s.word_at(other)
        }),
{
    let was = s.tally(addr).access_widths as u32;
    crate::bits::lemma_set_bits(was, width_bit(width) as u32);
}

/// An access is tallied under the address of its word, with its own width.
pub proof fn law_accesses_are_tallied_by_word(s: StoreState, addr: u32, val: u32, width: u32)
    requires
        s.range.start <= addr,
        (addr - s.range.start) / 4 < s.words.len(),
    ensures
        ({
            let at = (addr - addr % 4) as u32;
            &&& s.after_read(addr, width) == s.read_logged(at, s.word_at(addr), width)
            &&& s.after_write(addr, val, width).trace == s.write_logged(at, val, width).trace
            &&& s.after_write(addr, val, width).word_at(addr) == val
            &&& s.after_read(addr, width).words == s.words
        }),
{
    crate::bits::lemma_round_down(addr);
}

/// A reset forgets the words and where the processor was, and keeps the range
/// and the tallies.
pub proof fn law_store_reset_clears_the_words(s: StoreState, i: int)
    requires
        0 <= i < s.words.len(),
    ensures
        s.cleared().words[i] == 0,
        s.cleared().words.len() == s.words.len(),
        s.cleared().range == s.range,
        s.cleared().trace == s.trace,
        s.cleared().pc == 0,
        s.cleared().insn == 0,
{
}

} // verus!
