//! Packet classifier: the latched indirect ports into its rule tables.
//!
//! Two instances live inside the lane register file, `0x400` apart. Each is
//! five words: a command register and four data registers.
//!
//! ```text
//! instance 0   CMD 0x0100240C   DATA 0x01002410 .. 0x0100241C
//! instance 1   CMD 0x0100280C   DATA 0x01002810 .. 0x0100281C
//! ```
//!
//! Software writes the data registers, then the command word with bit 31 set,
//! then spins on the command word until that bit clears. The spin has no
//! timeout, so the go bit clears on every command, whatever it asks for.

use vstd::prelude::*;

use crate::cpu::exception::Exception;
use crate::soc::peripheral::{merge_byte, merge_half, select_byte, select_half};

pub mod engine;
pub mod fallback;
pub mod port;
pub mod rule;

pub use engine::{Engine, EngineCounters, RuleStart, Verdict};
pub use port::{Cmd, LuePort, PortCounters, Quad, CMD_ERROR, CMD_GO, CMD_WRITE};
pub use rule::{Action, ActionPayload, Clause, Entry, Field, Link, Op, Rule, RuleError, RuleRead};

use engine::Outcome;
use port::PortState;

verus! {

/// Command register of the first instance.
pub const LUE_CMD_ADDR_0: u32 = 0x0100_240C;

/// Command register of the second instance.
pub const LUE_CMD_ADDR_1: u32 = 0x0100_280C;

/// Command register of each instance. The four data registers follow.
pub const LUE_CMD_ADDR: [u32; 2] = [LUE_CMD_ADDR_0, LUE_CMD_ADDR_1];

/// Which port and which table the downstream path consults.
#[derive(Clone, Copy, Debug, PartialEq, Eq, Structural)]
pub struct ClassifierBinding {
    pub instance: usize,
    pub table: u8,
}

impl Default for ClassifierBinding {
    fn default() -> (r: Self)
        ensures
            r == (ClassifierBinding { instance: 1, table: 8 }),
    {
        ClassifierBinding { instance: 1, table: 8 }
    }
}

/// Which instance and which word an address names, if any. Word 0 is the
/// command register, words 1..=4 are the data registers in address order.
pub open spec fn lue_place(addr: u32) -> Option<(int, int)> {
    let word = addr & !3;
    if LUE_CMD_ADDR_0 <= word < LUE_CMD_ADDR_0 + 20 {
        Some((0, (word - LUE_CMD_ADDR_0) / 4))
    } else if LUE_CMD_ADDR_1 <= word < LUE_CMD_ADDR_1 + 20 {
        Some((1, (word - LUE_CMD_ADDR_1) / 4))
    } else {
        None
    }
}

/// The classifier, as values.
#[verifier::ext_equal]
pub struct LueState {
    pub inst: Seq<PortState>,
}

impl LueState {
    pub open spec fn cleared() -> LueState {
        LueState { inst: seq![PortState::cleared(), PortState::cleared()] }
    }

    /// What an address reads as, if the classifier claims it.
    pub open spec fn peek(self, addr: u32) -> Option<u32> {
        match lue_place(addr) {
            None => None,
            Some((i, word)) => if word == 0 {
                Some(self.inst[i].last_cmd)
            } else {
                Some(self.inst[i].regs[word - 1])
            },
        }
    }

    pub open spec fn word_at(self, addr: u32) -> u32 {
        match self.peek(addr) {
            Some(v) => v,
            None => 0,
        }
    }

    /// The classifier after a word is written.
    pub open spec fn after_write(self, addr: u32, val: u32) -> LueState {
        match lue_place(addr) {
            None => self,
            Some((i, word)) => LueState {
                inst: self.inst.update(
                    i,
                    if word == 0 {
                        self.inst[i].after_cmd(val)
                    } else {
                        self.inst[i].with_data(word - 1, val)
                    },
                ),
            },
        }
    }

    /// Whether the counters a write moves can still count.
    pub open spec fn can_take(self, addr: u32, val: u32) -> bool {
        match lue_place(addr) {
            Some((i, word)) => word == 0 ==> self.inst[i].can_take(val),
            None => true,
        }
    }
}

/// The starts a sequence of indices in one table makes.
pub open spec fn starts_in(table: u8, indices: Seq<u16>) -> Seq<RuleStart> {
    Seq::new(indices.len(), |i: int| RuleStart { table, index: indices[i] })
}

/// Whether a sequence lists every index a rule of a table begins at, in order.
pub open spec fn lists_starts(port: PortState, table: u8, indices: Seq<u16>) -> bool {
    let t = port.tables[crate::soc::lue::port::table_slot(table)];
    &&& forall|i: int, j: int| 0 <= i < j < indices.len() ==> indices[i] < indices[j]
    &&& forall|i: int|
        0 <= i < indices.len() ==> indices[i] <= 0x0FFF && crate::soc::lue::port::starts_rule(
            t,
            #[trigger] indices[i],
        )
    &&& forall|at: u16|
        at <= 0x0FFF && #[trigger] crate::soc::lue::port::starts_rule(t, at)
            ==> indices.contains(at)
}

/// What a port says of a frame from the rules of one table.
pub open spec fn table_says(
    port: PortState,
    table: u8,
    frame: Seq<u8>,
    indices: Seq<u16>,
) -> Outcome {
    if indices.len() == 0 {
        Outcome::Refused(crate::soc::lue::engine::Refusal::NoRules)
    } else {
        crate::soc::lue::engine::overall(
            crate::soc::lue::engine::outcomes(port, starts_in(table, indices), frame),
        )
    }
}

/// What a port says of a frame from the rules of one table, whichever they are.
pub open spec fn classified(port: PortState, table: u8, frame: Seq<u8>) -> Outcome {
    table_says(port, table, frame, choose|indices: Seq<u16>| lists_starts(port, table, indices))
}

/// A verdict and its counts are what the rules of a table say of a frame.
pub open spec fn decided(
    port: PortState,
    table: u8,
    frame: Seq<u8>,
    verdict: Verdict,
    counters: EngineCounters,
) -> bool {
    exists|indices: Seq<u16>| #[trigger]
        lists_starts(port, table, indices) && verdict.states(
            table_says(port, table, frame, indices),
        ) && counters == EngineCounters::zero().classified(table_says(port, table, frame, indices))
}

/// The classifier's two indirect ports.
#[derive(Debug)]
pub struct Lue {
    pub inst: [LuePort; 2],
}

impl View for Lue {
    type V = LueState;

    open spec fn view(&self) -> LueState {
        LueState { inst: seq![self.inst[0]@, self.inst[1]@] }
    }
}

impl Clone for Lue {
    fn clone(&self) -> (r: Self)
        ensures
            r@ == self@,
    {
        let r = Lue {
            inst: self.inst.clone(),
        };
        assert(r@ =~= self@);
        r
    }
}

impl Default for Lue {
    fn default() -> (r: Self)
        ensures
            r@ == LueState::cleared(),
    {
        Lue::new()
    }
}

impl Lue {
    pub fn new() -> (r: Self)
        ensures
            r@ == LueState::cleared(),
    {
        let r = Lue { inst: [LuePort::new(), LuePort::new()] };
        assert(r@ =~= LueState::cleared());
        r
    }

    fn locate(addr: u32) -> (r: Option<(usize, usize)>)
        ensures
            match lue_place(addr) {
                None => r is None,
                Some((i, word)) => r matches Some((a, b)) && a == i && b == word && a < 2 && b < 5,
            },
    {
        let word: u32 = addr & !3;
        if word >= LUE_CMD_ADDR_0 && word < LUE_CMD_ADDR_0 + 20 {
            Some((0usize, ((word - LUE_CMD_ADDR_0) / 4) as usize))
        } else if word >= LUE_CMD_ADDR_1 && word < LUE_CMD_ADDR_1 + 20 {
            Some((1usize, ((word - LUE_CMD_ADDR_1) / 4) as usize))
        } else {
            None
        }
    }

    pub fn claims(&self, addr: u32) -> (r: bool)
        ensures
            r == (lue_place(addr) is Some),
    {
        Self::locate(addr).is_some()
    }

    /// Whether the counters a write moves can still count.
    pub fn takes(&self, addr: u32, val: u32) -> (r: bool)
        ensures
            r == self@.can_take(addr, val),
    {
        match Self::locate(addr) {
            Some((inst, slot)) => slot != 0 || self.inst[inst].takes_cmd(val),
            None => true,
        }
    }

    /// Read a word with no side effect of any kind.
    pub fn peek_word(&self, addr: u32) -> (r: Option<u32>)
        ensures
            r == self@.peek(addr),
    {
        match Self::locate(addr) {
            None => None,
            Some((inst, slot)) => {
                if slot == 0 {
                    Some(self.inst[inst].read_cmd())
                } else {
                    Some(self.inst[inst].read_data(slot - 1))
                }
            },
        }
    }

    pub fn read_word(&mut self, addr: u32) -> (r: Result<u32, Exception>)
        ensures
            r == Ok::<u32, Exception>(old(self)@.word_at(addr)),
            *final(self) == *old(self),
    {
        match self.peek_word(addr) {
            Some(v) => Ok(v),
            None => Ok(0),
        }
    }

    pub fn write_word(&mut self, addr: u32, val: u32) -> (r: Result<(), Exception>)
        requires
            old(self)@.can_take(addr, val),
        ensures
            r == Ok::<(), Exception>(()),
            final(self)@ == old(self)@.after_write(addr, val),
    {
        if let Some((inst, slot)) = Self::locate(addr) {
            if slot == 0 {
                self.inst[inst].write_cmd(val);
            } else {
                self.inst[inst].write_data(slot - 1, val);
            }
        }
        assert(self@ =~= old(self)@.after_write(addr, val));
        Ok(())
    }

    pub fn read_half(&mut self, addr: u32) -> (r: Result<u16, Exception>)
        ensures
            r == Ok::<u16, Exception>(
                crate::soc::peripheral::half_lane(old(self)@.word_at(addr & !3), addr),
            ),
            *final(self) == *old(self),
    {
        match self.read_word(addr & !3) {
            Ok(word) => Ok(select_half(word, addr)),
            Err(e) => Err(e),
        }
    }

    pub fn read_byte(&mut self, addr: u32) -> (r: Result<u8, Exception>)
        ensures
            r == Ok::<u8, Exception>(
                crate::soc::peripheral::byte_lane(old(self)@.word_at(addr & !3), addr),
            ),
            *final(self) == *old(self),
    {
        match self.read_word(addr & !3) {
            Ok(word) => Ok(select_byte(word, addr)),
            Err(e) => Err(e),
        }
    }

    pub fn write_half(&mut self, addr: u32, val: u16) -> (r: Result<(), Exception>)
        requires
            old(self)@.can_take(
                addr & !3,
                crate::soc::peripheral::with_half_lane(old(self)@.word_at(addr & !3), addr, val),
            ),
        ensures
            r == Ok::<(), Exception>(()),
            final(self)@ == old(self)@.after_write(
                addr & !3,
                crate::soc::peripheral::with_half_lane(old(self)@.word_at(addr & !3), addr, val),
            ),
    {
        match self.read_word(addr & !3) {
            Ok(word) => self.write_word(addr & !3, merge_half(word, addr, val)),
            Err(e) => Err(e),
        }
    }

    pub fn write_byte(&mut self, addr: u32, val: u8) -> (r: Result<(), Exception>)
        requires
            old(self)@.can_take(
                addr & !3,
                crate::soc::peripheral::with_byte_lane(old(self)@.word_at(addr & !3), addr, val),
            ),
        ensures
            r == Ok::<(), Exception>(()),
            final(self)@ == old(self)@.after_write(
                addr & !3,
                crate::soc::peripheral::with_byte_lane(old(self)@.word_at(addr & !3), addr, val),
            ),
    {
        match self.read_word(addr & !3) {
            Ok(word) => self.write_word(addr & !3, merge_byte(word, addr, val)),
            Err(e) => Err(e),
        }
    }

    /// Classify a frame against the bound port and table. A table without
    /// rules has nothing to say, which is not a miss.
    pub fn classify(&self, binding: ClassifierBinding, frame: &[u8]) -> (r: (
        Verdict,
        EngineCounters,
    ))
        ensures
            decided(
                self@.inst[(binding.instance & 1) as int],
                binding.table,
                frame@,
                r.0,
                r.1,
            ),
    {
        let instance: usize = binding.instance;
        assert(instance & 1usize <= 1) by (bit_vector);
        let which: usize = instance & 1;
        let indices = self.inst[which].rule_starts(binding.table);
        let ghost port = self@.inst[which as int];
        assert(lists_starts(port, binding.table, indices@));
        let mut counters = EngineCounters::default();
        let n: usize = indices.len();
        if n == 0 {
            counters.frames_classified = 1;
            counters.no_rules = 1;
            let why = engine::Refusal::NoRules;
            return (Verdict::Undecidable { reason: why.text() }, counters);
        }
        let mut starts: Vec<RuleStart> = Vec::new();
        for i in 0..n
            invariant
                n == indices@.len(),
                starts@ == starts_in(binding.table, indices@).take(i as int),
        {
            starts.push(RuleStart { table: binding.table, index: indices[i] });
            assert(starts@ =~= starts_in(binding.table, indices@).take(i + 1));
        }
        assert(starts@ =~= starts_in(binding.table, indices@));
        let verdict = Engine::classify(&self.inst[which], starts.as_slice(), frame, &mut counters);
        (verdict, counters)
    }

    /// Power-on state: empty tables, zero registers.
    pub fn reset_cold(&mut self)
        ensures
            final(self)@ == LueState::cleared(),
    {
        self.inst[0].reset();
        self.inst[1].reset();
        assert(self@ =~= LueState::cleared());
    }

    pub fn reset_warm(&mut self)
        ensures
            final(self)@ == LueState::cleared(),
    {
        self.reset_cold();
    }
}

/// The list of starts is the only one: two lists of the same table's starts
/// are the same list.
pub proof fn law_starts_are_determined(port: PortState, table: u8, a: Seq<u16>, b: Seq<u16>)
    requires
        lists_starts(port, table, a),
        lists_starts(port, table, b),
    ensures
        a == b,
{
    lemma_increasing_same_elements(a, b);
}

/// A table says one thing of a frame: every verdict on it states that.
pub proof fn law_verdicts_agree(
    port: PortState,
    table: u8,
    frame: Seq<u8>,
    verdict: Verdict,
    counters: EngineCounters,
)
    requires
        decided(port, table, frame, verdict, counters),
    ensures
        verdict.states(classified(port, table, frame)),
{
    let a = choose|indices: Seq<u16>| #[trigger]
        lists_starts(port, table, indices) && verdict.states(
            table_says(port, table, frame, indices),
        ) && counters == EngineCounters::zero().classified(table_says(port, table, frame, indices));
    let b = choose|indices: Seq<u16>| lists_starts(port, table, indices);
    law_starts_are_determined(port, table, a, b);
}

proof fn lemma_increasing_same_elements(a: Seq<u16>, b: Seq<u16>)
    requires
        forall|i: int, j: int| 0 <= i < j < a.len() ==> a[i] < a[j],
        forall|i: int, j: int| 0 <= i < j < b.len() ==> b[i] < b[j],
        forall|x: u16| a.contains(x) <==> b.contains(x),
    ensures
        a == b,
    decreases a.len(),
{
    if a.len() == 0 {
        if b.len() > 0 {
            assert(b.contains(b[0]));
        }
        assert(a =~= b);
    } else {
        assert(a.contains(a.last()));
        let k = choose|k: int| 0 <= k < b.len() && b[k] == a.last();
        assert(b.contains(b.last()));
        let m = choose|m: int| 0 <= m < a.len() && a[m] == b.last();
        assert(a.last() == b.last());
        let (p, q) = (a.drop_last(), b.drop_last());
        assert forall|x: u16| p.contains(x) <==> q.contains(x) by {
            if p.contains(x) {
                let i = choose|i: int| 0 <= i < p.len() && p[i] == x;
                assert(a[i] == x);
                assert(a.contains(x));
                let j = choose|j: int| 0 <= j < b.len() && b[j] == x;
                assert(j < b.len() - 1);
                assert(q[j] == x);
            }
            if q.contains(x) {
                let i = choose|i: int| 0 <= i < q.len() && q[i] == x;
                assert(b[i] == x);
                assert(b.contains(x));
                let j = choose|j: int| 0 <= j < a.len() && a[j] == x;
                assert(j < a.len() - 1);
                assert(p[j] == x);
            }
        }
        lemma_increasing_same_elements(p, q);
        assert(a =~= p.push(a.last()));
        assert(b =~= q.push(b.last()));
    }
}

/// Each instance answers at five words in a row, the command register first.
pub proof fn law_ports_have_their_places(addr: u32)
    ensures
        0x0100_240C <= addr <= 0x0100_241F ==> lue_place(addr) == Some(
            (0int, (addr - 0x0100_240C) / 4),
        ),
        0x0100_280C <= addr <= 0x0100_281F ==> lue_place(addr) == Some(
            (1int, (addr - 0x0100_280C) / 4),
        ),
        !(0x0100_240C <= addr <= 0x0100_241F) && !(0x0100_280C <= addr <= 0x0100_281F)
            ==> lue_place(addr) is None,
{
    crate::bits::lemma_round_down(addr);
}

/// The two instances share nothing: a write through one leaves the other as it
/// was. An address of neither reads nothing and takes nothing.
pub proof fn law_instances_are_independent(s: LueState, addr: u32, val: u32)
    requires
        s.inst.len() == 2,
    ensures
        0x0100_240C <= addr <= 0x0100_241F ==> s.after_write(addr, val).inst[1] == s.inst[1],
        0x0100_280C <= addr <= 0x0100_281F ==> s.after_write(addr, val).inst[0] == s.inst[0],
        !(0x0100_240C <= addr <= 0x0100_241F) && !(0x0100_280C <= addr <= 0x0100_281F)
            ==> s.after_write(addr, val) == s && s.peek(addr) is None && s.word_at(addr) == 0,
{
    law_ports_have_their_places(addr);
}

/// A data register reads back what was written to it, and the other three keep
/// theirs. The command register takes a command and reads as the last one.
pub proof fn law_data_registers_read_back(s: LueState, i: int, k: int, other: int, val: u32)
    requires
        s.inst.len() == 2,
        s.inst[i].wf(),
        i == 0 || i == 1,
        1 <= k <= 4,
        1 <= other <= 4,
    ensures
        ({
            let base = if i == 0 { 0x0100_240Cint } else { 0x0100_280C };
            let after = s.after_write((base + 4 * k) as u32, val);
            &&& after.peek((base + 4 * k) as u32) == Some(val)
            &&& other != k ==> after.peek((base + 4 * other) as u32) == s.peek(
                (base + 4 * other) as u32,
            )
            &&& after.peek(base as u32) == s.peek(base as u32)
            &&& after.inst[i].tables == s.inst[i].tables
            &&& s.peek(base as u32) == Some(s.inst[i].last_cmd)
            &&& s.peek((base + 4 * k) as u32) == Some(s.inst[i].regs[k - 1])
            &&& s.after_write(base as u32, val).inst[i] == s.inst[i].after_cmd(val)
        }),
{
    let base = if i == 0 { 0x0100_240Cint } else { 0x0100_280C };
    law_ports_have_their_places(base as u32);
    law_ports_have_their_places((base + 4 * k) as u32);
    law_ports_have_their_places((base + 4 * other) as u32);
}

/// A table without rules refuses every frame; one with rules says what its
/// rules say, in the order of their indices.
pub proof fn law_rules_speak_in_order(port: PortState, table: u8, frame: Seq<u8>, indices: Seq<u16>)
    requires
        lists_starts(port, table, indices),
    ensures
        indices.len() == 0 ==> classified(port, table, frame) == Outcome::Refused(
            crate::soc::lue::engine::Refusal::NoRules,
        ),
        indices.len() > 0 ==> classified(port, table, frame) == crate::soc::lue::engine::overall(
            crate::soc::lue::engine::outcomes(port, starts_in(table, indices), frame),
        ),
        forall|i: int|
            0 <= i < indices.len() ==> (#[trigger] starts_in(table, indices)[i]).index == indices[i]
                && starts_in(table, indices)[i].table == table,
        starts_in(table, indices).len() == indices.len(),
{
    let b = choose|b: Seq<u16>| lists_starts(port, table, b);
    law_starts_are_determined(port, table, indices, b);
}

} // verus!
