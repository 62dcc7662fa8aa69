//! The latched indirect port: command word, four data words, and the sparse
//! table file behind them.

use std::collections::HashMap;

use vstd::prelude::*;

use super::rule::{
    has_clause_layout, Action, Clause, Rule, RuleError, RuleRead, RuleView, LINK_AND_NEXT,
    MAX_RULE_ENTRIES,
};

verus! {

broadcast use vstd::std_specs::hash::group_hash_axioms;

/// Bit 31 of the command word: software sets it to start an operation and
/// spins on the same address until it reads back clear.
pub const CMD_GO: u32 = 0x8000_0000;

/// Bit 30: the direction.
pub const CMD_WRITE: u32 = 0x4000_0000;

/// Bit 29: the error flag software tests after the spin. It is never raised.
pub const CMD_ERROR: u32 = 0x2000_0000;

/// How many tables the four table-select bits address.
pub const TABLE_COUNT: usize = 16;

/// The index field is twelve bits wide.
pub const INDEX_MASK: u16 = 0x0FFF;

/// A decoded command word.
#[derive(Clone, Copy, Debug, PartialEq, Eq, Structural)]
pub struct Cmd {
    pub write: bool,
    /// Bits [23:20].
    pub op_field: u8,
    /// Bits [18:16]. Selects a view of a table entry.
    pub arg2: u8,
    /// Bits [15:12].
    pub table: u8,
    /// Bits [11:0].
    pub index: u16,
}

impl Cmd {
    /// The command a word carries.
    pub open spec fn of_word(word: u32) -> Cmd {
        Cmd {
            write: word & CMD_WRITE != 0,
            op_field: ((word >> 20) & 0xF) as u8,
            arg2: ((word >> 16) & 7) as u8,
            table: ((word >> 12) & 0xF) as u8,
            index: (word as u16) & INDEX_MASK,
        }
    }

    /// The word a command makes, without the go bit.
    pub open spec fn to_word(self) -> u32 {
        (if self.write {
            CMD_WRITE
        } else {
            0
        }) | ((self.op_field as u32 & 0xF) << 20) | ((self.arg2 as u32 & 7) << 16) | ((
        self.table as u32 & 0xF) << 12) | (self.index & INDEX_MASK) as u32
    }

    /// Whether every field fits the bits the word has for it.
    pub open spec fn fits(self) -> bool {
        self.op_field <= 0xF && self.arg2 <= 7 && self.table <= 0xF && self.index <= INDEX_MASK
    }

    pub fn decode(word: u32) -> (r: Self)
        ensures
            r == Cmd::of_word(word),
            r.fits(),
    {
        proof {
            lemma_cmd_fields(word);
        }
        Cmd {
            write: word & CMD_WRITE != 0,
            op_field: ((word >> 20) & 0xF) as u8,
            arg2: ((word >> 16) & 7) as u8,
            table: ((word >> 12) & 0xF) as u8,
            index: (word as u16) & INDEX_MASK,
        }
    }

    /// The command word this describes, without the go bit: the value the
    /// port holds once the operation is over.
    pub fn encode(&self) -> (r: u32)
        ensures
            r == self.to_word(),
    {
        (if self.write {
            CMD_WRITE
        } else {
            0
        }) | ((self.op_field as u32 & 0xF) << 20) | ((self.arg2 as u32 & 7) << 16) | ((
        self.table as u32 & 0xF) << 12) | (self.index & INDEX_MASK) as u32
    }
}

proof fn lemma_cmd_fields(word: u32)
    ensures
        Cmd::of_word(word).fits(),
        Cmd::of_word(word).op_field == (word / 0x10_0000) % 16,
        Cmd::of_word(word).arg2 == (word / 0x1_0000) % 8,
        Cmd::of_word(word).table == (word / 0x1000) % 16,
        Cmd::of_word(word).index == word % 0x1000,
{
    assert(((word >> 20) & 0xF) as u8 == (word / 0x10_0000) % 16 && ((word >> 16) & 7) as u8 == (
    word / 0x1_0000) % 8 && ((word >> 12) & 0xF) as u8 == (word / 0x1000) % 16 && (word as u16)
        & 0x0FFFu16 == word % 0x1000) by (bit_vector);
}

pub(crate) proof fn lemma_slot_bound(table: usize)
    by (bit_vector)
    ensures
        table & 15 < 16,
        table & 15 == table % 16,
        table & 1 == table % 2,
{
}

proof fn lemma_index_bits(index: u16)
    by (bit_vector)
    ensures
        index & 0x0FFFu16 <= 0x0FFF,
        index & 0x0FFFu16 == index % 0x1000,
{
}

/// A table entry: four words, indexed the way software indexes them.
///
/// `words[0]` is the clause header. The register file runs the other way: the
/// header sits at the highest of the four addresses.
#[derive(Clone, Copy, Debug, PartialEq, Eq)]
pub struct Quad {
    pub words: [u32; 4],
}

impl Default for Quad {
    fn default() -> (r: Self)
        ensures
            r.zero(),
    {
        Quad { words: [0u32; 4] }
    }
}

impl Quad {
    /// The four data registers in address order, lowest first.
    pub open spec fn regs(self) -> Seq<u32> {
        seq![self.words[3], self.words[2], self.words[1], self.words[0]]
    }

    pub open spec fn zero(self) -> bool {
        self.words[0] == 0 && self.words[1] == 0 && self.words[2] == 0 && self.words[3] == 0
    }

    pub fn new(words: [u32; 4]) -> (r: Self)
        ensures
            r.words == words,
    {
        Quad { words }
    }

    pub fn to_regs(&self) -> (r: [u32; 4])
        ensures
            r@ == self.regs(),
    {
        [self.words[3], self.words[2], self.words[1], self.words[0]]
    }

    /// Rebuild an entry from the four data registers in address order.
    pub fn from_regs(regs: [u32; 4]) -> (r: Self)
        ensures
            r == quad_of_regs(regs@),
            r.regs() == regs@,
    {
        let r = Quad { words: [regs[3], regs[2], regs[1], regs[0]] };
        assert(r.words =~= quad_of_regs(regs@).words);
        assert(r.regs() =~= regs@);
        r
    }

    pub fn is_zero(&self) -> (r: bool)
        ensures
            r == self.zero(),
    {
        self.words[0] == 0 && self.words[1] == 0 && self.words[2] == 0 && self.words[3] == 0
    }
}

/// What the port did and refused.
#[derive(Clone, Copy, Debug, PartialEq, Eq, Structural)]
pub struct PortCounters {
    /// Commands accepted with the go bit set.
    pub commands: u64,
    pub writes: u64,
    pub reads: u64,
    /// Commands whose operation field is not implemented. The go bit still
    /// clears, but no data moves.
    pub unknown_op: u64,
    /// Command-word writes without the go bit: nothing was asked for.
    pub no_go: u64,
    /// Reads of an entry nothing ever wrote.
    pub reads_of_empty: u64,
    /// Writes that stored an all-zero entry, which clears a slot.
    pub writes_of_zero: u64,
}

impl Default for PortCounters {
    fn default() -> (r: Self)
        ensures
            r == PortCounters::zero(),
    {
        PortCounters {
            commands: 0,
            writes: 0,
            reads: 0,
            unknown_op: 0,
            no_go: 0,
            reads_of_empty: 0,
            writes_of_zero: 0,
        }
    }
}

impl PortCounters {
    pub open spec fn zero() -> PortCounters {
        PortCounters {
            commands: 0,
            writes: 0,
            reads: 0,
            unknown_op: 0,
            no_go: 0,
            reads_of_empty: 0,
            writes_of_zero: 0,
        }
    }

    /// Whether every command with the go bit set was counted exactly once.
    pub open spec fn balanced(self) -> bool {
        self.commands == self.writes + self.reads + self.unknown_op
    }

    pub fn commands_accounted_for(&self) -> (r: bool)
        requires
            self.writes + self.reads + self.unknown_op <= u64::MAX,
        ensures
            r == self.balanced(),
    {
        self.commands == self.writes + self.reads + self.unknown_op
    }
}

/// The port, as values.
#[verifier::ext_equal]
pub struct PortState {
    pub tables: Seq<Map<u16, Quad>>,
    pub regs: Seq<u32>,
    pub last_cmd: u32,
    pub counters: PortCounters,
}

/// The table a table number names.
pub open spec fn table_slot(table: u8) -> int {
    (table as usize & 15usize) as int
}

impl PortState {
    pub open spec fn cleared() -> PortState {
        PortState {
            tables: Seq::new(16, |i: int| Map::<u16, Quad>::empty()),
            regs: seq![0u32, 0u32, 0u32, 0u32],
            last_cmd: 0,
            counters: PortCounters::zero(),
        }
    }

    /// What a table holds at an index.
    pub open spec fn entry(self, table: u8, index: u16) -> Option<Quad> {
        let t = self.tables[table_slot(table)];
        let at = index & INDEX_MASK;
        if t.dom().contains(at) {
            Some(t[at])
        } else {
            None
        }
    }

    /// The port after a command moved its data and counted it.
    pub open spec fn executed(self, cmd: Cmd) -> PortState {
        let c = self.counters;
        let t = self.tables[cmd.table as int];
        if cmd.op_field != 0 {
            PortState {
                counters: PortCounters { unknown_op: (c.unknown_op + 1) as u64, ..c },
                ..self
            }
        } else if cmd.write {
            let quad = quad_of_regs(self.regs);
            if quad.zero() {
                PortState {
                    tables: self.tables.update(cmd.table as int, t.remove(cmd.index)),
                    counters: PortCounters {
                        writes: (c.writes + 1) as u64,
                        writes_of_zero: (c.writes_of_zero + 1) as u64,
                        ..c
                    },
                    ..self
                }
            } else {
                PortState {
                    tables: self.tables.update(cmd.table as int, t.insert(cmd.index, quad)),
                    counters: PortCounters { writes: (c.writes + 1) as u64, ..c },
                    ..self
                }
            }
        } else if t.dom().contains(cmd.index) {
            PortState {
                regs: t[cmd.index].regs(),
                counters: PortCounters { reads: (c.reads + 1) as u64, ..c },
                ..self
            }
        } else {
            PortState {
                regs: seq![0u32, 0u32, 0u32, 0u32],
                counters: PortCounters {
                    reads: (c.reads + 1) as u64,
                    reads_of_empty: (c.reads_of_empty + 1) as u64,
                    ..c
                },
                ..self
            }
        }
    }

    /// The port after a command word is accepted.
    pub open spec fn after_cmd(self, word: u32) -> PortState {
        let cmd = Cmd::of_word(word);
        let latched = PortState { last_cmd: cmd.to_word(), ..self };
        let c = self.counters;
        if word & CMD_GO == 0 {
            PortState { counters: PortCounters { no_go: (c.no_go + 1) as u64, ..c }, ..latched }
        } else {
            PortState {
                counters: PortCounters { commands: (c.commands + 1) as u64, ..c },
                ..latched
            }.executed(cmd)
        }
    }

    /// Whether the counters a command word moves can still count.
    pub open spec fn can_take(self, word: u32) -> bool {
        let cmd = Cmd::of_word(word);
        let c = self.counters;
        if word & CMD_GO == 0 {
            c.no_go < u64::MAX
        } else {
            &&& c.commands < u64::MAX
            &&& if cmd.op_field != 0 {
                c.unknown_op < u64::MAX
            } else if cmd.write {
                &&& c.writes < u64::MAX
                &&& quad_of_regs(self.regs).zero() ==> c.writes_of_zero < u64::MAX
            } else {
                &&& c.reads < u64::MAX
                &&& !self.tables[cmd.table as int].dom().contains(cmd.index) ==> c.reads_of_empty
                    < u64::MAX
            }
        }
    }

    /// The port after a data register is written.
    pub open spec fn with_data(self, slot: int, val: u32) -> PortState {
        PortState { regs: self.regs.update(slot, val), ..self }
    }

    /// The rule that begins at an index of a table.
    pub open spec fn rule_at(self, table: u8, index: u16) -> Result<RuleView, RuleError> {
        read_rule(
            self.tables[table_slot(table)],
            (index & INDEX_MASK) as int,
            MAX_RULE_ENTRIES as nat,
        )
    }

    pub open spec fn wf(self) -> bool {
        self.tables.len() == 16 && self.regs.len() == 4
    }
}

/// Whether a table has an entry at an index.
pub open spec fn holds(t: Map<u16, Quad>, at: int) -> bool {
    0 <= at <= INDEX_MASK && t.dom().contains(at as u16)
}

/// Whether a rule begins at an index of a table.
pub open spec fn starts_rule(t: Map<u16, Quad>, at: u16) -> bool {
    &&& holds(t, at as int)
    &&& !holds(t, at - 1) || (t[(at - 1) as u16].words[3] != LINK_AND_NEXT
        && crate::soc::lue::rule::is_clause_header(t[at].words[0]))
}

/// The actions of the first `n` words of an entry; zero words are padding.
pub open spec fn spilled_actions(quad: Quad, n: int) -> Seq<Action>
    decreases n,
{
    if n <= 0 {
        Seq::empty()
    } else if quad.words[n - 1] == 0 {
        spilled_actions(quad, n - 1)
    } else {
        spilled_actions(quad, n - 1).push(Action::of_word(quad.words[n - 1]))
    }
}

/// The action words that spill into the entries from an index on; `None` where
/// they take more entries than are left.
pub open spec fn read_spill(t: Map<u16, Quad>, at: int, left: nat) -> Option<Seq<Action>>
    decreases left,
{
    if !holds(t, at) || crate::soc::lue::rule::is_clause_header(t[at as u16].words[0]) {
        Some(Seq::empty())
    } else if left == 0 {
        None
    } else {
        after(
            spilled_actions(t[at as u16], 4),
            read_spill(t, at + 1, (left - 1) as nat),
        )
    }
}

/// A list of actions with others in front.
pub open spec fn after(front: Seq<Action>, rest: Option<Seq<Action>>) -> Option<Seq<Action>> {
    match rest {
        Some(tail) => Some(front + tail),
        None => None,
    }
}

/// A clauseless rule of a first action and the spilled ones.
pub open spec fn with_first(first: Action, spill: Option<Seq<Action>>) -> Result<
    RuleView,
    RuleError,
> {
    match spill {
        Some(tail) => Ok(RuleView { clauses: Seq::empty(), actions: seq![first] + tail }),
        None => Err(RuleError::TooLong),
    }
}

/// What follows the terminal clause of a rule, whose last word is given.
pub open spec fn finish_rule(t: Map<u16, Quad>, at: int, left: nat, last: u32) -> Result<
    RuleView,
    RuleError,
> {
    with_first(Action::of_word(last), read_spill(t, at, left))
}

/// A rule with clauses in front.
pub open spec fn prepend(front: Seq<Clause>, rest: Result<RuleView, RuleError>) -> Result<
    RuleView,
    RuleError,
> {
    match rest {
        Ok(r) => Ok(RuleView { clauses: front + r.clauses, actions: r.actions }),
        Err(e) => Err(e),
    }
}

/// The rule that begins at an index of a table, in at most `left` entries.
pub open spec fn read_rule(t: Map<u16, Quad>, at: int, left: nat) -> Result<RuleView, RuleError>
    decreases left,
{
    if left == 0 {
        Err(RuleError::TooLong)
    } else if !holds(t, at) {
        Err(RuleError::RanPastTheEnd)
    } else {
        let quad = t[at as u16];
        match Clause::of_header(quad.words[0], crate::soc::lue::rule::operand_of(quad)) {
            None => Err(RuleError::NotAClause),
            Some(clause) => prepend(
                seq![clause],
                if quad.words[3] == LINK_AND_NEXT {
                    read_rule(t, at + 1, (left - 1) as nat)
                } else {
                    finish_rule(t, at + 1, (left - 1) as nat, quad.words[3])
                },
            ),
        }
    }
}

proof fn lemma_prepend_nothing(rest: Result<RuleView, RuleError>)
    ensures
        prepend(Seq::<Clause>::empty(), rest) == rest,
{
    if let Ok(r) = rest {
        assert(Seq::<Clause>::empty() + r.clauses =~= r.clauses);
    }
}

proof fn lemma_prepend_push(front: Seq<Clause>, clause: Clause, rest: Result<RuleView, RuleError>)
    ensures
        prepend(front, prepend(seq![clause], rest)) == prepend(front.push(clause), rest),
{
    if let Ok(r) = rest {
        assert(front + (seq![clause] + r.clauses) =~= front.push(clause) + r.clauses);
    }
}

proof fn lemma_append_nothing(rest: Option<Seq<Action>>)
    ensures
        after(Seq::<Action>::empty(), rest) == rest,
{
    if let Some(r) = rest {
        assert(Seq::<Action>::empty() + r =~= r);
    }
}

/// The entry four data registers make.
pub open spec fn quad_of_regs(regs: Seq<u32>) -> Quad {
    Quad { words: [regs[3], regs[2], regs[1], regs[0]] }
}

/// One instance of the indirect port.
#[derive(Debug)]
pub struct LuePort {
    /// Sparse: an entry that was never written is absent.
    pub tables: [HashMap<u16, Quad>; 16],
    /// The four data registers, in address order.
    pub regs: [u32; 4],
    /// The last command word, go bit already cleared.
    pub last_cmd: u32,
    pub counters: PortCounters,
}

impl View for LuePort {
    type V = PortState;

    open spec fn view(&self) -> PortState {
        PortState {
            tables: Seq::new(16, |i: int| self.tables[i]@),
            regs: self.regs@,
            last_cmd: self.last_cmd,
            counters: self.counters,
        }
    }
}

impl Clone for LuePort {
    fn clone(&self) -> (r: Self)
        ensures
            r@ == self@,
    {
        let r = LuePort {
            tables: self.tables.clone(),
            regs: self.regs,
            last_cmd: self.last_cmd,
            counters: self.counters,
        };
        assert(r@ =~= self@);
        r
    }
}

impl Default for LuePort {
    fn default() -> (r: Self)
        ensures
            r@ == PortState::cleared(),
    {
        LuePort::new()
    }
}

impl LuePort {
    pub fn new() -> (r: Self)
        ensures
            r@ == PortState::cleared(),
    {
        let r = LuePort {
            tables: [
                HashMap::new(),
                HashMap::new(),
                HashMap::new(),
                HashMap::new(),
                HashMap::new(),
                HashMap::new(),
                HashMap::new(),
                HashMap::new(),
                HashMap::new(),
                HashMap::new(),
                HashMap::new(),
                HashMap::new(),
                HashMap::new(),
                HashMap::new(),
                HashMap::new(),
                HashMap::new(),
            ],
            regs: [0u32; 4],
            last_cmd: 0,
            counters: PortCounters::default(),
        };
        assert(r@ =~= PortState::cleared());
        r
    }

    pub fn reset(&mut self)
        ensures
            final(self)@ == PortState::cleared(),
    {
        *self = LuePort::new();
    }

    pub fn read_cmd(&self) -> (r: u32)
        ensures
            r == self@.last_cmd,
    {
        self.last_cmd
    }

    pub fn read_data(&self, slot: usize) -> (r: u32)
        requires
            slot < 4,
        ensures
            r == self@.regs[slot as int],
    {
        self.regs[slot]
    }

    pub fn write_data(&mut self, slot: usize, val: u32)
        requires
            slot < 4,
        ensures
            final(self)@ == old(self)@.with_data(slot as int, val),
    {
        self.regs[slot] = val;
        assert(self@ =~= old(self)@.with_data(slot as int, val));
    }

    fn slot_of(table: u8) -> (r: usize)
        ensures
            r == table_slot(table),
            r < 16,
    {
        proof {
            lemma_slot_bound(table as usize);
        }
        table as usize & 15
    }

    /// Look an entry up without touching the port.
    pub fn entry(&self, table: u8, index: u16) -> (r: Option<Quad>)
        ensures
            r == self@.entry(table, index),
    {
        let t: usize = Self::slot_of(table);
        match self.tables[t].get(&(index & INDEX_MASK)) {
            Some(q) => Some(*q),
            None => None,
        }
    }

    /// Number of entries held in a table.
    pub fn entry_count(&self, table: u8) -> (r: usize)
        ensures
            r == self@.tables[table_slot(table)].len(),
    {
        let t: usize = Self::slot_of(table);
        self.tables[t].len()
    }

    /// Where each rule in a table begins, in order.
    ///
    /// A rule is a run of consecutive indices, so one begins wherever the
    /// index below it is absent, or is terminal while the entry itself is a
    /// clause; an entry of spilled action words begins none.
    pub fn rule_starts(&self, table: u8) -> (r: Vec<u16>)
        ensures
            forall|i: int, j: int| 0 <= i < j < r@.len() ==> r@[i] < r@[j],
            forall|i: int| 0 <= i < r@.len() ==> r@[i] <= INDEX_MASK && starts_rule(
                self@.tables[table_slot(table)],
                #[trigger] r@[i],
            ),
            forall|at: u16|
                at <= INDEX_MASK && #[trigger] starts_rule(self@.tables[table_slot(table)], at)
                    ==> r@.contains(at),
    {
        let t: usize = Self::slot_of(table);
        let ghost m = self@.tables[table_slot(table)];
        let mut starts: Vec<u16> = Vec::new();
        for i in 0..0x1000u16
            invariant
                t == table_slot(table),
                t < 16,
                m == self.tables[t as int]@,
                forall|k: int| 0 <= k < starts@.len() ==> #[trigger] starts@[k] < i && starts_rule(
                    m,
                    starts@[k],
                ),
                forall|j: int, k: int| 0 <= j < k < starts@.len() ==> starts@[j] < starts@[k],
                forall|at: u16|
                    at < i && #[trigger] starts_rule(m, at) ==> exists|k: int|
                        0 <= k < starts@.len() && starts@[k] == at,
        {
            let begins: bool = match self.tables[t].get(&i) {
                None => false,
                Some(q) => {
                    if i == 0 {
                        true
                    } else {
                        match self.tables[t].get(&(i - 1)) {
                            None => true,
                            Some(prev) => prev.words[3] != LINK_AND_NEXT && has_clause_layout(
                                q.words[0],
                            ),
                        }
                    }
                },
            };
            assert(begins == starts_rule(m, i));
            let ghost before = starts@;
            if begins {
                starts.push(i);
                assert(starts@[before.len() as int] == i);
            }
            assert forall|at: u16| at < i + 1 && #[trigger] starts_rule(m, at) implies exists|
                k: int,
            | 0 <= k < starts@.len() && starts@[k] == at by {
                if at < i {
                    let k = choose|k: int| 0 <= k < before.len() && before[k] == at;
                    assert(starts@[k] == at);
                }
            }
        }
        starts
    }

    /// Read the rule that begins at an index.
    pub fn rule(&self, table: u8, index: u16) -> (r: RuleRead)
        ensures
            r.outcome() == self@.rule_at(table, index),
    {
        let t: usize = Self::slot_of(table);
        let ghost m = self@.tables[table_slot(table)];
        proof {
            lemma_index_bits(index);
        }
        let start: u16 = index & INDEX_MASK;
        let mut clauses: Vec<Clause> = Vec::new();
        let mut at: u16 = start;
        let mut left: usize = MAX_RULE_ENTRIES;
        let ghost whole = read_rule(m, start as int, MAX_RULE_ENTRIES as nat);
        let mut terminal: Option<u32> = None;
        assert(prepend(clauses@, whole) == whole) by {
            lemma_prepend_nothing(whole);
        }
        while terminal.is_none()
            invariant
                t < 16,
                m == self.tables[t as int]@,
                at <= 0x1000,
                left <= 32,
                at + left <= 0x1000 + 32,
                match terminal {
                    None => whole == prepend(clauses@, read_rule(m, at as int, left as nat)),
                    Some(w) => whole == prepend(clauses@, finish_rule(m, at as int, left as nat, w)),
                },
                whole == read_rule(m, start as int, MAX_RULE_ENTRIES as nat),
                whole == self@.rule_at(table, index),
            decreases left + (if terminal is None {
                1int
            } else {
                0int
            }),
        {
            if left == 0 {
                return RuleRead { result: Err(RuleError::TooLong) };
            }
            if at > INDEX_MASK {
                return RuleRead { result: Err(RuleError::RanPastTheEnd) };
            }
            let quad: Quad = match self.tables[t].get(&at) {
                None => {
                    return RuleRead { result: Err(RuleError::RanPastTheEnd) };
                },
                Some(q) => *q,
            };
            let operand: u64 = ((quad.words[1] as u64) << 32) | quad.words[2] as u64;
            let clause: Clause = match Clause::from_header(quad.words[0], operand) {
                None => {
                    return RuleRead { result: Err(RuleError::NotAClause) };
                },
                Some(c) => c,
            };
            let ghost before = clauses@;
            clauses.push(clause);
            if quad.words[3] != LINK_AND_NEXT {
                terminal = Some(quad.words[3]);
                proof {
                    lemma_prepend_push(
                        before,
                        clause,
                        finish_rule(m, at + 1, (left - 1) as nat, quad.words[3]),
                    );
                }
            } else {
                proof {
                    lemma_prepend_push(
                        before,
                        clause,
                        read_rule(m, at + 1, (left - 1) as nat),
                    );
                }
            }
            at = at + 1;
            left = left - 1;
        }
        let first: u32 = match terminal {
            Some(w) => w,
            None => 0,
        };
        let mut actions: Vec<Action> = Vec::new();
        actions.push(Action::decode(first));
        let ghost spill = read_spill(m, at as int, left as nat);
        assert(whole == prepend(clauses@, with_first(Action::of_word(first), spill)));
        proof {
            lemma_append_nothing(spill);
        }
        let ghost mut seen: Seq<Action> = Seq::empty();
        assert(actions@ =~= seq![Action::of_word(first)] + seen);
        loop
            invariant
                t < 16,
                m == self.tables[t as int]@,
                at <= 0x1000,
                left <= 32,
                actions@ == seq![Action::of_word(first)] + seen,
                spill == after(seen, read_spill(m, at as int, left as nat)),
                whole == prepend(clauses@, with_first(Action::of_word(first), spill)),
                whole == self@.rule_at(table, index),
            decreases 0x1000 - at,
        {
            if at > INDEX_MASK {
                assert(spill == Some(seen + Seq::<Action>::empty()));
                assert(seen + Seq::<Action>::empty() =~= seen);
                let rule = Rule { clauses, actions };
                assert(rule@ =~= (whole->Ok_0));
                return RuleRead { result: Ok(rule) };
            }
            let quad: Quad = match self.tables[t].get(&at) {
                None => {
                    assert(seen + Seq::<Action>::empty() =~= seen);
                    let rule = Rule { clauses, actions };
                    assert(rule@ =~= (whole->Ok_0));
                    return RuleRead { result: Ok(rule) };
                },
                Some(q) => *q,
            };
            if has_clause_layout(quad.words[0]) {
                assert(seen + Seq::<Action>::empty() =~= seen);
                let rule = Rule { clauses, actions };
                assert(rule@ =~= (whole->Ok_0));
                return RuleRead { result: Ok(rule) };
            }
            if left == 0 {
                return RuleRead { result: Err(RuleError::TooLong) };
            }
            let ghost before = actions@;
            for k in 0..4usize
                invariant
                    before + spilled_actions(quad, k as int) == actions@,
            {
                let w: u32 = quad.words[k];
                if w != 0 {
                    actions.push(Action::decode(w));
                }
                assert(actions@ =~= before + spilled_actions(quad, k + 1));
            }
            proof {
                let more = spilled_actions(quad, 4);
                let rest = read_spill(m, at + 1, (left - 1) as nat);
                match rest {
                    Some(tail) => {
                        assert(seen + (more + tail) =~= (seen + more) + tail);
                    },
                    None => {},
                }
                assert(seq![Action::of_word(first)] + (seen + more) =~= seq![
                    Action::of_word(first),
                ] + seen + more);
                seen = seen + more;
            }
            at = at + 1;
            left = left - 1;
        }
    }

    /// Whether the counters a command word moves can still count.
    pub fn takes_cmd(&self, word: u32) -> (r: bool)
        ensures
            r == self@.can_take(word),
    {
        let cmd = Cmd::decode(word);
        let c: PortCounters = self.counters;
        if word & CMD_GO == 0 {
            return c.no_go < u64::MAX;
        }
        if c.commands == u64::MAX {
            return false;
        }
        if cmd.op_field != 0 {
            c.unknown_op < u64::MAX
        } else if cmd.write {
            c.writes < u64::MAX && (c.writes_of_zero < u64::MAX || !Quad::from_regs(
                self.regs,
            ).is_zero())
        } else {
            c.reads < u64::MAX && (c.reads_of_empty < u64::MAX
                || self.tables[cmd.table as usize].contains_key(&cmd.index))
        }
    }

    /// Accept a command word.
    ///
    /// The go bit always clears, whatever the command asks for: software spins
    /// on this word with no timeout. A command that is not understood moves no
    /// data.
    pub fn write_cmd(&mut self, word: u32)
        requires
            old(self)@.can_take(word),
        ensures
            final(self)@ == old(self)@.after_cmd(word),
    {
        let cmd = Cmd::decode(word);
        self.last_cmd = cmd.encode();
        if word & CMD_GO == 0 {
            self.counters.no_go = self.counters.no_go + 1;
            return;
        }
        self.counters.commands = self.counters.commands + 1;
        if cmd.op_field != 0 {
            self.counters.unknown_op = self.counters.unknown_op + 1;
            return;
        }
        let t: usize = cmd.table as usize;
        if cmd.write {
            self.counters.writes = self.counters.writes + 1;
            let quad = Quad::from_regs(self.regs);
            if quad.is_zero() {
                self.counters.writes_of_zero = self.counters.writes_of_zero + 1;
                self.tables[t].remove(&cmd.index);
            } else {
                self.tables[t].insert(cmd.index, quad);
            }
        } else {
            self.counters.reads = self.counters.reads + 1;
            match self.tables[t].get(&cmd.index) {
                Some(q) => {
                    self.regs = q.to_regs();
                },
                None => {
                    self.counters.reads_of_empty = self.counters.reads_of_empty + 1;
                    self.regs = [0u32; 4];
                },
            }
        }
    }
}

/// A command whose fields fit survives the way through its word, go bit or not.
pub proof fn law_command_word_round_trips(cmd: Cmd)
    requires
        cmd.fits(),
    ensures
        Cmd::of_word(cmd.to_word()) == cmd,
        Cmd::of_word(cmd.to_word() | CMD_GO) == cmd,
{
    let (op, arg2, table, index) = (
        cmd.op_field as u32,
        cmd.arg2 as u32,
        cmd.table as u32,
        cmd.index,
    );
    let dir = if cmd.write {
        CMD_WRITE
    } else {
        0
    };
    let w = cmd.to_word();
    assert(op <= 0xF && arg2 <= 7 && table <= 0xF && index <= 0xFFF && (dir == 0 || dir
        == 0x4000_0000) && w == dir | ((op & 0xF) << 20) | ((arg2 & 7) << 16) | ((table & 0xF)
        << 12) | (index & 0x0FFFu16) as u32 ==> w & 0x4000_0000 == dir && (w >> 20) & 0xF == op && (
    w >> 16) & 7 == arg2 && (w >> 12) & 0xF == table && (w as u16) & 0x0FFFu16 == index && (w
        | 0x8000_0000u32) & 0x4000_0000 == dir && ((w | 0x8000_0000u32) >> 20) & 0xF == op && ((w
        | 0x8000_0000u32) >> 16) & 7 == arg2 && ((w | 0x8000_0000u32) >> 12) & 0xF == table && ((w
        | 0x8000_0000u32) as u16) & 0x0FFFu16 == index) by (bit_vector);
}

/// Whatever is asked for, software reads back the fields of its command. The go
/// bit is gone, and the error bit was never raised.
pub proof fn law_go_and_error_bits_read_clear(s: PortState, word: u32)
    ensures
        s.after_cmd(word).last_cmd == word & 0x40F7_FFFF,
        s.after_cmd(word).last_cmd & CMD_GO == 0,
        s.after_cmd(word).last_cmd & CMD_ERROR == 0,
{
    lemma_cmd_fields(word);
    let cmd = Cmd::of_word(word);
    let (op, arg2, table, index) = (
        cmd.op_field as u32,
        cmd.arg2 as u32,
        cmd.table as u32,
        cmd.index,
    );
    let dir = if cmd.write {
        CMD_WRITE
    } else {
        0
    };
    let w = cmd.to_word();
    assert((dir == 0 <==> word & 0x4000_0000 == 0) && (dir == 0 || dir == 0x4000_0000) && op == ((
    (word >> 20) & 0xF) as u8) as u32 && arg2 == (((word >> 16) & 7) as u8) as u32 && table == (((
    word >> 12) & 0xF) as u8) as u32 && index == (word as u16) & 0x0FFFu16 && w == dir | ((op & 0xF) << 20) | ((arg2 & 7) << 16) | ((table & 0xF)
        << 12) | (index & 0x0FFFu16) as u32 ==> w == word & 0x40F7_FFFF && w & 0x8000_0000 == 0
        && w & 0x2000_0000 == 0) by (bit_vector);
}

/// An entry written is the entry read back, whatever the data registers held
/// in between.
pub proof fn law_write_then_read_returns_the_entry(
    s: PortState,
    write: u32,
    read: u32,
    scratch: Seq<u32>,
)
    requires
        s.wf(),
        write & CMD_GO != 0,
        read & CMD_GO != 0,
        Cmd::of_word(write).write,
        !Cmd::of_word(read).write,
        Cmd::of_word(write).op_field == 0,
        Cmd::of_word(read).op_field == 0,
        Cmd::of_word(write).table == Cmd::of_word(read).table,
        Cmd::of_word(write).index == Cmd::of_word(read).index,
    ensures
        ({
            let between = PortState { regs: scratch, ..s.after_cmd(write) };
            between.after_cmd(read).regs == s.regs
        }),
{
    lemma_cmd_fields(write);
    let quad = quad_of_regs(s.regs);
    assert(quad.regs() =~= s.regs);
    if quad.zero() {
        assert(s.regs =~= seq![0u32, 0u32, 0u32, 0u32]);
    }
}

/// A command changes no entry but the one it names, and a read changes none.
pub proof fn law_command_touches_one_entry(s: PortState, word: u32, table: u8, index: u16)
    requires
        s.wf(),
        !Cmd::of_word(word).write || table_slot(table) != Cmd::of_word(word).table || index
            & INDEX_MASK != Cmd::of_word(word).index,
    ensures
        s.after_cmd(word).entry(table, index) == s.entry(table, index),
{
    lemma_cmd_fields(word);
    lemma_slot_bound(table as usize);
}

/// An entry written stands in its table, or is gone where it is all zero. No
/// other entry changes, and a read gives the written words back, whatever the
/// data registers held in between.
pub proof fn law_written_entry_stands(
    s: PortState,
    table: u8,
    index: u16,
    scratch: Seq<u32>,
    other_table: u8,
    other_index: u16,
)
    requires
        s.wf(),
        table < 16,
        index <= INDEX_MASK,
    ensures
        ({
            let at = ((table as u32) << 12) | index as u32;
            let q = quad_of_regs(s.regs);
            let after = s.after_cmd(CMD_GO | CMD_WRITE | at);
            let read = PortState { regs: scratch, ..after }.after_cmd(CMD_GO | at);
            &&& after.entry(table, index) == (if q.zero() {
                None
            } else {
                Some(q)
            })
            &&& table_slot(other_table) != table_slot(table) || other_index & INDEX_MASK != index
                ==> after.entry(other_table, other_index) == s.entry(other_table, other_index)
            &&& read.regs == q.regs()
        }),
{
    let (t, i) = (table as u32, index);
    let write = CMD_GO | CMD_WRITE | ((table as u32) << 12) | index as u32;
    let read = CMD_GO | ((table as u32) << 12) | index as u32;
    assert(t < 16 && i <= 0x0FFFu16 && write == 0x8000_0000u32 | 0x4000_0000u32 | (t << 12)
        | i as u32 && read == 0x8000_0000u32 | (t << 12) | i as u32 ==> write & 0x8000_0000 != 0
        && write & 0x4000_0000 != 0 && (write >> 20) & 0xF == 0 && (write >> 12) & 0xF == t && (
    write as u16) & 0x0FFFu16 == i && read & 0x8000_0000 != 0 && read & 0x4000_0000 == 0 && (read
        >> 20) & 0xF == 0 && (read >> 12) & 0xF == t && (read as u16) & 0x0FFFu16 == i && i
        & 0x0FFFu16 == i && (0x8000_0000u32 | 0x4000_0000u32 | ((t << 12) | i as u32)) == write && (
    0x8000_0000u32 | ((t << 12) | i as u32)) == read) by (bit_vector);
    lemma_slot_bound(table as usize);
    law_write_then_read_returns_the_entry(s, write, read, scratch);
    if table_slot(other_table) != table_slot(table) || other_index & INDEX_MASK != index {
        law_command_touches_one_entry(s, write, other_table, other_index);
    }
    assert(quad_of_regs(s.regs).regs() =~= s.regs);
}

/// A word without the go bit, or with an operation nobody knows, moves no data
/// and is counted as such.
pub proof fn law_idle_command_moves_no_data(s: PortState, word: u32)
    requires
        s.can_take(word),
        word & CMD_GO == 0 || Cmd::of_word(word).op_field != 0,
    ensures
        ({
            let after = s.after_cmd(word);
            let c = s.counters;
            &&& after.tables == s.tables
            &&& after.regs == s.regs
            &&& word & CMD_GO == 0 ==> after.counters == (PortCounters {
                no_go: (c.no_go + 1) as u64,
                ..c
            })
            &&& word & CMD_GO != 0 ==> after.counters == (PortCounters {
                commands: (c.commands + 1) as u64,
                unknown_op: (c.unknown_op + 1) as u64,
                ..c
            })
        }),
{
}

/// Every command with the go bit set is accounted for exactly once.
pub proof fn law_commands_stay_accounted_for(s: PortState, word: u32)
    requires
        word & CMD_GO != 0 ==> s.counters.commands < u64::MAX,
        s.counters.balanced(),
    ensures
        s.after_cmd(word).counters.balanced(),
{
}

/// A rule software can build: its clauses fit their headers, its action words
/// read back, none of them is padding, and neither the first nor the head of a
/// spilled entry is mistaken for something else.
pub open spec fn buildable(rule: RuleView) -> bool {
    &&& rule.clauses.len() > 0
    &&& rule.actions.len() > 0
    &&& rule.quads().len() <= 32
    &&& forall|i: int| 0 <= i < rule.clauses.len() ==> (#[trigger] rule.clauses[i]).fits()
    &&& readable(rule.actions)
    &&& rule.actions[0].to_word() != 0x1000_0000
    &&& spillable(rule.actions.skip(1))
}

/// Action words that read back as the actions they came from.
pub open spec fn readable(actions: Seq<Action>) -> bool {
    forall|i: int|
        0 <= i < actions.len() ==> Action::of_word((#[trigger] actions[i]).to_word()) == actions[i]
}

/// Action words that can stand in spilled entries.
pub open spec fn spillable(actions: Seq<Action>) -> bool {
    forall|i: int|
        0 <= i < actions.len() ==> (#[trigger] actions[i]).to_word() != 0 && !(
        crate::soc::lue::rule::is_clause_header(actions[i].to_word()))
}

/// Whether a table holds an entry at an index.
pub open spec fn holds_entry(t: Map<u16, Quad>, at: int, quad: Quad) -> bool {
    holds(t, at) && t[at as u16] == quad
}

/// Whether a table holds a run of entries from an index on.
pub open spec fn holds_run(t: Map<u16, Quad>, at: int, quads: Seq<Quad>) -> bool {
    forall|i: int| 0 <= i < quads.len() ==> holds_entry(t, at + i, #[trigger] quads[i])
}

/// Whether a run of spilled entries ends before an index.
pub open spec fn ends_at(t: Map<u16, Quad>, at: int) -> bool {
    !holds(t, at) || crate::soc::lue::rule::is_clause_header(t[at as u16].words[0])
}

proof fn lemma_run_continues(t: Map<u16, Quad>, at: int, quads: Seq<Quad>, tail: Seq<Quad>)
    requires
        holds_run(t, at, quads),
        quads.len() == tail.len() + 1,
        forall|i: int| 0 <= i < tail.len() ==> quads[i + 1] == #[trigger] tail[i],
    ensures
        holds_run(t, at + 1, tail),
{
    assert forall|i: int| 0 <= i < tail.len() implies holds_entry(
        t,
        at + 1 + i,
        #[trigger] tail[i],
    ) by {
        assert(holds_entry(t, at + (i + 1), quads[i + 1]));
    }
}

proof fn lemma_spill_reads_back(t: Map<u16, Quad>, at: int, left: nat, actions: Seq<Action>)
    requires
        0 <= at,
        readable(actions),
        spillable(actions),
        holds_run(t, at, crate::soc::lue::rule::spill_quads(actions)),
        ends_at(t, at + crate::soc::lue::rule::spill_quads(actions).len()),
        crate::soc::lue::rule::spill_quads(actions).len() <= left,
    ensures
        read_spill(t, at, left) == Some(actions),
    decreases actions.len(),
{
    if actions.len() == 0 {
        assert(actions =~= Seq::<Action>::empty());
    } else {
        let rest = crate::soc::lue::rule::past_four(actions);
        let quads = crate::soc::lue::rule::spill_quads(actions);
        let tail = crate::soc::lue::rule::spill_quads(rest);
        let quad = crate::soc::lue::rule::spill_quad(actions);
        assert(quads[0] == quad);
        lemma_run_continues(t, at, quads, tail);
        assert(readable(rest));
        assert(spillable(rest));
        lemma_spill_reads_back(t, at + 1, (left - 1) as nat, rest);
        reveal_with_fuel(spilled_actions, 5);
        let front = spilled_actions(quad, 4);
        assert(front =~= actions.take(
            if actions.len() < 4 {
                actions.len() as int
            } else {
                4
            },
        )) by {
            assert(actions[0].to_word() != 0);
            if actions.len() > 1 {
                assert(actions[1].to_word() != 0);
            }
            if actions.len() > 2 {
                assert(actions[2].to_word() != 0);
            }
            if actions.len() > 3 {
                assert(actions[3].to_word() != 0);
            }
        }
        assert(front + rest =~= actions);
    }
}

proof fn lemma_clauses_read_back(
    t: Map<u16, Quad>,
    at: int,
    left: nat,
    clauses: Seq<Clause>,
    actions: Seq<Action>,
)
    requires
        0 <= at,
        clauses.len() > 0,
        actions.len() > 0,
        forall|i: int| 0 <= i < clauses.len() ==> (#[trigger] clauses[i]).fits(),
        readable(actions),
        actions[0].to_word() != LINK_AND_NEXT,
        spillable(actions.skip(1)),
        holds_run(t, at, (RuleView { clauses, actions }).quads()),
        ends_at(t, at + (RuleView { clauses, actions }).quads().len()),
        (RuleView { clauses, actions }).quads().len() <= left,
    ensures
        read_rule(t, at, left) == Ok::<RuleView, RuleError>(RuleView { clauses, actions }),
    decreases clauses.len(),
{
    let rule = RuleView { clauses, actions };
    let quads = rule.quads();
    let head = clauses[0];
    let quad = t[at as u16];
    assert(quads[0] == quad);
    crate::soc::lue::rule::law_clause_round_trips(head);
    crate::soc::lue::rule::lemma_operand_halves(head.operand, 0, 0);
    assert(crate::soc::lue::rule::operand_of(quad) == head.operand);
    if clauses.len() == 1 {
        let spill = crate::soc::lue::rule::spill_quads(actions.skip(1));
        lemma_run_continues(t, at, quads, spill);
        assert(readable(actions.skip(1)));
        lemma_spill_reads_back(t, at + 1, (left - 1) as nat, actions.skip(1));
        assert(seq![actions[0]] + actions.skip(1) =~= actions);
        assert(seq![head] + Seq::<Clause>::empty() =~= clauses);
    } else {
        let rest = RuleView { clauses: clauses.skip(1), actions };
        let tail = rest.quads();
        assert(tail =~= quads.skip(1));
        lemma_run_continues(t, at, quads, tail);
        lemma_clauses_read_back(t, at + 1, (left - 1) as nat, clauses.skip(1), actions);
        assert(seq![head] + clauses.skip(1) =~= clauses);
    }
}

/// A rule written to a table entry by entry is the rule read back, every
/// clause and the whole list of actions, as long as no spilled entry of
/// something else follows it.
pub proof fn law_rule_reads_back_whole(s: PortState, table: u8, index: u16, rule: RuleView)
    requires
        buildable(rule),
        holds_run(s.tables[table_slot(table)], (index & INDEX_MASK) as int, rule.quads()),
        ends_at(s.tables[table_slot(table)], (index & INDEX_MASK) + rule.quads().len()),
    ensures
        s.rule_at(table, index) == Ok::<RuleView, RuleError>(rule),
{
    lemma_clauses_read_back(
        s.tables[table_slot(table)],
        (index & INDEX_MASK) as int,
        MAX_RULE_ENTRIES as nat,
        rule.clauses,
        rule.actions,
    );
}

/// The fields of a command word: the direction in bit 30, the operation from bit
/// 20, the view from bit 16, the table from bit 12 and the index below it.
pub proof fn law_command_fields_have_their_places(word: u32)
    ensures
        Cmd::of_word(word).write <==> (word / 0x4000_0000) % 2 == 1,
        Cmd::of_word(word).op_field == (word / 0x10_0000) % 16,
        Cmd::of_word(word).arg2 == (word / 0x1_0000) % 8,
        Cmd::of_word(word).table == (word / 0x1000) % 16,
        Cmd::of_word(word).index == word % 0x1000,
{
    lemma_cmd_fields(word);
    crate::bits::lemma_fields(word);
}

/// Tables count in sixteen and indices in 4096.
pub proof fn law_entries_are_found_by_table_and_index(s: PortState, table: u8, index: u16)
    ensures
        s.entry(table, index) == (if s.tables[table as int % 16].dom().contains(
            (index % 0x1000) as u16,
        ) {
            Some(s.tables[table as int % 16][(index % 0x1000) as u16])
        } else {
            None
        }),
{
    lemma_slot_bound(table as usize);
    lemma_index_bits(index);
}

/// A write command moves the four data registers into its entry, the last
/// register first; where they are all zero the entry goes. It leaves the
/// registers and counts one command and one write, and one of zero where it was
/// that.
pub proof fn law_write_command_fills_its_entry(s: PortState, word: u32)
    requires
        s.wf(),
        s.can_take(word),
        word >= 0x8000_0000,
        (word / 0x4000_0000) % 2 == 1,
        (word / 0x10_0000) % 16 == 0,
    ensures
        ({
            let after = s.after_cmd(word);
            let t = (word / 0x1000) % 16;
            let i = (word % 0x1000) as u16;
            let blank = s.regs[0] == 0 && s.regs[1] == 0 && s.regs[2] == 0 && s.regs[3] == 0;
            let table = after.tables[t as int];
            &&& after.regs == s.regs
            &&& after.wf()
            &&& table.dom().contains(i) <==> !blank
            &&& !blank ==> table[i].words[0] == s.regs[3] && table[i].words[1] == s.regs[2]
                && table[i].words[2] == s.regs[1] && table[i].words[3] == s.regs[0]
            &&& after.counters.commands == s.counters.commands + 1
            &&& after.counters.writes == s.counters.writes + 1
            &&& after.counters.reads == s.counters.reads
            &&& after.counters.unknown_op == s.counters.unknown_op
            &&& after.counters.no_go == s.counters.no_go
            &&& after.counters.reads_of_empty == s.counters.reads_of_empty
            &&& after.counters.writes_of_zero == s.counters.writes_of_zero + (if blank {
                1int
            } else {
                0
            })
        }),
{
    law_command_fields_have_their_places(word);
    crate::bits::lemma_fields(word);
}

/// A read command moves its entry into the four data registers, the last word
/// first, or zeros where there is none. It leaves the tables and counts one
/// command and one read, and one of nothing where it was that.
pub proof fn law_read_command_gives_its_entry(s: PortState, word: u32)
    requires
        s.wf(),
        s.can_take(word),
        word >= 0x8000_0000,
        (word / 0x4000_0000) % 2 == 0,
        (word / 0x10_0000) % 16 == 0,
    ensures
        ({
            let after = s.after_cmd(word);
            let t = (word / 0x1000) % 16;
            let i = (word % 0x1000) as u16;
            let table = s.tables[t as int];
            let there = table.dom().contains(i);
            &&& after.tables == s.tables
            &&& after.wf()
            &&& there ==> after.regs[0] == table[i].words[3] && after.regs[1] == table[i].words[2]
                && after.regs[2] == table[i].words[1] && after.regs[3] == table[i].words[0]
            &&& !there ==> after.regs[0] == 0 && after.regs[1] == 0 && after.regs[2] == 0
                && after.regs[3] == 0
            &&& after.counters.commands == s.counters.commands + 1
            &&& after.counters.reads == s.counters.reads + 1
            &&& after.counters.writes == s.counters.writes
            &&& after.counters.unknown_op == s.counters.unknown_op
            &&& after.counters.no_go == s.counters.no_go
            &&& after.counters.writes_of_zero == s.counters.writes_of_zero
            &&& after.counters.reads_of_empty == s.counters.reads_of_empty + (if there {
                0int
            } else {
                1
            })
        }),
{
    law_command_fields_have_their_places(word);
    crate::bits::lemma_fields(word);
}

/// Without the go bit, which is the highest, or with an operation other than
/// zero, nothing moves.
pub proof fn law_only_go_moves_data(s: PortState, word: u32)
    requires
        word < 0x8000_0000 || (word / 0x10_0000) % 16 != 0,
    ensures
        s.after_cmd(word).tables == s.tables,
        s.after_cmd(word).regs == s.regs,
{
    law_command_fields_have_their_places(word);
    crate::bits::lemma_fields(word);
}

/// A rule begins at an entry that follows a gap, or that is a clause and does
/// not continue the one before; never at one that the entry before links to.
pub proof fn law_rules_begin_where_nothing_links(t: Map<u16, Quad>, at: u16)
    requires
        at <= 0x0FFF,
        t.dom().contains(at),
    ensures
        at == 0 ==> starts_rule(t, at),
        at > 0 && !t.dom().contains((at - 1) as u16) ==> starts_rule(t, at),
        at > 0 && t.dom().contains((at - 1) as u16) && t[(at - 1) as u16].words[3] == 0x1000_0000
            ==> !starts_rule(t, at),
        at > 0 && t.dom().contains((at - 1) as u16) && t[(at - 1) as u16].words[3] != 0x1000_0000
            ==> (starts_rule(t, at) <==> t[at].words[0] / 0x1000_0000 == 0xF && (
        t[at].words[0] / 0x40_0000) % 64 == 0),
        at > 0 && t.dom().contains((at - 1) as u16) && t[(at - 1) as u16].words[3] != 0x1000_0000
            && !crate::soc::lue::rule::is_clause_header(t[at].words[0]) ==> !starts_rule(t, at),
{
    crate::bits::lemma_fields(t[at].words[0]);
}

/// A rule whose first entry is not there ran past the end; one whose first
/// entry is no clause is none.
pub proof fn law_broken_rules_are_told_apart(t: Map<u16, Quad>, at: int, left: nat)
    requires
        left > 0,
    ensures
        !(0 <= at <= 0x0FFF && t.dom().contains(at as u16)) ==> read_rule(t, at, left) == Err::<
            RuleView,
            RuleError,
        >(RuleError::RanPastTheEnd),
        0 <= at <= 0x0FFF && t.dom().contains(at as u16)
            && !crate::soc::lue::rule::is_clause_header(t[at as u16].words[0]) ==> read_rule(
            t,
            at,
            left,
        ) == Err::<RuleView, RuleError>(RuleError::NotAClause),
{
}

/// A rule whose clauses link on through as many entries as may be read is too
/// long.
pub proof fn law_endless_rule_is_too_long(t: Map<u16, Quad>, at: int, left: nat)
    requires
        forall|k: int|
            at <= k < at + left ==> #[trigger] holds(t, k)
                && crate::soc::lue::rule::is_clause_header(t[k as u16].words[0])
                && t[k as u16].words[3] == 0x1000_0000,
    ensures
        read_rule(t, at, left) == Err::<RuleView, RuleError>(RuleError::TooLong),
    decreases left,
{
    if left > 0 {
        assert(holds(t, at));
        law_endless_rule_is_too_long(t, at + 1, (left - 1) as nat);
    }
}

/// A rule takes 32 entries and no more.
pub proof fn law_rule_takes_no_more_than_its_entries(s: PortState, table: u8, index: u16)
    requires
        forall|k: int|
            index % 0x1000 <= k < index % 0x1000 + 32 ==> #[trigger] holds(
                s.tables[table as int % 16],
                k,
            ) && crate::soc::lue::rule::is_clause_header(
                s.tables[table as int % 16][k as u16].words[0],
            ) && s.tables[table as int % 16][k as u16].words[3] == 0x1000_0000,
    ensures
        s.rule_at(table, index) == Err::<RuleView, RuleError>(RuleError::TooLong),
{
    lemma_slot_bound(table as usize);
    lemma_index_bits(index);
    law_endless_rule_is_too_long(s.tables[table as int % 16], (index % 0x1000) as int, 32);
}

} // verus!
