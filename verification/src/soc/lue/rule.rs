//! Rule entries: what the four words of a table entry mean.
//!
//! An entry is either a clause (a field, a comparison and a 64-bit operand) or
//! something this decoder does not recognise, which is kept word for word.
//!
//! Clause header:
//!
//! ```text
//!  31    28 27  22 21   16 15    10 9      4 3    0
//! +--------+------+-------+--------+--------+------+
//! |  0xF   |  0   | shift | anchor | field  |  op  |
//! +--------+------+-------+--------+--------+------+
//! ```
//!
//! `shift` and `anchor` are the two ends of the compare window. The operand
//! spans two words, most significant first.
//!
//! A rule is a run of entries. Each clause entry but the last ends in the link
//! word; the last ends in the rule's first action word. Further action words
//! spill into the entries that follow, four to an entry, padded with zeros.

use vstd::prelude::*;

use super::port::Quad;

verus! {

/// Marker in the top nibble of a clause header.
pub const CLAUSE_TAG: u32 = 0xF;

/// Word that means "another clause follows, and both must match".
pub const LINK_AND_NEXT: u32 = 0x1000_0000;

/// Header bits that mean nothing; they are zero in every clause.
pub const RESERVED_HEADER_BITS: u32 = 0x0FC0_0000;

/// Comparison operator, four bits.
#[derive(Clone, Copy, Debug, PartialEq, Eq, Structural)]
pub enum Op {
    Never,
    Eq,
    Ne,
    Le,
    Ge,
    Exists,
    NotExists,
    Always,
    /// Operator codes are four bits wide but only eight are named.
    Unknown(u8),
}

impl Op {
    /// The operator a code names.
    pub open spec fn of_code(code: u8) -> Op {
        let c = code & 0xF;
        if c == 0 {
            Op::Never
        } else if c == 1 {
            Op::Eq
        } else if c == 2 {
            Op::Ne
        } else if c == 3 {
            Op::Le
        } else if c == 4 {
            Op::Ge
        } else if c == 5 {
            Op::Exists
        } else if c == 6 {
            Op::NotExists
        } else if c == 7 {
            Op::Always
        } else {
            Op::Unknown(c)
        }
    }

    /// The code of an operator.
    pub open spec fn as_code(self) -> u8 {
        match self {
            Op::Never => 0,
            Op::Eq => 1,
            Op::Ne => 2,
            Op::Le => 3,
            Op::Ge => 4,
            Op::Exists => 5,
            Op::NotExists => 6,
            Op::Always => 7,
            Op::Unknown(n) => n & 0xF,
        }
    }

    pub fn from_code(code: u8) -> (r: Self)
        ensures
            r == Op::of_code(code),
    {
        match code & 0xF {
            0 => Op::Never,
            1 => Op::Eq,
            2 => Op::Ne,
            3 => Op::Le,
            4 => Op::Ge,
            5 => Op::Exists,
            6 => Op::NotExists,
            7 => Op::Always,
            other => Op::Unknown(other),
        }
    }

    pub fn code(self) -> (r: u8)
        ensures
            r == self.as_code(),
    {
        match self {
            Op::Never => 0,
            Op::Eq => 1,
            Op::Ne => 2,
            Op::Le => 3,
            Op::Ge => 4,
            Op::Exists => 5,
            Op::NotExists => 6,
            Op::Always => 7,
            Op::Unknown(n) => n & 0xF,
        }
    }
}

/// Which field of the frame a clause looks at, six bits.
#[derive(Clone, Copy, Debug, PartialEq, Eq, Structural)]
pub enum Field {
    /// Compared against EtherType values in every observed use.
    EtherType,
    /// Codes seen in live rules whose frame field is not established. Kept
    /// distinct from `Unknown` so that "seen but unexplained" does not read
    /// as "never seen".
    Observed(u8),
    Unknown(u8),
}

/// Whether a code is one of the observed ones.
pub open spec fn is_observed_code(code: u8) -> bool {
    code == 0x03 || code == 0x04 || code == 0x0F || code == 0x10
}

impl Field {
    /// The field a code names.
    pub open spec fn of_code(code: u8) -> Field {
        let c = code & 0x3F;
        if c == 0x02 {
            Field::EtherType
        } else if is_observed_code(c) {
            Field::Observed(c)
        } else {
            Field::Unknown(c)
        }
    }

    /// The code of a field.
    pub open spec fn as_code(self) -> u8 {
        match self {
            Field::EtherType => 0x02,
            Field::Observed(n) => n & 0x3F,
            Field::Unknown(n) => n & 0x3F,
        }
    }

    pub fn from_code(code: u8) -> (r: Self)
        ensures
            r == Field::of_code(code),
    {
        let c: u8 = code & 0x3F;
        if c == 0x02 {
            Field::EtherType
        } else if c == 0x03 || c == 0x04 || c == 0x0F || c == 0x10 {
            Field::Observed(c)
        } else {
            Field::Unknown(c)
        }
    }

    pub fn code(self) -> (r: u8)
        ensures
            r == self.as_code(),
    {
        match self {
            Field::EtherType => 0x02,
            Field::Observed(n) => n & 0x3F,
            Field::Unknown(n) => n & 0x3F,
        }
    }
}

/// One comparison.
#[derive(Clone, Copy, Debug, PartialEq, Eq, Structural)]
pub struct Clause {
    pub field: Field,
    pub op: Op,
    /// Bits [21:16]. The high end of the compare window: the bit above it and
    /// everything over it are don't-care.
    pub shift: u8,
    /// Bits [15:10]. Where the compare window starts.
    pub anchor: u8,
    pub operand: u64,
}

/// The header of its four fields.
pub open spec fn pack_header(shift: u32, anchor: u32, field: u32, op: u32) -> u32 {
    (0xFu32 << 28) | ((shift & 0x3F) << 16) | ((anchor & 0x3F) << 10) | (field << 4) | op
}

/// Whether a header has the clause layout: the marker on top, and zeroes in the
/// reserved bits below it.
pub open spec fn is_clause_header(header: u32) -> bool {
    header >> 28 == CLAUSE_TAG && header & RESERVED_HEADER_BITS == 0
}

pub(crate) fn has_clause_layout(header: u32) -> (r: bool)
    ensures
        r == is_clause_header(header),
{
    header >> 28 == CLAUSE_TAG && header & RESERVED_HEADER_BITS == 0
}

impl Clause {
    /// Width of the compare window, in bits.
    pub open spec fn width(self) -> int {
        if self.shift + self.anchor >= 64 {
            0
        } else {
            64 - self.shift - self.anchor
        }
    }

    /// The header word of the clause.
    pub open spec fn header_word(self) -> u32 {
        pack_header(
            self.shift as u32,
            self.anchor as u32,
            self.field.as_code() as u32,
            self.op.as_code() as u32,
        )
    }

    /// The clause a header and an operand make; `None` where the header has
    /// another layout.
    pub open spec fn of_header(header: u32, operand: u64) -> Option<Clause> {
        if !is_clause_header(header) {
            None
        } else {
            Some(
                Clause {
                    field: Field::of_code(((header >> 4) & 0x3F) as u8),
                    op: Op::of_code((header & 0xF) as u8),
                    shift: ((header >> 16) & 0x3F) as u8,
                    anchor: ((header >> 10) & 0x3F) as u8,
                    operand,
                },
            )
        }
    }

    /// A clause the header can carry whole.
    pub open spec fn fits(self) -> bool {
        &&& self.shift < 64
        &&& self.anchor < 64
        &&& Field::of_code(self.field.as_code()) == self.field
        &&& Op::of_code(self.op.as_code()) == self.op
    }

    pub fn compared_bits(&self) -> (r: u32)
        ensures
            r == self.width(),
    {
        let used: u32 = self.shift as u32 + self.anchor as u32;
        if used >= 64 {
            0
        } else {
            64 - used
        }
    }

    pub fn header(&self) -> (r: u32)
        ensures
            r == self.header_word(),
    {
        (CLAUSE_TAG << 28) | ((self.shift as u32 & 0x3F) << 16) | ((self.anchor as u32 & 0x3F)
            << 10) | ((self.field.code() as u32) << 4) | self.op.code() as u32
    }

    pub fn from_header(header: u32, operand: u64) -> (r: Option<Self>)
        ensures
            r == Clause::of_header(header, operand),
    {
        if !has_clause_layout(header) {
            return None;
        }
        Some(
            Clause {
                field: Field::from_code(((header >> 4) & 0x3F) as u8),
                op: Op::from_code((header & 0xF) as u8),
                shift: ((header >> 16) & 0x3F) as u8,
                anchor: ((header >> 10) & 0x3F) as u8,
                operand,
            },
        )
    }
}

/// What follows a clause inside its entry.
#[derive(Clone, Copy, Debug, PartialEq, Eq, Structural)]
pub enum Link {
    /// Another clause follows at the next index; both must match.
    AndNext,
    /// The rule ends here and this word is its first action word.
    Terminal(Action),
}

/// An action word.
#[derive(Clone, Copy, Debug, PartialEq, Eq, Structural)]
pub struct Action {
    /// Bits [27:24].
    pub priority: u8,
    pub payload: ActionPayload,
}

#[derive(Clone, Copy, Debug, PartialEq, Eq, Structural)]
pub enum ActionPayload {
    /// The `type == 0` encoding: top nibble `0xE`, no other field.
    Broadcast,
    /// Types 2..=7, carried as `type ^ 1` in bits [22:20].
    Simple { type_code: u8 },
    /// A selector in the top nibble, a sub-index, and a field whose width
    /// depends on the selector.
    Selected { sel: u8, sub: u8, field: u16, wide: bool },
    /// Anything else, kept verbatim.
    Raw(u32),
}

/// Selector nibble of the group the queue result belongs to.
pub const SELECTED_QUEUE_SEL: u8 = 2;

/// Sub-index of the queue result within that group.
pub const SELECTED_QUEUE_SUB: u8 = 0;

/// Where the sub-index sits in the two selected forms.
pub open spec fn sub_shift(wide: bool) -> u32 {
    if wide {
        12
    } else {
        16
    }
}

impl Action {
    /// The queue the action sends a frame to, if it names one.
    pub open spec fn queue(self) -> Option<u8> {
        match self.payload {
            ActionPayload::Selected { sel, sub, field, wide } => if sel == SELECTED_QUEUE_SEL
                && sub == SELECTED_QUEUE_SUB {
                Some((field & 0x1F) as u8)
            } else {
                None
            },
            _ => None,
        }
    }

    /// The word of an action.
    pub open spec fn to_word(self) -> u32 {
        let prio = ((self.priority as u32) & 0xF) << 24;
        match self.payload {
            ActionPayload::Broadcast => 0xE000_0000 | prio,
            ActionPayload::Simple { type_code } => (((type_code ^ 1) as u32 & 0x7) << 20) | prio,
            ActionPayload::Selected { sel, sub, field, wide } => ((sel as u32 & 0xF) << 28) | (
            field as u32) | ((sub as u32 & 0xF) << sub_shift(wide)) | prio,
            ActionPayload::Raw(w) => w,
        }
    }

    /// The reading of a word by its shape, which may leave bits out.
    pub open spec fn reading(word: u32) -> Action {
        let priority = ((word >> 24) & 0xF) as u8;
        let sel = (word >> 28) as u8;
        let simple = ((word >> 20) & 0x7) as u8;
        let payload = if sel == 0xE && word & 0x00FF_FFFF == 0 {
            ActionPayload::Broadcast
        } else if sel == 0 && word & 0x000F_FFFF == 0 && simple != 0 {
            ActionPayload::Simple { type_code: simple ^ 1 }
        } else if 2 <= sel < 8 {
            ActionPayload::Selected {
                sel,
                sub: ((word >> 12) & 0xF) as u8,
                field: (word & 0xFFF) as u16,
                wide: true,
            }
        } else if 8 <= sel <= 9 {
            ActionPayload::Selected {
                sel,
                sub: ((word >> 16) & 0xF) as u8,
                field: (word & 0xFFFF) as u16,
                wide: false,
            }
        } else {
            ActionPayload::Raw(word)
        };
        Action { priority, payload }
    }

    /// The action a word carries: the reading by its shape where that
    /// reproduces the word, the bare word otherwise.
    pub open spec fn of_word(word: u32) -> Action {
        if Action::reading(word).to_word() == word {
            Action::reading(word)
        } else {
            Action { priority: ((word >> 24) & 0xF) as u8, payload: ActionPayload::Raw(word) }
        }
    }

    /// A structured action whose fields fit the bits the word has for them.
    pub open spec fn fits(self) -> bool {
        &&& self.priority <= 0xF
        &&& match self.payload {
            ActionPayload::Broadcast => true,
            ActionPayload::Simple { type_code } => type_code <= 7 && type_code != 1,
            ActionPayload::Selected { sel, sub, field, wide } => 2 <= sel <= 9 && sub <= 0xF
                && wide == (sel < 8) && (wide ==> field <= 0xFFF),
            ActionPayload::Raw(_) => false,
        }
    }

    pub fn destination_queue(&self) -> (r: Option<u8>)
        ensures
            r == self.queue(),
    {
        match self.payload {
            ActionPayload::Selected { sel, sub, field, wide: _ } => {
                if sel == SELECTED_QUEUE_SEL && sub == SELECTED_QUEUE_SUB {
                    Some((field & 0x1F) as u8)
                } else {
                    None
                }
            },
            _ => None,
        }
    }

    pub fn encode(&self) -> (r: u32)
        ensures
            r == self.to_word(),
    {
        let prio: u32 = ((self.priority as u32) & 0xF) << 24;
        match self.payload {
            ActionPayload::Broadcast => 0xE000_0000 | prio,
            ActionPayload::Simple { type_code } => (((type_code ^ 1) as u32 & 0x7) << 20) | prio,
            ActionPayload::Selected { sel, sub, field, wide } => {
                let shift: u32 = if wide {
                    12
                } else {
                    16
                };
                ((sel as u32 & 0xF) << 28) | (field as u32) | ((sub as u32 & 0xF) << shift) | prio
            },
            ActionPayload::Raw(w) => w,
        }
    }

    pub fn decode(word: u32) -> (r: Self)
        ensures
            r == Action::of_word(word),
    {
        let priority: u8 = ((word >> 24) & 0xF) as u8;
        let sel: u8 = (word >> 28) as u8;
        let simple: u8 = ((word >> 20) & 0x7) as u8;
        let payload = if sel == 0xE && word & 0x00FF_FFFF == 0 {
            ActionPayload::Broadcast
        } else if sel == 0 && word & 0x000F_FFFF == 0 && simple != 0 {
            ActionPayload::Simple { type_code: simple ^ 1 }
        } else if 2 <= sel && sel < 8 {
            ActionPayload::Selected {
                sel,
                sub: ((word >> 12) & 0xF) as u8,
                field: (word & 0xFFF) as u16,
                wide: true,
            }
        } else if 8 <= sel && sel <= 9 {
            ActionPayload::Selected {
                sel,
                sub: ((word >> 16) & 0xF) as u8,
                field: (word & 0xFFFF) as u16,
                wide: false,
            }
        } else {
            ActionPayload::Raw(word)
        };
        let candidate = Action { priority, payload };
        // Only claim a structured reading if it reproduces the word.
        if candidate.encode() == word {
            candidate
        } else {
            Action { priority, payload: ActionPayload::Raw(word) }
        }
    }
}

/// A decoded table entry.
#[derive(Clone, Copy, Debug, PartialEq, Eq)]
pub enum Entry {
    Clause { clause: Clause, link: Link },
    /// Not a clause, or not one this decoder recognises.
    Raw(Quad),
}

/// The operand of an entry.
pub open spec fn operand_of(quad: Quad) -> u64 {
    ((quad.words[1] as u64) << 32) | quad.words[2] as u64
}

/// The link a word stands for.
pub open spec fn link_of(word: u32) -> Link {
    if word == LINK_AND_NEXT {
        Link::AndNext
    } else {
        Link::Terminal(Action::of_word(word))
    }
}

/// The word a link stands for.
pub open spec fn link_word(link: Link) -> u32 {
    match link {
        Link::AndNext => LINK_AND_NEXT,
        Link::Terminal(a) => a.to_word(),
    }
}

/// The entry of a clause and its last word.
pub open spec fn clause_quad(clause: Clause, last: u32) -> Quad {
    Quad {
        words: [
            clause.header_word(),
            (clause.operand >> 32) as u32,
            clause.operand as u32,
            last,
        ],
    }
}

impl Entry {
    /// What an entry means.
    pub open spec fn of_quad(quad: Quad) -> Entry {
        match Clause::of_header(quad.words[0], operand_of(quad)) {
            Some(clause) => Entry::Clause { clause, link: link_of(quad.words[3]) },
            None => Entry::Raw(quad),
        }
    }

    /// The four words of an entry.
    pub open spec fn to_quad(self) -> Quad {
        match self {
            Entry::Clause { clause, link } => clause_quad(clause, link_word(link)),
            Entry::Raw(q) => q,
        }
    }

    pub fn decode(quad: Quad) -> (r: Self)
        ensures
            r == Entry::of_quad(quad),
    {
        let operand: u64 = ((quad.words[1] as u64) << 32) | quad.words[2] as u64;
        match Clause::from_header(quad.words[0], operand) {
            Some(clause) => {
                let link = if quad.words[3] == LINK_AND_NEXT {
                    Link::AndNext
                } else {
                    Link::Terminal(Action::decode(quad.words[3]))
                };
                Entry::Clause { clause, link }
            },
            None => Entry::Raw(quad),
        }
    }

    pub fn encode(&self) -> (r: Quad)
        ensures
            r == self.to_quad(),
    {
        match self {
            Entry::Clause { clause, link } => {
                let last: u32 = match link {
                    Link::AndNext => LINK_AND_NEXT,
                    Link::Terminal(a) => a.encode(),
                };
                quad_for_clause(clause, last)
            },
            Entry::Raw(q) => *q,
        }
    }
}

fn quad_for_clause(clause: &Clause, last: u32) -> (r: Quad)
    ensures
        r == clause_quad(*clause, last),
{
    let r = Quad::new(
        [clause.header(), (clause.operand >> 32) as u32, clause.operand as u32, last],
    );
    assert(r.words =~= clause_quad(*clause, last).words);
    r
}

/// Why a run of entries is not a rule.
#[derive(Clone, Copy, Debug, PartialEq, Eq, Structural)]
pub enum RuleError {
    /// An entry that should carry a clause does not.
    NotAClause,
    /// The run reached an absent entry, or the end of the table, before a
    /// terminal clause.
    RanPastTheEnd,
    /// The run is longer than any rule software builds.
    TooLong,
}

/// Entries a rule may take.
pub const MAX_RULE_ENTRIES: usize = 32;

/// A rule: every clause must match, and then every action applies.
#[derive(Clone, Debug, PartialEq, Eq)]
pub struct Rule {
    pub clauses: Vec<Clause>,
    pub actions: Vec<Action>,
}

/// A rule, as values.
#[verifier::ext_equal]
pub struct RuleView {
    pub clauses: Seq<Clause>,
    pub actions: Seq<Action>,
}

impl View for Rule {
    type V = RuleView;

    open spec fn view(&self) -> RuleView {
        RuleView { clauses: self.clauses@, actions: self.actions@ }
    }
}

/// What reading a rule out of a table gave.
#[derive(Debug, PartialEq, Eq)]
pub struct RuleRead {
    pub result: Result<Rule, RuleError>,
}

impl RuleRead {
    /// The outcome, as values.
    pub open spec fn outcome(self) -> Result<RuleView, RuleError> {
        match self.result {
            Ok(rule) => Ok(rule@),
            Err(e) => Err(e),
        }
    }
}

/// The first queue a list of actions names.
pub open spec fn first_queue(actions: Seq<Action>) -> Option<u8>
    decreases actions.len(),
{
    if actions.len() == 0 {
        None
    } else if actions[0].queue() is Some {
        actions[0].queue()
    } else {
        first_queue(actions.skip(1))
    }
}

/// The word at a place of an action list; zero past its end.
pub open spec fn word_or_padding(actions: Seq<Action>, i: int) -> u32 {
    if i < actions.len() {
        actions[i].to_word()
    } else {
        0
    }
}

/// One entry of action words.
pub open spec fn spill_quad(actions: Seq<Action>) -> Quad {
    Quad {
        words: [
            word_or_padding(actions, 0),
            word_or_padding(actions, 1),
            word_or_padding(actions, 2),
            word_or_padding(actions, 3),
        ],
    }
}

/// A list past its first four elements.
pub open spec fn past_four(actions: Seq<Action>) -> Seq<Action> {
    actions.skip(if actions.len() < 4 {
        actions.len() as int
    } else {
        4
    })
}

/// The entries a list of action words spills into.
pub open spec fn spill_quads(actions: Seq<Action>) -> Seq<Quad>
    decreases actions.len(),
{
    if actions.len() == 0 {
        Seq::empty()
    } else {
        seq![spill_quad(actions)] + spill_quads(past_four(actions))
    }
}

/// The entries of a list of clauses, the last of them ending in a word.
pub open spec fn clause_quads(clauses: Seq<Clause>, last: u32) -> Seq<Quad> {
    Seq::new(
        clauses.len(),
        |i: int|
            clause_quad(
                clauses[i],
                if i + 1 < clauses.len() {
                    LINK_AND_NEXT
                } else {
                    last
                },
            ),
    )
}

impl RuleView {
    /// The entries of the rule.
    pub open spec fn quads(self) -> Seq<Quad> {
        clause_quads(self.clauses, word_or_padding(self.actions, 0)) + spill_quads(
            self.actions.skip(1),
        )
    }
}

impl Rule {
    /// The first queue the rule's actions name.
    pub fn destination_queue(&self) -> (r: Option<u8>)
        ensures
            r == first_queue(self@.actions),
    {
        let n: usize = self.actions.len();
        assert(self@.actions.skip(0) =~= self@.actions);
        for i in 0..n
            invariant
                n == self.actions@.len(),
                first_queue(self@.actions) == first_queue(self@.actions.skip(i as int)),
        {
            proof {
                assert(self@.actions.skip(i as int).skip(1) =~= self@.actions.skip(i + 1));
                assert(self@.actions.skip(i as int)[0] == self@.actions[i as int]);
            }
            let q = self.actions[i].destination_queue();
            if q.is_some() {
                return q;
            }
        }
        None
    }

    fn word_at(&self, i: usize) -> (r: u32)
        ensures
            r == word_or_padding(self@.actions, i as int),
    {
        if i < self.actions.len() {
            self.actions[i].encode()
        } else {
            0
        }
    }

    /// The entries software writes for the rule.
    pub fn encode(&self) -> (r: Vec<Quad>)
        requires
            self@.clauses.len() > 0,
            self@.actions.len() > 0,
            self@.actions.len() + 4 <= usize::MAX,
        ensures
            r@ == self@.quads(),
    {
        let n: usize = self.clauses.len();
        let first: u32 = self.word_at(0);
        let mut out: Vec<Quad> = Vec::new();
        for i in 0..n
            invariant
                n == self.clauses@.len(),
                n > 0,
                out@ == clause_quads(self@.clauses, first).take(i as int),
        {
            let last: u32 = if i < n - 1 {
                LINK_AND_NEXT
            } else {
                first
            };
            out.push(quad_for_clause(&self.clauses[i], last));
            assert(out@ =~= clause_quads(self@.clauses, first).take(i + 1));
        }
        assert(clause_quads(self@.clauses, first).take(n as int) =~= clause_quads(
            self@.clauses,
            first,
        ));
        let total: usize = self.actions.len();
        let mut at: usize = 1;
        let ghost head = out@;
        assert(head + spill_quads(self@.actions.skip(1)) =~= self@.quads());
        while at < total
            invariant
                total == self.actions@.len(),
                total + 4 <= usize::MAX,
                1 <= at <= total,
                out@ + spill_quads(self@.actions.skip(at as int)) == self@.quads(),
            decreases total - at,
        {
            let q = Quad::new(
                [
                    self.word_at(at),
                    self.word_at(at + 1),
                    self.word_at(at + 2),
                    self.word_at(at + 3),
                ],
            );
            let ghost rest = self@.actions.skip(at as int);
            let ghost before = out@;
            proof {
                assert(forall|k: int|
                    0 <= k < 4 ==> word_or_padding(rest, k) == #[trigger] word_or_padding(
                        self@.actions,
                        at + k,
                    ));
                assert(word_or_padding(self@.actions, at + 0) == word_or_padding(rest, 0));
                assert(word_or_padding(self@.actions, at + 1) == word_or_padding(rest, 1));
                assert(word_or_padding(self@.actions, at + 2) == word_or_padding(rest, 2));
                assert(word_or_padding(self@.actions, at + 3) == word_or_padding(rest, 3));
                assert(q.words =~= spill_quad(rest).words);
            }
            out.push(q);
            let step: usize = if total - at < 4 {
                total - at
            } else {
                4
            };
            proof {
                assert(past_four(rest) =~= self@.actions.skip(at + step));
                assert(before + (seq![q] + spill_quads(past_four(rest))) =~= before.push(q)
                    + spill_quads(past_four(rest)));
            }
            at = at + step;
        }
        assert(self@.actions.skip(total as int) =~= Seq::<Action>::empty());
        assert(out@ + Seq::<Quad>::empty() =~= out@);
        out
    }
}

pub(crate) proof fn lemma_code_bits(code: u8)
    by (bit_vector)
    ensures
        code & 0xF <= 0xF,
        code & 0x3F <= 0x3F,
        code <= 0xF ==> code & 0xF == code,
        code <= 0x3F ==> code & 0x3F == code,
{
}

/// Operator and field codes survive the way through their names.
pub proof fn law_codes_round_trip(code: u8)
    ensures
        code < 16 ==> Op::of_code(code).as_code() == code,
        code < 64 ==> Field::of_code(code).as_code() == code,
{
    lemma_code_bits(code);
    lemma_code_bits(code & 0xF);
    lemma_code_bits(code & 0x3F);
}

proof fn lemma_header_fields(shift: u32, anchor: u32, field: u32, op: u32)
    by (bit_vector)
    requires
        shift <= 0x3F,
        anchor <= 0x3F,
        field <= 0x3F,
        op <= 0xF,
    ensures
        pack_header(shift, anchor, field, op) >> 28 == 0xF,
        (pack_header(shift, anchor, field, op) >> 4) & 0x3F == field,
        pack_header(shift, anchor, field, op) & 0xF == op,
        (pack_header(shift, anchor, field, op) >> 16) & 0x3F == shift,
        (pack_header(shift, anchor, field, op) >> 10) & 0x3F == anchor,
        pack_header(shift, anchor, field, op) & 0x0FC0_0000 == 0,
{
}

proof fn lemma_header_repacks(header: u32)
    by (bit_vector)
    ensures
        (header >> 16) & 0x3F <= 0x3F,
        (header >> 10) & 0x3F <= 0x3F,
        (header >> 4) & 0x3F <= 0x3F,
        header & 0xF <= 0xF,
        header >> 28 == 0xF && header & 0x0FC0_0000 == 0 ==> pack_header(
            (header >> 16) & 0x3F,
            (header >> 10) & 0x3F,
            (header >> 4) & 0x3F,
            header & 0xF,
        ) == header,
{
}

pub proof fn lemma_operand_halves(operand: u64, hi: u32, lo: u32)
    by (bit_vector)
    ensures
        (((operand >> 32) as u32) as u64) << 32 | (operand as u32) as u64 == operand,
        (((hi as u64) << 32 | lo as u64) >> 32) as u32 == hi,
        ((hi as u64) << 32 | lo as u64) as u32 == lo,
{
}

/// A clause whose fields fit reads back from its header.
pub proof fn law_clause_round_trips(clause: Clause)
    requires
        clause.fits(),
    ensures
        Clause::of_header(clause.header_word(), clause.operand) == Some(clause),
{
    let f = clause.field.as_code();
    let o = clause.op.as_code();
    assert(f <= 0x3F && o <= 0xF) by {
        match clause.field {
            Field::EtherType => {},
            Field::Observed(n) => lemma_code_bits(n),
            Field::Unknown(n) => lemma_code_bits(n),
        }
        match clause.op {
            Op::Unknown(n) => lemma_code_bits(n),
            _ => {},
        }
    }
    lemma_header_fields(clause.shift as u32, clause.anchor as u32, f as u32, o as u32);
}

/// Any four words survive decoding and encoding.
pub proof fn law_entry_words_survive(quad: Quad)
    ensures
        Entry::of_quad(quad).to_quad() == quad,
{
    if is_clause_header(quad.words[0]) {
        let h = quad.words[0];
        lemma_header_repacks(h);
        lemma_operand_halves(0, quad.words[1], quad.words[2]);
        law_codes_round_trip(((h >> 4) & 0x3F) as u8);
        law_codes_round_trip((h & 0xF) as u8);
        law_action_words_survive(quad.words[3]);
        assert(Entry::of_quad(quad).to_quad().words =~= quad.words);
    }
}

/// Every action word survives decoding and encoding, structured or not.
pub proof fn law_action_words_survive(word: u32)
    ensures
        Action::of_word(word).to_word() == word,
{
}

/// A structured action whose fields fit reads back from its word.
pub proof fn law_structured_action_round_trips(action: Action)
    requires
        action.fits(),
    ensures
        Action::of_word(action.to_word()) == action,
{
    let p = action.priority as u32;
    let w = action.to_word();
    match action.payload {
        ActionPayload::Broadcast => {
            assert(p <= 0xF && w == 0xE000_0000u32 | ((p & 0xF) << 24) ==> (w >> 24) & 0xF == p && w
                >> 28 == 0xE && w & 0x00FF_FFFF == 0) by (bit_vector);
        },
        ActionPayload::Simple { type_code } => {
            assert(p <= 0xF && type_code <= 7 && type_code != 1 && w == ((((type_code ^ 1u8) as u32)
                & 0x7) << 20) | ((p & 0xF) << 24) ==> (w >> 24) & 0xF == p && w >> 28 == 0 && w
                & 0x000F_FFFF == 0 && ((w >> 20) & 0x7) as u8 == type_code ^ 1u8 && type_code ^ 1u8
                != 0 && (type_code ^ 1u8) ^ 1u8 == type_code) by (bit_vector);
        },
        ActionPayload::Selected { sel, sub, field, wide } => {
            let (s, b, f) = (sel as u32, sub as u32, field as u32);
            assert(p <= 0xF && s <= 9 && b <= 0xF && f <= 0xFFF && w == ((s & 0xF) << 28) | f | ((b
                & 0xF) << 12u32) | ((p & 0xF) << 24) ==> (w >> 24) & 0xF == p && w >> 28 == s && (w
                >> 12) & 0xF == b && w & 0xFFF == f) by (bit_vector);
            assert(p <= 0xF && s <= 9 && b <= 0xF && f <= 0xFFFF && w == ((s & 0xF) << 28) | f | ((b
                & 0xF) << 16u32) | ((p & 0xF) << 24) ==> (w >> 24) & 0xF == p && w >> 28 == s && (w
                >> 16) & 0xF == b && w & 0xFFFF == f) by (bit_vector);
        },
        ActionPayload::Raw(_) => {},
    }
}

/// Only the queue result names a queue, and a queue number has five bits.
pub proof fn law_only_the_queue_result_names_a_queue(action: Action)
    ensures
        action.queue() is Some <==> (action.payload matches ActionPayload::Selected {
            sel,
            sub,
            field,
            wide,
        } && sel == SELECTED_QUEUE_SEL && sub == SELECTED_QUEUE_SUB),
        action.queue() matches Some(q) ==> q < 32,
{
    if let ActionPayload::Selected { sel, sub, field, wide } = action.payload {
        assert((field & 0x1Fu16) < 32) by (bit_vector);
    }
}

/// A header is a clause where its top nibble is all ones and the six bits below
/// it are zero. Its fields stand in it as numbers: the operator in the lowest
/// four bits, then six bits each of field, anchor and shift.
pub proof fn law_header_fields_have_their_places(header: u32, operand: u64)
    ensures
        Clause::of_header(header, operand) is Some <==> header / 0x1000_0000 == 0xF && (header
            / 0x40_0000) % 64 == 0,
        Clause::of_header(header, operand) matches Some(c) ==> {
            &&& c.op.as_code() == header % 16
            &&& c.field.as_code() == (header / 16) % 64
            &&& c.anchor == (header / 0x400) % 64
            &&& c.shift == (header / 0x1_0000) % 64
            &&& c.operand == operand
        },
{
    crate::bits::lemma_fields(header);
    crate::bits::lemma_fields(header >> 4);
    crate::bits::lemma_fields(header >> 10);
    crate::bits::lemma_fields(header >> 16);
    law_codes_round_trip((header & 0xF) as u8);
    law_codes_round_trip(((header >> 4) & 0x3F) as u8);
}

/// The operators by their codes, and the type field by its own.
pub proof fn law_codes_have_their_meaning(code: u8)
    requires
        code < 16,
    ensures
        Op::of_code(code) is Never <==> code == 0,
        Op::of_code(code) is Eq <==> code == 1,
        Op::of_code(code) is Ne <==> code == 2,
        Op::of_code(code) is Le <==> code == 3,
        Op::of_code(code) is Ge <==> code == 4,
        Op::of_code(code) is Exists <==> code == 5,
        Op::of_code(code) is NotExists <==> code == 6,
        Op::of_code(code) is Always <==> code == 7,
        Op::of_code(code) is Unknown <==> code > 7,
        Field::of_code(code) is EtherType <==> code == 2,
        Field::of_code(code) is Observed <==> code == 3 || code == 4 || code == 15,
        Field::of_code(16) is Observed,
{
    lemma_code_bits(code);
    lemma_code_bits(16);
}

/// The window of a clause leaves `anchor` bits out below and `shift` bits above,
/// and has no bits where those overlap.
pub proof fn law_window_width(c: Clause)
    ensures
        c.width() >= 0,
        c.shift + c.anchor <= 64 ==> c.width() + c.shift + c.anchor == 64,
        c.shift + c.anchor > 64 ==> c.width() == 0,
{
}

/// An entry means what its words say: a clause whose operand is the two middle
/// words, most significant first, and whose last word chains it to the next one
/// where it is exactly the link word.
pub proof fn law_entry_words_have_their_places(quad: Quad)
    ensures
        ({
            let entry = Entry::of_quad(quad);
            &&& entry is Raw <==> Clause::of_header(quad.words[0], 0) is None
            &&& entry matches Entry::Clause { clause, link } ==> {
                &&& clause.operand == quad.words[1] * 0x1_0000_0000 + quad.words[2]
                &&& Clause::of_header(quad.words[0], clause.operand) == Some(clause)
                &&& link is AndNext <==> quad.words[3] == 0x1000_0000
                &&& link matches Link::Terminal(a) ==> a.to_word() == quad.words[3]
            }
        }),
{
    lemma_operand_number(quad.words[1], quad.words[2]);
}

proof fn lemma_operand_number(hi: u32, lo: u32)
    by (bit_vector)
    ensures
        ((hi as u64) << 32) | lo as u64 == hi as u64 * 0x1_0000_0000 + lo as u64,
{
}

/// The priority of an action is in bits 24 to 27 of its word.
pub proof fn law_priority_has_its_place(word: u32)
    ensures
        Action::of_word(word).priority == (word / 0x100_0000) % 16,
{
    crate::bits::lemma_fields(word);
    crate::bits::lemma_fields(word >> 24);
}

/// A word names a queue exactly where its top nibble is 2 and its sub-index is
/// zero; the queue is its lowest five bits. No other bit below the priority
/// takes part: such a word is kept as it is.
pub proof fn law_queue_words_name_their_queue(word: u32)
    ensures
        Action::of_word(word).queue() is Some <==> word / 0x1000_0000 == 2 && (word / 0x1000)
            % 0x1000 == 0,
        Action::of_word(word).queue() matches Some(q) ==> q == word % 32,
{
    crate::bits::lemma_fields(word);
    crate::bits::lemma_fields(word >> 12);
    crate::bits::lemma_fields(word >> 16);
    crate::bits::lemma_fields(word & 0xFFF);
    lemma_queue_word(word);
    let f = (word & 0xFFF) as u16;
    assert((f & 0x1Fu16) as u32 == word % 32) by {
        lemma_queue_word(word);
    }
}

proof fn lemma_queue_word(w: u32)
    by (bit_vector)
    ensures
        w >> 28 == 2 ==> ((((w >> 28) as u8) as u32 & 0xF) << 28 | ((w & 0xFFF) as u16) as u32 | (((
        (w >> 12) & 0xF) as u8) as u32 & 0xF) << 12u32 | ((((w >> 24) & 0xF) as u8) as u32 & 0xF)
            << 24 == w <==> (w >> 16) & 0xFF == 0),
        (((w & 0xFFF) as u16) & 0x1Fu16) as u32 == w % 32,
        (w >> 12) % 0x1000 == ((w >> 12) & 0xF) + ((w >> 16) & 0xFF) * 16,
{
}

/// The words of an action say what it is: the queue result carries its selector
/// on top, its sub-index from bit 12 and its field at the bottom.
pub proof fn law_queue_action_word(priority: u8, queue: u16)
    requires
        priority < 16,
        queue < 32,
    ensures
        (Action {
            priority,
            payload: ActionPayload::Selected { sel: 2, sub: 0, field: queue, wide: true },
        }).to_word() == 0x2000_0000 + priority * 0x100_0000 + queue,
{
    let (p, q) = (priority as u32, queue as u32);
    assert(p < 16 && q < 32 ==> ((2u32 & 0xF) << 28) | q | ((0u32 & 0xF) << 12u32) | ((p & 0xF) << 24)
        == 0x2000_0000 + p * 0x100_0000 + q) by (bit_vector);
    assert(2u8 as u32 == 2u32 && 0u8 as u32 == 0u32);
}

} // verus!
