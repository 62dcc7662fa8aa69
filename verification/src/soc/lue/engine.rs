//! Matching a frame against the rule tables.
//!
//! Two things this engine refuses to do:
//!
//! * Guess a field. Only four field codes have a frame field behind them. A
//!   clause over any other is undecidable: never a match, never a silent miss.
//! * Fall through. A frame that matches nothing is a miss with a counter, not
//!   an implicit default.
//!
//! Two operators ask whether the frame carries the field at all, and those are
//! answered from the frame's shape rather than from a value.

use vstd::prelude::*;

use super::port::{LuePort, PortState};
use super::rule::{Action, Clause, Field, Op, RuleError, RuleView};

verus! {

/// Octets before the payload of an Ethernet frame.
pub const ETHERNET_HEADER_LEN: usize = 14;

/// The extractor the firmware programs on its boot path: the two octets after
/// the type field.
pub const DEFAULT_EXTRACTOR: u8 = 0x10;

/// The EtherTypes that mark a tagged frame.
pub const TAG_ETHERTYPE_CUSTOMER: u16 = 0x8100;

pub const TAG_ETHERTYPE_SERVICE: u16 = 0x88A8;

/// The two field codes that name a tag.
pub const TAG_FIELD_CODE_FIRST: u8 = 0x03;

pub const TAG_FIELD_CODE_SECOND: u8 = 0x04;

/// The big-endian number a run of octets makes.
pub open spec fn big_endian(octets: Seq<u8>) -> u64
    decreases octets.len(),
{
    if octets.len() == 0 {
        0
    } else {
        (big_endian(octets.drop_last()) << 8) | octets.last() as u64
    }
}

fn big_endian_of(frame: &[u8], start: usize, end: usize) -> (r: u64)
    requires
        start <= end <= frame@.len(),
    ensures
        r == big_endian(frame@.subrange(start as int, end as int)),
{
    let mut acc: u64 = 0;
    assert(frame@.subrange(start as int, start as int) =~= Seq::<u8>::empty());
    for i in start..end
        invariant
            start <= end <= frame@.len(),
            acc == big_endian(frame@.subrange(start as int, i as int)),
    {
        proof {
            assert(frame@.subrange(start as int, i + 1).drop_last() =~= frame@.subrange(
                start as int,
                i as int,
            ));
            assert(frame@.subrange(start as int, i + 1).last() == frame@[i as int]);
        }
        acc = (acc << 8) | frame[i] as u64;
    }
    acc
}

/// Whether a frame carries a field.
#[derive(Clone, Copy, Debug, PartialEq, Eq, Structural)]
pub enum Presence {
    Present,
    Absent,
    /// The model cannot say. Never collapsed into either of the others: the
    /// two answers are opposite verdicts.
    Unknown,
}

/// The type field of a frame.
pub open spec fn ethertype(frame: Seq<u8>) -> u16 {
    ((frame[12] as u16) << 8) | frame[13] as u16
}

/// Whether a frame carries a field.
///
/// On an untagged frame both tag codes are absent, whichever names which tag.
/// On a tagged frame the answer would depend on it, and is unknown.
pub open spec fn presence(field: Field, frame: Seq<u8>) -> Presence {
    let code = field.as_code();
    if frame.len() < ETHERNET_HEADER_LEN {
        Presence::Unknown
    } else if code == TAG_FIELD_CODE_FIRST || code == TAG_FIELD_CODE_SECOND {
        if ethertype(frame) == TAG_ETHERTYPE_CUSTOMER || ethertype(frame) == TAG_ETHERTYPE_SERVICE {
            Presence::Unknown
        } else {
            Presence::Absent
        }
    } else if code <= 0x02 {
        Presence::Present
    } else {
        Presence::Unknown
    }
}

pub fn field_presence(field: Field, frame: &[u8]) -> (r: Presence)
    ensures
        r == presence(field, frame@),
{
    if frame.len() < ETHERNET_HEADER_LEN {
        return Presence::Unknown;
    }
    let code: u8 = field.code();
    if code != TAG_FIELD_CODE_FIRST && code != TAG_FIELD_CODE_SECOND {
        return if code <= 0x02 {
            Presence::Present
        } else {
            Presence::Unknown
        };
    }
    let et: u16 = ((frame[12] as u16) << 8) | frame[13] as u16;
    if et == TAG_ETHERTYPE_CUSTOMER || et == TAG_ETHERTYPE_SERVICE {
        Presence::Unknown
    } else {
        Presence::Absent
    }
}

/// Whether a field names a bare code.
pub open spec fn names_code(field: Field, code: u8) -> bool {
    field == Field::Observed(code) || field == Field::Unknown(code)
}

/// The value of a field in a frame, where one is established: destination,
/// source, type, and the two octets after the type of an untagged frame.
pub open spec fn field_value(field: Field, frame: Seq<u8>) -> Option<u64> {
    if frame.len() < ETHERNET_HEADER_LEN {
        None
    } else if field is EtherType {
        Some(big_endian(frame.subrange(12, 14)))
    } else if names_code(field, 0x00) {
        Some(big_endian(frame.subrange(0, 6)))
    } else if names_code(field, 0x01) {
        Some(big_endian(frame.subrange(6, 12)))
    } else if names_code(field, DEFAULT_EXTRACTOR) && presence(
        Field::of_code(TAG_FIELD_CODE_FIRST),
        frame,
    ) is Absent && frame.len() >= ETHERNET_HEADER_LEN + 2 {
        Some(big_endian(frame.subrange(14, 16)))
    } else {
        None
    }
}

pub fn extract_field(field: Field, frame: &[u8]) -> (r: Option<u64>)
    ensures
        r == field_value(field, frame@),
{
    if frame.len() < ETHERNET_HEADER_LEN {
        return None;
    }
    let code: u8 = match field {
        Field::EtherType => {
            return Some(big_endian_of(frame, 12, 14));
        },
        Field::Observed(n) => n,
        Field::Unknown(n) => n,
    };
    if code == 0x00 {
        Some(big_endian_of(frame, 0, 6))
    } else if code == 0x01 {
        Some(big_endian_of(frame, 6, 12))
    } else if code == DEFAULT_EXTRACTOR {
        // A tag moves everything after the type field.
        match field_presence(Field::from_code(TAG_FIELD_CODE_FIRST), frame) {
            Presence::Absent => {
                if frame.len() >= ETHERNET_HEADER_LEN + 2 {
                    Some(big_endian_of(frame, 14, 16))
                } else {
                    None
                }
            },
            _ => None,
        }
    } else {
        None
    }
}

/// The bits of a value inside a window: `bits` of them, starting at `anchor`.
pub open spec fn window(x: u64, anchor: u32, bits: u32) -> u64 {
    let at = if anchor < 63 {
        anchor
    } else {
        63
    };
    if bits >= 64 {
        x >> at
    } else {
        (x >> at) & (((1u64 << bits) - 1) as u64)
    }
}

/// What an operator says of two values over a window; `None` for one the model
/// does not act on.
pub open spec fn compares(op: Op, value: u64, operand: u64, anchor: u32, bits: u32) -> Option<
    bool,
> {
    let v = window(value, anchor, bits);
    let o = window(operand, anchor, bits);
    match op {
        Op::Never => Some(false),
        Op::Always => Some(true),
        Op::Eq => Some(v == o),
        Op::Ne => Some(v != o),
        Op::Le => Some(v <= o),
        Op::Ge => Some(v >= o),
        Op::Exists => None,
        Op::NotExists => None,
        Op::Unknown(_) => None,
    }
}

fn window_of(x: u64, anchor: u32, bits: u32) -> (r: u64)
    ensures
        r == window(x, anchor, bits),
{
    let at: u32 = if anchor < 63 {
        anchor
    } else {
        63
    };
    if bits >= 64 {
        x >> at
    } else {
        assert((1u64 << bits) >= 1) by (bit_vector)
            requires
                bits < 64,
        ;
        (x >> at) & ((1u64 << bits) - 1)
    }
}

/// Compare, over the clause's window.
pub fn compare(op: Op, value: u64, operand: u64, anchor: u32, bits: u32) -> (r: Option<bool>)
    ensures
        r == compares(op, value, operand, anchor, bits),
{
    let v: u64 = window_of(value, anchor, bits);
    let o: u64 = window_of(operand, anchor, bits);
    match op {
        Op::Never => Some(false),
        Op::Always => Some(true),
        Op::Eq => Some(v == o),
        Op::Ne => Some(v != o),
        Op::Le => Some(v <= o),
        Op::Ge => Some(v >= o),
        Op::Exists => None,
        Op::NotExists => None,
        Op::Unknown(_) => None,
    }
}

/// Why a rule could not be decided.
#[derive(Clone, Copy, Debug, PartialEq, Eq, Structural)]
pub enum Refusal {
    NotAClause,
    RanPastTheEnd,
    TooLong,
    Presence,
    Window,
    Field,
    Operator,
    NoRules,
}

impl Refusal {
    /// The refusal in words.
    pub open spec fn words(self) -> Seq<char> {
        match self {
            Refusal::NotAClause => "entry is not a clause"@,
            Refusal::RanPastTheEnd => "rule ran past the last entry"@,
            Refusal::TooLong => "rule longer than any observed one"@,
            Refusal::Presence => "field presence is not established"@,
            Refusal::Window => "clause window is empty"@,
            Refusal::Field => "field has no established frame field"@,
            Refusal::Operator => "operator is not one the model acts on"@,
            Refusal::NoRules => "no rules programmed"@,
        }
    }

    pub fn text(self) -> (r: &'static str)
        ensures
            r@ == self.words(),
    {
        match self {
            Refusal::NotAClause => "entry is not a clause",
            Refusal::RanPastTheEnd => "rule ran past the last entry",
            Refusal::TooLong => "rule longer than any observed one",
            Refusal::Presence => "field presence is not established",
            Refusal::Window => "clause window is empty",
            Refusal::Field => "field has no established frame field",
            Refusal::Operator => "operator is not one the model acts on",
            Refusal::NoRules => "no rules programmed",
        }
    }
}

/// What one clause says of one frame.
pub open spec fn clause_says(clause: Clause, frame: Seq<u8>) -> Result<bool, Refusal> {
    if clause.op is Exists || clause.op is NotExists {
        match presence(clause.field, frame) {
            Presence::Present => Ok(clause.op is Exists),
            Presence::Absent => Ok(clause.op is NotExists),
            Presence::Unknown => Err(Refusal::Presence),
        }
    } else if clause.width() == 0 {
        Err(Refusal::Window)
    } else {
        match field_value(clause.field, frame) {
            None => Err(Refusal::Field),
            Some(value) => match compares(
                clause.op,
                value,
                clause.operand,
                clause.anchor as u32,
                clause.width() as u32,
            ) {
                None => Err(Refusal::Operator),
                Some(b) => Ok(b),
            },
        }
    }
}

/// What a list of clauses says of a frame: the first refusal, or whether all
/// of them hold.
pub open spec fn clauses_say(clauses: Seq<Clause>, frame: Seq<u8>) -> Result<bool, Refusal>
    decreases clauses.len(),
{
    if clauses.len() == 0 {
        Ok(true)
    } else {
        match clauses_say(clauses.drop_last(), frame) {
            Err(e) => Err(e),
            Ok(before) => match clause_says(clauses.last(), frame) {
                Err(e) => Err(e),
                Ok(b) => Ok(before && b),
            },
        }
    }
}

/// A verdict, as values.
#[verifier::ext_equal]
pub enum Outcome {
    NoMatch,
    Refused(Refusal),
    Match { priority: u8, actions: Seq<Action> },
}

/// What a rule read from a table says of a frame.
pub open spec fn rule_says(rule: Result<RuleView, RuleError>, frame: Seq<u8>) -> Outcome {
    match rule {
        Err(RuleError::NotAClause) => Outcome::Refused(Refusal::NotAClause),
        Err(RuleError::RanPastTheEnd) => Outcome::Refused(Refusal::RanPastTheEnd),
        Err(RuleError::TooLong) => Outcome::Refused(Refusal::TooLong),
        Ok(r) => match clauses_say(r.clauses, frame) {
            Err(e) => Outcome::Refused(e),
            Ok(false) => Outcome::NoMatch,
            Ok(true) => Outcome::Match {
                priority: if r.actions.len() > 0 {
                    r.actions[0].priority
                } else {
                    0
                },
                actions: r.actions,
            },
        },
    }
}

/// The verdict of a list of rule outcomes: the first refusal stops it;
/// otherwise the highest priority that matched wins, the first of equals.
pub open spec fn overall(outcomes: Seq<Outcome>) -> Outcome
    decreases outcomes.len(),
{
    if outcomes.len() == 0 {
        Outcome::NoMatch
    } else {
        let before = overall(outcomes.drop_last());
        match before {
            Outcome::Refused(_) => before,
            Outcome::NoMatch => outcomes.last(),
            Outcome::Match { priority: p, .. } => match outcomes.last() {
                Outcome::NoMatch => before,
                Outcome::Refused(_) => outcomes.last(),
                Outcome::Match { priority: q, .. } => if q > p {
                    outcomes.last()
                } else {
                    before
                },
            },
        }
    }
}

/// What the classifier concluded.
#[derive(Clone, Debug, PartialEq, Eq)]
pub enum Verdict {
    /// No rule matched.
    NoMatch,
    /// A rule could neither match nor be ruled out.
    Undecidable { reason: &'static str },
    /// A rule matched, and here is everything it says to do.
    Match { priority: u8, actions: Vec<Action> },
}

impl Verdict {
    /// Whether the verdict states an outcome.
    pub open spec fn states(self, outcome: Outcome) -> bool {
        match outcome {
            Outcome::NoMatch => self is NoMatch,
            Outcome::Refused(why) => self matches Verdict::Undecidable { reason } && reason@
                == why.words(),
            Outcome::Match { priority, actions } => self matches Verdict::Match {
                priority: p,
                actions: a,
            } && p == priority && a@ == actions,
        }
    }

    /// The queue the verdict sends a frame to, if it names one.
    pub open spec fn named_queue(self) -> Option<u8> {
        match self {
            Verdict::Match { priority: _, actions } => crate::soc::lue::rule::first_queue(actions@),
            _ => None,
        }
    }

    pub fn queue(&self) -> (r: Option<u8>)
        ensures
            r == self.named_queue(),
    {
        match self {
            Verdict::Match { priority: _, actions } => {
                assert(actions@.skip(0) =~= actions@);
                for i in 0..actions.len()
                    invariant
                        self.named_queue() == crate::soc::lue::rule::first_queue(actions@.skip(i as int)),
                {
                    assert(actions@.skip(i as int).skip(1) =~= actions@.skip(i + 1));
                    if let Some(queue) = actions[i].destination_queue() {
                        return Some(queue);
                    }
                }
                None
            },
            _ => None,
        }
    }
}

/// The queue an outcome sends a frame to, if it names one.
pub open spec fn queue_of(outcome: Outcome) -> Option<u8> {
    match outcome {
        Outcome::Match { priority: _, actions } => crate::soc::lue::rule::first_queue(actions),
        _ => None,
    }
}

/// How often the engine decided, and why it refused.
#[derive(Clone, Copy, Debug, PartialEq, Eq, Structural)]
pub struct EngineCounters {
    pub frames_classified: u64,
    pub matched: u64,
    pub no_match: u64,
    /// A clause over a field code with no established frame field.
    pub undecidable_field: u64,
    /// A clause asking whether a field is there, on a tagged frame.
    pub undecidable_presence: u64,
    /// A clause whose two window boundaries leave no bits to compare.
    pub undecidable_window: u64,
    /// A clause with an operator the model will not act on.
    pub undecidable_operator: u64,
    /// An entry the decoder could not read as a clause.
    pub undecidable_entry: u64,
    /// Rules that ran off the end of their table without terminating.
    pub unterminated_rules: u64,
    /// The bound table held no rules at all.
    pub no_rules: u64,
}

impl Default for EngineCounters {
    fn default() -> (r: Self)
        ensures
            r == EngineCounters::zero(),
    {
        EngineCounters {
            frames_classified: 0,
            matched: 0,
            no_match: 0,
            undecidable_field: 0,
            undecidable_presence: 0,
            undecidable_window: 0,
            undecidable_operator: 0,
            undecidable_entry: 0,
            unterminated_rules: 0,
            no_rules: 0,
        }
    }
}

impl EngineCounters {
    pub open spec fn zero() -> EngineCounters {
        EngineCounters {
            frames_classified: 0,
            matched: 0,
            no_match: 0,
            undecidable_field: 0,
            undecidable_presence: 0,
            undecidable_window: 0,
            undecidable_operator: 0,
            undecidable_entry: 0,
            unterminated_rules: 0,
            no_rules: 0,
        }
    }

    /// The verdicts counted.
    pub open spec fn verdicts(self) -> int {
        self.matched + self.no_match + self.undecidable_field + self.undecidable_presence
            + self.undecidable_window + self.undecidable_operator + self.undecidable_entry
            + self.unterminated_rules + self.no_rules
    }

    /// Whether every frame left exactly one verdict behind.
    pub open spec fn balanced(self) -> bool {
        self.frames_classified == self.verdicts()
    }

    /// Whether the counter of a refusal can still count.
    pub open spec fn can_refuse(self, why: Refusal) -> bool {
        match why {
            Refusal::NotAClause => self.undecidable_entry < u64::MAX,
            Refusal::RanPastTheEnd => self.unterminated_rules < u64::MAX,
            Refusal::TooLong => self.unterminated_rules < u64::MAX,
            Refusal::Presence => self.undecidable_presence < u64::MAX,
            Refusal::Window => self.undecidable_window < u64::MAX,
            Refusal::Field => self.undecidable_field < u64::MAX,
            Refusal::Operator => self.undecidable_operator < u64::MAX,
            Refusal::NoRules => self.no_rules < u64::MAX,
        }
    }

    /// Whether the counter of an outcome can still count.
    pub open spec fn can_tally(self, outcome: Outcome) -> bool {
        match outcome {
            Outcome::NoMatch => self.no_match < u64::MAX,
            Outcome::Refused(why) => self.can_refuse(why),
            Outcome::Match { .. } => self.matched < u64::MAX,
        }
    }

    /// Whether the counters one classified frame moves can still count.
    pub open spec fn can_classify(self, outcome: Outcome) -> bool {
        self.frames_classified < u64::MAX && self.can_tally(outcome)
    }

    /// The counters after a refusal.
    pub open spec fn refused(self, why: Refusal) -> EngineCounters {
        match why {
            Refusal::NotAClause => EngineCounters {
                undecidable_entry: (self.undecidable_entry + 1) as u64,
                ..self
            },
            Refusal::RanPastTheEnd => EngineCounters {
                unterminated_rules: (self.unterminated_rules + 1) as u64,
                ..self
            },
            Refusal::TooLong => EngineCounters {
                unterminated_rules: (self.unterminated_rules + 1) as u64,
                ..self
            },
            Refusal::Presence => EngineCounters {
                undecidable_presence: (self.undecidable_presence + 1) as u64,
                ..self
            },
            Refusal::Window => EngineCounters {
                undecidable_window: (self.undecidable_window + 1) as u64,
                ..self
            },
            Refusal::Field => EngineCounters {
                undecidable_field: (self.undecidable_field + 1) as u64,
                ..self
            },
            Refusal::Operator => EngineCounters {
                undecidable_operator: (self.undecidable_operator + 1) as u64,
                ..self
            },
            Refusal::NoRules => EngineCounters { no_rules: (self.no_rules + 1) as u64, ..self },
        }
    }

    /// The counters after an outcome.
    pub open spec fn tallied(self, outcome: Outcome) -> EngineCounters {
        match outcome {
            Outcome::NoMatch => EngineCounters { no_match: (self.no_match + 1) as u64, ..self },
            Outcome::Refused(why) => self.refused(why),
            Outcome::Match { .. } => EngineCounters { matched: (self.matched + 1) as u64, ..self },
        }
    }

    /// The counters after one frame was classified.
    pub open spec fn classified(self, outcome: Outcome) -> EngineCounters {
        EngineCounters {
            frames_classified: (self.frames_classified + 1) as u64,
            ..self
        }.tallied(outcome)
    }

    /// Whether two tallies add up without overflow.
    pub open spec fn can_add(self, other: EngineCounters) -> bool {
        &&& self.frames_classified + other.frames_classified <= u64::MAX
        &&& self.matched + other.matched <= u64::MAX
        &&& self.no_match + other.no_match <= u64::MAX
        &&& self.undecidable_field + other.undecidable_field <= u64::MAX
        &&& self.undecidable_presence + other.undecidable_presence <= u64::MAX
        &&& self.undecidable_window + other.undecidable_window <= u64::MAX
        &&& self.undecidable_operator + other.undecidable_operator <= u64::MAX
        &&& self.undecidable_entry + other.undecidable_entry <= u64::MAX
        &&& self.unterminated_rules + other.unterminated_rules <= u64::MAX
        &&& self.no_rules + other.no_rules <= u64::MAX
    }

    /// Two tallies, field by field.
    pub open spec fn sum(self, other: EngineCounters) -> EngineCounters {
        EngineCounters {
            frames_classified: (self.frames_classified + other.frames_classified) as u64,
            matched: (self.matched + other.matched) as u64,
            no_match: (self.no_match + other.no_match) as u64,
            undecidable_field: (self.undecidable_field + other.undecidable_field) as u64,
            undecidable_presence: (self.undecidable_presence + other.undecidable_presence) as u64,
            undecidable_window: (self.undecidable_window + other.undecidable_window) as u64,
            undecidable_operator: (self.undecidable_operator + other.undecidable_operator) as u64,
            undecidable_entry: (self.undecidable_entry + other.undecidable_entry) as u64,
            unterminated_rules: (self.unterminated_rules + other.unterminated_rules) as u64,
            no_rules: (self.no_rules + other.no_rules) as u64,
        }
    }

    pub fn verdicts_accounted_for(&self) -> (r: bool)
        requires
            self.verdicts() <= u64::MAX,
        ensures
            r == self.balanced(),
    {
        self.frames_classified == self.matched + self.no_match + self.undecidable_field
            + self.undecidable_presence + self.undecidable_window + self.undecidable_operator
            + self.undecidable_entry + self.unterminated_rules + self.no_rules
    }

    /// Fold another tally into this one, field by field.
    pub fn add(&mut self, other: &Self)
        requires
            old(self).can_add(*other),
        ensures
            *final(self) == old(self).sum(*other),
    {
        self.frames_classified = self.frames_classified + other.frames_classified;
        self.matched = self.matched + other.matched;
        self.no_match = self.no_match + other.no_match;
        self.undecidable_field = self.undecidable_field + other.undecidable_field;
        self.undecidable_presence = self.undecidable_presence + other.undecidable_presence;
        self.undecidable_window = self.undecidable_window + other.undecidable_window;
        self.undecidable_operator = self.undecidable_operator + other.undecidable_operator;
        self.undecidable_entry = self.undecidable_entry + other.undecidable_entry;
        self.unterminated_rules = self.unterminated_rules + other.unterminated_rules;
        self.no_rules = self.no_rules + other.no_rules;
    }

    fn count_refusal(&mut self, why: Refusal)
        requires
            old(self).can_refuse(why),
        ensures
            *final(self) == old(self).refused(why),
    {
        match why {
            Refusal::NotAClause => {
                self.undecidable_entry = self.undecidable_entry + 1;
            },
            Refusal::RanPastTheEnd => {
                self.unterminated_rules = self.unterminated_rules + 1;
            },
            Refusal::TooLong => {
                self.unterminated_rules = self.unterminated_rules + 1;
            },
            Refusal::Presence => {
                self.undecidable_presence = self.undecidable_presence + 1;
            },
            Refusal::Window => {
                self.undecidable_window = self.undecidable_window + 1;
            },
            Refusal::Field => {
                self.undecidable_field = self.undecidable_field + 1;
            },
            Refusal::Operator => {
                self.undecidable_operator = self.undecidable_operator + 1;
            },
            Refusal::NoRules => {
                self.no_rules = self.no_rules + 1;
            },
        }
    }
}

/// Where a rule starts.
#[derive(Clone, Copy, Debug, PartialEq, Eq, Structural)]
pub struct RuleStart {
    pub table: u8,
    pub index: u16,
}

/// What each of a list of rules says of a frame.
pub open spec fn outcomes(port: PortState, rules: Seq<RuleStart>, frame: Seq<u8>) -> Seq<Outcome> {
    Seq::new(
        rules.len(),
        |i: int| rule_says(port.rule_at(rules[i].table, rules[i].index), frame),
    )
}

pub struct Engine;

impl Engine {
    fn decide_clause(clause: &Clause, frame: &[u8]) -> (r: Result<bool, Refusal>)
        ensures
            r == clause_says(*clause, frame@),
    {
        let wants: Option<bool> = match clause.op {
            Op::Exists => Some(true),
            Op::NotExists => Some(false),
            _ => None,
        };
        // Presence is not a comparison: no window, no operand, no value.
        if let Some(wanted) = wants {
            return match field_presence(clause.field, frame) {
                Presence::Present => Ok(wanted),
                Presence::Absent => Ok(!wanted),
                Presence::Unknown => Err(Refusal::Presence),
            };
        }
        let bits: u32 = clause.compared_bits();
        if bits == 0 {
            return Err(Refusal::Window);
        }
        match extract_field(clause.field, frame) {
            None => Err(Refusal::Field),
            Some(value) => {
                match compare(clause.op, value, clause.operand, clause.anchor as u32, bits) {
                    None => Err(Refusal::Operator),
                    Some(b) => Ok(b),
                }
            },
        }
    }

    /// One clause against one frame. `Err` carries why it could not be
    /// decided.
    pub fn test_clause(clause: &Clause, frame: &[u8]) -> (r: Result<bool, &'static str>)
        ensures
            match clause_says(*clause, frame@) {
                Ok(b) => r == Ok::<bool, &'static str>(b),
                Err(why) => r matches Err(s) && s@ == why.words(),
            },
    {
        match Self::decide_clause(clause, frame) {
            Ok(b) => Ok(b),
            Err(why) => Err(why.text()),
        }
    }

    /// Evaluate one rule against a frame.
    pub fn evaluate_rule(
        port: &LuePort,
        start: RuleStart,
        frame: &[u8],
        counters: &mut EngineCounters,
    ) -> (r: Verdict)
        requires
            old(counters).can_tally(
                rule_says(port@.rule_at(start.table, start.index), frame@),
            ),
        ensures
            ({
                let says = rule_says(port@.rule_at(start.table, start.index), frame@);
                r.states(says) && *final(counters) == old(counters).tallied(says)
            }),
    {
        let rule = match port.rule(start.table, start.index).result {
            Ok(rule) => rule,
            Err(e) => {
                let why = match e {
                    RuleError::NotAClause => Refusal::NotAClause,
                    RuleError::RanPastTheEnd => Refusal::RanPastTheEnd,
                    RuleError::TooLong => Refusal::TooLong,
                };
                counters.count_refusal(why);
                return Verdict::Undecidable { reason: why.text() };
            },
        };
        let n: usize = rule.clauses.len();
        let mut all_matched: bool = true;
        let mut refusal: Option<Refusal> = None;
        assert(rule.clauses@.take(0) =~= Seq::<Clause>::empty());
        let mut i: usize = 0;
        while i < n && refusal.is_none()
            invariant
                n == rule.clauses@.len(),
                i <= n,
                refusal is None ==> clauses_say(rule.clauses@.take(i as int), frame@) == Ok::<
                    bool,
                    Refusal,
                >(all_matched),
                refusal matches Some(why) ==> clauses_say(rule.clauses@, frame@) == Err::<
                    bool,
                    Refusal,
                >(why),
            decreases n - i,
        {
            proof {
                assert(rule.clauses@.take(i + 1).drop_last() =~= rule.clauses@.take(i as int));
                assert(rule.clauses@.take(i + 1).last() == rule.clauses@[i as int]);
            }
            match Self::decide_clause(&rule.clauses[i], frame) {
                Err(why) => {
                    refusal = Some(why);
                    proof {
                        lemma_refusal_stands(rule.clauses@, frame@, i + 1, why);
                    }
                },
                Ok(matched) => {
                    all_matched = all_matched && matched;
                },
            }
            i = i + 1;
        }
        assert(rule.clauses@.take(n as int) =~= rule.clauses@);
        if let Some(why) = refusal {
            counters.count_refusal(why);
            return Verdict::Undecidable { reason: why.text() };
        }
        if all_matched {
            counters.matched = counters.matched + 1;
            // Every action of a rule carries the same tag, so the first
            // one's stands for the rule's.
            let priority: u8 = if rule.actions.len() > 0 {
                rule.actions[0].priority
            } else {
                0
            };
            Verdict::Match { priority, actions: rule.actions }
        } else {
            counters.no_match = counters.no_match + 1;
            Verdict::NoMatch
        }
    }

    /// Evaluate every rule and take the highest priority that matched.
    ///
    /// An undecidable rule stops the whole classification.
    pub fn classify(
        port: &LuePort,
        rules: &[RuleStart],
        frame: &[u8],
        counters: &mut EngineCounters,
    ) -> (r: Verdict)
        requires
            old(counters).can_classify(overall(outcomes(port@, rules@, frame@))),
        ensures
            ({
                let says = overall(outcomes(port@, rules@, frame@));
                r.states(says) && *final(counters) == old(counters).classified(says)
            }),
    {
        counters.frames_classified = counters.frames_classified + 1;
        let ghost entered = *counters;
        let n: usize = rules.len();
        let mut best: Option<(u8, Vec<Action>)> = None;
        let ghost all = outcomes(port@, rules@, frame@);
        assert(all.take(0) =~= Seq::<Outcome>::empty());
        for i in 0..n
            invariant
                n == rules@.len(),
                all == outcomes(port@, rules@, frame@),
                *counters == entered,
                entered == (EngineCounters {
                    frames_classified: (old(counters).frames_classified + 1) as u64,
                    ..*old(counters)
                }),
                old(counters).can_classify(overall(all)),
                overall(all.take(i as int)) == (match best {
                    None => Outcome::NoMatch,
                    Some((p, a)) => Outcome::Match { priority: p, actions: a@ },
                }),
        {
            proof {
                assert(all.take(i + 1).drop_last() =~= all.take(i as int));
                assert(all.take(i + 1).last() == all[i as int]);
            }
            let mut per_rule = EngineCounters::default();
            match Self::evaluate_rule(port, rules[i], frame, &mut per_rule) {
                Verdict::Match { priority, actions } => {
                    let better: bool = match &best {
                        None => true,
                        Some((p, _)) => priority > *p,
                    };
                    if better {
                        best = Some((priority, actions));
                    }
                },
                Verdict::NoMatch => {},
                Verdict::Undecidable { reason } => {
                    proof {
                        lemma_refused_rule_stands(all, i + 1);
                        if let Ok(rule) = port@.rule_at(rules@[i as int].table, rules@[i as int].index) {
                            lemma_clauses_never_lack_rules(rule.clauses, frame@);
                        }
                    }
                    // Carry the per-rule tally so the reason survives.
                    counters.undecidable_field = counters.undecidable_field
                        + per_rule.undecidable_field;
                    counters.undecidable_presence = counters.undecidable_presence
                        + per_rule.undecidable_presence;
                    counters.undecidable_window = counters.undecidable_window
                        + per_rule.undecidable_window;
                    counters.undecidable_operator = counters.undecidable_operator
                        + per_rule.undecidable_operator;
                    counters.undecidable_entry = counters.undecidable_entry
                        + per_rule.undecidable_entry;
                    counters.unterminated_rules = counters.unterminated_rules
                        + per_rule.unterminated_rules;
                    return Verdict::Undecidable { reason };
                },
            }
        }
        assert(all.take(n as int) =~= all);
        match best {
            Some((priority, actions)) => {
                counters.matched = counters.matched + 1;
                Verdict::Match { priority, actions }
            },
            None => {
                counters.no_match = counters.no_match + 1;
                Verdict::NoMatch
            },
        }
    }
}

proof fn lemma_refusal_stands(clauses: Seq<Clause>, frame: Seq<u8>, n: int, why: Refusal)
    requires
        0 <= n <= clauses.len(),
        clauses_say(clauses.take(n), frame) == Err::<bool, Refusal>(why),
    ensures
        clauses_say(clauses, frame) == Err::<bool, Refusal>(why),
    decreases clauses.len() - n,
{
    if n == clauses.len() {
        assert(clauses.take(n) =~= clauses);
    } else {
        assert(clauses.take(n + 1).drop_last() =~= clauses.take(n));
        lemma_refusal_stands(clauses, frame, n + 1, why);
    }
}

proof fn lemma_clauses_never_lack_rules(clauses: Seq<Clause>, frame: Seq<u8>)
    ensures
        clauses_say(clauses, frame) != Err::<bool, Refusal>(Refusal::NoRules),
    decreases clauses.len(),
{
    if clauses.len() > 0 {
        lemma_clauses_never_lack_rules(clauses.drop_last(), frame);
    }
}

proof fn lemma_refused_rule_stands(all: Seq<Outcome>, n: int)
    requires
        0 <= n <= all.len(),
        overall(all.take(n)) is Refused,
    ensures
        overall(all) == overall(all.take(n)),
    decreases all.len() - n,
{
    if n == all.len() {
        assert(all.take(n) =~= all);
    } else {
        assert(all.take(n + 1).drop_last() =~= all.take(n));
        lemma_refused_rule_stands(all, n + 1);
    }
}

/// An undecidable rule stops the classification: the first one is the verdict,
/// and no verdict is reached past it.
pub proof fn law_first_undecidable_rule_is_the_verdict(all: Seq<Outcome>, i: int)
    requires
        0 <= i < all.len(),
        all[i] is Refused,
        forall|j: int| 0 <= j < i ==> !(#[trigger] all[j] is Refused),
    ensures
        overall(all) == all[i],
{
    lemma_no_refusal(all.take(i));
    assert(all.take(i + 1).drop_last() =~= all.take(i));
    assert(all.take(i + 1).last() == all[i]);
    lemma_refused_rule_stands(all, i + 1);
}

proof fn lemma_no_refusal(all: Seq<Outcome>)
    requires
        forall|j: int| 0 <= j < all.len() ==> !(#[trigger] all[j] is Refused),
    ensures
        !(overall(all) is Refused),
    decreases all.len(),
{
    if all.len() > 0 {
        assert forall|j: int| 0 <= j < all.drop_last().len() implies !(
        #[trigger] all.drop_last()[j] is Refused) by {
            assert(all[j] == all.drop_last()[j]);
        }
        lemma_no_refusal(all.drop_last());
        assert(all.last() == all[all.len() - 1]);
    }
}

/// Whether no outcome of a list is a match of a priority or a higher one.
pub open spec fn none_as_high(all: Seq<Outcome>, priority: u8) -> bool {
    forall|j: int|
        0 <= j < all.len() ==> (#[trigger] all[j] matches Outcome::Match { priority: q, actions: _ }
            ==> q < priority)
}

/// With every rule decided, the highest priority wins, and the earliest among
/// equals: no matching rule has a higher one, and none before the winner has as
/// high a one. A frame that no rule matches is a miss.
pub proof fn law_highest_priority_wins(all: Seq<Outcome>)
    requires
        forall|j: int| 0 <= j < all.len() ==> !(#[trigger] all[j] is Refused),
    ensures
        match overall(all) {
            Outcome::Match { priority, actions } => {
                &&& exists|i: int|
                    0 <= i < all.len() && #[trigger] all[i] == overall(all) && none_as_high(
                        all.take(i),
                        priority,
                    )
                &&& forall|j: int|
                    0 <= j < all.len() ==> (#[trigger] all[j] matches Outcome::Match {
                        priority: q,
                        actions: _,
                    } ==> q <= priority)
            },
            Outcome::NoMatch => forall|j: int| 0 <= j < all.len() ==> #[trigger] all[j] is NoMatch,
            Outcome::Refused(_) => false,
        },
    decreases all.len(),
{
    lemma_no_refusal(all);
    if all.len() > 0 {
        let init = all.drop_last();
        assert forall|j: int| 0 <= j < init.len() implies !(#[trigger] init[j] is Refused) by {
            assert(all[j] == init[j]);
        }
        law_highest_priority_wins(init);
        let last = all.last();
        assert(last == all[all.len() - 1]);
        assert forall|j: int| 0 <= j < all.len() implies (#[trigger] all[j]) == (if j
            < init.len() {
            init[j]
        } else {
            last
        }) by {}
        match overall(all) {
            Outcome::Match { priority, actions } => {
                let kept = match overall(init) {
                    Outcome::Match { priority: p, actions: _ } => p >= priority,
                    _ => false,
                };
                if kept {
                    assert(overall(all) == overall(init));
                    let i = choose|i: int|
                        0 <= i < init.len() && #[trigger] init[i] == overall(init) && none_as_high(
                            init.take(i),
                            priority,
                        );
                    assert(all[i] == overall(all));
                    assert(all.take(i) =~= init.take(i));
                } else {
                    assert(overall(all) == last);
                    assert(all.take(all.len() - 1) =~= init);
                    assert(all[all.len() - 1] == overall(all));
                }
            },
            _ => {},
        }
    }
}

/// Every frame classified leaves exactly one verdict behind.
pub proof fn law_verdicts_stay_accounted_for(c: EngineCounters, outcome: Outcome)
    requires
        c.frames_classified < u64::MAX,
        c.balanced(),
    ensures
        c.can_classify(outcome),
        c.classified(outcome).balanced(),
        c.classified(outcome).frames_classified == c.frames_classified + 1,
{
}

/// Adding up tallies that account for their frames gives one that does.
pub proof fn law_balanced_tallies_add_up(a: EngineCounters, b: EngineCounters)
    requires
        a.can_add(b),
        a.balanced(),
        b.balanced(),
    ensures
        a.sum(b).balanced(),
{
}

/// Chained clauses are an AND: a rule matches when every clause holds.
pub proof fn law_every_clause_must_hold(clauses: Seq<Clause>, frame: Seq<u8>)
    ensures
        clauses_say(clauses, frame) == Ok::<bool, Refusal>(true) <==> forall|i: int|
            0 <= i < clauses.len() ==> #[trigger] clause_says(clauses[i], frame) == Ok::<
                bool,
                Refusal,
            >(true),
    decreases clauses.len(),
{
    if clauses.len() > 0 {
        let init = clauses.drop_last();
        law_every_clause_must_hold(init, frame);
        assert(forall|i: int| 0 <= i < init.len() ==> init[i] == clauses[i]);
        assert(clauses.last() == clauses[clauses.len() - 1]);
        if clauses_say(clauses, frame) == Ok::<bool, Refusal>(true) {
            assert forall|i: int| 0 <= i < clauses.len() implies #[trigger] clause_says(
                clauses[i],
                frame,
            ) == Ok::<bool, Refusal>(true) by {
                if i < init.len() {
                    assert(clause_says(init[i], frame) == Ok::<bool, Refusal>(true));
                }
            }
        } else {
            if forall|i: int|
                0 <= i < clauses.len() ==> #[trigger] clause_says(clauses[i], frame) == Ok::<
                    bool,
                    Refusal,
                >(true) {
                assert forall|i: int| 0 <= i < init.len() implies #[trigger] clause_says(
                    init[i],
                    frame,
                ) == Ok::<bool, Refusal>(true) by {
                    assert(clause_says(clauses[i], frame) == Ok::<bool, Refusal>(true));
                }
                assert(clause_says(clauses[clauses.len() - 1], frame) == Ok::<bool, Refusal>(true));
            }
        }
    }
}

/// The bits below the anchor take no part in a comparison.
pub proof fn law_bits_below_the_anchor_do_not_count(
    op: Op,
    value: u64,
    other: u64,
    operand: u64,
    anchor: u32,
    bits: u32,
)
    requires
        anchor < 64,
        value >> anchor == other >> anchor,
    ensures
        compares(op, value, operand, anchor, bits) == compares(op, other, operand, anchor, bits),
{
}

/// On an untagged frame both tag codes are absent, so a rule that asks for
/// their absence is decided, and one that asks for their presence too.
pub proof fn law_untagged_frames_decide_tag_presence(clause: Clause, frame: Seq<u8>)
    requires
        frame.len() >= ETHERNET_HEADER_LEN,
        ethertype(frame) != TAG_ETHERTYPE_CUSTOMER,
        ethertype(frame) != TAG_ETHERTYPE_SERVICE,
        clause.field.as_code() == TAG_FIELD_CODE_FIRST || clause.field.as_code()
            == TAG_FIELD_CODE_SECOND,
        clause.op is Exists || clause.op is NotExists,
    ensures
        clause_says(clause, frame) == Ok::<bool, Refusal>(clause.op is NotExists),
{
}

/// The number that `bits` bits of a value make, from bit `at` on.
pub open spec fn run_of_bits(x: u64, at: nat, bits: nat) -> nat {
    (x as nat / vstd::arithmetic::power2::pow2(at)) % vstd::arithmetic::power2::pow2(bits)
}

/// Where a window starts: at its anchor, bit 63 at the latest.
pub open spec fn first_bit(anchor: u32) -> nat {
    if anchor < 63 {
        anchor as nat
    } else {
        63
    }
}

proof fn lemma_window_is_a_number(x: u64, anchor: u32, bits: u32)
    requires
        bits <= 64,
    ensures
        window(x, anchor, bits) == run_of_bits(x, first_bit(anchor), bits as nat),
{
    let at = first_bit(anchor);
    vstd::bits::lemma_u64_shr_is_div(x, at as u64);
    vstd::arithmetic::power2::lemma2_to64();
    vstd::arithmetic::power2::lemma2_to64_rest();
    vstd::arithmetic::power2::lemma_pow2_pos(at);
    let y = x >> at;
    if bits < 64 {
        let n = bits as nat;
        vstd::arithmetic::power2::lemma_pow2_pos(n);
        vstd::bits::lemma_u64_pow2_no_overflow(n);
        vstd::bits::lemma_u64_shl_is_mul(1, bits as u64);
        vstd::bits::lemma_u64_low_bits_mask_is_mod(y, n);
    } else {
        assert(y < vstd::arithmetic::power2::pow2(64));
        vstd::arithmetic::div_mod::lemma_small_mod(
            y as nat,
            vstd::arithmetic::power2::pow2(64),
        );
    }
}

/// Whether a value has a bit.
pub open spec fn has_bit(x: u64, k: u64) -> bool {
    (x >> k) & 1 == 1
}

proof fn lemma_window_step(x: u64, y: u64, at: u64, n: u64, k: u64)
    by (bit_vector)
    requires
        at < 64,
        n < 63,
    ensures
        (x >> at) & (((1u64 << (n + 1) as u64) - 1) as u64) == (y >> at) & (((1u64 << (n + 1) as u64)
            - 1) as u64) <==> (x >> at) & (((1u64 << n) - 1) as u64) == (y >> at) & (((1u64 << n)
            - 1) as u64) && (at + n < 64 ==> (x >> (at + n) as u64) & 1 == (y >> (at + n) as u64)
            & 1),
        x >> at == y >> at <==> (x >> at) & (((1u64 << 63u64) - 1) as u64) == (y >> at) & (((1u64
            << 63u64) - 1) as u64) && (at == 0 ==> (x >> 63u64) & 1 == (y >> 63u64) & 1),
        (x >> at) & (((1u64 << 0u64) - 1) as u64) == 0,
        (x >> k) & 1 == 0 || (x >> k) & 1 == 1,
{
}

/// Whether two values have the same bits from one on, up to another.
pub open spec fn same_bits(x: u64, y: u64, lo: int, hi: int) -> bool {
    forall|k: u64| lo <= k < hi && k < 64 ==> (#[trigger] has_bit(x, k) <==> has_bit(y, k))
}

proof fn lemma_equal_windows_share_bits(x: u64, y: u64, at: u64, n: u64)
    requires
        at < 64,
        n < 64,
    ensures
        (x >> at) & (((1u64 << n) - 1) as u64) == (y >> at) & (((1u64 << n) - 1) as u64)
            <==> same_bits(x, y, at as int, at + n),
    decreases n,
{
    if n == 0 {
        lemma_window_step(x, y, at, 0, 0);
        lemma_window_step(y, x, at, 0, 0);
    } else {
        let m = (n - 1) as u64;
        lemma_equal_windows_share_bits(x, y, at, m);
        lemma_window_step(x, y, at, m, (at + m) as u64);
        lemma_window_step(y, x, at, m, (at + m) as u64);
        if at + m < 64 {
            let k = (at + m) as u64;
            assert(has_bit(x, k) <==> (x >> k) & 1 == 1);
            if same_bits(x, y, at as int, at + n) {
                assert(same_bits(x, y, at as int, at + m));
                assert(has_bit(x, k) <==> has_bit(y, k));
            }
        }
    }
}

/// Equality is agreement on every bit of the window, and inequality is a bit of
/// the window that differs: each is the negation of the other.
pub proof fn law_equality_goes_bit_by_bit(value: u64, operand: u64, anchor: u32, bits: u32)
    requires
        anchor < 64,
        0 < bits <= 64,
    ensures
        ({
            let agree = forall|k: u64|
                anchor <= k < anchor + bits && k < 64 ==> (#[trigger] has_bit(value, k)
                    <==> has_bit(operand, k));
            &&& compares(Op::Eq, value, operand, anchor, bits) == Some(agree)
            &&& compares(Op::Ne, value, operand, anchor, bits) == Some(!agree)
        }),
{
    let (x, y, at) = (value, operand, anchor as u64);
    if bits < 64 {
        lemma_equal_windows_share_bits(x, y, at, bits as u64);
    } else {
        lemma_equal_windows_share_bits(x, y, at, 63);
        lemma_window_step(x, y, at, 0, 63);
        lemma_window_step(y, x, at, 0, 63);
        assert(has_bit(x, 63) <==> (x >> 63u64) & 1 == 1);
        if same_bits(x, y, at as int, at + 64) {
            assert(has_bit(x, 63) <==> has_bit(y, 63));
        }
    }
    assert(same_bits(x, y, anchor as int, anchor + bits) <==> forall|k: u64|
        anchor <= k < anchor + bits && k < 64 ==> (#[trigger] has_bit(x, k) <==> has_bit(y, k)));
}

/// The ordering operators order the numbers the windows hold. The constant ones
/// look at nothing, and an operator that is not a comparison says nothing.
pub proof fn law_operators_compare_numbers(
    value: u64,
    operand: u64,
    anchor: u32,
    bits: u32,
    code: u8,
)
    requires
        bits <= 64,
    ensures
        ({
            let v = run_of_bits(value, first_bit(anchor), bits as nat);
            let o = run_of_bits(operand, first_bit(anchor), bits as nat);
            &&& compares(Op::Eq, value, operand, anchor, bits) == Some(v == o)
            &&& compares(Op::Ne, value, operand, anchor, bits) == Some(v != o)
            &&& compares(Op::Le, value, operand, anchor, bits) == Some(v <= o)
            &&& compares(Op::Ge, value, operand, anchor, bits) == Some(v >= o)
            &&& compares(Op::Never, value, operand, anchor, bits) == Some(false)
            &&& compares(Op::Always, value, operand, anchor, bits) == Some(true)
            &&& compares(Op::Exists, value, operand, anchor, bits) is None
            &&& compares(Op::NotExists, value, operand, anchor, bits) is None
            &&& compares(Op::Unknown(code), value, operand, anchor, bits) is None
        }),
{
    lemma_window_is_a_number(value, anchor, bits);
    lemma_window_is_a_number(operand, anchor, bits);
}

proof fn lemma_two_octets(frame: Seq<u8>, at: int)
    requires
        0 <= at,
        at + 2 <= frame.len(),
    ensures
        big_endian(frame.subrange(at, at + 2)) == frame[at] * 0x100 + frame[at + 1],
{
    let s = frame.subrange(at, at + 2);
    reveal_with_fuel(big_endian, 3);
    assert(s.drop_last().drop_last() =~= Seq::<u8>::empty());
    crate::bits::lemma_octets(frame[at], 0, 0, 0, 0);
    crate::bits::lemma_octets(frame[at + 1], 0, 0, 0, frame[at] as u64);
    assert(s.drop_last().last() == frame[at] && s.last() == frame[at + 1]);
}

proof fn lemma_six_octets(frame: Seq<u8>, at: int)
    requires
        0 <= at,
        at + 6 <= frame.len(),
    ensures
        big_endian(frame.subrange(at, at + 6)) == frame[at] * 0x100_0000_0000 + frame[at + 1]
            * 0x1_0000_0000 + frame[at + 2] * 0x100_0000 + frame[at + 3] * 0x1_0000 + frame[at + 4]
            * 0x100 + frame[at + 5],
{
    lemma_two_octets(frame, at);
    let two = frame.subrange(at, at + 2);
    let three = frame.subrange(at, at + 3);
    let four = frame.subrange(at, at + 4);
    let five = frame.subrange(at, at + 5);
    let six = frame.subrange(at, at + 6);
    assert(three.drop_last() =~= two && four.drop_last() =~= three && five.drop_last() =~= four
        && six.drop_last() =~= five);
    crate::bits::lemma_octets(frame[at + 2], 0, 0, 0, big_endian(two));
    crate::bits::lemma_octets(frame[at + 3], 0, 0, 0, big_endian(three));
    crate::bits::lemma_octets(frame[at + 4], 0, 0, 0, big_endian(four));
    crate::bits::lemma_octets(frame[at + 5], 0, 0, 0, big_endian(five));
}

/// The fields of a frame: code 0 is its destination, code 1 its source, code 2
/// its type, each a big-endian number, and on an untagged frame code 16 is the
/// two octets after the type. A frame without a whole header has none of them,
/// and no other code has a value.
pub proof fn law_fields_are_where_ethernet_puts_them(code: u8, frame: Seq<u8>)
    requires
        code < 64,
    ensures
        ({
            let value = field_value(Field::of_code(code), frame);
            let tagged = frame[12] == 0x81 && frame[13] == 0x00 || frame[12] == 0x88 && frame[13]
                == 0xA8;
            &&& frame.len() < 14 ==> value is None
            &&& frame.len() >= 14 && code == 0 ==> value == Some(
                (frame[0] * 0x100_0000_0000 + frame[1] * 0x1_0000_0000 + frame[2] * 0x100_0000
                    + frame[3] * 0x1_0000 + frame[4] * 0x100 + frame[5]) as u64,
            )
            &&& frame.len() >= 14 && code == 1 ==> value == Some(
                (frame[6] * 0x100_0000_0000 + frame[7] * 0x1_0000_0000 + frame[8] * 0x100_0000
                    + frame[9] * 0x1_0000 + frame[10] * 0x100 + frame[11]) as u64,
            )
            &&& frame.len() >= 14 && code == 2 ==> value == Some(
                (frame[12] * 0x100 + frame[13]) as u64,
            )
            &&& frame.len() >= 16 && code == 16 && !tagged ==> value == Some(
                (frame[14] * 0x100 + frame[15]) as u64,
            )
            &&& code == 16 && (frame.len() < 16 || tagged) ==> value is None
            &&& code > 2 && code != 16 ==> value is None
        }),
{
    super::rule::lemma_code_bits(code);
    super::rule::lemma_code_bits(3);
    if frame.len() >= 14 {
        lemma_two_octets(frame, 12);
        lemma_six_octets(frame, 0);
        lemma_six_octets(frame, 6);
        crate::bits::lemma_octets(frame[12], frame[13], 0, 0, 0);
        if frame.len() >= 16 {
            lemma_two_octets(frame, 14);
        }
    }
}

/// What can be said of a field's presence: destination, source and type are in
/// every whole header, the two tag codes are absent from an untagged frame, and
/// nothing is known of any other code, of tags in a tagged frame, or of a frame
/// cut short.
pub proof fn law_presence_is_known_of_header_and_tags(code: u8, frame: Seq<u8>)
    requires
        code < 64,
    ensures
        ({
            let seen = presence(Field::of_code(code), frame);
            let tagged = frame[12] == 0x81 && frame[13] == 0x00 || frame[12] == 0x88 && frame[13]
                == 0xA8;
            &&& seen is Present <==> frame.len() >= 14 && code <= 2
            &&& seen is Absent <==> frame.len() >= 14 && (code == 3 || code == 4) && !tagged
        }),
{
    super::rule::law_codes_round_trip(code);
    crate::bits::lemma_octets(frame[12], frame[13], 0, 0, 0);
}

/// A clause that asks for a field holds exactly on frames that have it, one that
/// asks for its absence on frames that have it not, and neither says anything
/// where that is unknown.
pub proof fn law_presence_clauses_ask_opposite_questions(c: Clause, frame: Seq<u8>)
    ensures
        ({
            let there = clause_says(Clause { op: Op::Exists, ..c }, frame);
            let gone = clause_says(Clause { op: Op::NotExists, ..c }, frame);
            &&& there == Ok::<bool, Refusal>(true) <==> presence(c.field, frame) is Present
            &&& gone == Ok::<bool, Refusal>(true) <==> presence(c.field, frame) is Absent
            &&& there is Err <==> presence(c.field, frame) is Unknown
            &&& gone is Err <==> there is Err
            &&& there is Ok ==> gone == Ok::<bool, Refusal>(!there->Ok_0)
            &&& there is Err ==> there == Err::<bool, Refusal>(Refusal::Presence) && gone == there
        }),
{
}

/// A comparison is made on the field's value over the window between the two
/// ends of the clause: it starts at the anchor and leaves `shift` bits out on
/// top. A window without bits is refused first, then a field without a value,
/// then an operator that compares nothing.
pub proof fn law_comparison_uses_the_clause_window(c: Clause, frame: Seq<u8>)
    requires
        !(c.op is Exists),
        !(c.op is NotExists),
    ensures
        ({
            let says = clause_says(c, frame);
            let bits = 64 - c.shift - c.anchor;
            &&& bits <= 0 ==> says == Err::<bool, Refusal>(Refusal::Window)
            &&& bits > 0 ==> match field_value(c.field, frame) {
                None => says == Err::<bool, Refusal>(Refusal::Field),
                Some(v) => match compares(c.op, v, c.operand, c.anchor as u32, bits as u32) {
                    None => says == Err::<bool, Refusal>(Refusal::Operator) && c.op is Unknown,
                    Some(b) => says == Ok::<bool, Refusal>(b),
                },
            }
        }),
{
}

/// A clause on the EtherType that wants it equal holds exactly on frames of that
/// type, and one that wants it different on all others.
pub proof fn law_ethertype_clauses_pick_frames_by_type(et: u16, frame: Seq<u8>)
    requires
        frame.len() >= 14,
    ensures
        ({
            let c = Clause {
                field: Field::EtherType,
                op: Op::Eq,
                shift: 0x30,
                anchor: 0,
                operand: et as u64,
            };
            let same = frame[12] * 0x100 + frame[13] == et;
            &&& clause_says(c, frame) == Ok::<bool, Refusal>(same)
            &&& clause_says(Clause { op: Op::Ne, ..c }, frame) == Ok::<bool, Refusal>(!same)
        }),
{
    lemma_two_octets(frame, 12);
    let v = big_endian(frame.subrange(12, 14));
    let o = et as u64;
    law_operators_compare_numbers(v, o, 0, 16, 8);
    vstd::arithmetic::power2::lemma2_to64();
    assert(run_of_bits(v, 0, 16) == v);
    assert(run_of_bits(o, 0, 16) == o);
}

/// A rule matches exactly where every clause holds, and then says what to do
/// with all its actions and the priority of the first. Where some clause fails
/// and none is refused it is a miss. A rule that could not be read is refused
/// for the reason it could not.
pub proof fn law_rule_matches_where_every_clause_holds(rule: RuleView, frame: Seq<u8>)
    ensures
        ({
            let says = rule_says(Ok(rule), frame);
            let all = forall|i: int|
                0 <= i < rule.clauses.len() ==> #[trigger] clause_says(rule.clauses[i], frame)
                    == Ok::<bool, Refusal>(true);
            &&& says is Match <==> all
            &&& all && rule.actions.len() > 0 ==> says == (Outcome::Match {
                priority: rule.actions[0].priority,
                actions: rule.actions,
            })
            &&& says is Refused <==> exists|i: int|
                0 <= i < rule.clauses.len() && #[trigger] clause_says(
                    rule.clauses[i],
                    frame,
                ) is Err
            &&& rule_says(Err(RuleError::NotAClause), frame) == Outcome::Refused(
                Refusal::NotAClause,
            )
            &&& rule_says(Err(RuleError::RanPastTheEnd), frame) == Outcome::Refused(
                Refusal::RanPastTheEnd,
            )
            &&& rule_says(Err(RuleError::TooLong), frame) == Outcome::Refused(Refusal::TooLong)
        }),
{
    law_every_clause_must_hold(rule.clauses, frame);
    lemma_some_refusal(rule.clauses, frame);
}

proof fn lemma_some_refusal(clauses: Seq<Clause>, frame: Seq<u8>)
    ensures
        clauses_say(clauses, frame) is Err <==> exists|i: int|
            0 <= i < clauses.len() && #[trigger] clause_says(clauses[i], frame) is Err,
    decreases clauses.len(),
{
    if clauses.len() > 0 {
        let init = clauses.drop_last();
        lemma_some_refusal(init, frame);
        assert(forall|i: int| 0 <= i < init.len() ==> init[i] == clauses[i]);
        if clauses_say(init, frame) is Err {
            let i = choose|i: int|
                0 <= i < init.len() && #[trigger] clause_says(init[i], frame) is Err;
            assert(clause_says(clauses[i], frame) is Err);
        } else if clause_says(clauses.last(), frame) is Err {
            assert(clause_says(clauses[clauses.len() - 1], frame) is Err);
        }
        if exists|i: int| 0 <= i < clauses.len() && #[trigger] clause_says(clauses[i], frame) is Err {
            let i = choose|i: int|
                0 <= i < clauses.len() && #[trigger] clause_says(clauses[i], frame) is Err;
            if i < init.len() {
                assert(clause_says(init[i], frame) is Err);
            }
        }
    }
}

/// A matched frame goes to the queue of the first action that names one, and to
/// no queue where none does. A frame that matched nothing has none.
pub proof fn law_first_named_queue_takes_the_frame(priority: u8, actions: Seq<Action>, i: int)
    requires
        0 <= i <= actions.len(),
        forall|j: int| 0 <= j < i ==> (#[trigger] actions[j]).queue() is None,
        i < actions.len() ==> actions[i].queue() is Some,
    ensures
        queue_of(Outcome::Match { priority, actions }) == (if i < actions.len() {
            actions[i].queue()
        } else {
            None
        }),
        queue_of(Outcome::NoMatch) is None,
        forall|why: Refusal| #[trigger] queue_of(Outcome::Refused(why)) is None,
    decreases i,
{
    if i > 0 {
        assert(actions[0].queue() is None);
        assert forall|j: int| 0 <= j < i - 1 implies (#[trigger] actions.skip(1)[j]).queue() is None by {
            assert(actions[j + 1].queue() is None);
        }
        law_first_named_queue_takes_the_frame(priority, actions.skip(1), i - 1);
    }
}

/// The counters say what became of a frame: one more frame, and one more in the
/// counter of its outcome.
pub proof fn law_outcomes_have_their_counters(c: EngineCounters, outcome: Outcome)
    requires
        c.can_classify(outcome),
    ensures
        ({
            let after = c.classified(outcome);
            let one = |yes: bool| if yes {
                1int
            } else {
                0
            };
            &&& after.frames_classified == c.frames_classified + 1
            &&& after.matched == c.matched + one(outcome is Match)
            &&& after.no_match == c.no_match + one(outcome is NoMatch)
            &&& after.undecidable_field == c.undecidable_field + one(
                outcome == Outcome::Refused(Refusal::Field),
            )
            &&& after.undecidable_presence == c.undecidable_presence + one(
                outcome == Outcome::Refused(Refusal::Presence),
            )
            &&& after.undecidable_window == c.undecidable_window + one(
                outcome == Outcome::Refused(Refusal::Window),
            )
            &&& after.undecidable_operator == c.undecidable_operator + one(
                outcome == Outcome::Refused(Refusal::Operator),
            )
            &&& after.undecidable_entry == c.undecidable_entry + one(
                outcome == Outcome::Refused(Refusal::NotAClause),
            )
            &&& after.unterminated_rules == c.unterminated_rules + one(
                outcome == Outcome::Refused(Refusal::RanPastTheEnd) || outcome == Outcome::Refused(
                    Refusal::TooLong,
                ),
            )
            &&& after.no_rules == c.no_rules + one(outcome == Outcome::Refused(Refusal::NoRules))
        }),
{
}

} // verus!
