//! Patterns and a timeline drawn from the recent bus accesses.

use vstd::prelude::*;

use crate::soc::bank::MmioHistoryEntry;
use crate::text::{append_decimal, append_hex, same_text};

verus! {

#[derive(Clone, Debug)]
pub struct DetectedPattern {
    pub pattern_type: String,
    pub address: u32,
    pub secondary_address: Option<u32>,
    pub count: usize,
    pub value: Option<u32>,
    pub first_pc: u32,
    pub last_pc: u32,
    pub first_insn: u64,
    pub last_insn: u64,
}

/// A pattern, as values.
pub struct PatternView {
    pub kind: Seq<char>,
    pub address: u32,
    pub secondary_address: Option<u32>,
    pub count: int,
    pub value: Option<u32>,
    pub first_pc: u32,
    pub last_pc: u32,
    pub first_insn: u64,
    pub last_insn: u64,
}

impl View for DetectedPattern {
    type V = PatternView;

    open spec fn view(&self) -> PatternView {
        PatternView {
            kind: self.pattern_type@,
            address: self.address,
            secondary_address: self.secondary_address,
            count: self.count as int,
            value: self.value,
            first_pc: self.first_pc,
            last_pc: self.last_pc,
            first_insn: self.first_insn,
            last_insn: self.last_insn,
        }
    }
}

/// A list of patterns, as values.
pub open spec fn views(patterns: Seq<DetectedPattern>) -> Seq<PatternView> {
    Seq::new(patterns.len(), |i: int| patterns[i]@)
}

pub open spec fn is_read(e: MmioHistoryEntry) -> bool {
    e.direction@ == "read"@
}

pub open spec fn is_write(e: MmioHistoryEntry) -> bool {
    e.direction@ == "write"@
}

/// The pattern that spans the accesses from `start` up to `end`.
pub open spec fn spanning(
    h: Seq<MmioHistoryEntry>,
    kind: Seq<char>,
    start: int,
    end: int,
    count: int,
) -> PatternView {
    PatternView {
        kind,
        address: h[start].address,
        secondary_address: None,
        count,
        value: Some(h[start].value),
        first_pc: h[start].pc,
        last_pc: h[end - 1].pc,
        first_insn: h[start].insn,
        last_insn: h[end - 1].insn,
    }
}

/// Whether an access is a read of an address.
pub open spec fn reads(e: MmioHistoryEntry, addr: u32) -> bool {
    is_read(e) && e.address == addr
}

/// Where the run of reads of one address and value that covers `j` ends.
pub open spec fn same_read_end(h: Seq<MmioHistoryEntry>, addr: u32, val: u32, j: int) -> int
    decreases h.len() - j,
{
    if 0 <= j < h.len() && reads(h[j], addr) && h[j].value == val {
        same_read_end(h, addr, val, j + 1)
    } else {
        j
    }
}

/// Where the run of reads of one address that covers `j` ends.
pub open spec fn read_end(h: Seq<MmioHistoryEntry>, addr: u32, j: int) -> int
    decreases h.len() - j,
{
    if 0 <= j < h.len() && reads(h[j], addr) {
        read_end(h, addr, j + 1)
    } else {
        j
    }
}

/// Where a poll of one address for its top bit to clear ends: past the read
/// that shows it clear, or before the first access that is no such read.
pub open spec fn poll_end(h: Seq<MmioHistoryEntry>, addr: u32, j: int) -> int
    decreases h.len() - j,
{
    if 0 <= j < h.len() && reads(h[j], addr) {
        if h[j].value & 0x8000_0000 == 0 {
            j + 1
        } else {
            poll_end(h, addr, j + 1)
        }
    } else {
        j
    }
}

pub proof fn lemma_ends(h: Seq<MmioHistoryEntry>, addr: u32, val: u32, j: int)
    requires
        0 <= j <= h.len(),
    ensures
        j <= same_read_end(h, addr, val, j) <= h.len(),
        j <= read_end(h, addr, j) <= h.len(),
        j <= poll_end(h, addr, j) <= h.len(),
    decreases h.len() - j,
{
    if j < h.len() {
        lemma_ends(h, addr, val, j + 1);
    }
}

/// The busy waits from an access on: at least five reads in a row of one
/// address that give one value.
pub open spec fn busy_waits(h: Seq<MmioHistoryEntry>, i: int) -> Seq<PatternView>
    decreases h.len() - i,
{
    if i < 0 || i >= h.len() {
        Seq::empty()
    } else if !is_read(h[i]) {
        busy_waits(h, i + 1)
    } else {
        let end = same_read_end(h, h[i].address, h[i].value, i + 1);
        proof {
            lemma_ends(h, h[i].address, h[i].value, i + 1);
        }
        if end - i >= 5 {
            seq![spanning(h, "busy_wait"@, i, end, end - i)] + busy_waits(h, end)
        } else {
            busy_waits(h, end)
        }
    }
}

/// The writes from an access on that at least three reads of the same address
/// follow.
pub open spec fn written_polls(h: Seq<MmioHistoryEntry>, i: int) -> Seq<PatternView>
    decreases h.len() - i,
{
    if i < 0 || i + 1 >= h.len() {
        Seq::empty()
    } else if !is_write(h[i]) {
        written_polls(h, i + 1)
    } else {
        let end = read_end(h, h[i].address, i + 1);
        proof {
            lemma_ends(h, h[i].address, 0, i + 1);
        }
        if end - (i + 1) >= 3 {
            seq![spanning(h, "write_then_poll"@, i, end, end - (i + 1))] + written_polls(h, end)
        } else {
            written_polls(h, end)
        }
    }
}

/// The writes from an access on that set the top bit and are polled at least
/// twice.
pub open spec fn command_bits(h: Seq<MmioHistoryEntry>, i: int) -> Seq<PatternView>
    decreases h.len() - i,
{
    if i < 0 || i + 1 >= h.len() {
        Seq::empty()
    } else if !is_write(h[i]) || h[i].value & 0x8000_0000 == 0 {
        command_bits(h, i + 1)
    } else {
        let end = poll_end(h, h[i].address, i + 1);
        proof {
            lemma_ends(h, h[i].address, 0, i + 1);
        }
        if end - (i + 1) >= 2 {
            seq![spanning(h, "command_bit"@, i, end, end - (i + 1))] + command_bits(h, end)
        } else {
            command_bits(h, end)
        }
    }
}

/// Every pattern, in the order the detectors find them.
pub open spec fn all_patterns(h: Seq<MmioHistoryEntry>) -> Seq<PatternView> {
    if h.len() < 3 {
        Seq::empty()
    } else {
        busy_waits(h, 0) + written_polls(h, 0) + command_bits(h, 0)
    }
}

/// The patterns that begin at one instruction.
pub open spec fn begins_at(insn: u64) -> spec_fn(PatternView) -> bool {
    |p: PatternView| p.first_insn == insn
}

/// Whether a list is another in order of its first instructions, patterns that
/// begin at the same instruction keeping their order.
pub open spec fn stable_order(of: Seq<PatternView>, list: Seq<PatternView>) -> bool {
    &&& list.len() == of.len()
    &&& forall|i: int, j: int| 0 <= i < j < list.len() ==> list[i].first_insn <= list[j].first_insn
    &&& forall|insn: u64| #[trigger] list.filter(begins_at(insn)) == of.filter(begins_at(insn))
}

fn found(
    h: &[MmioHistoryEntry],
    kind: &str,
    start: usize,
    end: usize,
    count: usize,
) -> (r: DetectedPattern)
    requires
        start < h@.len(),
        0 < end <= h@.len(),
    ensures
        r@ == spanning(h@, kind@, start as int, end as int, count as int),
{
    DetectedPattern {
        pattern_type: kind.to_owned(),
        address: h[start].address,
        secondary_address: None,
        count,
        value: Some(h[start].value),
        first_pc: h[start].pc,
        last_pc: h[end - 1].pc,
        first_insn: h[start].insn,
        last_insn: h[end - 1].insn,
    }
}

fn detect_busy_wait(history: &[MmioHistoryEntry], out: &mut Vec<DetectedPattern>)
    ensures
        views(final(out)@) == views(old(out)@) + busy_waits(history@, 0),
{
    let n: usize = history.len();
    let mut i: usize = 0;
    assert(views(out@) + busy_waits(history@, 0) =~= views(old(out)@) + busy_waits(history@, 0));
    while i < n
        invariant
            n == history@.len(),
            i <= n,
            views(out@) + busy_waits(history@, i as int) == views(old(out)@) + busy_waits(
                history@,
                0,
            ),
        decreases n - i,
    {
        if !same_text(history[i].direction, "read") {
            i = i + 1;
            continue;
        }
        let addr: u32 = history[i].address;
        let val: u32 = history[i].value;
        let mut j: usize = i + 1;
        let ghost end = same_read_end(history@, addr, val, i + 1);
        proof {
            lemma_ends(history@, addr, val, i + 1);
        }
        while j < n && same_text(history[j].direction, "read") && history[j].address == addr
            && history[j].value == val
            invariant
                n == history@.len(),
                i < j <= n,
                end == same_read_end(history@, addr, val, j as int),
            decreases n - j,
        {
            j = j + 1;
        }
        let ghost before = views(out@);
        if j - i >= 5 {
            out.push(found(history, "busy_wait", i, j, j - i));
            proof {
                let p = spanning(history@, "busy_wait"@, i as int, j as int, j - i);
                assert(views(out@) =~= before.push(p));
                assert(before + (seq![p] + busy_waits(history@, j as int)) =~= before.push(p)
                    + busy_waits(history@, j as int));
            }
        }
        i = j;
    }
    assert(views(out@) + busy_waits(history@, n as int) =~= views(out@));
}

fn detect_write_then_poll(history: &[MmioHistoryEntry], out: &mut Vec<DetectedPattern>)
    ensures
        views(final(out)@) == views(old(out)@) + written_polls(history@, 0),
{
    let n: usize = history.len();
    let mut i: usize = 0;
    while i < n && i + 1 < n
        invariant
            n == history@.len(),
            i <= n,
            views(out@) + written_polls(history@, i as int) == views(old(out)@) + written_polls(
                history@,
                0,
            ),
        decreases n - i,
    {
        if !same_text(history[i].direction, "write") {
            i = i + 1;
            continue;
        }
        let addr: u32 = history[i].address;
        let mut j: usize = i + 1;
        let ghost end = read_end(history@, addr, i + 1);
        proof {
            lemma_ends(history@, addr, 0, i + 1);
        }
        while j < n && same_text(history[j].direction, "read") && history[j].address == addr
            invariant
                n == history@.len(),
                i < j <= n,
                end == read_end(history@, addr, j as int),
            decreases n - j,
        {
            j = j + 1;
        }
        let read_count: usize = j - (i + 1);
        let ghost before = views(out@);
        if read_count >= 3 {
            out.push(found(history, "write_then_poll", i, j, read_count));
            proof {
                let p = spanning(
                    history@,
                    "write_then_poll"@,
                    i as int,
                    j as int,
                    read_count as int,
                );
                assert(views(out@) =~= before.push(p));
                assert(before + (seq![p] + written_polls(history@, j as int)) =~= before.push(p)
                    + written_polls(history@, j as int));
            }
        }
        i = j;
    }
    assert(views(out@) + written_polls(history@, i as int) =~= views(out@));
}

fn detect_command_bit(history: &[MmioHistoryEntry], out: &mut Vec<DetectedPattern>)
    ensures
        views(final(out)@) == views(old(out)@) + command_bits(history@, 0),
{
    let n: usize = history.len();
    let mut i: usize = 0;
    while i < n && i + 1 < n
        invariant
            n == history@.len(),
            i <= n,
            views(out@) + command_bits(history@, i as int) == views(old(out)@) + command_bits(
                history@,
                0,
            ),
        decreases n - i,
    {
        if !same_text(history[i].direction, "write") || history[i].value & 0x8000_0000 == 0 {
            i = i + 1;
            continue;
        }
        let addr: u32 = history[i].address;
        let mut j: usize = i + 1;
        let mut clear: bool = false;
        let ghost end = poll_end(history@, addr, i + 1);
        proof {
            lemma_ends(history@, addr, 0, i + 1);
        }
        while j < n && !clear && same_text(history[j].direction, "read") && history[j].address
            == addr
            invariant
                n == history@.len(),
                i < j <= n,
                !clear ==> end == poll_end(history@, addr, j as int),
                clear ==> end == j,
            decreases n - j,
        {
            if history[j].value & 0x8000_0000 == 0 {
                clear = true;
            }
            j = j + 1;
        }
        let poll_count: usize = j - (i + 1);
        let ghost before = views(out@);
        if poll_count >= 2 {
            out.push(found(history, "command_bit", i, j, poll_count));
            proof {
                let p = spanning(history@, "command_bit"@, i as int, j as int, poll_count as int);
                assert(views(out@) =~= before.push(p));
                assert(before + (seq![p] + command_bits(history@, j as int)) =~= before.push(p)
                    + command_bits(history@, j as int));
            }
        }
        i = j;
    }
    assert(views(out@) + command_bits(history@, i as int) =~= views(out@));
}

proof fn lemma_filter_none(s: Seq<PatternView>, insn: u64)
    requires
        forall|i: int| 0 <= i < s.len() ==> (#[trigger] s[i]).first_insn != insn,
    ensures
        s.filter(begins_at(insn)) == Seq::<PatternView>::empty(),
    decreases s.len(),
{
    reveal(Seq::filter);
    if s.len() > 0 {
        assert forall|i: int| 0 <= i < s.drop_last().len() implies (
        #[trigger] s.drop_last()[i]).first_insn != insn by {
            assert(s[i] == s.drop_last()[i]);
        }
        lemma_filter_none(s.drop_last(), insn);
    }
}

/// Putting a pattern behind those that begin no later keeps a list ordered, and
/// keeps the patterns of every instruction as they were with it at the end.
proof fn lemma_insert_keeps_order(s: Seq<PatternView>, p: PatternView, at: int)
    requires
        0 <= at <= s.len(),
        forall|i: int, j: int| 0 <= i < j < s.len() ==> s[i].first_insn <= s[j].first_insn,
        forall|i: int| 0 <= i < at ==> (#[trigger] s[i]).first_insn <= p.first_insn,
        forall|i: int| at <= i < s.len() ==> (#[trigger] s[i]).first_insn > p.first_insn,
    ensures
        stable_order(s.push(p), s.insert(at, p)),
{
    let list = s.insert(at, p);
    let (a, b) = (s.take(at), s.skip(at));
    assert(list =~= a + seq![p] + b);
    assert(s.push(p) =~= a + b + seq![p]);
    assert forall|insn: u64| #[trigger]
        list.filter(begins_at(insn)) == s.push(p).filter(begins_at(insn)) by {
        let f = begins_at(insn);
        Seq::filter_distributes_over_add(a + seq![p], b, f);
        Seq::filter_distributes_over_add(a, seq![p], f);
        Seq::filter_distributes_over_add(a + b, seq![p], f);
        Seq::filter_distributes_over_add(a, b, f);
        let (fa, fb, fp) = (a.filter(f), b.filter(f), seq![p].filter(f));
        if insn == p.first_insn {
            assert forall|i: int| 0 <= i < b.len() implies (#[trigger] b[i]).first_insn
                != insn by {
                assert(s[at + i] == b[i]);
            }
            lemma_filter_none(b, insn);
            assert(fa + fp + fb =~= fa + fb + fp);
        } else {
            lemma_filter_none(seq![p], insn);
            assert(fa + fp + fb =~= fa + fb + fp);
        }
    }
    assert forall|i: int, j: int| 0 <= i < j < list.len() implies list[i].first_insn
        <= list[j].first_insn by {
        let x = if i < at {
            s[i]
        } else if i == at {
            p
        } else {
            s[i - 1]
        };
        let y = if j < at {
            s[j]
        } else if j == at {
            p
        } else {
            s[j - 1]
        };
        assert(list[i] == x && list[j] == y);
    }
}

proof fn lemma_stable_order_extends(of: Seq<PatternView>, list: Seq<PatternView>, p: PatternView)
    requires
        stable_order(of, list),
    ensures
        forall|insn: u64| #[trigger]
            list.push(p).filter(begins_at(insn)) == of.push(p).filter(begins_at(insn)),
{
    assert forall|insn: u64| #[trigger]
        list.push(p).filter(begins_at(insn)) == of.push(p).filter(begins_at(insn)) by {
        let f = begins_at(insn);
        assert(list.push(p) =~= list + seq![p]);
        assert(of.push(p) =~= of + seq![p]);
        Seq::filter_distributes_over_add(list, seq![p], f);
        Seq::filter_distributes_over_add(of, seq![p], f);
        assert(list.filter(f) == of.filter(f));
    }
}

/// Order patterns by their first instruction, keeping the order of those that
/// share one.
fn order_by_first_insn(patterns: &mut Vec<DetectedPattern>)
    ensures
        stable_order(views(old(patterns)@), views(final(patterns)@)),
{
    let n: usize = patterns.len();
    let ghost all = views(patterns@);
    assert(views(patterns@).take(0) =~= all.take(0));
    for i in 0..n
        invariant
            n == patterns@.len(),
            all == views(old(patterns)@),
            n == all.len(),
            stable_order(all.take(i as int), views(patterns@).take(i as int)),
            views(patterns@).skip(i as int) == all.skip(i as int),
    {
        let ghost sorted = views(patterns@).take(i as int);
        let ghost start = views(patterns@);
        let key: u64 = patterns[i].first_insn;
        let mut at: usize = i;
        while at > 0 && patterns[at - 1].first_insn > key
            invariant
                at <= i < n,
                n == patterns@.len(),
                start == views(patterns@),
                sorted == start.take(i as int),
                forall|k: int| at <= k < i ==> (#[trigger] start[k]).first_insn > key,
            decreases at,
        {
            assert(start[at - 1].first_insn > key);
            at = at - 1;
        }
        let ghost pv = start[i as int];
        proof {
            assert(start.skip(i as int)[0] == all.skip(i as int)[0]);
            assert(pv == all[i as int]);
            assert forall|k: int| 0 <= k < at implies (#[trigger] sorted[k]).first_insn
                <= pv.first_insn by {
                assert(sorted[at - 1].first_insn <= key);
            }
            assert forall|k: int| at <= k < sorted.len() implies (#[trigger] sorted[k]).first_insn
                > pv.first_insn by {
                assert(sorted[k] == start[k]);
            }
            lemma_insert_keeps_order(sorted, pv, at as int);
            lemma_stable_order_extends(all.take(i as int), sorted, pv);
        }
        let p = patterns.remove(i);
        patterns.insert(at, p);
        proof {
            let now = views(patterns@);
            assert(now.take(i + 1) =~= sorted.insert(at as int, pv));
            assert(all.take(i + 1) =~= all.take(i as int).push(pv));
            assert forall|k: int| 0 <= k < now.skip(i + 1).len() implies #[trigger] now.skip(i + 1)[k]
                == all.skip(i + 1)[k] by {
                assert(now[i + 1 + k] == start[i + 1 + k]);
                assert(start.skip(i as int)[k + 1] == all.skip(i as int)[k + 1]);
            }
            assert(now.skip(i + 1) =~= all.skip(i + 1));
            assert forall|insn: u64| #[trigger]
                now.take(i + 1).filter(begins_at(insn)) == all.take(i + 1).filter(
                    begins_at(insn),
                ) by {
                assert(sorted.insert(at as int, pv).filter(begins_at(insn)) == sorted.push(
                    pv,
                ).filter(begins_at(insn)));
                assert(sorted.push(pv).filter(begins_at(insn)) == all.take(i as int).push(
                    pv,
                ).filter(begins_at(insn)));
            }
        }
    }
    assert(all.take(n as int) =~= all);
    assert(views(patterns@).take(n as int) =~= views(patterns@));
}

/// Find the access patterns in a history, ordered by their first instruction.
pub fn detect_patterns(history: &[MmioHistoryEntry]) -> (r: Vec<DetectedPattern>)
    ensures
        stable_order(all_patterns(history@), views(r@)),
{
    let mut patterns: Vec<DetectedPattern> = Vec::new();
    if history.len() < 3 {
        assert(views(patterns@) =~= Seq::<PatternView>::empty());
        return patterns;
    }
    detect_busy_wait(history, &mut patterns);
    detect_write_then_poll(history, &mut patterns);
    detect_command_bit(history, &mut patterns);
    assert(views(patterns@) =~= all_patterns(history@));
    order_by_first_insn(&mut patterns);
    patterns
}

#[derive(Clone, Debug)]
pub struct TimelineEvent {
    pub event_type: String,
    pub block: Option<String>,
    pub address: u32,
    pub from_insn: u64,
    pub to_insn: u64,
    pub access_count: usize,
    pub summary: String,
}

/// An event, as values.
pub struct EventView {
    pub kind: Seq<char>,
    pub block: Option<Seq<char>>,
    pub address: u32,
    pub from_insn: u64,
    pub to_insn: u64,
    pub access_count: int,
    pub summary: Seq<char>,
}

impl View for TimelineEvent {
    type V = EventView;

    open spec fn view(&self) -> EventView {
        EventView {
            kind: self.event_type@,
            block: match self.block {
                Some(b) => Some(b@),
                None => None,
            },
            address: self.address,
            from_insn: self.from_insn,
            to_insn: self.to_insn,
            access_count: self.access_count as int,
            summary: self.summary@,
        }
    }
}

pub open spec fn event_views(events: Seq<TimelineEvent>) -> Seq<EventView> {
    Seq::new(events.len(), |i: int| events[i]@)
}

/// The accesses inside a window of instructions, ends included.
pub open spec fn inside(from_insn: Option<u64>, to_insn: Option<u64>) -> spec_fn(
    MmioHistoryEntry,
) -> bool {
    |e: MmioHistoryEntry|
        (from_insn matches Some(f) ==> e.insn >= f) && (to_insn matches Some(t) ==> e.insn <= t)
}

/// Whether an access continues the burst of the one before it: the same
/// peripheral, fewer than fifty instructions later.
pub open spec fn continues_burst(prev: MmioHistoryEntry, e: MmioHistoryEntry, periph: Seq<char>) -> bool {
    e.peripheral@ == periph && e.insn - prev.insn < 50
}

/// Where the burst that covers `j` ends.
pub open spec fn burst_end(f: Seq<MmioHistoryEntry>, periph: Seq<char>, j: int) -> int
    decreases f.len() - j,
{
    if 1 <= j < f.len() && continues_burst(f[j - 1], f[j], periph) {
        burst_end(f, periph, j + 1)
    } else {
        j
    }
}

pub proof fn lemma_burst_end(f: Seq<MmioHistoryEntry>, periph: Seq<char>, j: int)
    requires
        1 <= j <= f.len(),
    ensures
        j <= burst_end(f, periph, j) <= f.len(),
    decreases f.len() - j,
{
    if j < f.len() {
        lemma_burst_end(f, periph, j + 1);
    }
}

/// How many of the accesses before `j` read an address, from `i` on.
pub open spec fn reads_of(f: Seq<MmioHistoryEntry>, i: int, j: int, addr: u32) -> nat
    decreases j - i,
{
    if j <= i {
        0
    } else {
        reads_of(f, i, j - 1, addr) + (if reads(f[j - 1], addr) {
            1nat
        } else {
            0nat
        })
    }
}

/// How many of them gave a value.
pub open spec fn value_reads_of(f: Seq<MmioHistoryEntry>, i: int, j: int, addr: u32, val: u32) -> nat
    decreases j - i,
{
    if j <= i {
        0
    } else {
        value_reads_of(f, i, j - 1, addr, val) + (if reads(f[j - 1], addr) && f[j - 1].value == val {
            1nat
        } else {
            0nat
        })
    }
}

/// What a burst is called.
pub open spec fn burst_kind(f: Seq<MmioHistoryEntry>, i: int, j: int) -> Seq<char> {
    if value_reads_of(f, i, j, f[i].address, f[i].value) >= 3 {
        "busy_wait"@
    } else if reads_of(f, i, j, f[i].address) >= 3 {
        "polling"@
    } else {
        "burst"@
    }
}

/// An address as events show it.
pub open spec fn shown_address(addr: u32) -> Seq<char> {
    "0x"@ + crate::text::hex_fixed(addr as nat, 8, true)
}

/// The sentence that sums up a burst.
pub open spec fn burst_summary(f: Seq<MmioHistoryEntry>, i: int, j: int) -> Seq<char> {
    let span = if f[i].address != f[j - 1].address {
        shown_address(f[i].address) + ".."@ + shown_address(f[j - 1].address)
    } else {
        shown_address(f[i].address)
    };
    crate::text::decimal((j - i) as nat) + " × "@ + f[i].peripheral@ + " access to "@ + span
        + " ("@ + burst_kind(f, i, j) + ")"@
}

/// The event of a burst.
pub open spec fn burst_event(f: Seq<MmioHistoryEntry>, i: int, j: int) -> EventView {
    EventView {
        kind: burst_kind(f, i, j),
        block: Some(f[i].peripheral@),
        address: f[i].address,
        from_insn: f[i].insn,
        to_insn: f[j - 1].insn,
        access_count: j - i,
        summary: burst_summary(f, i, j),
    }
}

/// The events from an access on: one for each burst of at least three.
pub open spec fn burst_events(f: Seq<MmioHistoryEntry>, i: int) -> Seq<EventView>
    decreases f.len() - i,
{
    if i < 0 || i >= f.len() {
        Seq::empty()
    } else {
        let end = burst_end(f, f[i].peripheral@, i + 1);
        proof {
            lemma_burst_end(f, f[i].peripheral@, i + 1);
        }
        if end - i >= 3 {
            seq![burst_event(f, i, end)] + burst_events(f, end)
        } else {
            burst_events(f, end)
        }
    }
}

fn append_address(out: &mut String, addr: u32)
    ensures
        final(out)@ == old(out)@ + shown_address(addr),
{
    out.append("0x");
    append_hex(out, addr as u64, 8, true);
    assert(out@ =~= old(out)@ + shown_address(addr));
}

fn describe_burst(f: &Vec<MmioHistoryEntry>, i: usize, j: usize) -> (r: TimelineEvent)
    requires
        i < j <= f@.len(),
    ensures
        r@ == burst_event(f@, i as int, j as int),
{
    let addr: u32 = f[i].address;
    let val: u32 = f[i].value;
    let mut same_addr_reads: usize = 0;
    let mut same_val_reads: usize = 0;
    for k in i..j
        invariant
            i < j <= f@.len(),
            same_addr_reads == reads_of(f@, i as int, k as int, addr),
            same_val_reads == value_reads_of(f@, i as int, k as int, addr, val),
            same_addr_reads <= k - i,
            same_val_reads <= k - i,
    {
        if same_text(f[k].direction, "read") && f[k].address == addr {
            same_addr_reads = same_addr_reads + 1;
            if f[k].value == val {
                same_val_reads = same_val_reads + 1;
            }
        }
    }
    let event_type: &'static str = if same_val_reads >= 3 {
        "busy_wait"
    } else if same_addr_reads >= 3 {
        "polling"
    } else {
        "burst"
    };
    assert(event_type@ == burst_kind(f@, i as int, j as int));
    let last: u32 = f[j - 1].address;
    let mut span = String::new();
    append_address(&mut span, addr);
    if addr != last {
        span.append("..");
        append_address(&mut span, last);
    }
    let ghost span_spec = if addr != last {
        shown_address(addr) + ".."@ + shown_address(last)
    } else {
        shown_address(addr)
    };
    assert(span@ =~= span_spec);
    let mut summary = String::new();
    append_decimal(&mut summary, (j - i) as u64);
    summary.append(" × ");
    summary.append(f[i].peripheral);
    summary.append(" access to ");
    summary.append(span.as_str());
    summary.append(" (");
    summary.append(event_type);
    summary.append(")");
    assert(summary@ =~= burst_summary(f@, i as int, j as int));
    TimelineEvent {
        event_type: event_type.to_owned(),
        block: Some(f[i].peripheral.to_owned()),
        address: addr,
        from_insn: f[i].insn,
        to_insn: f[j - 1].insn,
        access_count: j - i,
        summary,
    }
}

/// Draw the bursts of a history, optionally inside a window of instructions.
pub fn build_timeline(
    history: &[MmioHistoryEntry],
    from_insn: Option<u64>,
    to_insn: Option<u64>,
) -> (r: Vec<TimelineEvent>)
    ensures
        event_views(r@) == burst_events(history@.filter(inside(from_insn, to_insn)), 0),
        forall|k: int|
            #![trigger r@[k]]
            0 <= k < r@.len() ==> (from_insn matches Some(f) ==> f <= r@[k].from_insn && f
                <= r@[k].to_insn) && (to_insn matches Some(t) ==> r@[k].from_insn <= t
                && r@[k].to_insn <= t) && r@[k].access_count >= 3,
{
    let ghost keep = inside(from_insn, to_insn);
    let mut filtered: Vec<MmioHistoryEntry> = Vec::new();
    proof {
        reveal(Seq::filter);
        assert(history@.take(0) =~= Seq::<MmioHistoryEntry>::empty());
    }
    for k in 0..history.len()
        invariant
            keep == inside(from_insn, to_insn),
            filtered@ == history@.take(k as int).filter(keep),
    {
        proof {
            reveal(Seq::filter);
            assert(history@.take(k + 1).drop_last() =~= history@.take(k as int));
            assert(history@.take(k + 1).last() == history@[k as int]);
        }
        let e = history[k];
        let after: bool = match from_insn {
            Some(f) => e.insn >= f,
            None => true,
        };
        let before: bool = match to_insn {
            Some(t) => e.insn <= t,
            None => true,
        };
        if after && before {
            filtered.push(e);
        }
    }
    assert(history@.take(history@.len() as int) =~= history@);
    let ghost f = filtered@;
    let n: usize = filtered.len();
    let mut events: Vec<TimelineEvent> = Vec::new();
    let mut i: usize = 0;
    assert(event_views(events@) + burst_events(f, 0) =~= burst_events(f, 0));
    while i < n
        invariant
            f == filtered@,
            n == f.len(),
            i <= n,
            event_views(events@) + burst_events(f, i as int) == burst_events(f, 0),
        decreases n - i,
    {
        let periph: &'static str = filtered[i].peripheral;
        let mut j: usize = i + 1;
        let ghost end = burst_end(f, periph@, i + 1);
        proof {
            lemma_burst_end(f, periph@, i + 1);
        }
        while j < n && same_text(filtered[j].peripheral, periph) && filtered[j].insn.saturating_sub(
            filtered[j - 1].insn,
        ) < 50
            invariant
                f == filtered@,
                n == f.len(),
                i < j <= n,
                end == burst_end(f, periph@, j as int),
            decreases n - j,
        {
            j = j + 1;
        }
        let ghost before = event_views(events@);
        if j - i >= 3 {
            events.push(describe_burst(&filtered, i, j));
            proof {
                let e = burst_event(f, i as int, j as int);
                assert(event_views(events@) =~= before.push(e));
                assert(before + (seq![e] + burst_events(f, j as int)) =~= before.push(e)
                    + burst_events(f, j as int));
            }
        }
        i = j;
    }
    assert(event_views(events@) + burst_events(f, n as int) =~= event_views(events@));
    proof {
        assert forall|k: int|
            #![trigger events@[k]]
            0 <= k < events@.len() implies (from_insn matches Some(f) ==> f <= events@[k].from_insn
            && f <= events@[k].to_insn) && (to_insn matches Some(t) ==> events@[k].from_insn <= t
            && events@[k].to_insn <= t) && events@[k].access_count >= 3 by {
            law_timeline_stays_inside_its_window(history@, from_insn, to_insn, k);
            law_timeline_events_are_bursts(f, 0, k);
            assert(event_views(events@)[k] == events@[k]@);
        }
    }
    events
}

/// A reported busy wait is what it says: at least five reads in a row, all of
/// one address and one value.
pub proof fn law_busy_waits_are_runs_of_one_value(h: Seq<MmioHistoryEntry>, i: int, k: int)
    requires
        0 <= i <= h.len(),
        0 <= k < busy_waits(h, i).len(),
    ensures
        ({
            let p = busy_waits(h, i)[k];
            &&& p.count >= 5
            &&& exists|start: int|
                i <= start <= h.len() - p.count && #[trigger] run_of(
                    h,
                    start,
                    start + p.count,
                    p.address,
                    p.value,
                ) && tells_of(p, h, "busy_wait"@, start, start + p.count, p.count)
        }),
    decreases h.len() - i,
{
    let p = busy_waits(h, i)[k];
    if !is_read(h[i]) {
        law_busy_waits_are_runs_of_one_value(h, i + 1, k);
    } else {
        let end = same_read_end(h, h[i].address, h[i].value, i + 1);
        lemma_ends(h, h[i].address, h[i].value, i + 1);
        lemma_same_read_run(h, h[i].address, h[i].value, i + 1);
        if end - i >= 5 && k == 0 {
            assert(p == spanning(h, "busy_wait"@, i, end, end - i));
            assert(run_of(h, i, i + p.count, p.address, p.value));
        } else if end - i >= 5 {
            assert(p == busy_waits(h, end)[k - 1]);
            law_busy_waits_are_runs_of_one_value(h, end, k - 1);
        } else {
            law_busy_waits_are_runs_of_one_value(h, end, k);
        }
    }
}

/// Whether every access of a range reads one address and gives one value.
pub open spec fn run_of(
    h: Seq<MmioHistoryEntry>,
    start: int,
    end: int,
    addr: u32,
    val: Option<u32>,
) -> bool {
    forall|m: int|
        start <= m < end ==> (#[trigger] h[m]).direction@ == "read"@ && h[m].address == addr
            && Some(h[m].value) == val
}

proof fn lemma_same_read_run(h: Seq<MmioHistoryEntry>, addr: u32, val: u32, j: int)
    requires
        0 <= j <= h.len(),
    ensures
        run_of(h, j, same_read_end(h, addr, val, j), addr, Some(val)),
    decreases h.len() - j,
{
    if j < h.len() {
        lemma_same_read_run(h, addr, val, j + 1);
    }
}

/// Whether every access of a range reads one address.
pub open spec fn reads_all(h: Seq<MmioHistoryEntry>, start: int, end: int, addr: u32) -> bool {
    forall|m: int|
        start <= m < end ==> (#[trigger] h[m]).direction@ == "read"@ && h[m].address == addr
}

proof fn lemma_read_run(h: Seq<MmioHistoryEntry>, addr: u32, j: int)
    requires
        0 <= j <= h.len(),
    ensures
        reads_all(h, j, read_end(h, addr, j), addr),
    decreases h.len() - j,
{
    if j < h.len() && reads(h[j], addr) {
        lemma_read_run(h, addr, j + 1);
    }
}

/// A reported poll is what it says: a write, and right after it at least three
/// reads of the same address.
pub proof fn law_polls_follow_their_write(h: Seq<MmioHistoryEntry>, i: int, k: int)
    requires
        0 <= i <= h.len(),
        0 <= k < written_polls(h, i).len(),
    ensures
        ({
            let p = written_polls(h, i)[k];
            &&& p.count >= 3
            &&& exists|at: int|
                i <= at < h.len() - p.count && (#[trigger] h[at]).direction@ == "write"@ && h[at].address
                    == p.address && reads_all(h, at + 1, at + 1 + p.count, p.address) && tells_of(
                    p,
                    h,
                    "write_then_poll"@,
                    at,
                    at + 1 + p.count,
                    p.count,
                )
        }),
    decreases h.len() - i,
{
    let p = written_polls(h, i)[k];
    if !is_write(h[i]) {
        law_polls_follow_their_write(h, i + 1, k);
    } else {
        let addr = h[i].address;
        let end = read_end(h, addr, i + 1);
        lemma_ends(h, addr, 0, i + 1);
        lemma_read_run(h, addr, i + 1);
        if end - (i + 1) >= 3 && k == 0 {
            assert(p == spanning(h, "write_then_poll"@, i, end, end - (i + 1)));
            assert(is_write(h[i]));
        } else if end - (i + 1) >= 3 {
            assert(p == written_polls(h, end)[k - 1]);
            law_polls_follow_their_write(h, end, k - 1);
        } else {
            law_polls_follow_their_write(h, end, k);
        }
    }
}

proof fn lemma_poll_run(h: Seq<MmioHistoryEntry>, addr: u32, j: int)
    requires
        0 <= j <= h.len(),
    ensures
        reads_all(h, j, poll_end(h, addr, j), addr),
        forall|m: int|
            j <= m < poll_end(h, addr, j) - 1 ==> (#[trigger] h[m]).value & 0x8000_0000 != 0,
    decreases h.len() - j,
{
    if j < h.len() && reads(h[j], addr) && h[j].value & 0x8000_0000 != 0 {
        lemma_poll_run(h, addr, j + 1);
    }
}

/// A reported command is what it says: a write with the top bit set, and right
/// after it at least two reads of the same address, all but the last of which
/// still show the bit.
pub proof fn law_commands_are_polled_until_done(h: Seq<MmioHistoryEntry>, i: int, k: int)
    requires
        0 <= i <= h.len(),
        0 <= k < command_bits(h, i).len(),
    ensures
        ({
            let p = command_bits(h, i)[k];
            &&& p.count >= 2
            &&& exists|at: int|
                i <= at < h.len() - p.count && (#[trigger] h[at]).direction@ == "write"@ && h[at].address
                    == p.address && h[at].value & 0x8000_0000 != 0 && reads_all(
                    h,
                    at + 1,
                    at + 1 + p.count,
                    p.address,
                ) && tells_of(p, h, "command_bit"@, at, at + 1 + p.count, p.count) && forall|m: int|
                    at + 1 <= m < at + p.count ==> (#[trigger] h[m]).value & 0x8000_0000 != 0
        }),
    decreases h.len() - i,
{
    let p = command_bits(h, i)[k];
    if !is_write(h[i]) || h[i].value & 0x8000_0000 == 0 {
        law_commands_are_polled_until_done(h, i + 1, k);
    } else {
        let addr = h[i].address;
        let end = poll_end(h, addr, i + 1);
        lemma_ends(h, addr, 0, i + 1);
        lemma_poll_run(h, addr, i + 1);
        if end - (i + 1) >= 2 && k == 0 {
            assert(p == spanning(h, "command_bit"@, i, end, end - (i + 1)));
            assert(is_write(h[i]));
        } else if end - (i + 1) >= 2 {
            assert(p == command_bits(h, end)[k - 1]);
            law_commands_are_polled_until_done(h, end, k - 1);
        } else {
            law_commands_are_polled_until_done(h, end, k);
        }
    }
}

/// Whether the accesses of a range are one burst: one peripheral, each access
/// close behind the one before it.
pub open spec fn one_burst(f: Seq<MmioHistoryEntry>, start: int, end: int) -> bool {
    forall|m: int|
        start < m < end ==> (#[trigger] f[m]).peripheral@ == f[start].peripheral@ && f[m].insn - f[m
            - 1].insn < 50
}

proof fn lemma_burst_run(f: Seq<MmioHistoryEntry>, periph: Seq<char>, j: int)
    requires
        1 <= j <= f.len(),
    ensures
        forall|m: int|
            j <= m < burst_end(f, periph, j) ==> continues_burst(
                f[m - 1],
                #[trigger] f[m],
                periph,
            ),
    decreases f.len() - j,
{
    if j < f.len() && continues_burst(f[j - 1], f[j], periph) {
        lemma_burst_run(f, periph, j + 1);
    }
}

/// An event of the timeline is a burst of at least three accesses.
pub proof fn law_timeline_events_are_bursts(f: Seq<MmioHistoryEntry>, i: int, k: int)
    requires
        0 <= i <= f.len(),
        0 <= k < burst_events(f, i).len(),
    ensures
        exists|start: int, end: int|
            i <= start && start + 3 <= end <= f.len() && burst_events(f, i)[k]
                == #[trigger] burst_event(f, start, end) && one_burst(f, start, end),
    decreases f.len() - i,
{
    let periph = f[i].peripheral@;
    let end = burst_end(f, periph, i + 1);
    lemma_burst_end(f, periph, i + 1);
    lemma_burst_run(f, periph, i + 1);
    if end - i >= 3 && k == 0 {
        assert(burst_events(f, i)[k] == burst_event(f, i, end));
        assert(one_burst(f, i, end));
    } else if end - i >= 3 {
        assert(burst_events(f, i)[k] == burst_events(f, end)[k - 1]);
        law_timeline_events_are_bursts(f, end, k - 1);
    } else {
        law_timeline_events_are_bursts(f, end, k);
    }
}

/// The number of accesses the events of a timeline stand for.
pub open spec fn accesses_in(events: Seq<EventView>) -> int
    decreases events.len(),
{
    if events.len() == 0 {
        0
    } else {
        events[0].access_count + accesses_in(events.skip(1))
    }
}

/// No access is counted twice: the events together stand for no more accesses
/// than there are.
pub proof fn law_timeline_counts_no_access_twice(f: Seq<MmioHistoryEntry>, i: int)
    requires
        0 <= i <= f.len(),
    ensures
        accesses_in(burst_events(f, i)) <= f.len() - i,
    decreases f.len() - i,
{
    if i < f.len() {
        let periph = f[i].peripheral@;
        let end = burst_end(f, periph, i + 1);
        lemma_burst_end(f, periph, i + 1);
        law_timeline_counts_no_access_twice(f, end);
        if end - i >= 3 {
            assert(burst_events(f, i).skip(1) =~= burst_events(f, end));
        }
    }
}

/// Where an access stands apart from the one before it: another peripheral, or
/// fifty instructions or more later. The first access stands apart.
pub open spec fn stands_apart(f: Seq<MmioHistoryEntry>, m: int) -> bool {
    m == 0 || f[m].peripheral@ != f[m - 1].peripheral@ || f[m].insn - f[m - 1].insn >= 50
}

/// Every event of a timeline asked for from one instruction up to another lies
/// between them, its ends included.
pub proof fn law_timeline_stays_inside_its_window(
    h: Seq<MmioHistoryEntry>,
    from_insn: Option<u64>,
    to_insn: Option<u64>,
    k: int,
)
    requires
        0 <= k < burst_events(h.filter(inside(from_insn, to_insn)), 0).len(),
    ensures
        ({
            let e = burst_events(h.filter(inside(from_insn, to_insn)), 0)[k];
            &&& from_insn matches Some(f) ==> f <= e.from_insn && f <= e.to_insn
            &&& to_insn matches Some(t) ==> e.from_insn <= t && e.to_insn <= t
        }),
{
    let f = h.filter(inside(from_insn, to_insn));
    h.filter_lemma(inside(from_insn, to_insn));
    law_timeline_events_are_bursts(f, 0, k);
    let (start, end) = choose|start: int, end: int|
        0 <= start && start + 3 <= end <= f.len() && burst_events(f, 0)[k] == #[trigger] burst_event(
            f,
            start,
            end,
        ) && one_burst(f, start, end);
    assert(inside(from_insn, to_insn)(f[start]));
    assert(inside(from_insn, to_insn)(f[end - 1]));
}

/// An access inside the window takes part in the timeline, and without a window
/// every access does, in its order.
pub proof fn law_window_keeps_what_is_inside(
    h: Seq<MmioHistoryEntry>,
    from_insn: Option<u64>,
    to_insn: Option<u64>,
    k: int,
)
    requires
        0 <= k < h.len(),
    ensures
        (from_insn matches Some(f) ==> f <= h[k].insn) && (to_insn matches Some(t) ==> h[k].insn
            <= t) ==> h.filter(inside(from_insn, to_insn)).contains(h[k]),
        h.filter(inside(None, None)) == h,
{
    h.filter_lemma(inside(from_insn, to_insn));
    lemma_open_window_keeps_all(h);
}

proof fn lemma_open_window_keeps_all(h: Seq<MmioHistoryEntry>)
    ensures
        h.filter(inside(None, None)) == h,
    decreases h.len(),
{
    reveal(Seq::filter);
    if h.len() > 0 {
        lemma_open_window_keeps_all(h.drop_last());
        assert(h.drop_last().push(h.last()) =~= h);
    } else {
        assert(h.filter(inside(None, None)) =~= h);
    }
}

/// What an event says of its burst: the block, the first address, the first and
/// the last instruction, and how many accesses there were.
pub proof fn law_event_describes_its_burst(f: Seq<MmioHistoryEntry>, start: int, end: int)
    requires
        0 <= start < end <= f.len(),
    ensures
        ({
            let e = burst_event(f, start, end);
            let first = f[start];
            let of_first = |x: MmioHistoryEntry|
                x.direction@ == "read"@ && x.address == first.address;
            let same = |x: MmioHistoryEntry| of_first(x) && x.value == first.value;
            let reads = f.subrange(start, end).filter(of_first).len();
            let alike = f.subrange(start, end).filter(same).len();
            &&& e.block == Some(first.peripheral@)
            &&& e.address == first.address
            &&& e.from_insn == first.insn
            &&& e.to_insn == f[end - 1].insn
            &&& e.access_count == end - start
            &&& alike >= 3 ==> e.kind == "busy_wait"@
            &&& alike < 3 && reads >= 3 ==> e.kind == "polling"@
            &&& reads < 3 ==> e.kind == "burst"@
        }),
{
    let first = f[start];
    let of_first = |x: MmioHistoryEntry| x.direction@ == "read"@ && x.address == first.address;
    let same = |x: MmioHistoryEntry| of_first(x) && x.value == first.value;
    lemma_counts(f, start, end, first.address, first.value, of_first, same);
}

proof fn lemma_counts(
    f: Seq<MmioHistoryEntry>,
    i: int,
    j: int,
    addr: u32,
    val: u32,
    of_first: spec_fn(MmioHistoryEntry) -> bool,
    same: spec_fn(MmioHistoryEntry) -> bool,
)
    requires
        0 <= i <= j <= f.len(),
        forall|x: MmioHistoryEntry| #[trigger]
            of_first(x) == (x.direction@ == "read"@ && x.address == addr),
        forall|x: MmioHistoryEntry| #[trigger]
            same(x) == (x.direction@ == "read"@ && x.address == addr && x.value == val),
    ensures
        reads_of(f, i, j, addr) == f.subrange(i, j).filter(of_first).len(),
        value_reads_of(f, i, j, addr, val) == f.subrange(i, j).filter(same).len(),
        value_reads_of(f, i, j, addr, val) <= reads_of(f, i, j, addr),
    decreases j - i,
{
    reveal(Seq::filter);
    if i < j {
        lemma_counts(f, i, j - 1, addr, val, of_first, same);
        assert(f.subrange(i, j).drop_last() =~= f.subrange(i, j - 1));
        assert(f.subrange(i, j).last() == f[j - 1]);
        assert(of_first(f[j - 1]) == reads(f[j - 1], addr));
        assert(same(f[j - 1]) == (reads(f[j - 1], addr) && f[j - 1].value == val));
    }
}

/// Every burst of at least three accesses is an event: a run of accesses of one
/// peripheral, each fewer than fifty instructions after the one before it, with
/// one that stands apart at its start and none that goes on at its end.
pub proof fn law_every_burst_is_an_event(f: Seq<MmioHistoryEntry>, i: int, a: int, b: int)
    requires
        0 <= i <= a,
        a + 3 <= b <= f.len(),
        a == i || stands_apart(f, a),
        one_burst(f, a, b),
        b < f.len() ==> stands_apart(f, b),
    ensures
        burst_events(f, i).contains(burst_event(f, a, b)),
    decreases f.len() - i,
{
    let periph = f[i].peripheral@;
    let end = burst_end(f, periph, i + 1);
    lemma_burst_end(f, periph, i + 1);
    lemma_burst_run(f, periph, i + 1);
    lemma_burst_stops(f, periph, i + 1);
    assert(one_burst(f, i, end));
    if i == a {
        if end < b {
            assert(f[end].peripheral@ == f[a].peripheral@ && f[end].insn - f[end - 1].insn < 50);
        } else if end > b {
            assert(f[b].peripheral@ == f[i].peripheral@ && f[b].insn - f[b - 1].insn < 50);
            assert(b - 1 == a || f[b - 1].peripheral@ == f[a].peripheral@);
        }
        assert(burst_events(f, i)[0] == burst_event(f, a, b));
    } else {
        if end > a {
            assert(f[a].peripheral@ == periph && f[a].insn - f[a - 1].insn < 50);
            assert(a - 1 == i || f[a - 1].peripheral@ == periph);
        }
        law_every_burst_is_an_event(f, end, a, b);
        let k = choose|k: int|
            0 <= k < burst_events(f, end).len() && burst_events(f, end)[k] == burst_event(f, a, b);
        if end - i >= 3 {
            assert(burst_events(f, i)[k + 1] == burst_event(f, a, b));
        } else {
            assert(burst_events(f, i)[k] == burst_event(f, a, b));
        }
    }
}

proof fn lemma_burst_stops(f: Seq<MmioHistoryEntry>, periph: Seq<char>, j: int)
    requires
        1 <= j <= f.len(),
    ensures
        ({
            let end = burst_end(f, periph, j);
            end < f.len() ==> !continues_burst(f[end - 1], f[end], periph)
        }),
    decreases f.len() - j,
{
    if j < f.len() && continues_burst(f[j - 1], f[j], periph) {
        lemma_burst_stops(f, periph, j + 1);
    }
}

/// Whether two accesses read one address and gave one value.
pub open spec fn same_read(a: MmioHistoryEntry, b: MmioHistoryEntry) -> bool {
    &&& a.direction@ == "read"@
    &&& b.direction@ == "read"@
    &&& a.address == b.address
    &&& a.value == b.value
}

/// Whether a pattern tells of the accesses from one up to another: what it is
/// called, the address and value of the first, and where both ends stand.
pub open spec fn tells_of(
    p: PatternView,
    h: Seq<MmioHistoryEntry>,
    kind: Seq<char>,
    a: int,
    b: int,
    count: int,
) -> bool {
    &&& p.kind == kind
    &&& p.address == h[a].address
    &&& p.value == Some(h[a].value)
    &&& p.secondary_address is None
    &&& p.count == count
    &&& p.first_insn == h[a].insn && p.first_pc == h[a].pc
    &&& p.last_insn == h[b - 1].insn && p.last_pc == h[b - 1].pc
}

/// Every run of at least five reads of one address and value is reported as a
/// busy wait, whole: its first read to its last.
pub proof fn law_every_busy_wait_is_reported(h: Seq<MmioHistoryEntry>, i: int, a: int, b: int) -> (k: int)
    requires
        0 <= i <= a,
        a + 5 <= b <= h.len(),
        a == i || !same_read(h[a - 1], h[a]),
        run_of(h, a, b, h[a].address, Some(h[a].value)),
        b < h.len() ==> !same_read(h[b - 1], h[b]),
    ensures
        0 <= k < busy_waits(h, i).len(),
        tells_of(busy_waits(h, i)[k], h, "busy_wait"@, a, b, b - a),
    decreases h.len() - i,
{
    assert(is_read(h[a]));
    if !is_read(h[i]) {
        law_every_busy_wait_is_reported(h, i + 1, a, b)
    } else {
        let (addr, val) = (h[i].address, h[i].value);
        let end = same_read_end(h, addr, val, i + 1);
        lemma_ends(h, addr, val, i + 1);
        lemma_same_read_run(h, addr, val, i + 1);
        lemma_same_read_stops(h, addr, val, i + 1);
        assert(run_of(h, i, end, addr, Some(val)));
        if i == a {
            if end < b {
                assert(reads(h[end], addr) && h[end].value == val);
            } else if end > b {
                assert(same_read(h[b - 1], h[b]));
            }
            assert(busy_waits(h, i)[0] == spanning(h, "busy_wait"@, i, end, end - i));
            0
        } else {
            if end > a {
                assert(same_read(h[a - 1], h[a]));
            }
            let k = law_every_busy_wait_is_reported(h, end, a, b);
            if end - i >= 5 {
                assert(busy_waits(h, i)[k + 1] == busy_waits(h, end)[k]);
                k + 1
            } else {
                k
            }
        }
    }
}

proof fn lemma_same_read_stops(h: Seq<MmioHistoryEntry>, addr: u32, val: u32, j: int)
    requires
        0 <= j <= h.len(),
    ensures
        ({
            let end = same_read_end(h, addr, val, j);
            end < h.len() ==> !(reads(h[end], addr) && h[end].value == val)
        }),
    decreases h.len() - j,
{
    if j < h.len() && reads(h[j], addr) && h[j].value == val {
        lemma_same_read_stops(h, addr, val, j + 1);
    }
}

proof fn lemma_reads_are_no_writes()
    ensures
        "read"@ != "write"@,
{
    reveal_strlit("read");
    reveal_strlit("write");
    assert("read"@.len() == 4 && "write"@.len() == 5);
}

/// Every write that at least three reads of its address follow is reported with
/// all of them.
pub proof fn law_every_written_poll_is_reported(h: Seq<MmioHistoryEntry>, i: int, a: int, b: int) -> (k: int)
    requires
        0 <= i <= a,
        a + 4 <= b <= h.len(),
        h[a].direction@ == "write"@,
        reads_all(h, a + 1, b, h[a].address),
        b < h.len() ==> !(h[b].direction@ == "read"@ && h[b].address == h[a].address),
    ensures
        0 <= k < written_polls(h, i).len(),
        tells_of(written_polls(h, i)[k], h, "write_then_poll"@, a, b, b - a - 1),
    decreases h.len() - i,
{
    lemma_reads_are_no_writes();
    if !is_write(h[i]) {
        law_every_written_poll_is_reported(h, i + 1, a, b)
    } else {
        let addr = h[i].address;
        let end = read_end(h, addr, i + 1);
        lemma_ends(h, addr, 0, i + 1);
        lemma_read_run(h, addr, i + 1);
        lemma_read_stops(h, addr, i + 1);
        if i == a {
            if end < b {
                assert(reads(h[end], addr));
            } else if end > b {
                assert(h[b].direction@ == "read"@ && h[b].address == addr);
            }
            assert(written_polls(h, i)[0] == spanning(
                h,
                "write_then_poll"@,
                i,
                end,
                end - (i + 1),
            ));
            0
        } else {
            if end > a {
                assert(h[a].direction@ == "read"@);
            }
            let k = law_every_written_poll_is_reported(h, end, a, b);
            if end - (i + 1) >= 3 {
                assert(written_polls(h, i)[k + 1] == written_polls(h, end)[k]);
                k + 1
            } else {
                k
            }
        }
    }
}

proof fn lemma_read_stops(h: Seq<MmioHistoryEntry>, addr: u32, j: int)
    requires
        0 <= j <= h.len(),
    ensures
        read_end(h, addr, j) < h.len() ==> !reads(h[read_end(h, addr, j)], addr),
    decreases h.len() - j,
{
    if j < h.len() && reads(h[j], addr) {
        lemma_read_stops(h, addr, j + 1);
    }
}

/// Every write of the top bit that is polled at least twice is reported, up to
/// the read that shows the bit clear, or to the last read there is.
pub proof fn law_every_polled_command_is_reported(h: Seq<MmioHistoryEntry>, i: int, a: int, b: int) -> (k: int)
    requires
        0 <= i <= a,
        a + 3 <= b <= h.len(),
        h[a].direction@ == "write"@,
        h[a].value >= 0x8000_0000,
        reads_all(h, a + 1, b, h[a].address),
        forall|m: int| a < m < b - 1 ==> (#[trigger] h[m]).value >= 0x8000_0000,
        h[b - 1].value < 0x8000_0000 || b == h.len() || !(h[b].direction@ == "read"@ && h[b].address
            == h[a].address),
    ensures
        0 <= k < command_bits(h, i).len(),
        tells_of(command_bits(h, i)[k], h, "command_bit"@, a, b, b - a - 1),
    decreases h.len() - i,
{
    lemma_reads_are_no_writes();
    crate::bits::lemma_fields(h[a].value);
    if !is_write(h[i]) || h[i].value & 0x8000_0000 == 0 {
        law_every_polled_command_is_reported(h, i + 1, a, b)
    } else {
        let addr = h[i].address;
        let end = poll_end(h, addr, i + 1);
        lemma_ends(h, addr, 0, i + 1);
        lemma_poll_run(h, addr, i + 1);
        if i == a {
            lemma_poll_end_is(h, addr, a + 1, b);
            assert(command_bits(h, i)[0] == spanning(h, "command_bit"@, i, end, end - (i + 1)));
            0
        } else {
            if end > a {
                assert(h[a].direction@ == "read"@);
            }
            let k = law_every_polled_command_is_reported(h, end, a, b);
            if end - (i + 1) >= 2 {
                assert(command_bits(h, i)[k + 1] == command_bits(h, end)[k]);
                k + 1
            } else {
                k
            }
        }
    }
}

proof fn lemma_poll_end_is(h: Seq<MmioHistoryEntry>, addr: u32, j: int, b: int)
    requires
        0 <= j < b <= h.len(),
        reads_all(h, j, b, addr),
        forall|m: int| j <= m < b - 1 ==> (#[trigger] h[m]).value >= 0x8000_0000,
        h[b - 1].value < 0x8000_0000 || b == h.len() || !(h[b].direction@ == "read"@ && h[b].address
            == addr),
    ensures
        poll_end(h, addr, j) == b,
    decreases b - j,
{
    crate::bits::lemma_fields(h[j].value);
    assert(h[j].direction@ == "read"@ && h[j].address == addr);
    if j + 1 < b {
        lemma_poll_end_is(h, addr, j + 1, b);
    } else if h[j].value >= 0x8000_0000 {
        assert(poll_end(h, addr, b) == b);
    }
}

/// A history of fewer than three accesses shows no pattern; any other shows its
/// busy waits, its polls and its commands, and nothing else. They are listed by
/// the instruction they begin at, none left out.
pub proof fn law_patterns_are_listed_in_order(
    h: Seq<MmioHistoryEntry>,
    list: Seq<PatternView>,
    i: int,
    j: int,
)
    requires
        stable_order(all_patterns(h), list),
    ensures
        h.len() < 3 ==> list.len() == 0,
        h.len() >= 3 ==> list.len() == busy_waits(h, 0).len() + written_polls(h, 0).len()
            + command_bits(h, 0).len(),
        0 <= i < j < list.len() ==> list[i].first_insn <= list[j].first_insn,
        h.len() >= 3 && 0 <= i < busy_waits(h, 0).len() ==> list.contains(busy_waits(h, 0)[i]),
        h.len() >= 3 && 0 <= i < written_polls(h, 0).len() ==> list.contains(
            written_polls(h, 0)[i],
        ),
        h.len() >= 3 && 0 <= i < command_bits(h, 0).len() ==> list.contains(command_bits(h, 0)[i]),
{
    let all = all_patterns(h);
    let (x, y, z) = (busy_waits(h, 0), written_polls(h, 0), command_bits(h, 0));
    if h.len() >= 3 {
        if 0 <= i < x.len() {
            assert(all[i] == x[i]);
            lemma_listed(all, list, i);
        }
        if 0 <= i < y.len() {
            assert(all[x.len() + i] == y[i]);
            lemma_listed(all, list, x.len() + i);
        }
        if 0 <= i < z.len() {
            assert(all[x.len() + y.len() + i] == z[i]);
            lemma_listed(all, list, x.len() + y.len() + i);
        }
    }
}

proof fn lemma_listed(all: Seq<PatternView>, list: Seq<PatternView>, i: int)
    requires
        stable_order(all, list),
        0 <= i < all.len(),
    ensures
        list.contains(all[i]),
{
    let at = begins_at(all[i].first_insn);
    assert(list.filter(at) == all.filter(at));
    all.filter_lemma(at);
    assert(at(all[i]));
    assert(all.filter(at).contains(all[i]));
    list.lemma_filter_contains_rev(at, all[i]);
}

} // verus!
