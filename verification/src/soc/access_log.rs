//! What the bank remembers of the accesses it routed: a ring of recent ones,
//! the last access of each address, and an optional line-by-line trace.

use std::collections::VecDeque;

use vstd::prelude::*;

use crate::text::{append_decimal};

verus! {

/// Addresses whose last access is remembered.
pub const LAST_ACCESS_MAX: usize = 4096;

pub const DEFAULT_AUX_WRITE_HISTORY_SIZE: usize = 8192;

pub const DEFAULT_MMIO_HISTORY_SIZE: usize = 8192;

/// One access of the ring of recent ones.
#[derive(Clone, Copy, Debug)]
pub struct MmioHistoryEntry {
    pub insn: u64,
    pub pc: u32,
    pub blink: u32,
    pub address: u32,
    pub value: u32,
    pub direction: &'static str,
    pub width: &'static str,
    pub peripheral: &'static str,
    /// Whether the access bypassed the cache.
    pub di: bool,
}

/// One write of an auxiliary register.
#[derive(Clone, Copy, Debug, PartialEq, Eq, Structural)]
pub struct AuxWriteHistoryEntry {
    pub insn: u64,
    pub pc: u32,
    pub aux_num: u32,
    pub value: u32,
}

/// The last access of an address.
#[derive(Clone, Copy, Debug)]
pub struct LastAccessInfo {
    pub pc: u32,
    pub blink: u32,
    pub insn: u64,
    pub direction: &'static str,
    pub value: u32,
}

/// A remembered address and its last access.
#[derive(Clone, Copy, Debug)]
pub struct LastAccess {
    pub address: u32,
    pub info: LastAccessInfo,
}

/// Whether an address passes a filter of half-open ranges. An empty filter
/// passes everything.
pub open spec fn passes(ranges: Seq<(u32, u32)>, addr: u32) -> bool {
    ranges.len() == 0 || exists|i: int|
        0 <= i < ranges.len() && (#[trigger] ranges[i]).0 <= addr < ranges[i].1
}

/// A truth value as JSON writes it.
pub open spec fn json_bool(b: bool) -> Seq<char> {
    if b {
        "true"@
    } else {
        "false"@
    }
}

/// The trace line of an access.
pub open spec fn trace_line(
    cycle: u64,
    pc: u32,
    addr: u32,
    value: u32,
    rw: Seq<char>,
    width: Seq<char>,
    periph: Seq<char>,
    di: bool,
) -> Seq<char> {
    "{\"cycle\":"@ + crate::text::decimal(cycle as nat) + ",\"pc\":"@ + crate::text::decimal(
        pc as nat,
    ) + ",\"addr\":"@ + crate::text::decimal(addr as nat) + ",\"value\":"@ + crate::text::decimal(
        value as nat,
    ) + ",\"rw\":\""@ + rw + "\",\"width\":\""@ + width + "\",\"periph\":\""@ + periph
        + "\",\"di\":"@ + json_bool(di) + "}"@
}

/// The line-by-line trace, as values.
#[verifier::ext_equal]
pub struct SeqTraceState {
    pub ranges: Seq<(u32, u32)>,
    pub lines: Seq<Seq<char>>,
}

/// The line-by-line trace: one JSON object per access that passes the filter.
/// The lines wait here until a front end takes them.
#[derive(Clone, Debug)]
pub struct SeqTrace {
    /// Filter ranges `[start, end)`. Empty records everything.
    pub ranges: Vec<(u32, u32)>,
    pub lines: Vec<String>,
}

pub open spec fn texts(lines: Seq<String>) -> Seq<Seq<char>> {
    Seq::new(lines.len(), |i: int| lines[i]@)
}

impl View for SeqTrace {
    type V = SeqTraceState;

    open spec fn view(&self) -> SeqTraceState {
        SeqTraceState { ranges: self.ranges@, lines: texts(self.lines@) }
    }
}

impl SeqTrace {
    /// A trace with a filter and no lines yet.
    pub fn with_ranges(ranges: Vec<(u32, u32)>) -> (r: Self)
        ensures
            r@ == (SeqTraceState { ranges: ranges@, lines: Seq::empty() }),
    {
        let r = SeqTrace { ranges, lines: Vec::new() };
        assert(r@ =~= (SeqTraceState { ranges: ranges@, lines: Seq::empty() }));
        r
    }

    pub fn addr_matches(&self, addr: u32) -> (r: bool)
        ensures
            r == passes(self@.ranges, addr),
    {
        let n: usize = self.ranges.len();
        if n == 0 {
            return true;
        }
        for i in 0..n
            invariant
                n == self.ranges@.len(),
                forall|k: int|
                    0 <= k < i ==> !((#[trigger] self.ranges@[k]).0 <= addr < self.ranges@[k].1),
        {
            let (start, end) = self.ranges[i];
            if addr >= start && addr < end {
                assert(self@.ranges[i as int].0 <= addr < self@.ranges[i as int].1);
                return true;
            }
        }
        false
    }

    /// Add the line of an access.
    pub fn emit(
        &mut self,
        cycle: u64,
        pc: u32,
        addr: u32,
        value: u32,
        rw: &str,
        width: &str,
        periph: &str,
        di: bool,
    )
        ensures
            final(self)@ == (SeqTraceState {
                lines: old(self)@.lines.push(
                    trace_line(cycle, pc, addr, value, rw@, width@, periph@, di),
                ),
                ..old(self)@
            }),
    {
        let mut line = String::new();
        line.append("{\"cycle\":");
        append_decimal(&mut line, cycle);
        line.append(",\"pc\":");
        append_decimal(&mut line, pc as u64);
        line.append(",\"addr\":");
        append_decimal(&mut line, addr as u64);
        line.append(",\"value\":");
        append_decimal(&mut line, value as u64);
        line.append(",\"rw\":\"");
        line.append(rw);
        line.append("\",\"width\":\"");
        line.append(width);
        line.append("\",\"periph\":\"");
        line.append(periph);
        line.append("\",\"di\":");
        if di {
            line.append("true");
        } else {
            line.append("false");
        }
        line.append("}");
        assert(line@ =~= trace_line(cycle, pc, addr, value, rw@, width@, periph@, di));
        self.lines.push(line);
        assert(self@.lines =~= old(self)@.lines.push(
            trace_line(cycle, pc, addr, value, rw@, width@, periph@, di),
        ));
    }

    /// Take the lines, oldest first.
    pub fn take_lines(&mut self) -> (r: Vec<String>)
        ensures
            texts(r@) == old(self)@.lines,
            final(self)@ == (SeqTraceState { lines: Seq::empty(), ..old(self)@ }),
    {
        let mut taken: Vec<String> = Vec::new();
        std::mem::swap(&mut taken, &mut self.lines);
        assert(self@ =~= (SeqTraceState { lines: Seq::empty(), ..old(self)@ }));
        taken
    }
}

/// The log, as values.
#[verifier::ext_equal]
pub struct LogState {
    pub pc: u32,
    pub blink: u32,
    pub insn: u64,
    pub di: bool,
    pub history: Seq<MmioHistoryEntry>,
    pub history_max: int,
    pub aux: Seq<AuxWriteHistoryEntry>,
    pub aux_max: int,
    pub last: Seq<LastAccess>,
    pub seq_trace: Option<SeqTraceState>,
}

/// A ring with one more element: the oldest makes room where the ring is full.
pub open spec fn ring_push<T>(ring: Seq<T>, max: int, e: T) -> Seq<T> {
    if max == 0 {
        ring
    } else if ring.len() >= max {
        ring.skip(1).push(e)
    } else {
        ring.push(e)
    }
}

/// The records of other addresses.
pub open spec fn elsewhere(addr: u32) -> spec_fn(LastAccess) -> bool {
    |e: LastAccess| e.address != addr
}

/// The records with one more access: an address has one, the newest, and the
/// oldest makes room where they are full.
pub open spec fn remembered(last: Seq<LastAccess>, e: LastAccess) -> Seq<LastAccess> {
    let others = last.filter(elsewhere(e.address));
    (if others.len() >= LAST_ACCESS_MAX {
        others.skip(1)
    } else {
        others
    }).push(e)
}

/// Whether no address has two records.
#[verifier::opaque]
pub open spec fn one_each(last: Seq<LastAccess>) -> bool {
    forall|i: int, j: int|
        0 <= i < j < last.len() ==> (#[trigger] last[i]).address != (#[trigger] last[j]).address
}

impl LogState {
    /// An address is remembered once, and no more addresses than there is room
    /// for.
    pub open spec fn wf(self) -> bool {
        one_each(self.last) && self.last.len() <= LAST_ACCESS_MAX
    }

    /// The log after an access goes into the ring.
    #[verifier::opaque]
    pub open spec fn after_history(
        self,
        addr: u32,
        value: u32,
        direction: &'static str,
        width: &'static str,
        peripheral: &'static str,
    ) -> LogState {
        LogState {
            history: ring_push(
                self.history,
                self.history_max,
                MmioHistoryEntry {
                    insn: self.insn,
                    pc: self.pc,
                    blink: self.blink,
                    address: addr,
                    value,
                    direction,
                    width,
                    peripheral,
                    di: self.di,
                },
            ),
            ..self
        }
    }

    /// The log after an access goes to the line-by-line trace.
    #[verifier::opaque]
    pub open spec fn after_emit(
        self,
        addr: u32,
        value: u32,
        rw: Seq<char>,
        width: Seq<char>,
        periph: Seq<char>,
    ) -> LogState {
        match self.seq_trace {
            Some(t) => if passes(t.ranges, addr) {
                LogState {
                    seq_trace: Some(
                        SeqTraceState {
                            lines: t.lines.push(
                                trace_line(
                                    self.insn,
                                    self.pc,
                                    addr,
                                    value,
                                    rw,
                                    width,
                                    periph,
                                    self.di,
                                ),
                            ),
                            ..t
                        },
                    ),
                    ..self
                }
            } else {
                self
            },
            None => self,
        }
    }

    /// The log after a routed word read.
    #[verifier::opaque]
    pub open spec fn after_word_read(
        self,
        addr: u32,
        value: u32,
        peripheral: &'static str,
    ) -> LogState {
        self.after_history(addr, value, "read", "word", peripheral).after_emit(
            addr,
            value,
            "r"@,
            "word"@,
            peripheral@,
        )
    }

    /// The log after a routed word write.
    #[verifier::opaque]
    pub open spec fn after_word_write(
        self,
        addr: u32,
        value: u32,
        peripheral: &'static str,
    ) -> LogState {
        self.after_history(addr, value, "write", "word", peripheral).after_emit(
            addr,
            value,
            "w"@,
            "word"@,
            peripheral@,
        )
    }

    /// The log after an access is remembered for its address.
    #[verifier::opaque]
    pub open spec fn after_remembering(
        self,
        addr: u32,
        value: u32,
        direction: &'static str,
    ) -> LogState {
        LogState {
            last: remembered(
                self.last,
                LastAccess {
                    address: addr,
                    info: LastAccessInfo {
                        pc: self.pc,
                        blink: self.blink,
                        insn: self.insn,
                        direction,
                        value,
                    },
                },
            ),
            ..self
        }
    }
}

/// The record of an address, if there is one.
pub open spec fn record_of(last: Seq<LastAccess>, addr: u32) -> Option<LastAccessInfo>
    decreases last.len(),
{
    if last.len() == 0 {
        None
    } else if last.last().address == addr {
        Some(last.last().info)
    } else {
        record_of(last.drop_last(), addr)
    }
}

#[derive(Clone, Debug)]
pub struct AccessLog {
    /// The instruction that is accessing.
    pub current_pc: u32,
    pub current_blink: u32,
    pub current_insn: u64,
    /// Whether it bypasses the cache.
    pub current_di: bool,
    pub mmio_history: VecDeque<MmioHistoryEntry>,
    pub mmio_history_max: usize,
    pub aux_write_history: VecDeque<AuxWriteHistoryEntry>,
    pub aux_write_history_max: usize,
    /// Last accesses, the oldest first.
    pub last_access: Vec<LastAccess>,
    pub seq_trace: Option<SeqTrace>,
}

impl View for AccessLog {
    type V = LogState;

    open spec fn view(&self) -> LogState {
        LogState {
            pc: self.current_pc,
            blink: self.current_blink,
            insn: self.current_insn,
            di: self.current_di,
            history: self.mmio_history@,
            history_max: self.mmio_history_max as int,
            aux: self.aux_write_history@,
            aux_max: self.aux_write_history_max as int,
            last: self.last_access@,
            seq_trace: match self.seq_trace {
                Some(t) => Some(t@),
                None => None,
            },
        }
    }
}

impl AccessLog {
    pub open spec fn wf(&self) -> bool {
        self@.wf()
    }

    pub fn new() -> (r: Self)
        ensures
            r.wf(),
            r@ == (LogState {
                pc: 0,
                blink: 0,
                insn: 0,
                di: false,
                history: Seq::empty(),
                history_max: DEFAULT_MMIO_HISTORY_SIZE as int,
                aux: Seq::empty(),
                aux_max: DEFAULT_AUX_WRITE_HISTORY_SIZE as int,
                last: Seq::empty(),
                seq_trace: None,
            }),
    {
        proof {
            reveal(one_each);
        }
        AccessLog {
            current_pc: 0,
            current_blink: 0,
            current_insn: 0,
            current_di: false,
            mmio_history: VecDeque::with_capacity(DEFAULT_MMIO_HISTORY_SIZE),
            mmio_history_max: DEFAULT_MMIO_HISTORY_SIZE,
            aux_write_history: VecDeque::with_capacity(DEFAULT_AUX_WRITE_HISTORY_SIZE),
            aux_write_history_max: DEFAULT_AUX_WRITE_HISTORY_SIZE,
            last_access: Vec::new(),
            seq_trace: None,
        }
    }

    /// Say which instruction is accessing.
    pub fn set_context(&mut self, pc: u32, blink: u32, insn: u64, di: bool)
        ensures
            final(self)@ == (LogState { pc, blink, insn, di, ..old(self)@ }),
    {
        self.current_pc = pc;
        self.current_blink = blink;
        self.current_insn = insn;
        self.current_di = di;
    }

    pub fn record_history(
        &mut self,
        addr: u32,
        value: u32,
        direction: &'static str,
        width: &'static str,
        peripheral: &'static str,
    )
        ensures
            final(self)@ == old(self)@.after_history(addr, value, direction, width, peripheral),
            final(self)@.last == old(self)@.last,
    {
        proof {
            reveal(LogState::after_history);
        }
        if self.mmio_history_max == 0 {
            return;
        }
        if self.mmio_history.len() >= self.mmio_history_max {
            self.mmio_history.pop_front();
            assert(self.mmio_history@ =~= old(self).mmio_history@.skip(1));
        }
        self.mmio_history.push_back(
            MmioHistoryEntry {
                insn: self.current_insn,
                pc: self.current_pc,
                blink: self.current_blink,
                address: addr,
                value,
                direction,
                width,
                peripheral,
                di: self.current_di,
            },
        );
    }

    /// Record a write of an auxiliary register.
    pub fn record_aux_write(&mut self, aux_num: u32, value: u32)
        ensures
            final(self)@ == (LogState {
                aux: ring_push(
                    old(self)@.aux,
                    old(self)@.aux_max,
                    AuxWriteHistoryEntry {
                        insn: old(self)@.insn,
                        pc: old(self)@.pc,
                        aux_num,
                        value,
                    },
                ),
                ..old(self)@
            }),
    {
        if self.aux_write_history_max == 0 {
            return;
        }
        if self.aux_write_history.len() >= self.aux_write_history_max {
            self.aux_write_history.pop_front();
            assert(self.aux_write_history@ =~= old(self).aux_write_history@.skip(1));
        }
        self.aux_write_history.push_back(
            AuxWriteHistoryEntry {
                insn: self.current_insn,
                pc: self.current_pc,
                aux_num,
                value,
            },
        );
    }

    /// Add an access to the line-by-line trace, where there is one and the
    /// address passes its filter.
    pub fn seq_emit(&mut self, addr: u32, value: u32, rw: &str, width: &str, periph: &str)
        ensures
            final(self)@ == old(self)@.after_emit(addr, value, rw@, width@, periph@),
            final(self)@.last == old(self)@.last,
    {
        proof {
            reveal(LogState::after_emit);
        }
        let (insn, pc, di) = (self.current_insn, self.current_pc, self.current_di);
        if let Some(t) = &mut self.seq_trace {
            if t.addr_matches(addr) {
                t.emit(insn, pc, addr, value, rw, width, periph, di);
            }
        }
        assert(self@ =~= old(self)@.after_emit(addr, value, rw@, width@, periph@));
    }

    pub fn record_word_read(&mut self, addr: u32, value: u32, peripheral: &'static str)
        ensures
            final(self)@ == old(self)@.after_word_read(addr, value, peripheral),
            final(self)@.last == old(self)@.last,
    {
        proof {
            reveal(LogState::after_word_read);
        }
        self.record_history(addr, value, "read", "word", peripheral);
        self.seq_emit(addr, value, "r", "word", peripheral);
    }

    pub fn record_word_write(&mut self, addr: u32, value: u32, peripheral: &'static str)
        ensures
            final(self)@ == old(self)@.after_word_write(addr, value, peripheral),
            final(self)@.last == old(self)@.last,
    {
        proof {
            reveal(LogState::after_word_write);
        }
        self.record_history(addr, value, "write", "word", peripheral);
        self.seq_emit(addr, value, "w", "word", peripheral);
    }

    /// Remember an access as the last of its address.
    pub fn record_last_access(&mut self, addr: u32, value: u32, direction: &'static str)
        ensures
            final(self)@ == old(self)@.after_remembering(addr, value, direction),
            old(self).wf() ==> final(self).wf(),
    {
        proof {
            reveal(LogState::after_remembering);
        }
        let n: usize = self.last_access.len();
        let mut others: Vec<LastAccess> = Vec::new();
        let ghost keep = elsewhere(addr);
        proof {
            reveal(Seq::filter);
            assert(self.last_access@.take(0) =~= Seq::<LastAccess>::empty());
        }
        for i in 0..n
            invariant
                n == self.last_access@.len(),
                *self == *old(self),
                keep == elsewhere(addr),
                others@ == self.last_access@.take(i as int).filter(keep),
        {
            proof {
                reveal(Seq::filter);
                assert(self.last_access@.take(i + 1).drop_last() =~= self.last_access@.take(
                    i as int,
                ));
                assert(self.last_access@.take(i + 1).last() == self.last_access@[i as int]);
            }
            if self.last_access[i].address != addr {
                others.push(self.last_access[i]);
            }
        }
        assert(self.last_access@.take(n as int) =~= self.last_access@);
        let ghost all = others@;
        if others.len() >= LAST_ACCESS_MAX {
            others.remove(0);
            assert(others@ =~= all.skip(1));
        }
        others.push(
            LastAccess {
                address: addr,
                info: LastAccessInfo {
                    pc: self.current_pc,
                    blink: self.current_blink,
                    insn: self.current_insn,
                    direction,
                    value,
                },
            },
        );
        self.last_access = others;
        proof {
            if old(self).wf() {
                lemma_remembering_keeps_one_each(old(self)@.last, self@.last.last());
            }
        }
    }

    /// The last access of an address, if it is remembered.
    pub fn last_access_of(&self, addr: u32) -> (r: Option<LastAccessInfo>)
        ensures
            r == record_of(self@.last, addr),
    {
        let n: usize = self.last_access.len();
        let mut i: usize = n;
        assert(self.last_access@.take(n as int) =~= self.last_access@);
        while i > 0
            invariant
                i <= n,
                n == self.last_access@.len(),
                record_of(self@.last, addr) == record_of(self.last_access@.take(i as int), addr),
            decreases i,
        {
            proof {
                assert(self.last_access@.take(i as int).drop_last() =~= self.last_access@.take(
                    i - 1,
                ));
                assert(self.last_access@.take(i as int).last() == self.last_access@[i - 1]);
            }
            if self.last_access[i - 1].address == addr {
                return Some(self.last_access[i - 1].info);
            }
            i = i - 1;
        }
        None
    }
}

/// Leaving records out leaves at most one of each address.
proof fn lemma_others_are_one_each(last: Seq<LastAccess>, addr: u32)
    requires
        one_each(last),
    ensures
        one_each(last.filter(elsewhere(addr))),
        forall|i: int|
            0 <= i < last.filter(elsewhere(addr)).len() ==> (#[trigger] last.filter(
                elsewhere(addr),
            )[i]).address != addr && last.contains(last.filter(elsewhere(addr))[i]),
    decreases last.len(),
{
    reveal(one_each);
    reveal(Seq::filter);
    let keep = elsewhere(addr);
    if last.len() > 0 {
        let init = last.drop_last();
        let kept = init.filter(keep);
        assert forall|i: int, j: int| 0 <= i < j < init.len() implies (#[trigger] init[i]).address
            != (#[trigger] init[j]).address by {
            assert(last[i] == init[i] && last[j] == init[j]);
        }
        lemma_others_are_one_each(init, addr);
        assert forall|i: int| 0 <= i < kept.len() implies (#[trigger] kept[i]).address != addr
            && last.contains(kept[i]) && kept[i].address != last.last().address by {
            let k = choose|k: int| 0 <= k < init.len() && init[k] == kept[i];
            assert(last[k] == kept[i]);
            assert(last[last.len() - 1] == last.last());
        }
        assert(last.contains(last.last()));
        let all = last.filter(keep);
        assert(all == if keep(last.last()) {
            kept.push(last.last())
        } else {
            kept
        });
    }
}

proof fn lemma_remembering_keeps_one_each(last: Seq<LastAccess>, e: LastAccess)
    requires
        one_each(last),
    ensures
        one_each(remembered(last, e)),
        last.len() <= LAST_ACCESS_MAX ==> remembered(last, e).len() <= LAST_ACCESS_MAX,
{
    reveal(one_each);
    lemma_others_are_one_each(last, e.address);
    last.lemma_filter_len(elsewhere(e.address));
    let others = last.filter(elsewhere(e.address));
    let kept = if others.len() >= LAST_ACCESS_MAX {
        others.skip(1)
    } else {
        others
    };
    assert forall|i: int| 0 <= i < kept.len() implies (#[trigger] kept[i]).address != e.address by {
        if others.len() >= LAST_ACCESS_MAX {
            assert(kept[i] == others[i + 1]);
        }
    }
    assert forall|i: int, j: int| 0 <= i < j < kept.len() implies (#[trigger] kept[i]).address != (
    #[trigger] kept[j]).address by {
        if others.len() >= LAST_ACCESS_MAX {
            assert(kept[i] == others[i + 1] && kept[j] == others[j + 1]);
        }
    }
}

/// An address that no record names has none.
proof fn lemma_no_record(last: Seq<LastAccess>, addr: u32)
    requires
        forall|i: int| 0 <= i < last.len() ==> (#[trigger] last[i]).address != addr,
    ensures
        record_of(last, addr) is None,
    decreases last.len(),
{
    if last.len() > 0 {
        assert(last[last.len() - 1] == last.last());
        assert forall|i: int| 0 <= i < last.drop_last().len() implies (
        #[trigger] last.drop_last()[i]).address != addr by {
            assert(last.drop_last()[i] == last[i]);
        }
        lemma_no_record(last.drop_last(), addr);
    }
}

/// With the records full, an access to a new address takes the place of the
/// oldest one, and nothing of that is found any more.
pub proof fn law_evicted_access_is_forgotten(last: Seq<LastAccess>, e: LastAccess)
    requires
        one_each(last),
        last.len() == 4096,
        forall|i: int| 0 <= i < last.len() ==> (#[trigger] last[i]).address != e.address,
    ensures
        remembered(last, e) == last.skip(1).push(e),
        record_of(remembered(last, e), last[0].address) is None,
{
    reveal(one_each);
    lemma_nothing_left_out(last, e.address);
    let next = remembered(last, e);
    assert(next =~= last.skip(1).push(e));
    assert forall|i: int| 0 <= i < next.len() implies (#[trigger] next[i]).address
        != last[0].address by {
        if i < next.len() - 1 {
            assert(next[i] == last[i + 1]);
        }
    }
    lemma_no_record(next, last[0].address);
}

proof fn lemma_nothing_left_out(last: Seq<LastAccess>, addr: u32)
    requires
        forall|i: int| 0 <= i < last.len() ==> (#[trigger] last[i]).address != addr,
    ensures
        last.filter(elsewhere(addr)) == last,
    decreases last.len(),
{
    reveal(Seq::filter);
    if last.len() > 0 {
        assert forall|i: int| 0 <= i < last.drop_last().len() implies (
        #[trigger] last.drop_last()[i]).address != addr by {
            assert(last.drop_last()[i] == last[i]);
        }
        lemma_nothing_left_out(last.drop_last(), addr);
        assert(last[last.len() - 1] == last.last());
        assert(last.drop_last().push(last.last()) =~= last);
    }
}

/// The newest access of an address is the one remembered, and the records stay
/// within their bound.
pub proof fn law_newest_access_is_remembered(last: Seq<LastAccess>, e: LastAccess)
    requires
        last.len() <= 4096,
    ensures
        record_of(remembered(last, e), e.address) == Some(e.info),
        remembered(last, e).len() <= 4096,
        remembered(last, e).last() == e,
{
    last.lemma_filter_len(elsewhere(e.address));
    assert(remembered(last, e).last() == e);
}

/// A ring never grows past its bound and ends in what was pushed. Before it
/// stands what was there, in order, without the oldest where the ring was full.
/// A ring without room takes nothing.
pub proof fn law_ring_stays_bounded<T>(ring: Seq<T>, max: int, e: T, i: int)
    requires
        0 <= max,
        ring.len() <= max,
    ensures
        ring_push(ring, max, e).len() <= max,
        max > 0 ==> ring_push(ring, max, e).last() == e,
        max == 0 ==> ring_push(ring, max, e) == ring,
        ring.len() < max ==> ring_push(ring, max, e).len() == ring.len() + 1,
        0 < max && ring.len() == max ==> ring_push(ring, max, e).len() == max,
        ring.len() < max && 0 <= i < ring.len() ==> ring_push(ring, max, e)[i] == ring[i],
        0 < max && ring.len() == max && 0 < i < ring.len() ==> ring_push(ring, max, e)[i - 1]
            == ring[i],
{
}

/// Remembering an access leaves the records of other addresses, as long as
/// there is room.
pub proof fn law_other_records_stay(last: Seq<LastAccess>, e: LastAccess, addr: u32)
    requires
        last.len() < 4096,
        addr != e.address,
    ensures
        record_of(remembered(last, e), addr) == record_of(last, addr),
{
    last.lemma_filter_len(elsewhere(e.address));
    let others = last.filter(elsewhere(e.address));
    lemma_others_records(last, e.address, addr);
    assert(remembered(last, e) == others.push(e));
    assert(others.push(e).drop_last() =~= others);
}

proof fn lemma_others_records(last: Seq<LastAccess>, gone: u32, addr: u32)
    requires
        addr != gone,
    ensures
        record_of(last.filter(elsewhere(gone)), addr) == record_of(last, addr),
    decreases last.len(),
{
    reveal(Seq::filter);
    if last.len() > 0 {
        let rest = last.drop_last();
        lemma_others_records(rest, gone, addr);
        let kept = rest.filter(elsewhere(gone));
        if last.last().address != gone {
            assert(last.filter(elsewhere(gone)) == kept.push(last.last()));
            assert(kept.push(last.last()).drop_last() =~= kept);
        } else {
            assert(last.filter(elsewhere(gone)) == kept);
        }
    }
}

/// An access in the ring carries the instruction that made it.
pub proof fn law_ring_entry_carries_its_context(
    s: LogState,
    addr: u32,
    value: u32,
    direction: &'static str,
    width: &'static str,
    peripheral: &'static str,
)
    requires
        s.history_max > 0,
    ensures
        ({
            let after = s.after_history(addr, value, direction, width, peripheral);
            let e = after.history.last();
            &&& after.history == ring_push(s.history, s.history_max, e)
            &&& e.insn == s.insn && e.pc == s.pc && e.blink == s.blink && e.di == s.di
            &&& e.address == addr && e.value == value
            &&& e.direction == direction && e.width == width && e.peripheral == peripheral
            &&& after == (LogState { history: after.history, ..s })
        }),
{
    reveal(LogState::after_history);
}

/// A routed word access goes to the ring under its direction, as a word, and
/// leaves the records of last accesses.
pub proof fn law_word_accesses_are_logged(
    s: LogState,
    addr: u32,
    value: u32,
    peripheral: &'static str,
)
    requires
        s.history_max > 0,
    ensures
        ({
            let read = s.after_word_read(addr, value, peripheral);
            let write = s.after_word_write(addr, value, peripheral);
            &&& read.history.last().direction == "read"
            &&& write.history.last().direction == "write"
            &&& read.history.last().width == "word" && write.history.last().width == "word"
            &&& read.history.last().address == addr && write.history.last().address == addr
            &&& read.history.last().value == value && write.history.last().value == value
            &&& read.history.last().peripheral == peripheral
            &&& write.history.last().peripheral == peripheral
            &&& read.last == s.last && write.last == s.last
            &&& read.aux == s.aux && write.aux == s.aux
        }),
{
    reveal(LogState::after_word_read);
    reveal(LogState::after_word_write);
    reveal(LogState::after_history);
    reveal(LogState::after_emit);
}

/// The trace takes a line for each access inside one of its ranges, which run up
/// to just before their ends, and for every access where it has none; it takes
/// no other.
pub proof fn law_trace_takes_what_passes(
    s: LogState,
    addr: u32,
    value: u32,
    rw: Seq<char>,
    width: Seq<char>,
    periph: Seq<char>,
)
    ensures
        ({
            let after = s.after_emit(addr, value, rw, width, periph);
            &&& s.seq_trace is None ==> after == s
            &&& s.seq_trace matches Some(t) ==> {
                let inside = t.ranges.len() == 0 || exists|i: int|
                    0 <= i < t.ranges.len() && (#[trigger] t.ranges[i]).0 <= addr && addr
                        < t.ranges[i].1;
                &&& !inside ==> after == s
                &&& inside ==> after.seq_trace is Some && (after.seq_trace->0).lines.len()
                    == t.lines.len() + 1 && (after.seq_trace->0).lines.last() == trace_line(
                    s.insn,
                    s.pc,
                    addr,
                    value,
                    rw,
                    width,
                    periph,
                    s.di,
                ) && (after.seq_trace->0).lines.drop_last() == t.lines
            }
            &&& after.history == s.history && after.last == s.last && after.aux == s.aux
        }),
{
    reveal(LogState::after_emit);
    if let Some(t) = s.seq_trace {
        let line = trace_line(s.insn, s.pc, addr, value, rw, width, periph, s.di);
        assert(t.lines.push(line).drop_last() =~= t.lines);
    }
}

/// The record of an address tells who accessed it last, and how.
pub proof fn law_record_tells_the_access(
    s: LogState,
    addr: u32,
    value: u32,
    direction: &'static str,
)
    requires
        s.last.len() <= 4096,
    ensures
        ({
            let after = s.after_remembering(addr, value, direction);
            let info = record_of(after.last, addr)->0;
            &&& record_of(after.last, addr) is Some
            &&& info.pc == s.pc && info.blink == s.blink && info.insn == s.insn
            &&& info.direction == direction && info.value == value
            &&& after.history == s.history
        }),
{
    reveal(LogState::after_remembering);
    let e = LastAccess {
        address: addr,
        info: LastAccessInfo { pc: s.pc, blink: s.blink, insn: s.insn, direction, value },
    };
    law_newest_access_is_remembered(s.last, e);
}

} // verus!
