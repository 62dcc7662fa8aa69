//! What the caches promise the core.

use vstd::prelude::*;

use super::ram::RamState;
use super::MemState;
use crate::cache::DcState;

verus! {

/// Writing lines back leaves everything but the bytes as it is.
proof fn lemma_written_back_shape(ram: RamState, lines: Seq<(u32, Seq<u8>)>)
    ensures
        ram.all_written_back(lines).base == ram.base,
        ram.all_written_back(lines).dc == ram.dc,
        ram.all_written_back(lines).ic == ram.ic,
        ram.all_written_back(lines).bytes.len() == ram.bytes.len(),
    decreases lines.len(),
{
    if lines.len() > 0 {
        lemma_written_back_shape(ram, lines.drop_last());
    }
}

pub proof fn lemma_flushed_shape(ram: RamState)
    ensures
        ram.flushed().base == ram.base,
        ram.flushed().ic == ram.ic,
        ram.flushed().bytes.len() == ram.bytes.len(),
        ram.flushed().dc is Some <==> ram.dc is Some,
        ram.dc is Some ==> ram.flushed().dc == Some(ram.dc->0.emptied()),
{
    if ram.dc is Some {
        lemma_written_back_shape(
            RamState { dc: Some(ram.dc->0.emptied()), ..ram },
            ram.dc->0.all_owed(128),
        );
    }
}

impl RamState {
    /// Whether an unmarked line holds what SRAM holds, as far as SRAM goes.
    pub open spec fn line_in_step(self, i: int) -> bool {
        let line = self.dc->0.lines[i];
        line.valid && !line.dirty ==> forall|k: int|
            0 <= k < 32 && line.addr - self.base + k < self.bytes.len() ==> (#[trigger]
            line.data[k]) == self.bytes[line.addr - self.base + k]
    }

    /// Every unmarked line does.
    pub open spec fn in_step(self) -> bool {
        forall|i: int| 0 <= i < 128 ==> #[trigger] self.line_in_step(i)
    }

    /// SRAM with a data cache that is on and in step.
    pub open spec fn caching(self) -> bool {
        self.wf() && self.dc is Some && self.dc->0.enabled() && self.in_step()
    }
}

/// Where the cached byte of an address stands.
proof fn lemma_hit(dc: DcState, addr: u32)
    requires
        dc.wf(),
    ensures
        dc.hit(addr) is Some ==> 0 <= dc.hit(addr)->0 < 128 && dc.lines[dc.hit(addr)->0].covers(
            addr,
        ),
        forall|i: int|
            0 <= i < 128 && (#[trigger] dc.lines[i]).covers(addr) ==> dc.hit(addr) == Some(i),
{
    assert forall|i: int| 0 <= i < 128 && (#[trigger] dc.lines[i]).covers(addr) implies dc.hit(addr)
        == Some(i) by {
        assert(dc.line_wf(i));
        let base = crate::cache::line_base(addr);
        assert(crate::cache::set_of(base) == crate::cache::set_of(addr));
        assert(i / 2 == crate::cache::set_of(addr));
        assert(dc.set_wf(crate::cache::set_of(addr)));
    }
}

/// An address is its line and its place in it.
proof fn lemma_place(addr: u32)
    ensures
        crate::cache::line_base(addr) % 32 == 0,
        addr == crate::cache::line_base(addr) + addr % 32,
{
}

/// Two lines with different addresses do not overlap.
proof fn lemma_lines_apart(a: u32, b: u32, x: u32)
    requires
        a % 32 == 0,
        b % 32 == 0,
        a != b,
        crate::cache::line_base(x) == b,
    ensures
        !(a <= x < a + 32),
{
}

/// Bringing a line in, and sending another one out for it, changes nothing the
/// core sees.
pub proof fn law_line_fill_is_invisible(ram: RamState, addr: u32, other: u32)
    requires
        ram.caching(),
        ram.has(addr),
        ram.has(other),
    ensures
        ram.with_line(addr).seen(other) == ram.seen(other),
        ram.with_line(addr).in_step(),
{
    let dc = ram.dc->0;
    if dc.hit(addr) is None {
        let s = crate::cache::set_of(addr);
        let v = dc.victim(addr);
        let out = dc.lines[v];
        let after = ram.with_line(addr);
        let next = after.dc->0;
        let base = crate::cache::line_base(addr);
        assert(dc.set_wf(s));
        assert(dc.line_wf(v));
        assert(ram.line_in_place(v));
        assert(ram.line_in_step(v));
        lemma_hit(dc, addr);
        lemma_place(addr);
        lemma_place(other);
        assert(!(out.valid && out.addr == base));
        crate::cache::lemma_filled_wf(dc, addr, ram.line_at(base));
        lemma_hit(dc, other);
        lemma_hit(next, other);
        let there = crate::cache::line_base(other);
        if there == base {
            assert(next.lines[v].covers(other));
            assert(dc.hit(other) == dc.hit(addr)) by {
                assert(crate::cache::set_of(other) == crate::cache::set_of(base));
                assert(crate::cache::set_of(addr) == crate::cache::set_of(base));
            }
            assert(next.hit(other) == Some(v));
            assert(next.lines[v].data[other as int % 32] == ram.at(other as int));
        } else if out.valid && there == out.addr {
            assert(dc.lines[v].covers(other));
            assert(dc.hit(other) == Some(v));
            if next.hit(other) is Some {
                let j = next.hit(other)->0;
                assert(j != v);
                assert(dc.lines[j].covers(other));
            }
            assert(next.hit(other) is None);
            assert(after.at(other as int) == out.data[other as int % 32]);
        } else {
            if dc.hit(other) is Some {
                let j = dc.hit(other)->0;
                assert(j != v);
                assert(next.lines[j].covers(other));
            }
            if next.hit(other) is Some {
                let j = next.hit(other)->0;
                assert(j != v);
                assert(dc.lines[j].covers(other));
            }
            if out.valid {
                lemma_lines_apart(out.addr, there, other);
            }
            assert(after.at(other as int) == ram.at(other as int));
        }
        assert forall|i: int| 0 <= i < 128 implies #[trigger] after.line_in_step(i) by {
            assert(ram.line_in_step(i));
            assert(dc.line_wf(i));
            assert(ram.line_in_place(i));
            let line = after.dc->0.lines[i];
            if line.valid && !line.dirty {
                assert(line.addr % 32 == 0 && ram.base <= line.addr);
                if out.valid && i != v {
                    lemma_hit(dc, out.addr);
                    assert(out.addr == crate::cache::line_base(out.addr));
                    if line.addr == out.addr {
                        assert(dc.lines[i].covers(out.addr));
                        assert(dc.lines[v].covers(out.addr));
                    }
                }
                assert forall|k: int|
                    0 <= k < 32 && line.addr - after.base + k < after.bytes.len() implies (
                #[trigger] line.data[k]) == after.bytes[line.addr - after.base + k] by {
                    let at = line.addr - after.base + k;
                    assert(after.bytes[at] == ram.bytes[at]);
                    if i != v {
                        assert(dc.lines[i].data[k] == ram.bytes[at]);
                    }
                }
            }
        }
    }
}

/// A store through the cache is what the core then sees there, and changes no
/// other byte.
pub proof fn law_cached_store_is_seen(ram: RamState, addr: u32, val: u8, other: u32)
    requires
        ram.caching(),
        ram.has(addr),
        ram.has(other),
    ensures
        ram.with_line(addr).marked(addr, val).seen(addr) == val,
        other != addr ==> ram.with_line(addr).marked(addr, val).seen(other) == ram.seen(other),
        ram.with_line(addr).marked(addr, val).in_step(),
{
    law_line_fill_is_invisible(ram, addr, other);
    let filled = ram.with_line(addr);
    let dc = filled.dc->0;
    lemma_filled_hits(ram, addr);
    crate::cache::law_stored_byte_reads_back(dc, addr, val, other);
    let after = filled.marked(addr, val);
    lemma_hit(dc, addr);
    assert forall|i: int| 0 <= i < 128 implies #[trigger] after.line_in_step(i) by {
        assert(filled.line_in_step(i));
    }
}

proof fn lemma_filled_hits(ram: RamState, addr: u32)
    requires
        ram.wf(),
        ram.dc is Some,
        ram.has(addr),
    ensures
        ram.with_line(addr).dc is Some,
        ram.with_line(addr).dc->0.wf(),
        ram.with_line(addr).dc->0.ctrl == ram.dc->0.ctrl,
        ram.with_line(addr).dc->0.hit(addr) is Some,
{
    let dc = ram.dc->0;
    let s = crate::cache::set_of(addr);
    assert(dc.set_wf(s));
    if dc.hit(addr) is None {
        let data = ram.line_at(crate::cache::line_base(addr));
        crate::cache::lemma_filled_wf(dc, addr, data);
        let next = dc.filled(addr, data);
        assert(next.lines[dc.victim(addr)].covers(addr));
        lemma_hit(next, addr);
    }
}

/// The last line of a list that covers an address, if one does, is what writing
/// the list back leaves there.
proof fn lemma_written_back_byte(ram: RamState, n: nat, addr: u32)
    requires
        ram.wf(),
        ram.dc is Some,
        ram.dc->0.flushes(),
        n <= 128,
        ram.has(addr),
    ensures
        ({
            let after = RamState { dc: Some(ram.dc->0.emptied()), ..ram }.all_written_back(
                ram.dc->0.all_owed(n),
            );
            let hit = ram.dc->0.hit(addr);
            &&& after.bytes.len() == ram.bytes.len()
            &&& after.base == ram.base
            &&& after.at(addr as int) == (if hit is Some && hit->0 < n && ram.dc->0.lines[hit->0].dirty {
                ram.dc->0.lines[hit->0].data[addr as int % 32]
            } else {
                ram.at(addr as int)
            })
        }),
    decreases n,
{
    let dc = ram.dc->0;
    let emptied = RamState { dc: Some(dc.emptied()), ..ram };
    lemma_written_back_shape(emptied, dc.all_owed(n));
    lemma_hit(dc, addr);
    lemma_place(addr);
    if n > 0 {
        lemma_written_back_byte(ram, (n - 1) as nat, addr);
        let i = n - 1;
        let line = dc.lines[i];
        assert(dc.line_wf(i));
        assert(ram.line_in_place(i));
        let before = dc.all_owed((n - 1) as nat);
        if line.valid && line.dirty {
            assert(dc.all_owed(n).drop_last() =~= before);
            assert(dc.all_owed(n).last() == (line.addr, line.data));
            lemma_written_back_shape(emptied, before);
            if line.covers(addr) {
                assert(dc.hit(addr) == Some(i));
            } else {
                lemma_lines_apart(line.addr, crate::cache::line_base(addr), addr);
            }
        }
    }
}

/// A write-back invalidate leaves the core seeing what it saw, and SRAM holding
/// it: turning the cache off after it loses nothing.
pub proof fn law_flush_keeps_what_was_written(ram: RamState, addr: u32)
    requires
        ram.caching(),
        ram.dc->0.flushes(),
        ram.has(addr),
    ensures
        ram.flushed().seen(addr) == ram.seen(addr),
        ram.flushed().at(addr as int) == ram.seen(addr),
        ram.flushed().in_step(),
{
    let dc = ram.dc->0;
    lemma_written_back_byte(ram, 128, addr);
    lemma_flushed_shape(ram);
    lemma_hit(dc, addr);
    lemma_place(addr);
    if dc.hit(addr) is Some {
        let i = dc.hit(addr)->0;
        assert(ram.line_in_step(i));
        assert(dc.line_wf(i));
        assert(ram.line_in_place(i));
        assert(dc.lines[i].data[addr as int % 32] == dc.lines[i].data[addr as int % 32]);
    }
    let after = ram.flushed().dc->0;
    let w = 2 * crate::cache::set_of(addr);
    assert(!after.lines[w].valid && !after.lines[w + 1].valid);
}

/// Turning the cache off without a write-back strands what was written: the
/// core then sees SRAM as it was before.
pub proof fn law_disabling_shows_stale_memory(ram: RamState, ctrl: u32, addr: u32)
    requires
        ram.dc is Some,
        ctrl & crate::cache::DC_CTRL_DISABLE != 0,
    ensures
        (RamState { dc: Some(DcState { ctrl, ..ram.dc->0 }), ..ram }).seen(addr) == ram.at(
            addr as int,
        ),
{
}

/// Memory changing under lines of the data cache leaves marked ones alone and
/// takes nothing in.
proof fn lemma_overwritten_lines(dc: DcState, first: int, n: nat, i: int)
    requires
        dc.wf(),
        0 <= i < 128,
        0 <= first,
        first % 32 == 0,
        first + 32 * n <= 0x1_0000_0000,
    ensures
        crate::memory::ram::lines_overwritten(dc, first, n).wf(),
        crate::memory::ram::lines_overwritten(dc, first, n).ctrl == dc.ctrl,
        ({
            let after = crate::memory::ram::lines_overwritten(dc, first, n).lines[i];
            let line = dc.lines[i];
            after == (if line.valid && !line.dirty && first <= line.addr < first + 32 * n {
                line.dropped()
            } else {
                line
            })
        }),
    decreases n,
{
    if n > 0 {
        lemma_overwritten_lines(dc, first, (n - 1) as nat, i);
        let before = crate::memory::ram::lines_overwritten(dc, first, (n - 1) as nat);
        let at = (first + 32 * (n - 1)) as u32;
        assert(crate::cache::line_base(at) == at);
        lemma_hit(before, at);
        lemma_overwritten_wf(before, at);
        assert(before.line_wf(i));
        assert(dc.line_wf(i));
    }
}

proof fn lemma_overwritten_wf(dc: DcState, addr: u32)
    requires
        dc.wf(),
    ensures
        dc.overwritten(addr).wf(),
{
    lemma_hit(dc, addr);
    if dc.hit(addr) is Some && !dc.lines[dc.hit(addr)->0].dirty {
        let i = dc.hit(addr)->0;
        let after = dc.overwritten(addr);
        assert(dc.line_wf(i));
        crate::cache::lemma_line_changed(dc, after, i);
    }
}

/// A device store does not reach bytes the core has written and not yet sent
/// out; everywhere else in its range the core sees the new bytes.
pub proof fn law_dma_respects_pending_stores(ram: RamState, addr: u32, data: Seq<u8>, other: u32)
    requires
        ram.caching(),
        ram.base == 0,
        ram.has(other),
        data.len() > 0,
        addr + data.len() <= ram.bytes.len(),
    ensures
        ({
            let hit = ram.dc->0.hit(other);
            let marked = hit is Some && ram.dc->0.lines[hit->0].dirty;
            let after = ram.dma_written(addr, data);
            &&& marked ==> after.seen(other) == ram.seen(other)
            &&& !marked && addr <= other < addr + data.len() ==> after.seen(other) == data[other
                - addr]
            &&& !marked && !(addr <= other < addr + data.len()) ==> after.seen(other) == ram.seen(
                other,
            )
        }),
{
    let dc = ram.dc->0;
    let first = crate::cache::line_base(addr) as int;
    let n = crate::memory::ram::lines_touched(addr, data.len() as int);
    let after = ram.dma_written(addr, data);
    let next = after.dc->0;
    lemma_place(addr);
    lemma_place(other);
    let last = addr + data.len() - 1;
    assert(first + 32 * n == last - last % 32 + 32);
    lemma_overwritten_lines(dc, first, n, 0);
    lemma_hit(dc, other);
    lemma_hit(next, other);
    let there = crate::cache::line_base(other);
    if dc.hit(other) is Some {
        let i = dc.hit(other)->0;
        lemma_overwritten_lines(dc, first, n, i);
        assert(dc.line_wf(i));
        assert(ram.line_in_step(i));
        assert(ram.line_in_place(i));
        if dc.lines[i].dirty {
            assert(next.lines[i].covers(other));
        } else if first <= there < first + 32 * n {
            if next.hit(other) is Some {
                let j = next.hit(other)->0;
                lemma_overwritten_lines(dc, first, n, j);
                assert(dc.lines[j].covers(other));
            }
            assert(dc.lines[i].data[other as int % 32] == ram.at(other as int));
        } else {
            assert(next.lines[i].covers(other));
        }
    } else {
        if next.hit(other) is Some {
            let j = next.hit(other)->0;
            lemma_overwritten_lines(dc, first, n, j);
            assert(dc.lines[j].covers(other));
        }
    }
}

/// Storing a byte moves no line, and changes no other byte.
proof fn lemma_store_in_cache(dc: DcState, addr: u32, val: u8)
    requires
        dc.wf(),
        dc.enabled(),
    ensures
        dc.stored(addr, val).wf(),
        dc.stored(addr, val).enabled(),
        forall|x: u32| #[trigger] dc.stored(addr, val).hit(x) == dc.hit(x),
        dc.hit(addr) is Some ==> dc.stored(addr, val).cached(addr) == Some(val),
        forall|x: u32|
            x != addr ==> #[trigger] dc.stored(addr, val).cached(x) == dc.cached(x),
{
    let after = dc.stored(addr, val);
    lemma_hit(dc, addr);
    if dc.hit(addr) is Some {
        let i = dc.hit(addr)->0;
        assert(dc.line_wf(i));
        crate::cache::lemma_line_changed(dc, after, i);
        assert forall|x: u32| #[trigger] after.hit(x) == dc.hit(x) by {
            let w = 2 * crate::cache::set_of(x);
            assert(after.lines[w].covers(x) == dc.lines[w].covers(x));
            assert(after.lines[w + 1].covers(x) == dc.lines[w + 1].covers(x));
        }
        assert forall|x: u32| x != addr implies #[trigger] after.cached(x) == dc.cached(x) by {
            crate::cache::law_stored_byte_reads_back(dc, addr, val, x);
        }
        crate::cache::law_stored_byte_reads_back(dc, addr, val, addr);
    }
}

/// A line that has just come in holds what SRAM held.
proof fn lemma_filled_byte(ram: RamState, ea: u32, k: int)
    requires
        ram.dc is Some,
        ram.dc->0.wf(),
        ram.dc->0.enabled(),
        ram.dc->0.hit(ea) is None,
        ram.base % 32 == 0,
        ram.has(ea),
        0 <= k,
        ea % 32 + k < 32,
        ram.has_run(ea, k + 1),
    ensures
        ram.with_line(ea).cached((ea + k) as u32) == Some(ram.at(ea + k)),
{
    let dc = ram.dc->0;
    let base = crate::cache::line_base(ea);
    let data = ram.line_at(base);
    let x = (ea + k) as u32;
    let next = dc.filled(ea, data);
    assert(dc.set_wf(crate::cache::set_of(ea)));
    crate::cache::lemma_same_line(ea, k);
    crate::cache::lemma_filled_wf(dc, ea, data);
    assert(next.lines[dc.victim(ea)].covers(x));
    lemma_hit(next, x);
    assert(data[x as int % 32] == ram.at(ea + k));
}

/// A byte stored in SRAM is in SRAM, and in its line if it is cached.
proof fn lemma_byte_put(ram: RamState, addr: u32, val: u8)
    requires
        ram.dc is Some,
        ram.dc->0.wf(),
        ram.dc->0.enabled(),
        ram.has(addr),
    ensures
        ({
            let after = ram.put(addr, val);
            &&& after.dc is Some
            &&& after.dc->0.wf()
            &&& after.dc->0.enabled()
            &&& after.base == ram.base
            &&& after.bytes.len() == ram.bytes.len()
            &&& after.at(addr as int) == val
            &&& ram.dc->0.hit(addr) is Some ==> after.cached(addr) == Some(val)
            &&& forall|x: u32| #[trigger] after.dc->0.hit(x) == ram.dc->0.hit(x)
            &&& forall|x: u32| x != addr ==> #[trigger] after.cached(x) == ram.cached(x)
            &&& forall|x: int|
                x != addr && ram.base <= x < ram.base + ram.bytes.len() ==> #[trigger] after.at(x)
                    == ram.at(x)
        }),
{
    lemma_store_in_cache(ram.dc->0, addr, val);
    let after = ram.put(addr, val);
    assert forall|x: u32| x != addr implies #[trigger] after.cached(x) == ram.cached(x) by {
        assert(ram.dc->0.stored(addr, val).cached(x) == ram.dc->0.cached(x));
    }
}

/// A byte stored in its line is in its line.
proof fn lemma_byte_marked(ram: RamState, addr: u32, val: u8)
    requires
        ram.dc is Some,
        ram.dc->0.wf(),
        ram.dc->0.enabled(),
    ensures
        ({
            let after = ram.marked(addr, val);
            &&& after.dc is Some
            &&& after.dc->0.wf()
            &&& after.dc->0.enabled()
            &&& ram.dc->0.hit(addr) is Some ==> after.cached(addr) == Some(val)
            &&& forall|x: u32| #[trigger] after.dc->0.hit(x) == ram.dc->0.hit(x)
            &&& forall|x: u32| x != addr ==> #[trigger] after.cached(x) == ram.cached(x)
        }),
{
    lemma_store_in_cache(ram.dc->0, addr, val);
    let after = ram.marked(addr, val);
    assert forall|x: u32| x != addr implies #[trigger] after.cached(x) == ram.cached(x) by {
        assert(ram.dc->0.stored(addr, val).cached(x) == ram.dc->0.cached(x));
    }
}

/// What the line of an access holds, once the bytes of the access are known to
/// stand in it or, where it is not cached, in SRAM.
proof fn lemma_line_byte(ram: RamState, ea: u32, k: int, val: u8)
    requires
        ram.dc is Some,
        ram.dc->0.wf(),
        ram.dc->0.enabled(),
        ram.base % 32 == 0,
        ram.has(ea),
        0 <= k,
        ea % 32 + k < 32,
        ram.has_run(ea, k + 1),
        ram.dc->0.hit(ea) is Some ==> ram.cached((ea + k) as u32) == Some(val),
        ram.dc->0.hit(ea) is None ==> ram.at(ea + k) == val,
    ensures
        ram.with_line(ea).cached((ea + k) as u32) == Some(val),
{
    if ram.dc->0.hit(ea) is None {
        lemma_filled_byte(ram, ea, k);
    }
}

/// A word is its four bytes.
proof fn lemma_word_bytes(val: u32)
    ensures
        crate::cache::word_of(
            (val >> 24) as u8,
            (val >> 16) as u8,
            (val >> 8) as u8,
            val as u8,
        ) == val,
{
    assert((((val >> 24) as u8) as u32) << 24 | (((val >> 16) as u8) as u32) << 16 | (((val >> 8)
        as u8) as u32) << 8 | ((val as u8) as u32) == val) by (bit_vector);
}

/// A half-word is its two bytes.
proof fn lemma_half_bytes(val: u16)
    ensures
        crate::cache::half_of((val >> 8) as u8, val as u8) == val,
{
    assert((((val >> 8) as u8) as u16) << 8 | ((val as u8) as u16) == val) by (bit_vector);
}

/// A word stored around the cache is in SRAM, and in its line if it is cached.
proof fn lemma_word_put(ram: RamState, ea: u32, val: u32)
    requires
        ram.dc is Some,
        ram.dc->0.wf(),
        ram.dc->0.enabled(),
        ram.base % 32 == 0,
        ea % 4 == 0,
        ram.has_run(ea, 4),
        ram.base + ram.bytes.len() <= 0x1_0000_0000,
    ensures
        ({
            let after = super::observe::word_put(ram, ea, val).with_line(ea);
            &&& after.cached(ea) == Some((val >> 24) as u8)
            &&& after.cached((ea + 1) as u32) == Some((val >> 16) as u8)
            &&& after.cached((ea + 2) as u32) == Some((val >> 8) as u8)
            &&& after.cached((ea + 3) as u32) == Some(val as u8)
        }),
{
    let one = ram.put(ea, (val >> 24) as u8);
    let two = one.put((ea + 1) as u32, (val >> 16) as u8);
    let three = two.put((ea + 2) as u32, (val >> 8) as u8);
    let four = three.put((ea + 3) as u32, val as u8);
    lemma_byte_put(ram, ea, (val >> 24) as u8);
    lemma_byte_put(one, (ea + 1) as u32, (val >> 16) as u8);
    lemma_byte_put(two, (ea + 2) as u32, (val >> 8) as u8);
    lemma_byte_put(three, (ea + 3) as u32, val as u8);
    crate::cache::lemma_same_line(ea, 1);
    crate::cache::lemma_same_line(ea, 2);
    crate::cache::lemma_same_line(ea, 3);
    assert(ram.dc->0.hit(ea) is Some ==> four.cached(ea) == Some((val >> 24) as u8));
    lemma_line_byte(four, ea, 0, (val >> 24) as u8);
    lemma_line_byte(four, ea, 1, (val >> 16) as u8);
    lemma_line_byte(four, ea, 2, (val >> 8) as u8);
    lemma_line_byte(four, ea, 3, val as u8);
}

/// The same of a half-word.
proof fn lemma_half_put(ram: RamState, ea: u32, val: u16)
    requires
        ram.dc is Some,
        ram.dc->0.wf(),
        ram.dc->0.enabled(),
        ram.base % 32 == 0,
        ea % 2 == 0,
        ram.has_run(ea, 2),
        ram.base + ram.bytes.len() <= 0x1_0000_0000,
    ensures
        ({
            let after = super::observe::half_put(ram, ea, val).with_line(ea);
            &&& after.cached(ea) == Some((val >> 8) as u8)
            &&& after.cached((ea + 1) as u32) == Some(val as u8)
        }),
{
    let one = ram.put(ea, (val >> 8) as u8);
    let two = one.put((ea + 1) as u32, val as u8);
    lemma_byte_put(ram, ea, (val >> 8) as u8);
    lemma_byte_put(one, (ea + 1) as u32, val as u8);
    crate::cache::lemma_same_line(ea, 1);
    lemma_line_byte(two, ea, 0, (val >> 8) as u8);
    lemma_line_byte(two, ea, 1, val as u8);
}

/// A word stored in its line is what the line holds.
proof fn lemma_word_marked(ram: RamState, ea: u32, val: u32)
    requires
        ram.wf(),
        ram.dc is Some,
        ram.dc->0.enabled(),
        ea % 4 == 0,
        ram.has(ea),
    ensures
        ({
            let stored = super::data_port::word_marked(ram.with_line(ea), ea, val);
            let after = stored.with_line(ea);
            &&& stored.base == ram.base
            &&& stored.bytes.len() == ram.bytes.len()
            &&& stored.dc is Some
            &&& stored.dc->0.enabled()
            &&& after.cached(ea) == Some((val >> 24) as u8)
            &&& after.cached((ea + 1) as u32) == Some((val >> 16) as u8)
            &&& after.cached((ea + 2) as u32) == Some((val >> 8) as u8)
            &&& after.cached((ea + 3) as u32) == Some(val as u8)
        }),
{
    let start = ram.with_line(ea);
    lemma_filled_hits(ram, ea);
    crate::cache::lemma_same_line(ea, 1);
    crate::cache::lemma_same_line(ea, 2);
    crate::cache::lemma_same_line(ea, 3);
    let one = start.marked(ea, (val >> 24) as u8);
    let two = one.marked((ea + 1) as u32, (val >> 16) as u8);
    let three = two.marked((ea + 2) as u32, (val >> 8) as u8);
    lemma_byte_marked(start, ea, (val >> 24) as u8);
    lemma_byte_marked(one, (ea + 1) as u32, (val >> 16) as u8);
    lemma_byte_marked(two, (ea + 2) as u32, (val >> 8) as u8);
    lemma_byte_marked(three, (ea + 3) as u32, val as u8);
    assert(start.dc->0.hit((ea + 1) as u32) is Some);
    assert(start.dc->0.hit((ea + 2) as u32) is Some);
    assert(start.dc->0.hit((ea + 3) as u32) is Some);
}

/// The same of a half-word.
proof fn lemma_half_marked(ram: RamState, ea: u32, val: u16)
    requires
        ram.wf(),
        ram.dc is Some,
        ram.dc->0.enabled(),
        ea % 2 == 0,
        ram.has(ea),
    ensures
        ({
            let stored = super::data_port::half_marked(ram.with_line(ea), ea, val);
            let after = stored.with_line(ea);
            &&& stored.base == ram.base
            &&& stored.bytes.len() == ram.bytes.len()
            &&& stored.dc is Some
            &&& stored.dc->0.enabled()
            &&& after.cached(ea) == Some((val >> 8) as u8)
            &&& after.cached((ea + 1) as u32) == Some(val as u8)
        }),
{
    let start = ram.with_line(ea);
    lemma_filled_hits(ram, ea);
    crate::cache::lemma_same_line(ea, 1);
    let one = start.marked(ea, (val >> 8) as u8);
    lemma_byte_marked(start, ea, (val >> 8) as u8);
    lemma_byte_marked(one, (ea + 1) as u32, val as u8);
    assert(start.dc->0.hit((ea + 1) as u32) is Some);
}

/// What lies in SRAM, read byte by byte around the cache.
proof fn lemma_run_of_sram(m: MemState, ea: u32, n: nat)
    requires
        n <= 4,
        m.ram.base + m.ram.bytes.len() <= 0x1_0000_0000,
        m.ram.has_run(ea, n as int),
        m.bank is None ==> m.ram.base == 0,
    ensures
        m.run(ea, n) is Ok,
        m.run(ea, n)->Ok_0.len() == n,
        forall|k: int| 0 <= k < n ==> #[trigger] m.run(ea, n)->Ok_0[k] == m.ram.at(ea + k),
        m.after_run(ea, n) == m,
    decreases n,
{
    if n > 0 {
        lemma_run_of_sram(m, ea, (n - 1) as nat);
        assert(super::observe::wrapped(ea, n - 1) == ea + (n - 1));
    }
}

/// A word stored in SRAM is what a load then gives: through the cache in any
/// event, and around it where the store went around it too.
pub proof fn law_stored_word_loads_back(
    m: MemState,
    addr: u32,
    val: u32,
    bypass: bool,
    load_bypass: bool,
)
    requires
        m.wf(),
        m.bank is None ==> m.ram.base == 0,
        m.ram.has_run(super::data_port::effective(addr, 4), 4),
        load_bypass ==> m.bypasses(super::data_port::effective(addr, 4), bypass),
    ensures
        m.word_store(addr, val, bypass) is Ok,
        m.after_word_store(addr, val, bypass).loaded_word(
            super::data_port::effective(addr, 4),
            load_bypass,
        ) == Ok::<u32, crate::cpu::exception::Exception>(val),
{
    let ea = super::data_port::effective(addr, 4);
    let start = m.aligned_down(addr, 4, true).store_begun(ea, val, 4, bypass);
    let after = m.after_word_store(addr, val, bypass);
    assert(start.ram == m.ram);
    assert(start.bank is Some <==> m.bank is Some);
    assert(ea % 4 == 0);
    lemma_word_bytes(val);
    if start.bypasses(ea, bypass) {
        if m.bank is Some {
            assert(after.ram == super::observe::word_put(m.ram, ea, val));
            if m.ram.dc->0.enabled() {
                lemma_word_put(m.ram, ea, val);
            }
        } else {
            assert(after.ram == super::observe::flat_word_put(m.ram, ea, val));
        }
        if after.bypasses(ea, load_bypass) {
            lemma_run_of_sram(after, ea, 4);
            let s = after.run(ea, 4)->Ok_0;
            assert(s[0] == after.ram.at(ea as int));
            assert(s[1] == after.ram.at(ea + 1));
            assert(s[2] == after.ram.at(ea + 2));
            assert(s[3] == after.ram.at(ea + 3));
        }
    } else {
        lemma_word_marked(m.ram, ea, val);
    }
}

/// The same of a half-word.
pub proof fn law_stored_half_loads_back(
    m: MemState,
    addr: u32,
    val: u16,
    bypass: bool,
    load_bypass: bool,
)
    requires
        m.wf(),
        m.bank is None ==> m.ram.base == 0,
        m.ram.has_run(super::data_port::effective(addr, 2), 2),
        load_bypass ==> m.bypasses(super::data_port::effective(addr, 2), bypass),
    ensures
        m.half_store(addr, val, bypass) is Ok,
        m.after_half_store(addr, val, bypass).loaded_half(
            super::data_port::effective(addr, 2),
            load_bypass,
        ) == Ok::<u16, crate::cpu::exception::Exception>(val),
{
    let ea = super::data_port::effective(addr, 2);
    let start = m.aligned_down(addr, 2, true).store_begun(ea, val as u32, 2, bypass);
    let after = m.after_half_store(addr, val, bypass);
    assert(start.ram == m.ram);
    assert(start.bank is Some <==> m.bank is Some);
    assert(ea % 2 == 0);
    lemma_half_bytes(val);
    if start.bypasses(ea, bypass) {
        if m.bank is Some {
            assert(after.ram == super::observe::half_put(m.ram, ea, val));
            if m.ram.dc->0.enabled() {
                lemma_half_put(m.ram, ea, val);
            }
        }
        if after.bypasses(ea, load_bypass) {
            lemma_run_of_sram(after, ea, 2);
            let s = after.run(ea, 2)->Ok_0;
            assert(s[0] == after.ram.at(ea as int));
            assert(s[1] == after.ram.at(ea + 1));
        }
    } else {
        lemma_half_marked(m.ram, ea, val);
    }
}

/// The same of a byte.
pub proof fn law_stored_byte_loads_back(
    m: MemState,
    addr: u32,
    val: u8,
    bypass: bool,
    load_bypass: bool,
)
    requires
        m.wf(),
        m.bank is None ==> m.ram.base == 0,
        m.ram.has(addr),
        load_bypass ==> m.bypasses(addr, bypass),
    ensures
        m.byte_store(addr, val, bypass) is Ok,
        m.after_byte_store(addr, val, bypass).loaded_byte(addr, load_bypass) == Ok::<
            u8,
            crate::cpu::exception::Exception,
        >(val),
{
    let start = m.store_begun(addr, val as u32, 1, bypass);
    let after = m.after_byte_store(addr, val, bypass);
    assert(start.ram == m.ram);
    assert(start.bank is Some <==> m.bank is Some);
    if start.bypasses(addr, bypass) {
        if m.bank is Some && m.ram.dc->0.enabled() {
            lemma_byte_put(m.ram, addr, val);
            lemma_line_byte(m.ram.put(addr, val), addr, 0, val);
        }
    } else {
        lemma_filled_hits(m.ram, addr);
        lemma_byte_marked(m.ram.with_line(addr), addr, val);
    }
}

} // verus!
