//! The alarm state a quiet unit shows: a few alarms stand in the pending masks
//! of the firmware, and one node hangs in a channel list.

use vstd::prelude::*;

use crate::cpu::exception::Exception;
use crate::memory::{MemState, Memory};

verus! {

/// The pending masks: one 64-bit word per handler.
pub const ALARM_MASK_BASE: u32 = 0x1100C;

/// The heads of the channel lists.
pub const GPIO_HEAD_TABLE_BASE: u32 = 0x30C0;

/// The head of channel 15.
pub const GPIO_CHAN15_HEAD: u32 = 0x30FC;

/// Where the node of channel 15 is put: above everything the firmware uses.
pub const GPIO_CHAN15_NODE_ADDR: u32 = 0x0007_FFE0;

/// Instructions before the firmware has set its lists up.
pub const SEED_AFTER: u64 = 1_000_000;

/// Alarms that stand on a quiet unit.
pub const PERSISTENT_OPCODES: [u16; 7] = [23, 28, 64, 131, 193, 199, 201];

/// How many handlers there are, and so how many pending masks.
pub const HANDLER_COUNT: u32 = 147;

/// The handler of an opcode, if it has one.
pub open spec fn handler_index(opcode: u16) -> Option<u32> {
    let op = opcode as int;
    if 0x200 <= op < 0x21D {
        Some((op - 0x1AE) as u32)
    } else if 0x21D <= op < 0x29E {
        Some((op - 0x211) as u32)
    } else if op == 0x300 {
        Some((op - 0x273) as u32)
    } else if 0x1000 <= op < 0x1005 {
        Some((op - 0xF72) as u32)
    } else if 1 <= op < 0x25 {
        Some((op - 1) as u32)
    } else if 0x40 <= op < 0x52 {
        Some((op - 0x1C) as u32)
    } else if 0x80 <= op < 0x8A {
        Some((op - 0x4A) as u32)
    } else if 0xC0 <= op < 0xCE {
        Some((op - 0x80) as u32)
    } else if op == 0x100 {
        Some((op - 0xB2) as u32)
    } else {
        None
    }
}

pub fn opcode_to_handler_index(opcode: u16) -> (r: Option<u32>)
    ensures
        r == handler_index(opcode),
        r matches Some(i) ==> i < HANDLER_COUNT,
{
    let op: u32 = opcode as u32;
    if op > 0x142 {
        if op >= 0x200 && op < 0x29E {
            if op < 0x21D {
                return Some(op - 0x1AE);
            }
            return Some(op - 0x211);
        }
        if op == 0x300 {
            return Some(op - 0x273);
        }
        if op >= 0x1000 && op < 0x1005 {
            return Some(op - 0xF72);
        }
        return None;
    }
    if op >= 1 && op < 0x25 {
        return Some(op - 1);
    }
    if op >= 0x40 && op < 0x52 {
        return Some(op - 0x1C);
    }
    if op >= 0x80 && op < 0x8A {
        return Some(op - 0x4A);
    }
    if op >= 0xC0 && op < 0xCE {
        return Some(op - 0x80);
    }
    if op == 0x100 {
        return Some(op - 0xB2);
    }
    None
}

/// Where the low word of an alarm's mask stands.
pub open spec fn mask_addr(opcode: u16) -> u32 {
    (ALARM_MASK_BASE + handler_index(opcode)->0 * 8 + 4) as u32
}

/// The mask words of the alarms that stand.
pub open spec fn standing_masks() -> Seq<u32> {
    seq![
        mask_addr(23),
        mask_addr(28),
        mask_addr(64),
        mask_addr(131),
        mask_addr(193),
        mask_addr(199),
        mask_addr(201),
    ]
}

/// The value of a read, or a stand-in where it failed.
pub open spec fn value_or(r: Result<u32, Exception>, v: u32) -> u32 {
    match r {
        Ok(x) => x,
        Err(_) => v,
    }
}

impl MemState {
    /// Whether a word can be read.
    pub open spec fn reads(self, addr: u32) -> bool {
        self.word_for_bank(addr) ==> self.bank_reads_word(addr)
    }

    /// The memory once bit 0 of a word is up. Where it is up already it is
    /// written again only if asked.
    pub open spec fn raised(self, addr: u32, again: bool) -> MemState {
        let val = value_or(self.word_read(addr), 0);
        let next = self.after_word_read(addr);
        if again || val & 1 == 0 {
            next.after_word_write(addr, val | 1)
        } else {
            next
        }
    }

    pub open spec fn can_raise(self, addr: u32) -> bool {
        self.reads(addr) && self.after_word_read(addr).takes_word(
            addr,
            value_or(self.word_read(addr), 0) | 1,
        )
    }

    pub open spec fn all_raised(self, addrs: Seq<u32>, again: bool) -> MemState
        decreases addrs.len(),
    {
        if addrs.len() == 0 {
            self
        } else {
            self.all_raised(addrs.drop_last(), again).raised(addrs.last(), again)
        }
    }

    pub open spec fn can_raise_all(self, addrs: Seq<u32>, again: bool) -> bool
        decreases addrs.len(),
    {
        addrs.len() == 0 || (self.can_raise_all(addrs.drop_last(), again) && self.all_raised(
            addrs.drop_last(),
            again,
        ).can_raise(addrs.last()))
    }

    /// The memory with the bytes of the node up to the `n`-th put in.
    pub open spec fn node_bytes(self, n: nat) -> MemState
        decreases n,
    {
        if n == 0 {
            self.after_word_write(GPIO_CHAN15_NODE_ADDR, 0)
        } else {
            self.node_bytes((n - 1) as nat).after_byte_write(
                (GPIO_CHAN15_NODE_ADDR + 3 + n) as u32,
                node_byte((n - 1) as nat),
            )
        }
    }

    pub open spec fn can_put_node(self, n: nat) -> bool
        decreases n,
    {
        if n == 0 {
            self.takes_word(GPIO_CHAN15_NODE_ADDR, 0)
        } else {
            self.can_put_node((n - 1) as nat) && self.node_bytes((n - 1) as nat).takes_byte(
                (GPIO_CHAN15_NODE_ADDR + 3 + n) as u32,
                node_byte((n - 1) as nat),
            )
        }
    }

    /// The memory with the node of channel 15 hung in.
    pub open spec fn node_hung(self) -> MemState {
        self.node_bytes(4).after_word_write(GPIO_CHAN15_HEAD, GPIO_CHAN15_NODE_ADDR)
    }

    pub open spec fn can_hang_node(self) -> bool {
        self.can_put_node(4) && self.node_bytes(4).takes_word(
            GPIO_CHAN15_HEAD,
            GPIO_CHAN15_NODE_ADDR,
        )
    }
}

/// The bytes of the node behind its link: channel, priority, and two zeroes.
pub open spec fn node_byte(i: nat) -> u8 {
    if i == 0 {
        15
    } else if i == 1 {
        5
    } else {
        0
    }
}

/// Keeps the alarms of a quiet unit standing.
pub struct AlarmModel {
    /// The mask words of the alarms that stand.
    pub persistent_word_addrs: [u32; 7],
    pub seeded: bool,
    pub tick_prescaler: u64,
}

impl Default for AlarmModel {
    fn default() -> (r: Self)
        ensures
            r.wf(),
            !r.seeded,
    {
        AlarmModel::new()
    }
}

impl AlarmModel {
    pub open spec fn wf(&self) -> bool {
        self.persistent_word_addrs@ == standing_masks() && self.tick_prescaler == 64
    }

    pub fn new() -> (r: Self)
        ensures
            r.wf(),
            !r.seeded,
    {
        let mut addrs: [u32; 7] = [0u32; 7];
        for i in 0..7usize
            invariant
                forall|k: int|
                    0 <= k < i ==> #[trigger] addrs@[k] == mask_addr(PERSISTENT_OPCODES@[k]),
        {
            let op: u16 = PERSISTENT_OPCODES[i];
            let idx: u32 = match opcode_to_handler_index(op) {
                Some(idx) => idx,
                None => 0,
            };
            addrs[i] = ALARM_MASK_BASE + idx * 8 + 4;
        }
        assert(addrs@ =~= standing_masks());
        AlarmModel { persistent_word_addrs: addrs, seeded: false, tick_prescaler: 64 }
    }

    fn raise(mem: &mut Memory, addr: u32, again: bool)
        requires
            old(mem).wf(),
            old(mem)@.can_raise(addr),
        ensures
            final(mem).wf(),
            final(mem)@ == old(mem)@.raised(addr, again),
    {
        let val: u32 = match mem.read_word(addr) {
            Ok(v) => v,
            Err(_) => 0,
        };
        if again || val & 1 == 0 {
            let _ = mem.write_word(addr, val | 1);
        }
    }

    fn raise_all(&self, mem: &mut Memory, again: bool)
        requires
            self.wf(),
            old(mem).wf(),
            old(mem)@.can_raise_all(standing_masks(), again),
        ensures
            final(mem).wf(),
            final(mem)@ == old(mem)@.all_raised(standing_masks(), again),
    {
        let ghost start = mem@;
        let ghost addrs = standing_masks();
        assert(addrs.take(0) =~= Seq::<u32>::empty());
        for i in 0..7usize
            invariant
                self.wf(),
                mem.wf(),
                addrs == standing_masks(),
                addrs.len() == 7,
                start.can_raise_all(addrs, again),
                mem@ == start.all_raised(addrs.take(i as int), again),
        {
            proof {
                lemma_can_raise_first(start, addrs, i + 1, again);
                assert(addrs.take(i + 1).drop_last() =~= addrs.take(i as int));
                assert(addrs.take(i + 1).last() == self.persistent_word_addrs@[i as int]);
            }
            Self::raise(mem, self.persistent_word_addrs[i], again);
        }
        assert(addrs.take(7) =~= addrs);
    }

    fn put_node(mem: &mut Memory)
        requires
            old(mem).wf(),
            old(mem)@.can_put_node(4),
        ensures
            final(mem).wf(),
            final(mem)@ == old(mem)@.node_bytes(4),
    {
        proof {
            reveal_with_fuel(MemState::node_bytes, 5);
            reveal_with_fuel(MemState::can_put_node, 5);
        }
        let node: u32 = GPIO_CHAN15_NODE_ADDR;
        let _ = mem.write_word(node, 0);
        let _ = mem.write_byte(node + 4, 15);
        let _ = mem.write_byte(node + 5, 5);
        let _ = mem.write_byte(node + 6, 0);
        let _ = mem.write_byte(node + 7, 0);
    }

    fn hang_node(mem: &mut Memory)
        requires
            old(mem).wf(),
            old(mem)@.can_hang_node(),
        ensures
            final(mem).wf(),
            final(mem)@ == old(mem)@.node_hung(),
    {
        Self::put_node(mem);
        let _ = mem.write_word(GPIO_CHAN15_HEAD, GPIO_CHAN15_NODE_ADDR);
    }

    fn seed(&self, mem: &mut Memory)
        requires
            self.wf(),
            old(mem).wf(),
            old(mem)@.can_raise_all(standing_masks(), true),
            old(mem)@.all_raised(standing_masks(), true).can_hang_node(),
        ensures
            final(mem).wf(),
            final(mem)@ == old(mem)@.all_raised(standing_masks(), true).node_hung(),
    {
        self.raise_all(mem, true);
        Self::hang_node(mem);
    }

    /// Put the alarms in once the firmware has set its lists up, and again
    /// whenever it has cleared them since.
    pub fn tick(&mut self, mem: &mut Memory, insn_count: u64)
        requires
            old(self).wf(),
            old(mem).wf(),
            can_tick(old(self).seeded, old(mem)@, insn_count),
        ensures
            final(self).wf(),
            final(mem).wf(),
            final(self).seeded == (old(self).seeded || seeds(
                old(self).seeded,
                old(mem)@,
                insn_count,
            )),
            final(mem)@ == after_tick(old(self).seeded, old(mem)@, insn_count),
    {
        if insn_count % self.tick_prescaler != 0 {
            return;
        }
        if !self.seeded {
            if insn_count < SEED_AFTER {
                return;
            }
            let first: u32 = match mem.read_word(GPIO_HEAD_TABLE_BASE) {
                Ok(v) => v,
                Err(_) => 0xFFFF_FFFF,
            };
            if first != 0 {
                return;
            }
            self.seed(mem);
            self.seeded = true;
            return;
        }
        self.raise_all(mem, false);
        let head: u32 = match mem.read_word(GPIO_CHAN15_HEAD) {
            Ok(v) => v,
            Err(_) => 0,
        };
        if head == 0 {
            Self::hang_node(mem);
        }
    }
}

proof fn lemma_can_raise_first(m: MemState, addrs: Seq<u32>, k: int, again: bool)
    requires
        0 <= k <= addrs.len(),
        m.can_raise_all(addrs, again),
    ensures
        m.can_raise_all(addrs.take(k), again),
    decreases addrs.len(),
{
    if k == addrs.len() {
        assert(addrs.take(k) =~= addrs);
    } else {
        lemma_can_raise_first(m, addrs.drop_last(), k, again);
        assert(addrs.drop_last().take(k) =~= addrs.take(k));
    }
}

/// Whether a tick looks at memory at all.
pub open spec fn looks(seeded: bool, insn: u64) -> bool {
    insn % 64 == 0 && (seeded || insn >= SEED_AFTER)
}

/// Whether a tick puts the alarms in for the first time.
pub open spec fn seeds(seeded: bool, m: MemState, insn: u64) -> bool {
    !seeded && looks(seeded, insn) && value_or(m.word_read(GPIO_HEAD_TABLE_BASE), 0xFFFF_FFFF) == 0
}

/// The memory after a tick.
pub open spec fn after_tick(seeded: bool, m: MemState, insn: u64) -> MemState {
    if !looks(seeded, insn) {
        m
    } else if !seeded {
        let next = m.after_word_read(GPIO_HEAD_TABLE_BASE);
        if seeds(seeded, m, insn) {
            next.all_raised(standing_masks(), true).node_hung()
        } else {
            next
        }
    } else {
        let next = m.all_raised(standing_masks(), false);
        let looked = next.after_word_read(GPIO_CHAN15_HEAD);
        if value_or(next.word_read(GPIO_CHAN15_HEAD), 0) == 0 {
            looked.node_hung()
        } else {
            looked
        }
    }
}

/// Whether everything a tick touches can be touched.
pub open spec fn can_tick(seeded: bool, m: MemState, insn: u64) -> bool {
    if !looks(seeded, insn) {
        true
    } else if !seeded {
        let next = m.after_word_read(GPIO_HEAD_TABLE_BASE);
        m.reads(GPIO_HEAD_TABLE_BASE) && (seeds(seeded, m, insn) ==> next.can_raise_all(
            standing_masks(),
            true,
        ) && next.all_raised(standing_masks(), true).can_hang_node())
    } else {
        let next = m.all_raised(standing_masks(), false);
        &&& m.can_raise_all(standing_masks(), false)
        &&& next.reads(GPIO_CHAN15_HEAD)
        &&& value_or(next.word_read(GPIO_CHAN15_HEAD), 0) == 0 ==> next.after_word_read(
            GPIO_CHAN15_HEAD,
        ).can_hang_node()
    }
}

/// The alarms that stand have masks of their own, one for each of the seven
/// opcodes, in the order of their opcodes.
pub proof fn law_standing_alarms_have_distinct_masks(i: int, j: int)
    requires
        0 <= i < j < 7,
    ensures
        standing_masks()[i] < standing_masks()[j],
        standing_masks().len() == 7,
        standing_masks()[i] == mask_addr(PERSISTENT_OPCODES@[i]),
        standing_masks()[j] == mask_addr(PERSISTENT_OPCODES@[j]),
        PERSISTENT_OPCODES@ == seq![23u16, 28, 64, 131, 193, 199, 201],
        handler_index(PERSISTENT_OPCODES@[i]) is Some,
{
    assert(PERSISTENT_OPCODES@ =~= seq![23u16, 28, 64, 131, 193, 199, 201]);
}

/// Every opcode with a handler has its mask among the 147 there are. The mask
/// is a double word, and its low word comes second.
pub proof fn law_handlers_have_their_masks(opcode: u16)
    ensures
        handler_index(opcode) matches Some(i) ==> i < 147 && mask_addr(opcode) == 0x1_1010 + 8 * i,
{
}

/// The opcodes with a handler are nine runs.
pub proof fn law_opcodes_with_a_handler(opcode: u16)
    ensures
        handler_index(opcode) is Some <==> 1 <= opcode <= 0x24 || 0x40 <= opcode <= 0x51 || 0x80
            <= opcode <= 0x89 || 0xC0 <= opcode <= 0xCD || opcode == 0x100 || 0x200 <= opcode
            <= 0x29D || opcode == 0x300 || 0x1000 <= opcode <= 0x1004,
{
}

/// Inside a run handlers follow each other as the opcodes do; each run begins
/// where the one before ended, but for the run of 0x21D, which begins over at
/// handler 12, and the gap of three before the run of 0x200.
pub proof fn law_handlers_follow_their_opcodes(opcode: u16)
    requires
        handler_index(opcode) is Some,
    ensures
        opcode != 0x21C && opcode < 0xFFFF && handler_index((opcode + 1) as u16) is Some
            ==> handler_index((opcode + 1) as u16) == Some((handler_index(opcode)->0 + 1) as u32),
        handler_index(1) == Some(0u32),
        handler_index(0x40) == Some((handler_index(0x24)->0 + 1) as u32),
        handler_index(0x80) == Some((handler_index(0x51)->0 + 1) as u32),
        handler_index(0xC0) == Some((handler_index(0x89)->0 + 1) as u32),
        handler_index(0x100) == Some((handler_index(0xCD)->0 + 1) as u32),
        handler_index(0x200) == Some((handler_index(0x100)->0 + 4) as u32),
        handler_index(0x21D) == Some(12u32),
        handler_index(0x300) == Some((handler_index(0x29D)->0 + 1) as u32),
        handler_index(0x1000) == Some((handler_index(0x300)->0 + 1) as u32),
{
}

/// Nothing is touched between the multiples of 64 instructions, nor before the
/// first million; and until the lists are empty the model only looks.
pub proof fn law_alarms_wait_for_the_firmware(seeded: bool, m: MemState, insn: u64)
    ensures
        insn % 64 != 0 ==> after_tick(seeded, m, insn) == m && !seeds(seeded, m, insn),
        !seeded && insn < 1_000_000 ==> after_tick(seeded, m, insn) == m && !seeds(
            seeded,
            m,
            insn,
        ),
        !seeded && insn % 64 == 0 && insn >= 1_000_000 ==> (seeds(seeded, m, insn) <==> m.word_read(
            0x30C0,
        ) == Ok::<u32, Exception>(0)),
        !seeded && insn % 64 == 0 && insn >= 1_000_000 && m.word_read(0x30C0) != Ok::<
            u32,
            Exception,
        >(0) ==> after_tick(seeded, m, insn) == m.after_word_read(0x30C0),
        seeded ==> !seeds(seeded, m, insn),
{
}

/// Raising a mask word reads it and writes it back with bit 0 up. A word that
/// has the bit already is left alone unless it is to be written again.
pub proof fn law_raising_sets_bit_zero(m: MemState, addr: u32, v: u32, again: bool)
    requires
        m.word_read(addr) == Ok::<u32, Exception>(v),
    ensures
        (v | 1) & 1 == 1,
        (v | 1) & !1u32 == v & !1u32,
        v & 1 == 1 && !again ==> m.raised(addr, again) == m.after_word_read(addr),
        v & 1 == 0 || again ==> m.raised(addr, again) == m.after_word_read(addr).after_word_write(
            addr,
            v | 1,
        ),
{
    crate::bits::lemma_set_bits(v, 1);
    crate::bits::lemma_field_bounds(v);
}

/// The node of channel 15 is a zero link, the channel and the priority five in
/// two bytes, and two bytes of zero; then the head of the channel points at it.
pub proof fn law_node_is_hung_in_order(m: MemState)
    ensures
        m.node_hung() == m.after_word_write(0x0007_FFE0, 0).after_byte_write(
            0x0007_FFE4,
            15,
        ).after_byte_write(0x0007_FFE5, 5).after_byte_write(0x0007_FFE6, 0).after_byte_write(
            0x0007_FFE7,
            0,
        ).after_word_write(0x30FC, 0x0007_FFE0),
{
    reveal_with_fuel(MemState::node_bytes, 5);
}

/// Once the alarms are in, a tick raises again those that were cleared, and
/// hangs the node in only where the list of channel 15 is empty.
pub proof fn law_alarms_are_put_back(m: MemState, insn: u64)
    requires
        insn % 64 == 0,
    ensures
        ({
            let next = m.all_raised(standing_masks(), false);
            let looked = next.after_word_read(0x30FC);
            &&& next.word_read(0x30FC) matches Ok(v) ==> (v != 0 ==> after_tick(true, m, insn)
                == looked) && (v == 0 ==> after_tick(true, m, insn) == looked.node_hung())
            &&& next.word_read(0x30FC) is Err ==> after_tick(true, m, insn) == looked.node_hung()
        }),
{
}

} // verus!
