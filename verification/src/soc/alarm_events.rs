//! A harness for the alarm pipeline. It models no hardware: it keeps the set of
//! alarm opcodes a front end has forced pending, claims no address and does
//! nothing on a tick.

use vstd::prelude::*;

use crate::cpu::exception::Exception;
use crate::soc::peripheral::{
    AlarmEvent, AlarmSnapshot, PeripheralError, PeripheralEvent, PeripheralSnapshot,
};

verus! {

/// Opcodes the harness can keep.
pub const FORCED_OPCODE_CAPACITY: usize = 64;

#[derive(Debug)]
pub struct AlarmEvents {
    pub forced: Vec<u16>,
    pub trace: bool,
}

impl Clone for AlarmEvents {
    fn clone(&self) -> (r: Self)
        ensures
            r.forced@ == self.forced@,
            r.trace == self.trace,
    {
        let r = AlarmEvents { forced: self.forced.clone(), trace: self.trace };
        assert(r.forced@ =~= self.forced@);
        r
    }
}

/// The list after an opcode is forced: a duplicate, or one too many, changes
/// nothing.
pub open spec fn after_force(forced: Seq<u16>, opcode: u16) -> Seq<u16> {
    if !forced.contains(opcode) && forced.len() < FORCED_OPCODE_CAPACITY {
        forced.push(opcode)
    } else {
        forced
    }
}

/// The opcodes other than one.
pub open spec fn other_than(opcode: u16) -> spec_fn(u16) -> bool {
    |op: u16| op != opcode
}

/// The list after an opcode is cleared; the others keep their order.
pub open spec fn after_clear(forced: Seq<u16>, opcode: u16) -> Seq<u16> {
    forced.filter(other_than(opcode))
}

impl AlarmEvents {
    /// No opcode stands twice, and the list stays within its capacity.
    pub open spec fn wf(&self) -> bool {
        self.forced@.no_duplicates() && self.forced@.len() <= FORCED_OPCODE_CAPACITY
    }

    pub fn new() -> (r: Self)
        ensures
            r.wf(),
            r.forced@ == Seq::<u16>::empty(),
            !r.trace,
    {
        AlarmEvents { forced: Vec::new(), trace: false }
    }

    pub fn name(&self) -> (r: &'static str)
        ensures
            r@ == "alarm_events"@,
    {
        "alarm_events"
    }

    /// The harness has no registers.
    pub fn claims(&self, _addr: u32) -> (r: bool)
        ensures
            !r,
    {
        false
    }

    fn is_forced(&self, opcode: u16) -> (r: bool)
        ensures
            r == self.forced@.contains(opcode),
    {
        for i in 0..self.forced.len()
            invariant
                forall|k: int| 0 <= k < i ==> self.forced@[k] != opcode,
        {
            if self.forced[i] == opcode {
                return true;
            }
        }
        false
    }

    pub fn force_pending(&mut self, opcode: u16)
        requires
            old(self).wf(),
        ensures
            final(self).wf(),
            final(self).forced@ == after_force(old(self).forced@, opcode),
            final(self).trace == old(self).trace,
    {
        if !self.is_forced(opcode) && self.forced.len() < FORCED_OPCODE_CAPACITY {
            self.forced.push(opcode);
        }
    }

    pub fn clear_pending(&mut self, opcode: u16)
        requires
            old(self).wf(),
        ensures
            final(self).wf(),
            final(self).forced@ == after_clear(old(self).forced@, opcode),
            final(self).trace == old(self).trace,
    {
        let n: usize = self.forced.len();
        let mut kept: Vec<u16> = Vec::new();
        let ghost keep = other_than(opcode);
        proof {
            reveal(Seq::filter);
        }
        assert(self.forced@.take(0) =~= Seq::<u16>::empty());
        for i in 0..n
            invariant
                n == self.forced@.len(),
                self.forced@ == old(self).forced@,
                self.trace == old(self).trace,
                old(self).wf(),
                keep == other_than(opcode),
                kept@ == self.forced@.take(i as int).filter(keep),
                kept@.len() <= i,
                kept@.no_duplicates(),
                forall|k: int|
                    0 <= k < kept@.len() ==> self.forced@.take(i as int).contains(
                        #[trigger] kept@[k],
                    ),
        {
            let ghost before = self.forced@.take(i as int);
            let ghost now = self.forced@.take(i + 1);
            proof {
                reveal(Seq::filter);
                assert(now.drop_last() =~= before);
                assert(now.last() == self.forced@[i as int]);
                assert forall|x: u16| before.contains(x) implies now.contains(x) by {
                    let k = choose|k: int| 0 <= k < before.len() && before[k] == x;
                    assert(now[k] == x);
                }
                assert(!before.contains(self.forced@[i as int]));
                assert(now[i as int] == self.forced@[i as int]);
            }
            if self.forced[i] != opcode {
                kept.push(self.forced[i]);
            }
        }
        assert(self.forced@.take(n as int) =~= self.forced@);
        self.forced = kept;
    }

    pub fn clear_all(&mut self)
        ensures
            final(self).wf(),
            final(self).forced@ == Seq::<u16>::empty(),
            final(self).trace == old(self).trace,
    {
        self.forced.clear();
    }

    pub fn forced_opcodes(&self) -> (r: &[u16])
        ensures
            r@ == self.forced@,
    {
        self.forced.as_slice()
    }

    /// Every address reads zero.
    pub fn read_word(&mut self, _addr: u32) -> (r: Result<u32, Exception>)
        ensures
            r == Ok::<u32, Exception>(0),
            *final(self) == *old(self),
    {
        Ok(0)
    }

    /// Writes are dropped.
    pub fn write_word(&mut self, _addr: u32, _val: u32) -> (r: Result<(), Exception>)
        ensures
            r == Ok::<(), Exception>(()),
            *final(self) == *old(self),
    {
        Ok(())
    }

    /// Time does not touch the list.
    pub fn tick(&mut self, _cpu_instructions: u64)
        ensures
            *final(self) == *old(self),
    {
    }

    pub fn reset_cold(&mut self)
        ensures
            final(self).wf(),
            final(self).forced@ == Seq::<u16>::empty(),
            final(self).trace == old(self).trace,
    {
        self.forced.clear();
    }

    /// A warm start is a cold one: nothing forced survives.
    pub fn reset_warm(&mut self)
        ensures
            final(self).wf(),
            final(self).forced@ == Seq::<u16>::empty(),
            final(self).trace == old(self).trace,
    {
        self.reset_cold();
    }

    pub fn snapshot(&self) -> (r: PeripheralSnapshot)
        ensures
            r matches PeripheralSnapshot::Alarm(s) && s.forced_opcodes@ == self.forced@
                && s.live_opcodes@ == Seq::<u16>::empty(),
    {
        PeripheralSnapshot::Alarm(
            AlarmSnapshot {
                forced_opcodes: vstd::slice::slice_to_vec(self.forced.as_slice()),
                live_opcodes: Vec::new(),
            },
        )
    }

    pub fn inject_event(&mut self, event: &PeripheralEvent) -> (r: Result<(), PeripheralError>)
        requires
            old(self).wf(),
        ensures
            final(self).wf(),
            final(self).trace == old(self).trace,
            r is Ok <==> event is Alarm,
            r is Err ==> r == Err::<(), PeripheralError>(PeripheralError::UnsupportedEvent),
            final(self).forced@ == (match *event {
                PeripheralEvent::Alarm(AlarmEvent::ForcePending(op)) => after_force(
                    old(self).forced@,
                    op,
                ),
                PeripheralEvent::Alarm(AlarmEvent::ClearPending(op)) => after_clear(
                    old(self).forced@,
                    op,
                ),
                PeripheralEvent::Alarm(AlarmEvent::ClearAll) => Seq::<u16>::empty(),
                _ => old(self).forced@,
            }),
    {
        match event {
            PeripheralEvent::Alarm(ev) => {
                match ev {
                    AlarmEvent::ForcePending(op) => self.force_pending(*op),
                    AlarmEvent::ClearPending(op) => self.clear_pending(*op),
                    AlarmEvent::ClearAll => self.clear_all(),
                }
                Ok(())
            },
            _ => Err(PeripheralError::UnsupportedEvent),
        }
    }
}

/// What was forced is pending until it is cleared; forcing it again changes
/// nothing.
pub proof fn law_forcing_is_idempotent(forced: Seq<u16>, opcode: u16)
    requires
        forced.len() < 64,
    ensures
        after_force(forced, opcode).contains(opcode),
        !forced.contains(opcode) ==> after_force(forced, opcode) == forced.push(opcode),
        forced.contains(opcode) ==> after_force(forced, opcode) == forced,
        after_force(after_force(forced, opcode), opcode) == after_force(forced, opcode),
{
    if !forced.contains(opcode) {
        assert(forced.push(opcode)[forced.len() as int] == opcode);
    }
}

/// What was cleared is no longer pending, and every other opcode still is.
pub proof fn law_clearing_removes_only_the_named(forced: Seq<u16>, opcode: u16, other: u16)
    ensures
        !after_clear(forced, opcode).contains(opcode),
        other != opcode ==> (after_clear(forced, opcode).contains(other) <==> forced.contains(
            other,
        )),
    decreases forced.len(),
{
    reveal(Seq::filter);
    if forced.len() > 0 {
        law_clearing_removes_only_the_named(forced.drop_last(), opcode, other);
        let rest = forced.drop_last();
        let last = forced.last();
        assert(forced =~= rest.push(last));
        let kept = after_clear(rest, opcode);
        assert(after_clear(forced, opcode) == if last != opcode {
            kept.push(last)
        } else {
            kept
        });
        assert forall|s: Seq<u16>, x: u16, y: u16| #[trigger]
            s.push(x).contains(y) <==> (s.contains(y) || x == y) by {
            if s.contains(y) {
                let k = choose|k: int| 0 <= k < s.len() && s[k] == y;
                assert(s.push(x)[k] == y);
            }
            if x == y {
                assert(s.push(x)[s.len() as int] == y);
            }
            if s.push(x).contains(y) {
                let k = choose|k: int| 0 <= k < s.push(x).len() && s.push(x)[k] == y;
                if k < s.len() {
                    assert(s[k] == y);
                }
            }
        }
    }
}

/// A full list takes no more.
pub proof fn law_full_list_takes_no_more(forced: Seq<u16>, opcode: u16)
    requires
        forced.len() >= 64,
    ensures
        after_force(forced, opcode) == forced,
{
}

/// Clearing keeps the order of what stays: it treats the two parts of a list
/// each on its own, drops a lone opcode if it is the named one, and keeps it
/// otherwise.
pub proof fn law_clearing_keeps_the_order(a: Seq<u16>, b: Seq<u16>, opcode: u16, lone: u16)
    ensures
        after_clear(a + b, opcode) == after_clear(a, opcode) + after_clear(b, opcode),
        after_clear(seq![lone], opcode) == (if lone == opcode {
            Seq::<u16>::empty()
        } else {
            seq![lone]
        }),
        after_clear(Seq::empty(), opcode) == Seq::<u16>::empty(),
{
    Seq::filter_distributes_over_add(a, b, other_than(opcode));
    reveal(Seq::filter);
    assert(seq![lone].drop_last() =~= Seq::<u16>::empty());
    assert(seq![lone].last() == lone);
    assert(Seq::<u16>::empty().filter(other_than(opcode)) =~= Seq::<u16>::empty());
    assert(Seq::<u16>::empty().push(lone) =~= seq![lone]);
}

} // verus!
