//! Accesses that may not go through.
//!
//! A command to the flash can ask for something the part does not have, and the
//! counters behind some registers can be full. Here an access, and each write
//! that stimulus queues in its wake, is looked at before it is made, and the
//! first that cannot be made is where it ends.

use vstd::prelude::*;

use super::{BankState, PeripheralBank};
use crate::cpu::exception::Exception;
use crate::soc::devices::{DevState, Owner, PBC_BASE};
use crate::soc::peripheral::{merge_byte, merge_half};
use crate::soc::scenario::DeferredWrite;

verus! {

impl BankState {
    /// How many writes of a list go through, one after the other.
    pub open spec fn passing(self, writes: Seq<DeferredWrite>) -> nat
        decreases writes.len(),
    {
        if self.can_defer(writes) || writes.len() == 0 {
            writes.len()
        } else {
            self.passing(writes.drop_last())
        }
    }

    /// The bank once the queued writes went through, up to the first that
    /// cannot.
    pub open spec fn drained_as_far(self) -> BankState {
        let writes = self.dev.scenario.deferred;
        let start = self.undeferred();
        start.after_deferred(writes.take(start.passing(writes) as int))
    }

    /// The bank after a word read was tried.
    pub open spec fn after_tried_read(self, addr: u32) -> BankState {
        if self.can_read(addr) {
            self.after_read(addr).drained_as_far()
        } else {
            self
        }
    }

    /// The bank after a word write was tried.
    pub open spec fn after_tried_write(self, addr: u32, val: u32) -> BankState {
        if self.can_write(addr, val) {
            self.after_write(addr, val).drained_as_far()
        } else {
            self
        }
    }
}

/// Queued writes that can all go through all do.
pub proof fn law_passable_writes_all_go_through(b: BankState)
    requires
        b.can_drain(),
    ensures
        b.drained_as_far() == b.drained(),
{
    let writes = b.dev.scenario.deferred;
    assert(writes.take(writes.len() as int) =~= writes);
}

/// A write that cannot be made is where a list of writes ends.
proof fn lemma_passing(start: BankState, writes: Seq<DeferredWrite>, n: int)
    requires
        0 <= n <= writes.len(),
        start.can_defer(writes.take(n)),
        n < writes.len() ==> !start.can_defer(writes.take(n + 1)),
    ensures
        start.passing(writes) == n,
    decreases writes.len(),
{
    if n == writes.len() {
        assert(writes.take(n) =~= writes);
    } else {
        let init = writes.drop_last();
        if start.can_defer(writes) {
            super::lemma_can_defer_prefix(start, writes, n + 1);
        }
        assert(init.take(n) =~= writes.take(n));
        if n < init.len() {
            assert(init.take(n + 1) =~= writes.take(n + 1));
        }
        lemma_passing(start, init, n);
    }
}

impl PeripheralBank {
    fn takes_value(&self, owner: Owner, addr: u32, val: u32) -> (r: bool)
        requires
            self.wf(),
            owner is Pbc ==> addr >= PBC_BASE,
        ensures
            r == self@.dev.writable(owner, addr, val),
    {
        match owner {
            Owner::Pbc => self.pbc.would_accept(addr - PBC_BASE, val),
            Owner::Lue => self.lue.takes(addr, val),
            Owner::Sysreg => self.sysreg.tally_room(addr).1,
            _ => true,
        }
    }

    fn gives_value(&self, owner: Owner, addr: u32) -> (r: bool)
        ensures
            r == self@.dev.readable(owner, addr),
    {
        match owner {
            Owner::EponMac => self.epon_mac.counts_read(addr),
            Owner::Sysreg => self.sysreg.tally_room(addr).0,
            _ => true,
        }
    }

    /// Whether a word can be read.
    pub fn lets_read(&self, addr: u32) -> (r: bool)
        ensures
            r == self@.can_read(addr),
    {
        proof {
            reveal(BankState::can_read);
            reveal(DevState::owner);
        }
        self.scenario.overrides.peek_read(addr).is_some() || self.olt.answers(addr)
            || self.gives_value(self.owner_of(addr, false), addr)
    }

    /// Whether a half-word or a byte can be read.
    pub fn lets_read_narrow(&self, addr: u32) -> (r: bool)
        ensures
            r == self@.can_read_narrow(addr),
    {
        proof {
            reveal(BankState::can_read_narrow);
            reveal(DevState::owner);
        }
        self.scenario.overrides.peek_read(addr & !3).is_some() || self.gives_value(
            self.owner_of(addr, true),
            addr & !3,
        )
    }

    /// Whether a word can be written.
    pub fn takes_word(&self, addr: u32, val: u32) -> (r: bool)
        requires
            self.wf(),
        ensures
            r == self@.can_write(addr, val),
    {
        proof {
            reveal(BankState::can_write);
            reveal(DevState::owner);
        }
        let v: u32 = match self.scenario.overrides.filter_write(addr, val) {
            Some(masked) => masked,
            None => val,
        };
        self.olt.takes_command(addr) || self.takes_value(self.owner_of(addr, false), addr, v)
    }

    /// Whether a half-word can be written.
    pub fn takes_half(&self, addr: u32, val: u16) -> (r: bool)
        requires
            self.wf(),
        ensures
            r == self@.can_write_half(addr, val),
    {
        let owner = self.owner_of(addr, true);
        proof {
            reveal(BankState::can_write_half);
            crate::soc::devices::lemma_owner_claims(self@.dev, addr, true);
        }
        let word: u32 = merge_half(self.merge_base(owner, addr), addr, val);
        self.takes_value(owner, addr & !3, word)
    }

    /// Whether a byte can be written.
    pub fn takes_byte(&self, addr: u32, val: u8) -> (r: bool)
        requires
            self.wf(),
        ensures
            r == self@.can_write_byte(addr, val),
    {
        let owner = self.owner_of(addr, true);
        proof {
            reveal(BankState::can_write_byte);
            crate::soc::devices::lemma_owner_claims(self@.dev, addr, true);
        }
        let word: u32 = merge_byte(self.merge_base(owner, addr), addr, val);
        self.takes_value(owner, addr & !3, word)
    }

    /// Carry out the queued writes, up to the first that cannot be made. Says
    /// whether all were.
    fn try_drain(&mut self) -> (r: bool)
        requires
            old(self).wf(),
        ensures
            final(self).wf(),
            r == old(self)@.can_drain(),
            final(self)@ == old(self)@.drained_as_far(),
    {
        let writes = self.take_deferred();
        let n: usize = writes.len();
        let ghost start = self@;
        assert(writes@.take(0) =~= Seq::<DeferredWrite>::empty());
        for i in 0..n
            invariant
                n == writes@.len(),
                self.wf(),
                start == old(self)@.undeferred(),
                writes@ == old(self)@.dev.scenario.deferred,
                start.can_defer(writes@.take(i as int)),
                self@ == start.after_deferred(writes@.take(i as int)),
        {
            let w: DeferredWrite = writes[i];
            proof {
                assert(writes@.take(i + 1).drop_last() =~= writes@.take(i as int));
                assert(writes@.take(i + 1).last() == w);
            }
            if !self.takes_word(w.address, w.value) {
                proof {
                    lemma_passing(start, writes@, i as int);
                    if start.can_defer(writes@) {
                        super::lemma_can_defer_prefix(start, writes@, i + 1);
                    }
                }
                return false;
            }
            let _ = self.write_word_inner(w.address, w.value);
        }
        proof {
            assert(writes@.take(n as int) =~= writes@);
            lemma_passing(start, writes@, n as int);
        }
        true
    }

    /// Read a word, if that and all it sets off can be done. Where it cannot,
    /// what was done before stays.
    pub fn try_read_word(&mut self, addr: u32) -> (r: Option<Result<u32, Exception>>)
        requires
            old(self).wf(),
        ensures
            final(self).wf(),
            r is Some <==> old(self)@.can_read(addr) && old(self)@.after_read(addr).can_drain(),
            r matches Some(v) ==> v == old(self)@.read_result(addr),
            final(self)@ == old(self)@.after_tried_read(addr),
    {
        if !self.lets_read(addr) {
            return None;
        }
        let result = self.begin_read(addr);
        if self.try_drain() {
            Some(result)
        } else {
            None
        }
    }

    /// Write a word, if that and all it sets off can be done. Where it cannot,
    /// what was done before stays.
    pub fn try_write_word(&mut self, addr: u32, val: u32) -> (r: Option<Result<(), Exception>>)
        requires
            old(self).wf(),
        ensures
            final(self).wf(),
            r is Some <==> old(self)@.can_write(addr, val) && old(self)@.after_write(
                addr,
                val,
            ).can_drain(),
            r matches Some(v) ==> v == old(self)@.write_result(addr, val),
            final(self)@ == old(self)@.after_tried_write(addr, val),
    {
        if !self.takes_word(addr, val) {
            return None;
        }
        let result = self.begin_write(addr, val);
        if self.try_drain() {
            Some(result)
        } else {
            None
        }
    }
}

/// Of a list of writes as many pass as can be made one after the other: those
/// in front can, and with the next one they cannot.
pub proof fn law_writes_pass_up_to_the_first_that_cannot(start: BankState, writes: Seq<DeferredWrite>)
    ensures
        start.passing(writes) <= writes.len(),
        start.can_defer(writes.take(start.passing(writes) as int)),
        start.passing(writes) < writes.len() ==> !start.can_defer(
            writes.take(start.passing(writes) as int + 1),
        ),
    decreases writes.len(),
{
    assert(writes.take(writes.len() as int) =~= writes);
    if !start.can_defer(writes) && writes.len() > 0 {
        let init = writes.drop_last();
        let n = start.passing(init) as int;
        law_writes_pass_up_to_the_first_that_cannot(start, init);
        assert(init.take(n) =~= writes.take(n));
        if n < init.len() {
            assert(init.take(n + 1) =~= writes.take(n + 1));
        } else {
            assert(writes.take(n + 1) =~= writes);
        }
    }
}

/// An access that cannot be made changes nothing. One that can, and whose queued
/// writes all can, is made with all of them.
pub proof fn law_tried_access_is_made_or_leaves_no_trace(b: BankState, addr: u32, val: u32)
    ensures
        !b.can_read(addr) ==> b.after_tried_read(addr) == b,
        !b.can_write(addr, val) ==> b.after_tried_write(addr, val) == b,
        b.can_read(addr) && b.after_read(addr).can_drain() ==> b.after_tried_read(addr)
            == b.after_read(addr).drained(),
        b.can_write(addr, val) && b.after_write(addr, val).can_drain() ==> b.after_tried_write(
            addr,
            val,
        ) == b.after_write(addr, val).drained(),
{
    if b.after_read(addr).can_drain() {
        law_passable_writes_all_go_through(b.after_read(addr));
    }
    if b.after_write(addr, val).can_drain() {
        law_passable_writes_all_go_through(b.after_write(addr, val));
    }
}

} // verus!
