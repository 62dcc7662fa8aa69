//! A peripheral known only by the words it holds: whatever is written reads
//! back, and the hardware behind it may put words in from its side.

use std::collections::HashMap;

use vstd::prelude::*;

use crate::soc::peripheral::AddressRange;

verus! {

broadcast use vstd::std_specs::hash::group_hash_axioms;

/// The window, as values.
#[verifier::ext_equal]
pub struct WindowState {
    pub ranges: Seq<AddressRange>,
    pub words: Map<u32, u32>,
}

/// Whether one of a list of ranges holds an address.
pub open spec fn in_ranges(ranges: Seq<AddressRange>, addr: u32) -> bool {
    exists|i: int| 0 <= i < ranges.len() && (#[trigger] ranges[i]).has(addr)
}

impl WindowState {
    pub open spec fn claims(self, addr: u32) -> bool {
        in_ranges(self.ranges, addr)
    }

    /// The word an address reads as; zero until one is written.
    pub open spec fn word_at(self, addr: u32) -> u32 {
        if self.words.dom().contains(addr & !3) {
            self.words[addr & !3]
        } else {
            0
        }
    }

    /// The window after a word is put at an address.
    pub open spec fn after_write(self, addr: u32, val: u32) -> WindowState {
        WindowState { words: self.words.insert(addr & !3, val), ..self }
    }

    /// The window with no word written.
    pub open spec fn cleared(self) -> WindowState {
        WindowState { words: Map::empty(), ..self }
    }
}

#[derive(Debug)]
pub struct RegisterWindow {
    pub ranges: Vec<AddressRange>,
    /// Words by their aligned address.
    pub words: HashMap<u32, u32>,
}

impl View for RegisterWindow {
    type V = WindowState;

    open spec fn view(&self) -> WindowState {
        WindowState { ranges: self.ranges@, words: self.words@ }
    }
}

impl Clone for RegisterWindow {
    fn clone(&self) -> (r: Self)
        ensures
            r@ == self@,
    {
        let r = RegisterWindow {
            ranges: self.ranges.clone(),
            words: self.words.clone(),
        };
        assert(r.ranges@ =~= self.ranges@);
        assert(r@ =~= self@);
        r
    }
}

impl RegisterWindow {
    pub fn new(ranges: Vec<AddressRange>) -> (r: Self)
        ensures
            r@ == (WindowState { ranges: ranges@, words: Map::empty() }),
    {
        let r = RegisterWindow { ranges, words: HashMap::new() };
        assert(r@ =~= (WindowState { ranges: ranges@, words: Map::empty() }));
        r
    }

    pub fn claims(&self, addr: u32) -> (r: bool)
        ensures
            r == self@.claims(addr),
    {
        for i in 0..self.ranges.len()
            invariant
                forall|k: int| 0 <= k < i ==> !(#[trigger] self.ranges@[k]).has(addr),
        {
            if self.ranges[i].contains(addr) {
                assert(self.ranges@[i as int].has(addr));
                return true;
            }
        }
        false
    }

    pub fn read(&self, addr: u32) -> (r: u32)
        ensures
            r == self@.word_at(addr),
    {
        match self.words.get(&(addr & !3)) {
            Some(v) => *v,
            None => 0,
        }
    }

    pub fn write(&mut self, addr: u32, val: u32)
        ensures
            final(self)@ == old(self)@.after_write(addr, val),
    {
        self.words.insert(addr & !3, val);
    }

    pub fn reset(&mut self)
        ensures
            final(self)@ == old(self)@.cleared(),
    {
        self.words = HashMap::new();
        assert(self@ =~= old(self)@.cleared());
    }
}

/// A word written reads back at each of its four addresses, and every other
/// word keeps its value.
pub proof fn law_window_reads_back(s: WindowState, addr: u32, val: u32, other: u32)
    ensures
        other / 4 == addr / 4 ==> s.after_write(addr, val).word_at(other) == val,
        other / 4 != addr / 4 ==> s.after_write(addr, val).word_at(other) == s.word_at(other),
        s.after_write(addr, val).claims(other) == s.claims(other),
{
    crate::bits::lemma_round_down(addr);
    crate::bits::lemma_round_down(other);
}

/// A cleared window reads zero everywhere and claims what it claimed; it claims
/// the addresses from the start of a range to just before its end.
pub proof fn law_cleared_window_reads_zero(s: WindowState, addr: u32)
    ensures
        s.cleared().word_at(addr) == 0,
        s.cleared().claims(addr) == s.claims(addr),
        s.claims(addr) <==> exists|i: int|
            0 <= i < s.ranges.len() && (#[trigger] s.ranges[i]).start <= addr && addr
                < s.ranges[i].end,
{
    if exists|i: int|
        0 <= i < s.ranges.len() && (#[trigger] s.ranges[i]).start <= addr && addr
            < s.ranges[i].end {
        let i = choose|i: int|
            0 <= i < s.ranges.len() && (#[trigger] s.ranges[i]).start <= addr && addr
                < s.ranges[i].end;
        assert(s.ranges[i].has(addr));
    }
}

} // verus!
