//! Numerically controlled oscillators: sixteen channels of two words.
//!
//! The channel table is aliased over the interrupt vectors at the bottom of
//! memory, on a bus of its own: an uncached store there also lands in the
//! table, while loads and instruction fetches still see SRAM.

use vstd::prelude::*;

use crate::soc::peripheral::{merge_byte, merge_half};
use crate::soc::window::{RegisterWindow, WindowState};

verus! {

/// Bytes of the channel table.
pub const IVT_APERTURE_SIZE: u32 = 0x80;

/// The oscillators, as values.
#[verifier::ext_equal]
pub struct NcoState {
    pub regs: WindowState,
    pub channels: Seq<u32>,
}

/// Whether an address lies in the aliased aperture.
pub open spec fn in_ivt(addr: u32) -> bool {
    addr < IVT_APERTURE_SIZE
}

impl NcoState {
    pub open spec fn wf(self) -> bool {
        self.channels.len() == 32
    }

    /// The table after an uncached store of one, two or four bytes.
    pub open spec fn after_di_store(self, addr: u32, val: u32, size: u8) -> NcoState {
        if in_ivt(addr) {
            let i = addr as int / 4;
            NcoState {
                channels: self.channels.update(
                    i,
                    if size == 1 {
                        crate::soc::peripheral::with_byte_lane(self.channels[i], addr, val as u8)
                    } else if size == 2 {
                        crate::soc::peripheral::with_half_lane(self.channels[i], addr, val as u16)
                    } else {
                        val
                    },
                ),
                ..self
            }
        } else {
            self
        }
    }

    pub open spec fn cleared(self) -> NcoState {
        NcoState { regs: self.regs.cleared(), channels: Seq::new(32, |i: int| 0u32) }
    }
}

#[derive(Debug)]
pub struct Nco {
    pub regs: RegisterWindow,
    pub channels: Vec<u32>,
}

impl View for Nco {
    type V = NcoState;

    open spec fn view(&self) -> NcoState {
        NcoState { regs: self.regs@, channels: self.channels@ }
    }
}

impl Clone for Nco {
    fn clone(&self) -> (r: Self)
        ensures
            r@ == self@,
    {
        let r = Nco {
            regs: self.regs.clone(),
            channels: self.channels.clone(),
        };
        assert(r.channels@ =~= self.channels@);
        assert(r@ =~= self@);
        r
    }
}

impl Nco {
    pub open spec fn wf(&self) -> bool {
        self@.wf()
    }

    pub fn new(regs: RegisterWindow) -> (r: Self)
        ensures
            r.wf(),
            r@ == (NcoState { regs: regs@, channels: Seq::new(32, |i: int| 0u32) }),
    {
        let r = Nco { regs, channels: vec![0u32; 32] };
        assert(r@ =~= (NcoState { regs: regs@, channels: Seq::new(32, |i: int| 0u32) }));
        r
    }

    pub fn in_ivt_aperture(addr: u32) -> (r: bool)
        ensures
            r == in_ivt(addr),
    {
        addr < IVT_APERTURE_SIZE
    }

    /// Take part in an uncached store.
    pub fn ivt_di_store(&mut self, addr: u32, val: u32, size: u8)
        requires
            old(self).wf(),
        ensures
            final(self).wf(),
            final(self)@ == old(self)@.after_di_store(addr, val, size),
    {
        if addr < IVT_APERTURE_SIZE {
            let i: usize = (addr / 4) as usize;
            let word: u32 = self.channels[i];
            self.channels[i] = if size == 1 {
                merge_byte(word, addr, val as u8)
            } else if size == 2 {
                merge_half(word, addr, val as u16)
            } else {
                val
            };
        }
    }

    pub fn reset(&mut self)
        ensures
            final(self).wf(),
            final(self)@ == old(self)@.cleared(),
    {
        self.regs.reset();
        self.channels = vec![0u32; 32];
        assert(self@ =~= old(self)@.cleared());
    }
}

/// An uncached store below 0x80 lands in the channel word it names and in no
/// other: a word whole, a half-word or a byte in its place, highest first. One
/// above changes nothing.
pub proof fn law_store_lands_in_its_channel(s: NcoState, addr: u32, val: u32, size: u8, other: int)
    requires
        s.wf(),
        0 <= other < 32,
    ensures
        ({
            let after = s.after_di_store(addr, val, size);
            let word = after.channels[addr as int / 4];
            let old = s.channels[addr as int / 4];
            &&& addr < 0x80 && size != 1 && size != 2 ==> word == val
            &&& addr < 0x80 && size == 2 && addr % 4 < 2 ==> word == (val % 0x1_0000) * 0x1_0000
                + old % 0x1_0000
            &&& addr < 0x80 && size == 2 && addr % 4 >= 2 ==> word == (old / 0x1_0000) * 0x1_0000
                + val % 0x1_0000
            &&& addr < 0x80 && size == 1 && addr % 4 == 0 ==> word == (val % 0x100) * 0x0100_0000
                + old % 0x0100_0000
            &&& addr < 0x80 && size == 1 && addr % 4 == 1 ==> word == (old / 0x0100_0000)
                * 0x0100_0000 + (val % 0x100) * 0x1_0000 + old % 0x1_0000
            &&& addr < 0x80 && size == 1 && addr % 4 == 2 ==> word == (old / 0x1_0000) * 0x1_0000
                + (val % 0x100) * 0x100 + old % 0x100
            &&& addr < 0x80 && size == 1 && addr % 4 == 3 ==> word == (old / 0x100) * 0x100 + val
                % 0x100
            &&& other != addr as int / 4 ==> after.channels[other] == s.channels[other]
            &&& addr >= 0x80 ==> after == s
            &&& after.regs == s.regs
            &&& after.wf()
        }),
{
    if addr < 0x80 {
        crate::bits::lemma_fields(val);
        crate::soc::peripheral::law_replaced_lanes_stand_big_endian(
            s.channels[addr as int / 4],
            addr,
            val as u8,
            val as u16,
        );
    }
}

/// A reset silences every channel and clears the registers.
pub proof fn law_nco_reset_silences(s: NcoState, i: int, addr: u32)
    requires
        0 <= i < 32,
    ensures
        s.cleared().channels[i] == 0,
        s.cleared().regs.word_at(addr) == 0,
        s.cleared().wf(),
{
}

} // verus!
