//! The filter error aggregator at `0x01003600..0x01003614`.
//!
//! The fatal word reads zero until a condition is latched, and software clears
//! latched bits by writing them back.

use vstd::prelude::*;

use crate::cpu::exception::Exception;
use crate::soc::mmio_init::{sysreg_init_values, SYSREG_BASE};
use crate::soc::peripheral::{
    AddressRange, FatalFilterEvent, FatalFilterSnapshot, PeripheralError, PeripheralEvent,
    PeripheralSnapshot,
};

verus! {

pub const FATAL_FILTER_BASE: u32 = 0x0100_3600;

pub const FATAL_FILTER_END: u32 = 0x0100_3614;

pub const REG_FILTER_STATUS: u32 = 0x0100_3600;

pub const REG_FILTER_FATAL: u32 = 0x0100_3604;

pub const REG_FILTER_ENABLE: u32 = 0x0100_3608;

pub const REG_FILTER_IRQ: u32 = 0x0100_3610;

#[derive(Clone, Copy, Debug, PartialEq, Eq, Structural)]
pub struct FatalFilter {
    pub fatal_status: u32,
    pub filter_status: u32,
    pub filter_enable: u32,
    pub filter_irq: u32,
    pub link_up_bitmap: u32,
    pub trace: bool,
}

pub open spec fn fatal_filter_claims(addr: u32) -> bool {
    FATAL_FILTER_BASE <= addr < FATAL_FILTER_END
}

impl FatalFilter {
    /// The word an address reads as.
    pub open spec fn word_at(self, addr: u32) -> u32 {
        if addr == REG_FILTER_STATUS {
            self.filter_status
        } else if addr == REG_FILTER_FATAL {
            self.fatal_status
        } else if addr == REG_FILTER_ENABLE {
            self.filter_enable
        } else if addr == REG_FILTER_IRQ {
            self.filter_irq
        } else {
            0
        }
    }

    pub open spec fn after_write(self, addr: u32, val: u32) -> FatalFilter {
        if addr == REG_FILTER_STATUS {
            FatalFilter { filter_status: val, ..self }
        } else if addr == REG_FILTER_FATAL {
            FatalFilter { fatal_status: self.fatal_status & !val, ..self }
        } else if addr == REG_FILTER_ENABLE {
            FatalFilter { filter_enable: val, ..self }
        } else if addr == REG_FILTER_IRQ {
            FatalFilter { filter_irq: val, ..self }
        } else {
            self
        }
    }

    pub open spec fn cleared(trace: bool) -> FatalFilter {
        FatalFilter {
            fatal_status: 0,
            filter_status: 0,
            filter_enable: 0,
            filter_irq: 0,
            link_up_bitmap: 0,
            trace,
        }
    }

    /// The registers after a power-on table. The fatal word latches errors and
    /// takes no power-on value.
    pub open spec fn powered_on(self, table: Seq<(u32, u32)>) -> FatalFilter
        decreases table.len(),
    {
        if table.len() == 0 {
            self
        } else {
            let before = self.powered_on(table.drop_last());
            let addr = (SYSREG_BASE + table.last().0) as u32;
            let val = table.last().1;
            if addr == REG_FILTER_STATUS {
                FatalFilter { filter_status: val, ..before }
            } else if addr == REG_FILTER_ENABLE {
                FatalFilter { filter_enable: val, ..before }
            } else if addr == REG_FILTER_IRQ {
                FatalFilter { filter_irq: val, ..before }
            } else {
                before
            }
        }
    }

    /// The registers after an event; `None` where it is not addressed here.
    pub open spec fn after_event(self, event: PeripheralEvent) -> Option<FatalFilter> {
        match event {
            PeripheralEvent::FatalFilter(FatalFilterEvent::InjectFatal(bits)) => Some(
                FatalFilter { fatal_status: self.fatal_status | bits, ..self },
            ),
            PeripheralEvent::FatalFilter(FatalFilterEvent::ClearFatal) => Some(
                FatalFilter { fatal_status: 0, ..self },
            ),
            PeripheralEvent::FatalFilter(FatalFilterEvent::SetLinkUp(phy, up)) => Some(
                FatalFilter {
                    link_up_bitmap: if up {
                        self.link_up_bitmap | (1u32 << (phy as u32 & 0x1F))
                    } else {
                        self.link_up_bitmap & !(1u32 << (phy as u32 & 0x1F))
                    },
                    ..self
                },
            ),
            _ => None,
        }
    }

    pub fn new() -> (r: Self)
        ensures
            r == FatalFilter::cleared(false),
    {
        FatalFilter {
            fatal_status: 0,
            filter_status: 0,
            filter_enable: 0,
            filter_irq: 0,
            link_up_bitmap: 0,
            trace: false,
        }
    }

    pub fn name(&self) -> (r: &'static str)
        ensures
            r@ == "fatal_filter"@,
    {
        "fatal_filter"
    }

    pub fn address_ranges(&self) -> (r: [AddressRange; 1])
        ensures
            r[0] == (AddressRange { start: FATAL_FILTER_BASE, end: FATAL_FILTER_END }),
    {
        [AddressRange::new(FATAL_FILTER_BASE, FATAL_FILTER_END)]
    }

    pub fn claims(&self, addr: u32) -> (r: bool)
        ensures
            r == fatal_filter_claims(addr),
    {
        FATAL_FILTER_BASE <= addr && addr < FATAL_FILTER_END
    }

    fn apply_silicon_power_on(&mut self)
        ensures
            *final(self) == old(self).powered_on(crate::soc::mmio_init::power_on_table()),
    {
        let table = sysreg_init_values();
        for i in 0..9usize
            invariant
                table@.len() == 9,
                crate::soc::mmio_init::table_in_window(table@),
                *self == old(self).powered_on(table@.take(i as int)),
        {
            let (off, val) = table[i];
            let abs: u32 = SYSREG_BASE + off;
            proof {
                assert(table@.take(i + 1).drop_last() =~= table@.take(i as int));
                assert(table@.take(i + 1).last() == table@[i as int]);
            }
            if abs == REG_FILTER_STATUS {
                self.filter_status = val;
            } else if abs == REG_FILTER_ENABLE {
                self.filter_enable = val;
            } else if abs == REG_FILTER_IRQ {
                self.filter_irq = val;
            }
        }
        assert(table@.take(9) =~= table@);
    }

    pub fn read_word(&mut self, addr: u32) -> (r: Result<u32, Exception>)
        ensures
            r == Ok::<u32, Exception>(old(self).word_at(addr)),
            *final(self) == *old(self),
    {
        if addr == REG_FILTER_STATUS {
            Ok(self.filter_status)
        } else if addr == REG_FILTER_FATAL {
            Ok(self.fatal_status)
        } else if addr == REG_FILTER_ENABLE {
            Ok(self.filter_enable)
        } else if addr == REG_FILTER_IRQ {
            Ok(self.filter_irq)
        } else {
            Ok(0)
        }
    }

    pub fn write_word(&mut self, addr: u32, val: u32) -> (r: Result<(), Exception>)
        ensures
            r == Ok::<(), Exception>(()),
            *final(self) == old(self).after_write(addr, val),
    {
        if addr == REG_FILTER_STATUS {
            self.filter_status = val;
        } else if addr == REG_FILTER_FATAL {
            self.fatal_status = self.fatal_status & !val;
        } else if addr == REG_FILTER_ENABLE {
            self.filter_enable = val;
        } else if addr == REG_FILTER_IRQ {
            self.filter_irq = val;
        }
        Ok(())
    }

    /// Time does not touch the registers.
    pub fn tick(&mut self, _cpu_instructions: u64)
        ensures
            *final(self) == *old(self),
    {
    }

    pub fn reset_cold(&mut self)
        ensures
            *final(self) == FatalFilter::cleared(old(self).trace).powered_on(
                crate::soc::mmio_init::power_on_table(),
            ),
    {
        self.fatal_status = 0;
        self.filter_status = 0;
        self.filter_enable = 0;
        self.filter_irq = 0;
        self.link_up_bitmap = 0;
        self.apply_silicon_power_on();
    }

    /// The power-on state already covers a warm start.
    pub fn reset_warm(&mut self)
        ensures
            *final(self) == FatalFilter::cleared(old(self).trace).powered_on(
                crate::soc::mmio_init::power_on_table(),
            ),
    {
        self.reset_cold();
    }

    pub fn snapshot(&self) -> (r: PeripheralSnapshot)
        ensures
            r == PeripheralSnapshot::FatalFilter(
                FatalFilterSnapshot {
                    fatal_status: self.fatal_status,
                    link_up_bitmap: self.link_up_bitmap,
                },
            ),
    {
        PeripheralSnapshot::FatalFilter(
            FatalFilterSnapshot {
                fatal_status: self.fatal_status,
                link_up_bitmap: self.link_up_bitmap,
            },
        )
    }

    pub fn inject_event(&mut self, event: &PeripheralEvent) -> (r: Result<(), PeripheralError>)
        ensures
            r is Ok <==> old(self).after_event(*event) is Some,
            r is Err ==> r == Err::<(), PeripheralError>(PeripheralError::UnsupportedEvent),
            *final(self) == (match old(self).after_event(*event) {
                Some(s) => s,
                None => *old(self),
            }),
    {
        match event {
            PeripheralEvent::FatalFilter(ev) => {
                match ev {
                    FatalFilterEvent::InjectFatal(bits) => {
                        self.fatal_status = self.fatal_status | *bits;
                    },
                    FatalFilterEvent::ClearFatal => {
                        self.fatal_status = 0;
                    },
                    FatalFilterEvent::SetLinkUp(phy, up) => {
                        let n: u32 = *phy as u32;
                        proof {
                            crate::bits::lemma_field_bounds(n);
                        }
                        let bit: u32 = 1u32 << (n & 0x1F);
                        if *up {
                            self.link_up_bitmap = self.link_up_bitmap | bit;
                        } else {
                            self.link_up_bitmap = self.link_up_bitmap & !bit;
                        }
                    },
                }
                Ok(())
            },
            _ => Err(PeripheralError::UnsupportedEvent),
        }
    }
}

/// Injected conditions stay latched until they are written back: a write
/// clears exactly its ones, and no register write latches a new condition.
pub proof fn law_fatal_bits_latch_until_acknowledged(s: FatalFilter, bits: u32, addr: u32, val: u32)
    ensures
        ({
            let event = PeripheralEvent::FatalFilter(FatalFilterEvent::InjectFatal(bits));
            let latched = s.after_event(event)->0;
            &&& s.after_event(event) is Some
            &&& latched.word_at(0x0100_3604) & bits == bits
            &&& latched.word_at(0x0100_3604) & !bits == s.word_at(0x0100_3604) & !bits
            &&& latched.link_up_bitmap == s.link_up_bitmap
            &&& latched.after_write(0x0100_3604, val).word_at(0x0100_3604) == latched.word_at(
                0x0100_3604,
            ) & !val
            &&& latched.after_write(0x0100_3604, val).word_at(0x0100_3604) & val == 0
            &&& addr != 0x0100_3604 ==> latched.after_write(addr, val).word_at(0x0100_3604)
                == latched.word_at(0x0100_3604)
        }),
{
    crate::bits::lemma_set_bits(s.fatal_status, bits);
    crate::bits::lemma_clear_bits(s.fatal_status | bits, val);
}

/// Raising a link and dropping it again is seen in its bit alone; links count
/// in 32.
pub proof fn law_link_bit_toggles(s: FatalFilter, phy: u8, other: u32)
    requires
        other < 32,
    ensures
        ({
            let up = PeripheralEvent::FatalFilter(FatalFilterEvent::SetLinkUp(phy, true));
            let down = PeripheralEvent::FatalFilter(FatalFilterEvent::SetLinkUp(phy, false));
            let raised = s.after_event(up)->0;
            let dropped = s.after_event(down)->0;
            let bit = 1u32 << ((phy % 32) as u32);
            &&& s.after_event(up) is Some
            &&& s.after_event(down) is Some
            &&& raised.link_up_bitmap & bit != 0
            &&& dropped.link_up_bitmap & bit == 0
            &&& other != phy % 32 ==> raised.link_up_bitmap & (1u32 << other) == s.link_up_bitmap
                & (1u32 << other)
            &&& other != phy % 32 ==> dropped.link_up_bitmap & (1u32 << other) == s.link_up_bitmap
                & (1u32 << other)
            &&& raised == (FatalFilter { link_up_bitmap: raised.link_up_bitmap, ..s })
            &&& dropped == (FatalFilter { link_up_bitmap: dropped.link_up_bitmap, ..s })
        }),
{
    let n = phy as u32;
    crate::bits::lemma_fields(n);
    assert(n & 0x1F == (phy % 32) as u32);
    crate::bits::lemma_one_bit(s.link_up_bitmap, n & 0x1F, other);
}

/// Clearing the fatal word forgets every condition and nothing else; events of
/// other blocks are refused.
pub proof fn law_clearing_forgets_every_condition(s: FatalFilter, event: PeripheralEvent)
    ensures
        ({
            let clear = PeripheralEvent::FatalFilter(FatalFilterEvent::ClearFatal);
            let after = s.after_event(clear)->0;
            &&& s.after_event(clear) is Some
            &&& after.word_at(0x0100_3604) == 0
            &&& after == (FatalFilter { fatal_status: 0, ..s })
        }),
        s.after_event(event) is Some <==> event is FatalFilter,
{
}

/// The three plain registers read back what was written, each on its own; the
/// gap and what lies outside read zero and take nothing.
pub proof fn law_filter_registers_read_back(s: FatalFilter, addr: u32, other: u32, val: u32)
    ensures
        addr == 0x0100_3600 || addr == 0x0100_3608 || addr == 0x0100_3610 ==> s.after_write(
            addr,
            val,
        ).word_at(addr) == val,
        addr != other ==> s.after_write(addr, val).word_at(other) == s.word_at(other),
        addr != 0x0100_3600 && addr != 0x0100_3604 && addr != 0x0100_3608 && addr != 0x0100_3610
            ==> s.after_write(addr, val) == s && s.word_at(addr) == 0,
        s.after_write(addr, val).link_up_bitmap == s.link_up_bitmap,
        fatal_filter_claims(addr) <==> 0x0100_3600 <= addr <= 0x0100_3613,
{
}

/// A power-on table never latches a condition or raises a link.
pub proof fn law_power_on_latches_nothing(s: FatalFilter, table: Seq<(u32, u32)>)
    ensures
        s.powered_on(table).fatal_status == s.fatal_status,
        s.powered_on(table).link_up_bitmap == s.link_up_bitmap,
        s.powered_on(table).trace == s.trace,
    decreases table.len(),
{
    if table.len() > 0 {
        law_power_on_latches_nothing(s, table.drop_last());
    }
}

/// A power-on table sets each plain register to the last value listed at its
/// offset, and leaves those it does not list.
pub proof fn law_power_on_sets_the_listed_words(
    s: FatalFilter,
    table: Seq<(u32, u32)>,
    k: int,
    other: u32,
)
    requires
        forall|j: int| 0 <= j < table.len() ==> (#[trigger] table[j]).0 < 0x0100_0000,
    ensures
        0 <= k < table.len() && (table[k].0 == 0x3600 || table[k].0 == 0x3608 || table[k].0
            == 0x3610) && (forall|j: int|
            k < j < table.len() ==> (#[trigger] table[j]).0 != table[k].0) ==> s.powered_on(
            table,
        ).word_at((0x0100_0000 + table[k].0) as u32) == table[k].1,
        (forall|j: int| 0 <= j < table.len() ==> 0x0100_0000 + (#[trigger] table[j]).0 != other)
            ==> s.powered_on(table).word_at(other) == s.word_at(other),
    decreases table.len(),
{
    if table.len() > 0 {
        let front = table.drop_last();
        assert forall|j: int| 0 <= j < front.len() implies (#[trigger] front[j]).0 < 0x0100_0000 by {
            assert(front[j] == table[j]);
        }
        law_power_on_sets_the_listed_words(s, front, k, other);
        assert(table.last() == table[table.len() - 1]);
        assert(forall|j: int| 0 <= j < front.len() ==> front[j] == #[trigger] table[j]);
    }
}

} // verus!
