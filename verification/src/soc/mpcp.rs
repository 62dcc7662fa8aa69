//! Multi-point control protocol registers: four regions, of which the last is
//! partly an indirect window.
//!
//! | Region                | Range                      |
//! |:----------------------|:---------------------------|
//! | queue-to-pin map      | `0x01000120..0x01000140`   |
//! | transmit rate         | `0x01000320..0x01000328`   |
//! | slot table            | `0x01001180..0x010011C0`   |
//! | lanes, bandwidth, MAC | `0x01001268..0x01001390`   |
//!
//! The words from `0x010012C0` on are a window onto one of four tables. The
//! word before it, `0x010012BC`, selects which by its low two bits, so that
//! two tables at one offset do not overwrite each other.

use vstd::prelude::*;

use crate::cpu::exception::Exception;
use crate::soc::mmio_init::{sysreg_init_values, SYSREG_BASE};
use crate::soc::peripheral::{AddressRange, PeripheralSnapshot};

verus! {

/// Selects the table behind the window.
pub const TABLE_SELECT: u32 = 0x0100_12BC;

/// First word of the window.
pub const WINDOW_START: u32 = 0x0100_12C0;

/// End of the window and of the last region.
pub const WINDOW_END: u32 = 0x0100_1390;

/// Tables the selector can name.
pub const BANK_COUNT: usize = 4;

/// The registers, as values. The regions lie one after the other in `store`,
/// the tables one after the other in `banks`.
#[verifier::ext_equal]
pub struct MpcpState {
    pub store: Seq<u32>,
    pub banks: Seq<u32>,
    pub bank: int,
    pub trace: bool,
}

/// The word of the store an address names, if a region covers it.
pub open spec fn region_word(addr: u32) -> Option<int> {
    let word = addr & !0x3;
    if 0x0100_0120 <= word < 0x0100_0140 {
        Some((word - 0x0100_0120) / 4)
    } else if 0x0100_0320 <= word < 0x0100_0328 {
        Some(8 + (word - 0x0100_0320) / 4)
    } else if 0x0100_1180 <= word < 0x0100_11C0 {
        Some(10 + (word - 0x0100_1180) / 4)
    } else if 0x0100_1268 <= word < 0x0100_1390 {
        Some(26 + (word - 0x0100_1268) / 4)
    } else {
        None
    }
}

/// The word of the window an address names, if it lies in the window.
pub open spec fn window_word(addr: u32) -> Option<int> {
    let word = addr & !0x3;
    if WINDOW_START <= word < WINDOW_END {
        Some((word - WINDOW_START) / 4)
    } else {
        None
    }
}

pub open spec fn mpcp_claims(addr: u32) -> bool {
    region_word(addr) is Some
}

/// Where a window word of a table lies.
pub open spec fn bank_word(bank: int, idx: int) -> int {
    bank * 52 + idx
}

/// The table a selector value names.
pub open spec fn selected_bank(val: u32) -> int {
    (val & 3) as int
}

impl MpcpState {
    pub open spec fn cleared(trace: bool) -> MpcpState {
        MpcpState {
            store: Seq::new(100, |i: int| 0u32),
            banks: Seq::new(208, |i: int| 0u32),
            bank: 0,
            trace,
        }
    }

    pub open spec fn wf(self) -> bool {
        self.store.len() == 100 && self.banks.len() == 208 && 0 <= self.bank < 4
    }

    /// The word an address reads as.
    pub open spec fn word_at(self, addr: u32) -> u32 {
        match window_word(addr) {
            Some(w) => self.banks[bank_word(self.bank, w)],
            None => match region_word(addr) {
                Some(i) => self.store[i],
                None => 0,
            },
        }
    }

    /// The registers after a word goes in past the selector.
    pub open spec fn poked(self, addr: u32, val: u32) -> MpcpState {
        match window_word(addr) {
            Some(w) => MpcpState { banks: self.banks.update(bank_word(self.bank, w), val), ..self },
            None => match region_word(addr) {
                Some(i) => MpcpState { store: self.store.update(i, val), ..self },
                None => self,
            },
        }
    }

    /// The registers after a word is written.
    pub open spec fn after_write(self, addr: u32, val: u32) -> MpcpState {
        if addr & !0x3 == TABLE_SELECT {
            MpcpState { bank: selected_bank(val), ..self.poked(addr, val) }
        } else {
            self.poked(addr, val)
        }
    }

    /// The registers after every selector entry of a power-on table.
    pub open spec fn selected_by(self, table: Seq<(u32, u32)>) -> MpcpState
        decreases table.len(),
    {
        if table.len() == 0 {
            self
        } else {
            let before = self.selected_by(table.drop_last());
            if SYSREG_BASE + table.last().0 == TABLE_SELECT {
                before.after_write(TABLE_SELECT, table.last().1)
            } else {
                before
            }
        }
    }

    /// The registers after every other entry of a power-on table.
    pub open spec fn filled_by(self, table: Seq<(u32, u32)>) -> MpcpState
        decreases table.len(),
    {
        if table.len() == 0 {
            self
        } else {
            let before = self.filled_by(table.drop_last());
            let addr = (SYSREG_BASE + table.last().0) as u32;
            if addr == TABLE_SELECT {
                before
            } else {
                before.poked(addr, table.last().1)
            }
        }
    }

    /// The registers after a power-on table. The selector goes in first: the
    /// window words of the table describe the bank it names, and no other.
    pub open spec fn powered_on(self, table: Seq<(u32, u32)>) -> MpcpState {
        self.selected_by(table).filled_by(table)
    }
}

pub struct Mpcp {
    pub stores: Vec<u32>,
    pub banks: Vec<u32>,
    /// Table the selector names.
    pub bank: usize,
    pub trace: bool,
}

impl View for Mpcp {
    type V = MpcpState;

    open spec fn view(&self) -> MpcpState {
        MpcpState {
            store: self.stores@,
            banks: self.banks@,
            bank: self.bank as int,
            trace: self.trace,
        }
    }
}

impl Clone for Mpcp {
    fn clone(&self) -> (r: Self)
        ensures
            r@ == self@,
    {
        let r = Mpcp {
            stores: self.stores.clone(),
            banks: self.banks.clone(),
            bank: self.bank,
            trace: self.trace,
        };
        assert(r.stores@ =~= self.stores@);
        assert(r.banks@ =~= self.banks@);
        assert(r@ =~= self@);
        r
    }
}

impl Mpcp {
    pub open spec fn wf(&self) -> bool {
        self@.wf()
    }

    pub fn new() -> (r: Self)
        ensures
            r.wf(),
            r@ == MpcpState::cleared(false),
    {
        let r = Mpcp { stores: vec![0u32; 100], banks: vec![0u32; 208], bank: 0, trace: false };
        assert(r@ =~= MpcpState::cleared(false));
        r
    }

    pub fn name(&self) -> (r: &'static str)
        ensures
            r@ == "mpcp"@,
    {
        "mpcp"
    }

    pub fn address_ranges(&self) -> (r: [AddressRange; 4])
        ensures
            r[0] == (AddressRange { start: 0x0100_0120, end: 0x0100_0140 }),
            r[1] == (AddressRange { start: 0x0100_0320, end: 0x0100_0328 }),
            r[2] == (AddressRange { start: 0x0100_1180, end: 0x0100_11C0 }),
            r[3] == (AddressRange { start: 0x0100_1268, end: 0x0100_1390 }),
    {
        [
            AddressRange::new(0x0100_0120, 0x0100_0140),
            AddressRange::new(0x0100_0320, 0x0100_0328),
            AddressRange::new(0x0100_1180, 0x0100_11C0),
            AddressRange::new(0x0100_1268, 0x0100_1390),
        ]
    }

    pub fn claims(&self, addr: u32) -> (r: bool)
        ensures
            r == mpcp_claims(addr),
    {
        Self::locate(addr).is_some()
    }

    /// Index into the window, for addresses that lie in it.
    fn window_index(addr: u32) -> (r: Option<usize>)
        ensures
            r is Some <==> window_word(addr) is Some,
            r is Some ==> r->0 == window_word(addr)->0 && r->0 < 52,
    {
        let word: u32 = addr & !0x3;
        if WINDOW_START <= word && word < WINDOW_END {
            Some(((word - WINDOW_START) / 4) as usize)
        } else {
            None
        }
    }

    /// Index into the store, for addresses a region covers.
    fn locate(addr: u32) -> (r: Option<usize>)
        ensures
            r is Some <==> region_word(addr) is Some,
            r is Some ==> r->0 == region_word(addr)->0 && r->0 < 100,
    {
        let word: u32 = addr & !0x3;
        if 0x0100_0120 <= word && word < 0x0100_0140 {
            Some(((word - 0x0100_0120) / 4) as usize)
        } else if 0x0100_0320 <= word && word < 0x0100_0328 {
            Some(8 + ((word - 0x0100_0320) / 4) as usize)
        } else if 0x0100_1180 <= word && word < 0x0100_11C0 {
            Some(10 + ((word - 0x0100_1180) / 4) as usize)
        } else if 0x0100_1268 <= word && word < 0x0100_1390 {
            Some(26 + ((word - 0x0100_1268) / 4) as usize)
        } else {
            None
        }
    }

    /// Put a word in past the selector. Outside the regions nothing happens.
    pub fn poke_tx_rate(&mut self, addr: u32, val: u32)
        requires
            old(self).wf(),
        ensures
            final(self).wf(),
            final(self)@ == old(self)@.poked(addr, val),
    {
        match Self::window_index(addr) {
            Some(idx) => {
                let at: usize = self.bank * 52 + idx;
                self.banks[at] = val;
            },
            None => {
                match Self::locate(addr) {
                    Some(i) => {
                        self.stores[i] = val;
                    },
                    None => {},
                }
            },
        }
    }

    /// What an address reads as, with no side effect.
    pub fn peek_tx_rate(&self, addr: u32) -> (r: u32)
        requires
            self.wf(),
        ensures
            r == self@.word_at(addr),
    {
        match Self::window_index(addr) {
            Some(idx) => self.banks[self.bank * 52 + idx],
            None => {
                match Self::locate(addr) {
                    Some(i) => self.stores[i],
                    None => 0,
                }
            },
        }
    }

    pub fn read_word(&mut self, addr: u32) -> (r: Result<u32, Exception>)
        requires
            old(self).wf(),
        ensures
            r == Ok::<u32, Exception>(old(self)@.word_at(addr)),
            *final(self) == *old(self),
    {
        Ok(self.peek_tx_rate(addr))
    }

    pub fn write_word(&mut self, addr: u32, val: u32) -> (r: Result<(), Exception>)
        requires
            old(self).wf(),
        ensures
            r == Ok::<(), Exception>(()),
            final(self).wf(),
            final(self)@ == old(self)@.after_write(addr, val),
    {
        self.poke_tx_rate(addr, val);
        if (addr & !0x3) == TABLE_SELECT {
            proof {
                crate::bits::lemma_field_bounds(val);
            }
            self.bank = (val & 3) as usize;
        }
        Ok(())
    }

    /// Time does not touch the registers.
    pub fn tick(&mut self, _cpu_instructions: u64)
        ensures
            *final(self) == *old(self),
    {
    }

    fn apply_silicon_power_on(&mut self)
        requires
            old(self).wf(),
        ensures
            final(self).wf(),
            final(self)@ == old(self)@.powered_on(crate::soc::mmio_init::power_on_table()),
    {
        let table = sysreg_init_values();
        for i in 0..9usize
            invariant
                table@.len() == 9,
                crate::soc::mmio_init::table_in_window(table@),
                self.wf(),
                self@ == old(self)@.selected_by(table@.take(i as int)),
        {
            let (off, val) = table[i];
            proof {
                assert(table@.take(i + 1).drop_last() =~= table@.take(i as int));
                assert(table@.take(i + 1).last() == table@[i as int]);
            }
            if SYSREG_BASE + off == TABLE_SELECT {
                let _ = self.write_word(TABLE_SELECT, val);
            }
        }
        assert(table@.take(9) =~= table@);
        let ghost armed = self@;
        for i in 0..9usize
            invariant
                table@.len() == 9,
                crate::soc::mmio_init::table_in_window(table@),
                self.wf(),
                self@ == armed.filled_by(table@.take(i as int)),
        {
            let (off, val) = table[i];
            proof {
                assert(table@.take(i + 1).drop_last() =~= table@.take(i as int));
                assert(table@.take(i + 1).last() == table@[i as int]);
            }
            let abs: u32 = SYSREG_BASE + off;
            if abs != TABLE_SELECT {
                self.poke_tx_rate(abs, val);
            }
        }
        assert(table@.take(9) =~= table@);
    }

    pub fn reset_cold(&mut self)
        ensures
            final(self).wf(),
            final(self)@ == MpcpState::cleared(old(self)@.trace).powered_on(
                crate::soc::mmio_init::power_on_table(),
            ),
    {
        self.stores = vec![0u32; 100];
        self.banks = vec![0u32; 208];
        self.bank = 0;
        assert(self@ =~= MpcpState::cleared(old(self)@.trace));
        self.apply_silicon_power_on();
    }

    /// The power-on state already covers a warm start.
    pub fn reset_warm(&mut self)
        ensures
            final(self).wf(),
            final(self)@ == MpcpState::cleared(old(self)@.trace).powered_on(
                crate::soc::mmio_init::power_on_table(),
            ),
    {
        self.reset_cold();
    }

    pub fn snapshot(&self) -> (r: PeripheralSnapshot)
        ensures
            r matches PeripheralSnapshot::Empty(name) && name@ == "mpcp"@,
    {
        PeripheralSnapshot::Empty(self.name())
    }
}

/// The bytes of the four regions are claimed.
pub proof fn law_mpcp_claims_its_regions(addr: u32)
    ensures
        mpcp_claims(addr) <==> 0x0100_0120 <= addr <= 0x0100_013F || 0x0100_0320 <= addr
            <= 0x0100_0327 || 0x0100_1180 <= addr <= 0x0100_11BF || 0x0100_1268 <= addr
            <= 0x0100_138F,
{
    crate::bits::lemma_round_down(addr);
}

/// A claimed word reads back what was written, and shows in no other word; a
/// write outside the regions goes nowhere.
pub proof fn law_registers_round_trip(s: MpcpState, addr: u32, other: u32, val: u32)
    requires
        s.wf(),
    ensures
        0x0100_0120 <= addr < 0x0100_0140 || 0x0100_0320 <= addr < 0x0100_0328 || 0x0100_1180
            <= addr < 0x0100_11C0 || 0x0100_1268 <= addr < 0x0100_1390 ==> s.after_write(
            addr,
            val,
        ).word_at(addr) == val,
        addr / 4 != other / 4 && addr / 4 != 0x0100_12BCu32 / 4 ==> s.after_write(addr, val).word_at(
            other,
        ) == s.word_at(other),
        addr / 4 == other / 4 ==> s.word_at(addr) == s.word_at(other),
        addr / 4 != 0x0100_12BCu32 / 4 ==> s.after_write(addr, val).bank == s.bank,
        s.after_write(addr, val).wf(),
{
    crate::bits::lemma_round_down(addr);
    crate::bits::lemma_round_down(other);
    crate::bits::lemma_field_bounds(val);
    assert(0x0100_12BCu32 % 4 == 0);
}

/// The selector keeps the four tables apart, by the low two bits: what is
/// written under one table is still there after another was armed and written
/// at the same offset, and is there again under any selector with the same low
/// bits.
pub proof fn law_selector_keeps_tables_apart(
    s: MpcpState,
    first: u32,
    second: u32,
    again: u32,
    addr: u32,
    mine: u32,
    theirs: u32,
)
    requires
        s.wf(),
        0x0100_12C0 <= addr < 0x0100_1390,
        first % 4 != second % 4,
        again % 4 == first % 4,
    ensures
        s.after_write(0x0100_12BC, first).after_write(addr, mine).after_write(
            0x0100_12BC,
            second,
        ).after_write(addr, theirs).after_write(0x0100_12BC, again).word_at(addr) == mine,
        s.after_write(0x0100_12BC, first).after_write(addr, mine).after_write(
            0x0100_12BC,
            second,
        ).word_at(addr) == s.after_write(0x0100_12BC, second).word_at(addr),
{
    crate::bits::lemma_round_down(first);
    crate::bits::lemma_round_down(second);
    crate::bits::lemma_round_down(again);
    crate::bits::lemma_round_down(0x0100_12BC);
    crate::bits::lemma_round_down(addr);
    let word = addr - addr % 4;
    let w = (word - 0x0100_12C0) / 4;
    assert(0 <= w < 52);
    assert(window_word(addr) == Some(w));
    assert(window_word(0x0100_12BC) is None);
    let one = s.after_write(0x0100_12BC, first);
    assert(one.bank == first % 4 && one.wf());
    let two = one.after_write(addr, mine);
    assert(two.bank == first % 4 && two.banks == one.banks.update((first % 4) * 52 + w, mine));
    let three = two.after_write(0x0100_12BC, second);
    assert(three.bank == second % 4 && three.banks == two.banks);
    let four = three.after_write(addr, theirs);
    assert(four.banks == three.banks.update((second % 4) * 52 + w, theirs));
    let five = four.after_write(0x0100_12BC, again);
    assert(five.bank == first % 4 && five.banks == four.banks);
}

/// Words below the window are not banked: whatever table is armed, they read
/// the same, and the selector reads back what armed it.
pub proof fn law_words_below_the_window_are_not_banked(s: MpcpState, val: u32, addr: u32)
    requires
        s.wf(),
        addr < 0x0100_12C0 || addr >= 0x0100_1390,
        addr / 4 != 0x0100_12BCu32 / 4,
    ensures
        s.after_write(0x0100_12BC, val).word_at(addr) == s.word_at(addr),
        s.after_write(0x0100_12BC, val).word_at(0x0100_12BC) == val,
{
    crate::bits::lemma_round_down(0x0100_12BC);
    crate::bits::lemma_round_down(addr);
}

/// After a power-on table the armed table is the one its last selector names,
/// and stays the one before where it names none.
pub proof fn law_power_on_arms_the_listed_table(s: MpcpState, table: Seq<(u32, u32)>, k: int)
    requires
        s.wf(),
        forall|j: int| 0 <= j < table.len() ==> (#[trigger] table[j]).0 < 0x0100_0000,
    ensures
        s.powered_on(table).wf(),
        0 <= k < table.len() && table[k].0 == 0x12BC && (forall|j: int|
            k < j < table.len() ==> (#[trigger] table[j]).0 != 0x12BC) ==> s.powered_on(table).bank
            == table[k].1 % 4,
        0 <= k < table.len() && table[k].0 == 0x12BC && (forall|j: int|
            0 <= j < table.len() && j != k ==> (#[trigger] table[j]).0 / 4 != 0x12BCu32 / 4)
            ==> s.powered_on(table).word_at(0x0100_12BC) == table[k].1,
        (forall|j: int| 0 <= j < table.len() ==> (#[trigger] table[j]).0 / 4 != 0x12BCu32 / 4)
            ==> s.powered_on(table).bank == s.bank && s.powered_on(table).word_at(0x0100_12BC)
            == s.word_at(0x0100_12BC),
{
    lemma_selected(s, table, k);
    lemma_filled(s.selected_by(table), table, k, 0x0100_12BC);
    if 0 <= k < table.len() && table[k].0 == 0x12BC {
        assert(0x12BCu32 % 4 == 0);
    }
}

proof fn lemma_selected(s: MpcpState, table: Seq<(u32, u32)>, k: int)
    requires
        s.wf(),
        forall|j: int| 0 <= j < table.len() ==> (#[trigger] table[j]).0 < 0x0100_0000,
    ensures
        s.selected_by(table).wf(),
        0 <= k < table.len() && table[k].0 == 0x12BC && (forall|j: int|
            k < j < table.len() ==> (#[trigger] table[j]).0 != 0x12BC) ==> s.selected_by(table).bank
            == table[k].1 % 4 && s.selected_by(table).word_at(0x0100_12BC) == table[k].1,
        (forall|j: int| 0 <= j < table.len() ==> (#[trigger] table[j]).0 != 0x12BC)
            ==> s.selected_by(table) == s,
    decreases table.len(),
{
    crate::bits::lemma_round_down(0x0100_12BC);
    if table.len() > 0 {
        let front = table.drop_last();
        assert forall|j: int| 0 <= j < front.len() implies (#[trigger] front[j]).0 < 0x0100_0000 by {
            assert(front[j] == table[j]);
        }
        lemma_selected(s, front, k);
        crate::bits::lemma_fields(table.last().1);
        assert(table.last() == table[table.len() - 1]);
        assert(forall|j: int| 0 <= j < front.len() ==> front[j] == #[trigger] table[j]);
    }
}

proof fn lemma_poked(s: MpcpState, addr: u32, other: u32, val: u32)
    requires
        s.wf(),
    ensures
        s.poked(addr, val).wf(),
        s.poked(addr, val).bank == s.bank,
        addr / 4 == other / 4 && mpcp_claims(addr) ==> s.poked(addr, val).word_at(other) == val,
        addr / 4 != other / 4 ==> s.poked(addr, val).word_at(other) == s.word_at(other),
{
    crate::bits::lemma_round_down(addr);
    crate::bits::lemma_round_down(other);
}

proof fn lemma_filled(s: MpcpState, table: Seq<(u32, u32)>, k: int, other: u32)
    requires
        s.wf(),
        forall|j: int| 0 <= j < table.len() ==> (#[trigger] table[j]).0 < 0x0100_0000,
    ensures
        s.filled_by(table).wf(),
        s.filled_by(table).bank == s.bank,
        0 <= k < table.len() && table[k].0 != 0x12BC && 0x0100_0000 + table[k].0 == other
            && mpcp_claims(other) && (forall|j: int|
            k < j < table.len() ==> (#[trigger] table[j]).0 / 4 != table[k].0 / 4) ==> s.filled_by(
            table,
        ).word_at(other) == table[k].1,
        (forall|j: int|
            0 <= j < table.len() ==> (#[trigger] table[j]).0 == 0x12BC || (0x0100_0000 + table[j].0)
                / 4 != other / 4) ==> s.filled_by(table).word_at(other) == s.word_at(other),
    decreases table.len(),
{
    if table.len() > 0 {
        let front = table.drop_last();
        assert forall|j: int| 0 <= j < front.len() implies (#[trigger] front[j]).0 < 0x0100_0000 by {
            assert(front[j] == table[j]);
        }
        lemma_filled(s, front, k, other);
        assert(table.last() == table[table.len() - 1]);
        let at = (0x0100_0000 + table.last().0) as u32;
        lemma_poked(s.filled_by(front), at, other, table.last().1);
        assert(forall|j: int| 0 <= j < front.len() ==> front[j] == #[trigger] table[j]);
    }
}

/// A power-on table sets every word it lists to the last value listed for it.
/// The words of the window go to the table that the list itself arms, wherever
/// in the list the selector stands.
pub proof fn law_power_on_sets_the_listed_words(s: MpcpState, table: Seq<(u32, u32)>, k: int)
    requires
        s.wf(),
        forall|j: int| 0 <= j < table.len() ==> (#[trigger] table[j]).0 < 0x0100_0000,
        0 <= k < table.len(),
        0x120 <= table[k].0 < 0x140 || 0x320 <= table[k].0 < 0x328 || 0x1180 <= table[k].0 < 0x11C0
            || 0x1268 <= table[k].0 < 0x1390,
        table[k].0 != 0x12BC,
        forall|j: int| k < j < table.len() ==> (#[trigger] table[j]).0 / 4 != table[k].0 / 4,
    ensures
        s.powered_on(table).word_at((0x0100_0000 + table[k].0) as u32) == table[k].1,
{
    lemma_selected(s, table, k);
    law_mpcp_claims_its_regions((0x0100_0000 + table[k].0) as u32);
    lemma_filled(s.selected_by(table), table, k, (0x0100_0000 + table[k].0) as u32);
}

} // verus!
