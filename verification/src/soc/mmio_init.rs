//! Register values the chip holds at power-on, as `(offset, value)` pairs
//! relative to the system register base.

use vstd::prelude::*;

verus! {

/// Where register offsets start on the bus.
pub const SYSREG_BASE: u32 = 0x0100_0000;

/// The number of registers with a recorded power-on value.
pub const SYSREG_INIT_COUNT: usize = 9;

/// The power-on table.
pub open spec fn power_on_table() -> Seq<(u32, u32)> {
    seq![
        (0x0024u32, 0x0007_7FF7u32),
        (0x0030u32, 0x0000_FFFFu32),
        (0x0160u32, 0x0001_5000u32),
        (0x1180u32, 0x8000_0000u32),
        (0x12BCu32, 0x0000_0003u32),
        (0x12C0u32, 0x0006_0000u32),
        (0x2400u32, 0x0000_0013u32),
        (0x2800u32, 0x0000_0013u32),
        (0x2D18u32, 0x0813_0E04u32),
    ]
}

/// A table whose offsets stay inside the register window.
pub open spec fn table_in_window(table: Seq<(u32, u32)>) -> bool {
    forall|i: int| 0 <= i < table.len() ==> (#[trigger] table[i]).0 < 0x0001_0000
}

pub fn sysreg_init_values() -> (r: [(u32, u32); 9])
    ensures
        r@ == power_on_table(),
        table_in_window(r@),
{
    let r = [
        (0x0024u32, 0x0007_7FF7u32),
        (0x0030u32, 0x0000_FFFFu32),
        (0x0160u32, 0x0001_5000u32),
        (0x1180u32, 0x8000_0000u32),
        (0x12BCu32, 0x0000_0003u32),
        (0x12C0u32, 0x0006_0000u32),
        (0x2400u32, 0x0000_0013u32),
        (0x2800u32, 0x0000_0013u32),
        (0x2D18u32, 0x0813_0E04u32),
    ];
    assert(r@ =~= power_on_table());
    r
}

/// Which registers hold what at power-on: these nine and no others, each named
/// once, at word offsets.
pub proof fn law_power_on_values(off: u32, val: u32, i: int, j: int)
    requires
        0 <= i < j < power_on_table().len(),
    ensures
        power_on_table().contains((off, val)) <==> {
            ||| off == 0x24 && val == 491_511
            ||| off == 0x30 && val == 65_535
            ||| off == 0x160 && val == 86_016
            ||| off == 0x1180 && val == 2_147_483_648
            ||| off == 0x12BC && val == 3
            ||| off == 0x12C0 && val == 393_216
            ||| off == 0x2400 && val == 19
            ||| off == 0x2800 && val == 19
            ||| off == 0x2D18 && val == 135_466_500
        },
        power_on_table()[i].0 < power_on_table()[j].0,
        power_on_table()[i].0 % 4 == 0,
{
    let t = power_on_table();
    assert(t[0].0 == 0x24 && t[1].0 == 0x30 && t[2].0 == 0x160 && t[3].0 == 0x1180 && t[4].0
        == 0x12BC && t[5].0 == 0x12C0 && t[6].0 == 0x2400 && t[7].0 == 0x2800 && t[8].0 == 0x2D18);
    assert(t[0] == (0x24u32, 491_511u32));
    assert(t[1] == (0x30u32, 65_535u32));
    assert(t[2] == (0x160u32, 86_016u32));
    assert(t[3] == (0x1180u32, 2_147_483_648u32));
    assert(t[4] == (0x12BCu32, 3u32));
    assert(t[5] == (0x12C0u32, 393_216u32));
    assert(t[6] == (0x2400u32, 19u32));
    assert(t[7] == (0x2800u32, 19u32));
    assert(t[8] == (0x2D18u32, 135_466_500u32));
}

} // verus!
