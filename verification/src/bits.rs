//! Facts about bit patterns that several register models lean on.

use vstd::prelude::*;

verus! {

/// What setting, clearing and masking do to a word.
proof fn lemma_word_bits(x: u32, v: u32)
    by (bit_vector)
    ensures
        (x & !v) & v == 0,
        (x & !v) & !v == x & !v,
        (x & !v) | x == x,
        x & v == 0 ==> x & !v == x,
        v == 0xFFFF_FFFF ==> x & !v == 0,
        (x | v) & v == v,
        (x | v) & x == x,
        (x | v) | v == x | v,
        (x | v) & !v == x & !v,
        x & 1 <= 1,
        x & 2 == 0 || x & 2 == 2,
        x & 3 <= 3,
        x & 7 <= 7,
        x & 0xF <= 0xF,
        x & 0x1F <= 0x1F,
        x & 0x3F <= 0x3F,
        x & 0xFF <= 0xFF,
        x & 0x7FF <= 0x7FF,
        x & 0xFFF <= 0xFFF,
        x & 0xFFFF <= 0xFFFF,
        x & 0x1FF <= 0x1FF,
        x >> 28 <= 0xF,
        (x & !(x & 0xF800_0000)) & 0xF800_0000 == 0,
        (x & !(x & 0xF800_0000)) & 0x07FF_FFFF == x & 0x07FF_FFFF,
        (x & 0xF800_0000) & 0x07FF_FFFF == 0,
        x & !(x & 0xF800_0000) == x & 0x07FF_FFFF,
        x & 0xF800_0000 == 0 ==> x & 0x07FF_FFFF == x,
        0u32 & 0x07FF_FFFF == 0,
        x & 0xF800_0000 == 0 && v & 0x07FF_FFFF == 0 ==> x & !v == x,
        0u32 & v == 0,
{
}

/// The fields of a word as numbers.
pub proof fn lemma_fields(x: u32)
    by (bit_vector)
    ensures
        (x >> 18) & 0x1FF == (x / 0x40000) % 0x200,
        (x >> 3) & 0x7FF == (x / 8) % 0x800,
        ((x >> 27) & 0x1F) & 1 == (x / 0x0800_0000) % 2,
        ((x >> 27) & 0x1F) & 2 == 2 * ((x / 0x1000_0000) % 2),
        (x | 0x8000_0000) & 0x7FFF_FFFF == x & 0x7FFF_FFFF,
        (x & !0x8000_0000u32) & 0x7FFF_FFFF == x & 0x7FFF_FFFF,
        (x | 0x8000_0000) & 0x8000_0000 != 0,
        (x & !0x8000_0000u32) & 0x8000_0000 == 0,
        x & !3 == x - x % 4,
        x & 3 == x % 4,
        x & !1 == x - x % 2,
        x & 1 == x % 2,
        x & !0x1F == x - x % 32,
        x & 0x1F == x % 32,
        x & 0xFFFF_FF00 <= x,
        x & 2 != 0 <==> (x / 2) % 2 == 1,
        x & 7 == x % 8,
        x & 0xF == x % 16,
        x & 0x3F == x % 64,
        x & 0xFF == x % 0x100,
        x & 0x1FF == x % 0x200,
        x & 0x7FF == x % 0x800,
        x & 0xFFF == x % 0x1000,
        x & 0xFFFF == x % 0x1_0000,
        x & 0x00FF_FFFF == x % 0x100_0000,
        x & 0x000F_FFFF == x % 0x10_0000,
        x & 0x07FF_FFFF == x % 0x800_0000,
        x & 0xFFFF_0000 == x - x % 0x1_0000,
        x & 0x0FC0_0000 == 0 <==> (x / 0x40_0000) % 64 == 0,
        x & 0x8000_0000 != 0 <==> x >= 0x8000_0000,
        x & 0x4000_0000 != 0 <==> (x / 0x4000_0000) % 2 == 1,
        x & 0x2000_0000 != 0 <==> (x / 0x2000_0000) % 2 == 1,
        x & 0x0040_0000 != 0 <==> (x / 0x40_0000) % 2 == 1,
        x & 0x0001_0000 != 0 <==> (x / 0x1_0000) % 2 == 1,
        x & 0x8000 != 0 <==> (x / 0x8000) % 2 == 1,
        x >> 0 == x,
        x >> 1 == x / 2,
        x >> 3 == x / 8,
        x >> 4 == x / 16,
        x >> 8 == x / 0x100,
        x >> 10 == x / 0x400,
        x >> 12 == x / 0x1000,
        x >> 16 == x / 0x1_0000,
        x >> 20 == x / 0x10_0000,
        x >> 24 == x / 0x100_0000,
        x >> 27 == x / 0x800_0000,
        x >> 28 == x / 0x1000_0000,
        (x as u8) as u32 == x % 0x100,
        (x as u16) as u32 == x % 0x1_0000,
{
}

/// Octets side by side make a number, most significant first.
pub proof fn lemma_octets(a: u8, b: u8, c: u8, d: u8, x: u64)
    by (bit_vector)
    ensures
        ((a as u16) << 8) | b as u16 == a as u16 * 0x100 + b as u16,
        ((a as u32) << 8) | b as u32 == a as u32 * 0x100 + b as u32,
        ((a as u32) << 16) | ((b as u32) << 8) | c as u32 == a as u32 * 0x1_0000 + b as u32 * 0x100
            + c as u32,
        ((a as u32) << 24) | ((b as u32) << 16) | ((c as u32) << 8) | d as u32 == a as u32
            * 0x100_0000 + b as u32 * 0x1_0000 + c as u32 * 0x100 + d as u32,
        d as u32 | ((c as u32) << 8) | ((b as u32) << 16) | ((a as u32) << 24) == a as u32
            * 0x100_0000 + b as u32 * 0x1_0000 + c as u32 * 0x100 + d as u32,
        x <= 0x00FF_FFFF_FFFF_FFFF ==> (x << 8) | a as u64 == x * 0x100 + a as u64,
{
}

/// Clearing the bits of `v` leaves none of them, adds none, and is settled
/// after one pass.
pub proof fn lemma_clear_bits(x: u32, v: u32)
    ensures
        (x & !v) & v == 0,
        (x & !v) & !v == x & !v,
        (x & !v) | x == x,
        x & v == 0 ==> x & !v == x,
        v == 0xFFFF_FFFF ==> x & !v == 0,
{
    lemma_word_bits(x, v);
}

/// Setting the bits of `v` sets them all, drops none, and is settled after one
/// pass.
pub proof fn lemma_set_bits(x: u32, v: u32)
    ensures
        (x | v) & v == v,
        (x | v) & x == x,
        (x | v) | v == x | v,
        (x | v) & !v == x & !v,
{
    lemma_word_bits(x, v);
}

/// The bounds of the small fields registers carry.
pub proof fn lemma_field_bounds(x: u32)
    ensures
        x & 1 <= 1,
        x & 2 == 0 || x & 2 == 2,
        x & 3 <= 3,
        x & 7 <= 7,
        x & 0xF <= 0xF,
        x & 0x1F <= 0x1F,
        x & 0x3F <= 0x3F,
        x & 0xFF <= 0xFF,
        x & 0x7FF <= 0x7FF,
        x & 0xFFF <= 0xFFF,
        x & 0xFFFF <= 0xFFFF,
        x >> 28 <= 0xF,
{
    lemma_word_bits(x, 0);
}

/// Nine bits stay below 512, and halve into an index of 256.
pub proof fn lemma_nine_bits(x: u32)
    ensures
        x & 0x1FF <= 0x1FF,
{
    lemma_word_bits(x, 0);
}

/// Clearing the command bits of a word leaves the rest of it.
pub proof fn lemma_command_bits(x: u32)
    ensures
        (x & !(x & 0xF800_0000)) & 0xF800_0000 == 0,
        (x & !(x & 0xF800_0000)) & 0x07FF_FFFF == x & 0x07FF_FFFF,
{
    lemma_word_bits(x, 0);
}

/// Rounding an address down to its word, half-word or cache line.
pub proof fn lemma_round_down(x: u32)
    ensures
        x & !3 == x - x % 4,
        x & 3 == x % 4,
        x & !1 == x - x % 2,
        x & 1 == x % 2,
        x & !0x1F == x - x % 32,
        x & 0x1F == x % 32,
        x & 0xFFFF_FF00 <= x,
{
    lemma_fields(x);
}

/// The command flags of a word, and the rest of it.
pub proof fn lemma_command_flags(x: u32)
    ensures
        (x & 0xF800_0000) & 0x07FF_FFFF == 0,
        x & !(x & 0xF800_0000) == x & 0x07FF_FFFF,
        x & 0xF800_0000 == 0 ==> x & 0x07FF_FFFF == x,
        0u32 & 0x07FF_FFFF == 0,
{
    lemma_word_bits(x, 0);
}

/// Clearing flags a word does not have leaves it alone.
pub proof fn lemma_flags_apart(x: u32, flags: u32)
    ensures
        x & 0xF800_0000 == 0 && flags & 0x07FF_FFFF == 0 ==> x & !flags == x,
{
    lemma_word_bits(x, flags);
}

/// One bit set or cleared: it changes, and no other bit does.
pub proof fn lemma_one_bit(x: u32, b: u32, other: u32)
    by (bit_vector)
    requires
        b < 32,
        other < 32,
    ensures
        (x | (1u32 << b)) & (1u32 << b) != 0,
        (x | (1u32 << b)) & x == x,
        (x & !(1u32 << b)) & (1u32 << b) == 0,
        other != b ==> (x | (1u32 << b)) & (1u32 << other) == x & (1u32 << other),
        other != b ==> (x & !(1u32 << b)) & (1u32 << other) == x & (1u32 << other),
{
}

pub proof fn lemma_no_bits(v: u32)
    ensures
        0u32 & v == 0,
{
    lemma_word_bits(0, v);
}

} // verus!
