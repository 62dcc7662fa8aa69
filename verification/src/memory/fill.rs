//! What SRAM holds before anything writes it.
//!
//! On silicon it does not come up zeroed. Zero is the default all the same, so
//! that runs compare; a uniform byte or a fixed pseudo-random pattern can be
//! asked for instead.

use vstd::prelude::*;

use crate::number::{read_prefixed, trim};

verus! {

/// The seed of the pattern: the same bytes on every run, on every host.
pub const NOISE_SEED: u32 = 0x1357_9BDF;

/// One step of the pattern.
pub open spec fn noise_step(x: u32) -> u32 {
    let a = x ^ (x << 13);
    let b = a ^ (a >> 17);
    b ^ (b << 5)
}

/// The pattern after `n` steps.
pub open spec fn noise_after(n: nat) -> u32
    decreases n,
{
    if n == 0 {
        NOISE_SEED
    } else {
        noise_step(noise_after((n - 1) as nat))
    }
}

/// The bytes of the pattern.
pub open spec fn noise(size: nat) -> Seq<u8> {
    Seq::new(size, |i: int| (noise_after((i + 1) as nat) >> 24) as u8)
}

/// Whether a setting asks for the pattern, in any case.
pub open spec fn asks_for_noise(setting: Option<Seq<char>>) -> bool {
    match setting {
        Some(s) => {
            let t = crate::number::trimmed(s);
            &&& t.len() == 5
            &&& t[0] == 'n' || t[0] == 'N'
            &&& t[1] == 'o' || t[1] == 'O'
            &&& t[2] == 'i' || t[2] == 'I'
            &&& t[3] == 's' || t[3] == 'S'
            &&& t[4] == 'e' || t[4] == 'E'
        },
        None => false,
    }
}

/// The byte a setting asks for; zero where it asks for none.
pub open spec fn fill_byte(setting: Option<Seq<char>>) -> u8 {
    match setting {
        Some(s) => match crate::number::prefixed_number(crate::number::trimmed(s), 0xFF) {
            Some(v) => v as u8,
            None => 0,
        },
        None => 0,
    }
}

/// A setting, as values.
pub open spec fn setting_view(setting: Option<&str>) -> Option<Seq<char>> {
    match setting {
        Some(s) => Some(s@),
        None => None,
    }
}

/// The byte a uniform fill uses: any byte, in hexadecimal or decimal.
pub fn sram_fill(setting: Option<&str>) -> (r: u8)
    ensures
        r == fill_byte(setting_view(setting)),
{
    match setting {
        Some(s) => match read_prefixed(&trim(s), 0xFF) {
            Some(v) => v as u8,
            None => 0,
        },
        None => 0,
    }
}

fn wants_noise(setting: Option<&str>) -> (r: bool)
    ensures
        r == asks_for_noise(setting_view(setting)),
{
    match setting {
        Some(s) => {
            let t = trim(s);
            t.len() == 5 && (t[0] == 'n' || t[0] == 'N') && (t[1] == 'o' || t[1] == 'O') && (t[2]
                == 'i' || t[2] == 'I') && (t[3] == 's' || t[3] == 'S') && (t[4] == 'e' || t[4]
                == 'E')
        },
        None => false,
    }
}

/// The SRAM image before anything writes it.
pub open spec fn initial_image(size: nat, setting: Option<Seq<char>>) -> Seq<u8> {
    if asks_for_noise(setting) {
        noise(size)
    } else {
        Seq::new(size, |i: int| fill_byte(setting))
    }
}

pub fn sram_initial(size: usize, setting: Option<&str>) -> (r: Vec<u8>)
    ensures
        r@ == initial_image(size as nat, setting_view(setting)),
{
    if wants_noise(setting) {
        let mut x: u32 = NOISE_SEED;
        let mut v: Vec<u8> = Vec::new();
        for i in 0..size
            invariant
                x == noise_after(i as nat),
                v@ == noise(size as nat).take(i as int),
        {
            x = x ^ (x << 13);
            x = x ^ (x >> 17);
            x = x ^ (x << 5);
            assert(x == noise_after((i + 1) as nat));
            v.push((x >> 24) as u8);
            assert(v@ =~= noise(size as nat).take(i + 1));
        }
        assert(v@ =~= noise(size as nat));
        return v;
    }
    let v: Vec<u8> = vec![sram_fill(setting); size];
    assert(v@ =~= initial_image(size as nat, setting_view(setting)));
    v
}

/// A smaller image is the start of a larger one: what SRAM holds at an address
/// does not depend on how much of it there is.
pub proof fn law_image_does_not_depend_on_size(small: nat, large: nat, setting: Option<Seq<char>>)
    requires
        small <= large,
    ensures
        initial_image(small, setting) == initial_image(large, setting).take(small as int),
{
    assert(initial_image(small, setting) =~= initial_image(large, setting).take(small as int));
}

/// A step of the pattern mixes a word with itself three times: shifted up by
/// thirteen bits, then down by seventeen, then up by five. The pattern starts
/// from one fixed word.
pub proof fn law_pattern_mixes_three_times(x: u32)
    ensures
        ({
            let a = x ^ ((x * 0x2000) % 0x1_0000_0000) as u32;
            let b = a ^ (a / 0x2_0000);
            noise_step(x) == b ^ ((b * 0x20) % 0x1_0000_0000) as u32
        }),
        noise_after(0) == 0x1357_9BDF,
{
    let a = x ^ (x << 13);
    let b = a ^ (a >> 17);
    assert({
        &&& x << 13 == ((x * 0x2000) % 0x1_0000_0000) as u32
        &&& a >> 17 == a / 0x2_0000
        &&& b << 5 == ((b * 0x20) % 0x1_0000_0000) as u32
    }) by (bit_vector);
}

/// A patterned image takes the high byte of each word of the pattern, from the
/// first step on; a uniform one takes one byte throughout, zero where no byte
/// was asked for.
pub proof fn law_image_is_pattern_or_fill(size: nat, setting: Option<Seq<char>>, i: int, n: nat)
    requires
        0 <= i < size,
    ensures
        initial_image(size, setting).len() == size,
        asks_for_noise(setting) ==> initial_image(size, setting)[i] == noise_after((i + 1) as nat)
            / 0x0100_0000,
        !asks_for_noise(setting) ==> initial_image(size, setting)[i] == fill_byte(setting),
        fill_byte(None) == 0,
        n <= 0xFF ==> fill_byte(Some(crate::text::decimal(n))) == n,
        n > 0xFF ==> fill_byte(Some(crate::text::decimal(n))) == 0,
        !asks_for_noise(None),
{
    let word = noise_after((i + 1) as nat);
    crate::bits::lemma_fields(word);
    crate::bits::lemma_fields(word >> 24);
    crate::number::law_decimal_reads_back(n, 0xFF);
    let text = crate::text::decimal(n);
    crate::text::law_decimal_ends_in_its_last_digit(n);
    lemma_decimal_is_solid(n, 0);
    lemma_decimal_is_solid(n, text.len() - 1);
    crate::number::law_trimmed_text_has_no_space_around_it(text, ' ');
}

proof fn lemma_decimal_is_solid(n: nat, i: int)
    requires
        0 <= i < crate::text::decimal(n).len(),
    ensures
        !crate::number::is_space(crate::text::decimal(n)[i]),
    decreases n,
{
    if n >= 10 && i < crate::text::decimal(n).len() - 1 {
        lemma_decimal_is_solid(n / 10, i);
    }
}

} // verus!
