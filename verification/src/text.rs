//! Text in and out: the numerals front ends read and write, spelled out so
//! that contracts can speak of every character.

use vstd::prelude::*;

verus! {

/// `String::push` of std: appends one character.
pub assume_specification[ String::push ](s: &mut String, ch: char)
    ensures
        final(s)@ == old(s)@.push(ch),
;

/// The characters of a text, one by one.
pub fn chars_of(s: &str) -> (r: Vec<char>)
    ensures
        r@ == s@,
{
    let mut out: Vec<char> = Vec::new();
    for c in it: s.chars()
        invariant
            it.seq() == s@,
            out@ == it.seq().take(it.index()),
    {
        out.push(c);
        assert(out@ =~= it.seq().take(it.index() + 1));
    }
    assert(out@ =~= s@);
    out
}

/// Whether two texts are the same.
pub fn same_text(a: &str, b: &str) -> (r: bool)
    ensures
        r == (a@ == b@),
{
    let x = chars_of(a);
    let y = chars_of(b);
    if x.len() != y.len() {
        return false;
    }
    for i in 0..x.len()
        invariant
            x@ == a@,
            y@ == b@,
            x@.len() == y@.len(),
            forall|k: int| 0 <= k < i ==> x@[k] == y@[k],
    {
        if x[i] != y[i] {
            return false;
        }
    }
    assert(a@ =~= b@);
    true
}

/// The decimal digit of a number below ten.
pub open spec fn decimal_digit(d: nat) -> char {
    (0x30 + d) as char
}

/// A number in decimal.
pub open spec fn decimal(n: nat) -> Seq<char>
    decreases n,
{
    if n < 10 {
        seq![decimal_digit(n)]
    } else {
        decimal(n / 10).push(decimal_digit(n % 10))
    }
}

fn digit_char(d: u8) -> (r: char)
    requires
        d < 10,
    ensures
        r == decimal_digit(d as nat),
{
    (0x30 + d) as char
}

/// Append a number in decimal.
pub fn append_decimal(out: &mut String, n: u64)
    ensures
        final(out)@ == old(out)@ + decimal(n as nat),
    decreases n,
{
    if n >= 10 {
        append_decimal(out, n / 10);
    }
    out.push(digit_char((n % 10) as u8));
    assert(out@ =~= old(out)@ + decimal(n as nat));
}

/// The hexadecimal digit of a number below sixteen.
pub open spec fn hex_digit(d: nat, upper: bool) -> char {
    if d < 10 {
        (0x30 + d) as char
    } else if upper {
        (0x37 + d) as char
    } else {
        (0x57 + d) as char
    }
}

/// The last `width` hexadecimal digits of a number.
pub open spec fn hex_fixed(n: nat, width: nat, upper: bool) -> Seq<char>
    decreases width,
{
    if width == 0 {
        Seq::empty()
    } else {
        hex_fixed(n / 16, (width - 1) as nat, upper).push(hex_digit(n % 16, upper))
    }
}

pub fn hex_char(d: u8, upper: bool) -> (r: char)
    requires
        d < 16,
    ensures
        r == hex_digit(d as nat, upper),
{
    if d < 10 {
        (0x30 + d) as char
    } else if upper {
        (0x37 + d) as char
    } else {
        (0x57 + d) as char
    }
}

/// Append the last `width` hexadecimal digits of a number.
pub fn append_hex(out: &mut String, n: u64, width: usize, upper: bool)
    ensures
        final(out)@ == old(out)@ + hex_fixed(n as nat, width as nat, upper),
    decreases width,
{
    if width > 0 {
        append_hex(out, n / 16, width - 1, upper);
        out.push(hex_char((n % 16) as u8, upper));
    }
    assert(out@ =~= old(out)@ + hex_fixed(n as nat, width as nat, upper));
}

/// The value of a hexadecimal digit, if the character is one.
pub open spec fn digit_value(c: char) -> Option<nat> {
    if '0' <= c <= '9' {
        Some((c as int - 0x30) as nat)
    } else if 'a' <= c <= 'f' {
        Some((c as int - 0x57) as nat)
    } else if 'A' <= c <= 'F' {
        Some((c as int - 0x37) as nat)
    } else {
        None
    }
}

pub fn value_of_digit(c: char) -> (r: Option<u8>)
    ensures
        match digit_value(c) {
            Some(v) => r == Some(v as u8) && v < 16,
            None => r is None,
        },
{
    let n: u32 = c as u32;
    if 0x30 <= n && n <= 0x39 {
        Some((n - 0x30) as u8)
    } else if 0x61 <= n && n <= 0x66 {
        Some((n - 0x57) as u8)
    } else if 0x41 <= n && n <= 0x46 {
        Some((n - 0x37) as u8)
    } else {
        None
    }
}

/// A digit reads back as the number it stands for, in either case.
pub proof fn law_hex_digit_reads_back(d: nat, upper: bool)
    requires
        d < 16,
    ensures
        digit_value(hex_digit(d, upper)) == Some(d),
{
}

/// A letter in lower case; anything else as it is.
pub open spec fn lower_char(c: char) -> char {
    if 'A' <= c <= 'Z' {
        (c as int + 0x20) as char
    } else {
        c
    }
}

/// A text in lower case, as far as it is ASCII.
pub open spec fn lowered(s: Seq<char>) -> Seq<char> {
    Seq::new(s.len(), |i: int| lower_char(s[i]))
}

fn to_lower(c: char) -> (r: char)
    ensures
        r == lower_char(c),
{
    if 'A' <= c && c <= 'Z' {
        (c as u8 + 0x20) as char
    } else {
        c
    }
}

/// The characters of a text in lower case.
pub fn lower(s: &str) -> (r: Vec<char>)
    ensures
        r@ == lowered(s@),
{
    let v = chars_of(s);
    let mut out: Vec<char> = Vec::new();
    for i in 0..v.len()
        invariant
            v@ == s@,
            out@ == lowered(s@).take(i as int),
    {
        out.push(to_lower(v[i]));
        assert(out@ =~= lowered(s@).take(i + 1));
    }
    assert(out@ =~= lowered(s@));
    out
}

/// Whether characters spell a text.
pub fn spells(v: &Vec<char>, text: &str) -> (r: bool)
    ensures
        r == (v@ == text@),
{
    let t = chars_of(text);
    if v.len() != t.len() {
        return false;
    }
    for i in 0..v.len()
        invariant
            t@ == text@,
            v@.len() == t@.len(),
            forall|k: int| 0 <= k < i ==> v@[k] == t@[k],
    {
        if v[i] != t[i] {
            return false;
        }
    }
    assert(v@ =~= text@);
    true
}

/// Characters as a text.
pub fn string_of(v: &Vec<char>) -> (r: String)
    ensures
        r@ == v@,
{
    let mut out = String::new();
    for i in 0..v.len()
        invariant
            out@ == v@.take(i as int),
    {
        out.push(v[i]);
        assert(out@ =~= v@.take(i + 1));
    }
    assert(out@ =~= v@);
    out
}

/// A text that may be missing, as values.
pub open spec fn opt_text(t: Option<String>) -> Option<Seq<char>> {
    match t {
        Some(s) => Some(s@),
        None => None,
    }
}

/// A copy of a text that may be missing.
pub fn copy_opt(t: &Option<String>) -> (r: Option<String>)
    ensures
        opt_text(r) == opt_text(*t),
{
    match t {
        Some(s) => Some(s.clone()),
        None => None,
    }
}

/// The digits are those one writes: decimal ones from zero on, and behind them
/// the letters from A on, in the case that was asked for.
pub proof fn law_digits_are_the_usual_ones(d: nat, upper: bool)
    requires
        d < 16,
    ensures
        d < 10 ==> hex_digit(d, upper) as int == '0' as int + d && decimal_digit(d) as int == '0' as int
            + d,
        d >= 10 && upper ==> hex_digit(d, upper) as int == 'A' as int + (d - 10),
        d >= 10 && !upper ==> hex_digit(d, upper) as int == 'a' as int + (d - 10),
{
}

/// A number in decimal has its last digit last, and the digits of its tenth
/// before it; a number below ten is one digit.
pub proof fn law_decimal_ends_in_its_last_digit(n: nat)
    ensures
        n < 10 ==> decimal(n) == seq![('0' as int + n) as char],
        n >= 10 ==> decimal(n).last() as int == '0' as int + n % 10 && decimal(n).drop_last()
            == decimal(n / 10),
        decimal(n).len() >= 1,
{
    if n >= 10 {
        assert(decimal(n).drop_last() =~= decimal(n / 10));
    }
}

/// A fixed number of hexadecimal digits is that many, the last digit last.
pub proof fn law_fixed_width_is_kept(n: nat, width: nat, upper: bool)
    ensures
        hex_fixed(n, width, upper).len() == width,
        width > 0 ==> hex_fixed(n, width, upper).last() == hex_digit(n % 16, upper) && hex_fixed(
            n,
            width,
            upper,
        ).drop_last() == hex_fixed(n / 16, (width - 1) as nat, upper),
    decreases width,
{
    if width > 0 {
        law_fixed_width_is_kept(n / 16, (width - 1) as nat, upper);
        assert(hex_fixed(n, width, upper).drop_last() =~= hex_fixed(
            n / 16,
            (width - 1) as nat,
            upper,
        ));
    }
}

/// Lower case moves the capital letters to the small ones and leaves every other
/// character; doing it again changes nothing.
pub proof fn law_lower_case_moves_capitals(s: Seq<char>, i: int)
    requires
        0 <= i < s.len(),
    ensures
        lowered(s).len() == s.len(),
        'A' <= s[i] <= 'Z' ==> lowered(s)[i] as int == s[i] as int + 32 && 'a' <= lowered(s)[i]
            <= 'z',
        !('A' <= s[i] <= 'Z') ==> lowered(s)[i] == s[i],
        lowered(lowered(s)) == lowered(s),
{
    assert(lowered(lowered(s)) =~= lowered(s));
}

} // verus!
