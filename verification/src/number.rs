//! Reading numbers out of text.

use vstd::prelude::*;

use crate::text::chars_of;

verus! {

/// A character text is trimmed of.
pub open spec fn is_space(c: char) -> bool {
    ||| 0x09 <= c as u32 <= 0x0D
    ||| c as u32 == 0x20
    ||| c as u32 == 0x85
    ||| c as u32 == 0xA0
    ||| c as u32 == 0x1680
    ||| 0x2000 <= c as u32 <= 0x200A
    ||| c as u32 == 0x2028
    ||| c as u32 == 0x2029
    ||| c as u32 == 0x202F
    ||| c as u32 == 0x205F
    ||| c as u32 == 0x3000
}

pub fn is_whitespace(c: char) -> (r: bool)
    ensures
        r == is_space(c),
{
    let v: u32 = c as u32;
    (0x09 <= v && v <= 0x0D) || v == 0x20 || v == 0x85 || v == 0xA0 || v == 0x1680 || (0x2000 <= v
        && v <= 0x200A) || v == 0x2028 || v == 0x2029 || v == 0x202F || v == 0x205F || v == 0x3000
}

/// Text without the space it starts with.
pub open spec fn trimmed_start(s: Seq<char>) -> Seq<char>
    decreases s.len(),
{
    if s.len() > 0 && is_space(s[0]) {
        trimmed_start(s.skip(1))
    } else {
        s
    }
}

/// Text without the space it ends with.
pub open spec fn trimmed_end(s: Seq<char>) -> Seq<char>
    decreases s.len(),
{
    if s.len() > 0 && is_space(s.last()) {
        trimmed_end(s.drop_last())
    } else {
        s
    }
}

/// Text without the space around it.
pub open spec fn trimmed(s: Seq<char>) -> Seq<char> {
    trimmed_end(trimmed_start(s))
}

/// The characters of a text without the space around it.
pub fn trim(s: &str) -> (r: Vec<char>)
    ensures
        r@ == trimmed(s@),
{
    let mut v = chars_of(s);
    let n: usize = v.len();
    let mut i: usize = 0;
    assert(s@.skip(0) =~= s@);
    while i < n && is_whitespace(v[i])
        invariant
            i <= n,
            n == v@.len(),
            v@ == s@,
            trimmed_start(s@) == trimmed_start(s@.skip(i as int)),
        decreases n - i,
    {
        assert(s@.skip(i as int).skip(1) =~= s@.skip(i + 1));
        i = i + 1;
    }
    let mut out: Vec<char> = Vec::new();
    for k in i..n
        invariant
            n == v@.len(),
            i <= k <= n,
            out@ == v@.subrange(i as int, k as int),
    {
        out.push(v[k]);
        assert(out@ =~= v@.subrange(i as int, k + 1));
    }
    assert(out@ =~= s@.skip(i as int));
    let ghost start = out@;
    while out.len() > 0 && is_whitespace(out[out.len() - 1])
        invariant
            trimmed_end(start) == trimmed_end(out@),
        decreases out@.len(),
    {
        let ghost before = out@;
        out.pop();
        assert(out@ =~= before.drop_last());
    }
    out
}

/// The value of a digit in a base.
pub open spec fn digit_in(c: char, radix: nat) -> Option<nat> {
    match crate::text::digit_value(c) {
        Some(d) => if d < radix {
            Some(d)
        } else {
            None
        },
        None => None,
    }
}

/// The value of a run of digits in a base, if they all are.
pub open spec fn digits_value(s: Seq<char>, radix: nat) -> Option<nat>
    decreases s.len(),
{
    if s.len() == 0 {
        Some(0)
    } else {
        match (digits_value(s.drop_last(), radix), digit_in(s.last(), radix)) {
            (Some(v), Some(d)) => Some(v * radix + d),
            _ => None,
        }
    }
}

/// The number a text stands for: digits behind an optional plus sign, with a
/// value no larger than `max`.
pub open spec fn number(s: Seq<char>, radix: nat, max: nat) -> Option<nat> {
    let body = if s.len() > 0 && s[0] == '+' {
        s.skip(1)
    } else {
        s
    };
    match digits_value(body, radix) {
        Some(v) => if body.len() > 0 && v <= max {
            Some(v)
        } else {
            None
        },
        None => None,
    }
}

proof fn lemma_value_grows(s: Seq<char>, k: int, radix: nat)
    requires
        0 <= k <= s.len(),
        radix >= 1,
    ensures
        digits_value(s.take(k), radix) is None ==> digits_value(s, radix) is None,
        digits_value(s, radix) is Some ==> digits_value(s.take(k), radix) is Some && digits_value(
            s.take(k),
            radix,
        )->0 <= digits_value(s, radix)->0,
    decreases s.len() - k,
{
    if k == s.len() {
        assert(s.take(k) =~= s);
    } else {
        lemma_value_grows(s, k + 1, radix);
        assert(s.take(k + 1).drop_last() =~= s.take(k));
        if digits_value(s.take(k + 1), radix) is Some {
            let v = digits_value(s.take(k), radix)->0;
            assert(v <= v * radix) by (nonlinear_arith)
                requires
                    radix >= 1,
                    v >= 0,
            ;
        }
    }
}

/// Read a number from the characters from `from` on.
pub fn read_number(s: &Vec<char>, from: usize, radix: u8, max: u64) -> (r: Option<u64>)
    requires
        from <= s@.len(),
        2 <= radix <= 16,
        max <= 0xFFFF_FFFF,
    ensures
        match number(s@.skip(from as int), radix as nat, max as nat) {
            Some(v) => r == Some(v as u64),
            None => r is None,
        },
{
    let n: usize = s.len();
    let ghost text = s@.skip(from as int);
    let at: usize = if from < n && s[from] == '+' {
        from + 1
    } else {
        from
    };
    let ghost body = s@.skip(at as int);
    proof {
        if text.len() > 0 && text[0] == '+' {
            assert(text.skip(1) =~= body);
        } else {
            assert(text =~= body);
        }
        assert(body.take(0) =~= Seq::<char>::empty());
    }
    if at == n {
        assert(body =~= Seq::<char>::empty());
        return None;
    }
    let mut value: u64 = 0;
    for i in at..n
        invariant
            n == s@.len(),
            at <= i <= n,
            at < n,
            from <= n,
            text == s@.skip(from as int),
            body == s@.skip(at as int),
            2 <= radix <= 16,
            max <= 0xFFFF_FFFF,
            value <= max,
            digits_value(body.take(i - at), radix as nat) == Some(value as nat),
            number(text, radix as nat, max as nat) == (match digits_value(body, radix as nat) {
                Some(v) => if v <= max {
                    Some(v)
                } else {
                    None
                },
                None => None,
            }),
    {
        proof {
            assert(body.take(i - at + 1).drop_last() =~= body.take(i - at));
            assert(body.take(i - at + 1).last() == s@[i as int]);
            lemma_value_grows(body, i - at + 1, radix as nat);
        }
        let d: u8 = match crate::text::value_of_digit(s[i]) {
            Some(d) => d,
            None => return None,
        };
        if d >= radix {
            return None;
        }
        assert(value * radix <= 0xFFFF_FFFF * 16) by (nonlinear_arith)
            requires
                0 <= value <= 0xFFFF_FFFF,
                2 <= radix <= 16,
        ;
        let next: u64 = value * radix as u64 + d as u64;
        if next > max {
            return None;
        }
        value = next;
    }
    assert(body.take(n - at) =~= body);
    Some(value)
}

/// Whether a text starts with a hexadecimal prefix.
pub open spec fn hex_prefixed(s: Seq<char>) -> bool {
    s.len() >= 2 && s[0] == '0' && (s[1] == 'x' || s[1] == 'X')
}

/// The number a text stands for, in hexadecimal behind a prefix and in decimal
/// without one.
pub open spec fn prefixed_number(s: Seq<char>, max: nat) -> Option<nat> {
    if hex_prefixed(s) {
        number(s.skip(2), 16, max)
    } else {
        number(s, 10, max)
    }
}

pub fn read_prefixed(s: &Vec<char>, max: u64) -> (r: Option<u64>)
    requires
        max <= 0xFFFF_FFFF,
    ensures
        match prefixed_number(s@, max as nat) {
            Some(v) => r == Some(v as u64),
            None => r is None,
        },
{
    assert(s@.skip(0) =~= s@);
    if s.len() >= 2 && s[0] == '0' && (s[1] == 'x' || s[1] == 'X') {
        read_number(s, 2, 16, max)
    } else {
        read_number(s, 0, 10, max)
    }
}

/// Trimmed text neither begins nor ends with space, and text that does not is
/// not changed. Space put in front makes no difference.
pub proof fn law_trimmed_text_has_no_space_around_it(s: Seq<char>, c: char)
    requires
        is_space(c),
    ensures
        trimmed(s).len() > 0 ==> !is_space(trimmed(s)[0]) && !is_space(trimmed(s).last()),
        s.len() > 0 && !is_space(s[0]) && !is_space(s.last()) ==> trimmed(s) == s,
        trimmed(seq![c] + s) == trimmed(s),
        trimmed(s).len() <= s.len(),
{
    lemma_trimmed_start(s);
    lemma_trimmed_end(trimmed_start(s));
    assert((seq![c] + s).skip(1) =~= s);
    assert((seq![c] + s)[0] == c);
}

proof fn lemma_trimmed_start(s: Seq<char>)
    ensures
        trimmed_start(s).len() > 0 ==> !is_space(trimmed_start(s)[0]),
        trimmed_start(s).len() <= s.len(),
    decreases s.len(),
{
    if s.len() > 0 && is_space(s[0]) {
        lemma_trimmed_start(s.skip(1));
    }
}

proof fn lemma_trimmed_end(s: Seq<char>)
    ensures
        trimmed_end(s).len() > 0 ==> !is_space(trimmed_end(s).last()) && trimmed_end(s)[0] == s[0],
        trimmed_end(s).len() <= s.len(),
    decreases s.len(),
{
    if s.len() > 0 && is_space(s.last()) {
        lemma_trimmed_end(s.drop_last());
    }
}

/// A number in decimal reads back, if it is no larger than what is allowed.
pub proof fn law_decimal_reads_back(n: nat, max: nat)
    ensures
        digits_value(crate::text::decimal(n), 10) == Some(n),
        n <= max ==> number(crate::text::decimal(n), 10, max) == Some(n),
        n > max ==> number(crate::text::decimal(n), 10, max) is None,
        prefixed_number(crate::text::decimal(n), max) == number(crate::text::decimal(n), 10, max),
{
    lemma_decimal(n);
    let text = crate::text::decimal(n);
    assert(!hex_prefixed(text)) by {
        if text.len() >= 2 {
            lemma_decimal_digits(n, 1);
        }
    }
    lemma_decimal_digits(n, 0);
}

proof fn lemma_decimal(n: nat)
    ensures
        digits_value(crate::text::decimal(n), 10) == Some(n),
        crate::text::decimal(n).len() > 0,
    decreases n,
{
    let text = crate::text::decimal(n);
    reveal_with_fuel(digits_value, 2);
    if n < 10 {
        assert(text.drop_last() =~= Seq::<char>::empty());
        assert(text.last() == crate::text::decimal_digit(n));
    } else {
        lemma_decimal(n / 10);
        assert(text.drop_last() =~= crate::text::decimal(n / 10));
        assert(text.last() == crate::text::decimal_digit(n % 10));
    }
}

proof fn lemma_decimal_digits(n: nat, i: int)
    requires
        0 <= i < crate::text::decimal(n).len(),
    ensures
        '0' <= crate::text::decimal(n)[i] <= '9',
    decreases n,
{
    if n >= 10 && i < crate::text::decimal(n).len() - 1 {
        lemma_decimal_digits(n / 10, i);
    }
}

/// Digits count by their place: one more digit multiplies what stands before it
/// by the base, and a character that is no digit of the base spoils the number.
pub proof fn law_digits_count_by_their_place(s: Seq<char>, c: char, radix: nat)
    ensures
        digits_value(s, radix) matches Some(v) ==> (crate::text::digit_value(c) matches Some(d) ==> (
        d < radix ==> digits_value(s.push(c), radix) == Some(v * radix + d))),
        crate::text::digit_value(c) matches Some(d) ==> (d >= radix ==> digits_value(
            s.push(c),
            radix,
        ) is None),
        crate::text::digit_value(c) is None ==> digits_value(s.push(c), radix) is None,
        digits_value(s, radix) is None ==> digits_value(s.push(c), radix) is None,
{
    assert(s.push(c).drop_last() =~= s);
}

/// A number takes one plus sign in front, at least one digit, and no value past
/// the largest allowed. Behind 0x or 0X it is hexadecimal.
pub proof fn law_numbers_take_a_sign_and_a_prefix(s: Seq<char>, radix: nat, max: nat)
    ensures
        s.len() > 0 && s[0] != '+' ==> number(seq!['+'] + s, radix, max) == number(s, radix, max),
        number(Seq::empty(), radix, max) is None,
        number(seq!['+'], radix, max) is None,
        number(s, radix, max) matches Some(v) ==> v <= max,
        prefixed_number(seq!['0', 'x'] + s, max) == number(s, 16, max),
        prefixed_number(seq!['0', 'X'] + s, max) == number(s, 16, max),
{
    assert((seq!['+'] + s).skip(1) =~= s);
    assert(seq!['+'].skip(1) =~= Seq::<char>::empty());
    assert((seq!['0', 'x'] + s).skip(2) =~= s);
    assert((seq!['0', 'X'] + s).skip(2) =~= s);
}

/// Whether a number has no more than so many hexadecimal digits.
pub open spec fn fits_digits(n: nat, width: nat) -> bool
    decreases width,
{
    if width == 0 {
        n == 0
    } else {
        fits_digits(n / 16, (width - 1) as nat)
    }
}

/// A number with no more than so many hexadecimal digits reads back from them.
pub proof fn law_fixed_width_reads_back(n: nat, width: nat, upper: bool)
    requires
        fits_digits(n, width),
    ensures
        digits_value(crate::text::hex_fixed(n, width, upper), 16) == Some(n),
    decreases width,
{
    if width > 0 {
        law_fixed_width_reads_back(n / 16, (width - 1) as nat, upper);
        let text = crate::text::hex_fixed(n, width, upper);
        assert(text.drop_last() =~= crate::text::hex_fixed(n / 16, (width - 1) as nat, upper));
        crate::text::law_hex_digit_reads_back(n % 16, upper);
    }
}

} // verus!
