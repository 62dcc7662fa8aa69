//! Bytes, addresses and hardware addresses as the text front ends send and
//! read.

use vstd::prelude::*;

use crate::number::{read_number, read_prefixed, trim};
use crate::text::{append_hex, chars_of, string_of, value_of_digit};

verus! {

/// Bytes in hexadecimal, upper case, two digits each.
pub open spec fn hex_of(bytes: Seq<u8>) -> Seq<char>
    decreases bytes.len(),
{
    if bytes.len() == 0 {
        Seq::empty()
    } else {
        hex_of(bytes.drop_last()) + crate::text::hex_fixed(bytes.last() as nat, 2, true)
    }
}

pub fn bytes_to_hex(bytes: &[u8]) -> (r: String)
    ensures
        r@ == hex_of(bytes@),
{
    let mut out = String::new();
    assert(bytes@.take(0) =~= Seq::<u8>::empty());
    for i in 0..bytes.len()
        invariant
            out@ == hex_of(bytes@.take(i as int)),
    {
        assert(bytes@.take(i + 1).drop_last() =~= bytes@.take(i as int));
        append_hex(&mut out, bytes[i] as u64, 2, true);
    }
    assert(bytes@.take(bytes@.len() as int) =~= bytes@);
    out
}

/// An address in hexadecimal, behind a prefix and with all its digits.
pub open spec fn word_text(v: u32) -> Seq<char> {
    "0x"@ + crate::text::hex_fixed(v as nat, 8, true)
}

pub fn hex_word(v: u32) -> (r: String)
    ensures
        r@ == word_text(v),
{
    let mut out = String::from_str("0x");
    append_hex(&mut out, v as u64, 8, true);
    out
}

/// The value of a hexadecimal digit.
pub fn hex_nibble(c: u8) -> (r: Result<u8, ()>)
    ensures
        match crate::text::digit_value(c as char) {
            Some(v) => r == Ok::<u8, ()>(v as u8) && v < 16,
            None => r is Err,
        },
{
    match value_of_digit(c as char) {
        Some(v) => Ok(v),
        None => Err(()),
    }
}

/// The bytes pairs of digits stand for, if that is what they are.
pub open spec fn hex_pairs(s: Seq<char>) -> Option<Seq<u8>>
    decreases s.len(),
{
    if s.len() == 0 {
        Some(Seq::empty())
    } else if s.len() == 1 {
        None
    } else {
        match (
            hex_pairs(s.take(s.len() - 2)),
            crate::text::digit_value(s[s.len() - 2]),
            crate::text::digit_value(s[s.len() - 1]),
        ) {
            (Some(b), Some(hi), Some(lo)) => Some(b.push((hi * 16 + lo) as u8)),
            _ => None,
        }
    }
}

/// Characters that are no space.
pub open spec fn solid() -> spec_fn(char) -> bool {
    |c: char| !crate::number::is_space(c)
}

/// The bytes a text stands for; space in it does not count.
pub open spec fn hex_bytes(s: Seq<char>) -> Option<Seq<u8>> {
    hex_pairs(s.filter(solid()))
}

fn unspaced(s: &str) -> (r: Vec<char>)
    ensures
        r@ == s@.filter(solid()),
{
    let v = chars_of(s);
    let mut out: Vec<char> = Vec::new();
    proof {
        reveal(Seq::filter);
    }
    assert(s@.take(0) =~= Seq::<char>::empty());
    for i in 0..v.len()
        invariant
            v@ == s@,
            out@ == s@.take(i as int).filter(solid()),
    {
        proof {
            reveal(Seq::filter);
            assert(s@.take(i + 1).drop_last() =~= s@.take(i as int));
            assert(s@.take(i + 1).last() == v@[i as int]);
        }
        if !crate::number::is_whitespace(v[i]) {
            out.push(v[i]);
        }
    }
    assert(s@.take(s@.len() as int) =~= s@);
    out
}

/// An odd or broken start stays broken.
proof fn lemma_pairs_break(s: Seq<char>, k: int)
    requires
        0 <= k <= s.len(),
        k % 2 == 0,
        hex_pairs(s.take(k)) is None,
    ensures
        hex_pairs(s) is None,
    decreases s.len(),
{
    if k == s.len() {
        assert(s.take(k) =~= s);
    } else if s.len() - k >= 2 {
        let t = s.take(s.len() - 2);
        assert(t.take(k) =~= s.take(k));
        lemma_pairs_break(t, k);
    } else {
        assert(s.len() == k + 1);
        lemma_odd_is_none(s);
    }
}

proof fn lemma_odd_is_none(s: Seq<char>)
    requires
        s.len() % 2 == 1,
    ensures
        hex_pairs(s) is None,
    decreases s.len(),
{
    if s.len() > 1 {
        lemma_odd_is_none(s.take(s.len() - 2));
    }
}

/// Read bytes from text.
pub fn decode_hex(s: &str) -> (r: Result<Vec<u8>, ()>)
    ensures
        r is Ok <==> hex_bytes(s@) is Some,
        r matches Ok(b) ==> b@ == hex_bytes(s@)->0,
{
    let clean = unspaced(s);
    let ghost text = clean@;
    let n: usize = clean.len();
    if n % 2 != 0 {
        proof {
            lemma_odd_is_none(text);
        }
        return Err(());
    }
    let mut out: Vec<u8> = Vec::new();
    let mut i: usize = 0;
    assert(text.take(0) =~= Seq::<char>::empty());
    while i < n
        invariant
            n == clean@.len(),
            text == clean@,
            text == s@.filter(solid()),
            n % 2 == 0,
            i % 2 == 0,
            i <= n,
            hex_pairs(text.take(i as int)) == Some(out@),
        decreases n - i,
    {
        let ghost next = text.take(i + 2);
        proof {
            assert(next.take(next.len() - 2) =~= text.take(i as int));
            assert(next[i as int] == clean@[i as int]);
            assert(next[i + 1] == clean@[i + 1]);
            if hex_pairs(next) is None {
                lemma_pairs_break(text, i + 2);
            }
        }
        match (value_of_digit(clean[i]), value_of_digit(clean[i + 1])) {
            (Some(hi), Some(lo)) => out.push(hi * 16 + lo),
            _ => return Err(()),
        }
        i = i + 2;
    }
    assert(text.take(n as int) =~= text);
    Ok(out)
}

/// What bytes are written as reads back as them.
pub proof fn law_hex_reads_back(bytes: Seq<u8>)
    ensures
        hex_bytes(hex_of(bytes)) == Some(bytes),
{
    lemma_pairs_of_hex(bytes);
    lemma_hex_is_solid(hex_of(bytes), bytes);
}

proof fn lemma_pairs_of_hex(bytes: Seq<u8>)
    ensures
        hex_pairs(hex_of(bytes)) == Some(bytes),
        hex_of(bytes).len() == 2 * bytes.len(),
        forall|i: int|
            0 <= i < hex_of(bytes).len() ==> crate::text::digit_value(
                #[trigger] hex_of(bytes)[i],
            ) is Some,
    decreases bytes.len(),
{
    if bytes.len() > 0 {
        let rest = bytes.drop_last();
        lemma_pairs_of_hex(rest);
        let b = bytes.last() as nat;
        reveal_with_fuel(crate::text::hex_fixed, 3);
        let tail = crate::text::hex_fixed(b, 2, true);
        let hi = crate::text::hex_digit(b / 16 % 16, true);
        let lo = crate::text::hex_digit(b % 16, true);
        assert(tail =~= seq![hi, lo]);
        crate::text::law_hex_digit_reads_back(b / 16 % 16, true);
        crate::text::law_hex_digit_reads_back(b % 16, true);
        let s = hex_of(bytes);
        assert(s.take(s.len() - 2) =~= hex_of(rest));
        assert(s[s.len() - 2] == hi && s[s.len() - 1] == lo);
        assert((b / 16 % 16 * 16 + b % 16) as u8 == bytes.last());
        assert(bytes =~= rest.push(bytes.last()));
        assert forall|i: int| 0 <= i < s.len() implies crate::text::digit_value(
            #[trigger] s[i],
        ) is Some by {
            if i < hex_of(rest).len() {
                assert(s[i] == hex_of(rest)[i]);
            }
        }
    }
}

proof fn lemma_hex_is_solid(s: Seq<char>, bytes: Seq<u8>)
    requires
        s == hex_of(bytes),
    ensures
        s.filter(solid()) == s,
{
    lemma_pairs_of_hex(bytes);
    lemma_digits_are_solid(s);
}

proof fn lemma_digits_are_solid(s: Seq<char>)
    requires
        forall|i: int| 0 <= i < s.len() ==> crate::text::digit_value(#[trigger] s[i]) is Some,
    ensures
        s.filter(solid()) == s,
    decreases s.len(),
{
    reveal(Seq::filter);
    if s.len() > 0 {
        let rest = s.drop_last();
        assert forall|i: int| 0 <= i < rest.len() implies crate::text::digit_value(
            #[trigger] rest[i],
        ) is Some by {
            assert(rest[i] == s[i]);
        }
        lemma_digits_are_solid(rest);
        assert(crate::text::digit_value(s[s.len() - 1]) is Some);
        assert(s =~= rest.push(s.last()));
    } else {
        assert(s.filter(solid()) =~= s);
    }
}

/// The byte two ASCII characters stand for: two digits, or a digit behind a
/// plus sign.
pub open spec fn pair_value(a: u8, b: u8) -> Option<u8> {
    match (crate::text::digit_value(a as char), crate::text::digit_value(b as char)) {
        (Some(hi), Some(lo)) => Some((hi * 16 + lo) as u8),
        (None, Some(lo)) => if a == 0x2B {
            Some(lo as u8)
        } else {
            None
        },
        _ => None,
    }
}

/// The bytes from an index on stand for, if they all do.
pub open spec fn frame_from(t: Seq<u8>, i: int) -> Option<Seq<u8>>
    decreases t.len() - i,
{
    if i >= t.len() || i < 0 {
        Some(Seq::empty())
    } else if i + 1 >= t.len() {
        None
    } else {
        match (pair_value(t[i], t[i + 1]), frame_from(t, i + 2)) {
            (Some(b), Some(rest)) => Some(seq![b] + rest),
            _ => None,
        }
    }
}

/// Whether pairs of bytes from an index on do not cut a character in two, up
/// to the first pair that is no number.
pub open spec fn cuts_cleanly(t: Seq<u8>, i: int) -> bool
    decreases t.len() - i,
{
    i >= t.len() || i < 0 || (vstd::utf8::is_char_boundary(t, i + 2) && (i + 1 >= t.len()
        || pair_value(t[i], t[i + 1]) is None || cuts_cleanly(t, i + 2)))
}

/// The text of a frame without space around it and without its prefix.
pub open spec fn frame_text(s: Seq<char>) -> Seq<char> {
    let t = crate::number::trimmed(s);
    if crate::number::hex_prefixed(t) {
        t.skip(2)
    } else {
        t
    }
}

/// The bytes of that text.
pub open spec fn frame_utf8(s: Seq<char>) -> Seq<u8> {
    vstd::utf8::encode_utf8(frame_text(s))
}

/// The bytes a frame text stands for.
pub open spec fn frame_bytes(s: Seq<char>) -> Option<Seq<u8>> {
    if frame_utf8(s).len() % 2 != 0 {
        None
    } else {
        frame_from(frame_utf8(s), 0)
    }
}

fn byte_pair(a: u8, b: u8) -> (r: Option<u8>)
    ensures
        r == pair_value(a, b),
{
    match (hex_nibble(a), hex_nibble(b)) {
        (Ok(hi), Ok(lo)) => Some(hi * 16 + lo),
        (Err(_), Ok(lo)) => {
            if a == 0x2B {
                Some(lo)
            } else {
                None
            }
        },
        _ => None,
    }
}

proof fn lemma_frame_splits(t: Seq<u8>, done: Seq<u8>, i: int)
    requires
        0 <= i,
        i + 1 < t.len(),
        pair_value(t[i], t[i + 1]) is Some,
    ensures
        frame_from(t, i) is Some <==> frame_from(t, i + 2) is Some,
        frame_from(t, i) is Some ==> done + frame_from(t, i)->0 == done.push(
            pair_value(t[i], t[i + 1])->0,
        ) + frame_from(t, i + 2)->0,
{
    if frame_from(t, i + 2) is Some {
        let b = pair_value(t[i], t[i + 1])->0;
        assert(done + (seq![b] + frame_from(t, i + 2)->0) =~= done.push(b) + frame_from(
            t,
            i + 2,
        )->0);
    }
}

/// Read a frame from text. A prefix is allowed, space inside is not.
pub fn hex_decode(s: &str) -> (r: Option<Vec<u8>>)
    requires
        frame_utf8(s@).len() % 2 == 0 ==> cuts_cleanly(frame_utf8(s@), 0),
    ensures
        r is Some <==> frame_bytes(s@) is Some,
        r matches Some(b) ==> b@ == frame_bytes(s@)->0,
{
    let t = trim(s);
    let mut body: Vec<char> = Vec::new();
    let from: usize = if t.len() >= 2 && t[0] == '0' && (t[1] == 'x' || t[1] == 'X') {
        2
    } else {
        0
    };
    let len: usize = t.len();
    for k in from..len
        invariant
            len == t@.len(),
            from <= k <= len,
            body@ == t@.subrange(from as int, k as int),
    {
        body.push(t[k]);
        assert(body@ =~= t@.subrange(from as int, k + 1));
    }
    assert(body@ =~= frame_text(s@));
    let text = string_of(&body);
    let bytes = text.as_str().as_bytes();
    let ghost utf8 = bytes@;
    assert(utf8 == frame_utf8(s@));
    let n: usize = bytes.len();
    if n % 2 != 0 {
        return None;
    }
    let mut out: Vec<u8> = Vec::new();
    let mut i: usize = 0;
    assert(frame_from(utf8, 0) is Some ==> Seq::<u8>::empty() + frame_from(utf8, 0)->0
        =~= frame_from(utf8, 0)->0);
    while i < n
        invariant
            n == bytes@.len(),
            utf8 == bytes@,
            n % 2 == 0,
            i % 2 == 0,
            i <= n,
            utf8 == frame_utf8(s@),
            frame_from(utf8, 0) is Some <==> frame_from(utf8, i as int) is Some,
            frame_from(utf8, 0) is Some ==> out@ + frame_from(utf8, i as int)->0 == frame_from(
                utf8,
                0,
            )->0,
        decreases n - i,
    {
        match byte_pair(bytes[i], bytes[i + 1]) {
            Some(b) => {
                proof {
                    lemma_frame_splits(utf8, out@, i as int);
                }
                out.push(b);
            },
            None => return None,
        }
        i = i + 2;
    }
    assert(out@ + Seq::<u8>::empty() =~= out@);
    Some(out)
}

/// A hardware address, its bytes in hexadecimal between colons.
pub open spec fn mac_text(mac: Seq<u8>) -> Seq<char> {
    crate::text::hex_fixed(mac[0] as nat, 2, true) + ":"@ + crate::text::hex_fixed(
        mac[1] as nat,
        2,
        true,
    ) + ":"@ + crate::text::hex_fixed(mac[2] as nat, 2, true) + ":"@ + crate::text::hex_fixed(
        mac[3] as nat,
        2,
        true,
    ) + ":"@ + crate::text::hex_fixed(mac[4] as nat, 2, true) + ":"@ + crate::text::hex_fixed(
        mac[5] as nat,
        2,
        true,
    )
}

pub fn format_mac(mac: &[u8; 6]) -> (r: String)
    ensures
        r@ == mac_text(mac@),
{
    let mut out = String::new();
    append_hex(&mut out, mac[0] as u64, 2, true);
    out.append(":");
    append_hex(&mut out, mac[1] as u64, 2, true);
    out.append(":");
    append_hex(&mut out, mac[2] as u64, 2, true);
    out.append(":");
    append_hex(&mut out, mac[3] as u64, 2, true);
    out.append(":");
    append_hex(&mut out, mac[4] as u64, 2, true);
    out.append(":");
    append_hex(&mut out, mac[5] as u64, 2, true);
    assert(out@ =~= mac_text(mac@));
    out
}

/// A text cut at every colon.
pub open spec fn colon_parts(s: Seq<char>) -> Seq<Seq<char>>
    decreases s.len(),
{
    if s.len() == 0 {
        seq![Seq::<char>::empty()]
    } else {
        let parts = colon_parts(s.drop_last());
        if s.last() == ':' {
            parts.push(Seq::empty())
        } else {
            parts.update(parts.len() - 1, parts.last().push(s.last()))
        }
    }
}

/// The parts of a text cut at every colon, as values.
pub open spec fn part_views(parts: Seq<Vec<char>>) -> Seq<Seq<char>> {
    Seq::new(parts.len(), |i: int| parts[i]@)
}

fn split_colons(s: &str) -> (r: Vec<Vec<char>>)
    ensures
        part_views(r@) == colon_parts(s@),
        r@.len() >= 1,
{
    let v = chars_of(s);
    let mut done: Vec<Vec<char>> = Vec::new();
    let mut current: Vec<char> = Vec::new();
    assert(s@.take(0) =~= Seq::<char>::empty());
    assert(part_views(done@).push(current@) =~= colon_parts(s@.take(0)));
    for i in 0..v.len()
        invariant
            v@ == s@,
            part_views(done@).push(current@) == colon_parts(s@.take(i as int)),
    {
        let ghost before = part_views(done@).push(current@);
        proof {
            assert(s@.take(i + 1).drop_last() =~= s@.take(i as int));
            assert(s@.take(i + 1).last() == v@[i as int]);
        }
        if v[i] == ':' {
            let ghost was = done@;
            let ghost cur = current@;
            let mut fresh: Vec<char> = Vec::new();
            std::mem::swap(&mut fresh, &mut current);
            done.push(fresh);
            assert(part_views(done@) =~= part_views(was).push(cur));
            assert(part_views(done@).push(current@) =~= before.push(Seq::empty()));
        } else {
            let ghost cur = current@;
            current.push(v[i]);
            assert(part_views(done@).push(current@) =~= before.update(
                before.len() - 1,
                cur.push(v@[i as int]),
            ));
        }
    }
    assert(s@.take(s@.len() as int) =~= s@);
    let ghost was = done@;
    let ghost cur = current@;
    done.push(current);
    assert(part_views(done@) =~= part_views(was).push(cur));
    done
}

/// The hardware address six parts stand for.
pub open spec fn mac_of(parts: Seq<Seq<char>>) -> Option<Seq<u8>> {
    if parts.len() == 6 && forall|i: int|
        0 <= i < 6 ==> crate::number::number(#[trigger] parts[i], 16, 0xFF) is Some {
        Some(Seq::new(6, |i: int| crate::number::number(parts[i], 16, 0xFF)->0 as u8))
    } else {
        None
    }
}

/// Read a hardware address.
pub fn parse_mac_str(s: &str) -> (r: Option<[u8; 6]>)
    ensures
        r is Some <==> mac_of(colon_parts(s@)) is Some,
        r matches Some(mac) ==> mac@ == mac_of(colon_parts(s@))->0,
{
    let parts = split_colons(s);
    let ghost views = colon_parts(s@);
    if parts.len() != 6 {
        return None;
    }
    let mut mac: [u8; 6] = [0u8; 6];
    for i in 0..6usize
        invariant
            views == colon_parts(s@),
            views == part_views(parts@),
            parts@.len() == 6,
            forall|k: int|
                0 <= k < i ==> crate::number::number(#[trigger] views[k], 16, 0xFF) == Some(
                    mac@[k] as nat,
                ),
    {
        assert(parts@[i as int]@.skip(0) =~= views[i as int]);
        match read_number(&parts[i], 0, 16, 0xFF) {
            Some(v) => {
                mac[i] = v as u8;
            },
            None => return None,
        }
    }
    assert(mac@ =~= mac_of(views)->0);
    Some(mac)
}

/// Read an address: hexadecimal behind a prefix, decimal without one.
pub fn parse_addr_str(s: &str) -> (r: Option<u32>)
    ensures
        match crate::number::prefixed_number(crate::number::trimmed(s@), 0xFFFF_FFFF) {
            Some(v) => r == Some(v as u32),
            None => r is None,
        },
{
    match read_prefixed(&trim(s), 0xFFFF_FFFF) {
        Some(v) => Some(v as u32),
        None => None,
    }
}

/// Two digits of a byte read back as it.
proof fn lemma_two_digits(b: u8)
    ensures
        crate::text::hex_fixed(b as nat, 2, true).len() == 2,
        crate::text::hex_fixed(b as nat, 2, true)[0] != ':',
        crate::text::hex_fixed(b as nat, 2, true)[1] != ':',
        crate::number::number(crate::text::hex_fixed(b as nat, 2, true), 16, 0xFF) == Some(
            b as nat,
        ),
{
    let n = b as nat;
    reveal_with_fuel(crate::text::hex_fixed, 3);
    let s = crate::text::hex_fixed(n, 2, true);
    let hi = crate::text::hex_digit(n / 16 % 16, true);
    let lo = crate::text::hex_digit(n % 16, true);
    assert(s =~= seq![hi, lo]);
    crate::text::law_hex_digit_reads_back(n / 16 % 16, true);
    crate::text::law_hex_digit_reads_back(n % 16, true);
    reveal_with_fuel(crate::number::digits_value, 4);
    assert(s.drop_last() =~= seq![hi]);
    assert(s.drop_last().drop_last() =~= Seq::<char>::empty());
}

/// Characters that are no colon stay in the part they are added to.
proof fn lemma_parts_grow(s: Seq<char>, a: char, b: char)
    requires
        a != ':',
        b != ':',
        colon_parts(s).len() >= 1,
        colon_parts(s).last().len() == 0,
    ensures
        colon_parts(s.push(a).push(b)) == colon_parts(s).drop_last().push(seq![a, b]),
{
    let one = s.push(a);
    let two = one.push(b);
    assert(one.drop_last() =~= s);
    assert(two.drop_last() =~= one);
    let p = colon_parts(s);
    assert(p.last().push(a) =~= seq![a]);
    assert(colon_parts(one) =~= p.drop_last().push(seq![a]));
    assert(seq![a].push(b) =~= seq![a, b]);
    assert(colon_parts(two) =~= p.drop_last().push(seq![a, b]));
}

/// The text of the first bytes of a hardware address.
spec fn mac_front(mac: Seq<u8>, n: nat) -> Seq<char>
    decreases n,
{
    if n == 0 {
        Seq::empty()
    } else {
        mac_front(mac, (n - 1) as nat) + crate::text::hex_fixed(mac[n - 1] as nat, 2, true) + ":"@
    }
}

proof fn lemma_front_parts(mac: Seq<u8>, n: nat)
    requires
        n <= 6,
        mac.len() == 6,
    ensures
        colon_parts(mac_front(mac, n)) == Seq::new(
            n + 1,
            |i: int|
                if i < n {
                    crate::text::hex_fixed(mac[i] as nat, 2, true)
                } else {
                    Seq::empty()
                },
        ),
    decreases n,
{
    let want = Seq::new(
        n + 1,
        |i: int|
            if i < n {
                crate::text::hex_fixed(mac[i] as nat, 2, true)
            } else {
                Seq::empty()
            },
    );
    if n == 0 {
        assert(colon_parts(mac_front(mac, n)) =~= want);
    } else {
        let before = mac_front(mac, (n - 1) as nat);
        lemma_front_parts(mac, (n - 1) as nat);
        lemma_two_digits(mac[n - 1]);
        let d = crate::text::hex_fixed(mac[n - 1] as nat, 2, true);
        lemma_parts_grow(before, d[0], d[1]);
        reveal_strlit(":");
        let grown = before.push(d[0]).push(d[1]);
        assert(d =~= seq![d[0], d[1]]);
        assert(mac_front(mac, n) =~= grown.push(':'));
        assert(grown.push(':').drop_last() =~= grown);
        assert(colon_parts(mac_front(mac, n)) =~= want);
    }
}

/// What a hardware address is written as reads back as it.
pub proof fn law_mac_reads_back(mac: Seq<u8>)
    requires
        mac.len() == 6,
    ensures
        mac_of(colon_parts(mac_text(mac))) == Some(mac),
{
    let front = mac_front(mac, 5);
    lemma_front_parts(mac, 5);
    lemma_two_digits(mac[5]);
    let d = crate::text::hex_fixed(mac[5] as nat, 2, true);
    lemma_parts_grow(front, d[0], d[1]);
    assert(d =~= seq![d[0], d[1]]);
    reveal_with_fuel(mac_front, 6);
    assert(mac_text(mac) =~= front.push(d[0]).push(d[1]));
    let parts = colon_parts(mac_text(mac));
    assert forall|i: int| 0 <= i < 6 implies #[trigger] parts[i] == crate::text::hex_fixed(
        mac[i] as nat,
        2,
        true,
    ) by {}
    assert forall|i: int| 0 <= i < 6 implies crate::number::number(
        #[trigger] parts[i],
        16,
        0xFF,
    ) == Some(mac[i] as nat) by {
        lemma_two_digits(mac[i]);
    }
    assert(mac_of(parts)->0 =~= mac);
}

/// A word is shown behind its prefix with eight digits, and reads back.
pub proof fn law_shown_word_reads_back(v: u32)
    ensures
        word_text(v).len() == 10,
        crate::number::prefixed_number(word_text(v), 0xFFFF_FFFF) == Some(v as nat),
{
    reveal_strlit("0x");
    let digits = crate::text::hex_fixed(v as nat, 8, true);
    crate::text::law_fixed_width_is_kept(v as nat, 8, true);
    assert(crate::number::fits_digits(v as nat, 8)) by {
        reveal_with_fuel(crate::number::fits_digits, 9);
    }
    crate::number::law_fixed_width_reads_back(v as nat, 8, true);
    assert("0x"@ =~= seq!['0', 'x']);
    crate::number::law_numbers_take_a_sign_and_a_prefix(digits, 16, 0xFFFF_FFFF);
    assert(digits[0] != '+') by {
        lemma_first_digit(v as nat, 8);
    }
}

proof fn lemma_first_digit(n: nat, width: nat)
    requires
        width > 0,
    ensures
        crate::text::hex_fixed(n, width, true).len() == width,
        crate::text::hex_fixed(n, width, true)[0] != '+',
    decreases width,
{
    reveal_with_fuel(crate::text::hex_fixed, 2);
    if width > 1 {
        lemma_first_digit(n / 16, (width - 1) as nat);
    }
}

/// Two digits of a frame make a byte, the first one sixteen times the second; a
/// plus sign stands for no digit, and nothing else makes a byte.
pub proof fn law_frame_digits_make_bytes(a: u8, b: u8)
    ensures
        pair_value(a, b) is Some <==> crate::text::digit_value(b as char) is Some && (
        crate::text::digit_value(a as char) is Some || a == '+' as u8),
        pair_value(a, b) matches Some(v) ==> v == (if a == '+' as u8 {
            0nat
        } else {
            crate::text::digit_value(a as char)->0
        }) * 16 + crate::text::digit_value(b as char)->0,
{
}

/// A frame text makes one byte for each two of its own, in order, or none at
/// all.
pub proof fn law_frame_text_makes_a_byte_per_pair(t: Seq<u8>, i: int, k: int)
    requires
        0 <= i <= t.len(),
        (t.len() - i) % 2 == 0,
        frame_from(t, i) is Some,
    ensures
        (frame_from(t, i)->0).len() == (t.len() - i) / 2,
        0 <= k < (t.len() - i) / 2 ==> Some((frame_from(t, i)->0)[k]) == pair_value(
            t[i + 2 * k],
            t[i + 2 * k + 1],
        ),
    decreases t.len() - i,
{
    if i < t.len() {
        law_frame_text_makes_a_byte_per_pair(t, i + 2, k - 1);
    }
}

/// Text cut at its colons has one part more than it has colons.
pub proof fn law_colons_cut_the_text(s: Seq<char>, c: char)
    ensures
        colon_parts(s).len() >= 1,
        colon_parts(s.push(':')).len() == colon_parts(s).len() + 1,
        colon_parts(s.push(':')).last() == Seq::<char>::empty(),
        c != ':' ==> colon_parts(s.push(c)).len() == colon_parts(s).len() && colon_parts(
            s.push(c),
        ).last() == colon_parts(s).last().push(c),
    decreases s.len(),
{
    assert(s.push(':').drop_last() =~= s);
    assert(s.push(c).drop_last() =~= s);
    if s.len() > 0 {
        law_colons_cut_the_text(s.drop_last(), c);
    }
}

} // verus!
