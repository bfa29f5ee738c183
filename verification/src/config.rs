use vstd::prelude::*;

use crate::text::push_char;

verus! {

/// The uppercase hexadecimal digit for `d` (`0 <= d < 16`).
pub open spec fn hex_digit(d: int) -> char {
    if d < 10 {
        (d + 48) as char
    } else {
        (d + 55) as char
    }
}

/// Bytes written as two uppercase hexadecimal digits each, high digit first.
pub open spec fn hex_upper(bytes: Seq<u8>) -> Seq<char>
    decreases bytes.len(),
{
    if bytes.len() == 0 {
        Seq::empty()
    } else {
        hex_upper(bytes.drop_last()) + seq![
            hex_digit((bytes.last() / 16) as int),
            hex_digit((bytes.last() % 16) as int),
        ]
    }
}

fn hex_digit_char(d: u8) -> (c: char)
    requires
        d < 16,
    ensures
        c == hex_digit(d as int),
{
    if d < 10 {
        (d + 48) as char
    } else {
        (d + 55) as char
    }
}

/// The device's serial number: its station MAC address as twelve uppercase
/// hexadecimal digits.
pub fn make_sn(mac: &[u8; 6]) -> (sn: String)
    ensures
        sn@ == hex_upper(mac@),
{
    let mut sn = String::new();
    let mut i: usize = 0;
    assert(mac@.subrange(0, 0) =~= Seq::<u8>::empty());
    while i < 6
        invariant
            i <= 6,
            mac@.len() == 6,
            sn@ == hex_upper(mac@.subrange(0, i as int)),
        decreases 6 - i,
    {
        let b = mac[i];
        push_char(&mut sn, hex_digit_char(b / 16));
        push_char(&mut sn, hex_digit_char(b % 16));
        assert(mac@.subrange(0, i + 1).drop_last() =~= mac@.subrange(0, i as int));
        assert(mac@.subrange(0, i + 1).last() == b);
        i = i + 1;
    }
    assert(mac@.subrange(0, 6) =~= mac@);
    sn
}

proof fn lemma_hex_digit_injective(a: int, b: int)
    requires
        0 <= a < 16,
        0 <= b < 16,
        hex_digit(a) == hex_digit(b),
    ensures
        a == b,
{
}

proof fn lemma_hex_upper_len(bytes: Seq<u8>)
    ensures
        hex_upper(bytes).len() == 2 * bytes.len(),
    decreases bytes.len(),
{
    if bytes.len() > 0 {
        lemma_hex_upper_len(bytes.drop_last());
    }
}

/// Different MAC addresses give different serial numbers, and every serial
/// number has two digits per byte.
pub proof fn serial_numbers_are_distinct(a: Seq<u8>, b: Seq<u8>)
    ensures
        hex_upper(a).len() == 2 * a.len(),
        hex_upper(a) == hex_upper(b) ==> a == b,
    decreases a.len(),
{
    lemma_hex_upper_len(a);
    lemma_hex_upper_len(b);
    if hex_upper(a) == hex_upper(b) && a.len() > 0 {
        let ha = hex_upper(a);
        let n = ha.len();
        assert(ha == hex_upper(a.drop_last()) + seq![hex_digit((a.last() / 16) as int), hex_digit((a.last() % 16) as int)]);
        assert(hex_upper(b) == hex_upper(b.drop_last()) + seq![hex_digit((b.last() / 16) as int), hex_digit((b.last() % 16) as int)]);
        assert(ha[n - 2] == hex_digit((a.last() / 16) as int));
        assert(ha[n - 1] == hex_digit((a.last() % 16) as int));
        assert(hex_upper(b)[n - 2] == hex_digit((b.last() / 16) as int));
        assert(hex_upper(b)[n - 1] == hex_digit((b.last() % 16) as int));
        lemma_hex_digit_injective((a.last() / 16) as int, (b.last() / 16) as int);
        lemma_hex_digit_injective((a.last() % 16) as int, (b.last() % 16) as int);
        assert(a.last() == b.last());
        assert(hex_upper(a.drop_last()) =~= ha.subrange(0, n - 2));
        assert(hex_upper(b.drop_last()) =~= hex_upper(b).subrange(0, n - 2));
        serial_numbers_are_distinct(a.drop_last(), b.drop_last());
        assert(a =~= a.drop_last().push(a.last()));
        assert(b =~= b.drop_last().push(b.last()));
    }
}

} // verus!

verus! {

/// An uppercase hexadecimal digit: `0`-`9` or `A`-`F`.
pub open spec fn is_upper_hex(c: char) -> bool {
    ('0' <= c && c <= '9') || ('A' <= c && c <= 'F')
}

/// The value of an uppercase hexadecimal digit (`-1` for any other character).
pub open spec fn upper_hex_value(c: char) -> int {
    if '0' <= c && c <= '9' {
        (c as int) - ('0' as int)
    } else if 'A' <= c && c <= 'F' {
        (c as int) - ('A' as int) + 10
    } else {
        -1
    }
}

proof fn lemma_hex_digit_value(d: int)
    requires
        0 <= d < 16,
    ensures
        is_upper_hex(hex_digit(d)),
        upper_hex_value(hex_digit(d)) == d,
{
}

/// The serial number is written only with the digits `0`-`9` and `A`-`F`,
/// two per byte, and read back as hexadecimal, high digit first, it gives
/// the bytes it was made from.
pub proof fn serial_number_is_uppercase_hex(bytes: Seq<u8>)
    ensures
        hex_upper(bytes).len() == 2 * bytes.len(),
        forall|i: int| 0 <= i < hex_upper(bytes).len() ==> is_upper_hex(#[trigger] hex_upper(bytes)[i]),
        forall|i: int|
            0 <= i < bytes.len() ==> upper_hex_value(#[trigger] hex_upper(bytes)[2 * i]) * 16
                + upper_hex_value(hex_upper(bytes)[2 * i + 1]) == bytes[i],
    decreases bytes.len(),
{
    lemma_hex_upper_len(bytes);
    if bytes.len() > 0 {
        let t = bytes.drop_last();
        serial_number_is_uppercase_hex(t);
        lemma_hex_upper_len(t);
        let b = bytes.last();
        let hi = (b / 16) as int;
        let lo = (b % 16) as int;
        lemma_hex_digit_value(hi);
        lemma_hex_digit_value(lo);
        let s = hex_upper(bytes);
        let p = hex_upper(t);
        assert(s == p + seq![hex_digit(hi), hex_digit(lo)]);
        assert forall|i: int| 0 <= i < s.len() implies is_upper_hex(#[trigger] s[i]) by {
            if i < p.len() {
                assert(s[i] == p[i]);
            }
        }
        assert forall|i: int|
            0 <= i < bytes.len() implies upper_hex_value(#[trigger] s[2 * i]) * 16 + upper_hex_value(
                s[2 * i + 1],
            ) == bytes[i] by {
            if i < t.len() {
                assert(s[2 * i] == p[2 * i]);
                assert(s[2 * i + 1] == p[2 * i + 1]);
                assert(bytes[i] == t[i]);
            } else {
                assert(s[2 * i] == hex_digit(hi));
                assert(s[2 * i + 1] == hex_digit(lo));
                assert(hi * 16 + lo == b);
            }
        }
    }
}

} // verus!
