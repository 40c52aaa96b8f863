//! Comparing and reading text, byte by byte.

use vstd::prelude::*;

verus! {

/// The bytes of a text.
pub open spec fn text_bytes(text: Seq<char>) -> Seq<u8> {
    vstd::utf8::encode_utf8(text)
}

/// Whether two byte strings are the same.
pub fn bytes_eq(a: &[u8], b: &[u8]) -> (same: bool)
    ensures
        same == (a@ == b@),
{
    if a.len() != b.len() {
        return false;
    }
    let mut i: usize = 0;
    while i < a.len()
        invariant
            a.len() == b.len(),
            i <= a.len(),
            forall|j: int| 0 <= j < i ==> a@[j] == b@[j],
        decreases a.len() - i,
    {
        if a[i] != b[i] {
            return false;
        }
        i += 1;
    }
    assert(a@ =~= b@);
    true
}

/// Whether two strings are the same, character by character.
pub fn str_eq(a: &str, b: &str) -> (same: bool)
    ensures
        same == (a@ == b@),
{
    proof {
        vstd::utf8::encode_utf8_decode_utf8(a@);
        vstd::utf8::encode_utf8_decode_utf8(b@);
    }
    bytes_eq(a.as_bytes(), b.as_bytes())
}

/// The base that numbers are read in: 16 where `hex`, else 10.
pub open spec fn radix_of(hex: bool) -> int {
    if hex {
        16
    } else {
        10
    }
}

/// The value of the digit `b`: `0` to `9` in either base, and `a` to `f` in
/// either case where `hex`.
pub open spec fn digit_of(b: u8, hex: bool) -> Option<int> {
    if 0x30 <= b <= 0x39 {
        Some(b - 0x30)
    } else if hex && 0x61 <= b <= 0x66 {
        Some(b - 0x61 + 10)
    } else if hex && 0x41 <= b <= 0x46 {
        Some(b - 0x41 + 10)
    } else {
        None
    }
}

/// The number that the digits `s` write, most significant digit first;
/// `None` where a byte of `s` is no digit. No digits write zero.
pub open spec fn digits_value(s: Seq<u8>, hex: bool) -> Option<int>
    decreases s.len(),
{
    if s.len() == 0 {
        Some(0)
    } else {
        match (digits_value(s.drop_last(), hex), digit_of(s.last(), hex)) {
            (Some(value), Some(digit)) => Some(value * radix_of(hex) + digit),
            _ => None,
        }
    }
}

/// The number that `s` writes, if `s` is one digit or more, all of them
/// digits, and the number is at most `max`.
pub open spec fn number_of(s: Seq<u8>, hex: bool, max: u64) -> Option<u64> {
    if s.len() == 0 {
        None
    } else {
        match digits_value(s, hex) {
            Some(value) => if value <= max {
                Some(value as u64)
            } else {
                None
            },
            None => None,
        }
    }
}

/// `s` without one leading `+`, unless `s` is no more than that sign.
pub open spec fn unsigned_part(s: Seq<u8>) -> Seq<u8> {
    if s.len() > 1 && s[0] == 0x2B {
        s.skip(1)
    } else {
        s
    }
}

/// `s` without every leading `0x`.
pub open spec fn without_0x(s: Seq<u8>) -> Seq<u8>
    decreases s.len(),
{
    if s.len() >= 2 && s[0] == 0x30 && s[1] == 0x78 {
        without_0x(s.skip(2))
    } else {
        s
    }
}

/// What the digits of a prefix write is at most what all the digits write,
/// and where a prefix holds a byte that is no digit, so does the whole.
pub proof fn lemma_digits_value_prefix(s: Seq<u8>, k: int, hex: bool)
    requires
        0 <= k <= s.len(),
    ensures
        digits_value(s, hex) is Some ==> digits_value(s.take(k), hex) is Some && 0
            <= digits_value(s.take(k), hex)->0 <= digits_value(s, hex)->0,
    decreases s.len() - k,
{
    if k == s.len() {
        assert(s.take(k) =~= s);
        lemma_digits_value_nonneg(s, hex);
    } else {
        lemma_digits_value_prefix(s, k + 1, hex);
        assert(s.take(k + 1).drop_last() =~= s.take(k));
        if digits_value(s, hex) is Some {
            lemma_digits_value_nonneg(s.take(k), hex);
            let before = digits_value(s.take(k), hex)->0;
            assert(before * radix_of(hex) >= before) by (nonlinear_arith)
                requires
                    before >= 0,
                    radix_of(hex) >= 1,
            ;
        }
    }
}

/// Digits write no negative number.
pub proof fn lemma_digits_value_nonneg(s: Seq<u8>, hex: bool)
    ensures
        digits_value(s, hex) is Some ==> digits_value(s, hex)->0 >= 0,
    decreases s.len(),
{
    if s.len() > 0 {
        lemma_digits_value_nonneg(s.drop_last(), hex);
        if digits_value(s, hex) is Some {
            let before = digits_value(s.drop_last(), hex)->0;
            assert(before * radix_of(hex) >= 0) by (nonlinear_arith)
                requires
                    before >= 0,
                    radix_of(hex) >= 1,
            ;
        }
    }
}

/// The value of the digit `b`, if it is one.
pub fn digit(b: u8, hex: bool) -> (d: Option<u8>)
    ensures
        match digit_of(b, hex) {
            Some(value) => d == Some(value as u8),
            None => d is None,
        },
{
    if 0x30 <= b && b <= 0x39 {
        Some(b - 0x30)
    } else if hex && 0x61 <= b && b <= 0x66 {
        Some(b - 0x61 + 10)
    } else if hex && 0x41 <= b && b <= 0x46 {
        Some(b - 0x41 + 10)
    } else {
        None
    }
}

/// Reads the bytes of `s` from `from` up to `to` as one number.
pub fn parse_number(s: &[u8], from: usize, to: usize, hex: bool, max: u64) -> (number: Option<u64>)
    requires
        from <= to <= s.len(),
    ensures
        number == number_of(s@.subrange(from as int, to as int), hex, max),
        number is Some ==> number->0 <= max,
{
    let ghost digits = s@.subrange(from as int, to as int);
    if from == to {
        return None;
    }
    let mut value: u64 = 0;
    let mut i: usize = from;
    while i < to
        invariant
            from <= i <= to <= s.len(),
            digits == s@.subrange(from as int, to as int),
            digits_value(digits.take(i - from), hex) == Some(value as int),
            value <= max,
        decreases to - i,
    {
        proof {
            assert(digits.take(i - from + 1).drop_last() =~= digits.take(i - from));
            assert(digits.take(i - from + 1).last() == s@[i as int]);
            lemma_digits_value_prefix(digits, i - from + 1, hex);
        }
        let d: u8 = match digit(s[i], hex) {
            Some(d) => d,
            None => {
                return None;
            },
        };
        let next: u128 = if hex {
            value as u128 * 16 + d as u128
        } else {
            value as u128 * 10 + d as u128
        };
        if next > max as u128 {
            return None;
        }
        value = next as u64;
        i += 1;
    }
    assert(digits.take(to - from) =~= digits);
    Some(value)
}

/// The position behind the leading `+` of the bytes from `from` up to `to`,
/// if they are more than that sign; else `from`.
pub fn skip_sign(s: &[u8], from: usize, to: usize) -> (start: usize)
    requires
        from <= to <= s.len(),
    ensures
        from <= start <= to,
        s@.subrange(start as int, to as int) == unsigned_part(s@.subrange(from as int, to as int)),
{
    if to - from > 1 && s[from] == 0x2B {
        assert(s@.subrange(from + 1, to as int) =~= s@.subrange(from as int, to as int).skip(1));
        from + 1
    } else {
        from
    }
}

/// The position behind every leading `0x` of the bytes from `from` on.
pub fn skip_0x(s: &[u8], from: usize) -> (start: usize)
    requires
        from <= s.len(),
    ensures
        from <= start <= s.len(),
        s@.subrange(start as int, s.len() as int) == without_0x(
            s@.subrange(from as int, s.len() as int),
        ),
{
    let mut start: usize = from;
    while s.len() - start >= 2 && s[start] == 0x30 && s[start + 1] == 0x78
        invariant
            from <= start <= s.len(),
            without_0x(s@.subrange(start as int, s.len() as int)) == without_0x(
                s@.subrange(from as int, s.len() as int),
            ),
        decreases s.len() - start,
    {
        assert(s@.subrange(start + 2, s.len() as int) =~= s@.subrange(
            start as int,
            s.len() as int,
        ).skip(2));
        start += 2;
    }
    start
}

/// The number that the text `s` writes in base 10, with or without a
/// leading `+`, if it is at most `max`.
pub open spec fn decimal_of(s: Seq<u8>, max: u64) -> Option<u64> {
    number_of(unsigned_part(s), false, max)
}

/// The number that the text `s` writes in base 16 behind any leading `0x`,
/// with or without a leading `+`, if it is at most `max`.
pub open spec fn prefixed_hex_of(s: Seq<u8>, max: u64) -> Option<u64> {
    number_of(unsigned_part(without_0x(s)), true, max)
}

/// Reads a text as a number in base 10.
pub fn parse_decimal(text: &str, max: u64) -> (number: Option<u64>)
    ensures
        number == decimal_of(text_bytes(text@), max),
        number is Some ==> number->0 <= max,
{
    let s = text.as_bytes();
    assert(s@.subrange(0, s.len() as int) =~= s@);
    let start = skip_sign(s, 0, s.len());
    parse_number(s, start, s.len(), false, max)
}

/// Reads a text as a number in base 16 behind any leading `0x`.
pub fn parse_prefixed_hex(text: &str, max: u64) -> (number: Option<u64>)
    ensures
        number == prefixed_hex_of(text_bytes(text@), max),
        number is Some ==> number->0 <= max,
{
    let s = text.as_bytes();
    assert(s@.subrange(0, s.len() as int) =~= s@);
    let start = skip_0x(s, 0);
    let start = skip_sign(s, start, s.len());
    parse_number(s, start, s.len(), true, max)
}

} // verus!
