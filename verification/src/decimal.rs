//! Decimal integers in byte strings.

use crate::text::ascii_bytes;
use vstd::prelude::*;
use vstd::string::*;

verus! {

/// `b` is one of the ASCII digits `0` to `9`.
pub open spec fn is_digit(b: u8) -> bool {
    0x30 <= b <= 0x39
}

/// Every byte of `s` is an ASCII digit.
pub open spec fn all_digits(s: Seq<u8>) -> bool {
    forall|i: int| 0 <= i < s.len() ==> is_digit(#[trigger] s[i])
}

/// The number that the digits of `s` write in base ten, most significant digit first.
pub open spec fn decimal_value(s: Seq<u8>) -> nat
    decreases s.len(),
{
    if s.len() == 0 {
        0
    } else {
        decimal_value(s.drop_last()) * 10 + (s.last() - 0x30) as nat
    }
}

/// The value of a non-empty run of digits that does not exceed `limit`.
pub open spec fn spec_magnitude(digits: Seq<u8>, limit: nat) -> Option<nat> {
    if digits.len() > 0 && all_digits(digits) && decimal_value(digits) <= limit {
        Some(decimal_value(digits))
    } else {
        None
    }
}

/// What a byte string denotes as a signed 32-bit decimal integer: an optional
/// `+` or `-`, then at least one ASCII digit and nothing else, with a value
/// that fits in an `i32`.
pub open spec fn spec_parse_i32(s: Seq<u8>) -> Option<i32> {
    if s.len() > 0 && s[0] == 0x2d {
        match spec_magnitude(s.skip(1), 0x8000_0000) {
            Some(m) => Some((-(m as int)) as i32),
            None => None,
        }
    } else if s.len() > 0 && s[0] == 0x2b {
        match spec_magnitude(s.skip(1), 0x7fff_ffff) {
            Some(m) => Some(m as i32),
            None => None,
        }
    } else {
        match spec_magnitude(s, 0x7fff_ffff) {
            Some(m) => Some(m as i32),
            None => None,
        }
    }
}

/// A prefix of a run of digits never writes a larger number than the whole run.
pub proof fn lemma_decimal_value_prefix(s: Seq<u8>, k: int)
    requires
        all_digits(s),
        0 <= k <= s.len(),
    ensures
        decimal_value(s.take(k)) <= decimal_value(s),
    decreases s.len() - k,
{
    if k == s.len() {
        assert(s.take(k) =~= s);
    } else {
        lemma_decimal_value_prefix(s, k + 1);
        let longer = s.take(k + 1);
        assert(longer.drop_last() =~= s.take(k));
        assert(is_digit(s[k]));
        assert(longer.last() == s[k]);
    }
}

/// Ten to the power `n`.
pub open spec fn pow10(n: nat) -> nat
    decreases n,
{
    if n == 0 {
        1
    } else {
        10 * pow10((n - 1) as nat)
    }
}

/// A run of `n` digits writes a number below ten to the power `n`.
pub proof fn lemma_digits_bound(s: Seq<u8>)
    requires
        all_digits(s),
    ensures
        decimal_value(s) < pow10(s.len()),
    decreases s.len(),
{
    if s.len() > 0 {
        assert(is_digit(s.last()));
        assert forall|i: int| 0 <= i < s.drop_last().len() implies is_digit(
            #[trigger] s.drop_last()[i],
        ) by {
            assert(s.drop_last()[i] == s[i]);
        }
        lemma_digits_bound(s.drop_last());
    }
}

/// A run of one to nine digits, with or without a sign, always fits in an `i32`.
pub proof fn lemma_nine_digits_parse(s: Seq<u8>)
    requires
        all_digits(s),
        1 <= s.len() <= 9,
    ensures
        spec_parse_i32(s) == Some(decimal_value(s) as i32),
        0 <= decimal_value(s) <= 999_999_999,
{
    lemma_digits_bound(s);
    reveal_with_fuel(pow10, 10);
    assert(pow10(s.len()) <= 1_000_000_000) by {
        assert(pow10(1) == 10);
        assert(pow10(2) == 100);
        assert(pow10(3) == 1_000);
        assert(pow10(4) == 10_000);
        assert(pow10(5) == 100_000);
        assert(pow10(6) == 1_000_000);
        assert(pow10(7) == 10_000_000);
        assert(pow10(8) == 100_000_000);
        assert(pow10(9) == 1_000_000_000);
    }
    assert(is_digit(s[0]));
}

/// Reads the digits of `s` from `start` on as a number no larger than `limit`.
fn parse_magnitude(s: &[u8], start: usize, limit: u64) -> (r: Option<u64>)
    requires
        start <= s.len(),
        limit <= 0x8000_0000,
    ensures
        match r {
            Some(m) => spec_magnitude(s@.skip(start as int), limit as nat) == Some(m as nat),
            None => spec_magnitude(s@.skip(start as int), limit as nat) is None,
        },
{
    let ghost digits = s@.skip(start as int);
    if start == s.len() {
        return None;
    }
    let mut acc: u64 = 0;
    let mut i: usize = start;
    while i < s.len()
        invariant
            start <= i <= s.len(),
            digits == s@.skip(start as int),
            limit <= 0x8000_0000,
            acc <= limit,
            all_digits(digits.take(i - start)),
            acc == decimal_value(digits.take(i - start)),
        decreases s.len() - i,
    {
        let b: u8 = s[i];
        let ghost k = i - start;
        assert(digits[k] == b);
        if b < 0x30 || b > 0x39 {
            assert(!is_digit(digits[k]));
            return None;
        }
        let next: u64 = acc * 10 + (b - 0x30) as u64;
        proof {
            let longer = digits.take(k + 1);
            assert(longer.drop_last() =~= digits.take(k));
            assert(longer.last() == b);
            assert(decimal_value(longer) == next);
            assert(all_digits(longer)) by {
                assert forall|j: int| 0 <= j < longer.len() implies is_digit(
                    #[trigger] longer[j],
                ) by {
                    if j < k {
                        assert(digits.take(k)[j] == longer[j]);
                    }
                }
            }
            if next > limit && all_digits(digits) {
                lemma_decimal_value_prefix(digits, k + 1);
            }
        }
        if next > limit {
            return None;
        }
        acc = next;
        i = i + 1;
    }
    assert(digits.take(i - start) =~= digits);
    Some(acc)
}

/// Parses a byte string as a signed 32-bit decimal integer.
pub fn parse_i32(s: &[u8]) -> (r: Option<i32>)
    ensures
        r == spec_parse_i32(s@),
{
    if s.len() > 0 && s[0] == 0x2d {
        match parse_magnitude(s, 1, 0x8000_0000) {
            Some(m) => {
                let v: i64 = -(m as i64);
                Some(v as i32)
            },
            None => None,
        }
    } else if s.len() > 0 && s[0] == 0x2b {
        match parse_magnitude(s, 1, 0x7fff_ffff) {
            Some(m) => Some(m as i32),
            None => None,
        }
    } else {
        assert(s@.skip(0) =~= s@);
        match parse_magnitude(s, 0, 0x7fff_ffff) {
            Some(m) => Some(m as i32),
            None => None,
        }
    }
}

/// The character that writes the digit `d`.
pub open spec fn digit_char(d: nat) -> char {
    if d == 0 {
        '0'
    } else if d == 1 {
        '1'
    } else if d == 2 {
        '2'
    } else if d == 3 {
        '3'
    } else if d == 4 {
        '4'
    } else if d == 5 {
        '5'
    } else if d == 6 {
        '6'
    } else if d == 7 {
        '7'
    } else if d == 8 {
        '8'
    } else {
        '9'
    }
}

/// The digits that write `n` in base ten, without leading zeros.
pub open spec fn decimal_digits(n: nat) -> Seq<char>
    decreases n,
{
    if n < 10 {
        seq![digit_char(n)]
    } else {
        decimal_digits(n / 10).push(digit_char(n % 10))
    }
}

/// The text that writes `x` in base ten: its digits, after a `-` if it is
/// negative.
pub open spec fn decimal_text(x: int) -> Seq<char> {
    if x < 0 {
        seq!['-'] + decimal_digits((-x) as nat)
    } else {
        decimal_digits(x as nat)
    }
}

/// The text of one digit.
fn digit_str(d: u64) -> (r: &'static str)
    requires
        d < 10,
    ensures
        r@ == seq![digit_char(d as nat)],
{
    proof {
        reveal_strlit("0");
        reveal_strlit("1");
        reveal_strlit("2");
        reveal_strlit("3");
        reveal_strlit("4");
        reveal_strlit("5");
        reveal_strlit("6");
        reveal_strlit("7");
        reveal_strlit("8");
        reveal_strlit("9");
    }
    let r = if d == 0 {
        "0"
    } else if d == 1 {
        "1"
    } else if d == 2 {
        "2"
    } else if d == 3 {
        "3"
    } else if d == 4 {
        "4"
    } else if d == 5 {
        "5"
    } else if d == 6 {
        "6"
    } else if d == 7 {
        "7"
    } else if d == 8 {
        "8"
    } else {
        "9"
    };
    assert(r@ =~= seq![digit_char(d as nat)]);
    r
}

/// Appends the digits of `n` to `out`.
fn push_digits(n: u64, out: &mut String)
    ensures
        final(out)@ == old(out)@ + decimal_digits(n as nat),
    decreases n,
{
    if n >= 10 {
        push_digits(n / 10, out);
    }
    out.append(digit_str(n % 10));
    assert(final(out)@ =~= old(out)@ + decimal_digits(n as nat));
}

/// Writes `x` in base ten.
pub fn i64_to_string(x: i64) -> (r: String)
    ensures
        r@ == decimal_text(x as int),
{
    let mut out = String::new();
    if x < 0 {
        proof {
            reveal_strlit("-");
        }
        out.append("-");
        let magnitude: u64 = if x == i64::MIN {
            0x8000_0000_0000_0000
        } else {
            (-x) as u64
        };
        push_digits(magnitude, &mut out);
        assert(out@ =~= decimal_text(x as int));
    } else {
        push_digits(x as u64, &mut out);
        assert(out@ =~= decimal_text(x as int));
    }
    out
}

/// The digits that write a number are digits, and they write that number.
pub proof fn lemma_decimal_digits_value(n: nat)
    ensures
        decimal_digits(n).len() >= 1,
        all_digits(ascii_bytes(decimal_digits(n))),
        decimal_value(ascii_bytes(decimal_digits(n))) == n,
    decreases n,
{
    let bytes = ascii_bytes(decimal_digits(n));
    if n < 10 {
        assert(bytes =~= seq![digit_char(n) as u8]);
        assert(bytes.drop_last() =~= Seq::<u8>::empty());
        assert(decimal_value(bytes.drop_last()) == 0);
    } else {
        lemma_decimal_digits_value(n / 10);
        let init = ascii_bytes(decimal_digits(n / 10));
        assert(bytes =~= init.push(digit_char(n % 10) as u8));
        assert(bytes.drop_last() =~= init);
        assert forall|i: int| 0 <= i < bytes.len() implies is_digit(#[trigger] bytes[i]) by {
            if i < init.len() {
                assert(bytes[i] == init[i]);
            }
        }
    }
}

/// Writing a number and reading the text back gives the number.
pub proof fn lemma_write_then_parse(x: i32)
    ensures
        spec_parse_i32(ascii_bytes(decimal_text(x as int))) == Some(x),
{
    let bytes = ascii_bytes(decimal_text(x as int));
    if x < 0 {
        let magnitude = (-(x as int)) as nat;
        lemma_decimal_digits_value(magnitude);
        assert(bytes[0] == 0x2d);
        assert(bytes.skip(1) =~= ascii_bytes(decimal_digits(magnitude)));
    } else {
        lemma_decimal_digits_value(x as nat);
        assert(is_digit(bytes[0]));
    }
}

} // verus!
