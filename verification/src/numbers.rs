//! Numbers and truth values as text: how they are read from an argument and
//! how they are written into a bound value.

use crate::text::chars_of;
use crate::text::spells;
use vstd::prelude::*;

verus! {

/// Whether `c` is one of the ten digits.
pub open spec fn is_digit(c: char) -> bool {
    '0' <= c <= '9'
}

/// The number that the digit `c` stands for.
pub open spec fn digit_value(c: char) -> int {
    c as int - '0' as int
}

/// The digit that stands for `d`.
pub open spec fn digit_char(d: int) -> char
    recommends
        0 <= d <= 9,
{
    ('0' as int + d) as char
}

/// Whether `s` holds digits only.
pub open spec fn all_digits(s: Seq<char>) -> bool {
    forall|i: int| 0 <= i < s.len() ==> is_digit(#[trigger] s[i])
}

/// The number that the digits `s` spell in base ten.
pub open spec fn digits_value(s: Seq<char>) -> int
    decreases s.len(),
{
    if s.len() == 0 {
        0
    } else {
        10 * digits_value(s.drop_last()) + digit_value(s.last())
    }
}

/// The 32-bit integer that `s` spells: an optional sign, `+` or `-`, and then
/// at least one digit and nothing but digits. `None` if `s` is not of that
/// form, or if the number is out of range.
pub open spec fn decimal_i32(s: Seq<char>) -> Option<int> {
    let signed = s.len() > 0 && (s[0] == '-' || s[0] == '+');
    let digits = if signed {
        s.subrange(1, s.len() as int)
    } else {
        s
    };
    if digits.len() == 0 || !all_digits(digits) {
        None
    } else {
        let magnitude = digits_value(digits);
        let value = if signed && s[0] == '-' {
            -magnitude
        } else {
            magnitude
        };
        if i32::MIN <= value <= i32::MAX {
            Some(value)
        } else {
            None
        }
    }
}

/// The truth value that `s` spells: `true` or `false`, and nothing else.
pub open spec fn boolean(s: Seq<char>) -> Option<bool> {
    if s == "true"@ {
        Some(true)
    } else if s == "false"@ {
        Some(false)
    } else {
        None
    }
}

/// The digits of `n` in base ten, without leading zeros.
pub open spec fn natural_digits(n: nat) -> Seq<char>
    decreases n,
{
    if n < 10 {
        seq![digit_char(n as int)]
    } else {
        natural_digits(n / 10).push(digit_char((n % 10) as int))
    }
}

/// `v` in base ten, with a `-` in front if it is negative.
pub open spec fn decimal(v: int) -> Seq<char> {
    if v < 0 {
        seq!['-'] + natural_digits((-v) as nat)
    } else {
        natural_digits(v as nat)
    }
}

/// `b` as text.
pub open spec fn boolean_text(b: bool) -> Seq<char> {
    if b {
        "true"@
    } else {
        "false"@
    }
}

/// Reads a 32-bit integer in base ten.
pub fn parse_i32(text: &str) -> (r: Option<i32>)
    ensures
        match decimal_i32(text@) {
            Some(v) => r == Some(v as i32),
            None => r is None,
        },
{
    let chars = chars_of(text);
    let n = chars.len();
    let signed = n > 0 && (chars[0] == '-' || chars[0] == '+');
    let negative = n > 0 && chars[0] == '-';
    let start: usize = if signed {
        1
    } else {
        0
    };
    if start == n {
        return None;
    }
    let ghost digits = if signed {
        text@.subrange(1, n as int)
    } else {
        text@
    };
    assert(digits =~= chars@.subrange(start as int, n as int));
    let mut magnitude: i64 = 0;
    let mut too_big = false;
    let mut i: usize = start;
    while i < n
        invariant
            start <= i <= n,
            n == chars.len(),
            chars@ == text@,
            signed == (n > 0 && (chars@[0] == '-' || chars@[0] == '+')),
            start == if signed { 1usize } else { 0usize },
            digits == chars@.subrange(start as int, n as int),
            digits == if signed { text@.subrange(1, n as int) } else { text@ },
            all_digits(digits.take(i - start)),
            0 <= magnitude <= 0x8000_0000,
            !too_big ==> magnitude == digits_value(digits.take(i - start)),
            too_big ==> digits_value(digits.take(i - start)) > 0x8000_0000,
        decreases n - i,
    {
        let c = chars[i];
        if !(c >= '0' && c <= '9') {
            assert(!is_digit(digits[i - start]));
            return None;
        }
        proof {
            let longer = digits.take(i - start + 1);
            assert(longer.drop_last() == digits.take(i - start));
            assert(longer.last() == c);
        }
        if !too_big {
            let d: i64 = (c as u32 - '0' as u32) as i64;
            magnitude = magnitude * 10 + d;
            if magnitude > 0x8000_0000 {
                too_big = true;
                magnitude = 0;
            }
        }
        i += 1;
    }
    assert(digits.take(n - start) == digits);
    if too_big {
        None
    } else if negative {
        Some((-magnitude) as i32)
    } else if magnitude <= 0x7fff_ffff {
        Some(magnitude as i32)
    } else {
        None
    }
}

/// Reads a truth value.
pub fn parse_bool(text: &str) -> (r: Option<bool>)
    ensures
        r == boolean(text@),
{
    let chars = chars_of(text);
    if spells(&chars, "true") {
        Some(true)
    } else if spells(&chars, "false") {
        Some(false)
    } else {
        None
    }
}

/// The digit that stands for `d`.
pub fn digit_of(d: u64) -> (c: char)
    requires
        d <= 9,
    ensures
        c == digit_char(d as int),
{
    if d == 0 {
        '0'
    } else if d == 1 {
        '1'
    } else if d == 2 {
        '2'
    } else if d == 3 {
        '3'
    } else if d == 4 {
        '4'
    } else if d == 5 {
        '5'
    } else if d == 6 {
        '6'
    } else if d == 7 {
        '7'
    } else if d == 8 {
        '8'
    } else {
        '9'
    }
}

/// Appends the digits of `n` to `out`.
pub fn push_natural(out: &mut String, n: u64)
    ensures
        final(out)@ == old(out)@ + natural_digits(n as nat),
    decreases n,
{
    if n >= 10 {
        push_natural(out, n / 10);
    }
    out.push(digit_of(n % 10));
}

/// `v` in base ten.
pub fn decimal_text(v: i64) -> (text: String)
    ensures
        text@ == decimal(v as int),
{
    let mut text = String::new();
    if v < 0 {
        text.push('-');
        let magnitude: u64 = ((-(v + 1)) as u64) + 1;
        push_natural(&mut text, magnitude);
    } else {
        push_natural(&mut text, v as u64);
    }
    text
}

/// `b` as text.
pub fn bool_text(b: bool) -> (text: String)
    ensures
        text@ == boolean_text(b),
{
    if b {
        "true".to_owned()
    } else {
        "false".to_owned()
    }
}

/// The last `width` digits of `k` in base ten, with zeros in front where `k`
/// has fewer.
pub open spec fn padded(k: nat, width: nat) -> Seq<char>
    decreases width,
{
    if width == 0 {
        Seq::empty()
    } else {
        padded(k / 10, (width - 1) as nat).push(digit_char((k % 10) as int))
    }
}

/// Ten to the power of `width`.
pub open spec fn power_of_ten(width: nat) -> nat
    decreases width,
{
    if width == 0 {
        1
    } else {
        10 * power_of_ten((width - 1) as nat)
    }
}

/// `padded` gives `width` digits, which spell `k` if `k` has no more digits
/// than that.
pub proof fn lemma_padded(k: nat, width: nat)
    ensures
        padded(k, width).len() == width,
        forall|i: int| 0 <= i < width ==> is_digit(#[trigger] padded(k, width)[i]),
        k < power_of_ten(width) ==> digits_value(padded(k, width)) == k,
    decreases width,
{
    if width > 0 {
        lemma_padded(k / 10, (width - 1) as nat);
        let s = padded(k, width);
        assert(s.drop_last() =~= padded(k / 10, (width - 1) as nat));
        assert(s.last() == digit_char((k % 10) as int));
    }
}

/// Appends the last `width` digits of `k` to `out`.
pub fn push_padded(out: &mut String, k: u64, width: usize)
    ensures
        final(out)@ == old(out)@ + padded(k as nat, width as nat),
    decreases width,
{
    if width > 0 {
        push_padded(out, k / 10, width - 1);
        out.push(digit_of(k % 10));
        assert(out@ =~= old(out)@ + padded(k as nat, width as nat));
    } else {
        assert(out@ =~= old(out)@ + padded(k as nat, width as nat));
    }
}

} // verus!
