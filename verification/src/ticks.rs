//! Conversion between milliseconds and 100-nanosecond ticks.

use crate::text::chars_of;
use vstd::arithmetic::div_mod::lemma_mod_multiples_vanish;
use vstd::prelude::*;

verus! {

/// Ticks in one millisecond.
pub const TICKS_PER_MS: i64 = 10000;

/// Nanoseconds in one tick.
pub const NS_PER_TICK: i64 = 100;

/// Milliseconds in one second.
pub const SEC_PER_MS: i64 = 1000;

/// Ticks in one second.
pub const TICKS_PER_SEC: i64 = 10000000;

/// The quotient of `a` by `b` rounded toward zero, for a positive `b`.
pub open spec fn div_toward_zero(a: int, b: int) -> int
    recommends
        b > 0,
{
    if a >= 0 {
        a / b
    } else {
        -((-a) / b)
    }
}

/// The value in `i32` that has the same low 32 bits as `v`.
pub open spec fn wrap_i32(v: int) -> int {
    (v + 0x8000_0000) % 0x1_0000_0000 - 0x8000_0000
}

/// Whole milliseconds in `ticks`, rounded toward zero and reduced to 32 bits.
pub fn ticks_to_ms(ticks: i64) -> (ms: i32)
    ensures
        ms == wrap_i32(div_toward_zero(ticks as int, TICKS_PER_MS as int)),
        i32::MIN <= div_toward_zero(ticks as int, TICKS_PER_MS as int) <= i32::MAX ==> ms
            == div_toward_zero(ticks as int, TICKS_PER_MS as int),
{
    let q: i64 = ticks / TICKS_PER_MS;
    let ms: i32 = #[verifier::truncate] (q as i32);
    proof {
        lemma_low_bits(q, ms);
    }
    ms
}

/// The low 32 bits of a number of moderate size, read as `i32`, are the number
/// reduced to 32 bits.
proof fn lemma_low_bits(q: i64, ms: i32)
    requires
        ms == q as i32,
        -0x4000_0000_0000_0000i64 <= q < 0x3000_0000_0000_0000i64,
    ensures
        ms as int == wrap_i32(q as int),
{
    let shifted: u64 = (q + 0x4000_0000_8000_0000i64) as u64;
    let low: u64 = shifted % 0x1_0000_0000u64;
    assert(ms as i64 == low as i64 - 0x8000_0000i64) by (bit_vector)
        requires
            ms == q as i32,
            -0x4000_0000_0000_0000i64 <= q < 0x3000_0000_0000_0000i64,
            shifted == (q + 0x4000_0000_8000_0000i64) as u64,
            low == shifted % 0x1_0000_0000u64,
    ;
    assert(shifted as int == 0x1_0000_0000 * 0x4000_0000 + (q + 0x8000_0000));
    lemma_mod_multiples_vanish(0x4000_0000, q + 0x8000_0000, 0x1_0000_0000);
}

/// The ticks in `ms` milliseconds.
pub fn ms_to_ticks(ms: i32) -> (ticks: i64)
    ensures
        ticks == ms * TICKS_PER_MS,
{
    (ms as i64) * TICKS_PER_MS
}

/// A span of time as whole seconds and the nanoseconds beyond them.
#[derive(Debug, Clone, Copy, PartialEq, Eq, Structural)]
pub struct Span {
    /// The whole seconds.
    pub secs: u64,
    /// The nanoseconds beyond the whole seconds.
    pub nanos: u32,
}

/// What can be counted in ticks.
pub trait TickRepr {
    /// The number of whole ticks.
    spec fn ticks(&self) -> int;

    /// The number of whole ticks, where it fits.
    fn to_ticks(&self) -> (t: i64)
        requires
            self.ticks() <= i64::MAX,
        ensures
            t == self.ticks(),
    ;
}

impl TickRepr for Span {
    open spec fn ticks(&self) -> int {
        self.secs * TICKS_PER_SEC + self.nanos / 100
    }

    fn to_ticks(&self) -> (t: i64) {
        assert(self.secs * TICKS_PER_SEC == self.secs * 10000000);
        let ticks: u64 = self.secs * 10000000 + (self.nanos / 100) as u64;
        ticks as i64
    }
}

impl Span {
    /// The number of whole ticks, or `None` where it is beyond 64 bits.
    pub fn checked_ticks(&self) -> (t: Option<i64>)
        ensures
            self.ticks() <= i64::MAX ==> t == Some(self.ticks() as i64),
            self.ticks() > i64::MAX ==> t is None,
    {
        assert(self.secs * TICKS_PER_SEC == self.secs * 10000000);
        let total: u128 = (self.secs as u128) * 10000000 + ((self.nanos / 100) as u128);
        if total <= 0x7fff_ffff_ffff_ffff {
            Some(self.to_ticks())
        } else {
            None
        }
    }
}

/// The most digits that one number of a span of time may have.
pub const SPAN_NUMBER_DIGITS: usize = 9;

/// The most characters that the text of a span of time may have.
pub const SPAN_TEXT_CHARS: usize = 256;

/// Whether a number of a span of time ends at `c`: at a letter of a unit or
/// at the point before a fraction.
pub open spec fn ends_number(c: char) -> bool {
    ('a' <= c <= 'z') || ('A' <= c <= 'Z') || c == 'µ' || c == '.'
}

/// The digits at the end of `text` that belong to one number: those behind
/// the last character that ends a number.
pub open spec fn pending_digits(text: Seq<char>) -> nat
    decreases text.len(),
{
    if text.len() == 0 {
        0
    } else if ends_number(text.last()) {
        0
    } else if '0' <= text.last() <= '9' {
        pending_digits(text.drop_last()) + 1
    } else {
        pending_digits(text.drop_last())
    }
}

/// Whether no number in `text` has more than `SPAN_NUMBER_DIGITS` digits.
pub open spec fn numbers_are_short(text: Seq<char>) -> bool
    decreases text.len(),
{
    text.len() == 0 || (numbers_are_short(text.drop_last()) && pending_digits(text)
        <= SPAN_NUMBER_DIGITS)
}

/// Whether `text` is read as a span of time at all: it is short and so are
/// its numbers. The seconds of such a text stay below 2^62.
pub open spec fn is_span_text(text: Seq<char>) -> bool {
    text.len() <= SPAN_TEXT_CHARS && numbers_are_short(text)
}

/// Tests whether `text` is read as a span of time at all.
pub fn check_span_text(text: &str) -> (b: bool)
    ensures
        b == is_span_text(text@),
{
    let chars = chars_of(text);
    if chars.len() > SPAN_TEXT_CHARS {
        return false;
    }
    let mut pending: usize = 0;
    let mut i: usize = 0;
    assert(chars@.take(0) =~= Seq::<char>::empty());
    while i < chars.len()
        invariant
            i <= chars.len() <= SPAN_TEXT_CHARS,
            chars@ == text@,
            pending == pending_digits(chars@.take(i as int)),
            pending <= SPAN_NUMBER_DIGITS,
            numbers_are_short(chars@.take(i as int)),
        decreases chars.len() - i,
    {
        let c = chars[i];
        assert(chars@.take(i + 1).drop_last() =~= chars@.take(i as int));
        assert(chars@.take(i + 1).last() == c);
        if (c >= 'a' && c <= 'z') || (c >= 'A' && c <= 'Z') || c == 'µ' || c == '.' {
            pending = 0;
        } else if c >= '0' && c <= '9' {
            pending += 1;
        }
        if pending > SPAN_NUMBER_DIGITS {
            proof {
                lemma_long_number_stays(chars@, i + 1);
            }
            return false;
        }
        i += 1;
    }
    assert(chars@.take(i as int) =~= chars@);
    true
}

/// A number that is too long at index `upto` leaves the whole text with a
/// number that is too long.
proof fn lemma_long_number_stays(text: Seq<char>, upto: int)
    requires
        0 <= upto <= text.len(),
        !numbers_are_short(text.take(upto)),
    ensures
        !numbers_are_short(text),
    decreases text.len() - upto,
{
    if upto < text.len() {
        assert(text.take(upto + 1).drop_last() =~= text.take(upto));
        lemma_long_number_stays(text, upto + 1);
    } else {
        assert(text.take(upto) =~= text);
    }
}

/// The span of time that a text such as `2h 37min` or `4.2s` spells, if it
/// spells one.
pub uninterp spec fn spelled_span(text: Seq<char>) -> Option<Span>;

/// `humantime::parse_duration`. Trusted: whether the text spells a span of
/// time, and which one, depends on the text alone. The call adds up seconds
/// in 64 bits and gives up where a sum leaves them, but for one carry of a
/// full second of nanoseconds, on which it panics where the seconds already
/// stand at the top. No text admitted here gets near: each of its numbers is
/// under 10^9, a unit is at most 31,557,600 seconds, and under 128 numbers
/// with a unit fit into it.
#[verifier::external_body]
pub(crate) fn parse_span(text: &str) -> (r: Option<Span>)
    requires
        is_span_text(text@),
    ensures
        r == spelled_span(text@),
{
    match humantime::parse_duration(text) {
        Ok(d) => Some(Span { secs: d.as_secs(), nanos: d.subsec_nanos() }),
        Err(_) => None,
    }
}

/// The ticks in the span of time that `text` spells; `None` if it is not read
/// as a span of time, spells none, or spells one of more ticks than 64 bits
/// hold.
pub open spec fn spelled_ticks(text: Seq<char>) -> Option<int> {
    if !is_span_text(text) {
        None
    } else {
        match spelled_span(text) {
            Some(span) => if span.ticks() <= i64::MAX {
                Some(span.ticks())
            } else {
                None
            },
            None => None,
        }
    }
}

/// What `parse_ticks` makes of the outcome of reading a span of time.
pub fn ticks_of_span(span: Option<Span>) -> (t: Option<i64>)
    ensures
        match span {
            Some(sp) => (sp.ticks() <= i64::MAX ==> t == Some(sp.ticks() as i64)) && (sp.ticks()
                > i64::MAX ==> t is None),
            None => t is None,
        },
{
    match span {
        Some(sp) => sp.checked_ticks(),
        None => None,
    }
}

/// Reads a span of time and counts its ticks. A text of more than
/// `SPAN_TEXT_CHARS` characters, or with a number of more than
/// `SPAN_NUMBER_DIGITS` digits, is not read.
pub fn parse_ticks(text: &str) -> (t: Option<i64>)
    ensures
        match spelled_ticks(text@) {
            Some(ticks) => t == Some(ticks as i64),
            None => t is None,
        },
        !is_span_text(text@) ==> t is None,
{
    if !check_span_text(text) {
        return None;
    }
    ticks_of_span(parse_span(text))
}

} // verus!
