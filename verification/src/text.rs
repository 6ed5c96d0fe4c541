//! Characters and strings: the classes of characters that the query language
//! tells apart, and the few string operations the rest of the crate builds on.

use vstd::prelude::*;

verus! {

/// Whether a character beyond ASCII is alphabetic or numeric in Unicode.
pub uninterp spec fn unicode_alphanumeric(c: char) -> bool;

/// Whether a character beyond ASCII is white space in Unicode.
pub uninterp spec fn unicode_whitespace(c: char) -> bool;

/// An ASCII character.
pub open spec fn is_ascii_char(c: char) -> bool {
    c as u32 <= 0x7f
}

/// An ASCII letter or digit.
pub open spec fn ascii_alphanumeric(c: char) -> bool {
    ||| 'a' <= c <= 'z'
    ||| 'A' <= c <= 'Z'
    ||| '0' <= c <= '9'
}

/// A letter or a digit: within ASCII the letters and digits of ASCII, beyond it
/// whatever Unicode counts as alphabetic or numeric.
pub open spec fn alphanumeric(c: char) -> bool {
    if is_ascii_char(c) {
        ascii_alphanumeric(c)
    } else {
        unicode_alphanumeric(c)
    }
}

/// White space: within ASCII the space and the controls from tab to carriage
/// return, beyond it whatever Unicode counts as white space.
pub open spec fn whitespace(c: char) -> bool {
    if is_ascii_char(c) {
        c == ' ' || 0x09 <= c as u32 <= 0x0d
    } else {
        unicode_whitespace(c)
    }
}

/// `char::is_alphanumeric`. Trusted: the result is a function of the character
/// alone, and on ASCII it holds exactly for the letters and digits.
#[verifier::external_body]
pub(crate) fn is_alphanumeric(c: char) -> (b: bool)
    ensures
        b == alphanumeric(c),
        !is_ascii_char(c) ==> b == unicode_alphanumeric(c),
{
    c.is_alphanumeric()
}

/// `char::is_whitespace`. Trusted: the result is a function of the character
/// alone, and on ASCII it holds exactly for the space and for U+0009 to U+000D.
#[verifier::external_body]
pub(crate) fn is_whitespace(c: char) -> (b: bool)
    ensures
        b == whitespace(c),
        !is_ascii_char(c) ==> b == unicode_whitespace(c),
{
    c.is_whitespace()
}

/// `String::push`. Trusted: the character is appended and nothing else changes.
pub assume_specification[ String::push ](s: &mut String, c: char)
    ensures
        final(s)@ == old(s)@.push(c),
;

/// The characters of `s`, in order.
pub fn chars_of(s: &str) -> (v: Vec<char>)
    ensures
        v@ == s@,
{
    let mut v: Vec<char> = Vec::new();
    for c in it: s.chars()
        invariant
            v@ == it.seq().take(it.index() as int),
            it.seq() == s@,
    {
        v.push(c);
    }
    v
}

/// The string made of the characters of `v` from index `from` up to `to`.
pub fn string_of_range(v: &Vec<char>, from: usize, to: usize) -> (s: String)
    requires
        from <= to <= v.len(),
    ensures
        s@ == v@.subrange(from as int, to as int),
{
    let mut s = String::new();
    let mut i: usize = from;
    while i < to
        invariant
            from <= i <= to <= v.len(),
            s@ == v@.subrange(from as int, i as int),
        decreases to - i,
    {
        s.push(v[i]);
        i += 1;
    }
    s
}

/// Whether the characters of `v` spell `text`.
pub fn spells(v: &Vec<char>, text: &str) -> (b: bool)
    ensures
        b == (v@ == text@),
{
    let mut i: usize = 0;
    let mut same = true;
    for c in it: text.chars()
        invariant
            it.seq() == text@,
            same ==> i == it.index() && i <= v.len() && v@.take(i as int) == text@.take(i as int),
            !same ==> v@ != text@,
    {
        if same {
            if i < v.len() && v[i] == c {
                assert(v@.take(i + 1) == v@.take(i as int).push(v@[i as int]));
                assert(text@.take(i + 1) == text@.take(i as int).push(text@[i as int]));
                i += 1;
            } else {
                same = false;
            }
        }
    }
    proof {
        if same {
            assert(text@.take(text@.len() as int) == text@);
            if i == v.len() {
                assert(v@.take(i as int) == v@);
            }
        }
    }
    same && i == v.len()
}

} // verus!
