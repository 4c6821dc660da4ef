//! Decimal rendering of the fixed-width integers, and the few character and
//! string conversions the runtime needs from std.

use vstd::prelude::*;
use vstd::utf8::{decode_utf8, valid_utf8};

verus! {

/// The decimal digit character for `d` (0 through 9).
pub open spec fn dec_digit(d: int) -> char {
    if d == 0 {
        '0'
    } else if d == 1 {
        '1'
    } else if d == 2 {
        '2'
    } else if d == 3 {
        '3'
    } else if d == 4 {
        '4'
    } else if d == 5 {
        '5'
    } else if d == 6 {
        '6'
    } else if d == 7 {
        '7'
    } else if d == 8 {
        '8'
    } else {
        '9'
    }
}

/// The decimal rendering of a natural number, most significant digit first,
/// with no leading zeros (zero itself is "0").
pub open spec fn dec_chars(n: nat) -> Seq<char>
    decreases n,
{
    if n < 10 {
        seq![dec_digit(n as int)]
    } else {
        dec_chars(n / 10) + seq![dec_digit((n % 10) as int)]
    }
}

/// The decimal rendering of an integer: a leading minus sign when negative.
pub open spec fn dec_chars_int(v: int) -> Seq<char> {
    if v < 0 {
        seq!['-'] + dec_chars((-v) as nat)
    } else {
        dec_chars(v as nat)
    }
}

/// The decimal digit character for `d`, executable side.
fn digit_char(d: u8) -> (c: char)
    requires
        d < 10,
    ensures
        c == dec_digit(d as int),
{
    match d {
        0 => '0',
        1 => '1',
        2 => '2',
        3 => '3',
        4 => '4',
        5 => '5',
        6 => '6',
        7 => '7',
        8 => '8',
        _ => '9',
    }
}

/// Relies on String::push: appends exactly the one character.
#[verifier::external_body]
pub fn push_char(s: &mut String, c: char)
    ensures
        final(s)@ == old(s)@.push(c),
{
    s.push(c)
}

/// Relies on char::from_u32: yields the character of a Unicode scalar value,
/// and nothing for a surrogate or out-of-range code.
#[verifier::external_body]
pub fn char_from_u32(u: u32) -> (r: Option<char>)
    ensures
        r is Some <==> (u < 0xD800 || (0xE000 <= u && u <= 0x10FFFF)),
        match r {
            Some(c) => c as u32 == u,
            None => true,
        },
{
    char::from_u32(u)
}

/// Relies on String::from_utf8: decodes exactly the valid UTF-8 byte
/// sequences, to the character sequence vstd's UTF-8 model gives them.
#[verifier::external_body]
pub fn utf8_to_string(bytes: Vec<u8>) -> (r: Option<String>)
    ensures
        r is Some <==> valid_utf8(bytes@),
        match r {
            Some(s) => s@ == decode_utf8(bytes@),
            None => true,
        },
{
    String::from_utf8(bytes).ok()
}

/// Appends the decimal rendering of `n` to the string.
fn push_dec_u128(s: &mut String, n: u128)
    ensures
        final(s)@ == old(s)@ + dec_chars(n as nat),
    decreases n,
{
    if n < 10 {
        push_char(s, digit_char(n as u8));
        assert(final(s)@ =~= old(s)@ + dec_chars(n as nat));
    } else {
        push_dec_u128(s, n / 10);
        push_char(s, digit_char((n % 10) as u8));
        assert(final(s)@ =~= old(s)@ + dec_chars(n as nat));
    }
}

/// The decimal rendering of an unsigned value as a fresh string.
pub fn dec_string_u128(n: u128) -> (r: String)
    ensures
        r@ == dec_chars(n as nat),
{
    let mut s = String::new();
    push_dec_u128(&mut s, n);
    assert(s@ =~= dec_chars(n as nat));
    s
}

/// The decimal rendering of a signed value as a fresh string.
pub fn dec_string_i128(v: i128) -> (r: String)
    ensures
        r@ == dec_chars_int(v as int),
{
    if v >= 0 {
        let r = dec_string_u128(v as u128);
        r
    } else {
        let mag: u128 = ((-(v + 1)) as u128) + 1;
        assert(mag == -(v as int));
        let mut s = String::new();
        push_char(&mut s, '-');
        push_dec_u128(&mut s, mag);
        assert(s@ =~= dec_chars_int(v as int));
        s
    }
}

} // verus!
