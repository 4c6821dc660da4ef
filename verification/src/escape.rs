//! Escape-sequence payload readers. Each one consumes a braced group from
//! the front of a character queue — `{` followed by a fixed number of
//! digits and `}` — and reads the digits in a fixed radix: four hex digits
//! naming a Unicode scalar, two hex digits naming a byte, or eight binary
//! digits naming a byte. A missing brace, a short queue, an invalid digit
//! or an out-of-range scalar yields nothing; what was popped stays popped.

use vstd::prelude::*;
use vstd::arithmetic::power::{lemma_pow_increases, pow};
use std::collections::VecDeque;

use crate::text::char_from_u32;

verus! {

/// The numeric value of `c` as a digit in the given radix (digits first,
/// then lower-case letters, then upper-case), or nothing.
pub open spec fn digit_value(c: char, radix: int) -> Option<int> {
    let u = c as u32;
    if 48 <= u <= 57 && u - 48 < radix {
        Some(u - 48)
    } else if 97 <= u <= 122 && u - 97 + 10 < radix {
        Some(u - 87)
    } else if 65 <= u <= 90 && u - 65 + 10 < radix {
        Some(u - 55)
    } else {
        None
    }
}

/// The value of a digit string read most significant first, or nothing if
/// any character is no digit of the radix.
pub open spec fn digits_value(s: Seq<char>, radix: int) -> Option<int>
    decreases s.len(),
{
    if s.len() == 0 {
        Some(0)
    } else {
        match digits_value(s.drop_last(), radix) {
            Some(v) => match digit_value(s.last(), radix) {
                Some(d) => Some(v * radix + d),
                None => None,
            },
            None => None,
        }
    }
}

/// The number a digit string denotes, allowing one leading plus sign; an
/// empty body is nothing.
pub open spec fn parse_radix(s: Seq<char>, radix: int) -> Option<int> {
    let body = if s.len() > 0 && s[0] == '+' {
        s.drop_first()
    } else {
        s
    };
    if body.len() == 0 {
        None
    } else {
        digits_value(body, radix)
    }
}

/// The digits between the braces of a `{` + `n` characters + `}` prefix,
/// or nothing if the queue does not start that way.
pub open spec fn brace_payload(q: Seq<char>, n: int) -> Option<Seq<char>> {
    if q.len() >= n + 2 && q[0] == '{' && q[n + 1] == '}' {
        Some(q.subrange(1, n + 1))
    } else {
        None
    }
}

/// How many characters reading a braced group of `n` digits pops from the
/// queue, whether or not the group is well formed: each pop happens before
/// its check.
pub open spec fn brace_consumed(q: Seq<char>, n: int) -> int {
    if q.len() == 0 {
        0
    } else if q[0] != '{' {
        1
    } else if q.len() < n + 2 {
        q.len() as int
    } else {
        n + 2
    }
}

/// The number a well-formed braced group of `n` digits in `radix` denotes,
/// or nothing.
pub open spec fn unescape_model(q: Seq<char>, n: int, radix: int) -> Option<int> {
    match brace_payload(q, n) {
        Some(p) => parse_radix(p, radix),
        None => None,
    }
}

/// True of the code of a Unicode scalar value — what a `char` can hold.
pub open spec fn scalar_code(v: int) -> bool {
    0 <= v && v <= 0x10FFFF && !(0xD800 <= v && v <= 0xDFFF)
}

/// The numeric value of `c` as a digit in the given radix, executable side.
fn digit_value_exec(c: char, radix: u32) -> (r: Option<u32>)
    ensures
        match r {
            Some(d) => digit_value(c, radix as int) == Some(d as int) && d < radix,
            None => digit_value(c, radix as int) is None,
        },
{
    let u = c as u32;
    if 48 <= u && u <= 57 && u - 48 < radix {
        Some(u - 48)
    } else if 97 <= u && u <= 122 && u - 97 + 10 < radix {
        Some(u - 87)
    } else if 65 <= u && u <= 90 && u - 65 + 10 < radix {
        Some(u - 55)
    } else {
        None
    }
}

/// Reads a digit vector most significant digit first, allowing one leading
/// plus sign, exactly as `parse_radix` does.
fn parse_radix_exec(digs: &Vec<char>, radix: u32) -> (r: Option<u32>)
    requires
        radix == 2 || radix == 16,
        digs@.len() <= 8,
    ensures
        match r {
            Some(v) => parse_radix(digs@, radix as int) == Some(v as int),
            None => parse_radix(digs@, radix as int) is None,
        },
{
    proof {
        reveal_with_fuel(pow, 10);
        assert(pow(16, 0) == 1);
        assert(pow(16, 1) == 16);
        assert(pow(16, 2) == 256);
        assert(pow(16, 3) == 0x1000);
        assert(pow(16, 4) == 0x1_0000);
        assert(pow(16, 5) == 0x10_0000);
        assert(pow(16, 6) == 0x100_0000);
        assert(pow(16, 7) == 0x1000_0000);
        assert(pow(16, 8) == 0x1_0000_0000);
        assert(pow(2, 0) == 1);
        assert(pow(2, 1) == 2);
        assert(pow(2, 2) == 4);
        assert(pow(2, 3) == 8);
        assert(pow(2, 4) == 16);
        assert(pow(2, 5) == 32);
        assert(pow(2, 6) == 64);
        assert(pow(2, 7) == 128);
        assert(pow(2, 8) == 256);
    }
    let start: usize = if digs.len() > 0 && digs[0] == '+' {
        1
    } else {
        0
    };
    if start == digs.len() {
        return None;
    }
    let ghost body = if digs@.len() > 0 && digs@[0] == '+' {
        digs@.drop_first()
    } else {
        digs@
    };
    proof {
        lemma_pow_increases(radix as nat, (digs@.len() - start) as nat, 8);
    }
    let mut acc: u64 = 0;
    let mut i: usize = start;
    while i < digs.len()
        invariant
            radix == 2 || radix == 16,
            digs@.len() <= 8,
            start <= i <= digs@.len(),
            start == 0 || start == 1,
            start == 1 ==> digs@.len() > 0 && digs@[0] == '+',
            start == 0 ==> !(digs@.len() > 0 && digs@[0] == '+'),
            body == (if digs@.len() > 0 && digs@[0] == '+' {
                digs@.drop_first()
            } else {
                digs@
            }),
            digits_value(digs@.subrange(start as int, i as int), radix as int) == Some(
                acc as int,
            ),
            (acc as int) < pow(radix as int, (i - start) as nat),
            pow(radix as int, (i - start) as nat) <= 0x1_0000_0000,
            pow(radix as int, (digs@.len() - start) as nat) <= 0x1_0000_0000,
        decreases digs@.len() - i,
    {
        let d = match digit_value_exec(digs[i], radix) {
            Some(d) => d,
            None => {
                proof {
                    let whole = digs@.subrange(start as int, digs@.len() as int);
                    assert(whole =~= body);
                    lemma_digits_value_none(body, radix as int, i - start);
                }
                return None;
            },
        };
        proof {
            reveal_with_fuel(pow, 2);
            let pre = digs@.subrange(start as int, i as int);
            let post = digs@.subrange(start as int, i as int + 1);
            assert(post.drop_last() =~= pre);
            assert(post.last() == digs@[i as int]);
            assert(pow(radix as int, (i + 1 - start) as nat) == radix * pow(
                radix as int,
                (i - start) as nat,
            ));
            assert((acc as int) * (radix as int) + (d as int) < pow(
                radix as int,
                (i - start) as nat,
            ) * (radix as int)) by (nonlinear_arith)
                requires
                    (acc as int) < pow(radix as int, (i - start) as nat),
                    (d as int) < (radix as int),
                    (radix as int) >= 2,
                    pow(radix as int, (i - start) as nat) >= 1,
            ;
            lemma_pow_increases(
                radix as nat,
                (i + 1 - start) as nat,
                (digs@.len() - start) as nat,
            );
        }
        acc = acc * (radix as u64) + (d as u64);
        i = i + 1;
    }
    proof {
        assert(digs@.subrange(start as int, digs@.len() as int) =~= body);
    }
    Some(acc as u32)
}

/// A digit string with an invalid digit at some position denotes nothing.
proof fn lemma_digits_value_none(s: Seq<char>, radix: int, at: int)
    requires
        0 <= at < s.len(),
        digit_value(s[at], radix) is None,
    ensures
        digits_value(s, radix) is None,
    decreases s.len(),
{
    if at < s.len() - 1 {
        lemma_digits_value_none(s.drop_last(), radix, at);
    }
}

/// Pops a braced group of `n` digits off the queue: `{`, the digits, `}`.
fn pop_braced(queue: &mut VecDeque<char>, n: usize) -> (r: Option<Vec<char>>)
    requires
        1 <= n <= 8,
    ensures
        final(queue)@ == old(queue)@.skip(brace_consumed(old(queue)@, n as int)),
        match r {
            Some(digs) => brace_payload(old(queue)@, n as int) == Some(digs@) && digs@.len()
                == n,
            None => brace_payload(old(queue)@, n as int) is None,
        },
{
    let ghost q = old(queue)@;
    match queue.pop_front() {
        Some(c) => {
            if c != '{' {
                return None;
            }
        },
        None => {
            return None;
        },
    }
    let mut digs: Vec<char> = Vec::new();
    let mut i: usize = 0;
    while i < n
        invariant
            1 <= n <= 8,
            i <= n,
            q == old(queue)@,
            q.len() >= 1 + i,
            q[0] == '{',
            digs@.len() == i,
            digs@ =~= q.subrange(1, 1 + i as int),
            queue@ =~= q.skip(1 + i as int),
        decreases n - i,
    {
        match queue.pop_front() {
            Some(c) => {
                digs.push(c);
            },
            None => {
                proof {
                    assert(q.len() == 1 + i);
                    assert(queue@ =~= q.skip(q.len() as int));
                }
                return None;
            },
        }
        i = i + 1;
    }
    match queue.pop_front() {
        Some(c) => {
            if c != '}' {
                proof {
                    assert(queue@ =~= q.skip(n as int + 2));
                }
                return None;
            }
        },
        None => {
            proof {
                assert(q.len() == 1 + n);
                assert(queue@ =~= q.skip(q.len() as int));
            }
            return None;
        },
    }
    proof {
        assert(queue@ =~= q.skip(n as int + 2));
        assert(digs@ =~= q.subrange(1, n as int + 1));
    }
    Some(digs)
}

/// Reads a `\u{....}` payload: four hex digits naming a Unicode scalar.
/// Yields the character with that code, or nothing for a malformed group,
/// an invalid digit, or a code outside the scalar range; what was popped
/// stays popped.
pub fn unescape_unicode(queue: &mut VecDeque<char>) -> (r: Option<char>)
    ensures
        final(queue)@ == old(queue)@.skip(brace_consumed(old(queue)@, 4)),
        match r {
            Some(c) => {
                &&& unescape_model(old(queue)@, 4, 16) == Some(c as u32 as int)
                &&& scalar_code(c as u32 as int)
            },
            None => match unescape_model(old(queue)@, 4, 16) {
                Some(v) => !scalar_code(v),
                None => true,
            },
        },
{
    let digs = match pop_braced(queue, 4) {
        Some(d) => d,
        None => {
            return None;
        },
    };
    let v = match parse_radix_exec(&digs, 16) {
        Some(v) => v,
        None => {
            return None;
        },
    };
    match char_from_u32(v) {
        Some(c) => Some(c),
        None => None,
    }
}

/// Reads a `\x{..}` payload: two hex digits naming a byte. Yields the
/// character with that code, or nothing; what was popped stays popped.
pub fn unescape_byte(queue: &mut VecDeque<char>) -> (r: Option<char>)
    ensures
        final(queue)@ == old(queue)@.skip(brace_consumed(old(queue)@, 2)),
        match r {
            Some(c) => unescape_model(old(queue)@, 2, 16) == Some(c as u32 as int),
            None => unescape_model(old(queue)@, 2, 16) is None,
        },
{
    let digs = match pop_braced(queue, 2) {
        Some(d) => d,
        None => {
            return None;
        },
    };
    let v = match parse_radix_exec(&digs, 16) {
        Some(v) => v,
        None => {
            return None;
        },
    };
    proof {
        lemma_two_digit_bound(digs@, 16);
    }
    let c = (v as u8) as char;
    Some(c)
}

/// Reads a `\b{........}` payload: eight binary digits naming a byte.
/// Yields the character with that code, or nothing; what was popped stays
/// popped.
pub fn unescape_bits(queue: &mut VecDeque<char>) -> (r: Option<char>)
    ensures
        final(queue)@ == old(queue)@.skip(brace_consumed(old(queue)@, 8)),
        match r {
            Some(c) => unescape_model(old(queue)@, 8, 2) == Some(c as u32 as int),
            None => unescape_model(old(queue)@, 8, 2) is None,
        },
{
    let digs = match pop_braced(queue, 8) {
        Some(d) => d,
        None => {
            return None;
        },
    };
    let v = match parse_radix_exec(&digs, 2) {
        Some(v) => v,
        None => {
            return None;
        },
    };
    proof {
        lemma_bits_bound(digs@);
    }
    let c = (v as u8) as char;
    Some(c)
}

/// Two hex digits (with at most a plus sign) denote less than 256.
proof fn lemma_two_digit_bound(s: Seq<char>, radix: int)
    requires
        s.len() <= 2,
        radix == 16,
    ensures
        match parse_radix(s, radix) {
            Some(v) => 0 <= v < 256,
            None => true,
        },
{
    let body = if s.len() > 0 && s[0] == '+' {
        s.drop_first()
    } else {
        s
    };
    lemma_digits_small(body, 16, 2);
}

/// Eight binary digits (with at most a plus sign) denote less than 256.
proof fn lemma_bits_bound(s: Seq<char>)
    requires
        s.len() <= 8,
    ensures
        match parse_radix(s, 2) {
            Some(v) => 0 <= v < 256,
            None => true,
        },
{
    let body = if s.len() > 0 && s[0] == '+' {
        s.drop_first()
    } else {
        s
    };
    lemma_digits_small(body, 2, 8);
}

/// A digit string of bounded length denotes less than radix to the length.
proof fn lemma_digits_small(s: Seq<char>, radix: int, cap: int)
    requires
        radix >= 2,
        0 <= s.len() <= cap,
        (radix == 16 && cap == 2) || (radix == 2 && cap == 8),
    ensures
        match digits_value(s, radix) {
            Some(v) => 0 <= v < 256,
            None => true,
        },
{
    lemma_digits_bound(s, radix);
    lemma_pow_increases(radix as nat, s.len(), cap as nat);
    proof_pow_unfold();
}

/// Unfolds the small power table used above.
proof fn proof_pow_unfold()
    ensures
        pow(16, 2) == 256,
        pow(2, 8) == 256,
{
    reveal_with_fuel(pow, 10);
}

/// A digit string denotes a value below radix to its length.
proof fn lemma_digits_bound(s: Seq<char>, radix: int)
    requires
        radix >= 2,
    ensures
        match digits_value(s, radix) {
            Some(v) => 0 <= v < pow(radix, s.len()),
            None => true,
        },
    decreases s.len(),
{
    reveal_with_fuel(pow, 2);
    if s.len() > 0 {
        lemma_digits_bound(s.drop_last(), radix);
        match digits_value(s.drop_last(), radix) {
            Some(v) => {
                match digit_value(s.last(), radix) {
                    Some(d) => {
                        assert(pow(radix, s.len()) == radix * pow(
                            radix,
                            (s.len() - 1) as nat,
                        ));
                        assert(v * radix + d < pow(radix, (s.len() - 1) as nat) * radix)
                            by (nonlinear_arith)
                            requires
                                v < pow(radix, (s.len() - 1) as nat),
                                d < radix,
                                radix >= 2,
                                0 <= v,
                                0 <= d,
                                pow(radix, (s.len() - 1) as nat) >= 1,
                        ;
                        assert(0 <= v * radix + d) by (nonlinear_arith)
                            requires
                                0 <= v,
                                0 <= d,
                                radix >= 2,
                        ;
                    },
                    None => {},
                }
            },
            None => {},
        }
    } else {
        assert(pow(radix, 0) == 1);
    }
}

} // verus!
