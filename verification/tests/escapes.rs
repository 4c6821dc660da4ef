use std::collections::VecDeque;

use crunch::escape::{unescape_bits, unescape_byte, unescape_unicode};

fn queue(s: &str) -> VecDeque<char> {
    s.chars().collect()
}

#[test]
fn unicode_escape_reads_four_hex_digits() {
    let mut q = queue("{0041}rest");
    assert_eq!(unescape_unicode(&mut q), Some('A'));
    let rest: String = q.into_iter().collect();
    assert_eq!(rest, "rest");

    let mut q = queue("{03bb}");
    assert_eq!(unescape_unicode(&mut q), Some('λ'));
}

#[test]
fn unicode_escape_rejects_malformed_groups() {
    // no opening brace: the one popped character stays popped
    let mut q = queue("0041}");
    assert_eq!(unescape_unicode(&mut q), None);
    assert_eq!(q.len(), 4);
    // too short
    let mut q = queue("{00");
    assert_eq!(unescape_unicode(&mut q), None);
    assert_eq!(q.len(), 0);
    // missing closing brace
    let mut q = queue("{0041x");
    assert_eq!(unescape_unicode(&mut q), None);
    // an invalid digit
    let mut q = queue("{00g1}");
    assert_eq!(unescape_unicode(&mut q), None);
    // a surrogate code is no scalar
    let mut q = queue("{d800}");
    assert_eq!(unescape_unicode(&mut q), None);
}

#[test]
fn byte_escape_reads_two_hex_digits() {
    let mut q = queue("{41}");
    assert_eq!(unescape_byte(&mut q), Some('A'));
    let mut q = queue("{ff}");
    assert_eq!(unescape_byte(&mut q), Some('ÿ'));
    // a leading plus sign is read like the digit parser reads it
    let mut q = queue("{+f}");
    assert_eq!(unescape_byte(&mut q), Some('\u{f}'));
    let mut q = queue("{4g}");
    assert_eq!(unescape_byte(&mut q), None);
}

#[test]
fn bits_escape_reads_eight_binary_digits() {
    let mut q = queue("{01000001}");
    assert_eq!(unescape_bits(&mut q), Some('A'));
    let mut q = queue("{11111111}");
    assert_eq!(unescape_bits(&mut q), Some('ÿ'));
    let mut q = queue("{01000002}");
    assert_eq!(unescape_bits(&mut q), None);
    let mut q = queue("{0100001}");
    assert_eq!(unescape_bits(&mut q), None);
}
