//! Arbitrary-precision integer payloads. The runtime holds such a value as
//! its base-2^32 digits, least significant first, with an explicit sign for
//! the signed kind; equality is decided here against the mathematical value.
//! Only the decimal rendering is delegated to the num-bigint crate.

use vstd::prelude::*;
use vstd::arithmetic::div_mod::lemma_fundamental_div_mod_converse;

verus! {

/// The base of the digit representation.
pub open spec fn limb_base() -> int {
    0x1_0000_0000
}

/// The natural number a digit sequence denotes.
pub open spec fn limbs_value(d: Seq<u32>) -> nat
    decreases d.len(),
{
    if d.len() == 0 {
        0
    } else {
        (d[0] + limb_base() * limbs_value(d.drop_first())) as nat
    }
}

/// The integer a sign and a digit sequence denote.
pub open spec fn signed_value(negative: bool, d: Seq<u32>) -> int {
    if negative {
        -(limbs_value(d) as int)
    } else {
        limbs_value(d) as int
    }
}

/// The digit at position `i`, taking positions past the end as zero.
pub open spec fn limb_at(d: Seq<u32>, i: int) -> u32 {
    if 0 <= i < d.len() {
        d[i]
    } else {
        0
    }
}

/// Digit-by-digit equality, with missing digits read as zero.
pub open spec fn limbs_agree(a: Seq<u32>, b: Seq<u32>) -> bool {
    forall|i: int| limb_at(a, i) == limb_at(b, i)
}

/// A digit sequence denotes zero exactly when every digit is zero.
pub proof fn lemma_limbs_value_zero(d: Seq<u32>)
    ensures
        limbs_value(d) == 0 <==> (forall|i: int| limb_at(d, i) == 0),
    decreases d.len(),
{
    if d.len() == 0 {
        assert(forall|i: int| limb_at(d, i) == 0);
    } else {
        lemma_limbs_value_zero(d.drop_first());
        if limbs_value(d) == 0 {
            assert(d[0] == 0 && limbs_value(d.drop_first()) == 0);
            assert forall|i: int| limb_at(d, i) == 0 by {
                if 1 <= i < d.len() {
                    assert(limb_at(d.drop_first(), i - 1) == 0);
                }
            }
        } else {
            if forall|i: int| limb_at(d, i) == 0 {
                assert(limb_at(d, 0) == 0);
                assert forall|i: int| limb_at(d.drop_first(), i) == 0 by {
                    assert(limb_at(d, i + 1) == 0);
                }
                assert(limbs_value(d) == 0);
            }
        }
    }
}

/// Two digit sequences denote the same natural number exactly when they
/// agree digit by digit.
pub proof fn lemma_limbs_value_eq(a: Seq<u32>, b: Seq<u32>)
    ensures
        limbs_value(a) == limbs_value(b) <==> limbs_agree(a, b),
    decreases a.len() + b.len(),
{
    if a.len() == 0 {
        lemma_limbs_value_zero(b);
        if limbs_value(b) == 0 {
            assert forall|i: int| limb_at(a, i) == limb_at(b, i) by {
                assert(limb_at(b, i) == 0);
            }
        }
        if limbs_agree(a, b) {
            assert forall|i: int| limb_at(b, i) == 0 by {
                assert(limb_at(a, i) == limb_at(b, i));
            }
        }
    } else if b.len() == 0 {
        lemma_limbs_value_zero(a);
        if limbs_value(a) == 0 {
            assert forall|i: int| limb_at(a, i) == limb_at(b, i) by {
                assert(limb_at(a, i) == 0);
            }
        }
        if limbs_agree(a, b) {
            assert forall|i: int| limb_at(a, i) == 0 by {
                assert(limb_at(a, i) == limb_at(b, i));
            }
        }
    } else {
        let at = a.drop_first();
        let bt = b.drop_first();
        lemma_limbs_value_eq(at, bt);
        let va = limbs_value(a) as int;
        let vb = limbs_value(b) as int;
        assert(va == a[0] + limb_base() * limbs_value(at));
        assert(vb == b[0] + limb_base() * limbs_value(bt));
        if va == vb {
            lemma_fundamental_div_mod_converse(
                va,
                limb_base(),
                limbs_value(at) as int,
                a[0] as int,
            );
            lemma_fundamental_div_mod_converse(
                vb,
                limb_base(),
                limbs_value(bt) as int,
                b[0] as int,
            );
            assert(a[0] == b[0]);
            assert(limbs_value(at) == limbs_value(bt));
            assert forall|i: int| limb_at(a, i) == limb_at(b, i) by {
                if i >= 1 {
                    assert(limb_at(at, i - 1) == limb_at(bt, i - 1));
                } else if i == 0 {
                } else {
                }
            }
        }
        if limbs_agree(a, b) {
            assert(limb_at(a, 0) == limb_at(b, 0));
            assert forall|i: int| limb_at(at, i) == limb_at(bt, i) by {
                assert(limb_at(a, i + 1) == limb_at(b, i + 1));
            }
            assert(limbs_value(at) == limbs_value(bt));
        }
    }
}

/// The digit at position `i`, executable side.
fn limb_get(d: &Vec<u32>, i: usize) -> (r: u32)
    ensures
        r == limb_at(d@, i as int),
{
    if i < d.len() {
        d[i]
    } else {
        0
    }
}

/// Decides whether two digit sequences denote the same natural number.
pub fn limbs_eq(a: &Vec<u32>, b: &Vec<u32>) -> (r: bool)
    ensures
        r == (limbs_value(a@) == limbs_value(b@)),
{
    let max = if a.len() < b.len() {
        b.len()
    } else {
        a.len()
    };
    let mut i: usize = 0;
    while i < max
        invariant
            forall|j: int| 0 <= j < i ==> limb_at(a@, j) == limb_at(b@, j),
        decreases max - i,
    {
        if limb_get(a, i) != limb_get(b, i) {
            proof {
                lemma_limbs_value_eq(a@, b@);
            }
            return false;
        }
        i += 1;
    }
    proof {
        assert forall|j: int| limb_at(a@, j) == limb_at(b@, j) by {
            if 0 <= j < max {
            } else {
            }
        }
        lemma_limbs_value_eq(a@, b@);
    }
    true
}

/// Decides whether a digit sequence denotes zero.
pub fn limbs_zero(d: &Vec<u32>) -> (r: bool)
    ensures
        r == (limbs_value(d@) == 0),
{
    let mut i: usize = 0;
    while i < d.len()
        invariant
            forall|j: int| 0 <= j < i ==> limb_at(d@, j) == 0,
        decreases d@.len() - i,
    {
        if d[i] != 0 {
            proof {
                assert(limb_at(d@, i as int) != 0);
                lemma_limbs_value_zero(d@);
            }
            return false;
        }
        i += 1;
    }
    proof {
        assert forall|j: int| limb_at(d@, j) == 0 by {
            if 0 <= j < d@.len() {
            } else {
            }
        }
        lemma_limbs_value_zero(d@);
    }
    true
}

/// Decides whether two signed digit representations denote the same integer.
pub fn signed_eq(a_neg: bool, a: &Vec<u32>, b_neg: bool, b: &Vec<u32>) -> (r: bool)
    ensures
        r == (signed_value(a_neg, a@) == signed_value(b_neg, b@)),
{
    let mags = limbs_eq(a, b);
    if !mags {
        false
    } else if a_neg == b_neg {
        true
    } else {
        limbs_zero(a)
    }
}

/// Relies on num_bigint::BigUint: `new` takes the base-2^32 little-endian
/// digits, and `to_str_radix(10)` renders the number they denote in
/// decimal, most significant digit first with no leading zeros and zero as
/// "0" — exactly `dec_chars` of the denoted value.
#[verifier::external_body]
pub fn biguint_to_decimal(digits: &Vec<u32>) -> (r: String)
    ensures
        r@ == crate::text::dec_chars(limbs_value(digits@)),
{
    num_bigint::BigUint::new(digits.clone()).to_str_radix(10)
}

/// Relies on num_bigint::BigInt: built over `BigUint::new` from the sign
/// and the base-2^32 digits (`from_biguint` normalizes a zero magnitude, so
/// a negative zero renders "0"), `to_str_radix(10)` renders the denoted
/// integer in decimal with a leading minus sign when it is negative —
/// exactly `dec_chars_int` of the denoted value.
#[verifier::external_body]
pub fn bigint_to_decimal(negative: bool, digits: &Vec<u32>) -> (r: String)
    ensures
        r@ == crate::text::dec_chars_int(signed_value(negative, digits@)),
{
    let sign = if negative {
        num_bigint::Sign::Minus
    } else {
        num_bigint::Sign::Plus
    };
    num_bigint::BigInt::from_biguint(sign, num_bigint::BigUint::new(digits.clone())).to_str_radix(10)
}

} // verus!
