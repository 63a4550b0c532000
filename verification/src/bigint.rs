//! Four-limb unsigned integers: their value, comparison and subtraction.

use vstd::prelude::*;
use crate::limb::sbb;

verus! {

/// `2^256`, one more than the largest value that four limbs hold.
pub open spec fn radix4() -> nat {
    0x1_0000_0000_0000_0000_0000_0000_0000_0000_0000_0000_0000_0000_0000_0000_0000_0000nat
}

/// The integer that four limbs stand for, least significant limb first.
pub open spec fn limbs_value(a: [u64; 4]) -> nat {
    (a[0] + a[1] * 0x1_0000_0000_0000_0000int
        + a[2] * 0x1_0000_0000_0000_0000_0000_0000_0000_0000int
        + a[3] * 0x1_0000_0000_0000_0000_0000_0000_0000_0000_0000_0000_0000_0000int) as nat
}

/// `2^(64 * n)` for `n` from 0 to 4, the weight of limb `n`.
pub open spec fn limb_weight(n: int) -> int {
    if n <= 0 {
        1
    } else if n == 1 {
        0x1_0000_0000_0000_0000int
    } else if n == 2 {
        0x1_0000_0000_0000_0000_0000_0000_0000_0000int
    } else if n == 3 {
        0x1_0000_0000_0000_0000_0000_0000_0000_0000_0000_0000_0000_0000int
    } else {
        radix4() as int
    }
}

/// The integer that the lowest `n` limbs of `s` stand for, `n` from 0 to 4.
pub open spec fn limbs_low(s: Seq<u64>, n: int) -> int {
    if n <= 0 {
        0
    } else if n == 1 {
        s[0] as int
    } else if n == 2 {
        s[0] + s[1] * limb_weight(1)
    } else if n == 3 {
        s[0] + s[1] * limb_weight(1) + s[2] * limb_weight(2)
    } else {
        s[0] + s[1] * limb_weight(1) + s[2] * limb_weight(2) + s[3] * limb_weight(3)
    }
}

/// Compares limb by limb from the most significant one down: the first pair
/// of limbs that differ decides, and equal arrays count as greater or equal.
pub open spec fn limbs_greater_eq(a: [u64; 4], b: [u64; 4]) -> bool {
    if a[3] != b[3] {
        a[3] > b[3]
    } else if a[2] != b[2] {
        a[2] > b[2]
    } else if a[1] != b[1] {
        a[1] > b[1]
    } else {
        a[0] >= b[0]
    }
}

/// The limb-wise comparison agrees with the comparison of the values.
pub proof fn lemma_limbs_greater_eq_is_numeric(a: [u64; 4], b: [u64; 4])
    ensures
        limbs_greater_eq(a, b) == (limbs_value(a) >= limbs_value(b)),
{
}

/// Every value is greater than or equal to itself.
pub proof fn lemma_limbs_greater_eq_reflexive(a: [u64; 4])
    ensures
        limbs_greater_eq(a, a),
        limbs_value(a) >= limbs_value(a),
{
}

/// Different limb arrays stand for different values.
pub proof fn lemma_limbs_value_injective(a: [u64; 4], b: [u64; 4])
    requires
        limbs_value(a) == limbs_value(b),
    ensures
        a == b,
{
    lemma_limbs_greater_eq_is_numeric(a, b);
    lemma_limbs_greater_eq_is_numeric(b, a);
    assert(a =~= b);
}

/// Returns true iff `a >= b` as 256-bit unsigned integers.
pub fn bigint_greater_eq(a: &[u64; 4], b: &[u64; 4]) -> (r: bool)
    ensures
        r == (limbs_value(*a) >= limbs_value(*b)),
        r == limbs_greater_eq(*a, *b),
{
    proof {
        lemma_limbs_greater_eq_is_numeric(*a, *b);
    }
    for i in 0..4usize
        invariant
            forall|k: int| 3 - i < k <= 3 ==> a[k] == b[k],
    {
        if a[3 - i] > b[3 - i] {
            return true;
        } else if a[3 - i] < b[3 - i] {
            return false;
        }
    }
    true
}

/// Sets `a` to `a - b` modulo `2^256` and returns true iff that wrapped
/// around, that is iff `a < b`.
pub fn sub_with_borrow(a: &mut [u64; 4], b: &[u64; 4]) -> (r: bool)
    ensures
        limbs_value(*final(a)) - (if r { radix4() } else { 0nat }) == limbs_value(*old(a)) - limbs_value(
            *b,
        ),
        r == (limbs_value(*old(a)) < limbs_value(*b)),
{
    let mut borrow: u64 = 0;
    borrow = sbb(&mut a[0], b[0], borrow);
    borrow = sbb(&mut a[1], b[1], borrow);
    borrow = sbb(&mut a[2], b[2], borrow);
    borrow = sbb(&mut a[3], b[3], borrow);
    borrow != 0
}

} // verus!
