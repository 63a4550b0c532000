//! Single-limb arithmetic with explicit carry and borrow words.
//!
//! Every operation widens to 128 bits, so that nothing is lost: the pair it
//! returns always adds up to the exact mathematical result.

use vstd::prelude::*;

verus! {

/// The limb radix, `2^64`.
pub open spec fn radix() -> int {
    0x1_0000_0000_0000_0000
}

/// Splits a 128-bit word into its low and high 64-bit halves.
fn split(x: u128) -> (r: (u64, u64))
    ensures
        r.0 + r.1 * radix() == x,
{
    let lo: u64 = #[verifier::truncate] (x as u64);
    let hi: u64 = (x >> 64) as u64;
    assert(lo + (x >> 64) * 0x1_0000_0000_0000_0000 == x && (x >> 64) <= 0xffff_ffff_ffff_ffff)
        by (bit_vector)
        requires
            lo == x as u64,
    ;
    (lo, hi)
}

/// The product of two limbs fits in 128 bits with room for two more limbs.
pub proof fn lemma_limb_product_bound(b: u64, c: u64)
    ensures
        0 <= b * c <= 0xffff_ffff_ffff_fffe_0000_0000_0000_0001,
{
    assert(0 <= b * c <= 0xffff_ffff_ffff_fffe_0000_0000_0000_0001) by (nonlinear_arith)
        requires
            0 <= b <= 0xffff_ffff_ffff_ffff,
            0 <= c <= 0xffff_ffff_ffff_ffff,
    ;
}

/// Computes `a + b * c + carry` and returns its low word and its high word,
/// the carry out.
pub fn mac(a: u64, b: u64, c: u64, carry: u64) -> (r: (u64, u64))
    ensures
        r.0 + r.1 * radix() == a + b * c + carry,
{
    proof {
        lemma_limb_product_bound(b, c);
    }
    let ret: u128 = (a as u128) + ((b as u128) * (c as u128)) + (carry as u128);
    split(ret)
}

/// Computes `a + b * c` and returns its low word and its high word, the carry
/// out.
pub fn macx(a: u64, b: u64, c: u64) -> (r: (u64, u64))
    ensures
        r.0 + r.1 * radix() == a + b * c,
{
    proof {
        lemma_limb_product_bound(b, c);
    }
    let res: u128 = (a as u128) + ((b as u128) * (c as u128));
    split(res)
}

/// Computes `a + b + carry` and returns its low word and the carry out.
pub fn adc(a: u64, b: u64, carry: u64) -> (r: (u64, u64))
    ensures
        r.0 + r.1 * radix() == a + b + carry,
        r.1 <= 2,
        carry <= 1 ==> r.1 <= 1,
{
    let ret: u128 = (a as u128) + (b as u128) + (carry as u128);
    split(ret)
}

/// Computes `a + b` and returns its low word and the carry out.
pub fn adcx(a: u64, b: u64) -> (r: (u64, u64))
    ensures
        r.0 + r.1 * radix() == a + b,
        r.1 <= 1,
{
    let ret: u128 = (a as u128) + (b as u128);
    split(ret)
}

/// Sets `a` to `a - b - borrow` modulo `2^64` and returns 1 if one radix had
/// to be borrowed for that, else 0.
///
/// With an incoming borrow of 0 or 1 the difference is never below `-2^64`,
/// so the word and the borrow together give it exactly. A larger incoming
/// borrow can take the difference below `-2^64`; the word is then still the
/// difference modulo `2^64`, and the borrow returned is 0.
pub fn sbb(a: &mut u64, b: u64, borrow: u64) -> (r: u64)
    ensures
        *final(a) == (*old(a) - b - borrow) % radix(),
        r == (if -radix() <= *old(a) - b - borrow < 0 { 1u64 } else { 0u64 }),
        borrow <= 1 ==> *final(a) - r * radix() == *old(a) - b - borrow,
{
    assert((1u128 << 64) == 0x1_0000_0000_0000_0000) by (bit_vector);
    let minuend: u128 = (1u128 << 64) + (*a as u128) - (b as u128);
    let tmp: u128 = minuend.wrapping_sub(borrow as u128);
    let lo: u64 = #[verifier::truncate] (tmp as u64);
    assert(lo + (tmp >> 64) * 0x1_0000_0000_0000_0000 == tmp && (tmp >> 64) <= 0xffff_ffff_ffff_ffff)
        by (bit_vector)
        requires
            lo == tmp as u64,
    ;
    *a = lo;
    (tmp >> 64 == 0) as u64
}

} // verus!
