//! The arithmetic behind Montgomery multiplication modulo the field prime.
//!
//! A field element `x` is held as `x * 2^256 mod p`. The product of two such
//! values `a` and `b` is `a * b * 2^(-256) mod p`, which is again in that form.

use vstd::prelude::*;
use vstd::arithmetic::div_mod::{lemma_fundamental_div_mod, lemma_fundamental_div_mod_converse};
use crate::bigint::radix4;
use vstd::arithmetic::div_mod::lemma_mul_mod_noop_general;
use crate::bigint::limbs_value;
use crate::field::{modulus, radix_inverse, R, R2};

verus! {

/// The Montgomery product of `a` and `b`: `a * b * 2^(-256) mod p`.
pub open spec fn montgomery_product(a: nat, b: nat) -> nat {
    (a * b * radix_inverse()) % modulus()
}

/// The field element that the Montgomery form `a` stands for:
/// `a * 2^(-256) mod p`.
pub open spec fn from_montgomery(a: nat) -> nat {
    (a * radix_inverse()) % modulus()
}

/// From `x * r == y + m * p` and `r * ri == 1 + k * p` it follows that
/// `y * ri` and `x` differ by a multiple of `p`.
proof fn lemma_cancel_radix(x: int, y: int, m: int, r: int, ri: int, k: int, p: int)
    requires
        x * r == y + m * p,
        r * ri == 1 + k * p,
    ensures
        y * ri == (x * k - m * ri) * p + x,
{
    assert(y * ri == (x * r - m * p) * ri);
    assert((x * r - m * p) * ri == x * (r * ri) - (m * ri) * p) by (nonlinear_arith);
    assert(x * (1 + k * p) == x + (x * k) * p) by (nonlinear_arith);
    assert(x + (x * k) * p - (m * ri) * p == (x * k - m * ri) * p + x) by (nonlinear_arith);
}

/// Whatever integer `t` satisfies `t * 2^256 == a * b + m * p` for some `m`
/// is congruent to the Montgomery product of `a` and `b`.
pub proof fn lemma_exact_quotient_is_product(t: int, a: nat, b: nat, m: int)
    requires
        t * radix4() == a * b + m * modulus(),
    ensures
        t % (modulus() as int) == montgomery_product(a, b),
{
    let p = modulus() as int;
    let ri = radix_inverse() as int;
    let k = 0x73f8_2f1d_0d83_41b2_e39a_9828_9906_2391_6586_864b_4c69_11b3_c2e1_f593_efff_ffffint;
    assert(radix4() * ri == 1 + k * p);
    lemma_cancel_radix(t, (a * b) as int, m, radix4() as int, ri, k, p);
    lemma_fundamental_div_mod(t, p);
    let q = t / p;
    let r = t % p;
    assert((a * b) * ri == (q + t * k - m * ri) * p + r) by (nonlinear_arith)
        requires
            (a * b) * ri == (t * k - m * ri) * p + t,
            t == p * q + r,
    ;
    lemma_fundamental_div_mod_converse((a * b) * ri, p, q + t * k - m * ri, r);
}

/// If `acc * 2^256 == q * p` with `0 <= q < 2^256`, then `acc` is zero: the
/// modulus is odd, so `2^256` divides `q`.
pub proof fn lemma_zero_quotient(acc: int, q: int)
    requires
        acc * radix4() == q * modulus(),
        0 <= q < radix4(),
    ensures
        acc == 0,
        q == 0,
{
    let p = modulus() as int;
    let r = radix4() as int;
    let ri = radix_inverse() as int;
    let n = 0x73f8_2f1d_0d83_41b2_e39a_9828_9906_2391_6586_864b_4c69_11b3_c2e1_f593_efff_ffffint;
    assert(p * n + 1 == r * ri);
    let z = q * ri - acc * n;
    assert(q == r * z) by (nonlinear_arith)
        requires
            acc * r == q * p,
            p * n + 1 == r * ri,
            z == q * ri - acc * n,
    ;
    assert(z == 0) by (nonlinear_arith)
        requires
            q == r * z,
            0 <= q < r,
    ;
    assert(acc == 0) by (nonlinear_arith)
        requires
            acc * r == q * p,
            q == 0,
            r > 0,
    ;
}

/// A Montgomery product is reduced, whatever the factors are.
pub proof fn lemma_product_is_reduced(a: nat, b: nat)
    ensures
        montgomery_product(a, b) < modulus(),
{
}

/// The Montgomery product does not depend on the order of its factors.
pub proof fn lemma_product_commutes(a: nat, b: nat)
    ensures
        montgomery_product(a, b) == montgomery_product(b, a),
{
    assert(a * b == b * a) by (nonlinear_arith);
}

/// A Montgomery product with a zero factor is zero.
pub proof fn lemma_product_with_zero(x: nat)
    ensures
        montgomery_product(0, x) == 0,
        montgomery_product(x, 0) == 0,
{
    assert(0 * x * radix_inverse() == 0) by (nonlinear_arith);
    assert(x * 0 * radix_inverse() == 0) by (nonlinear_arith);
}

/// Multiplied by `2^256`, the Montgomery product of `a` and `b` is congruent
/// to `a * b`.
pub proof fn lemma_product_times_radix(a: nat, b: nat)
    ensures
        (montgomery_product(a, b) * radix4()) % modulus() == (a * b) % modulus(),
{
    let p = modulus() as int;
    let r = radix4() as int;
    let ri = radix_inverse() as int;
    let k = 0x73f8_2f1d_0d83_41b2_e39a_9828_9906_2391_6586_864b_4c69_11b3_c2e1_f593_efff_ffffint;
    assert(r * ri == 1 + k * p);
    let ab = (a * b) as int;
    let x = ab * ri;
    lemma_fundamental_div_mod(x, p);
    let s = x / p;
    let mp = x % p;
    lemma_fundamental_div_mod(ab, p);
    let q = ab / p;
    let e = ab % p;
    assert(mp * r == (ab * k - s * r + q) * p + e) by (nonlinear_arith)
        requires
            x == ab * ri,
            x == p * s + mp,
            r * ri == 1 + k * p,
            ab == p * q + e,
    ;
    lemma_fundamental_div_mod_converse(mp * r, p, ab * k - s * r + q, e);
}

/// The Montgomery product of `a` and `b` is the only reduced value that,
/// multiplied by `2^256`, is congruent to `a * b`.
pub proof fn lemma_product_is_unique(a: nat, b: nat, r: nat)
    requires
        r < modulus(),
        (r * radix4()) % modulus() == (a * b) % modulus(),
    ensures
        r == montgomery_product(a, b),
{
    let p = modulus() as int;
    let x = (r * radix4()) as int;
    let ab = (a * b) as int;
    lemma_fundamental_div_mod(x, p);
    lemma_fundamental_div_mod(ab, p);
    let m = x / p - ab / p;
    assert(r * radix4() == a * b + m * p) by (nonlinear_arith)
        requires
            x == r * radix4(),
            ab == a * b,
            x == p * (x / p) + x % p,
            ab == p * (ab / p) + ab % p,
            x % p == ab % p,
            m == x / p - ab / p,
    ;
    lemma_exact_quotient_is_product(r as int, a, b, m);
    lemma_fundamental_div_mod_converse(r as int, p, 0, r as int);
}

/// Multiplying by `R`, the Montgomery form of one, changes nothing.
pub proof fn lemma_product_with_one(a: nat)
    requires
        a < modulus(),
    ensures
        montgomery_product(a, limbs_value(R)) == a,
        montgomery_product(limbs_value(R), a) == a,
{
    let one = limbs_value(R);
    assert(radix4() == one + 5 * modulus());
    assert(a * radix4() == a * one + (5 * a) * modulus()) by (nonlinear_arith)
        requires
            radix4() == one + 5 * modulus(),
    ;
    lemma_exact_quotient_is_product(a as int, a, one, 5 * (a as int));
    lemma_fundamental_div_mod_converse(a as int, modulus() as int, 0, a as int);
    lemma_product_commutes(a, one);
}

/// Multiplying by `R2` brings a value into Montgomery form: the product is
/// `a * 2^256 mod p`.
pub proof fn lemma_product_with_radix_squared(a: nat)
    ensures
        montgomery_product(a, limbs_value(R2)) == (a * radix4()) % modulus(),
{
    let p = modulus() as int;
    let r = radix4() as int;
    let sq = limbs_value(R2);
    let k2 = 0x0005_4a47_4626_23a0_4a7a_b074_a586_8073_0147_1448_5200_9e88_0ae6_2070_3a6b_e1de_9259int;
    assert(r * r == sq + k2 * p);
    let x = (a * radix4()) as int;
    lemma_fundamental_div_mod(x, p);
    let s = x / p;
    let e = x % p;
    assert(e * r == a * sq + (a * k2 - s * r) * p) by (nonlinear_arith)
        requires
            x == a * r,
            x == p * s + e,
            r * r == sq + k2 * p,
    ;
    lemma_exact_quotient_is_product(e, a, sq, a * k2 - s * r);
    lemma_fundamental_div_mod_converse(e, p, 0, e);
}

/// Montgomery multiplication is field multiplication on the elements that
/// the operands stand for.
pub proof fn lemma_product_is_field_product(a: nat, b: nat)
    ensures
        from_montgomery(montgomery_product(a, b)) == (from_montgomery(a) * from_montgomery(b))
            % modulus(),
{
    let p = modulus() as int;
    let ri = radix_inverse() as int;
    let x = (a * radix_inverse()) as int;
    let y = (b * radix_inverse()) as int;
    lemma_mul_mod_noop_general(x, y, p);
    assert(((x % p) * (y % p)) % p == (x * y) % p);
    lemma_mul_mod_noop_general((a * b) * ri, ri, p);
    assert(ri % p == ri);
    assert((((a * b) * ri) % p * ri) % p == (((a * b) * ri) * ri) % p);
    assert(((a * b) * ri) * ri == x * y) by (nonlinear_arith)
        requires
            x == a * ri,
            y == b * ri,
    ;
}

} // verus!
