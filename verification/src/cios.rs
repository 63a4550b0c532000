//! Field elements in Montgomery form and their two multipliers.

use vstd::prelude::*;
use vstd::arithmetic::div_mod::lemma_fundamental_div_mod_converse;
use crate::bigint::{
    bigint_greater_eq, lemma_limbs_value_injective, limb_weight, limbs_low, limbs_value, radix4,
    sub_with_borrow,
};
use crate::entropy::{gen_word, thread_rng};
use crate::field::{lemma_modulus_limbs, modulus, INV, MODULUS};
use crate::limb::{adc, mac, macx, radix};
use crate::montgomery::{lemma_exact_quotient_is_product, lemma_zero_quotient, montgomery_product};

verus! {

/// An element of the BN254 scalar field in Montgomery form: four limbs, least
/// significant first, that hold `x * 2^256 mod p` for the element `x`.
#[derive(Debug, Clone)]
pub struct CIOS(pub [u64; 4]);

impl View for CIOS {
    type V = nat;

    /// The integer that the limbs stand for.
    open spec fn view(&self) -> nat {
        limbs_value(self.0)
    }
}

/// One step of a multiply-accumulate row keeps the row's running equation.
proof fn lemma_row_step(
    lo: int, hi: int, tj: int, x: int, yj: int, c: int,
    low_t: int, low_t0: int, low_y: int, w: int,
)
    requires
        lo + hi * radix() == tj + x * yj + c,
        low_t + c * w == low_t0 + x * low_y,
    ensures
        (low_t + lo * w) + hi * (w * radix()) == (low_t0 + tj * w) + x * (low_y + yj * w),
{
    assert((lo + hi * radix()) * w == lo * w + hi * (w * radix())) by (nonlinear_arith);
    assert((tj + x * yj + c) * w == tj * w + x * (yj * w) + c * w) by (nonlinear_arith);
    assert(x * (low_y + yj * w) == x * low_y + x * (yj * w)) by (nonlinear_arith);
}

/// Adding `m * p[0]` with `m = t0 * INV mod 2^64` clears the low limb.
proof fn lemma_reduction_word(t0: u64, m: u64, lo: u64, c: u64)
    requires
        m == (t0 as nat * INV as nat) % 0x1_0000_0000_0000_0000nat,
        lo + c * radix() == t0 + m * MODULUS[0],
    ensures
        lo == 0,
{
    let b = radix();
    let p_low = MODULUS[0] as int;
    let inv = INV as int;
    let q = (t0 as int * inv) / b;
    assert(t0 as int * inv == b * q + m) by {
        vstd::arithmetic::div_mod::lemma_fundamental_div_mod(t0 as int * inv, b);
    }
    let k0 = 0x33ad26d16d505edeint;
    assert(inv * p_low + 1 == k0 * b);
    assert(t0 + m * p_low == b * (t0 * k0 - q * p_low)) by (nonlinear_arith)
        requires
            t0 as int * inv == b * q + m,
            inv * p_low + 1 == k0 * b,
    ;
    let z = t0 * k0 - q * p_low - c;
    assert(lo == b * z) by (nonlinear_arith)
        requires
            lo + c * b == b * (t0 * k0 - q * p_low),
            z == t0 * k0 - q * p_low - c,
    ;
    assert(z == 0) by (nonlinear_arith)
        requires
            lo == b * z,
            0 <= lo < b,
            b > 0,
    ;
}

/// One round turns `acc * w == low_a * b + q * p` into the same equation one
/// limb further on.
proof fn lemma_round_scaled(
    acc: int, next: int, x: int, b: int, m: int, p: int, low_a: int, q: int, w: int,
)
    requires
        next * radix() == acc + x * b + m * p,
        acc * w == low_a * b + q * p,
        0 <= q < w,
        0 <= m < radix(),
    ensures
        next * (w * radix()) == (low_a + x * w) * b + (q + m * w) * p,
        0 <= q + m * w < w * radix(),
{
    assert(next * (w * radix()) == (next * radix()) * w) by (nonlinear_arith);
    assert((acc + x * b + m * p) * w == acc * w + (x * w) * b + (m * w) * p) by (nonlinear_arith);
    assert((low_a + x * w) * b + (q + m * w) * p == low_a * b + q * p + (x * w) * b + (m * w) * p)
        by (nonlinear_arith);
    assert(0 <= m * w <= (radix() - 1) * w) by (nonlinear_arith)
        requires
            0 <= m <= radix() - 1,
            0 <= w,
    ;
    assert((radix() - 1) * w + w == w * radix()) by (nonlinear_arith);
}

/// An accumulator with `acc * 2^256 == a * b + q * p`, `a` and `q` below
/// `2^256`, is below `b + p`.
proof fn lemma_accumulator_bound(acc: int, a: int, b: int, q: int, p: int)
    requires
        acc * radix4() == a * b + q * p,
        0 <= a < radix4(),
        0 <= q < radix4(),
        0 <= b,
        0 < p,
    ensures
        acc < b + p,
{
    let r = radix4() as int;
    assert(a * b <= (r - 1) * b) by (nonlinear_arith)
        requires
            0 <= a <= r - 1,
            0 <= b,
    ;
    assert(q * p <= (r - 1) * p) by (nonlinear_arith)
        requires
            0 <= q <= r - 1,
            0 <= p,
    ;
    assert((r - 1) * b + (r - 1) * p < r * (b + p)) by (nonlinear_arith)
        requires
            0 <= b,
            0 < p,
    ;
    assert(acc < b + p) by (nonlinear_arith)
        requires
            acc * r < r * (b + p),
            r > 0,
    ;
}

/// One round keeps the accumulator below `a + p`.
proof fn lemma_round_bound(acc: int, next: int, x: int, a: int, m: int, p: int)
    requires
        next * radix() == acc + x * a + m * p,
        0 <= x < radix(),
        0 <= m < radix(),
        0 <= a,
        0 < p,
        acc < a + p,
    ensures
        next < a + p,
{
    let b = radix();
    assert(x * a <= (b - 1) * a) by (nonlinear_arith)
        requires
            0 <= x <= b - 1,
            0 <= a,
    ;
    assert(m * p <= (b - 1) * p) by (nonlinear_arith)
        requires
            0 <= m <= b - 1,
            0 <= p,
    ;
    assert(next < a + p) by (nonlinear_arith)
        requires
            next * b < b * (a + p),
            b > 0,
    ;
}

/// On reduced operands the standard and the carry-saving multiplier return
/// the same limbs: what each ensures of its result leaves one array only.
pub proof fn lemma_variants_agree(a: CIOS, b: CIOS, standard: CIOS, carry_saving: CIOS)
    requires
        a.is_reduced(),
        b.is_reduced(),
        standard@ == montgomery_product(a@, b@),
        carry_saving@ == montgomery_product(a@, b@),
    ensures
        standard == carry_saving,
{
    lemma_limbs_value_injective(standard.0, carry_saving.0);
}

impl CIOS {
    /// True iff the value is below the modulus, as every operand and every
    /// result of a multiplier is.
    pub open spec fn is_reduced(&self) -> bool {
        self@ < modulus()
    }

    /// Montgomery multiplication by coarsely integrated operand scanning:
    /// each of the four rounds adds one limb of `self` times `rhs` to the
    /// accumulator, then a multiple of the modulus that clears the low limb,
    /// and drops that limb.
    pub fn mul(&self, rhs: &Self) -> (r: Self)
        ensures
            rhs.is_reduced() ==> r.is_reduced() && r@ == montgomery_product(self@, rhs@),
            self@ == 0 || rhs@ == 0 ==> r@ == 0,
    {
        let mut t: [u64; 4] = [0u64; 4];
        let mut c1: u64 = 0;
        // The multiple of the modulus added so far, limb by limb.
        let ghost mut quot: int = 0;
        for i in 0..4usize
            invariant
                c1 <= 2,
                0 <= quot < limb_weight(i as int),
                (limbs_value(t) + c1 * radix4()) * limb_weight(i as int) == limbs_low(
                    self.0@,
                    i as int,
                ) * limbs_value(rhs.0) + quot * modulus(),
        {
            // t += self[i] * rhs, with the carry out of the top limb in c.
            let ghost t0 = t;
            let mut c: u64 = 0;
            for j in 0..4usize
                invariant
                    i < 4,
                    limbs_low(t@, j as int) + c * limb_weight(j as int) == limbs_low(
                        t0@,
                        j as int,
                    ) + self.0[i as int] * limbs_low(rhs.0@, j as int),
                    forall|k: int| j <= k < 4 ==> t[k] == t0[k],
            {
                let ghost low_t = limbs_low(t@, j as int);
                let ghost carry_in = c;
                let (lo, hi) = mac(t[j], self.0[i], rhs.0[j], c);
                t[j] = lo;
                c = hi;
                proof {
                    lemma_row_step(
                        lo as int,
                        hi as int,
                        t0[j as int] as int,
                        self.0[i as int] as int,
                        rhs.0[j as int] as int,
                        carry_in as int,
                        low_t,
                        limbs_low(t0@, j as int),
                        limbs_low(rhs.0@, j as int),
                        limb_weight(j as int),
                    );
                }
            }
            let ghost t1 = t;
            let ghost c_row = c;
            let (s1, c2) = adc(c1, c, 0);

            // t = (t + m * p) / 2^64: the low limb of the sum is zero.
            let m: u64 = t[0].wrapping_mul(INV);
            let (lo0, carry0) = macx(t[0], m, MODULUS[0]);
            proof {
                lemma_reduction_word(t[0], m, lo0, carry0);
            }
            c = carry0;
            for j in 1..4usize
                invariant
                    limbs_low(t@, j - 1) * radix() + c * limb_weight(j as int) == limbs_low(
                        t1@,
                        j as int,
                    ) + m * limbs_low(MODULUS@, j as int),
                    forall|k: int| j <= k < 4 ==> t[k] == t1[k],
            {
                let ghost low_t = limbs_low(t@, j - 1);
                let ghost carry_in = c;
                let (lo, hi) = mac(t[j], m, MODULUS[j], c);
                t[j - 1] = lo;
                c = hi;
                proof {
                    lemma_row_step(
                        lo as int,
                        hi as int,
                        t1[j as int] as int,
                        m as int,
                        MODULUS[j as int] as int,
                        carry_in as int,
                        low_t * radix(),
                        limbs_low(t1@, j as int),
                        limbs_low(MODULUS@, j as int),
                        limb_weight(j as int),
                    );
                    assert(lo * limb_weight(j as int) == (lo * limb_weight(j - 1)) * radix()) by {
                        if j == 1 {
                        } else if j == 2 {
                        } else {
                        }
                    }
                }
            }
            let (top, c3) = adc(s1, c, 0);
            t[3] = top;
            let ghost acc = limbs_value(t0) + c1 * radix4();
            c1 = c2 + c3;
            proof {
                lemma_modulus_limbs();
                let next = limbs_value(t) + c1 * radix4();
                assert(limbs_value(t1) + c_row * radix4() == limbs_value(t0) + self.0[i as int]
                    * limbs_value(rhs.0));
                assert(limbs_low(t@, 3) * radix() + c * radix4() == limbs_value(t1) + m
                    * modulus());
                lemma_round_scaled(
                    acc,
                    next,
                    self.0[i as int] as int,
                    limbs_value(rhs.0) as int,
                    m as int,
                    modulus() as int,
                    limbs_low(self.0@, i as int),
                    quot,
                    limb_weight(i as int),
                );
                quot = quot + m * limb_weight(i as int);
            }
        }

        proof {
            lemma_modulus_limbs();
            let acc = limbs_value(t) + c1 * radix4();
            if rhs.is_reduced() {
                lemma_accumulator_bound(acc, self@ as int, rhs@ as int, quot, modulus() as int);
                lemma_exact_quotient_is_product(acc, self@, rhs@, quot);
            }
            if self@ == 0 || rhs@ == 0 {
                assert(self@ * rhs@ == 0) by (nonlinear_arith)
                    requires
                        self@ == 0 || rhs@ == 0,
                ;
                lemma_zero_quotient(acc, quot);
            }
        }
        let ghost before = limbs_value(t);
        Self::sub_mod_if_big(&mut t);
        proof {
            if rhs.is_reduced() {
                let s: int = if before >= modulus() { 1 } else { 0 };
                lemma_fundamental_div_mod_converse(
                    before as int,
                    modulus() as int,
                    s,
                    limbs_value(t) as int,
                );
            }
        }
        CIOS(t)
    }

    /// Montgomery multiplication with the carry-saving schedule: the two top
    /// carries of a round, that of the multiply-accumulate row and that of the
    /// reduction row, are added into one limb. The sum fits because twice the
    /// modulus is below `2^255`, which keeps the accumulator within four limbs.
    pub fn mul_edmsm(self, rhs: &Self) -> (r: Self)
        requires
            self.is_reduced(),
        ensures
            r.is_reduced(),
            r@ == montgomery_product(self@, rhs@),
    {
        let mut t: [u64; 5] = [0u64; 5];
        // The multiple of the modulus added so far, limb by limb.
        let ghost mut quot: int = 0;
        assert(limb_weight(0) == 1);
        for i in 0..4usize
            invariant
                self.is_reduced(),
                0 <= quot < limb_weight(i as int),
                limbs_low(t@, 4) * limb_weight(i as int) == limbs_low(rhs.0@, i as int)
                    * limbs_value(self.0) + quot * modulus(),
                limbs_low(t@, 4) < limbs_value(self.0) + modulus(),
        {
            // t += self * rhs[i], with the carry out of the fourth limb in t[4].
            let ghost t0 = t;
            let mut c: u64 = 0;
            for j in 0..4usize
                invariant
                    i < 4,
                    limbs_low(t@, j as int) + c * limb_weight(j as int) == limbs_low(
                        t0@,
                        j as int,
                    ) + rhs.0[i as int] * limbs_low(self.0@, j as int),
                    forall|k: int| j <= k < 4 ==> t[k] == t0[k],
            {
                let ghost low_t = limbs_low(t@, j as int);
                let ghost carry_in = c;
                let (lo, hi) = mac(t[j], self.0[j], rhs.0[i], c);
                t[j] = lo;
                c = hi;
                proof {
                    assert(self.0[j as int] * rhs.0[i as int] == rhs.0[i as int] * self.0[j as int])
                        by (nonlinear_arith);
                    lemma_row_step(
                        lo as int,
                        hi as int,
                        t0[j as int] as int,
                        rhs.0[i as int] as int,
                        self.0[j as int] as int,
                        carry_in as int,
                        low_t,
                        limbs_low(t0@, j as int),
                        limbs_low(self.0@, j as int),
                        limb_weight(j as int),
                    );
                }
            }
            t[4] = c;
            let ghost t1 = t;

            // t = (t + m * p) / 2^64: the low limb of the sum is zero.
            let m: u64 = t[0].wrapping_mul(INV);
            let (lo0, carry0) = macx(t[0], m, MODULUS[0]);
            proof {
                lemma_reduction_word(t[0], m, lo0, carry0);
            }
            c = carry0;
            for j in 1..4usize
                invariant
                    limbs_low(t@, j - 1) * radix() + c * limb_weight(j as int) == limbs_low(
                        t1@,
                        j as int,
                    ) + m * limbs_low(MODULUS@, j as int),
                    forall|k: int| j <= k < 5 ==> t[k] == t1[k],
            {
                let ghost low_t = limbs_low(t@, j - 1);
                let ghost carry_in = c;
                let (lo, hi) = mac(t[j], m, MODULUS[j], c);
                t[j - 1] = lo;
                c = hi;
                proof {
                    lemma_row_step(
                        lo as int,
                        hi as int,
                        t1[j as int] as int,
                        m as int,
                        MODULUS[j as int] as int,
                        carry_in as int,
                        low_t * radix(),
                        limbs_low(t1@, j as int),
                        limbs_low(MODULUS@, j as int),
                        limb_weight(j as int),
                    );
                    assert(lo * limb_weight(j as int) == (lo * limb_weight(j - 1)) * radix()) by {
                        if j == 1 {
                        } else if j == 2 {
                        } else {
                        }
                    }
                }
            }
            proof {
                lemma_modulus_limbs();
                let acc = limbs_low(t0@, 4);
                let next = limbs_low(t@, 3) + (t[4] + c) * limb_weight(3);
                assert(limbs_low(t1@, 4) + t[4] * radix4() == acc + rhs.0[i as int] * limbs_value(
                    self.0,
                ));
                assert(limbs_low(t@, 3) * radix() + c * radix4() == limbs_low(t1@, 4) + m
                    * modulus());
                lemma_round_bound(
                    acc,
                    next,
                    rhs.0[i as int] as int,
                    limbs_value(self.0) as int,
                    m as int,
                    modulus() as int,
                );
                lemma_round_scaled(
                    acc,
                    next,
                    rhs.0[i as int] as int,
                    limbs_value(self.0) as int,
                    m as int,
                    modulus() as int,
                    limbs_low(rhs.0@, i as int),
                    quot,
                    limb_weight(i as int),
                );
                quot = quot + m * limb_weight(i as int);
            }
            t[3] = t[4] + c;
        }
        t[4] = 0;

        let mut trunc_t: [u64; 4] = [t[0], t[1], t[2], t[3]];
        proof {
            let acc = limbs_value(trunc_t) as int;
            assert(self@ * rhs@ == rhs@ * self@) by (nonlinear_arith);
            lemma_exact_quotient_is_product(acc, self@, rhs@, quot);
        }
        let ghost before = limbs_value(trunc_t);
        Self::sub_mod_if_big(&mut trunc_t);
        proof {
            let s: int = if before >= modulus() { 1 } else { 0 };
            lemma_fundamental_div_mod_converse(
                before as int,
                modulus() as int,
                s,
                limbs_value(trunc_t) as int,
            );
        }
        CIOS(trunc_t)
    }

    /// Draws four limbs from the thread-local random generator. The value is
    /// not reduced: it can be anything below `2^256`, the modulus and above
    /// included.
    pub fn rand() -> Self {
        let mut rng = thread_rng();
        let w0: u64 = gen_word(&mut rng);
        let w1: u64 = gen_word(&mut rng);
        let w2: u64 = gen_word(&mut rng);
        let w3: u64 = gen_word(&mut rng);
        Self::from_words(w0, w1, w2, w3)
    }

    /// The element whose limbs are the four words, `w0` the least significant.
    /// The words are taken as they are: nothing is reduced.
    pub fn from_words(w0: u64, w1: u64, w2: u64, w3: u64) -> (r: Self)
        ensures
            r.0@ == seq![w0, w1, w2, w3],
            r@ == w0 + w1 * limb_weight(1) + w2 * limb_weight(2) + w3 * limb_weight(3),
    {
        let r = CIOS([w0, w1, w2, w3]);
        assert(r.0@ =~= seq![w0, w1, w2, w3]);
        r
    }

    /// Subtracts the modulus from `a` if `a` is not below it, and leaves `a`
    /// as it is otherwise. One call reduces any value below twice the modulus.
    pub fn sub_mod_if_big(a: &mut [u64; 4])
        ensures
            limbs_value(*final(a)) == if limbs_value(*old(a)) >= modulus() {
                limbs_value(*old(a)) - modulus()
            } else {
                limbs_value(*old(a)) as int
            },
    {
        proof {
            lemma_modulus_limbs();
        }
        if bigint_greater_eq(a, &MODULUS) {
            sub_with_borrow(a, &MODULUS);
        }
    }
}

} // verus!
