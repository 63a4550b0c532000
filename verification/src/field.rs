//! The BN254 scalar field: its modulus and its Montgomery constants.

use vstd::prelude::*;
use crate::bigint::{limbs_value, radix4};
use crate::limb::radix;

verus! {

/// The prime `p`, least significant limb first.
pub const MODULUS: [u64; 4] = [
    4891460686036598785u64,
    2896914383306846353u64,
    13281191951274694749u64,
    3486998266802970665u64,
];

/// `-p^{-1} mod 2^64`.
pub const INV: u64 = 0xc2e1f593efffffff;

/// `R = 2^256 mod p`, the Montgomery form of one.
pub const R: [u64; 4] = [
    0xac96341c4ffffffb,
    0x36fc76959f60cd29,
    0x666ea36f7879462e,
    0x0e0a77c19a07df2f,
];

/// `R^2 = 2^512 mod p`.
pub const R2: [u64; 4] = [
    0x1bb8e645ae216da7,
    0x53fe3ab1e35c59e3,
    0x8c49833d53bb8085,
    0x0216d0b17f4e44a5,
];

/// `R^3 = 2^768 mod p`.
pub const R3: [u64; 4] = [
    0x5e94d8e1b4bf0040,
    0x2a489cbe1cfbb6b8,
    0x893cc664a19fcfed,
    0x0cf8594b7fcc657c,
];

/// The prime `p` as an integer.
pub open spec fn modulus() -> nat {
    0x3064_4e72_e131_a029_b850_45b6_8181_585d_2833_e848_79b9_7091_43e1_f593_f000_0001nat
}

/// The inverse of `2^256` modulo `p`.
pub open spec fn radix_inverse() -> nat {
    0x15eb_f951_82c5_551c_c826_0de4_aeb8_5d5d_090e_f5a9_e111_ec87_dc5b_a005_6db1_194enat
}

/// `MODULUS` holds the limbs of `p`.
pub proof fn lemma_modulus_limbs()
    ensures
        limbs_value(MODULUS) == modulus(),
        MODULUS[0] == 0x43e1f593f0000001,
        MODULUS[1] == 0x2833e84879b97091,
        MODULUS[2] == 0xb85045b68181585d,
        MODULUS[3] == 0x30644e72e131a029,
{
}

/// `p * INV` is `-1` modulo `2^64`.
pub proof fn lemma_inv()
    ensures
        (MODULUS[0] * INV + 1) % radix() == 0,
        (modulus() * INV + 1) % radix() == 0,
{
}

/// `radix_inverse()` inverts `2^256` modulo `p`.
pub proof fn lemma_radix_inverse()
    ensures
        (radix4() * radix_inverse()) % modulus() == 1,
        0 < radix_inverse() < modulus(),
{
}

/// `R`, `R2` and `R3` hold the first three powers of `2^256` modulo `p`.
pub proof fn lemma_montgomery_constants()
    ensures
        limbs_value(R) == radix4() % modulus(),
        limbs_value(R2) == (radix4() * radix4()) % modulus(),
        limbs_value(R3) == (radix4() * radix4() * radix4()) % modulus(),
{
}

} // verus!
