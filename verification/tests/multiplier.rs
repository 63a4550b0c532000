use ark_bn254::Fr;
use ark_ff::BigInt;
use num_bigint::BigUint;
use speedy_fields::field::{INV, MODULUS, R, R2, R3};
use speedy_fields::CIOS;

const MAX: u64 = u64::MAX;

const P_MINUS_ONE: [u64; 4] =
    [0x43e1f593f0000000, 0x2833e84879b97091, 0xb85045b68181585d, 0x30644e72e131a029];

fn to_big(limbs: &[u64; 4]) -> BigUint {
    let mut bytes: Vec<u8> = Vec::new();
    for limb in limbs {
        bytes.extend_from_slice(&limb.to_le_bytes());
    }
    BigUint::from_bytes_le(&bytes)
}

fn from_big(x: &BigUint) -> [u64; 4] {
    let digits = x.to_u64_digits();
    assert!(digits.len() <= 4);
    let mut limbs = [0u64; 4];
    for (i, d) in digits.iter().enumerate() {
        limbs[i] = *d;
    }
    limbs
}

fn modulus() -> BigUint {
    to_big(&MODULUS)
}

/// a * b * 2^(-256) mod p, by big-integer arithmetic.
fn montgomery_product(a: &[u64; 4], b: &[u64; 4]) -> [u64; 4] {
    let p = modulus();
    let radix: BigUint = (BigUint::from(1u8) << 256) % &p;
    let radix_inverse = radix.modpow(&(&p - BigUint::from(2u8)), &p);
    from_big(&((to_big(a) * to_big(b) * radix_inverse) % &p))
}

/// The product that arkworks computes from the same Montgomery forms.
fn ark_product(a: &[u64; 4], b: &[u64; 4]) -> [u64; 4] {
    let x = Fr::new_unchecked(BigInt::new(*a));
    let y = Fr::new_unchecked(BigInt::new(*b));
    let z = x * y;
    z.0 .0
}

fn next_word(state: &mut u64) -> u64 {
    *state = state.wrapping_add(0x9e3779b97f4a7c15);
    let mut z = *state;
    z = (z ^ (z >> 30)).wrapping_mul(0xbf58476d1ce4e5b9);
    z = (z ^ (z >> 27)).wrapping_mul(0x94d049bb133111eb);
    z ^ (z >> 31)
}

fn next_limbs(state: &mut u64) -> [u64; 4] {
    [next_word(state), next_word(state), next_word(state), next_word(state)]
}

fn next_reduced(state: &mut u64) -> [u64; 4] {
    from_big(&(to_big(&next_limbs(state)) % modulus()))
}

fn is_reduced(a: &[u64; 4]) -> bool {
    to_big(a) < modulus()
}

#[test]
fn constants_are_what_they_are_named() {
    let p = modulus();
    let radix: BigUint = BigUint::from(1u8) << 256;
    assert_eq!(to_big(&R), &radix % &p);
    assert_eq!(to_big(&R2), (&radix * &radix) % &p);
    assert_eq!(to_big(&R3), (&radix * &radix * &radix) % &p);
    assert_eq!(MODULUS[0].wrapping_mul(INV), MAX);
}

#[test]
fn product_of_small_operands() {
    let r = CIOS([2, 0, 0, 0]).mul(&CIOS([3, 0, 0, 0]));
    assert_eq!(
        r.0,
        [0xa261d4f8b22697d2, 0xe5f1f16a52f8aa0c, 0x4043c7ef154f7f73, 0x22bf3b034e3cbe59]
    );
    let s = CIOS([2, 0, 0, 0]).mul_edmsm(&CIOS([3, 0, 0, 0]));
    assert_eq!(
        s.0,
        [0xa261d4f8b22697d2, 0xe5f1f16a52f8aa0c, 0x4043c7ef154f7f73, 0x22bf3b034e3cbe59]
    );
}

#[test]
fn product_of_montgomery_forms_is_the_form_of_the_product() {
    // 5 * 7 = 35, each in Montgomery form
    let five = CIOS([0x1b0d0ef99fffffe6, 0xeaba68a3a32a913f, 0x47d8eb76d8dd0689, 0x15d0085520f5bbc3]);
    let seven =
        CIOS([0x3057819e4fffffdb, 0x307f6d866832bb01, 0x5c65ec9f484e3a89, 0x0180a96573d3d9f8]);
    let thirty_five: [u64; 4] =
        [0xf1b588178fffff47, 0xf27d23a008fda705, 0xcdfd9f1c698724ad, 0x07834efb432341d9];
    assert_eq!(five.mul(&seven).0, thirty_five);
    assert_eq!(five.mul_edmsm(&seven).0, thirty_five);
    assert_eq!(Fr::from(35u64).0 .0, thirty_five);
}

#[test]
fn product_of_fixed_operands() {
    let x: [u64; 4] =
        [0x1122334455667788, 0x0f1e2d3c4b5a6978, 0xfedcba9876543210, 0x0123456789abcdef];
    let y: [u64; 4] =
        [0x5152535455565758, 0x4142434445464748, 0x3233343536373839, 0x2a2b2c2d2e2f3031];
    let expected: [u64; 4] =
        [0x7b5ff77c04c74bf7, 0xf62372da556e7b40, 0x0d7e2a0d885994b0, 0x08fb4fdd79661deb];
    assert_eq!(CIOS(x).mul(&CIOS(y)).0, expected);
    assert_eq!(CIOS(x).mul_edmsm(&CIOS(y)).0, expected);
}

#[test]
fn results_are_reduced() {
    let mut state: u64 = 10;
    for _ in 0..2000 {
        let a = next_reduced(&mut state);
        let b = next_reduced(&mut state);
        assert!(is_reduced(&CIOS(a).mul(&CIOS(b)).0));
        assert!(is_reduced(&CIOS(a).mul_edmsm(&CIOS(b)).0));
    }
}

#[test]
fn standard_multiplier_matches_arkworks() {
    let mut state: u64 = 11;
    for _ in 0..2000 {
        let a = next_reduced(&mut state);
        let b = next_reduced(&mut state);
        assert_eq!(CIOS(a).mul(&CIOS(b)).0, ark_product(&a, &b));
    }
}

#[test]
fn carry_saving_multiplier_matches_arkworks() {
    let mut state: u64 = 12;
    for _ in 0..2000 {
        let a = next_reduced(&mut state);
        let b = next_reduced(&mut state);
        assert_eq!(CIOS(a).mul_edmsm(&CIOS(b)).0, ark_product(&a, &b));
    }
}

#[test]
fn multipliers_match_big_integer_arithmetic() {
    let mut state: u64 = 13;
    for _ in 0..500 {
        let a = next_reduced(&mut state);
        let b = next_reduced(&mut state);
        let expected = montgomery_product(&a, &b);
        assert_eq!(CIOS(a).mul(&CIOS(b)).0, expected);
        assert_eq!(CIOS(a).mul_edmsm(&CIOS(b)).0, expected);
    }
}

#[test]
fn the_two_multipliers_agree() {
    let mut state: u64 = 14;
    for _ in 0..5000 {
        let a = next_reduced(&mut state);
        let b = next_reduced(&mut state);
        assert_eq!(CIOS(a).mul(&CIOS(b)).0, CIOS(a).mul_edmsm(&CIOS(b)).0);
    }
}

#[test]
fn multiplying_by_the_form_of_one_changes_nothing() {
    let mut state: u64 = 15;
    for _ in 0..1000 {
        let a = next_reduced(&mut state);
        assert_eq!(CIOS(a).mul(&CIOS(R)).0, a);
        assert_eq!(CIOS(R).mul(&CIOS(a)).0, a);
        assert_eq!(CIOS(a).mul_edmsm(&CIOS(R)).0, a);
        assert_eq!(CIOS(R).mul_edmsm(&CIOS(a)).0, a);
    }
    assert_eq!(CIOS(P_MINUS_ONE).mul(&CIOS(R)).0, P_MINUS_ONE);
    assert_eq!(CIOS([0, 0, 0, 0]).mul(&CIOS(R)).0, [0, 0, 0, 0]);
}

#[test]
fn multiplying_by_r2_converts_to_montgomery_form() {
    assert_eq!(CIOS([1, 0, 0, 0]).mul(&CIOS(R2)).0, R);
    assert_eq!(CIOS(R).mul(&CIOS(R2)).0, R2);
    assert_eq!(CIOS(R2).mul(&CIOS(R2)).0, R3);
    assert_eq!(CIOS([5, 0, 0, 0]).mul(&CIOS(R2)).0, Fr::from(5u64).0 .0);
    assert_eq!(CIOS([5, 0, 0, 0]).mul_edmsm(&CIOS(R2)).0, Fr::from(5u64).0 .0);
    // and multiplying a Montgomery form by plain one converts back
    assert_eq!(CIOS(Fr::from(5u64).0 .0).mul(&CIOS([1, 0, 0, 0])).0, [5, 0, 0, 0]);
}

#[test]
fn multiplication_commutes() {
    let mut state: u64 = 16;
    for _ in 0..2000 {
        let a = next_reduced(&mut state);
        let b = next_reduced(&mut state);
        assert_eq!(CIOS(a).mul(&CIOS(b)).0, CIOS(b).mul(&CIOS(a)).0);
        assert_eq!(CIOS(a).mul_edmsm(&CIOS(b)).0, CIOS(b).mul_edmsm(&CIOS(a)).0);
    }
}

#[test]
fn largest_operands_reduce_correctly() {
    // (p - 1)^2 = 1 mod p, so the product is 2^(-256) mod p
    let expected: [u64; 4] =
        [0xdc5ba0056db1194e, 0x090ef5a9e111ec87, 0xc8260de4aeb85d5d, 0x15ebf95182c5551c];
    assert_eq!(CIOS(P_MINUS_ONE).mul(&CIOS(P_MINUS_ONE)).0, expected);
    assert_eq!(CIOS(P_MINUS_ONE).mul_edmsm(&CIOS(P_MINUS_ONE)).0, expected);
    assert_eq!(ark_product(&P_MINUS_ONE, &P_MINUS_ONE), expected);
    assert_eq!(montgomery_product(&P_MINUS_ONE, &P_MINUS_ONE), expected);
}

#[test]
fn zero_times_anything_is_zero() {
    let zero: [u64; 4] = [0, 0, 0, 0];
    let mut state: u64 = 17;
    for _ in 0..500 {
        let x = next_reduced(&mut state);
        assert_eq!(CIOS(zero).mul(&CIOS(x)).0, zero);
        assert_eq!(CIOS(x).mul(&CIOS(zero)).0, zero);
        assert_eq!(CIOS(zero).mul_edmsm(&CIOS(x)).0, zero);
        assert_eq!(CIOS(x).mul_edmsm(&CIOS(zero)).0, zero);
        // the standard multiplier gives zero on operands that are not reduced too
        let wild = next_limbs(&mut state);
        assert_eq!(CIOS(zero).mul(&CIOS(wild)).0, zero);
        assert_eq!(CIOS(wild).mul(&CIOS(zero)).0, zero);
    }
    assert_eq!(CIOS(zero).mul(&CIOS(zero)).0, zero);
    assert_eq!(CIOS(zero).mul(&CIOS([MAX, MAX, MAX, MAX])).0, zero);
}

#[test]
fn long_carry_chains_are_not_truncated() {
    // all low limbs full, top limb as large as the modulus allows
    let a: [u64; 4] = [MAX, MAX, MAX, 0x30644e72e131a028];
    let b: [u64; 4] = [MAX, MAX, MAX, 0x30644e72e131a027];
    let aa: [u64; 4] =
        [0x8aa9383ab953a2ac, 0x1c3ea73d64dd1348, 0xac1b8f9485493430, 0x108002779e6e17b6];
    let ab: [u64; 4] =
        [0x7405c2faacea90f8, 0xbe524cb396603584, 0x763febda9a8b663d, 0x04f26e0cb4e70691];
    assert_eq!(CIOS(a).mul(&CIOS(a)).0, aa);
    assert_eq!(CIOS(a).mul_edmsm(&CIOS(a)).0, aa);
    assert_eq!(montgomery_product(&a, &a), aa);
    assert_eq!(CIOS(a).mul(&CIOS(b)).0, ab);
    assert_eq!(CIOS(a).mul_edmsm(&CIOS(b)).0, ab);
    assert_eq!(montgomery_product(&a, &b), ab);

    // operands with full limbs in some places and empty ones in others
    let patterns: [[u64; 4]; 6] = [
        [MAX, 0, MAX, 0],
        [0, MAX, 0, 0x30644e72e131a028],
        [MAX, MAX, 0, 0],
        [0, 0, MAX, 0x30644e72e131a028],
        [MAX, 0, 0, 0],
        [1, 0, 0, 0x30644e72e131a029],
    ];
    for x in patterns {
        for y in patterns {
            assert!(is_reduced(&x) && is_reduced(&y));
            let expected = montgomery_product(&x, &y);
            assert_eq!(CIOS(x).mul(&CIOS(y)).0, expected);
            assert_eq!(CIOS(x).mul_edmsm(&CIOS(y)).0, expected);
            assert_eq!(ark_product(&x, &y), expected);
        }
    }
}

#[test]
fn standard_multiplier_needs_only_a_reduced_right_operand() {
    let y: [u64; 4] =
        [0x5152535455565758, 0x4142434445464748, 0x3233343536373839, 0x2a2b2c2d2e2f3031];
    let expected: [u64; 4] =
        [0x45d69175eaab9327, 0x80cc519327fe6c58, 0x4281a9a3a062de6c, 0x29152bca1ee70bd8];
    assert_eq!(CIOS([MAX, MAX, MAX, MAX]).mul(&CIOS(y)).0, expected);
    let mut state: u64 = 18;
    for _ in 0..1000 {
        let a = next_limbs(&mut state);
        let b = next_reduced(&mut state);
        assert_eq!(CIOS(a).mul(&CIOS(b)).0, montgomery_product(&a, &b));
    }
}

#[test]
fn carry_saving_multiplier_needs_only_a_reduced_left_operand() {
    let mut state: u64 = 19;
    for _ in 0..1000 {
        let a = next_reduced(&mut state);
        let b = next_limbs(&mut state);
        assert_eq!(CIOS(a).mul_edmsm(&CIOS(b)).0, montgomery_product(&a, &b));
    }
}

#[test]
fn operands_are_left_as_they_were() {
    let a = CIOS([1, 2, 3, 4]);
    let b = CIOS([5, 6, 7, 8]);
    let _ = a.mul(&b);
    assert_eq!(a.0, [1, 2, 3, 4]);
    assert_eq!(b.0, [5, 6, 7, 8]);
    let kept = a.clone();
    let _ = a.mul_edmsm(&b);
    assert_eq!(kept.0, [1, 2, 3, 4]);
    assert_eq!(b.0, [5, 6, 7, 8]);
}

#[test]
fn random_elements_vary() {
    let first = CIOS::rand();
    let mut differs = false;
    let mut top_bit_seen = false;
    for _ in 0..64 {
        let next = CIOS::rand();
        if next.0 != first.0 {
            differs = true;
        }
        if next.0[3] >> 63 == 1 {
            top_bit_seen = true;
        }
    }
    assert!(differs);
    // no reduction is applied: values at and above 2^255 come out as well
    assert!(top_bit_seen);
}

#[test]
fn words_become_limbs_in_order() {
    let a = CIOS::from_words(1, 2, 3, 4);
    assert_eq!(a.0, [1, 2, 3, 4]);
    let top = CIOS::from_words(MAX, MAX, MAX, MAX);
    assert_eq!(top.0, [MAX, MAX, MAX, MAX]);
    assert_eq!(to_big(&CIOS::from_words(0, 0, 0, 1).0), BigUint::from(1u8) << 192);
}
