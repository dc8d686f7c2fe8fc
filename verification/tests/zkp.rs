//! Tests of the proof engine on the toy group and on the fixed group.

use chaum_pederson_rust::ZKP;

/// The toy group of small numbers: alpha=4, beta=6, p=23, q=11.
fn toy_zkp() -> ZKP {
    ZKP { p: vec![23u8], q: vec![11u8], alpha: vec![4u8], beta: vec![6u8] }
}

#[test]
fn test_toy_example() {
    let alpha = vec![4u8];
    let beta = vec![6u8];
    let p = vec![23u8];
    let q = vec![11u8];
    let x = vec![6u8];
    let k = vec![7u8];
    let c = vec![4u8];
    let zkp = ZKP { p, q, alpha: alpha.clone(), beta: beta.clone() };

    let y1 = zkp.exponentiate(&alpha, &x);
    let y2 = zkp.exponentiate(&beta, &x);
    let r1 = zkp.exponentiate(&alpha, &k);
    let r2 = zkp.exponentiate(&beta, &k);

    let s = zkp.solve(&k, &c, &x);

    assert!(zkp.verify(&r1, &r2, &y1, &y2, &c, &s))
}

#[test]
fn test_toy_example_with_rand() {
    let alpha = vec![4u8];
    let beta = vec![6u8];
    let p = vec![23u8];
    let q = vec![11u8];
    let zkp = ZKP { p, q, alpha: alpha.clone(), beta: beta.clone() };
    let x = vec![6u8];
    let k = ZKP::generate_random_below(&zkp.q);
    let c = ZKP::generate_random_below(&zkp.q);

    let y1 = zkp.exponentiate(&alpha, &x);
    let y2 = zkp.exponentiate(&beta, &x);
    let r1 = zkp.exponentiate(&alpha, &k);
    let r2 = zkp.exponentiate(&beta, &k);

    let s = zkp.solve(&k, &c, &x);

    assert!(zkp.verify(&r1, &r2, &y1, &y2, &c, &s))
}

/// The concrete toy scenario, value by value: x=6, k=7, c=4 give
/// y1=2, y2=12, r1=8, r2=3 and s=5, and the proof verifies.
#[test]
fn toy_scenario_exact_values() {
    let zkp = toy_zkp();
    let x = vec![6u8];
    let k = vec![7u8];
    let c = vec![4u8];

    let y1 = zkp.exponentiate(&zkp.alpha, &x);
    let y2 = zkp.exponentiate(&zkp.beta, &x);
    let r1 = zkp.exponentiate(&zkp.alpha, &k);
    let r2 = zkp.exponentiate(&zkp.beta, &k);
    assert_eq!(y1, vec![2u8]);
    assert_eq!(y2, vec![12u8]);
    assert_eq!(r1, vec![8u8]);
    assert_eq!(r2, vec![3u8]);

    // 7 < 4 * 6, so s = 11 - ((24 - 7) mod 11) = 11 - 6 = 5.
    let s = zkp.solve(&k, &c, &x);
    assert_eq!(s, vec![5u8]);

    assert!(zkp.verify(&r1, &r2, &y1, &y2, &c, &s));
}

/// Every wrong response is rejected: in the toy group, adding any
/// nonzero amount modulo q to the correct s makes verify return false.
#[test]
fn toy_soundness_exhaustive() {
    let zkp = toy_zkp();
    let x = vec![6u8];
    let k = vec![7u8];
    let c = vec![4u8];

    let y1 = zkp.exponentiate(&zkp.alpha, &x);
    let y2 = zkp.exponentiate(&zkp.beta, &x);
    let r1 = zkp.exponentiate(&zkp.alpha, &k);
    let r2 = zkp.exponentiate(&zkp.beta, &k);
    let s = 5u8;

    for delta in 1..11u8 {
        let wrong = vec![(s + delta) % 11];
        assert!(!zkp.verify(&r1, &r2, &y1, &y2, &c, &wrong));
    }
}

/// The branch k >= c * x of the sign correction: the response is in
/// [0, q) and the proof verifies.
#[test]
fn solve_branch_without_correction() {
    let zkp = toy_zkp();
    let x = vec![2u8];
    let k = vec![9u8];
    let c = vec![3u8];

    // 9 >= 3 * 2, so s = (9 - 6) mod 11 = 3.
    let s = zkp.solve(&k, &c, &x);
    assert_eq!(s, vec![3u8]);

    let y1 = zkp.exponentiate(&zkp.alpha, &x);
    let y2 = zkp.exponentiate(&zkp.beta, &x);
    let r1 = zkp.exponentiate(&zkp.alpha, &k);
    let r2 = zkp.exponentiate(&zkp.beta, &k);
    assert!(zkp.verify(&r1, &r2, &y1, &y2, &c, &s));
}

/// The branch k < c * x of the sign correction: the response is in
/// [0, q) and the proof verifies.
#[test]
fn solve_branch_with_correction() {
    let zkp = toy_zkp();
    let x = vec![6u8];
    let k = vec![2u8];
    let c = vec![5u8];

    // 2 < 5 * 6, so s = 11 - ((30 - 2) mod 11) = 11 - 6 = 5.
    let s = zkp.solve(&k, &c, &x);
    assert_eq!(s, vec![5u8]);

    let y1 = zkp.exponentiate(&zkp.alpha, &x);
    let y2 = zkp.exponentiate(&zkp.beta, &x);
    let r1 = zkp.exponentiate(&zkp.alpha, &k);
    let r2 = zkp.exponentiate(&zkp.beta, &k);
    assert!(zkp.verify(&r1, &r2, &y1, &y2, &c, &s));
}

/// The corner of the sign correction: when k < c * x and q divides
/// c * x - k exactly, the response is 0, staying inside [0, q).
#[test]
fn solve_corner_returns_zero() {
    let zkp = toy_zkp();
    // c * x = 11 = q and k = 0: the corrected difference is a multiple of q.
    let k = vec![0u8];
    let c = vec![1u8];
    let x = vec![11u8];
    let s = zkp.solve(&k, &c, &x);
    assert_eq!(s, vec![0u8]);

    // Completeness still holds for this response.
    let y1 = zkp.exponentiate(&zkp.alpha, &x);
    let y2 = zkp.exponentiate(&zkp.beta, &x);
    let r1 = zkp.exponentiate(&zkp.alpha, &k);
    let r2 = zkp.exponentiate(&zkp.beta, &k);
    assert!(zkp.verify(&r1, &r2, &y1, &y2, &c, &s));
}

/// Exponentiation reduces modulo p: 4^6 mod 23 is 2, not 4096.
#[test]
fn exponentiate_reduces() {
    let zkp = toy_zkp();
    let r = zkp.exponentiate(&vec![4u8], &vec![6u8]);
    assert_eq!(r, vec![2u8]);
    let identity = zkp.exponentiate(&vec![4u8], &vec![0u8]);
    assert_eq!(identity, vec![1u8]);
}

/// The fixed group constants: sizes, leading bytes, and the documented
/// invariant that both generators have order q, so that a full protocol
/// round over the real group verifies.
#[test]
fn constants_and_full_group_round() {
    let (alpha, beta, p, q) = ZKP::get_constants();
    assert_eq!(p.len(), 128);
    assert_eq!(q.len(), 20);
    assert_eq!(alpha.len(), 128);
    assert_eq!(p[0], 0xB1);
    assert_eq!(p[127], 0x71);
    assert_eq!(q[0], 0xF5);
    assert_eq!(alpha[0], 0xA4);

    let zkp = ZKP { p, q, alpha, beta };

    // alpha^q mod p == 1 and beta^q mod p == 1.
    assert_eq!(zkp.exponentiate(&zkp.alpha, &zkp.q), vec![1u8]);
    assert_eq!(zkp.exponentiate(&zkp.beta, &zkp.q), vec![1u8]);

    // A complete round with a random commitment and challenge.
    let x = vec![0x13u8, 0x37];
    let k = ZKP::generate_random_below(&zkp.q);
    let c = ZKP::generate_random_below(&zkp.q);
    let y1 = zkp.exponentiate(&zkp.alpha, &x);
    let y2 = zkp.exponentiate(&zkp.beta, &x);
    let r1 = zkp.exponentiate(&zkp.alpha, &k);
    let r2 = zkp.exponentiate(&zkp.beta, &k);
    let s = zkp.solve(&k, &c, &x);
    assert!(zkp.verify(&r1, &r2, &y1, &y2, &c, &s));
    // A wrong secret does not verify.
    let s_bad = zkp.solve(&k, &c, &vec![0x13u8, 0x38]);
    assert!(!zkp.verify(&r1, &r2, &y1, &y2, &c, &s_bad));
}

/// Random strings have the requested length and are alphanumeric.
#[test]
fn random_string_shape() {
    let s = ZKP::generate_random_string(12);
    assert_eq!(s.chars().count(), 12);
    assert!(s.chars().all(|ch| ch.is_ascii_alphanumeric()));
    let empty = ZKP::generate_random_string(0);
    assert_eq!(empty.len(), 0);
}

/// Random values stay below the bound.
#[test]
fn random_below_stays_below() {
    for _ in 0..32 {
        let r = ZKP::generate_random_below(&vec![11u8]);
        assert_eq!(r.len(), 1);
        assert!(r[0] < 11);
    }
    // The only value below 1 is 0.
    let zero = ZKP::generate_random_below(&vec![1u8]);
    assert_eq!(zero, vec![0u8]);
}
