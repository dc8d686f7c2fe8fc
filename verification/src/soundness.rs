//! Soundness of verification, spot-checked over the small example group.
//!
//! Soundness of the protocol at large rests on the hardness of the
//! discrete logarithm, which no arithmetic theorem can supply.  Over the
//! small group with `p = 23`, `q = 11`, `alpha = 4` and `beta = 6` it is
//! checkable outright: the eleven powers of the generator are pairwise
//! distinct modulo 23, so a response outside the one correct congruence
//! class modulo `q` fails the verification equation — no value of `s`
//! is special-cased.

use crate::arith::{lemma_pow_mod_reduce, pow_mod};
use crate::zkp::{
    lemma_solve_congruence, lemma_verify_side_collapse, spec_solve, spec_verify,
};
use vstd::arithmetic::div_mod::{
    lemma_add_mod_noop, lemma_mod_bound, lemma_mod_sub_multiples_vanish, lemma_small_mod,
};
use vstd::arithmetic::power::pow;
use vstd::prelude::*;

verus! {

/// The first twelve powers of 4 modulo 23, by direct evaluation: the
/// subgroup generated by 4 has order 11, and one period lists each
/// element once.
proof fn lemma_pow4_mod23_values()
    ensures
        pow(4int, 0) % 23 == 1,
        pow(4int, 1) % 23 == 4,
        pow(4int, 2) % 23 == 16,
        pow(4int, 3) % 23 == 18,
        pow(4int, 4) % 23 == 3,
        pow(4int, 5) % 23 == 12,
        pow(4int, 6) % 23 == 2,
        pow(4int, 7) % 23 == 8,
        pow(4int, 8) % 23 == 9,
        pow(4int, 9) % 23 == 13,
        pow(4int, 10) % 23 == 6,
        pow(4int, 11) % 23 == 1,
{
    reveal_with_fuel(pow, 12);
}

/// Distinct exponents below 11 give distinct powers of 4 modulo 23.
proof fn lemma_pow4_mod23_injective(a: nat, b: nat)
    requires
        a < 11,
        b < 11,
        a != b,
    ensures
        pow(4int, a) % 23 != pow(4int, b) % 23,
{
    lemma_pow4_mod23_values();
    assert(a == 0 || a == 1 || a == 2 || a == 3 || a == 4 || a == 5 || a == 6 || a == 7 || a == 8
        || a == 9 || a == 10);
    assert(b == 0 || b == 1 || b == 2 || b == 3 || b == 4 || b == 5 || b == 6 || b == 7 || b == 8
        || b == 9 || b == 10);
}

/// Over the example group, a response that is not congruent to
/// `k - c * x` modulo `q` is rejected, whatever the secret, commitment
/// exponent and challenge: already the first verification equation fails.
pub proof fn lemma_toy_soundness(x: nat, k: nat, c: nat, s: nat)
    requires
        (s + c * x) % 11 != k % 11,
    ensures
        !spec_verify(
            23,
            4,
            6,
            pow_mod(4, k, 23),
            pow_mod(6, k, 23),
            pow_mod(4, x, 23),
            pow_mod(6, x, 23),
            c,
            s,
        ),
{
    lemma_pow4_mod23_values();
    assert(pow_mod(4, 11, 23) == 1);
    lemma_verify_side_collapse(4, x, c, s, 23, 11);
    lemma_pow_mod_reduce(4, k, 23, 11);
    let a = ((s + c * x) % 11) as nat;
    let b = (k % 11) as nat;
    lemma_mod_bound((s + c * x) as int, 11int);
    lemma_mod_bound(k as int, 11int);
    lemma_pow4_mod23_injective(a, b);
    assert((pow_mod(4, s, 23) * pow_mod(pow_mod(4, x, 23), c, 23)) % 23 != pow_mod(4, k, 23));
}

/// Mutating a correct response by any amount that is nonzero modulo `q`
/// makes verification fail over the example group: the honestly computed
/// values of registration and commitment reject every perturbed response.
pub proof fn lemma_toy_soundness_perturbed(x: nat, k: nat, c: nat, d: nat)
    requires
        d % 11 != 0,
    ensures
        !spec_verify(
            23,
            4,
            6,
            pow_mod(4, k, 23),
            pow_mod(6, k, 23),
            pow_mod(4, x, 23),
            pow_mod(6, x, 23),
            c,
            ((spec_solve(k, c, x, 11) + d) % 11) as nat,
        ),
{
    let s0 = spec_solve(k, c, x, 11);
    let s = ((s0 + d) % 11) as nat;
    lemma_solve_congruence(k, c, x, 11);
    // (s + c*x) mod 11 == (k + d) mod 11.
    assert((s + c * x) % 11 == (k + d) % 11) by {
        lemma_add_mod_noop_chain(s0, c * x, d, k);
    }
    // (k + d) mod 11 differs from k mod 11 because d mod 11 is not 0.
    let km = (k % 11) as nat;
    let dm = (d % 11) as nat;
    lemma_mod_bound(k as int, 11int);
    lemma_mod_bound(d as int, 11int);
    lemma_add_mod_noop(k as int, d as int, 11int);
    assert((k + d) % 11 == (km + dm) % 11);
    if km + dm < 11 {
        lemma_small_mod((km + dm) as nat, 11nat);
        assert((km + dm) % 11 == km + dm);
    } else {
        lemma_mod_sub_multiples_vanish((km + dm) as int, 11int);
        lemma_small_mod((km + dm - 11) as nat, 11nat);
        assert((km + dm) % 11 == km + dm - 11);
    }
    assert((s + c * x) % 11 != k % 11);
    lemma_toy_soundness(x, k, c, s);
}

/// Adding multiples and remainders commutes with the modulus: the chain
/// that turns `((s0 + d) mod 11 + c*x) mod 11` into `(k + d) mod 11`,
/// given that `(s0 + c*x) mod 11 == k mod 11`.
proof fn lemma_add_mod_noop_chain(s0: nat, cx: nat, d: nat, k: nat)
    requires
        (s0 + cx) % 11 == k % 11,
    ensures
        ((((s0 + d) % 11) as nat) + cx) % 11 == (k + d) % 11,
{
    let s = ((s0 + d) % 11) as nat;
    lemma_mod_bound((s0 + d) as int, 11int);
    // (s + cx) mod 11 == (s0 + d + cx) mod 11.
    lemma_add_mod_noop((s0 + d) as int, cx as int, 11int);
    lemma_mod_bound(cx as int, 11int);
    assert((s + cx) % 11 == ((((s0 + d) % 11) + (cx % 11)) % 11) as nat) by {
        lemma_add_mod_noop(s as int, cx as int, 11int);
        lemma_mod_twice_nat(s0 + d);
    }
    assert((s + cx) % 11 == (s0 + d + cx) % 11);
    // Regroup and replace (s0 + cx) mod 11 by k mod 11.
    lemma_add_mod_noop((s0 + cx) as int, d as int, 11int);
    lemma_add_mod_noop(k as int, d as int, 11int);
    lemma_mod_twice_nat(d);
    assert((s0 + d + cx) % 11 == (((s0 + cx) % 11) + (d % 11)) % 11);
    assert((k + d) % 11 == ((k % 11) + (d % 11)) % 11);
}

/// Reducing twice modulo 11 is reducing once.
proof fn lemma_mod_twice_nat(x: nat)
    ensures
        (((x % 11) as nat) % 11) as nat == x % 11,
{
    lemma_mod_bound(x as int, 11int);
    lemma_small_mod((x % 11) as nat, 11nat);
}

} // verus!
