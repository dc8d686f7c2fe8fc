//! Modular arithmetic on natural numbers.
//!
//! [`pow_mod`] is the modular exponentiation that the whole protocol is
//! built on; the lemmas here reduce exponents modulo the order of an
//! element, which is what makes the verification equation work out.

use vstd::arithmetic::div_mod::{
    lemma_fundamental_div_mod, lemma_mod_bound, lemma_mod_twice, lemma_mul_mod_noop,
};
use vstd::arithmetic::power::{
    lemma1_pow, lemma_pow_adds, lemma_pow_mod_noop, lemma_pow_multiplies, pow,
};
use vstd::prelude::*;

verus! {

/// `b ^ e mod m`, on natural numbers.
pub open spec fn pow_mod(b: nat, e: nat, m: nat) -> nat
    recommends
        m > 0,
{
    (pow(b as int, e) % (m as int)) as nat
}

/// A power of an element whose `q`-th power is 1 modulo `p` depends only on
/// the exponent modulo `q`.
pub proof fn lemma_pow_mod_reduce(g: nat, e: nat, p: nat, q: nat)
    requires
        p > 1,
        q > 0,
        pow_mod(g, q, p) == 1,
    ensures
        pow_mod(g, e, p) == pow_mod(g, e % q, p),
{
    let gi = g as int;
    let pi = p as int;
    let d = (e as int) / (q as int);
    let r = (e as int) % (q as int);
    lemma_fundamental_div_mod(e as int, q as int);
    lemma_mod_bound(e as int, q as int);
    assert(d >= 0) by (nonlinear_arith)
        requires
            e as int == q * d + r,
            q > 0,
            0 <= r < q,
            e >= 0,
    ;
    assert(e == q * (d as nat) + (r as nat));
    lemma_pow_adds(gi, (q * (d as nat)) as nat, r as nat);
    assert(pow(gi, e) == pow(gi, (q * (d as nat)) as nat) * pow(gi, r as nat));
    lemma_pow_multiplies(gi, q, d as nat);
    assert(pow(gi, (q * (d as nat)) as nat) == pow(pow(gi, q), d as nat));
    // Reduce the first factor modulo p: it is a power of 1.
    lemma_pow_mod_noop(pow(gi, q), d as nat, pi);
    assert(pow(pow(gi, q) % pi, d as nat) % pi == pow(pow(gi, q), d as nat) % pi);
    assert(pow(gi, q) % pi == 1);
    lemma1_pow(d as nat);
    assert(pow(1int, d as nat) == 1);
    assert(pow(pow(gi, q), d as nat) % pi == 1int % pi);
    assert(1int % pi == 1) by {
        vstd::arithmetic::div_mod::lemma_small_mod(1nat, p);
    }
    // Put the product back together modulo p.
    lemma_mul_mod_noop(pow(pow(gi, q), d as nat), pow(gi, r as nat), pi);
    assert((pow(pow(gi, q), d as nat) * pow(gi, r as nat)) % pi == ((pow(pow(gi, q), d as nat)
        % pi) * (pow(gi, r as nat) % pi)) % pi);
    assert(pow(gi, e) % pi == (1 * (pow(gi, r as nat) % pi)) % pi);
    assert(pow(gi, e) % pi == (pow(gi, r as nat) % pi) % pi);
    lemma_mod_twice(pow(gi, r as nat), pi);
    assert(pow(gi, e) % pi == pow(gi, r as nat) % pi);
}

} // verus!
