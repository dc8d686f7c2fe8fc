//! The Chaum-Pedersen proof engine.
//!
//! [`ZKP`] holds the group parameters: a prime modulus `p`, the prime
//! order `q` of the working subgroup, and two generators `alpha` and
//! `beta` of that subgroup, all as big-endian byte vectors.  The engine
//! offers modular exponentiation, the response computation [`ZKP::solve`]
//! and the verification equation [`ZKP::verify`]; [`lemma_completeness`]
//! proves that an honestly computed response always verifies.

use crate::arith::{lemma_pow_mod_reduce, pow_mod};
use crate::bignum::{big_eq, big_ge, big_mod, big_mul, big_sub, mod_exp};
use crate::bytes::{be_val, lemma_be_val_lower_bound};
use crate::hexcode::{hex_bytes, hex_decode};
use num_bigint::{BigUint, RandBigInt};
use rand::Rng;
use vstd::arithmetic::div_mod::{
    lemma_add_mod_noop_right, lemma_mod_add_multiples_vanish, lemma_mod_bound,
    lemma_mul_mod_noop, lemma_sub_mod_noop_right,
};
use vstd::arithmetic::power::{lemma_pow_adds, lemma_pow_mod_noop, lemma_pow_multiplies, pow};
use vstd::prelude::*;

verus! {

/// The group parameters of the protocol.  Both parties must hold
/// byte-identical values; they are never negotiated on the wire.
pub struct ZKP {
    /// A large prime modulus.
    pub p: Vec<u8>,
    /// A prime divisor of `p - 1`: the order of the working subgroup.
    pub q: Vec<u8>,
    /// A generator of the subgroup of order `q`.
    pub alpha: Vec<u8>,
    /// A second generator of the same subgroup.
    pub beta: Vec<u8>,
}

/// The hexadecimal spelling of the fixed modulus `p`.
pub open spec fn p_hex() -> Seq<char> {
    "B10B8F96A080E01DDE92DE5EAE5D54EC52C99FBCFB06A3C69A6A9DCA52D23B616073E28675A23D189838EF1E2EE652C013ECB4AEA906112324975C3CD49B83BFACCBDD7D90C4BD7098488E9C219A73724EFFD6FAE5644738FAA31A4FF55BCCC0A151AF5F0DC8B4BD45BF37DF365C1A65E68CFDA76D4DA708DF1FB2BC2E4A4371"@
}

/// The hexadecimal spelling of the fixed subgroup order `q`.
pub open spec fn q_hex() -> Seq<char> {
    "F518AA8781A8DF278ABA4E7D64B7CB9D49462353"@
}

/// The hexadecimal spelling of the fixed generator `alpha`.
pub open spec fn alpha_hex() -> Seq<char> {
    "A4D1CBD5C3FD34126765A442EFB99905F8104DD258AC507FD6406CFF14266D31266FEA1E5C41564B777E690F5504F213160217B4B01B886A5E91547F9E2749F4D7FBD7D3B9A92EE1909D0D2263F80A76A6A24C087A091F531DBF0A0169B6A28AD662A4D18E73AFA32D779D5918D08BC8858F4DCEF97C2A24855E6EEB22B3B2E5"@
}

/// The hexadecimal spelling of the fixed exponent that derives `beta`
/// from `alpha`.
pub open spec fn beta_exp_hex() -> Seq<char> {
    "266FEA1E5C41564B777E69"@
}

/// The value of the fixed modulus.
pub open spec fn p_value() -> nat {
    be_val(hex_bytes(p_hex()))
}

/// The value of the fixed subgroup order.
pub open spec fn q_value() -> nat {
    be_val(hex_bytes(q_hex()))
}

/// The value of the fixed generator `alpha`.
pub open spec fn alpha_value() -> nat {
    be_val(hex_bytes(alpha_hex()))
}

/// The value of the fixed second generator: `alpha` raised to the fixed
/// derivation exponent, modulo `p`.
pub open spec fn beta_value() -> nat {
    pow_mod(alpha_value(), be_val(hex_bytes(beta_exp_hex())), p_value())
}

/// The response to challenge `c` for commitment exponent `k` and secret
/// `x`: the representative of `k - c * x` modulo `q`, computed with the
/// unsigned sign correction.  The corrected difference is reduced modulo
/// `q` once more, so the result always lies in `[0, q)`: when `k < c * x`
/// and `q` divides `c * x - k` exactly, the response is 0.
pub open spec fn spec_solve(k: nat, c: nat, x: nat, q: nat) -> nat
    recommends
        q > 0,
{
    if k >= c * x {
        ((k - c * x) % (q as int)) as nat
    } else {
        ((q - (c * x - k) % (q as int)) % (q as int)) as nat
    }
}

/// The verification equation: the commitments `r1`, `r2` must equal
/// `alpha^s * y1^c` and `beta^s * y2^c` modulo `p`.  Both sides are
/// compared by numeric value.
pub open spec fn spec_verify(
    p: nat,
    alpha: nat,
    beta: nat,
    r1: nat,
    r2: nat,
    y1: nat,
    y2: nat,
    c: nat,
    s: nat,
) -> bool
    recommends
        p > 0,
{
    &&& r1 == (pow_mod(alpha, s, p) * pow_mod(y1, c, p)) % p
    &&& r2 == (pow_mod(beta, s, p) * pow_mod(y2, c, p)) % p
}

impl ZKP {
    /// Computes `a ^ x mod p`.
    pub fn exponentiate(&self, a: &Vec<u8>, x: &Vec<u8>) -> (r: Vec<u8>)
        requires
            be_val(self.p@) > 0,
        ensures
            be_val(r@) == pow_mod(be_val(a@), be_val(x@), be_val(self.p@)),
    {
        mod_exp(a, x, &self.p)
    }

    /// Computes the response `s` with `k = c * x + s (mod q)`, using only
    /// unsigned arithmetic: when `k < c * x` the difference is taken the
    /// other way round, subtracted from `q`, and reduced modulo `q` once
    /// more, so the result always lies in `[0, q)`.
    pub fn solve(&self, k: &Vec<u8>, c: &Vec<u8>, x: &Vec<u8>) -> (s: Vec<u8>)
        requires
            be_val(self.q@) > 0,
        ensures
            be_val(s@) == spec_solve(be_val(k@), be_val(c@), be_val(x@), be_val(self.q@)),
            be_val(s@) < be_val(self.q@),
    {
        let cx = big_mul(c, x);
        proof {
            lemma_mod_bound((be_val(k@) - be_val(cx@)) as int, be_val(self.q@) as int);
            lemma_mod_bound((be_val(cx@) - be_val(k@)) as int, be_val(self.q@) as int);
            lemma_mod_bound(
                (be_val(self.q@) - (be_val(cx@) - be_val(k@)) % (be_val(self.q@) as int)) as int,
                be_val(self.q@) as int,
            );
        }
        if big_ge(k, &cx) {
            let d = big_sub(k, &cx);
            big_mod(&d, &self.q)
        } else {
            let d = big_sub(&cx, k);
            let m = big_mod(&d, &self.q);
            let t = big_sub(&self.q, &m);
            big_mod(&t, &self.q)
        }
    }

    /// Checks the proof: accepts iff both verification equations hold,
    /// comparing numeric values.
    pub fn verify(
        &self,
        r1: &Vec<u8>,
        r2: &Vec<u8>,
        y1: &Vec<u8>,
        y2: &Vec<u8>,
        c: &Vec<u8>,
        s: &Vec<u8>,
    ) -> (ok: bool)
        requires
            be_val(self.p@) > 0,
        ensures
            ok == spec_verify(
                be_val(self.p@),
                be_val(self.alpha@),
                be_val(self.beta@),
                be_val(r1@),
                be_val(r2@),
                be_val(y1@),
                be_val(y2@),
                be_val(c@),
                be_val(s@),
            ),
    {
        let a_s = mod_exp(&self.alpha, s, &self.p);
        let y1_c = mod_exp(y1, c, &self.p);
        let p1 = big_mul(&a_s, &y1_c);
        let lhs1 = big_mod(&p1, &self.p);
        let cond1 = big_eq(r1, &lhs1);
        let b_s = mod_exp(&self.beta, s, &self.p);
        let y2_c = mod_exp(y2, c, &self.p);
        let p2 = big_mul(&b_s, &y2_c);
        let lhs2 = big_mod(&p2, &self.p);
        let cond2 = big_eq(r2, &lhs2);
        cond1 && cond2
    }

    /// Returns the fixed group parameters `(alpha, beta, p, q)`: the
    /// 1024-bit prime-modulus group with a 160-bit prime-order subgroup,
    /// with `beta` derived as a fixed power of `alpha`.
    pub fn get_constants() -> (r: (Vec<u8>, Vec<u8>, Vec<u8>, Vec<u8>))
        ensures
            r.0@ == hex_bytes(alpha_hex()),
            r.2@ == hex_bytes(p_hex()),
            r.3@ == hex_bytes(q_hex()),
            be_val(r.0@) == alpha_value(),
            be_val(r.1@) == beta_value(),
            be_val(r.2@) == p_value(),
            be_val(r.3@) == q_value(),
            p_value() > 1,
            q_value() > 0,
    {
        proof {
            lemma_p_value_large();
            lemma_q_value_positive();
        }
        let alpha = hex_decode(
            "A4D1CBD5C3FD34126765A442EFB99905F8104DD258AC507FD6406CFF14266D31266FEA1E5C41564B777E690F5504F213160217B4B01B886A5E91547F9E2749F4D7FBD7D3B9A92EE1909D0D2263F80A76A6A24C087A091F531DBF0A0169B6A28AD662A4D18E73AFA32D779D5918D08BC8858F4DCEF97C2A24855E6EEB22B3B2E5",
        );
        let p = hex_decode(
            "B10B8F96A080E01DDE92DE5EAE5D54EC52C99FBCFB06A3C69A6A9DCA52D23B616073E28675A23D189838EF1E2EE652C013ECB4AEA906112324975C3CD49B83BFACCBDD7D90C4BD7098488E9C219A73724EFFD6FAE5644738FAA31A4FF55BCCC0A151AF5F0DC8B4BD45BF37DF365C1A65E68CFDA76D4DA708DF1FB2BC2E4A4371",
        );
        let exp = hex_decode("266FEA1E5C41564B777E69");
        let beta = mod_exp(&alpha, &exp, &p);
        let q = hex_decode("F518AA8781A8DF278ABA4E7D64B7CB9D49462353");
        (alpha, beta, p, q)
    }

    /// Generates a random alphanumeric string of the given length.
    /// Relies on `rand`: sampling the `Alphanumeric` distribution yields
    /// characters from `0-9`, `a-z` and `A-Z`.
    #[verifier::external_body]
    pub fn generate_random_string(size: usize) -> (r: String)
        ensures
            r@.len() == size,
            forall|i: int| 0 <= i < r@.len() ==> is_alphanumeric_char(#[trigger] r@[i]),
    {
        rand::thread_rng()
            .sample_iter(rand::distributions::Alphanumeric)
            .take(size)
            .map(char::from)
            .collect()
    }

    /// Generates a uniformly random value below the given positive bound.
    /// Relies on `num_bigint`'s `gen_biguint_below`, which panics only on
    /// a zero bound.
    #[verifier::external_body]
    pub fn generate_random_below(bound: &Vec<u8>) -> (r: Vec<u8>)
        requires
            be_val(bound@) > 0,
        ensures
            be_val(r@) < be_val(bound@),
    {
        let mut rng = rand::thread_rng();
        rng.gen_biguint_below(&BigUint::from_bytes_be(bound)).to_bytes_be()
    }
}

/// A character from `0-9`, `a-z` or `A-Z`.
pub open spec fn is_alphanumeric_char(c: char) -> bool {
    ||| '0' as u32 <= c as u32 && c as u32 <= '9' as u32
    ||| 'a' as u32 <= c as u32 && c as u32 <= 'z' as u32
    ||| 'A' as u32 <= c as u32 && c as u32 <= 'Z' as u32
}

/// The fixed modulus is larger than 1.
pub proof fn lemma_p_value_large()
    ensures
        p_value() > 1,
{
    reveal_strlit(
        "B10B8F96A080E01DDE92DE5EAE5D54EC52C99FBCFB06A3C69A6A9DCA52D23B616073E28675A23D189838EF1E2EE652C013ECB4AEA906112324975C3CD49B83BFACCBDD7D90C4BD7098488E9C219A73724EFFD6FAE5644738FAA31A4FF55BCCC0A151AF5F0DC8B4BD45BF37DF365C1A65E68CFDA76D4DA708DF1FB2BC2E4A4371",
    );
    let s = p_hex();
    let bs = hex_bytes(s);
    assert(bs[0] == 177) by {
        assert(s[0] == 'B' && s[1] == '1');
    }
    lemma_be_val_lower_bound(bs);
}

/// The fixed subgroup order is positive.
pub proof fn lemma_q_value_positive()
    ensures
        q_value() > 0,
{
    reveal_strlit("F518AA8781A8DF278ABA4E7D64B7CB9D49462353");
    let s = q_hex();
    let bs = hex_bytes(s);
    assert(bs[0] == 245) by {
        assert(s[0] == 'F' && s[1] == '5');
    }
    lemma_be_val_lower_bound(bs);
}

/// The response is congruent to `k - c * x` modulo `q`: adding `c * x`
/// back gives `k` again, modulo `q`.
pub proof fn lemma_solve_congruence(k: nat, c: nat, x: nat, q: nat)
    requires
        q > 0,
    ensures
        (spec_solve(k, c, x, q) + c * x) % q == k % q,
{
    let qi = q as int;
    let cx = (c * x) as int;
    let ki = k as int;
    let s = spec_solve(k, c, x, q) as int;
    lemma_mod_bound(ki - cx, qi);
    lemma_mod_bound(cx - ki, qi);
    if k >= c * x {
        assert(s == (ki - cx) % qi);
        lemma_add_mod_noop_right(cx, ki - cx, qi);
        assert((cx + (ki - cx) % qi) % qi == (cx + (ki - cx)) % qi);
        assert(s + cx == cx + (ki - cx) % qi);
    } else {
        let r = (cx - ki) % qi;
        assert(s == (qi - r) % qi);
        lemma_add_mod_noop_right(cx, qi - r, qi);
        assert((cx + (qi - r) % qi) % qi == (cx + (qi - r)) % qi);
        assert(s + cx == cx + (qi - r) % qi);
        lemma_mod_add_multiples_vanish(cx - r, qi);
        assert((qi + (cx - r)) % qi == (cx - r) % qi);
        lemma_sub_mod_noop_right(cx, cx - ki, qi);
        assert((cx - (cx - ki) % qi) % qi == (cx - (cx - ki)) % qi);
        assert((cx - r) % qi == ki % qi);
    }
}

/// One side of the recomputed verification value, for a generator `g`
/// whose `q`-th power is 1 modulo `p`: `g^s * (g^x mod p)^c` collapses to
/// a single power of `g` with exponent `(s + c*x) mod q`.
pub proof fn lemma_verify_side_collapse(g: nat, x: nat, c: nat, s: nat, p: nat, q: nat)
    requires
        p > 1,
        q > 0,
        pow_mod(g, q, p) == 1,
    ensures
        (pow_mod(g, s, p) * pow_mod(pow_mod(g, x, p), c, p)) % p == pow_mod(
            g,
            ((s + c * x) % q) as nat,
            p,
        ),
{
    let gi = g as int;
    let pi = p as int;
    // The inner power collapses: (g^x mod p)^c mod p == g^(x*c) mod p.
    lemma_pow_mod_noop(pow(gi, x), c, pi);
    lemma_pow_multiplies(gi, x, c);
    assert(pow_mod(pow_mod(g, x, p), c, p) == pow(gi, (x * c) as nat) % pi);
    // The product of the two powers collapses to a single power.
    lemma_mul_mod_noop(pow(gi, s), pow(gi, (x * c) as nat), pi);
    lemma_pow_adds(gi, s, (x * c) as nat);
    assert((pow_mod(g, s, p) * pow_mod(pow_mod(g, x, p), c, p)) % p == (pow(
        gi,
        (s + x * c) as nat,
    ) % pi) as nat);
    // The exponent reduces modulo the order q.
    assert(c * x == x * c) by (nonlinear_arith);
    lemma_pow_mod_reduce(g, (s + x * c) as nat, p, q);
}

/// One side of the verification equation, for a generator `g` whose
/// `q`-th power is 1 modulo `p`: when the exponent relation holds modulo
/// `q`, the recomputed value equals the prover's commitment.
proof fn lemma_verify_side(g: nat, x: nat, k: nat, c: nat, s: nat, p: nat, q: nat)
    requires
        p > 1,
        q > 0,
        pow_mod(g, q, p) == 1,
        (s + c * x) % q == k % q,
    ensures
        (pow_mod(g, s, p) * pow_mod(pow_mod(g, x, p), c, p)) % p == pow_mod(g, k, p),
{
    lemma_verify_side_collapse(g, x, c, s, p, q);
    lemma_pow_mod_reduce(g, k, p, q);
}

/// Completeness of the protocol: for any group in which the generators'
/// `q`-th power is 1 modulo `p`, the response computed by an honest
/// prover from any secret `x`, commitment exponent `k` and challenge `c`
/// passes verification against the honestly computed registration values
/// `y1`, `y2` and commitments `r1`, `r2`.
pub proof fn lemma_completeness(p: nat, q: nat, alpha: nat, beta: nat, x: nat, k: nat, c: nat)
    requires
        p > 1,
        q > 0,
        pow_mod(alpha, q, p) == 1,
        pow_mod(beta, q, p) == 1,
    ensures
        spec_verify(
            p,
            alpha,
            beta,
            pow_mod(alpha, k, p),
            pow_mod(beta, k, p),
            pow_mod(alpha, x, p),
            pow_mod(beta, x, p),
            c,
            spec_solve(k, c, x, q),
        ),
{
    let s = spec_solve(k, c, x, q);
    lemma_solve_congruence(k, c, x, q);
    lemma_verify_side(alpha, x, k, c, s, p, q);
    lemma_verify_side(beta, x, k, c, s, p, q);
}

/// Both branches of the sign correction keep the response in `[0, q)`.
pub proof fn lemma_solve_in_range(k: nat, c: nat, x: nat, q: nat)
    requires
        q > 0,
    ensures
        spec_solve(k, c, x, q) < q,
{
    lemma_mod_bound((k - c * x) as int, q as int);
    lemma_mod_bound((c * x - k) as int, q as int);
    lemma_mod_bound((q - (c * x - k) % (q as int)) as int, q as int);
}

} // verus!
