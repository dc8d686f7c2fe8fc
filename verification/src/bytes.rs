//! The mathematical value of a big-endian byte sequence.
//!
//! Every large unsigned integer handled by this crate is carried as a
//! `Vec<u8>` in big-endian order; [`be_val`] maps such a sequence to the
//! natural number it denotes.  The lemmas here give the basic bounds that
//! the rest of the crate needs.

use vstd::arithmetic::power::{lemma_pow_positive, pow};
use vstd::prelude::*;

verus! {

/// The natural number denoted by a big-endian byte sequence.
/// The empty sequence denotes zero; leading zero bytes do not change the value.
pub open spec fn be_val(s: Seq<u8>) -> nat
    decreases s.len(),
{
    if s.len() == 0 {
        0
    } else {
        (be_val(s.drop_last()) * 256 + s.last()) as nat
    }
}

/// A nonempty sequence is worth at least its leading byte times the place
/// value of the leading position.
pub proof fn lemma_be_val_first_byte(s: Seq<u8>)
    requires
        s.len() > 0,
    ensures
        be_val(s) >= s[0] * pow(256, (s.len() - 1) as nat),
    decreases s.len(),
{
    if s.len() == 1 {
        assert(pow(256, 0) == 1) by {
            vstd::arithmetic::power::lemma_pow0(256);
        }
    } else {
        let t = s.drop_last();
        lemma_be_val_first_byte(t);
        assert(t[0] == s[0]);
        assert(be_val(s) == be_val(t) * 256 + s.last());
        assert(be_val(t) * 256 >= (s[0] * pow(256, (t.len() - 1) as nat)) * 256) by {
            vstd::arithmetic::mul::lemma_mul_inequality(
                (s[0] * pow(256, (t.len() - 1) as nat)) as int,
                be_val(t) as int,
                256,
            );
        }
        assert((s[0] * pow(256, (t.len() - 1) as nat)) * 256 == s[0] * pow(256, (s.len() - 1)
            as nat)) by {
            vstd::arithmetic::power::lemma_pow1(256);
            vstd::arithmetic::power::lemma_pow_adds(256, (t.len() - 1) as nat, 1);
            vstd::arithmetic::mul::lemma_mul_is_associative(
                s[0] as int,
                pow(256, (t.len() - 1) as nat),
                256,
            );
        }
    }
}

/// A nonempty sequence with a nonzero leading byte denotes a value at least
/// as large as that byte.
pub proof fn lemma_be_val_lower_bound(s: Seq<u8>)
    requires
        s.len() > 0,
    ensures
        be_val(s) >= s[0],
{
    lemma_be_val_first_byte(s);
    lemma_pow_positive(256, (s.len() - 1) as nat);
    vstd::arithmetic::mul::lemma_mul_inequality(1, pow(256, (s.len() - 1) as nat), s[0] as int);
    vstd::arithmetic::mul::lemma_mul_is_commutative(s[0] as int, pow(256, (s.len() - 1) as nat));
}

} // verus!
