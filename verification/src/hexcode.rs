//! Decoding hexadecimal text into bytes.
//!
//! The fixed group parameters are spelled as hexadecimal strings; this
//! module turns such a string into the big-endian byte vector it denotes.
//! The decoder is total: a character that is no hexadecimal digit counts
//! as zero, and a trailing unpaired character is ignored.  The strings the
//! crate decodes are well-formed, so neither case arises at run time.

use vstd::prelude::*;
use vstd::string::StrSliceExecFns;

verus! {

/// The value of one hexadecimal digit; zero for any other character.
pub open spec fn hex_digit_value(c: char) -> u8 {
    let u = c as u32;
    if '0' as u32 <= u && u <= '9' as u32 {
        (u - '0' as u32) as u8
    } else if 'a' as u32 <= u && u <= 'f' as u32 {
        (u - 'a' as u32 + 10) as u8
    } else if 'A' as u32 <= u && u <= 'F' as u32 {
        (u - 'A' as u32 + 10) as u8
    } else {
        0
    }
}

/// The byte spelled by a pair of hexadecimal digits, high digit first.
pub open spec fn hex_byte(hi: char, lo: char) -> u8 {
    (hex_digit_value(hi) * 16 + hex_digit_value(lo)) as u8
}

/// The bytes spelled by a string of hexadecimal digits, two digits to a
/// byte, most significant pair first.
pub open spec fn hex_bytes(s: Seq<char>) -> Seq<u8>
    decreases s.len(),
{
    if s.len() < 2 {
        seq![]
    } else {
        seq![hex_byte(s[0], s[1])] + hex_bytes(s.skip(2))
    }
}

/// The value of one hexadecimal digit character.
fn hex_digit(c: char) -> (v: u8)
    ensures
        v == hex_digit_value(c),
{
    let u = c as u32;
    if 48 <= u && u <= 57 {
        (u - 48) as u8
    } else if 97 <= u && u <= 102 {
        (u - 97 + 10) as u8
    } else if 65 <= u && u <= 70 {
        (u - 65 + 10) as u8
    } else {
        0
    }
}

/// Decodes a hexadecimal string into the big-endian bytes it spells.
pub fn hex_decode(s: &str) -> (r: Vec<u8>)
    ensures
        r@ == hex_bytes(s@),
{
    let n = s.unicode_len();
    let mut r: Vec<u8> = Vec::new();
    let mut i: usize = 0;
    proof {
        assert(s@.skip(0) =~= s@);
    }
    while n - i >= 2
        invariant
            n == s@.len(),
            i <= n,
            i % 2 == 0,
            hex_bytes(s@) =~= r@ + hex_bytes(s@.skip(i as int)),
        decreases n - i,
    {
        let hi = s.get_char(i);
        let lo = s.get_char(i + 1);
        let b = {
            let h = hex_digit(hi);
            let l = hex_digit(lo);
            h * 16 + l
        };
        proof {
            let rest = s@.skip(i as int);
            assert(rest.len() >= 2);
            assert(rest[0] == s@[i as int]);
            assert(rest[1] == s@[i as int + 1]);
            assert(rest.skip(2) =~= s@.skip(i as int + 2));
            assert(hex_bytes(rest) == seq![hex_byte(rest[0], rest[1])] + hex_bytes(rest.skip(2)));
        }
        r.push(b);
        i = i + 2;
    }
    proof {
        assert(hex_bytes(s@.skip(i as int)) =~= seq![]);
        assert(r@ + seq![] =~= r@);
    }
    r
}

} // verus!
