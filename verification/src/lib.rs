//! A Chaum-Pedersen zero-knowledge authentication library.
//!
//! A prover demonstrates knowledge of a secret exponent `x` without ever
//! transmitting it: both parties share fixed group parameters
//! (a prime modulus `p`, a prime subgroup order `q` and two generators
//! `alpha` and `beta`), and the protocol exchanges only group elements and
//! a response value.  Large unsigned integers travel as big-endian byte
//! vectors; their mathematical value is given by the spec function
//! [`bytes::be_val`], and every contract speaks in terms of those values.

pub mod bytes;
pub mod hexcode;
pub mod arith;
mod bignum;
pub mod zkp;
pub mod server;
pub mod soundness;

pub use server::AuthError;
pub use server::AuthImpl;
pub use server::UserInfo;
pub use zkp::ZKP;
