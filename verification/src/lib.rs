//! The arithmetic of the sum-check protocol over the scalar field of BLS12-381.
//!
//! A prover claims that `h` is the sum of a function `g` of `v` field
//! elements over the `2^v` points whose coordinates are zero or one. The
//! claim is checked in `v` rounds, each of which fixes one more variable to a
//! random challenge.
//!
//! - [`field`]: field elements, with the arithmetic of the `bls12_381` crate.
//! - [`hypercube`]: sums over the boolean hypercube, and the identities
//!   between them that the protocol rests on.
//! - [`oracle`]: what is asked of the function that is summed.
//! - [`sum_check`]: the partial sums of an oracle, the claimed sum, and the
//!   round functions.
//! - [`protocol`]: the rounds themselves.
pub mod field;
pub mod hypercube;
pub mod oracle;
pub mod protocol;
pub mod sum_check;
