//! Fixed-width modular arithmetic for multiply-mod-prime universal hashing.
//!
//! Quantities are unsigned integers held as little-endian arrays of 32-bit
//! words: a 96-bit modulus `P` and key pair `A`, `B` in three words, a 64-bit
//! input `X` in two, and the unreduced 160-bit accumulator `A*X + B` in five.
//! `combine` forms that accumulator exactly; `reduce` brings it first into
//! `[0, P)` and then into `[0, m)` by repeated bounded subtraction.

pub mod limbs;
pub mod mmp;
pub mod output;

pub use limbs::{val2, val3, val5};
pub use mmp::{combine, combine_value, hash_value, mmp_hash, reduce};
pub use output::OutputMode;
