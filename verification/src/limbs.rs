//! Little-endian 32-bit word arrays and the single-column carry-chain steps
//! that multi-word arithmetic is built from.

use vstd::arithmetic::mul::lemma_mul_upper_bound;
use vstd::prelude::*;

verus! {

/// Numeric value of a two-word (64-bit) little-endian quantity.
pub open spec fn val2(x: [u32; 2]) -> nat {
    (x[0] as nat) + (x[1] as nat) * 0x1_0000_0000
}

/// Numeric value of a three-word (96-bit) little-endian quantity.
pub open spec fn val3(a: [u32; 3]) -> nat {
    (a[0] as nat) + (a[1] as nat) * 0x1_0000_0000 + (a[2] as nat) * 0x1_0000_0000_0000_0000
}

/// Numeric value of a five-word (160-bit) little-endian quantity.
pub open spec fn val5(y: [u32; 5]) -> nat {
    (y[0] as nat) + (y[1] as nat) * 0x1_0000_0000 + (y[2] as nat) * 0x1_0000_0000_0000_0000
        + (y[3] as nat) * 0x1_0000_0000_0000_0000_0000_0000
        + (y[4] as nat) * 0x1_0000_0000_0000_0000_0000_0000_0000_0000
}

/// One multiply column: `a * x + add + carry` split into a low word and a
/// carry-out word. The 64-bit accumulator holds the worst case exactly,
/// since `(2^32 - 1)^2 + 2 * (2^32 - 1) == 2^64 - 1`.
pub(crate) fn mul_add_carry(a: u32, x: u32, add: u32, carry: u32) -> (r: (u32, u32))
    ensures
        (a as nat) * (x as nat) + add + carry == r.0 + (r.1 as nat) * 0x1_0000_0000,
{
    proof {
        lemma_mul_upper_bound(a as int, 0xffff_ffff, x as int, 0xffff_ffff);
    }
    let t: u64 = (a as u64) * (x as u64) + (add as u64) + (carry as u64);
    let lo: u32 = (t % 0x1_0000_0000) as u32;
    let hi: u32 = (t / 0x1_0000_0000) as u32;
    (lo, hi)
}

/// One addition column: `y + add + carry` split into a low word and a
/// one-bit carry-out.
pub(crate) fn add_carry(y: u32, add: u32, carry: u32) -> (r: (u32, u32))
    requires
        carry <= 1,
    ensures
        y + add + carry == r.0 + (r.1 as nat) * 0x1_0000_0000,
        r.1 <= 1,
{
    let t: u64 = (y as u64) + (add as u64) + (carry as u64);
    let lo: u32 = (t % 0x1_0000_0000) as u32;
    let hi: u32 = (t / 0x1_0000_0000) as u32;
    (lo, hi)
}

/// One subtraction column: `y - p - borrow` split into a low word and a
/// one-bit borrow-out, so that `y - p - borrow == r.0 - r.1 * 2^32`.
pub(crate) fn sub_borrow(y: u32, p: u32, borrow: u32) -> (r: (u32, u32))
    requires
        borrow <= 1,
    ensures
        y - p - borrow == r.0 - (r.1 as int) * 0x1_0000_0000,
        r.1 <= 1,
{
    let t: u64 = 0x1_0000_0000 + (y as u64) - (p as u64) - (borrow as u64);
    let lo: u32 = (t % 0x1_0000_0000) as u32;
    let bo: u32 = if t < 0x1_0000_0000 {
        1
    } else {
        0
    };
    (lo, bo)
}

/// A value below `2^160` has exactly one five-word representation: equal
/// values have equal words.
pub proof fn lemma_val5_digits(y: [u32; 5], z: [u32; 5])
    requires
        val5(y) == val5(z),
    ensures
        y[0] == z[0],
        y[1] == z[1],
        y[2] == z[2],
        y[3] == z[3],
        y[4] == z[4],
{
    let d0 = y[0] - z[0];
    let d1 = y[1] - z[1];
    let d2 = y[2] - z[2];
    let d3 = y[3] - z[3];
    let d4 = y[4] - z[4];
    let k0 = d1 + d2 * 0x1_0000_0000 + d3 * 0x1_0000_0000_0000_0000 + d4
        * 0x1_0000_0000_0000_0000_0000_0000;
    assert(d0 + k0 * 0x1_0000_0000 == 0);
    assert(d0 == 0);
    let k1 = d2 + d3 * 0x1_0000_0000 + d4 * 0x1_0000_0000_0000_0000;
    assert(d1 + k1 * 0x1_0000_0000 == 0);
    assert(d1 == 0);
    let k2 = d3 + d4 * 0x1_0000_0000;
    assert(d2 + k2 * 0x1_0000_0000 == 0);
    assert(d2 == 0);
    assert(d3 + d4 * 0x1_0000_0000 == 0);
    assert(d3 == 0);
    assert(d4 == 0);
}

} // verus!
