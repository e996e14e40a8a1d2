//! The multiply-mod-prime core: a widening affine combiner and a double
//! modular reducer over little-endian 32-bit word arrays.

use vstd::arithmetic::div_mod::{
    lemma_mod_multiples_vanish, lemma_multiply_divide_lt, lemma_small_mod,
};
use vstd::arithmetic::mul::{
    lemma_mul_basics, lemma_mul_is_associative, lemma_mul_is_commutative, lemma_mul_unary_negation,
    lemma_mul_upper_bound,
};
use vstd::prelude::*;

use crate::limbs::{add_carry, mul_add_carry, sub_borrow, val2, val3, val5};

verus! {

/// The exact value the combiner produces: `A*X + B`.
pub open spec fn combine_value(a: [u32; 3], b: [u32; 3], x: [u32; 2]) -> nat {
    val3(a) * val2(x) + val3(b)
}

/// Widening affine combiner: the five-word accumulator holding exactly
/// `A*X + B`, by schoolbook multiplication with two carry chains and a
/// final carried addition of the offset.
pub fn combine(a: [u32; 3], b: [u32; 3], x: [u32; 2]) -> (y: [u32; 5])
    ensures
        val5(y) == combine_value(a, b, x),
{
    // A * x0 into words 0..=3
    let (t0, c1) = mul_add_carry(a[0], x[0], 0, 0);
    let (t1, c2) = mul_add_carry(a[1], x[0], 0, c1);
    let (t2, t3) = mul_add_carry(a[2], x[0], 0, c2);
    // add A * x1 one word higher
    let (u1, d1) = mul_add_carry(a[0], x[1], t1, 0);
    let (u2, d2) = mul_add_carry(a[1], x[1], t2, d1);
    let (u3, u4) = mul_add_carry(a[2], x[1], t3, d2);
    // add B into the bottom three words, carrying up to word 4
    let (v0, e1) = add_carry(t0, b[0], 0);
    let (v1, e2) = add_carry(u1, b[1], e1);
    let (v2, e3) = add_carry(u2, b[2], e2);
    let (v3, e4) = add_carry(u3, 0, e3);
    let (v4, e5) = add_carry(u4, 0, e4);
    let y = [v0, v1, v2, v3, v4];
    proof {
        let a0 = a[0] as int;
        let a1 = a[1] as int;
        let a2 = a[2] as int;
        let x0 = x[0] as int;
        let x1 = x[1] as int;
        // words 0..=3 hold A * x0
        assert(t0 + t1 * 0x1_0000_0000 + t2 * 0x1_0000_0000_0000_0000 + t3
            * 0x1_0000_0000_0000_0000_0000_0000 == a0 * x0 + (a1 * x0) * 0x1_0000_0000 + (a2 * x0)
            * 0x1_0000_0000_0000_0000);
        // words 0..=4 hold A * x0 + (A * x1) * 2^32
        assert(t0 + u1 * 0x1_0000_0000 + u2 * 0x1_0000_0000_0000_0000 + u3
            * 0x1_0000_0000_0000_0000_0000_0000 + u4 * 0x1_0000_0000_0000_0000_0000_0000_0000_0000
            == a0 * x0 + (a1 * x0 + a0 * x1) * 0x1_0000_0000 + (a2 * x0 + a1 * x1)
            * 0x1_0000_0000_0000_0000 + (a2 * x1) * 0x1_0000_0000_0000_0000_0000_0000);
        // schoolbook expansion of the full product
        assert((a0 + a1 * 0x1_0000_0000 + a2 * 0x1_0000_0000_0000_0000) * (x0 + x1 * 0x1_0000_0000)
            == a0 * x0 + (a1 * x0 + a0 * x1) * 0x1_0000_0000 + (a2 * x0 + a1 * x1)
            * 0x1_0000_0000_0000_0000 + (a2 * x1) * 0x1_0000_0000_0000_0000_0000_0000)
            by (nonlinear_arith);
        // the total fits five words, so the last carry-out is zero
        lemma_mul_upper_bound(
            val3(a) as int,
            0xffff_ffff_ffff_ffff_ffff_ffff,
            val2(x) as int,
            0xffff_ffff_ffff_ffff,
        );
        assert(e5 == 0);
    }
    y
}

/// True exactly when the five-word value is zero.
fn is_zero5(y: &[u32; 5]) -> (r: bool)
    ensures
        r == (val5(*y) == 0),
{
    y[0] == 0 && y[1] == 0 && y[2] == 0 && y[3] == 0 && y[4] == 0
}

/// Five-word subtraction probe: `v - p` through a borrow chain. The flag
/// reports a borrow past the top word, that is `v < p`; without one the
/// difference is exact.
fn sub5(v: &[u32; 5], p: &[u32; 5]) -> (r: ([u32; 5], bool))
    ensures
        r.1 == (val5(*v) < val5(*p)),
        !r.1 ==> val5(r.0) == val5(*v) - val5(*p),
{
    let (w0, b1) = sub_borrow(v[0], p[0], 0);
    let (w1, b2) = sub_borrow(v[1], p[1], b1);
    let (w2, b3) = sub_borrow(v[2], p[2], b2);
    let (w3, b4) = sub_borrow(v[3], p[3], b3);
    let (w4, b5) = sub_borrow(v[4], p[4], b4);
    let w = [w0, w1, w2, w3, w4];
    proof {
        assert(val5(*v) - val5(*p) == val5(w) - (b5 as int)
            * 0x1_0000_0000_0000_0000_0000_0000_0000_0000_0000_0000);
    }
    (w, b5 == 1)
}

/// Doubling probe: `2 * w` through a carry chain, with a flag reporting
/// overflow past the fifth word; without one the doubled value is exact.
fn dbl5(w: &[u32; 5]) -> (r: ([u32; 5], bool))
    ensures
        !r.1 ==> val5(r.0) == 2 * val5(*w),
{
    let (d0, c1) = add_carry(w[0], w[0], 0);
    let (d1, c2) = add_carry(w[1], w[1], c1);
    let (d2, c3) = add_carry(w[2], w[2], c2);
    let (d3, c4) = add_carry(w[3], w[3], c3);
    let (d4, c5) = add_carry(w[4], w[4], c4);
    let d = [d0, d1, d2, d3, d4];
    proof {
        assert(val5(d) + (c5 as int) * 0x1_0000_0000_0000_0000_0000_0000_0000_0000_0000_0000 == 2
            * val5(*w));
    }
    (d, c5 == 1)
}

/// Remainder of a five-word value by a positive five-word modulus, by bounded
/// subtraction: each pass removes the largest doubled copy `2^k * P` of the
/// modulus that still fits under the value, so the subtraction count grows
/// with the bit width of the quotient, not the quotient itself. The loop
/// stops once even `P` would go negative, or early on an exact zero.
fn mod5(v: &[u32; 5], p: &[u32; 5]) -> (r: [u32; 5])
    requires
        val5(*p) > 0,
    ensures
        val5(r) == val5(*v) % val5(*p),
        val5(r) < val5(*p),
{
    let mut cur: [u32; 5] = *v;
    loop
        invariant_except_break
            val5(*p) > 0,
            val5(cur) % val5(*p) == val5(*v) % val5(*p),
        ensures
            val5(*p) > 0,
            val5(cur) < val5(*p),
            val5(cur) % val5(*p) == val5(*v) % val5(*p),
        decreases val5(cur),
    {
        let (_, under) = sub5(&cur, p);
        if under {
            break;
        }
        // climb to the largest doubled copy of the modulus at most `cur`
        let mut shifted: [u32; 5] = *p;
        let ghost mut g: nat = 1;
        loop
            invariant
                val5(*p) > 0,
                val5(shifted) == g * val5(*p),
                val5(*p) <= val5(shifted) <= val5(cur),
            ensures
                val5(shifted) == g * val5(*p),
                val5(*p) <= val5(shifted) <= val5(cur),
            decreases val5(cur) - val5(shifted),
        {
            let (dbl, overflow) = dbl5(&shifted);
            if overflow {
                break;
            }
            let (_, above) = sub5(&cur, &dbl);
            if above {
                break;
            }
            proof {
                lemma_mul_is_associative(2, g as int, val5(*p) as int);
                g = 2 * g;
            }
            shifted = dbl;
        }
        let (next, under2) = sub5(&cur, &shifted);
        proof {
            lemma_mul_unary_negation(val5(*p) as int, g as int);
            lemma_mul_is_commutative(g as int, val5(*p) as int);
            lemma_mod_multiples_vanish(-(g as int), val5(cur) as int, val5(*p) as int);
        }
        cur = next;
        if is_zero5(&cur) {
            break;
        }
    }
    proof {
        lemma_small_mod(val5(cur), val5(*p));
    }
    cur
}

/// Double modular reducer: the accumulator is brought into `[0, P)` with the
/// modulus zero-extended to five words, then into `[0, m)`. At that point the
/// four upper words are provably zero, so the residue is the bottom word.
pub fn reduce(p: [u32; 3], m: u32, y: [u32; 5]) -> (r: u32)
    requires
        val3(p) > 0,
        m > 0,
    ensures
        r == (val5(y) % val3(p)) % (m as nat),
        r < m,
{
    let phat: [u32; 5] = [p[0], p[1], p[2], 0, 0];
    assert(val5(phat) == val3(p));
    let r1 = mod5(&y, &phat);
    let mhat: [u32; 5] = [m, 0, 0, 0, 0];
    assert(val5(mhat) == m);
    let r2 = mod5(&r1, &mhat);
    // the residue lies below a one-word modulus: words 1..=4 are zero
    assert(r2[1] == 0 && r2[2] == 0 && r2[3] == 0 && r2[4] == 0);
    r2[0]
}

/// The affine hash value: `((A*X + B) mod P) mod m`.
pub open spec fn hash_value(a: [u32; 3], b: [u32; 3], x: [u32; 2], p: [u32; 3], m: u32) -> nat {
    (combine_value(a, b, x) % val3(p)) % (m as nat)
}

/// One full evaluation, combiner then reducer: `h(X) = ((A*X + B) mod P) mod m`.
pub fn mmp_hash(a: [u32; 3], b: [u32; 3], x: [u32; 2], p: [u32; 3], m: u32) -> (r: u32)
    requires
        val3(p) > 0,
        m > 0,
    ensures
        r == hash_value(a, b, x, p, m),
        r < m,
{
    let y = combine(a, b, x);
    reduce(p, m, y)
}

/// Additivity of the offset: clearing `B` lowers the accumulator by exactly
/// `B`, under exact (non-wrapping) 160-bit arithmetic.
pub proof fn lemma_offset_additivity(a: [u32; 3], z: [u32; 3], b: [u32; 3], x: [u32; 2])
    requires
        val3(z) == 0,
    ensures
        combine_value(a, z, x) == combine_value(a, b, x) - val3(b),
{
}

/// Identity multiplier: with `A == 1` and `B == 0` the accumulator is `X`
/// itself, extended by zero words.
pub proof fn lemma_identity_multiplier(a: [u32; 3], b: [u32; 3], x: [u32; 2], y: [u32; 5])
    requires
        val3(a) == 1,
        val3(b) == 0,
        val5(y) == combine_value(a, b, x),
    ensures
        y[0] == x[0],
        y[1] == x[1],
        y[2] == 0,
        y[3] == 0,
        y[4] == 0,
{
    lemma_mul_basics(val2(x) as int);
    assert(val5(y) == val2(x));
    assert(y[4] == 0 && y[3] == 0 && y[2] == 0);
    let k = (y[1] - x[1]) as int;
    assert(y[0] - x[0] + k * 0x1_0000_0000 == 0);
    assert(k == 0);
}

/// Determinism of the full pipeline: two results on the same operands agree,
/// since each equals the hash value of the inputs alone.
pub proof fn lemma_hash_deterministic(
    a: [u32; 3],
    b: [u32; 3],
    x: [u32; 2],
    p: [u32; 3],
    m: u32,
    r1: u32,
    r2: u32,
)
    requires
        r1 == hash_value(a, b, x, p, m),
        r2 == hash_value(a, b, x, p, m),
    ensures
        r1 == r2,
{
}

/// Magnitude cap on the first reduction phase: the multiples of `P` it must
/// remove number `(A*X + B) / P`, and with both keys below `P` that quotient
/// never exceeds the input value `X`.
pub proof fn lemma_reduction_cap(a: [u32; 3], b: [u32; 3], x: [u32; 2], p: [u32; 3])
    requires
        val3(p) > 0,
        val3(a) < val3(p),
        val3(b) < val3(p),
    ensures
        combine_value(a, b, x) / val3(p) <= val2(x),
{
    let va = val3(a) as int;
    let vb = val3(b) as int;
    let vx = val2(x) as int;
    let vp = val3(p) as int;
    assert(va * vx + vb < vp * (vx + 1)) by (nonlinear_arith)
        requires
            va <= vp - 1,
            0 <= vb <= vp - 1,
            vx >= 0,
            vp >= 1,
    ;
    lemma_multiply_divide_lt(va * vx + vb, vp, vx + 1);
}

} // verus!
