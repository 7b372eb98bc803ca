//! Saturating fixed-point scalars.
//!
//! A scalar is an `i64` counting units of `1/SCALE`; every value the library
//! produces stays within `[-BOUND, BOUND]`, and the arithmetic saturates at
//! those bounds instead of overflowing, so extreme-but-valid configurations
//! (deep recursion with growing length ratios) can never crash or wrap.

use vstd::prelude::*;

verus! {

/// Number of fixed-point units in 1.0.
pub const SCALE: i64 = 65536;

/// Largest magnitude a scalar may carry; arithmetic saturates here.
pub const BOUND: i64 = 0x4000_0000_0000;

pub open spec fn in_range(a: int) -> bool {
    -(BOUND as int) <= a && a <= BOUND as int
}

/// Saturate an unbounded value into the representable range.
pub open spec fn sat(v: int) -> int {
    if v < -(BOUND as int) {
        -(BOUND as int)
    } else if v > BOUND as int {
        BOUND as int
    } else {
        v
    }
}

/// Division rounded toward zero, for a positive divisor.
pub open spec fn tdiv(a: int, b: int) -> int {
    if a >= 0 {
        a / b
    } else {
        -((-a) / b)
    }
}

/// Division by SCALE, rounded toward zero.
pub open spec fn div_scale(v: int) -> int {
    tdiv(v, SCALE as int)
}

/// A product of nonnegative values is bounded by the product of their bounds.
pub proof fn lemma_mul_le(a: int, b: int, am: int, bm: int)
    by (nonlinear_arith)
    requires
        0 <= a <= am,
        0 <= b <= bm,
    ensures
        0 <= a * b,
        a * b <= am * bm,
{
}

/// Saturating fixed-point sum.
pub open spec fn fx_add(a: int, b: int) -> int {
    sat(a + b)
}

/// Saturating fixed-point difference.
pub open spec fn fx_sub(a: int, b: int) -> int {
    sat(a - b)
}

/// Saturating fixed-point product: `(a * b) / SCALE`, rounded toward zero.
pub open spec fn fx_mul(a: int, b: int) -> int {
    sat(div_scale(a * b))
}

pub fn add_sat(a: i64, b: i64) -> (r: i64)
    requires
        in_range(a as int),
        in_range(b as int),
    ensures
        r == fx_add(a as int, b as int),
{
    let s: i64 = a + b;
    if s < -BOUND {
        -BOUND
    } else if s > BOUND {
        BOUND
    } else {
        s
    }
}

pub fn sub_sat(a: i64, b: i64) -> (r: i64)
    requires
        in_range(a as int),
        in_range(b as int),
    ensures
        r == fx_sub(a as int, b as int),
{
    let s: i64 = a - b;
    if s < -BOUND {
        -BOUND
    } else if s > BOUND {
        BOUND
    } else {
        s
    }
}

pub fn mul_sat(a: i64, b: i64) -> (r: i64)
    requires
        in_range(a as int),
        in_range(b as int),
    ensures
        r == fx_mul(a as int, b as int),
{
    let neg: bool = (a < 0) != (b < 0);
    let aa: u64 = if a >= 0 { a as u64 } else { (-a) as u64 };
    let bb: u64 = if b >= 0 { b as u64 } else { (-b) as u64 };
    proof {
        assert((aa as int) * (bb as int) <= (BOUND as int) * (BOUND as int)) by (nonlinear_arith)
            requires
                0 <= aa as int <= BOUND as int,
                0 <= bb as int <= BOUND as int;
    }
    let p: u128 = (aa as u128) * (bb as u128);
    proof {
        let ai = a as int;
        let bi = b as int;
        assert(p == if ai * bi >= 0 { ai * bi } else { -(ai * bi) }) by (nonlinear_arith)
            requires
                p == (aa as int) * (bb as int),
                aa as int == (if ai >= 0 { ai } else { -ai }),
                bb as int == (if bi >= 0 { bi } else { -bi });
        assert(neg && p != 0 ==> ai * bi < 0) by (nonlinear_arith)
            requires
                p == (aa as int) * (bb as int),
                aa as int == (if ai >= 0 { ai } else { -ai }),
                bb as int == (if bi >= 0 { bi } else { -bi }),
                neg == ((ai < 0) != (bi < 0));
        assert(!neg ==> ai * bi >= 0) by (nonlinear_arith)
            requires
                aa as int == (if ai >= 0 { ai } else { -ai }),
                bb as int == (if bi >= 0 { bi } else { -bi }),
                neg == ((ai < 0) != (bi < 0));
    }
    let q: u128 = p / (SCALE as u128);
    let qs: i64 = if q > (BOUND as u128) { BOUND } else { q as i64 };
    if neg {
        -qs
    } else {
        qs
    }
}

/// The unit interval `[0, 1]` is closed under the fixed-point product.
pub proof fn lemma_mul_unit(a: int, b: int)
    requires
        0 <= a <= SCALE as int,
        0 <= b <= SCALE as int,
    ensures
        0 <= fx_mul(a, b) <= SCALE as int,
        fx_mul(a, b) <= b,
{
    assert(0 <= a * b <= (SCALE as int) * b) by (nonlinear_arith)
        requires
            0 <= a <= SCALE as int,
            0 <= b;
    vstd::arithmetic::div_mod::lemma_div_pos_is_pos(a * b, SCALE as int);
    assert(a * b / (SCALE as int) <= (SCALE as int) * b / (SCALE as int)) by {
        vstd::arithmetic::div_mod::lemma_div_is_ordered(a * b, (SCALE as int) * b, SCALE as int);
    }
    assert((SCALE as int) * b / (SCALE as int) == b) by {
        vstd::arithmetic::div_mod::lemma_div_multiples_vanish(b, SCALE as int);
    }
}

} // verus!
