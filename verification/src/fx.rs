//! Exact fixed-point arithmetic for world coordinates, colors and scales.
//!
//! A quantity `v` in world units (or a color channel, or a pixels-per-world
//! zoom factor) is stored as the integer `v * UNIT`.  All operations round
//! toward negative infinity, so every result is pinned down exactly by the
//! mathematical Euclidean quotient.

use vstd::prelude::*;
use vstd::arithmetic::div_mod::{
    lemma_div_pos_is_pos, lemma_div_nonincreasing, lemma_fundamental_div_mod, lemma_mod_bound,
};

verus! {

/// Fixed-point fractional units per whole unit: coordinates and scales carry
/// eight decimal places, so every grid spacing candidate `{1,2,5} * 10^e`
/// with `e >= -8` is representable exactly.
pub const UNIT: i64 = 100_000_000;

/// Largest coordinate magnitude (in fixed-point units) the renderer accepts;
/// keeps every intermediate product of the transform pipeline inside `i128`.
pub const MAX_COORD: i64 = 1_000_000_000_000_000_000;

/// The fixed-point product `a * b`, scaled back down by `UNIT`.
pub open spec fn fx_mul(a: int, b: int) -> int {
    (a * b) / (UNIT as int)
}

/// The fixed-point quotient `a / b`, scaled up by `UNIT` before dividing.
pub open spec fn fx_div(a: int, b: int) -> int {
    (a * UNIT) / b
}

/// The quotient rounded toward positive infinity.
pub open spec fn ceil_div_spec(a: int, b: int) -> int {
    -((-a) / b)
}

/// A quotient by a positive divisor lies between the dividend and zero.
pub proof fn lemma_div_shrinks(a: int, b: int)
    requires
        1 <= b,
    ensures
        a >= 0 ==> 0 <= a / b <= a,
        a < 0 ==> a <= a / b <= 0,
{
    if a >= 0 {
        lemma_div_pos_is_pos(a, b);
        lemma_div_nonincreasing(a, b);
    } else {
        lemma_fundamental_div_mod(a, b);
        lemma_mod_bound(a, b);
        let q = a / b;
        let r = a % b;
        assert(a <= q <= 0) by (nonlinear_arith)
            requires
                a == b * q + r,
                0 <= r < b,
                a < 0,
                1 <= b,
        ;
    }
}

/// Euclidean (floor) division of `i128` values by a positive divisor.
pub(crate) fn floor_div_wide(a: i128, b: i128) -> (q: i128)
    requires
        b > 0,
    ensures
        q == a as int / b as int,
{
    proof {
        lemma_div_shrinks(a as int, b as int);
    }
    match a.checked_div_euclid(b) {
        Some(q) => q,
        None => {
            proof {
                assert(false);
            }
            0
        },
    }
}

/// Euclidean (floor) division of `i64` values by a positive divisor.
pub fn floor_div(a: i64, b: i64) -> (q: i64)
    requires
        b > 0,
    ensures
        q == a as int / b as int,
{
    proof {
        lemma_div_shrinks(a as int, b as int);
    }
    match a.checked_div_euclid(b) {
        Some(q) => q,
        None => {
            proof {
                assert(false);
            }
            0
        },
    }
}

/// Division of `i64` values by a positive divisor, rounded toward positive
/// infinity.
pub fn ceil_div(a: i64, b: i64) -> (q: i64)
    requires
        b > 0,
        a > i64::MIN,
    ensures
        q == ceil_div_spec(a as int, b as int),
{
    proof {
        lemma_div_shrinks(-a as int, b as int);
    }
    let neg_quot = floor_div(-a, b);
    -neg_quot
}

/// Euclidean remainder of `i64` values modulo a positive divisor; always in
/// `[0, b)`, so a negative grid index `-10` still counts as a multiple of 10.
pub fn euclid_rem(a: i64, b: i64) -> (r: i64)
    requires
        b > 0,
    ensures
        r == a as int % b as int,
{
    proof {
        lemma_mod_bound(a as int, b as int);
    }
    match a.checked_rem_euclid(b) {
        Some(r) => r,
        None => {
            proof {
                assert(false);
            }
            0
        },
    }
}

/// A floor quotient times its divisor lands within one divisor below the
/// dividend: grid line `lo_index * spacing` starts at most one interval left
/// of the viewport edge.
pub proof fn lemma_floor_div_mul_bounds(a: int, b: int)
    requires
        0 < b,
    ensures
        a - b < (a / b) * b <= a,
{
    lemma_fundamental_div_mod(a, b);
    lemma_mod_bound(a, b);
    assert((a / b) * b == b * (a / b)) by (nonlinear_arith);
}

/// A ceiling quotient times its divisor lands within one divisor above the
/// dividend: grid line `hi_index * spacing` ends at most one interval right
/// of the viewport edge.
pub proof fn lemma_ceil_div_mul_bounds(a: int, b: int)
    requires
        0 < b,
    ensures
        a <= ceil_div_spec(a, b) * b < a + b,
{
    lemma_fundamental_div_mod(-a, b);
    lemma_mod_bound(-a, b);
    assert(ceil_div_spec(a, b) * b == -(b * ((-a) / b))) by (nonlinear_arith)
        requires
            ceil_div_spec(a, b) == -((-a) / b),
    ;
}

/// A product of two `i64` values always fits in `i128`.
proof fn lemma_i64_product_fits_wide(a: int, b: int)
    requires
        i64::MIN <= a <= i64::MAX,
        i64::MIN <= b <= i64::MAX,
    ensures
        i128::MIN <= a * b <= i128::MAX,
{
    assert(i128::MIN <= a * b <= i128::MAX) by (nonlinear_arith)
        requires
            -0x8000_0000_0000_0000 <= a <= 0x7fff_ffff_ffff_ffff,
            -0x8000_0000_0000_0000 <= b <= 0x7fff_ffff_ffff_ffff,
    ;
}

/// The exact wide product of two `i64` values.
pub fn mul_wide(a: i64, b: i64) -> (p: i128)
    ensures
        p == a as int * b as int,
{
    proof {
        lemma_i64_product_fits_wide(a as int, b as int);
    }
    (a as i128) * (b as i128)
}

/// Fixed-point multiplication: computes `fx_mul(a, b)` exactly.
pub fn mul_fx(a: i64, b: i64) -> (r: i64)
    requires
        i64::MIN <= fx_mul(a as int, b as int) <= i64::MAX,
    ensures
        r == fx_mul(a as int, b as int),
{
    let p = mul_wide(a, b);
    let q = floor_div_wide(p, UNIT as i128);
    q as i64
}

/// Fixed-point division by a positive divisor: computes `fx_div(a, b)`
/// exactly.
pub fn div_fx(a: i64, b: i64) -> (r: i64)
    requires
        b > 0,
        i64::MIN <= fx_div(a as int, b as int) <= i64::MAX,
    ensures
        r == fx_div(a as int, b as int),
{
    let p = mul_wide(a, UNIT);
    let q = floor_div_wide(p, b as i128);
    q as i64
}

} // verus!
