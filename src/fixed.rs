//! Deterministic fixed-point arithmetic used by the physics simulation.
//!
//! A quantity is an `i64` counting thousandths of its unit (a coordinate in
//! thousandths of a level cell, a time in milliseconds). Every result is
//! saturated to `[-LIMIT, LIMIT]`, so any chain of operations stays free of
//! overflow.
use vstd::prelude::*;

verus! {

/// Number of fixed-point steps in one unit.
pub const SCALE: i64 = 1000;

/// Largest magnitude of a fixed-point quantity.
pub const LIMIT: i64 = 1_000_000_000;

/// A quantity within the representable range.
pub open spec fn in_range(x: int) -> bool {
    -LIMIT <= x <= LIMIT
}

/// Clamps an exact value into the representable range.
pub open spec fn sat(x: int) -> int {
    if x > LIMIT {
        LIMIT as int
    } else if x < -LIMIT {
        -LIMIT
    } else {
        x
    }
}

/// Division rounding toward zero.
pub open spec fn div_trunc(x: int, d: int) -> int {
    if x >= 0 {
        x / d
    } else {
        -((-x) / d)
    }
}

/// Half of a value, rounded toward zero.
pub open spec fn half_spec(x: int) -> int {
    div_trunc(x, 2)
}

/// Saturated sum.
pub open spec fn add_spec(a: int, b: int) -> int {
    sat(a + b)
}

/// Saturated difference.
pub open spec fn sub_spec(a: int, b: int) -> int {
    sat(a - b)
}

/// Saturated fixed-point product, rounded toward zero.
pub open spec fn mul_spec(a: int, b: int) -> int {
    sat(div_trunc(a * b, SCALE as int))
}

/// Clamps `x` to `[-cap, cap]`.
pub open spec fn clamp_abs_spec(x: int, cap: int) -> int {
    if x > cap {
        cap
    } else if x < -cap {
        -cap
    } else {
        x
    }
}

/// Sign of a value: -1, 0 or 1.
pub open spec fn signum_spec(x: int) -> int {
    if x > 0 {
        1
    } else if x < 0 {
        -1
    } else {
        0
    }
}

pub open spec fn abs_spec(x: int) -> int {
    if x < 0 {
        -x
    } else {
        x
    }
}

pub fn saturate(x: i128) -> (r: i64)
    ensures
        r == sat(x as int),
{
    if x > LIMIT as i128 {
        LIMIT
    } else if x < -(LIMIT as i128) {
        -LIMIT
    } else {
        x as i64
    }
}

pub fn fx_add(a: i64, b: i64) -> (r: i64)
    ensures
        r == add_spec(a as int, b as int),
        in_range(r as int),
{
    saturate(a as i128 + b as i128)
}

pub fn fx_sub(a: i64, b: i64) -> (r: i64)
    ensures
        r == sub_spec(a as int, b as int),
        in_range(r as int),
{
    saturate(a as i128 - b as i128)
}

pub fn fx_mul(a: i64, b: i64) -> (r: i64)
    requires
        in_range(a as int),
        in_range(b as int),
    ensures
        r == mul_spec(a as int, b as int),
        in_range(r as int),
{
    assert(-1_000_000_000_000_000_000 <= a * b <= 1_000_000_000_000_000_000) by (nonlinear_arith)
        requires
            -LIMIT <= a <= LIMIT,
            -LIMIT <= b <= LIMIT,
    ;
    let p: i128 = a as i128 * b as i128;
    let q: i128 = if p >= 0 {
        p / (SCALE as i128)
    } else {
        -((-p) / (SCALE as i128))
    };
    saturate(q)
}

pub fn fx_half(x: i64) -> (r: i64)
    requires
        -4 * LIMIT <= x <= 4 * LIMIT,
    ensures
        r == half_spec(x as int),
{
    if x >= 0 {
        x / 2
    } else {
        -((-x) / 2)
    }
}

/// Division rounding toward zero, for a positive divisor.
pub fn div_trunc_wide(x: i128, d: i128) -> (r: i128)
    requires
        d > 0,
        -0x1_0000_0000_0000_0000_0000_0000 <= x <= 0x1_0000_0000_0000_0000_0000_0000,
    ensures
        r == div_trunc(x as int, d as int),
        -0x1_0000_0000_0000_0000_0000_0000 <= r <= 0x1_0000_0000_0000_0000_0000_0000,
{
    if x >= 0 {
        assert(x / d <= x) by (nonlinear_arith)
            requires
                x >= 0,
                d > 0,
        ;
        x / d
    } else {
        assert((-x) / (d as int) <= -x) by (nonlinear_arith)
            requires
                -x > 0,
                d > 0,
        ;
        -((-x) / d)
    }
}

pub fn fx_clamp_abs(x: i64, cap: i64) -> (r: i64)
    requires
        in_range(x as int),
        0 <= cap <= LIMIT,
    ensures
        r == clamp_abs_spec(x as int, cap as int),
        in_range(r as int),
{
    if x > cap {
        cap
    } else if x < -cap {
        -cap
    } else {
        x
    }
}

pub fn fx_signum(x: i64) -> (r: i64)
    ensures
        r == signum_spec(x as int),
{
    if x > 0 {
        1
    } else if x < 0 {
        -1
    } else {
        0
    }
}

pub fn fx_abs(x: i64) -> (r: i64)
    requires
        in_range(x as int),
    ensures
        r == abs_spec(x as int),
        in_range(r as int),
{
    if x < 0 {
        -x
    } else {
        x
    }
}

} // verus!
