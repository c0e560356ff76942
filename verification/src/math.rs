//! Integer vector geometry: the point type, the vector algebra used by the
//! plane test, and floor/ceiling division helpers.

use vstd::prelude::*;
use vstd::arithmetic::div_mod::{lemma_fundamental_div_mod, lemma_hoist_over_denominator};

verus! {

/// A 3-D point or vector in fixed-point subunits.
#[derive(Clone, Copy, PartialEq, Eq, Structural, Debug)]
pub struct Vec3i {
    pub x: i64,
    pub y: i64,
    pub z: i64,
}

impl View for Vec3i {
    type V = (int, int, int);

    open spec fn view(&self) -> (int, int, int) {
        (self.x as int, self.y as int, self.z as int)
    }
}

impl Vec3i {
    pub fn new(x: i64, y: i64, z: i64) -> (r: Vec3i)
        ensures
            r@ == (x as int, y as int, z as int),
    {
        Vec3i { x, y, z }
    }
}

/// Componentwise difference.
pub open spec fn sub3(a: (int, int, int), b: (int, int, int)) -> (int, int, int) {
    (a.0 - b.0, a.1 - b.1, a.2 - b.2)
}

/// Cross product.
pub open spec fn cross3(a: (int, int, int), b: (int, int, int)) -> (int, int, int) {
    (a.1 * b.2 - a.2 * b.1, a.2 * b.0 - a.0 * b.2, a.0 * b.1 - a.1 * b.0)
}

/// Dot product.
pub open spec fn dot3(a: (int, int, int), b: (int, int, int)) -> int {
    a.0 * b.0 + a.1 * b.1 + a.2 * b.2
}

/// Squared Euclidean length.
pub open spec fn norm2(a: (int, int, int)) -> int {
    dot3(a, a)
}

/// Component `k` of a triple (`0` is x, `1` is y, anything else z).
pub open spec fn comp3(v: (int, int, int), k: int) -> int {
    if k == 0 {
        v.0
    } else if k == 1 {
        v.1
    } else {
        v.2
    }
}

pub open spec fn spec_min2(a: int, b: int) -> int {
    if a <= b {
        a
    } else {
        b
    }
}

pub open spec fn spec_max2(a: int, b: int) -> int {
    if a >= b {
        a
    } else {
        b
    }
}

pub open spec fn spec_min3(a: int, b: int, c: int) -> int {
    if a <= b && a <= c {
        a
    } else if b <= c {
        b
    } else {
        c
    }
}

pub open spec fn spec_max3(a: int, b: int, c: int) -> int {
    if a >= b && a >= c {
        a
    } else if b >= c {
        b
    } else {
        c
    }
}

pub fn min3(a: i64, b: i64, c: i64) -> (r: i64)
    ensures
        r == spec_min3(a as int, b as int, c as int),
{
    if a <= b && a <= c {
        a
    } else if b <= c {
        b
    } else {
        c
    }
}

pub fn max3(a: i64, b: i64, c: i64) -> (r: i64)
    ensures
        r == spec_max3(a as int, b as int, c as int),
{
    if a >= b && a >= c {
        a
    } else if b >= c {
        b
    } else {
        c
    }
}

/// A product of bounded factors is bounded by the product of the bounds.
pub proof fn lemma_mul_bounds(a: int, b: int, m: int, n: int) by (nonlinear_arith)
    requires
        -m <= a <= m,
        -n <= b <= n,
        0 <= m,
        0 <= n,
    ensures
        -(m * n) <= a * b <= m * n,
{
}

proof fn lemma_scaled_index_bound_core(x: int, b: int, m: int, q: int, r: int) by (nonlinear_arith)
    requires
        1 <= b,
        0 <= m,
        m == b * q + r,
        0 <= r < b,
        -q <= x <= q,
    ensures
        -m <= x * b <= m,
{
}

/// An index bounded by `m / b` times the positive `b` stays within `m`.
pub proof fn lemma_scaled_index_bound(x: int, b: int, m: int)
    requires
        1 <= b,
        0 <= m,
        -(m / b) <= x <= m / b,
    ensures
        -m <= x * b <= m,
{
    lemma_fundamental_div_mod(m, b);
    lemma_scaled_index_bound_core(x, b, m, m / b, m % b);
}

/// Ceiling division for a positive divisor, on mathematical integers.
pub open spec fn ceil_div(a: int, b: int) -> int
    recommends
        b > 0,
{
    (a + b - 1) / b
}

/// Largest dividend magnitude `floor_div` accepts (`2^55`).
pub const DIV_ARG_LIMIT: i64 = 36028797018963968;

/// Largest divisor `floor_div` accepts (`2^42`).
pub const DIVISOR_LIMIT: i64 = 4398046511104;

/// The quotient of a bounded dividend by a positive divisor stays within the
/// dividend's bound.
proof fn lemma_div_bounds_core(a: int, b: int, q: int, r: int) by (nonlinear_arith)
    requires
        1 <= b,
        -DIV_ARG_LIMIT <= a <= DIV_ARG_LIMIT,
        a == b * q + r,
        0 <= r < b,
    ensures
        -DIV_ARG_LIMIT <= q <= DIV_ARG_LIMIT,
{
}

pub proof fn lemma_div_bounds(a: int, b: int)
    requires
        1 <= b,
        -DIV_ARG_LIMIT <= a <= DIV_ARG_LIMIT,
    ensures
        -DIV_ARG_LIMIT <= a / b <= DIV_ARG_LIMIT,
{
    lemma_fundamental_div_mod(a, b);
    lemma_div_bounds_core(a, b, a / b, a % b);
}

proof fn lemma_mul_succ(q: int, b: int) by (nonlinear_arith)
    ensures
        (q + 1) * b == b * q + b,
{
}

proof fn lemma_div_ratio_bound_core(a: int, b: int, t: int, q: int, r: int) by (nonlinear_arith)
    requires
        1 <= b,
        0 <= t,
        -(b * t) <= a <= b * t,
        a == b * q + r,
        0 <= r < b,
    ensures
        -t <= q <= t,
{
}

/// A dividend within `b * t` of zero has a quotient within `t` of zero.
pub proof fn lemma_div_ratio_bound(a: int, b: int, t: int)
    requires
        1 <= b,
        0 <= t,
        -(b * t) <= a <= b * t,
    ensures
        -t <= a / b <= t,
{
    lemma_fundamental_div_mod(a, b);
    lemma_div_ratio_bound_core(a, b, t, a / b, a % b);
}

/// Floor division of `a` by the positive `b`: the `/` of the specification
/// language, which rounds toward negative infinity for a positive divisor.
pub fn floor_div(a: i64, b: i64) -> (r: i64)
    requires
        1 <= b <= DIVISOR_LIMIT,
        -DIV_ARG_LIMIT <= a <= DIV_ARG_LIMIT,
    ensures
        r == a as int / b as int,
        -DIV_ARG_LIMIT <= r <= DIV_ARG_LIMIT,
{
    proof {
        lemma_fundamental_div_mod(DIV_ARG_LIMIT as int, b as int);
        lemma_div_bounds(DIV_ARG_LIMIT as int, b as int);
        lemma_mul_succ(DIV_ARG_LIMIT as int / b as int, b as int);
    }
    let k: i64 = ((36028797018963968u64 / (b as u64)) + 1) as i64;
    let big: i64 = a + k * b;
    assert(big >= 0 && big <= 144115188075855872i64);
    let q: u64 = (big as u64) / (b as u64);
    proof {
        lemma_hoist_over_denominator(a as int, k as int, b as nat);
        vstd::arithmetic::div_mod::lemma_div_nonincreasing(big as int, b as int);
        lemma_div_bounds(a as int, b as int);
    }
    (q as i64) - k
}

/// Ceiling division of `a` by the positive `b`.
pub fn ceil_div_exec(a: i64, b: i64) -> (r: i64)
    requires
        1 <= b <= DIVISOR_LIMIT,
        -DIV_ARG_LIMIT <= a <= 18014398509481984,
    ensures
        r == ceil_div(a as int, b as int),
{
    floor_div(a + (b - 1), b)
}

} // verus!
