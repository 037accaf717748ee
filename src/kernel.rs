//! Fixed-point constants of the engine and the scalar helpers it computes with.
//!
//! The smoothing kernels are one family throughout, all with interaction
//! radius `h`: the density kernel `6 / (pi h^4) (h^2 - r^2)^2`, the
//! pressure-gradient kernel `12 / (pi h^4) (h - r)` and the viscosity
//! kernel `4 / (pi h^8) (h^2 - r^2)^3`, each folded with its units into one
//! integer coefficient. The kernels read `h^2 - r^2` in steps of
//! `h^2 / KERNEL_STEP` and divide rounding toward zero.
use vstd::prelude::*;
use crate::particle::Vec2;

verus! {

/// Interaction radius `h`, which is also the side of a grid cell.
pub const KERNEL_RADIUS: i64 = 10_000;

/// `h * h`.
pub const KERNEL_RADIUS_SQ: i64 = 100_000_000;

/// Visual radius of a particle; also the spacing of the initial lattice.
pub const PARTICLE_SIZE: i64 = 5_000;

/// Most particles a simulation holds. Densities are at most this many times
/// `POLY6_PEAK`, which bounds pressures to about `6 * 10^11` in billionths.
/// Each pair force then stays below `3 * 10^30`, and a force summed over all
/// particles stays below `3 * 10^35`, inside `i128`. The initial lattice of
/// this many particles, at least one per row, also stays below
/// `POSITION_LIMIT`. Real-time use sits far below this.
pub const MAX_PARTICLES: usize = 100_000;

/// Largest field side, ten field units. The grid then has at most a thousand
/// cells on a side, a million in all, and every squared distance between two
/// positions fits in `i64`.
pub const MAX_EXTENT: i64 = 10_000_000;

/// Bound on every coordinate a particle ever holds.
pub const POSITION_LIMIT: i64 = 1_000_000_000;

/// Largest integer square root: `r * r <= n < (r + 1) * (r + 1)`.
pub open spec fn is_isqrt(n: int, r: int) -> bool {
    0 <= r && r * r <= n && n < (r + 1) * (r + 1)
}

/// Integer square root of `n`, rounded down.
pub fn isqrt(n: u64) -> (r: u64)
    requires
        n <= 9_000_000_000_000_000_000,
    ensures
        is_isqrt(n as int, r as int),
{
    let mut lo: u64 = 0;
    let mut hi: u64 = 3_037_000_500;
    assert(3_037_000_500 * 3_037_000_500 > 9_000_000_000_000_000_000) by (nonlinear_arith);
    while hi - lo > 1
        invariant
            lo < hi <= 3_037_000_500,
            lo * lo <= n,
            n < hi * hi,
        decreases hi - lo,
    {
        let mid: u64 = lo + (hi - lo) / 2;
        assert(mid * mid <= hi * hi) by (nonlinear_arith)
            requires mid < hi;
        assert(hi * hi <= 3_037_000_500 * 3_037_000_500) by (nonlinear_arith)
            requires hi <= 3_037_000_500;
        if mid * mid <= n {
            lo = mid;
        } else {
            hi = mid;
        }
    }
    assert(hi == lo + 1);
    lo
}

/// Granularity of the kernel argument `h^2 - r^2`: the kernels see it in
/// steps of `h^2 / 10_000`.
pub const KERNEL_STEP: i64 = 10_000;

/// Density a particle contributes at distance zero, `6 / pi` in millionths.
pub const POLY6_PEAK: i64 = 1_909_859;

/// Rest density of the equation of state, in millionths.
pub const TARGET_DENSITY: i64 = 8_000_000;

/// Stiffness of the equation of state: billionths of pressure per millionth
/// of density above the rest density.
pub const STIFFNESS: i64 = 3;

/// Coefficient of the pressure-gradient kernel.
pub const SPIKY_COEFF: i64 = 190_986;

/// Coefficient of the viscosity kernel.
pub const VISC_COEFF: i64 = 6_366_198;

/// Gravity is `-98 / 10_000` thousandths of force per millionth of density.
pub const GRAVITY_NUM: i64 = 98;

pub const GRAVITY_DEN: i64 = 10_000;

/// Forces saturate at this magnitude per component, in thousandths.
pub const FORCE_LIMIT: i64 = 1_000_000_000_000;

/// Speeds saturate at this magnitude per component, a thousand field units per second.
pub const SPEED_LIMIT: i64 = 1_000_000_000;

/// Densities never exceed what every particle stacked on one point gives.
pub const DENSITY_LIMIT: i64 = 190_985_900_000;

/// Magnitude bound on pressures.
pub const PRESSURE_LIMIT: i64 = 600_000_000_000;

/// Squared distance between two points.
pub open spec fn dist2(a: Vec2, b: Vec2) -> int {
    (b.x - a.x) * (b.x - a.x) + (b.y - a.y) * (b.y - a.y)
}

/// `h^2 - r^2` in kernel steps.
pub open spec fn kernel_arg(d2: int) -> int {
    (KERNEL_RADIUS_SQ - d2) / (KERNEL_STEP as int)
}

/// The density kernel `POLY6_PEAK * (1 - r^2 / h^2)^2`, zero from `r = h` on.
pub open spec fn density_weight(d2: int) -> int {
    if 0 <= d2 < KERNEL_RADIUS_SQ {
        POLY6_PEAK * kernel_arg(d2) * kernel_arg(d2) / (KERNEL_STEP * KERNEL_STEP) as int
    } else {
        0
    }
}

/// Linear equation of state.
pub open spec fn pressure_of(density: int) -> int {
    STIFFNESS * (density - TARGET_DENSITY)
}

/// Division rounded toward zero, by a positive divisor.
pub open spec fn div_toward_zero(a: int, b: int) -> int {
    if a >= 0 {
        a / b
    } else {
        -((-a) / b)
    }
}

/// `x` clamped to `[-limit, limit]`.
pub open spec fn saturate(x: int, limit: int) -> int {
    if x > limit {
        limit
    } else if x < -limit {
        -limit
    } else {
        x
    }
}

/// The integer square root, rounded down.
pub open spec fn sqrt_floor(n: int) -> int {
    choose|r: int| is_isqrt(n, r)
}

pub proof fn lemma_isqrt_unique(n: int, r: int, s: int)
    requires
        is_isqrt(n, r),
        is_isqrt(n, s),
    ensures
        r == s,
{
    if r < s {
        assert((r + 1) * (r + 1) <= s * s) by (nonlinear_arith)
            requires 0 <= r < s;
    } else if s < r {
        assert((s + 1) * (s + 1) <= r * r) by (nonlinear_arith)
            requires 0 <= s < r;
    }
}

/// Integer square root, returned together with the fact that it is `sqrt_floor`.
pub fn sqrt_floor_of(n: u64) -> (r: u64)
    requires
        n <= 9_000_000_000_000_000_000,
    ensures
        r == sqrt_floor(n as int),
        is_isqrt(n as int, r as int),
{
    let r = isqrt(n);
    proof {
        let s = sqrt_floor(n as int);
        assert(is_isqrt(n as int, s));
        lemma_isqrt_unique(n as int, r as int, s);
    }
    r
}

/// Density contribution at squared distance `d2` below `h^2`.
pub fn density_weight_of(d2: i64) -> (w: i64)
    requires
        0 <= d2 < KERNEL_RADIUS_SQ,
    ensures
        w == density_weight(d2 as int),
        0 <= w <= POLY6_PEAK,
{
    let a = (KERNEL_RADIUS_SQ - d2) / KERNEL_STEP;
    assert(0 <= a <= KERNEL_STEP);
    assert(0 <= a * a <= KERNEL_STEP * KERNEL_STEP) by (nonlinear_arith)
        requires 0 <= a <= KERNEL_STEP;
    assert(POLY6_PEAK * a * a <= POLY6_PEAK * (KERNEL_STEP * KERNEL_STEP)) by (nonlinear_arith)
        requires 0 <= a * a <= KERNEL_STEP * KERNEL_STEP;
    assert(0 <= POLY6_PEAK * a * a) by (nonlinear_arith)
        requires 0 <= a;
    POLY6_PEAK * a * a / (KERNEL_STEP * KERNEL_STEP)
}

/// Pressure of a density bounded by `DENSITY_LIMIT`.
pub fn pressure_from(density: i64) -> (p: i64)
    requires
        0 <= density <= DENSITY_LIMIT,
    ensures
        p == pressure_of(density as int),
        -PRESSURE_LIMIT <= p <= PRESSURE_LIMIT,
{
    STIFFNESS * (density - TARGET_DENSITY)
}

/// Division rounded toward zero, by a positive divisor.
pub fn div_toward_zero_of(a: i128, b: i128) -> (q: i128)
    requires
        0 < b,
        -0x7000_0000_0000_0000_0000_0000_0000_0000 <= a <= 0x7000_0000_0000_0000_0000_0000_0000_0000,
    ensures
        q == div_toward_zero(a as int, b as int),
        -(a as int) <= q <= a || a <= q <= -(a as int),
{
    if a >= 0 {
        assert(a / b <= a) by (nonlinear_arith)
            requires a >= 0, b > 0;
        a / b
    } else {
        let m = -a;
        assert(m / b <= m) by (nonlinear_arith)
            requires m >= 0, b > 0;
        -(m / b)
    }
}

} // verus!
