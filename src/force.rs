//! The force pass: pressure-gradient and viscous forces summed over every
//! other particle within the interaction radius, plus gravity.
use vstd::prelude::*;
use crate::density::{dist2_of, lemma_prefix_indices};
use crate::grid::{Cells, positions_of, lemma_neighborhood_superset};
use crate::kernel::{
    KERNEL_RADIUS, KERNEL_RADIUS_SQ, KERNEL_STEP, MAX_PARTICLES, SPEED_LIMIT, POLY6_PEAK, DENSITY_LIMIT,
    PRESSURE_LIMIT, SPIKY_COEFF, VISC_COEFF, GRAVITY_NUM, GRAVITY_DEN, FORCE_LIMIT, dist2, kernel_arg,
    div_toward_zero, div_toward_zero_of, saturate, sqrt_floor, sqrt_floor_of,
};
use crate::particle::{Particle, Vec2, particle_bounded, all_bounded};
use crate::sums::{
    indices_below, restrict, sum_over, sum_upto, lemma_sum_over_complete, lemma_sum_over_restrict,
    lemma_sum_upto_bounds,
};

verus! {

/// Bound on one pair's force component.
pub const PAIR_FORCE_BOUND: i128 = 3_000_000_000_000_000_000_000_000_000_000;

/// Density and pressure within the ranges the density pass produces.
pub open spec fn fluid_ok(p: Particle) -> bool {
    &&& POLY6_PEAK <= p.density <= DENSITY_LIMIT
    &&& -PRESSURE_LIMIT <= p.pressure <= PRESSURE_LIMIT
}

pub open spec fn all_fluid_ok(ps: Seq<Particle>) -> bool {
    forall|i: int| 0 <= i < ps.len() ==> fluid_ok(#[trigger] ps[i])
}

/// The pair distance is taken in units this many times finer than a length
/// unit, so that rounding it down changes `h - r` and the direction `d / r`
/// by at most a hundred-thousandth of a length unit in `r`.
pub const DISTANCE_REFINE: i64 = 100_000;

/// `DISTANCE_REFINE` squared.
pub const DISTANCE_REFINE_SQ: i64 = 10_000_000_000;

/// Pressure-gradient force of `pj` on `pi` along one axis, where `d` is that
/// axis's component of `pj - pi`:
/// `-(P_i + P_j) / 2 * grad W_spiky(r) * d / r / rho_j`, with `r` in units
/// of `1 / DISTANCE_REFINE`.
pub open spec fn pressure_term(pi: Particle, pj: Particle, d: int) -> int {
    let r = sqrt_floor(dist2(pi.position, pj.position) * DISTANCE_REFINE_SQ);
    div_toward_zero(
        -(pi.pressure + pj.pressure) * SPIKY_COEFF * (KERNEL_RADIUS * DISTANCE_REFINE - r) * d,
        1000 * r * pj.density,
    )
}

/// Viscous force of `pj` on `pi` along one axis, where `dv` is that axis's
/// component of `v_j - v_i`: `mu * lap W_visc(r) * dv / rho_j`.
pub open spec fn viscosity_term(pi: Particle, pj: Particle, dv: int) -> int {
    let a = kernel_arg(dist2(pi.position, pj.position));
    div_toward_zero(VISC_COEFF * a * a * a * dv, 1_000_000_000_000 * pj.density)
}

/// Whether `pj` pushes on `pi`: strictly between zero distance and the
/// interaction radius. Coincident particles are left out, as they give no direction.
pub open spec fn interacts(pi: Particle, pj: Particle) -> bool {
    0 < dist2(pi.position, pj.position) < KERNEL_RADIUS_SQ
}

pub open spec fn pair_force_x(pi: Particle, pj: Particle) -> int {
    if interacts(pi, pj) {
        pressure_term(pi, pj, pj.position.x - pi.position.x) + viscosity_term(
            pi,
            pj,
            pj.velocity.x - pi.velocity.x,
        )
    } else {
        0
    }
}

pub open spec fn pair_force_y(pi: Particle, pj: Particle) -> int {
    if interacts(pi, pj) {
        pressure_term(pi, pj, pj.position.y - pi.position.y) + viscosity_term(
            pi,
            pj,
            pj.velocity.y - pi.velocity.y,
        )
    } else {
        0
    }
}

pub open spec fn force_terms_x(ps: Seq<Particle>, i: int) -> spec_fn(int) -> int {
    |j: int| pair_force_x(ps[i], ps[j])
}

pub open spec fn force_terms_y(ps: Seq<Particle>, i: int) -> spec_fn(int) -> int {
    |j: int| pair_force_y(ps[i], ps[j])
}

/// Weight of a particle of the given density: `density * 9.8` in thousandths.
pub open spec fn gravity_of(density: int) -> int {
    density * GRAVITY_NUM / (GRAVITY_DEN as int)
}

/// Net force on particle `i`: pressure and viscosity summed over every other
/// particle in reach, plus gravity, each component saturated at `FORCE_LIMIT`.
pub open spec fn force_at(ps: Seq<Particle>, i: int) -> Vec2 {
    Vec2 {
        x: saturate(sum_upto(force_terms_x(ps, i), ps.len() as int), FORCE_LIMIT as int) as i64,
        y: saturate(
            sum_upto(force_terms_y(ps, i), ps.len() as int) - gravity_of(ps[i].density as int),
            FORCE_LIMIT as int,
        ) as i64,
    }
}

/// The particles with the net force recomputed.
pub open spec fn with_force(ps: Seq<Particle>) -> Seq<Particle> {
    Seq::new(ps.len(), |i: int| Particle { force: force_at(ps, i), ..ps[i] })
}

proof fn lemma_mul_bound(x: int, y: int, bx: int, by_: int)
    requires
        -bx <= x <= bx,
        -by_ <= y <= by_,
    ensures
        -(bx * by_) <= x * y <= bx * by_,
{
    assert(-(bx * by_) <= x * y <= bx * by_) by (nonlinear_arith)
        requires -bx <= x <= bx, -by_ <= y <= by_;
}

/// A coordinate difference is bounded by the distance.
pub(crate) proof fn lemma_component_below(dx: int, dy: int, h: int)
    requires
        0 < h,
        dx * dx + dy * dy < h * h,
    ensures
        -h < dx < h,
        -h < dy < h,
{
    assert(-h < dx < h && -h < dy < h) by (nonlinear_arith)
        requires dx * dx + dy * dy < h * h, h > 0;
}

/// One axis of a pair's force, from the pair's shared factors.
fn pair_axis(press_k: i128, visc_k: i128, press_den: i128, visc_den: i128, d: i64, dv: i64) -> (f: i128)
    requires
        -230_000_000_000_000_000_000_000_000 <= press_k <= 230_000_000_000_000_000_000_000_000,
        0 <= visc_k <= 6_366_198_000_000_000_000,
        0 < press_den,
        0 < visc_den,
        -KERNEL_RADIUS <= d <= KERNEL_RADIUS,
        -2 * SPEED_LIMIT <= dv <= 2 * SPEED_LIMIT,
    ensures
        f == div_toward_zero(press_k * d, press_den as int) + div_toward_zero(visc_k * dv, visc_den as int),
        -PAIR_FORCE_BOUND <= f <= PAIR_FORCE_BOUND,
{
    proof {
        lemma_mul_bound(press_k as int, d as int, 230_000_000_000_000_000_000_000_000, KERNEL_RADIUS as int);
        lemma_mul_bound(visc_k as int, dv as int, 6_366_198_000_000_000_000, 2 * SPEED_LIMIT);
    }
    let p = div_toward_zero_of(press_k * (d as i128), press_den);
    let v = div_toward_zero_of(visc_k * (dv as i128), visc_den);
    p + v
}

/// Pressure and viscosity force of `pj` on `pi`.
fn pair_force_of(pi: &Particle, pj: &Particle) -> (f: (i128, i128))
    requires
        particle_bounded(*pi),
        particle_bounded(*pj),
        fluid_ok(*pi),
        fluid_ok(*pj),
    ensures
        f.0 == pair_force_x(*pi, *pj),
        f.1 == pair_force_y(*pi, *pj),
        -PAIR_FORCE_BOUND <= f.0 <= PAIR_FORCE_BOUND,
        -PAIR_FORCE_BOUND <= f.1 <= PAIR_FORCE_BOUND,
{
    let d2 = dist2_of(pi.position, pj.position);
    if d2 == 0 || d2 >= KERNEL_RADIUS_SQ {
        return (0, 0);
    }
    let root = sqrt_floor_of((d2 as u64) * (DISTANCE_REFINE_SQ as u64));
    assert(root < 1_000_000_000) by (nonlinear_arith)
        requires root * root <= d2 * 10_000_000_000, d2 < 100_000_000, 0 <= root;
    let r = root as i64;
    let dx = pj.position.x - pi.position.x;
    let dy = pj.position.y - pi.position.y;
    let dvx = pj.velocity.x - pi.velocity.x;
    let dvy = pj.velocity.y - pi.velocity.y;
    proof {
        lemma_component_below(dx as int, dy as int, KERNEL_RADIUS as int);
        assert(1 <= r) by (nonlinear_arith)
            requires
                d2 * 10_000_000_000 < (r + 1) * (r + 1),
                0 < d2,
                0 <= r;
    }
    let a = (KERNEL_RADIUS_SQ - d2) / KERNEL_STEP;
    assert(0 <= a <= KERNEL_STEP);
    let psum = (pi.pressure + pj.pressure) as i128;
    let span = (KERNEL_RADIUS * DISTANCE_REFINE - r) as i128;
    proof {
        lemma_mul_bound(-psum as int, SPIKY_COEFF as int, 2 * PRESSURE_LIMIT, SPIKY_COEFF as int);
        lemma_mul_bound(-psum * SPIKY_COEFF, span as int, 2 * PRESSURE_LIMIT * SPIKY_COEFF, 1_000_000_000);
        assert(0 <= a * a <= 100_000_000) by (nonlinear_arith)
            requires 0 <= a <= 10_000;
        assert(0 <= a * a * a <= 1_000_000_000_000) by (nonlinear_arith)
            requires 0 <= a <= 10_000, 0 <= a * a <= 100_000_000;
        assert(0 <= VISC_COEFF * (a * a * a) <= 6_366_198_000_000_000_000) by (nonlinear_arith)
            requires 0 <= a * a * a <= 1_000_000_000_000;
        assert(0 < 1000 * r * pj.density) by (nonlinear_arith)
            requires 1 <= r, 1 <= pj.density;
        assert(1000 * r * pj.density <= 1000 * 1_000_000_000 * DENSITY_LIMIT) by (nonlinear_arith)
            requires 1 <= r <= 1_000_000_000, 1 <= pj.density <= DENSITY_LIMIT;
    }
    let press_k: i128 = -psum * (SPIKY_COEFF as i128) * span;
    let a3: i128 = (a as i128) * (a as i128) * (a as i128);
    let visc_k: i128 = (VISC_COEFF as i128) * a3;
    let press_den: i128 = 1000 * (r as i128) * (pj.density as i128);
    let visc_den: i128 = 1_000_000_000_000 * (pj.density as i128);
    let fx = pair_axis(press_k, visc_k, press_den, visc_den, dx, dvx);
    let fy = pair_axis(press_k, visc_k, press_den, visc_den, dy, dvy);
    proof {
        let s = sqrt_floor(dist2(pi.position, pj.position) * DISTANCE_REFINE_SQ);
        assert(s == r);
        assert(-(pi.pressure + pj.pressure) * SPIKY_COEFF * (KERNEL_RADIUS * DISTANCE_REFINE - r) * dx
            == press_k * dx);
        assert(-(pi.pressure + pj.pressure) * SPIKY_COEFF * (KERNEL_RADIUS * DISTANCE_REFINE - r) * dy
            == press_k * dy);
        assert(VISC_COEFF * a * a * a * dvx == visc_k * dvx) by (nonlinear_arith)
            requires visc_k == VISC_COEFF * (a * a * a);
        assert(VISC_COEFF * a * a * a * dvy == visc_k * dvy) by (nonlinear_arith)
            requires visc_k == VISC_COEFF * (a * a * a);
        assert(kernel_arg(dist2(pi.position, pj.position)) == a);
    }
    (fx, fy)
}

/// Sum bound for the pair forces on one particle.
pub const FORCE_SUM_BOUND: i128 = 300_000_000_000_000_000_000_000_000_000_000_000;

/// A prefix sum of pair forces over distinct candidates stays within
/// `MAX_PARTICLES` times the bound on one pair.
proof fn lemma_prefix_force_bound(s: Seq<u32>, f: spec_fn(int) -> int, n: int)
    requires
        s.no_duplicates(),
        indices_below(s, n),
        0 <= n <= MAX_PARTICLES,
        forall|m: int| 0 <= m < s.len() ==> -PAIR_FORCE_BOUND <= #[trigger] f(s[m] as int) <= PAIR_FORCE_BOUND,
    ensures
        -FORCE_SUM_BOUND <= sum_over(s, f) <= FORCE_SUM_BOUND,
{
    lemma_sum_over_restrict(s, f, n);
    let g = restrict(s, f);
    assert forall|t: int| 0 <= t < n implies -PAIR_FORCE_BOUND <= #[trigger] g(t) <= PAIR_FORCE_BOUND by {
        if s.contains(t as u32) {
            let m = choose|m: int| 0 <= m < s.len() && s[m] == t as u32;
            assert(t as u32 == t);
            assert(f(s[m] as int) == f(t));
        }
    }
    lemma_sum_upto_bounds(g, n, -PAIR_FORCE_BOUND as int, PAIR_FORCE_BOUND as int);
    assert(n * PAIR_FORCE_BOUND <= FORCE_SUM_BOUND) by (nonlinear_arith)
        requires 0 <= n <= MAX_PARTICLES;
    assert(n * (-PAIR_FORCE_BOUND) >= -FORCE_SUM_BOUND) by (nonlinear_arith)
        requires 0 <= n <= MAX_PARTICLES;
}

/// `x` saturated at `limit`, as a machine integer.
pub(crate) fn saturate_of(x: i128, limit: i64) -> (r: i64)
    requires
        0 <= limit,
    ensures
        r == saturate(x as int, limit as int),
{
    if x > limit as i128 {
        limit
    } else if x < -(limit as i128) {
        -limit
    } else {
        x as i64
    }
}

/// The net force on particle `i`, summed over the grid's candidates around it.
pub fn force_of_particle(particles: &Vec<Particle>, cells: &Cells, i: usize) -> (f: Vec2)
    requires
        cells.wf(),
        cells.size == KERNEL_RADIUS,
        cells.registered@ == positions_of(particles@),
        all_bounded(particles@),
        all_fluid_ok(particles@),
        i < particles@.len(),
    ensures
        f == force_at(particles@, i as int),
{
    let ghost ps = particles@;
    let ghost n = ps.len() as int;
    let ghost fx = force_terms_x(ps, i as int);
    let ghost fy = force_terms_y(ps, i as int);
    let pi = particles[i];
    assert(particle_bounded(ps[i as int]) && fluid_ok(ps[i as int]));
    let cand = cells.neighbors(&particles[i], KERNEL_RADIUS);
    let mut ax: i128 = 0;
    let mut ay: i128 = 0;
    let mut k: usize = 0;
    while k < cand.len()
        invariant
            0 <= k <= cand@.len(),
            cand@.no_duplicates(),
            indices_below(cand@, n),
            n == particles@.len(),
            n <= MAX_PARTICLES,
            ps == particles@,
            fx == force_terms_x(ps, i as int),
            fy == force_terms_y(ps, i as int),
            all_bounded(ps),
            all_fluid_ok(ps),
            i < n,
            pi == ps[i as int],
            forall|m: int|
                0 <= m < k ==> -PAIR_FORCE_BOUND <= #[trigger] fx(cand@[m] as int) <= PAIR_FORCE_BOUND,
            forall|m: int|
                0 <= m < k ==> -PAIR_FORCE_BOUND <= #[trigger] fy(cand@[m] as int) <= PAIR_FORCE_BOUND,
            ax == sum_over(cand@.subrange(0, k as int), fx),
            ay == sum_over(cand@.subrange(0, k as int), fy),
            -FORCE_SUM_BOUND <= ax <= FORCE_SUM_BOUND,
            -FORCE_SUM_BOUND <= ay <= FORCE_SUM_BOUND,
        decreases cand@.len() - k,
    {
        let j = cand[k];
        assert(particle_bounded(ps[j as int]) && fluid_ok(ps[j as int]));
        let pf = pair_force_of(&pi, &particles[j as usize]);
        let ghost after = cand@.subrange(0, k + 1);
        assert(after.drop_last() == cand@.subrange(0, k as int));
        assert(after.last() == j);
        proof {
            lemma_prefix_indices(cand@, k + 1, n);
            assert(fx(j as int) == pf.0 && fy(j as int) == pf.1);
            assert forall|m: int| 0 <= m < after.len() implies -PAIR_FORCE_BOUND <= #[trigger] fx(
                after[m] as int,
            ) <= PAIR_FORCE_BOUND && -PAIR_FORCE_BOUND <= fy(after[m] as int) <= PAIR_FORCE_BOUND by {
                assert(after[m] == cand@[m]);
            }
            lemma_prefix_force_bound(after, fx, n);
            lemma_prefix_force_bound(after, fy, n);
        }
        ax = ax + pf.0;
        ay = ay + pf.1;
        k = k + 1;
    }
    proof {
        assert(cand@.subrange(0, cand@.len() as int) == cand@);
        assert forall|j: int| 0 <= j < n && #[trigger] fx(j) != 0 implies cand@.contains(j as u32) by {
            assert(cells.registered@[j] == ps[j].position);
            lemma_neighborhood_superset(cells, ps[j].position, ps[i as int].position);
        }
        assert forall|j: int| 0 <= j < n && #[trigger] fy(j) != 0 implies cand@.contains(j as u32) by {
            assert(cells.registered@[j] == ps[j].position);
            lemma_neighborhood_superset(cells, ps[j].position, ps[i as int].position);
        }
        lemma_sum_over_complete(cand@, fx, n);
        lemma_sum_over_complete(cand@, fy, n);
    }
    let weight = pi.density * GRAVITY_NUM / GRAVITY_DEN;
    Vec2 { x: saturate_of(ax, FORCE_LIMIT), y: saturate_of(ay - weight as i128, FORCE_LIMIT) }
}

} // verus!
