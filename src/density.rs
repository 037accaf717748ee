//! The density and pressure pass: each particle's density is the
//! kernel-weighted sum over every particle, itself included, closer than the
//! interaction radius, and its pressure follows from the equation of state.
use vstd::prelude::*;
use crate::grid::{Cells, positions_of, lemma_neighborhood_superset};
use crate::kernel::{
    KERNEL_RADIUS, KERNEL_RADIUS_SQ, KERNEL_STEP, MAX_PARTICLES, POSITION_LIMIT, POLY6_PEAK, DENSITY_LIMIT,
    dist2, density_weight, kernel_arg, pressure_of, density_weight_of,
};
use crate::particle::{Particle, Vec2, particle_bounded, all_bounded};
use crate::sums::{
    indices_below, restrict, sum_over, sum_upto, lemma_sum_over_complete, lemma_sum_over_restrict,
    lemma_sum_upto_at_least, lemma_sum_upto_bounds,
};

verus! {

/// The density terms of particle `i`: what each particle `j` contributes.
pub open spec fn density_terms(ps: Seq<Particle>, i: int) -> spec_fn(int) -> int {
    |j: int| density_weight(dist2(ps[i].position, ps[j].position))
}

/// Density of particle `i`: the kernel-weighted sum over every particle,
/// itself included, closer than the interaction radius.
pub open spec fn density_at(ps: Seq<Particle>, i: int) -> int {
    sum_upto(density_terms(ps, i), ps.len() as int)
}

/// The particles with density and pressure recomputed.
pub open spec fn with_density(ps: Seq<Particle>) -> Seq<Particle> {
    Seq::new(
        ps.len(),
        |i: int|
            Particle {
                density: density_at(ps, i) as i64,
                pressure: pressure_of(density_at(ps, i)) as i64,
                ..ps[i]
            },
    )
}

pub proof fn lemma_density_weight_range(d2: int)
    ensures
        0 <= density_weight(d2) <= POLY6_PEAK,
        density_weight(0) == POLY6_PEAK,
{
    if 0 <= d2 < KERNEL_RADIUS_SQ {
        let a = kernel_arg(d2);
        assert(0 <= a <= KERNEL_STEP);
        assert(0 <= a * a <= KERNEL_STEP * KERNEL_STEP) by (nonlinear_arith)
            requires 0 <= a <= KERNEL_STEP;
        assert(POLY6_PEAK * a * a <= POLY6_PEAK * (KERNEL_STEP * KERNEL_STEP)) by (nonlinear_arith)
            requires 0 <= a * a <= KERNEL_STEP * KERNEL_STEP;
        assert(0 <= POLY6_PEAK * a * a) by (nonlinear_arith)
            requires 0 <= a;
    }
    assert(kernel_arg(0) == KERNEL_STEP);
    assert(POLY6_PEAK * KERNEL_STEP * KERNEL_STEP == 190_985_900_000_000int);
    assert(190_985_900_000_000int / 100_000_000int == POLY6_PEAK);
}

/// The density of a particle lies between its own contribution and what
/// every particle on one point would give.
pub proof fn lemma_density_range(ps: Seq<Particle>, i: int)
    requires
        0 <= i < ps.len() <= MAX_PARTICLES,
    ensures
        POLY6_PEAK <= density_at(ps, i) <= DENSITY_LIMIT,
{
    let f = density_terms(ps, i);
    let n = ps.len() as int;
    assert forall|j: int| 0 <= j < n implies 0 <= #[trigger] f(j) <= POLY6_PEAK by {
        lemma_density_weight_range(dist2(ps[i].position, ps[j].position));
    }
    lemma_density_weight_range(0);
    assert(dist2(ps[i].position, ps[i].position) == 0);
    lemma_sum_upto_at_least(f, n, i);
    lemma_sum_upto_bounds(f, n, 0, POLY6_PEAK as int);
    assert(n * POLY6_PEAK <= DENSITY_LIMIT) by (nonlinear_arith)
        requires n <= MAX_PARTICLES;
}

/// A prefix of a list of distinct indices below `n` is such a list too.
pub(crate) proof fn lemma_prefix_indices(s: Seq<u32>, k: int, n: int)
    requires
        s.no_duplicates(),
        indices_below(s, n),
        0 <= k <= s.len(),
    ensures
        s.subrange(0, k).no_duplicates(),
        indices_below(s.subrange(0, k), n),
{
    let t = s.subrange(0, k);
    assert forall|a: int, b: int| 0 <= a < t.len() && 0 <= b < t.len() && a != b implies t[a] != t[b] by {
        assert(t[a] == s[a] && t[b] == s[b]);
    }
    assert forall|m: int| 0 <= m < t.len() implies (#[trigger] t[m]) < n by {
        assert(t[m] == s[m]);
    }
}

/// Squared distance of two bounded positions.
pub(crate) fn dist2_of(a: Vec2, b: Vec2) -> (d: i64)
    requires
        -POSITION_LIMIT <= a.x <= POSITION_LIMIT,
        -POSITION_LIMIT <= a.y <= POSITION_LIMIT,
        -POSITION_LIMIT <= b.x <= POSITION_LIMIT,
        -POSITION_LIMIT <= b.y <= POSITION_LIMIT,
    ensures
        d == dist2(a, b),
        0 <= d <= 8_000_000_000_000_000_000,
{
    let dx = b.x - a.x;
    let dy = b.y - a.y;
    assert(0 <= dx * dx <= 4_000_000_000_000_000_000) by (nonlinear_arith)
        requires -2_000_000_000 <= dx <= 2_000_000_000;
    assert(0 <= dy * dy <= 4_000_000_000_000_000_000) by (nonlinear_arith)
        requires -2_000_000_000 <= dy <= 2_000_000_000;
    dx * dx + dy * dy
}

/// The density of particle `i`, summed over the grid's candidates around it.
pub fn density_of_particle(particles: &Vec<Particle>, cells: &Cells, i: usize) -> (d: i64)
    requires
        cells.wf(),
        cells.size == KERNEL_RADIUS,
        cells.registered@ == positions_of(particles@),
        all_bounded(particles@),
        i < particles@.len(),
    ensures
        d == density_at(particles@, i as int),
        POLY6_PEAK <= d <= DENSITY_LIMIT,
{
    let ghost ps = particles@;
    let ghost n = ps.len() as int;
    let ghost f = density_terms(ps, i as int);
    let pi = particles[i].position;
    let cand = cells.neighbors(&particles[i], KERNEL_RADIUS);
    let mut acc: i64 = 0;
    let mut k: usize = 0;
    proof {
        assert forall|j: int| 0 <= j < n implies 0 <= #[trigger] f(j) <= POLY6_PEAK by {
            lemma_density_weight_range(dist2(ps[i as int].position, ps[j].position));
        }
    }
    while k < cand.len()
        invariant
            0 <= k <= cand@.len(),
            cand@.no_duplicates(),
            indices_below(cand@, n),
            n == particles@.len(),
            n <= MAX_PARTICLES,
            ps == particles@,
            f == density_terms(ps, i as int),
            all_bounded(ps),
            i < n,
            pi == ps[i as int].position,
            forall|j: int| 0 <= j < n ==> 0 <= #[trigger] f(j) <= POLY6_PEAK,
            acc == sum_over(cand@.subrange(0, k as int), f),
            0 <= acc <= DENSITY_LIMIT,
        decreases cand@.len() - k,
    {
        let j = cand[k];
        let pj = particles[j as usize].position;
        assert(particle_bounded(ps[j as int]));
        assert(particle_bounded(ps[i as int]));
        let d2 = dist2_of(pi, pj);
        let ghost before = cand@.subrange(0, k as int);
        let ghost after = cand@.subrange(0, k + 1);
        assert(after.drop_last() == before);
        assert(after.last() == j);
        if d2 < KERNEL_RADIUS_SQ {
            let w = density_weight_of(d2);
            proof {
                lemma_prefix_indices(cand@, k + 1, n);
                lemma_sum_over_restrict(after, f, n);
                let g = restrict(after, f);
                assert forall|t: int| 0 <= t < n implies 0 <= #[trigger] g(t) <= POLY6_PEAK by {}
                lemma_sum_upto_bounds(g, n, 0, POLY6_PEAK as int);
                assert(n * POLY6_PEAK <= DENSITY_LIMIT) by (nonlinear_arith)
                    requires n <= MAX_PARTICLES;
            }
            acc = acc + w;
        }
        k = k + 1;
    }
    proof {
        assert(cand@.subrange(0, cand@.len() as int) == cand@);
        assert forall|j: int| 0 <= j < n && #[trigger] f(j) != 0 implies cand@.contains(j as u32) by {
            assert(cells.registered@[j] == ps[j].position);
            lemma_neighborhood_superset(cells, ps[j].position, ps[i as int].position);
        }
        lemma_sum_over_complete(cand@, f, n);
        lemma_density_range(ps, i as int);
    }
    acc
}

/// Density non-negativity: every density the density pass computes is at
/// least the particle's own contribution, and so positive.
pub proof fn lemma_density_nonnegative(ps: Seq<Particle>, i: int)
    requires
        0 <= i < ps.len() <= MAX_PARTICLES,
    ensures
        0 < POLY6_PEAK <= density_at(ps, i),
        0 < with_density(ps)[i].density,
{
    lemma_density_range(ps, i);
}

} // verus!
