//! The simulation state and the tick that advances it: grid rebuild,
//! density and pressure, forces, the external force, and integration with
//! boundary handling.
//!
//! Each pass over the particles computes every particle's new values from
//! the particles as they stood when the pass began, possibly on several
//! threads, and only then writes them back, so the outcome does not depend
//! on the order in which particles are visited.
use vstd::prelude::*;
use crate::density::{
    density_at, density_terms, with_density, density_of_particle, lemma_density_range,
    lemma_density_weight_range,
};
use crate::force::{
    all_fluid_ok, fluid_ok, force_at, force_terms_x, force_terms_y, gravity_of, interacts, with_force,
    force_of_particle,
};
use crate::grid::{Cells, cells_across, positions_of};
use crate::kernel::{
    KERNEL_RADIUS, KERNEL_RADIUS_SQ, MAX_PARTICLES, PARTICLE_SIZE, POLY6_PEAK, FORCE_LIMIT, STIFFNESS,
    TARGET_DENSITY, MAX_EXTENT, dist2, pressure_from,
};
use crate::motion::{
    MOUSE_RADIUS, pointer, mouse_push, push_has_strength, MouseInfo, field_ok, mouse_ok, pushed, with_mouse, with_integration, inside, push_particle,
    integrate_particle, lemma_boundary_containment, lemma_integrated_bounded,
};
use crate::parallel::par_map;
use crate::particle::{Field, Particle, Vec2, all_bounded, particle_bounded};
use crate::seeding::{seeded_draws, draw_u32s};
use crate::sums::lemma_sum_upto_single;

verus! {

/// Number of sub-steps one call of `update` advances.
pub const SOLVER_STEPS: usize = 10;

/// One sub-step: density and pressure, forces, the external force, then integration.
pub open spec fn substep(ps: Seq<Particle>, f: Field, m: MouseInfo) -> Seq<Particle> {
    with_integration(with_mouse(with_force(with_density(ps)), m), f)
}

/// `k` sub-steps.
pub open spec fn substeps(ps: Seq<Particle>, f: Field, m: MouseInfo, k: nat) -> Seq<Particle>
    decreases k,
{
    if k == 0 {
        ps
    } else {
        substep(substeps(ps, f, m, (k - 1) as nat), f, m)
    }
}

/// Every force component lies within `FORCE_LIMIT`.
pub open spec fn forces_ok(ps: Seq<Particle>) -> bool {
    forall|i: int|
        0 <= i < ps.len() ==> -FORCE_LIMIT <= (#[trigger] ps[i]).force.x <= FORCE_LIMIT && -FORCE_LIMIT
            <= ps[i].force.y <= FORCE_LIMIT
}

/// Every particle lies in the field inset by one interaction radius.
pub open spec fn all_inside(ps: Seq<Particle>, f: Field) -> bool {
    forall|i: int| 0 <= i < ps.len() ==> inside(#[trigger] ps[i], f)
}

/// Seed of the initial jitter.
pub const SEED: u64 = 12345;

/// Horizontal jitter of the initial lattice taken from one draw, below a
/// ten-thousandth of a field unit.
pub open spec fn jitter(d: u32) -> int {
    (d % 100) as int
}

/// Position of the `k`-th particle of the initial lattice. Rows start at a
/// tenth of the width, `2 h` above the floor; each particle sits one
/// particle size plus a jitter right of the one before, and a row ends once
/// that passes seven tenths of the width, the next row one particle size higher.
pub open spec fn placement(width: int, draws: Seq<u32>, k: int) -> Vec2
    decreases k,
{
    if k <= 0 {
        Vec2 { x: (width / 10) as i64, y: (2 * KERNEL_RADIUS) as i64 }
    } else {
        let prev = placement(width, draws, k - 1);
        let x = prev.x + PARTICLE_SIZE + jitter(draws[k - 1]);
        if 10 * x > 7 * width {
            Vec2 { x: (width / 10) as i64, y: (prev.y + PARTICLE_SIZE) as i64 }
        } else {
            Vec2 { x: x as i64, y: prev.y }
        }
    }
}

/// A particle at rest at `p`, of the standard size.
pub open spec fn at_rest(p: Vec2) -> Particle {
    Particle {
        position: p,
        velocity: Vec2 { x: 0, y: 0 },
        force: Vec2 { x: 0, y: 0 },
        pressure: 0,
        density: 0,
        size: PARTICLE_SIZE,
    }
}

/// The initial particles: `n` particles at rest on the seeded lattice.
pub open spec fn initial_particles(n: int, width: int) -> Seq<Particle> {
    Seq::new(n as nat, |k: int| at_rest(placement(width, seeded_draws(SEED, n as nat), k)))
}

proof fn lemma_placement_bounds(width: int, draws: Seq<u32>, k: int)
    requires
        2 * KERNEL_RADIUS <= width <= MAX_EXTENT,
        0 <= k <= MAX_PARTICLES,
    ensures
        width / 10 <= placement(width, draws, k).x,
        10 * placement(width, draws, k).x <= 7 * width,
        2 * KERNEL_RADIUS <= placement(width, draws, k).y <= 2 * KERNEL_RADIUS + k * PARTICLE_SIZE,
    decreases k,
{
    if k > 0 {
        lemma_placement_bounds(width, draws, k - 1);
        assert((k - 1) * PARTICLE_SIZE + PARTICLE_SIZE == k * PARTICLE_SIZE) by (nonlinear_arith);
        assert(k * PARTICLE_SIZE <= MAX_PARTICLES * PARTICLE_SIZE) by (nonlinear_arith)
            requires k <= MAX_PARTICLES;
    }
}

/// One particle at rest per draw, on the lattice of a field of the given
/// width jittered by those draws.
pub fn place_lattice(width: i64, draws: &Vec<u32>) -> (ps: Vec<Particle>)
    requires
        2 * KERNEL_RADIUS <= width <= MAX_EXTENT,
        draws@.len() <= MAX_PARTICLES,
    ensures
        ps@ == Seq::new(draws@.len(), |k: int| at_rest(placement(width as int, draws@, k))),
        all_bounded(ps@),
{
    let n = draws.len();
    let ghost ds = draws@;
    let mut particles: Vec<Particle> = Vec::new();
    let mut x: i64 = width / 10;
    let mut y: i64 = 2 * KERNEL_RADIUS;
    let mut k: usize = 0;
    while k < n
        invariant
            0 <= k <= n,
            n <= MAX_PARTICLES,
            draws@ == ds,
            ds.len() == n,
            2 * KERNEL_RADIUS <= width <= MAX_EXTENT,
            particles@.len() == k,
            x == placement(width as int, ds, k as int).x,
            y == placement(width as int, ds, k as int).y,
            forall|m: int| 0 <= m < k ==> #[trigger] particles@[m] == at_rest(placement(width as int, ds, m)),
            all_bounded(particles@),
        decreases n - k,
    {
        proof {
            lemma_placement_bounds(width as int, ds, k as int);
            assert(k * PARTICLE_SIZE <= MAX_PARTICLES * PARTICLE_SIZE) by (nonlinear_arith)
                requires 0 <= k <= MAX_PARTICLES;
        }
        let p = Particle {
            position: Vec2 { x, y },
            velocity: Vec2 { x: 0, y: 0 },
            force: Vec2 { x: 0, y: 0 },
            pressure: 0,
            density: 0,
            size: PARTICLE_SIZE,
        };
        particles.push(p);
        let next_x = x + PARTICLE_SIZE + (draws[k] % 100) as i64;
        if 10 * next_x > 7 * width {
            x = width / 10;
            y = y + PARTICLE_SIZE;
        } else {
            x = next_x;
        }
        k = k + 1;
        proof {
            assert(particles@[k - 1] == at_rest(placement(width as int, ds, k - 1)));
            assert forall|m: int| 0 <= m < particles@.len() implies particle_bounded(#[trigger] particles@[m]) by {
                lemma_placement_bounds(width as int, ds, m);
                assert(m * PARTICLE_SIZE <= MAX_PARTICLES * PARTICLE_SIZE) by (nonlinear_arith)
                    requires 0 <= m <= MAX_PARTICLES;
            }
        }
    }
    proof {
        assert(particles@ =~= Seq::new(n as nat, |k: int| at_rest(placement(width as int, ds, k))));
    }
    particles
}

/// The whole simulation: particles, field and grid.
pub struct State {
    pub num_particles: u32,
    pub particles: Vec<Particle>,
    pub field: Field,
    pub cells: Cells,
}

impl State {
    /// The particles are within the engine's limits and the grid is sized
    /// for the field with cells of one interaction radius.
    pub open spec fn wf(&self) -> bool {
        &&& self.particles@.len() == self.num_particles
        &&& self.num_particles <= MAX_PARTICLES
        &&& field_ok(self.field)
        &&& self.cells.wf()
        &&& self.cells.size == KERNEL_RADIUS
        &&& self.cells.nx == cells_across(self.field.width as int, KERNEL_RADIUS as int)
        &&& self.cells.ny == cells_across(self.field.height as int, KERNEL_RADIUS as int)
        &&& all_bounded(self.particles@)
    }

    /// A simulation of `num_particles` particles at rest on the seeded
    /// initial lattice of `field`.
    pub fn new(num_particles: u32, field: Field) -> (s: State)
        requires
            num_particles <= MAX_PARTICLES,
            field_ok(field),
        ensures
            s.wf(),
            s.num_particles == num_particles,
            s.field == field,
            s.particles@ == initial_particles(num_particles as int, field.width as int),
    {
        let particles = Self::init_particles(num_particles, &field);
        proof {
            assert(cells_across(field.width as int, KERNEL_RADIUS as int) <= 1000);
            assert(cells_across(field.height as int, KERNEL_RADIUS as int) <= 1000);
            assert(cells_across(field.width as int, KERNEL_RADIUS as int) * cells_across(
                field.height as int,
                KERNEL_RADIUS as int,
            ) <= 1_000_000) by (nonlinear_arith)
                requires
                    0 <= cells_across(field.width as int, KERNEL_RADIUS as int) <= 1000,
                    0 <= cells_across(field.height as int, KERNEL_RADIUS as int) <= 1000;
        }
        let cells = Cells::new(field.height, field.width, KERNEL_RADIUS);
        State { num_particles, particles, field, cells }
    }

    /// `num_particles` particles at rest on the lattice jittered by the
    /// seeded stream.
    pub fn init_particles(num_particles: u32, field: &Field) -> (ps: Vec<Particle>)
        requires
            num_particles <= MAX_PARTICLES,
            field_ok(*field),
        ensures
            ps@ == initial_particles(num_particles as int, field.width as int),
            all_bounded(ps@),
    {
        let n = num_particles as usize;
        let draws = draw_u32s(SEED, n);
        let particles = place_lattice(field.width, &draws);
        proof {
            assert(particles@ =~= initial_particles(num_particles as int, field.width as int));
        }
        particles
    }

    /// Recomputes every particle's density and pressure from the particles
    /// as they stand, through the grid.
    pub fn compute_density_pressure(&mut self)
        requires
            old(self).wf(),
            old(self).cells.registered@ == positions_of(old(self).particles@),
        ensures
            final(self).wf(),
            final(self).particles@ == with_density(old(self).particles@),
            final(self).cells == old(self).cells,
            final(self).field == old(self).field,
            final(self).num_particles == old(self).num_particles,
            all_fluid_ok(final(self).particles@),
            positions_of(final(self).particles@) == positions_of(old(self).particles@),
    {
        let n = self.particles.len();
        let ghost ps = self.particles@;
        let particles = &self.particles;
        let cells = &self.cells;
        let out = par_map(
            n,
            (|i: usize| -> (d: i64)
                requires
                    i < particles@.len(),
                    cells.wf(),
                    cells.size == KERNEL_RADIUS,
                    cells.registered@ == positions_of(particles@),
                    all_bounded(particles@),
                ensures
                    d == density_at(particles@, i as int),
                { density_of_particle(particles, cells, i) }),
        );
        for i in 0..n
            invariant
                n == ps.len(),
                self.particles@.len() == n,
                out@.len() == n,
                n <= MAX_PARTICLES,
                forall|k: int| 0 <= k < n ==> #[trigger] out@[k] == density_at(ps, k),
                forall|k: int| 0 <= k < i ==> #[trigger] self.particles@[k] == with_density(ps)[k],
                forall|k: int| i <= k < n ==> #[trigger] self.particles@[k] == ps[k],
                self.cells == old(self).cells,
                self.field == old(self).field,
                self.num_particles == old(self).num_particles,
                ps == old(self).particles@,
        {
            let d = out[i];
            proof {
                lemma_density_range(ps, i as int);
            }
            let mut p = self.particles[i];
            p.density = d;
            p.pressure = pressure_from(d);
            self.particles.set(i, p);
        }
        proof {
            assert(self.particles@ =~= with_density(ps));
            assert(positions_of(self.particles@) =~= positions_of(ps));
            assert forall|k: int| 0 <= k < n implies fluid_ok(#[trigger] self.particles@[k]) by {
                lemma_density_range(ps, k);
            }
            assert forall|k: int| 0 <= k < n implies particle_bounded(#[trigger] self.particles@[k]) by {
                assert(particle_bounded(ps[k]));
            }
        }
    }

    /// Recomputes every particle's net force from the particles as they
    /// stand, through the grid.
    pub fn compute_force(&mut self)
        requires
            old(self).wf(),
            old(self).cells.registered@ == positions_of(old(self).particles@),
            all_fluid_ok(old(self).particles@),
        ensures
            final(self).wf(),
            final(self).particles@ == with_force(old(self).particles@),
            final(self).cells == old(self).cells,
            final(self).field == old(self).field,
            final(self).num_particles == old(self).num_particles,
    {
        let n = self.particles.len();
        let ghost ps = self.particles@;
        let particles = &self.particles;
        let cells = &self.cells;
        let out = par_map(
            n,
            (|i: usize| -> (f: Vec2)
                requires
                    i < particles@.len(),
                    cells.wf(),
                    cells.size == KERNEL_RADIUS,
                    cells.registered@ == positions_of(particles@),
                    all_bounded(particles@),
                    all_fluid_ok(particles@),
                ensures
                    f == force_at(particles@, i as int),
                { force_of_particle(particles, cells, i) }),
        );
        for i in 0..n
            invariant
                n == ps.len(),
                self.particles@.len() == n,
                out@.len() == n,
                forall|k: int| 0 <= k < n ==> #[trigger] out@[k] == force_at(ps, k),
                forall|k: int| 0 <= k < i ==> #[trigger] self.particles@[k] == with_force(ps)[k],
                forall|k: int| i <= k < n ==> #[trigger] self.particles@[k] == ps[k],
                self.cells == old(self).cells,
                self.field == old(self).field,
                self.num_particles == old(self).num_particles,
                ps == old(self).particles@,
        {
            let mut p = self.particles[i];
            p.force = out[i];
            self.particles.set(i, p);
        }
        proof {
            assert(self.particles@ =~= with_force(ps));
            assert forall|k: int| 0 <= k < n implies particle_bounded(#[trigger] self.particles@[k]) by {
                assert(particle_bounded(ps[k]));
            }
        }
    }

    /// Adds the external force to every particle within reach of the
    /// pointer, when the force is on.
    pub fn mouse_force(&mut self, mouse_info: &MouseInfo)
        requires
            old(self).wf(),
            mouse_ok(*mouse_info),
            forces_ok(old(self).particles@),
        ensures
            final(self).wf(),
            final(self).particles@ == with_mouse(old(self).particles@, *mouse_info),
            forall|i: int|
                0 <= i < old(self).particles@.len() && mouse_info.is_dragging && 0 < dist2(
                    old(self).particles@[i].position,
                    pointer(*mouse_info),
                ) < MOUSE_RADIUS * MOUSE_RADIUS ==> #[trigger] push_has_strength(
                    mouse_push(old(self).particles@[i].position, *mouse_info),
                ),
            final(self).cells == old(self).cells,
            final(self).field == old(self).field,
            final(self).num_particles == old(self).num_particles,
    {
        let n = self.particles.len();
        let ghost ps = self.particles@;
        for i in 0..n
            invariant
                n == ps.len(),
                self.particles@.len() == n,
                mouse_ok(*mouse_info),
                all_bounded(ps),
                forces_ok(ps),
                forall|k: int| 0 <= k < i ==> #[trigger] self.particles@[k] == with_mouse(ps, *mouse_info)[k],
                forall|k: int|
                    0 <= k < i && mouse_info.is_dragging && 0 < dist2(ps[k].position, pointer(*mouse_info))
                        < MOUSE_RADIUS * MOUSE_RADIUS ==> #[trigger] push_has_strength(
                        mouse_push(ps[k].position, *mouse_info),
                    ),
                forall|k: int| i <= k < n ==> #[trigger] self.particles@[k] == ps[k],
                self.cells == old(self).cells,
                self.field == old(self).field,
                self.num_particles == old(self).num_particles,
                ps == old(self).particles@,
        {
            assert(particle_bounded(ps[i as int]));
            let p = push_particle(self.particles[i], mouse_info);
            self.particles.set(i, p);
        }
        proof {
            assert(self.particles@ =~= with_mouse(ps, *mouse_info));
            assert forall|k: int| 0 <= k < n implies particle_bounded(#[trigger] self.particles@[k]) by {
                assert(particle_bounded(ps[k]));
            }
        }
    }

    /// Advances every particle by one time step and applies the walls.
    pub fn handle_boundary(&mut self)
        requires
            old(self).wf(),
            forces_ok(old(self).particles@),
            all_fluid_ok(old(self).particles@),
        ensures
            final(self).wf(),
            final(self).particles@ == with_integration(old(self).particles@, old(self).field),
            all_inside(final(self).particles@, final(self).field),
            final(self).cells == old(self).cells,
            final(self).field == old(self).field,
            final(self).num_particles == old(self).num_particles,
    {
        let n = self.particles.len();
        let ghost ps = self.particles@;
        for i in 0..n
            invariant
                n == ps.len(),
                self.particles@.len() == n,
                field_ok(self.field),
                all_bounded(ps),
                forces_ok(ps),
                all_fluid_ok(ps),
                forall|k: int| 0 <= k < i ==> #[trigger] self.particles@[k] == with_integration(ps, self.field)[k],
                forall|k: int| 0 <= k < i ==> particle_bounded(#[trigger] self.particles@[k]) && inside(
                    self.particles@[k],
                    self.field,
                ),
                forall|k: int| i <= k < n ==> #[trigger] self.particles@[k] == ps[k],
                self.cells == old(self).cells,
                self.field == old(self).field,
                self.num_particles == old(self).num_particles,
                ps == old(self).particles@,
        {
            assert(particle_bounded(ps[i as int]) && fluid_ok(ps[i as int]));
            let p = integrate_particle(self.particles[i], &self.field);
            self.particles.set(i, p);
        }
        proof {
            assert(self.particles@ =~= with_integration(ps, self.field));
        }
    }

    /// One sub-step: rebuild the grid, then density and pressure, forces,
    /// the external force and integration.
    pub fn substep(&mut self, mouse_info: &MouseInfo)
        requires
            old(self).wf(),
            mouse_ok(*mouse_info),
        ensures
            final(self).wf(),
            final(self).particles@ == substep(old(self).particles@, old(self).field, *mouse_info),
            all_inside(final(self).particles@, final(self).field),
            final(self).field == old(self).field,
            final(self).num_particles == old(self).num_particles,
    {
        self.cells.register_cells(&self.particles);
        self.compute_density_pressure();
        self.compute_force();
        proof {
            let ps = self.particles@;
            assert forall|i: int| 0 <= i < ps.len() implies -FORCE_LIMIT <= (#[trigger] ps[i]).force.x
                <= FORCE_LIMIT && -FORCE_LIMIT <= ps[i].force.y <= FORCE_LIMIT by {}
        }
        let ghost forced = self.particles@;
        self.mouse_force(mouse_info);
        proof {
            let ps = self.particles@;
            assert forall|i: int| 0 <= i < ps.len() implies -FORCE_LIMIT <= (#[trigger] ps[i]).force.x
                <= FORCE_LIMIT && -FORCE_LIMIT <= ps[i].force.y <= FORCE_LIMIT by {
                assert(ps[i] == pushed(forced[i], *mouse_info));
            }
            assert forall|i: int| 0 <= i < ps.len() implies fluid_ok(#[trigger] ps[i]) by {
                assert(ps[i] == pushed(forced[i], *mouse_info));
                assert(fluid_ok(forced[i]));
            }
        }
        self.handle_boundary();
    }

    /// Advances the simulation by `SOLVER_STEPS` sub-steps under the given
    /// external force input.
    pub fn update(&mut self, mouse_info: &MouseInfo)
        requires
            old(self).wf(),
            mouse_ok(*mouse_info),
        ensures
            final(self).wf(),
            final(self).particles@ == substeps(
                old(self).particles@,
                old(self).field,
                *mouse_info,
                SOLVER_STEPS as nat,
            ),
            all_inside(final(self).particles@, final(self).field),
            final(self).field == old(self).field,
            final(self).num_particles == old(self).num_particles,
    {
        let ghost start = self.particles@;
        let mut k: usize = 0;
        while k < SOLVER_STEPS
            invariant
                0 <= k <= SOLVER_STEPS,
                self.wf(),
                mouse_ok(*mouse_info),
                self.particles@ == substeps(start, self.field, *mouse_info, k as nat),
                k > 0 ==> all_inside(self.particles@, self.field),
                self.field == old(self).field,
                self.num_particles == old(self).num_particles,
                start == old(self).particles@,
            decreases SOLVER_STEPS - k,
        {
            self.substep(mouse_info);
            k = k + 1;
        }
    }
}

/// Conservation under isolation: a particle with no other particle closer
/// than the interaction radius has its own contribution as density, the
/// pressure of that density, and its weight as the only force on it.
pub proof fn lemma_isolated_particle(ps: Seq<Particle>, i: int)
    requires
        0 <= i < ps.len() <= MAX_PARTICLES,
        forall|j: int|
            0 <= j < ps.len() && j != i ==> dist2(ps[i].position, #[trigger] ps[j].position) >= KERNEL_RADIUS_SQ,
    ensures
        density_at(ps, i) == POLY6_PEAK,
        with_density(ps)[i].density == POLY6_PEAK,
        with_density(ps)[i].pressure == STIFFNESS * (POLY6_PEAK - TARGET_DENSITY),
        force_at(with_density(ps), i) == (Vec2 { x: 0, y: -gravity_of(POLY6_PEAK as int) as i64 }),
{
    let n = ps.len() as int;
    let f = density_terms(ps, i);
    assert forall|j: int| 0 <= j < n && j != i implies #[trigger] f(j) == 0 by {
        assert(dist2(ps[i].position, ps[j].position) >= KERNEL_RADIUS_SQ);
    }
    lemma_sum_upto_single(f, n, i);
    lemma_density_weight_range(0);
    assert(dist2(ps[i].position, ps[i].position) == 0);
    let qs = with_density(ps);
    let fx = force_terms_x(qs, i);
    let fy = force_terms_y(qs, i);
    assert forall|j: int| 0 <= j < n implies !interacts(qs[i], #[trigger] qs[j]) by {
        assert(qs[j].position == ps[j].position);
        assert(qs[i].position == ps[i].position);
        if j != i {
            assert(dist2(ps[i].position, ps[j].position) >= KERNEL_RADIUS_SQ);
        }
    }
    assert forall|j: int| 0 <= j < n && j != i implies #[trigger] fx(j) == 0 by {
        assert(!interacts(qs[i], qs[j]));
    }
    assert forall|j: int| 0 <= j < n && j != i implies #[trigger] fy(j) == 0 by {
        assert(!interacts(qs[i], qs[j]));
    }
    assert(!interacts(qs[i], qs[i]));
    lemma_sum_upto_single(fx, n, i);
    lemma_sum_upto_single(fy, n, i);
    assert(gravity_of(POLY6_PEAK as int) == 18716);
}

/// One sub-step keeps the particles within the engine's limits and leaves
/// every one of them inside the inset field.
pub proof fn lemma_substep_contained(ps: Seq<Particle>, f: Field, m: MouseInfo)
    requires
        ps.len() <= MAX_PARTICLES,
        all_bounded(ps),
        field_ok(f),
        mouse_ok(m),
    ensures
        substep(ps, f, m).len() == ps.len(),
        all_bounded(substep(ps, f, m)),
        all_inside(substep(ps, f, m), f),
{
    let a = with_density(ps);
    let b = with_force(a);
    let c = with_mouse(b, m);
    let d = with_integration(c, f);
    assert forall|i: int| 0 <= i < ps.len() implies particle_bounded(#[trigger] d[i]) && inside(d[i], f) by {
        lemma_density_range(ps, i);
        assert(particle_bounded(ps[i]));
        assert(c[i] == pushed(b[i], m));
        assert(b[i].force == force_at(a, i));
        lemma_boundary_containment(c[i], f);
        lemma_integrated_bounded(c[i], f);
    }
}

/// Boundary containment: after any positive number of sub-steps, and so
/// after any number of ticks, every particle lies inside the field, inset by
/// one interaction radius.
pub proof fn lemma_containment_after_steps(ps: Seq<Particle>, f: Field, m: MouseInfo, k: nat)
    requires
        ps.len() <= MAX_PARTICLES,
        all_bounded(ps),
        field_ok(f),
        mouse_ok(m),
    ensures
        substeps(ps, f, m, k).len() == ps.len(),
        all_bounded(substeps(ps, f, m, k)),
        k > 0 ==> all_inside(substeps(ps, f, m, k), f),
    decreases k,
{
    if k > 0 {
        lemma_containment_after_steps(ps, f, m, (k - 1) as nat);
        lemma_substep_contained(substeps(ps, f, m, (k - 1) as nat), f, m);
    }
}

/// Determinism: two simulations built by `State::new` from the same particle
/// count and field, then advanced by the same number of ticks under the same
/// input, hold the same particles, bit for bit. (`new` and `update` state
/// their results as exactly these spec functions of their inputs.)
pub proof fn lemma_determinism(
    num_particles: int,
    field: Field,
    m: MouseInfo,
    ticks: nat,
    a: Seq<Particle>,
    b: Seq<Particle>,
)
    requires
        a == initial_particles(num_particles, field.width as int),
        b == initial_particles(num_particles, field.width as int),
    ensures
        substeps(a, field, m, ticks * SOLVER_STEPS as nat) == substeps(b, field, m, ticks * SOLVER_STEPS as nat),
{
}

} // verus!
