use sph_fluid::kernel::{KERNEL_RADIUS, PARTICLE_SIZE, POLY6_PEAK};
use sph_fluid::particle::{Field, Vec2};
use sph_fluid::motion::MouseInfo;
use sph_fluid::solver::{place_lattice, State};

fn unit_field() -> Field {
    Field { height: 1_000_000, width: 1_000_000 }
}

fn still() -> MouseInfo {
    MouseInfo { mouse_x: 0, mouse_y: 0, is_dragging: false }
}

fn sum_y(s: &State) -> i64 {
    s.particles.iter().map(|p| p.position.y).sum()
}

fn assert_inside(s: &State) {
    for p in &s.particles {
        assert!(0 <= p.position.x && p.position.x <= s.field.width);
        assert!(0 <= p.position.y && p.position.y <= s.field.height);
        assert!(KERNEL_RADIUS <= p.position.x && p.position.x <= s.field.width - KERNEL_RADIUS);
        assert!(KERNEL_RADIUS <= p.position.y && p.position.y <= s.field.height - KERNEL_RADIUS);
    }
}

#[test]
fn construct_places_a_seeded_lattice() {
    let s = State::new(100, unit_field());
    assert_eq!(s.num_particles, 100);
    assert_eq!(s.particles.len(), 100);
    assert_eq!(s.particles[0].position, Vec2::new(100_000, 2 * KERNEL_RADIUS));
    let mut jittered = false;
    for k in 1..s.particles.len() {
        let (a, b) = (s.particles[k - 1].position, s.particles[k].position);
        if b.y == a.y {
            let step = b.x - a.x - PARTICLE_SIZE;
            assert!((0..100).contains(&step));
            jittered |= step != 0;
        } else {
            assert_eq!(b.y, a.y + PARTICLE_SIZE);
            assert_eq!(b.x, 100_000);
            assert!(10 * (a.x + PARTICLE_SIZE) > 7 * 1_000_000 - 100 * 10);
        }
        assert!(10 * b.x <= 7 * 1_000_000);
    }
    assert!(jittered);
    for p in &s.particles {
        assert_eq!(p.velocity, Vec2::new(0, 0));
        assert_eq!(p.size, PARTICLE_SIZE);
    }
}

#[test]
fn construct_wraps_rows() {
    let s = State::new(300, Field { height: 1_000_000, width: 200_000 });
    let rows: std::collections::BTreeSet<i64> = s.particles.iter().map(|p| p.position.y).collect();
    assert!(rows.len() > 1);
    for p in &s.particles {
        assert!(20_000 <= p.position.x && 10 * p.position.x <= 7 * 200_000);
    }
}

#[test]
fn construct_with_no_particles() {
    let s = State::new(0, unit_field());
    assert!(s.particles.is_empty());
}

#[test]
fn density_is_positive_after_a_tick() {
    let mut s = State::new(100, unit_field());
    s.update(&still());
    for p in &s.particles {
        assert!(p.density >= POLY6_PEAK);
        assert!(p.density > 0);
    }
    assert!(s.particles.iter().any(|p| p.density > POLY6_PEAK));
}

#[test]
fn isolated_particle_feels_only_gravity() {
    let mut s = State::new(1, unit_field());
    let start = s.particles[0].position;
    s.update(&still());
    let p = s.particles[0];
    assert_eq!(p.density, POLY6_PEAK);
    assert_eq!(p.pressure, 3 * (POLY6_PEAK - 8_000_000));
    assert_eq!(p.force, Vec2::new(0, -18_716));
    assert_eq!(p.position.x, start.x);
    assert!(p.position.y < start.y);
    assert!(p.velocity.y < 0);
}

#[test]
fn particles_stay_inside_the_field() {
    let mut s = State::new(400, Field { height: 300_000, width: 400_000 });
    for _ in 0..30 {
        s.update(&still());
        assert_inside(&s);
    }
}

#[test]
fn runs_are_deterministic() {
    let mut a = State::new(150, unit_field());
    let mut b = State::new(150, unit_field());
    for _ in 0..20 {
        a.update(&still());
        b.update(&still());
        for (p, q) in a.particles.iter().zip(b.particles.iter()) {
            assert_eq!(p.position, q.position);
            assert_eq!(p.velocity, q.velocity);
            assert_eq!(p.density, q.density);
        }
    }
}

#[test]
fn hundred_particles_settle_under_gravity() {
    let mut s = State::new(100, unit_field());
    let initial = sum_y(&s);
    for _ in 0..100 {
        s.update(&still());
        assert_inside(&s);
        assert!(sum_y(&s) <= initial);
    }
    assert!(sum_y(&s) < initial);
}

#[test]
fn pointer_pulls_nearby_particles() {
    let mut a = State::new(1, unit_field());
    let mut b = State::new(1, unit_field());
    let p = a.particles[0].position;
    let pull = MouseInfo { mouse_x: p.x + 50_000, mouse_y: p.y, is_dragging: true };
    a.update(&still());
    b.update(&pull);
    assert!(b.particles[0].position.x > a.particles[0].position.x);
    let fx = b.particles[0].force.x;
    assert!(499_000 <= fx && fx <= 500_000);
    assert!(b.particles[0].force.y > -18_716);
    let far = MouseInfo { mouse_x: p.x + 500_000, mouse_y: p.y, is_dragging: true };
    let mut c = State::new(1, unit_field());
    c.update(&far);
    assert_eq!(c.particles[0].position, a.particles[0].position);
}

#[test]
fn walls_reflect_and_damp() {
    let mut s = State::new(1, unit_field());
    s.particles[0].position = Vec2::new(5_000, 995_000);
    s.particles[0].velocity = Vec2::new(-100_000, 0);
    s.particles[0].force = Vec2::new(0, 0);
    s.particles[0].density = POLY6_PEAK;
    s.handle_boundary();
    let p = s.particles[0];
    assert_eq!(p.position, Vec2::new(KERNEL_RADIUS, 1_000_000 - KERNEL_RADIUS));
    assert_eq!(p.velocity, Vec2::new(30_000, -300_000));
}

fn two_particles(a: Vec2, b: Vec2) -> State {
    let mut s = State::new(2, unit_field());
    s.particles[0].position = a;
    s.particles[1].position = b;
    s
}

fn run_passes(s: &mut State) {
    s.cells.register_cells(&s.particles);
    s.compute_density_pressure();
    s.compute_force();
}

#[test]
fn pair_forces_have_exact_values() {
    let mut s = two_particles(Vec2::new(100_000, 500_000), Vec2::new(105_000, 500_000));
    s.particles[1].velocity = Vec2::new(1_000_000, 0);
    run_passes(&mut s);
    for p in &s.particles {
        assert_eq!(p.density, 2_984_154);
        assert_eq!(p.pressure, -15_047_538);
    }
    assert_eq!(s.particles[0].force, Vec2::new(9_630_431 + 900_000, -29_244));
    assert_eq!(s.particles[1].force, Vec2::new(-9_630_431 - 900_000, -29_244));
}

#[test]
fn coincident_particles_exert_no_pair_force() {
    let mut s = two_particles(Vec2::new(200_000, 500_000), Vec2::new(200_000, 500_000));
    s.particles[1].velocity = Vec2::new(1_000_000, 0);
    run_passes(&mut s);
    for p in &s.particles {
        assert_eq!(p.density, 2 * POLY6_PEAK);
        assert_eq!(p.force, Vec2::new(0, -37_433));
    }
}

#[test]
fn particles_beyond_the_radius_do_not_interact() {
    let mut s = two_particles(Vec2::new(100_000, 500_000), Vec2::new(100_000 + KERNEL_RADIUS, 500_000));
    run_passes(&mut s);
    for p in &s.particles {
        assert_eq!(p.density, POLY6_PEAK);
        assert_eq!(p.force, Vec2::new(0, -18_716));
    }
}

#[test]
fn lattice_follows_the_given_draws() {
    let ps = place_lattice(100_000, &vec![7, 199, 5, 0, 42]);
    let xs: Vec<i64> = ps.iter().map(|p| p.position.x).collect();
    let ys: Vec<i64> = ps.iter().map(|p| p.position.y).collect();
    assert_eq!(xs, vec![10_000, 15_007, 20_106, 25_111, 30_111]);
    assert!(ys.iter().all(|&y| y == 2 * KERNEL_RADIUS));
    let wrapped = place_lattice(40_000, &vec![0, 0, 0, 0]);
    let pos: Vec<(i64, i64)> = wrapped.iter().map(|p| (p.position.x, p.position.y)).collect();
    assert_eq!(pos, vec![(4_000, 20_000), (9_000, 20_000), (14_000, 20_000), (19_000, 20_000)]);
    let narrow = place_lattice(20_000, &vec![0, 0, 0, 0]);
    let pos: Vec<(i64, i64)> = narrow.iter().map(|p| (p.position.x, p.position.y)).collect();
    assert_eq!(pos, vec![(2_000, 20_000), (7_000, 20_000), (12_000, 20_000), (2_000, 25_000)]);
    assert!(place_lattice(100_000, &vec![]).is_empty());
}

#[test]
fn pointer_push_has_the_fixed_strength_at_close_range() {
    let strength: i64 = 500_000;
    for (dx, dy) in [(1, 1), (1, 0), (0, 2), (3, 4), (1, 2), (70, 70), (99_000, 1)] {
        let mut s = State::new(1, unit_field());
        let p = s.particles[0].position;
        s.particles[0].force = Vec2::new(0, 0);
        let m = MouseInfo { mouse_x: p.x + dx, mouse_y: p.y + dy, is_dragging: true };
        s.mouse_force(&m);
        let f = s.particles[0].force;
        let sq = (f.x as i128) * (f.x as i128) + (f.y as i128) * (f.y as i128);
        let s2 = (strength as i128) * (strength as i128);
        assert!(999 * s2 <= 1000 * sq && 1000 * sq <= 1001 * s2, "{:?} gives {:?}", (dx, dy), f);
    }
    let mut s = State::new(1, unit_field());
    let p = s.particles[0].position;
    s.particles[0].force = Vec2::new(0, 0);
    s.mouse_force(&MouseInfo { mouse_x: p.x + 1, mouse_y: p.y + 1, is_dragging: true });
    assert_eq!(s.particles[0].force, Vec2::new(353_556, 353_556));
}
