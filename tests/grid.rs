use sph_fluid::grid::Cells;
use sph_fluid::kernel::KERNEL_RADIUS;
use sph_fluid::particle::{Particle, Vec2};

fn particle_at(x: i64, y: i64) -> Particle {
    Particle {
        position: Vec2::new(x, y),
        velocity: Vec2::new(0, 0),
        force: Vec2::new(0, 0),
        pressure: 0,
        density: 0,
        size: 5_000,
    }
}

#[test]
fn new_grid_sizes_cells_by_ceiling() {
    let g = Cells::new(25_000, 30_001, KERNEL_RADIUS);
    assert_eq!(g.nx, 4);
    assert_eq!(g.ny, 3);
    assert_eq!(g.cells.len(), 12);
    assert!(g.cells.iter().all(|c| c.is_empty()));
}

#[test]
fn register_lists_each_index_once_in_its_cell() {
    let mut g = Cells::new(30_000, 30_000, KERNEL_RADIUS);
    let ps = vec![
        particle_at(5_000, 5_000),
        particle_at(15_000, 5_000),
        particle_at(5_000, 25_000),
        particle_at(6_000, 4_000),
        particle_at(30_000, 30_000),
        particle_at(-10, 12_000),
    ];
    g.register_cells(&ps);
    assert_eq!(g.cells[0], vec![0, 3]);
    assert_eq!(g.cells[1], vec![1]);
    assert_eq!(g.cells[6], vec![2]);
    assert_eq!(g.cells[8], vec![4]);
    assert_eq!(g.cells[3], vec![5]);
    let total: usize = g.cells.iter().map(|c| c.len()).sum();
    assert_eq!(total, ps.len());
    for i in 0..ps.len() as u32 {
        let count = g.cells.iter().filter(|c| c.contains(&i)).count();
        assert_eq!(count, 1);
    }
}

#[test]
fn register_clears_previous_contents() {
    let mut g = Cells::new(30_000, 30_000, KERNEL_RADIUS);
    g.register_cells(&vec![particle_at(5_000, 5_000)]);
    g.register_cells(&vec![particle_at(25_000, 25_000)]);
    assert!(g.cells[0].is_empty());
    assert_eq!(g.cells[8], vec![0]);
}

#[test]
fn neighbors_cover_the_three_by_three_block() {
    let mut g = Cells::new(50_000, 50_000, KERNEL_RADIUS);
    let ps = vec![
        particle_at(25_000, 25_000),
        particle_at(16_000, 34_000),
        particle_at(34_999, 15_000),
        particle_at(5_000, 25_000),
        particle_at(25_000, 45_000),
    ];
    g.register_cells(&ps);
    let mut v = g.neighbors(&ps[0], KERNEL_RADIUS);
    v.sort();
    assert_eq!(v, vec![0, 1, 2]);
}

#[test]
fn neighbors_clamp_at_the_corner() {
    let mut g = Cells::new(50_000, 50_000, KERNEL_RADIUS);
    let ps = vec![particle_at(1_000, 1_000), particle_at(19_000, 19_000), particle_at(21_000, 1_000)];
    g.register_cells(&ps);
    let mut v = g.neighbors(&ps[0], KERNEL_RADIUS);
    v.sort();
    assert_eq!(v, vec![0, 1]);
}

#[test]
fn neighbors_hold_every_particle_within_the_radius() {
    let mut g = Cells::new(100_000, 100_000, KERNEL_RADIUS);
    let mut ps = Vec::new();
    let mut seed: i64 = 7;
    for _ in 0..300 {
        seed = (seed * 1_103_515_245 + 12_345) % 2_147_483_648;
        let x = seed % 100_000;
        seed = (seed * 1_103_515_245 + 12_345) % 2_147_483_648;
        let y = seed % 100_000;
        ps.push(particle_at(x, y));
    }
    g.register_cells(&ps);
    for p in 0..ps.len() {
        let v = g.neighbors(&ps[p], KERNEL_RADIUS);
        for q in 0..ps.len() {
            let dx = ps[q].position.x - ps[p].position.x;
            let dy = ps[q].position.y - ps[p].position.y;
            if dx * dx + dy * dy < KERNEL_RADIUS * KERNEL_RADIUS {
                assert!(v.contains(&(q as u32)));
            }
        }
        let mut sorted = v.clone();
        sorted.sort();
        sorted.dedup();
        assert_eq!(sorted.len(), v.len());
    }
}
