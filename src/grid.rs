//! Uniform grid of square cells that bins particle indices by position, so
//! that the particles within one interaction radius of a point are found in
//! the three-by-three block of cells around it.
use vstd::prelude::*;
use crate::kernel::{MAX_PARTICLES, POSITION_LIMIT};
use crate::particle::{Particle, Vec2};
use crate::sums::indices_below;

verus! {

/// Most cells a grid holds.
pub const MAX_CELLS: usize = 100_000_000;

/// Number of cells of side `size` that cover a length `extent`: `ceil(extent / size)`.
pub open spec fn cells_across(extent: int, size: int) -> int {
    (extent + size - 1) / size
}

/// Cell coordinate of `x` on an axis of `n` cells of side `size`:
/// `floor(x / size)`, clamped to `[0, n - 1]`.
pub open spec fn axis_cell(x: int, size: int, n: int) -> int {
    let c = x / size;
    if c < 0 {
        0
    } else if c >= n {
        n - 1
    } else {
        c
    }
}

/// Row-major index of the cell that holds `p`.
pub open spec fn cell_index(p: Vec2, size: int, nx: int, ny: int) -> int {
    axis_cell(p.y as int, size, ny) * nx + axis_cell(p.x as int, size, nx)
}

/// The indices below `k` whose position lies in cell `c`, in increasing order.
pub open spec fn members(pos: Seq<Vec2>, size: int, nx: int, ny: int, c: int, k: int) -> Seq<u32>
    decreases k,
{
    if k <= 0 {
        Seq::empty()
    } else {
        let prev = members(pos, size, nx, ny, c, k - 1);
        if cell_index(pos[k - 1], size, nx, ny) == c {
            prev.push((k - 1) as u32)
        } else {
            prev
        }
    }
}

/// The positions of a particle sequence.
pub open spec fn positions_of(ps: Seq<Particle>) -> Seq<Vec2> {
    Seq::new(ps.len(), |i: int| ps[i].position)
}

proof fn lemma_members(pos: Seq<Vec2>, size: int, nx: int, ny: int, c: int, k: int)
    requires
        0 <= k <= pos.len(),
        k <= 0x1_0000_0000,
    ensures
        members(pos, size, nx, ny, c, k).no_duplicates(),
        indices_below(members(pos, size, nx, ny, c, k), k),
        forall|j: int|
            0 <= j < k ==> (#[trigger] members(pos, size, nx, ny, c, k).contains(j as u32) <==> cell_index(
                pos[j],
                size,
                nx,
                ny,
            ) == c),
    decreases k,
{
    if k > 0 {
        lemma_members(pos, size, nx, ny, c, k - 1);
        let prev = members(pos, size, nx, ny, c, k - 1);
        let m = members(pos, size, nx, ny, c, k);
        assert(!prev.contains((k - 1) as u32)) by {
            if prev.contains((k - 1) as u32) {
                let t = choose|t: int| 0 <= t < prev.len() && prev[t] == (k - 1) as u32;
                assert(prev[t] < k - 1);
            }
        }
        assert forall|j: int| 0 <= j < k implies (#[trigger] m.contains(j as u32) <==> cell_index(
            pos[j],
            size,
            nx,
            ny,
        ) == c) by {
            assert(j as u32 == j);
            if cell_index(pos[k - 1], size, nx, ny) == c {
                assert(m == prev.push((k - 1) as u32));
                if prev.contains(j as u32) {
                    let t = choose|t: int| 0 <= t < prev.len() && prev[t] == j as u32;
                    assert(m[t] == j as u32);
                }
                if m.contains(j as u32) && j != k - 1 {
                    let t = choose|t: int| 0 <= t < m.len() && m[t] == j as u32;
                    assert(t < prev.len());
                    assert(prev[t] == j as u32);
                }
                if j == k - 1 {
                    assert(m[m.len() - 1] == j as u32);
                }
            } else {
                if j == k - 1 {
                    assert(!prev.contains(j as u32));
                }
            }
        }
        if cell_index(pos[k - 1], size, nx, ny) == c {
            assert forall|a: int, b: int| 0 <= a < m.len() && 0 <= b < m.len() && a != b
                implies m[a] != m[b] by {
                if a < prev.len() && b < prev.len() {
                    assert(m[a] == prev[a] && m[b] == prev[b]);
                } else if a < prev.len() {
                    assert(prev[a] < k - 1);
                } else if b < prev.len() {
                    assert(prev[b] < k - 1);
                }
            }
            assert forall|t: int| 0 <= t < m.len() implies (#[trigger] m[t]) < k by {
                if t < prev.len() {
                    assert(m[t] == prev[t]);
                }
            }
        }
    }
}

/// Two cells of a row-major grid are the same exactly when their coordinates are.
proof fn lemma_cell_index_unique(px: int, py: int, qx: int, qy: int, nx: int)
    requires
        0 <= px < nx,
        0 <= qx < nx,
        0 <= py,
        0 <= qy,
    ensures
        (py * nx + px == qy * nx + qx) <==> (px == qx && py == qy),
{
    if py * nx + px == qy * nx + qx {
        if py < qy {
            assert(py * nx + nx <= qy * nx) by (nonlinear_arith)
                requires py < qy, nx > 0;
        } else if py > qy {
            assert(qy * nx + nx <= py * nx) by (nonlinear_arith)
                requires py > qy, nx > 0;
        }
    }
}

proof fn lemma_cells_across(extent: int, size: int)
    requires
        0 < extent,
        0 < size,
    ensures
        cells_across(extent, size) >= 1,
{
    assert((extent + size - 1) / size >= 1) by (nonlinear_arith)
        requires extent >= 1, size >= 1;
}

/// In a product of two positive factors bounded by `MAX_CELLS`, each factor is bounded too.
proof fn lemma_factor_bound(a: int, b: int)
    requires
        1 <= a,
        1 <= b,
        a * b <= MAX_CELLS,
    ensures
        a <= MAX_CELLS,
        b <= MAX_CELLS,
        a * b >= 1,
{
    assert(a <= a * b && b <= a * b && a * b >= 1) by (nonlinear_arith)
        requires 1 <= a, 1 <= b;
}

/// A row-major cell index lies below `nx * ny`.
proof fn lemma_cell_index_bound(ax: int, ay: int, nx: int, ny: int)
    requires
        0 <= ax < nx,
        0 <= ay < ny,
    ensures
        0 <= ay * nx + ax < nx * ny,
{
    assert(ay * nx + ax < nx * ny) by (nonlinear_arith)
        requires 0 <= ax < nx, 0 <= ay < ny;
    assert(0 <= ay * nx) by (nonlinear_arith)
        requires 0 <= ay, 0 < nx;
}

/// The spatial grid: cell `gy * nx + gx` lists, in increasing order, the
/// indices of the particles whose position falls in that cell.
pub struct Cells {
    pub cells: Vec<Vec<u32>>,
    pub nx: usize,
    pub ny: usize,
    /// Side of a cell.
    pub size: i64,
    /// The positions the cells were last filled from.
    pub registered: Ghost<Seq<Vec2>>,
}

impl Cells {
    /// Cell coordinates of `p` on each axis.
    pub open spec fn cell_x(&self, p: Vec2) -> int {
        axis_cell(p.x as int, self.size as int, self.nx as int)
    }

    pub open spec fn cell_y(&self, p: Vec2) -> int {
        axis_cell(p.y as int, self.size as int, self.ny as int)
    }

    /// Index of the cell that holds `p`.
    pub open spec fn cell_of(&self, p: Vec2) -> int {
        cell_index(p, self.size as int, self.nx as int, self.ny as int)
    }

    /// `a` and `b` lie in the same or in adjacent cells, diagonals included.
    pub open spec fn adjacent(&self, a: Vec2, b: Vec2) -> bool {
        -1 <= self.cell_x(a) - self.cell_x(b) <= 1 && -1 <= self.cell_y(a) - self.cell_y(b) <= 1
    }

    /// Cell `c` lists exactly the registered indices located in it.
    pub open spec fn lists(&self, c: int) -> Seq<u32> {
        members(
            self.registered@,
            self.size as int,
            self.nx as int,
            self.ny as int,
            c,
            self.registered@.len() as int,
        )
    }

    pub open spec fn wf(&self) -> bool {
        &&& 1 <= self.nx
        &&& 1 <= self.ny
        &&& self.nx * self.ny <= MAX_CELLS
        &&& 0 < self.size
        &&& self.cells@.len() == self.nx * self.ny
        &&& self.registered@.len() <= MAX_PARTICLES
        &&& forall|c: int| 0 <= c < self.nx * self.ny ==> (#[trigger] self.cells@[c])@ == self.lists(c)
    }

    /// The grid covers a field of `width` by `height` with cells of side
    /// `radius`, all of them empty.
    pub fn new(height: i64, width: i64, radius: i64) -> (r: Cells)
        requires
            0 < radius <= POSITION_LIMIT,
            0 < height <= POSITION_LIMIT,
            0 < width <= POSITION_LIMIT,
            cells_across(width as int, radius as int) * cells_across(height as int, radius as int)
                <= MAX_CELLS,
        ensures
            r.wf(),
            r.nx == cells_across(width as int, radius as int),
            r.ny == cells_across(height as int, radius as int),
            r.size == radius,
            r.registered@.len() == 0,
    {
        proof {
            lemma_cells_across(height as int, radius as int);
            lemma_cells_across(width as int, radius as int);
            lemma_factor_bound(
                cells_across(width as int, radius as int),
                cells_across(height as int, radius as int),
            );
        }
        let ny = ((height + radius - 1) / radius) as usize;
        let nx = ((width + radius - 1) / radius) as usize;
        let total: usize = nx * ny;
        let mut cells: Vec<Vec<u32>> = Vec::new();
        for c in 0..total
            invariant
                cells@.len() == c,
                forall|d: int| 0 <= d < c ==> (#[trigger] cells@[d])@ == Seq::<u32>::empty(),
        {
            cells.push(Vec::new());
        }
        let r = Cells { cells, nx, ny, size: radius, registered: Ghost(Seq::empty()) };
        assert forall|c: int| 0 <= c < r.nx * r.ny implies (#[trigger] r.cells@[c])@ == r.lists(c) by {
            assert(r.lists(c) == Seq::<u32>::empty());
        }
        r
    }

    /// Cell coordinate of `x` on an axis of `n` cells.
    fn axis_cell_of(&self, x: i64, n: usize) -> (r: usize)
        requires
            0 < self.size,
            1 <= n <= MAX_CELLS,
        ensures
            r == axis_cell(x as int, self.size as int, n as int),
            r < n,
    {
        if x < 0 {
            assert((x as int) / (self.size as int) < 0) by (nonlinear_arith)
                requires x < 0, self.size > 0;
            0
        } else {
            let c = x / self.size;
            assert(c == (x as int) / (self.size as int));
            if c >= n as i64 {
                n - 1
            } else {
                c as usize
            }
        }
    }

    fn cell_position_to_id(&self, ix: usize, iy: usize) -> (r: usize)
        requires
            self.nx * self.ny <= MAX_CELLS,
            ix < self.nx,
            iy < self.ny,
        ensures
            r == iy * self.nx + ix,
            r < self.nx * self.ny,
    {
        proof {
            lemma_cell_index_bound(ix as int, iy as int, self.nx as int, self.ny as int);
        }
        self.nx * iy + ix
    }

    /// Clears every cell, then lists each particle's index in the cell that
    /// holds its position.
    pub fn register_cells(&mut self, particles: &Vec<Particle>)
        requires
            old(self).wf(),
            particles@.len() <= MAX_PARTICLES,
        ensures
            final(self).wf(),
            final(self).nx == old(self).nx,
            final(self).ny == old(self).ny,
            final(self).size == old(self).size,
            final(self).registered@ == positions_of(particles@),
    {
        let total = self.cells.len();
        for c in 0..total
            invariant
                self.cells@.len() == total,
                total == old(self).nx * old(self).ny,
                self.nx == old(self).nx,
                self.ny == old(self).ny,
                self.size == old(self).size,
                old(self).wf(),
                forall|d: int| 0 <= d < c ==> (#[trigger] self.cells@[d])@ == Seq::<u32>::empty(),
        {
            self.cells[c].clear();
        }
        proof {
            lemma_factor_bound(self.nx as int, self.ny as int);
        }
        self.registered = Ghost(positions_of(particles@));
        let ghost pos = positions_of(particles@);
        for i in 0..particles.len()
            invariant
                self.cells@.len() == total,
                total == self.nx * self.ny,
                self.nx == old(self).nx,
                self.ny == old(self).ny,
                self.size == old(self).size,
                1 <= self.nx,
                1 <= self.ny,
                0 < self.size,
                self.nx * self.ny <= MAX_CELLS,
                self.nx <= MAX_CELLS,
                self.ny <= MAX_CELLS,
                particles@.len() <= MAX_PARTICLES,
                self.registered@ == pos,
                pos == positions_of(particles@),
                forall|d: int|
                    0 <= d < total ==> (#[trigger] self.cells@[d])@ == members(
                        pos,
                        self.size as int,
                        self.nx as int,
                        self.ny as int,
                        d,
                        i as int,
                    ),
        {
            let p = particles[i].position;
            let ix = self.axis_cell_of(p.x, self.nx);
            let iy = self.axis_cell_of(p.y, self.ny);
            let id = self.cell_position_to_id(ix, iy);
            assert(id == cell_index(pos[i as int], self.size as int, self.nx as int, self.ny as int));
            self.cells[id].push(i as u32);
        }
    }

    /// Lists every particle index in the three-by-three block of cells around
    /// the particle's own cell, clamped at the grid's edges. `radius` is the
    /// interaction radius, which must be the cell side.
    pub fn neighbors(&self, particle: &Particle, radius: i64) -> (v: Vec<u32>)
        requires
            self.wf(),
            radius == self.size,
        ensures
            v@.no_duplicates(),
            indices_below(v@, self.registered@.len() as int),
            forall|j: int|
                0 <= j < self.registered@.len() ==> (#[trigger] v@.contains(j as u32) <==> self.adjacent(
                    particle.position,
                    self.registered@[j],
                )),
    {
        proof {
            lemma_factor_bound(self.nx as int, self.ny as int);
        }
        let ghost reg = self.registered@;
        let ghost n = reg.len() as int;
        let ix = self.axis_cell_of(particle.position.x, self.nx);
        let iy = self.axis_cell_of(particle.position.y, self.ny);
        let x0: usize = if ix == 0 { 0 } else { ix - 1 };
        let x1: usize = if ix + 1 < self.nx { ix + 1 } else { self.nx - 1 };
        let y0: usize = if iy == 0 { 0 } else { iy - 1 };
        let y1: usize = if iy + 1 < self.ny { iy + 1 } else { self.ny - 1 };
        let mut v: Vec<u32> = Vec::new();
        let mut gx: usize = x0;
        while gx <= x1
            invariant
                self.wf(),
                self.nx <= MAX_CELLS,
                self.ny <= MAX_CELLS,
                reg == self.registered@,
                n == reg.len(),
                x0 <= gx <= x1 + 1,
                x1 < self.nx,
                y0 <= y1 < self.ny,
                v@.no_duplicates(),
                indices_below(v@, n),
                forall|j: int|
                    0 <= j < n ==> (#[trigger] v@.contains(j as u32) <==> (x0 <= self.cell_x(reg[j]) < gx
                        && y0 <= self.cell_y(reg[j]) <= y1)),
            decreases x1 + 1 - gx,
        {
            let mut gy: usize = y0;
            while gy <= y1
                invariant
                    self.wf(),
                    self.nx <= MAX_CELLS,
                    self.ny <= MAX_CELLS,
                    reg == self.registered@,
                    n == reg.len(),
                    x0 <= gx <= x1,
                    x1 < self.nx,
                    y0 <= gy <= y1 + 1,
                    y1 < self.ny,
                    v@.no_duplicates(),
                    indices_below(v@, n),
                    forall|j: int|
                        0 <= j < n ==> (#[trigger] v@.contains(j as u32) <==> ((x0 <= self.cell_x(reg[j])
                            < gx && y0 <= self.cell_y(reg[j]) <= y1) || (self.cell_x(reg[j]) == gx
                            && y0 <= self.cell_y(reg[j]) < gy))),
                decreases y1 + 1 - gy,
            {
                let id = self.cell_position_to_id(gx, gy);
                let cell = &self.cells[id];
                let ghost v0 = v@;
                proof {
                    lemma_members(reg, self.size as int, self.nx as int, self.ny as int, id as int, n);
                }
                let mut k: usize = 0;
                while k < cell.len()
                    invariant
                        0 <= k <= cell@.len(),
                        cell@ == self.lists(id as int),
                        v@ == v0 + cell@.subrange(0, k as int),
                    decreases cell@.len() - k,
                {
                    v.push(cell[k]);
                    k = k + 1;
                    assert(v@ == v0 + cell@.subrange(0, k as int));
                }
                assert(cell@.subrange(0, cell@.len() as int) == cell@);
                proof {
                    self.lemma_append_cell(v0, cell@, gx as int, gy as int, x0 as int, y0 as int, y1 as int);
                }
                gy = gy + 1;
            }
            gx = gx + 1;
        }
        proof {
            assert forall|j: int| 0 <= j < n implies (#[trigger] v@.contains(j as u32) <==> self.adjacent(
                particle.position,
                reg[j],
            )) by {
                let cx = self.cell_x(reg[j]);
                let cy = self.cell_y(reg[j]);
                assert(0 <= cx < self.nx && 0 <= cy < self.ny);
            }
        }
        v
    }

    /// Appending the list of cell `(gx, gy)` to the indices of the cells
    /// visited before it keeps the list free of repeats and adds exactly
    /// that cell's indices.
    proof fn lemma_append_cell(
        &self,
        v0: Seq<u32>,
        cell: Seq<u32>,
        gx: int,
        gy: int,
        x0: int,
        y0: int,
        y1: int,
    )
        requires
            self.wf(),
            0 <= gx < self.nx,
            0 <= gy < self.ny,
            y0 <= gy,
            cell == self.lists(gy * self.nx + gx),
            v0.no_duplicates(),
            indices_below(v0, self.registered@.len() as int),
            forall|j: int|
                0 <= j < self.registered@.len() ==> (#[trigger] v0.contains(j as u32) <==> ((x0 <= self.cell_x(
                    self.registered@[j],
                ) < gx && y0 <= self.cell_y(self.registered@[j]) <= y1) || (self.cell_x(self.registered@[j])
                    == gx && y0 <= self.cell_y(self.registered@[j]) < gy))),
        ensures
            (v0 + cell).no_duplicates(),
            indices_below(v0 + cell, self.registered@.len() as int),
            forall|j: int|
                0 <= j < self.registered@.len() ==> (#[trigger] (v0 + cell).contains(j as u32) <==> ((x0
                    <= self.cell_x(self.registered@[j]) < gx && y0 <= self.cell_y(self.registered@[j]) <= y1)
                    || (self.cell_x(self.registered@[j]) == gx && y0 <= self.cell_y(self.registered@[j]) < gy
                    + 1))),
    {
        let reg = self.registered@;
        let n = reg.len() as int;
        let id = gy * self.nx + gx;
        lemma_members(reg, self.size as int, self.nx as int, self.ny as int, id, n);
        let w = v0 + cell;
        assert forall|j: int| 0 <= j < n implies (cell.contains(j as u32) <==> (self.cell_x(reg[j]) == gx
            && self.cell_y(reg[j]) == gy)) by {
            assert(cell.contains(j as u32) <==> cell_index(reg[j], self.size as int, self.nx as int, self.ny as int) == id);
            lemma_cell_index_unique(self.cell_x(reg[j]), self.cell_y(reg[j]), gx, gy, self.nx as int);
        }
        assert forall|t: int| 0 <= t < w.len() implies (#[trigger] w[t]) < n by {
            if t < v0.len() {
                assert(w[t] == v0[t]);
            } else {
                assert(w[t] == cell[t - v0.len()]);
            }
        }
        assert forall|j: int| 0 <= j < n implies (#[trigger] w.contains(j as u32) <==> (v0.contains(j as u32)
            || cell.contains(j as u32))) by {
            if w.contains(j as u32) {
                let t = choose|t: int| 0 <= t < w.len() && w[t] == j as u32;
                if t < v0.len() {
                    assert(v0[t] == j as u32);
                } else {
                    assert(cell[t - v0.len()] == j as u32);
                }
            }
            if v0.contains(j as u32) {
                let t = choose|t: int| 0 <= t < v0.len() && v0[t] == j as u32;
                assert(w[t] == j as u32);
            }
            if cell.contains(j as u32) {
                let t = choose|t: int| 0 <= t < cell.len() && cell[t] == j as u32;
                assert(w[t + v0.len()] == j as u32);
            }
        }
        assert forall|a: int, b: int| 0 <= a < w.len() && 0 <= b < w.len() && a != b implies w[a] != w[b] by {
            if a < v0.len() && b < v0.len() {
                assert(w[a] == v0[a] && w[b] == v0[b]);
            } else if a >= v0.len() && b >= v0.len() {
                assert(w[a] == cell[a - v0.len()] && w[b] == cell[b - v0.len()]);
            } else {
                let (s, t) = if a < v0.len() { (a, b) } else { (b, a) };
                let x = v0[s];
                assert(w[s] == x);
                assert(w[t] == cell[t - v0.len()]);
                assert(x < n);
                let j = x as int;
                assert(j as u32 == x);
                assert(v0.contains(j as u32));
                if cell.contains(j as u32) {
                    assert(self.cell_x(reg[j]) == gx && self.cell_y(reg[j]) == gy);
                    assert(false);
                }
            }
        }
    }
}

/// Grid completeness: after the cells are filled, each registered index is
/// listed exactly once, in the cell whose coordinates are its position divided
/// by the cell side (rounded down) and clamped to the grid.
pub proof fn lemma_grid_completeness(g: &Cells, i: int)
    requires
        g.wf(),
        0 <= i < g.registered@.len(),
    ensures
        0 <= g.cell_of(g.registered@[i]) < g.nx * g.ny,
        g.cell_of(g.registered@[i]) == g.cell_y(g.registered@[i]) * g.nx + g.cell_x(g.registered@[i]),
        forall|c: int|
            0 <= c < g.nx * g.ny ==> (#[trigger] g.cells@[c]@.contains(i as u32) <==> c == g.cell_of(
                g.registered@[i],
            )),
        g.cells@[g.cell_of(g.registered@[i])]@.no_duplicates(),
{
    let reg = g.registered@;
    let p = reg[i];
    lemma_cell_index_bound(g.cell_x(p), g.cell_y(p), g.nx as int, g.ny as int);
    assert forall|c: int| 0 <= c < g.nx * g.ny implies (#[trigger] g.cells@[c]@.contains(i as u32) <==> c
        == g.cell_of(p)) by {
        lemma_members(reg, g.size as int, g.nx as int, g.ny as int, c, reg.len() as int);
    }
    lemma_members(reg, g.size as int, g.nx as int, g.ny as int, g.cell_of(p), reg.len() as int);
}

/// On one axis, points closer than a cell side lie in the same or in adjacent cells.
proof fn lemma_axis_adjacent(a: int, b: int, size: int, n: int)
    requires
        0 < size,
        1 <= n,
        -size < a - b < size,
    ensures
        -1 <= axis_cell(a, size, n) - axis_cell(b, size, n) <= 1,
{
    let qa = a / size;
    let qb = b / size;
    assert(a == size * qa + a % size && 0 <= a % size < size) by (nonlinear_arith)
        requires size > 0, qa == a / size;
    assert(b == size * qb + b % size && 0 <= b % size < size) by (nonlinear_arith)
        requires size > 0, qb == b / size;
    assert(-1 <= qa - qb <= 1) by (nonlinear_arith)
        requires
            size > 0,
            a == size * qa + a % size,
            0 <= a % size < size,
            b == size * qb + b % size,
            0 <= b % size < size,
            -size < a - b < size;
}

/// Neighborhood superset: a point closer than one cell side to `q` lies in
/// the three-by-three block of cells around `q`'s cell, so the enumeration
/// around `q` yields it.
pub proof fn lemma_neighborhood_superset(g: &Cells, p: Vec2, q: Vec2)
    requires
        g.wf(),
        (p.x - q.x) * (p.x - q.x) + (p.y - q.y) * (p.y - q.y) < g.size * g.size,
    ensures
        g.adjacent(q, p),
{
    let s = g.size as int;
    let dx = p.x - q.x;
    let dy = p.y - q.y;
    assert(-s < dx < s && -s < dy < s) by (nonlinear_arith)
        requires dx * dx + dy * dy < s * s, s > 0;
    lemma_axis_adjacent(q.x as int, p.x as int, s, g.nx as int);
    lemma_axis_adjacent(q.y as int, p.y as int, s, g.ny as int);
}

} // verus!
