//! The external force hook and the integrator with its walls.
use vstd::prelude::*;
use crate::density::dist2_of;
use crate::force::{lemma_component_below, saturate_of};
use crate::kernel::{
    KERNEL_RADIUS, MAX_EXTENT, POSITION_LIMIT, SPEED_LIMIT, POLY6_PEAK, FORCE_LIMIT, dist2, div_toward_zero,
    div_toward_zero_of, saturate, sqrt_floor, sqrt_floor_of, is_isqrt, lemma_isqrt_unique,
};
use crate::particle::{Field, Particle, Vec2, particle_bounded};

verus! {

/// Radius around the pointer within which the external force acts.
pub const MOUSE_RADIUS: i64 = 100_000;

/// Magnitude of the external force, in thousandths.
pub const MOUSE_FORCE_STRENGTH: i64 = 500_000;

/// Integration steps per second of simulated time.
pub const STEPS_PER_SECOND: i64 = 1000;

/// Vertical speed a particle leaves a horizontal wall with.
pub const WALL_SPEED: i64 = -300_000;

/// The external force input for one tick: a point in field coordinates and
/// whether the force is on.
#[derive(Clone, Copy, Debug)]
pub struct MouseInfo {
    pub mouse_x: i64,
    pub mouse_y: i64,
    pub is_dragging: bool,
}

pub open spec fn mouse_ok(m: MouseInfo) -> bool {
    -POSITION_LIMIT <= m.mouse_x <= POSITION_LIMIT && -POSITION_LIMIT <= m.mouse_y <= POSITION_LIMIT
}

/// A field whose sides leave room for the inset of one interaction radius on
/// each side and whose grid stays small.
pub open spec fn field_ok(f: Field) -> bool {
    2 * KERNEL_RADIUS <= f.width <= MAX_EXTENT && 2 * KERNEL_RADIUS <= f.height <= MAX_EXTENT
}

/// The distance to the pointer is taken in units this many times finer than
/// a length unit, so that rounding it down changes the direction's length by
/// at most a ten-thousandth.
pub const PUSH_REFINE: i64 = 10_000;

/// `PUSH_REFINE` squared.
pub const PUSH_REFINE_SQ: i64 = 100_000_000;

/// The push of the external force on a particle at `p`: `MOUSE_FORCE_STRENGTH`
/// along the unit vector from `p` to the pointer, when the pointer is nearer
/// than `MOUSE_RADIUS` and not on `p` itself. The distance is measured in
/// units of `1 / PUSH_REFINE`.
pub open spec fn mouse_push(p: Vec2, m: MouseInfo) -> Vec2 {
    let target = Vec2 { x: m.mouse_x, y: m.mouse_y };
    let d2 = dist2(p, target);
    if 0 < d2 < MOUSE_RADIUS * MOUSE_RADIUS {
        let r = sqrt_floor(d2 * PUSH_REFINE_SQ);
        Vec2 {
            x: div_toward_zero(MOUSE_FORCE_STRENGTH * PUSH_REFINE * (m.mouse_x - p.x), r) as i64,
            y: div_toward_zero(MOUSE_FORCE_STRENGTH * PUSH_REFINE * (m.mouse_y - p.y), r) as i64,
        }
    } else {
        Vec2 { x: 0, y: 0 }
    }
}

/// The squared length of a push within a thousandth of the squared strength.
pub open spec fn push_has_strength(push: Vec2) -> bool {
    999 * (MOUSE_FORCE_STRENGTH * MOUSE_FORCE_STRENGTH) <= 1000 * (push.x * push.x + push.y * push.y)
        <= 1001 * (MOUSE_FORCE_STRENGTH * MOUSE_FORCE_STRENGTH)
}

/// `|a| / r`, rounded down, is what `div_toward_zero(a, r)` has as magnitude.
proof fn lemma_toward_zero_square(a: int, r: int)
    requires
        0 < r,
    ensures
        div_toward_zero(a, r) * div_toward_zero(a, r) == (if a >= 0 { a } else { -a }) / r * ((if a >= 0 {
            a
        } else {
            -a
        }) / r),
{
    let q = (if a >= 0 { a } else { -a }) / r;
    if a < 0 {
        assert(div_toward_zero(a, r) == -q);
        assert((-q) * (-q) == q * q) by (nonlinear_arith);
    }
}

/// Bounds on the rounded-down quotient of `|a|` by `r`.
proof fn lemma_quotient_square(a: int, r: int, q: int)
    requires
        0 < r,
        0 <= a,
        q == a / r,
    ensures
        0 <= q,
        q * q * (r * r) <= a * a,
        a * a < (q + 1) * (q + 1) * (r * r),
{
    assert(q * r <= a < (q + 1) * r && 0 <= q) by (nonlinear_arith)
        requires 0 < r, 0 <= a, q == a / r;
    assert(q * q * (r * r) <= a * a) by (nonlinear_arith)
        requires 0 <= q * r <= a;
    assert(a * a < (q + 1) * (q + 1) * (r * r)) by (nonlinear_arith)
        requires 0 <= a < (q + 1) * r;
}

/// A push of `strength * refine` times a difference, divided by the rounded-down
/// refined distance, has squared length within a thousandth of the squared strength.
proof fn lemma_push_strength(dx: int, dy: int, d2: int, r: int, ax: int, ay: int, qx: int, qy: int)
    requires
        d2 == dx * dx + dy * dy,
        0 < d2,
        0 <= r,
        r * r <= d2 * PUSH_REFINE_SQ < (r + 1) * (r + 1),
        ax == (if dx >= 0 { dx } else { -dx }) * (MOUSE_FORCE_STRENGTH * PUSH_REFINE),
        ay == (if dy >= 0 { dy } else { -dy }) * (MOUSE_FORCE_STRENGTH * PUSH_REFINE),
        qx == ax / r,
        qy == ay / r,
    ensures
        999 * (MOUSE_FORCE_STRENGTH * MOUSE_FORCE_STRENGTH) <= 1000 * (qx * qx + qy * qy) <= 1001 * (
        MOUSE_FORCE_STRENGTH * MOUSE_FORCE_STRENGTH),
{
    let s2: int = MOUSE_FORCE_STRENGTH * MOUSE_FORCE_STRENGTH;
    let k2: int = (MOUSE_FORCE_STRENGTH * PUSH_REFINE) * (MOUSE_FORCE_STRENGTH * PUSH_REFINE);
    assert(k2 == s2 * PUSH_REFINE_SQ);
    assert(r >= PUSH_REFINE) by (nonlinear_arith)
        requires d2 >= 1, d2 * 100_000_000 < (r + 1) * (r + 1), r >= 0;
    let rr = r * r;
    assert(rr > 0) by (nonlinear_arith)
        requires r >= 10_000, rr == r * r;
    assert(ax >= 0 && ay >= 0) by (nonlinear_arith)
        requires
            ax == (if dx >= 0 { dx } else { -dx }) * 5_000_000_000,
            ay == (if dy >= 0 { dy } else { -dy }) * 5_000_000_000;
    assert(ax * ax + ay * ay == k2 * d2) by (nonlinear_arith)
        requires
            ax == (if dx >= 0 { dx } else { -dx }) * 5_000_000_000,
            ay == (if dy >= 0 { dy } else { -dy }) * 5_000_000_000,
            k2 == 5_000_000_000 * 5_000_000_000,
            d2 == dx * dx + dy * dy;
    lemma_quotient_square(ax, r, qx);
    lemma_quotient_square(ay, r, qy);
    // upper bound
    let q2 = qx * qx + qy * qy;
    assert(q2 * rr <= k2 * d2) by (nonlinear_arith)
        requires
            qx * qx * rr <= ax * ax,
            qy * qy * rr <= ay * ay,
            ax * ax + ay * ay == k2 * d2,
            q2 == qx * qx + qy * qy;
    assert(k2 * d2 < s2 * ((r + 1) * (r + 1))) by (nonlinear_arith)
        requires k2 == s2 * 100_000_000, d2 * 100_000_000 < (r + 1) * (r + 1), s2 > 0;
    assert(1000 * ((r + 1) * (r + 1)) <= 1001 * rr) by (nonlinear_arith)
        requires r >= 10_000, rr == r * r;
    assert(1000 * q2 * rr < 1001 * s2 * rr) by (nonlinear_arith)
        requires
            q2 * rr < s2 * ((r + 1) * (r + 1)),
            1000 * ((r + 1) * (r + 1)) <= 1001 * rr,
            s2 > 0;
    assert(1000 * q2 < 1001 * s2) by (nonlinear_arith)
        requires 1000 * q2 * rr < 1001 * s2 * rr, rr > 0;
    // lower bound
    assert(s2 * rr <= k2 * d2) by (nonlinear_arith)
        requires k2 == s2 * 100_000_000, rr <= d2 * 100_000_000, s2 > 0;
    let p2 = (qx + 1) * (qx + 1) + (qy + 1) * (qy + 1);
    assert(s2 * rr < p2 * rr) by (nonlinear_arith)
        requires
            s2 * rr <= k2 * d2,
            ax * ax + ay * ay == k2 * d2,
            ax * ax < (qx + 1) * (qx + 1) * rr,
            ay * ay < (qy + 1) * (qy + 1) * rr,
            p2 == (qx + 1) * (qx + 1) + (qy + 1) * (qy + 1);
    assert(s2 < p2) by (nonlinear_arith)
        requires s2 * rr < p2 * rr, rr > 0;
    assert(p2 == q2 + 2 * qx + 2 * qy + 2) by (nonlinear_arith)
        requires
            p2 == (qx + 1) * (qx + 1) + (qy + 1) * (qy + 1),
            q2 == qx * qx + qy * qy;
    assert(qx <= 500_300 && qy <= 500_300) by (nonlinear_arith)
        requires 1000 * (qx * qx + qy * qy) < 1001 * 250_000_000_000, qx >= 0, qy >= 0;
    assert(999 * s2 <= 1000 * q2) by (nonlinear_arith)
        requires
            s2 < p2,
            p2 == q2 + 2 * qx + 2 * qy + 2,
            0 <= qx <= 500_300,
            0 <= qy <= 500_300,
            s2 == 250_000_000_000;
}

/// The particle with the external force added, when it is on.
pub open spec fn pushed(p: Particle, m: MouseInfo) -> Particle {
    if m.is_dragging {
        let push = mouse_push(p.position, m);
        Particle {
            force: Vec2 {
                x: saturate(p.force.x + push.x, FORCE_LIMIT as int) as i64,
                y: saturate(p.force.y + push.y, FORCE_LIMIT as int) as i64,
            },
            ..p
        }
    } else {
        p
    }
}

pub open spec fn with_mouse(ps: Seq<Particle>, m: MouseInfo) -> Seq<Particle> {
    Seq::new(ps.len(), |i: int| pushed(ps[i], m))
}

/// Semi-implicit Euler on one axis: the new velocity, saturated at `SPEED_LIMIT`.
pub open spec fn new_speed(v: int, f: int, density: int) -> int {
    saturate(v + div_toward_zero(1_000_000 * f, density), SPEED_LIMIT as int)
}

/// The particle after one time step, before the walls act.
pub open spec fn moved(p: Particle) -> Particle {
    let vx = new_speed(p.velocity.x as int, p.force.x as int, p.density as int);
    let vy = new_speed(p.velocity.y as int, p.force.y as int, p.density as int);
    Particle {
        velocity: Vec2 { x: vx as i64, y: vy as i64 },
        position: Vec2 {
            x: (p.position.x + div_toward_zero(vx, STEPS_PER_SECOND as int)) as i64,
            y: (p.position.y + div_toward_zero(vy, STEPS_PER_SECOND as int)) as i64,
        },
        ..p
    }
}

/// Horizontal walls: a particle within one radius of the floor or the ceiling
/// is put back at that inset and leaves with speed `WALL_SPEED`.
pub open spec fn floor_ceiling(p: Particle, f: Field) -> Particle {
    let p1 = if p.position.y - KERNEL_RADIUS < 0 {
        Particle {
            position: Vec2 { y: KERNEL_RADIUS, ..p.position },
            velocity: Vec2 { y: WALL_SPEED, ..p.velocity },
            ..p
        }
    } else {
        p
    };
    if p1.position.y + KERNEL_RADIUS > f.height {
        Particle {
            position: Vec2 { y: (f.height - KERNEL_RADIUS) as i64, ..p1.position },
            velocity: Vec2 { y: WALL_SPEED, ..p1.velocity },
            ..p1
        }
    } else {
        p1
    }
}

/// A horizontal speed reflected off a wall and damped to three tenths.
pub open spec fn bounced(v: int) -> int {
    div_toward_zero(-3 * v, 10)
}

/// Vertical walls: a particle within one radius of a side is put back at that
/// inset and its horizontal speed is reflected and damped.
pub open spec fn side_walls(p: Particle, f: Field) -> Particle {
    let p1 = if p.position.x - KERNEL_RADIUS < 0 {
        Particle {
            position: Vec2 { x: KERNEL_RADIUS, ..p.position },
            velocity: Vec2 { x: bounced(p.velocity.x as int) as i64, ..p.velocity },
            ..p
        }
    } else {
        p
    };
    if p1.position.x + KERNEL_RADIUS > f.width {
        Particle {
            position: Vec2 { x: (f.width - KERNEL_RADIUS) as i64, ..p1.position },
            velocity: Vec2 { x: bounced(p1.velocity.x as int) as i64, ..p1.velocity },
            ..p1
        }
    } else {
        p1
    }
}

/// One step of integration with the walls applied.
pub open spec fn integrated(p: Particle, f: Field) -> Particle {
    side_walls(floor_ceiling(moved(p), f), f)
}

pub open spec fn with_integration(ps: Seq<Particle>, f: Field) -> Seq<Particle> {
    Seq::new(ps.len(), |i: int| integrated(ps[i], f))
}

/// The particle lies in the field inset by one interaction radius.
pub open spec fn inside(p: Particle, f: Field) -> bool {
    KERNEL_RADIUS <= p.position.x <= f.width - KERNEL_RADIUS && KERNEL_RADIUS <= p.position.y <= f.height
        - KERNEL_RADIUS
}

/// The pointer as a point.
pub open spec fn pointer(m: MouseInfo) -> Vec2 {
    Vec2 { x: m.mouse_x, y: m.mouse_y }
}

/// Within reach of the pointer, and not on it, the push has the fixed
/// strength to within a thousandth of its square, and each component lies
/// within a little more than the strength.
pub proof fn lemma_mouse_push_strength(p: Vec2, m: MouseInfo, r: int)
    requires
        -POSITION_LIMIT <= p.x <= POSITION_LIMIT,
        -POSITION_LIMIT <= p.y <= POSITION_LIMIT,
        mouse_ok(m),
        0 < dist2(p, pointer(m)) < MOUSE_RADIUS * MOUSE_RADIUS,
        is_isqrt(dist2(p, pointer(m)) * PUSH_REFINE_SQ, r),
    ensures
        r == sqrt_floor(dist2(p, pointer(m)) * PUSH_REFINE_SQ),
        push_has_strength(mouse_push(p, m)),
        -500_300 <= mouse_push(p, m).x <= 500_300,
        -500_300 <= mouse_push(p, m).y <= 500_300,
{
    let d2 = dist2(p, pointer(m));
    let n = d2 * PUSH_REFINE_SQ;
    assert(is_isqrt(n, sqrt_floor(n)));
    lemma_isqrt_unique(n, r, sqrt_floor(n));
    let dx = m.mouse_x - p.x;
    let dy = m.mouse_y - p.y;
    let k: int = MOUSE_FORCE_STRENGTH * PUSH_REFINE;
    let ax = (if dx >= 0 { dx } else { -dx }) * k;
    let ay = (if dy >= 0 { dy } else { -dy }) * k;
    assert(0 < r) by (nonlinear_arith)
        requires r * r <= n < (r + 1) * (r + 1), n > 0, 0 <= r;
    assert((if k * dx >= 0 { k * dx } else { -(k * dx) }) == ax) by (nonlinear_arith)
        requires k == 5_000_000_000, ax == (if dx >= 0 { dx } else { -dx }) * k;
    assert((if k * dy >= 0 { k * dy } else { -(k * dy) }) == ay) by (nonlinear_arith)
        requires k == 5_000_000_000, ay == (if dy >= 0 { dy } else { -dy }) * k;
    lemma_toward_zero_square(k * dx, r);
    lemma_toward_zero_square(k * dy, r);
    lemma_push_strength(dx, dy, d2, r, ax, ay, ax / r, ay / r);
    let px = div_toward_zero(k * dx, r);
    let py = div_toward_zero(k * dy, r);
    assert(-500_300 <= px <= 500_300 && -500_300 <= py <= 500_300) by (nonlinear_arith)
        requires
            px * px + py * py <= 250_250_000_000,
    {
        assert(px * px <= 250_250_000_000);
        assert(py * py <= 250_250_000_000);
    }
    assert(1000 * (px * px + py * py) <= 1001 * 250_000_000_000);
    assert(mouse_push(p, m).x == px && mouse_push(p, m).y == py);
}

/// External force on one particle.
pub fn push_particle(p: Particle, m: &MouseInfo) -> (r: Particle)
    requires
        particle_bounded(p),
        mouse_ok(*m),
        -FORCE_LIMIT <= p.force.x <= FORCE_LIMIT,
        -FORCE_LIMIT <= p.force.y <= FORCE_LIMIT,
    ensures
        r == pushed(p, *m),
        m.is_dragging && 0 < dist2(p.position, pointer(*m)) < MOUSE_RADIUS * MOUSE_RADIUS ==> push_has_strength(
            mouse_push(p.position, *m),
        ),
{
    if !m.is_dragging {
        return p;
    }
    let target = Vec2 { x: m.mouse_x, y: m.mouse_y };
    let d2 = dist2_of(p.position, target);
    let mut push = Vec2 { x: 0, y: 0 };
    if 0 < d2 && d2 < MOUSE_RADIUS * MOUSE_RADIUS {
        let root = sqrt_floor_of((d2 as u64) * (PUSH_REFINE_SQ as u64));
        assert(1 <= root) by (nonlinear_arith)
            requires
                root * root <= d2 * 100_000_000 < (root + 1) * (root + 1),
                0 < d2,
                0 <= root;
        let dx = m.mouse_x - p.position.x;
        let dy = m.mouse_y - p.position.y;
        proof {
            lemma_component_below(dx as int, dy as int, MOUSE_RADIUS as int);
        }
        let k: i128 = 5_000_000_000;
        assert(k == MOUSE_FORCE_STRENGTH * PUSH_REFINE);
        let px = div_toward_zero_of(k * (dx as i128), root as i128);
        let py = div_toward_zero_of(k * (dy as i128), root as i128);
        proof {
            lemma_mouse_push_strength(p.position, *m, root as int);
        }
        push = Vec2 { x: px as i64, y: py as i64 };
    }
    let fx = saturate_of((p.force.x as i128) + (push.x as i128), FORCE_LIMIT);
    let fy = saturate_of((p.force.y as i128) + (push.y as i128), FORCE_LIMIT);
    Particle { force: Vec2 { x: fx, y: fy }, ..p }
}

/// Velocity update on one axis.
fn new_speed_of(v: i64, f: i64, density: i64) -> (r: i64)
    requires
        -SPEED_LIMIT <= v <= SPEED_LIMIT,
        -FORCE_LIMIT <= f <= FORCE_LIMIT,
        POLY6_PEAK <= density,
    ensures
        r == new_speed(v as int, f as int, density as int),
        -SPEED_LIMIT <= r <= SPEED_LIMIT,
{
    let dv = div_toward_zero_of(1_000_000 * (f as i128), density as i128);
    saturate_of((v as i128) + dv, SPEED_LIMIT)
}

/// One step of integration and the walls, on one particle.
pub fn integrate_particle(p: Particle, field: &Field) -> (r: Particle)
    requires
        particle_bounded(p),
        field_ok(*field),
        -FORCE_LIMIT <= p.force.x <= FORCE_LIMIT,
        -FORCE_LIMIT <= p.force.y <= FORCE_LIMIT,
        POLY6_PEAK <= p.density,
    ensures
        r == integrated(p, *field),
        particle_bounded(r),
        inside(r, *field),
{
    let vx = new_speed_of(p.velocity.x, p.force.x, p.density);
    let vy = new_speed_of(p.velocity.y, p.force.y, p.density);
    let mut q = p;
    q.velocity = Vec2 { x: vx, y: vy };
    q.position = Vec2 {
        x: p.position.x + vx / STEPS_PER_SECOND,
        y: p.position.y + vy / STEPS_PER_SECOND,
    };
    assert(q == moved(p));
    if q.position.y - KERNEL_RADIUS < 0 {
        q.position.y = KERNEL_RADIUS;
        q.velocity.y = WALL_SPEED;
    }
    if q.position.y + KERNEL_RADIUS > field.height {
        q.position.y = field.height - KERNEL_RADIUS;
        q.velocity.y = WALL_SPEED;
    }
    assert(q == floor_ceiling(moved(p), *field));
    let ghost before = q;
    if q.position.x - KERNEL_RADIUS < 0 {
        q.position.x = KERNEL_RADIUS;
        q.velocity.x = bounce_of(q.velocity.x);
    }
    if q.position.x + KERNEL_RADIUS > field.width {
        q.position.x = field.width - KERNEL_RADIUS;
        q.velocity.x = bounce_of(q.velocity.x);
    }
    assert(q == side_walls(before, *field));
    q
}

/// Reflected and damped horizontal speed.
fn bounce_of(v: i64) -> (r: i64)
    requires
        -SPEED_LIMIT <= v <= SPEED_LIMIT,
    ensures
        r == bounced(v as int),
        -SPEED_LIMIT <= r <= SPEED_LIMIT,
{
    let tripled = 3 * (v as i128);
    let q = div_toward_zero_of(-tripled, 10);
    q as i64
}

/// Boundary containment, one particle: after a step of integration the
/// walls leave every particle inside the field, inset by one interaction
/// radius, whatever its force and velocity were.
pub proof fn lemma_boundary_containment(p: Particle, f: Field)
    requires
        particle_bounded(p),
        field_ok(f),
        -FORCE_LIMIT <= p.force.x <= FORCE_LIMIT,
        -FORCE_LIMIT <= p.force.y <= FORCE_LIMIT,
        POLY6_PEAK <= p.density,
    ensures
        inside(integrated(p, f), f),
        0 <= integrated(p, f).position.x <= f.width,
        0 <= integrated(p, f).position.y <= f.height,
{
}

/// Integration keeps a particle within the engine's limits.
pub(crate) proof fn lemma_integrated_bounded(p: Particle, f: Field)
    requires
        particle_bounded(p),
        field_ok(f),
        -FORCE_LIMIT <= p.force.x <= FORCE_LIMIT,
        -FORCE_LIMIT <= p.force.y <= FORCE_LIMIT,
        POLY6_PEAK <= p.density,
    ensures
        particle_bounded(integrated(p, f)),
{
}

} // verus!
