//! The records the engine advances: vectors, particles and the field.
use vstd::prelude::*;
use crate::kernel::{POSITION_LIMIT, SPEED_LIMIT};

verus! {

/// A two-dimensional vector of fixed-point components.
#[derive(Clone, Copy, Debug, PartialEq, Eq)]
pub struct Vec2 {
    pub x: i64,
    pub y: i64,
}

impl Vec2 {
    pub fn new(x: i64, y: i64) -> (r: Vec2)
        ensures
            r.x == x,
            r.y == y,
    {
        Vec2 { x, y }
    }
}

/// One simulated fluid sample.
#[derive(Clone, Copy, Debug)]
pub struct Particle {
    /// Location in the field, in millionths of a field unit.
    pub position: Vec2,
    /// Millionths of a field unit per second.
    pub velocity: Vec2,
    /// Net force of the current step, in thousandths.
    pub force: Vec2,
    /// Pressure from the equation of state, in billionths.
    pub pressure: i64,
    /// Kernel-weighted mass density, in millionths.
    pub density: i64,
    /// Visual radius, in millionths of a field unit.
    pub size: i64,
}

/// The rectangular domain `[0, width] x [0, height]`, in millionths of a field unit.
#[derive(Clone, Copy, Debug)]
pub struct Field {
    pub height: i64,
    pub width: i64,
}

/// Every coordinate and velocity component is within the engine's limits.
pub open spec fn particle_bounded(p: Particle) -> bool {
    &&& -POSITION_LIMIT <= p.position.x <= POSITION_LIMIT
    &&& -POSITION_LIMIT <= p.position.y <= POSITION_LIMIT
    &&& -SPEED_LIMIT <= p.velocity.x <= SPEED_LIMIT
    &&& -SPEED_LIMIT <= p.velocity.y <= SPEED_LIMIT
}

pub open spec fn all_bounded(ps: Seq<Particle>) -> bool {
    forall|i: int| 0 <= i < ps.len() ==> particle_bounded(#[trigger] ps[i])
}

} // verus!
