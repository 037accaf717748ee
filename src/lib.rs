//! A two-dimensional smoothed-particle-hydrodynamics fluid engine in
//! fixed-point integer arithmetic.
//!
//! Every physical quantity is an integer count of a fixed unit, so that a run
//! is exactly reproducible on every machine:
//! lengths and positions in millionths of a field unit, velocities in
//! millionths of a field unit per second, densities in millionths, pressures
//! in billionths and forces in thousandths. Force and speed components
//! saturate at limits far above what a fluid under gravity reaches, so that
//! every quantity provably stays within 64 bits; positions are confined by
//! the walls.
//!
//! A tick of [`solver::State::update`] runs ten sub-steps, each of which
//! rebuilds the [`grid::Cells`] and then computes densities and pressures,
//! forces, the optional external force, and finally integrates. The
//! contracts state every pass as a sum over all particles; the grid only
//! narrows which particles are visited, and the proofs show that it misses
//! none that contribute.
pub mod kernel;
pub mod sums;
pub mod parallel;
pub mod particle;
pub mod grid;
pub mod seeding;
pub mod density;
pub mod force;
pub mod motion;
pub mod solver;
