//! The particle record: the mutable physical state of one body.

use vstd::prelude::*;

verus! {

use crate::mathvec::{Scalar, Vec2d};

/// Largest admissible particle mass, in fixed-point units.
pub const MASS_MAX: i64 = 0x400_0000;

/// Largest admissible coordinate magnitude for positions, velocities and
/// radii, in fixed-point units.
pub const COORD_MAX: i64 = 0x4000_0000;

/// Largest number of particles one simulation holds. Together with the
/// bounds above it keeps every mass and mass-weighted sum inside `i64`.
pub const PARTICLE_MAX: usize = 0x1_0000;

/// Largest magnitude of one fixed-point product `mass * coordinate` under
/// the bounds above (`MASS_MAX * COORD_MAX / SCALE`, plus one for the floor).
pub const MP_TERM_MAX: i64 = 0x4000_0000_0001;

/// One body: position, velocity, the two force accumulators that each tick
/// overwrites, mass and collision radius.
#[derive(Copy, Clone, Debug, PartialEq, Eq, Structural)]
pub struct Particle {
    pub pos: Vec2d,
    pub vel: Vec2d,
    pub f_grav: Vec2d,
    pub f_spring: Vec2d,
    pub mass: Scalar,
    pub radius: Scalar,
}

/// Admissible particle state: positive bounded mass, bounded coordinates.
/// The bounds are what machine arithmetic forces; they keep the tree's
/// incremental mass sums exact.
pub open spec fn particle_valid(p: Particle) -> bool {
    &&& 1 <= p.mass <= MASS_MAX
    &&& 0 <= p.radius <= COORD_MAX
    &&& -COORD_MAX <= p.pos.x <= COORD_MAX
    &&& -COORD_MAX <= p.pos.y <= COORD_MAX
    &&& -COORD_MAX <= p.vel.x <= COORD_MAX
    &&& -COORD_MAX <= p.vel.y <= COORD_MAX
}

impl Particle {
    /// A fresh particle with cleared force accumulators.
    pub fn new(mass: Scalar, radius: Scalar, pos: Vec2d, vel: Vec2d) -> (r: Particle)
        ensures
            r == (Particle {
                pos,
                vel,
                f_grav: Vec2d { x: 0i64, y: 0i64 },
                f_spring: Vec2d { x: 0i64, y: 0i64 },
                mass,
                radius,
            }),
    {
        Particle { pos, vel, mass, radius, f_grav: Vec2d::zero(), f_spring: Vec2d::zero() }
    }

    /// Runtime test for `particle_valid`, for callers that cannot prove it.
    pub fn is_valid(&self) -> (r: bool)
        ensures
            r == particle_valid(*self),
    {
        1 <= self.mass && self.mass <= MASS_MAX && 0 <= self.radius && self.radius <= COORD_MAX
            && -COORD_MAX <= self.pos.x && self.pos.x <= COORD_MAX && -COORD_MAX <= self.pos.y
            && self.pos.y <= COORD_MAX && -COORD_MAX <= self.vel.x && self.vel.x <= COORD_MAX
            && -COORD_MAX <= self.vel.y && self.vel.y <= COORD_MAX
    }
}

} // verus!
