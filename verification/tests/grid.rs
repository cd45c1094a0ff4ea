use nbody_core::gridhandler::{GridHandler, MapKey};
use nbody_core::mathvec::Vec2d;
use nbody_core::particles::Particle;

const SCALE: i64 = nbody_core::fx::SCALE;

fn colliding(x: i64, y: i64, vx: i64, vy: i64) -> Particle {
    // Radius of one fifth of a unit: circles overlap within 0.4 units.
    Particle::new(SCALE, SCALE / 5, Vec2d::new(x, y), Vec2d::new(vx, vy))
}

#[test]
fn neighbors_cover_the_nine_cells() {
    let k = MapKey { x: 10, y: -3 };
    let n = k.neighbors();
    assert_eq!(n.len(), 9);
    for dx in -1..=1 {
        for dy in -1..=1 {
            assert!(n.contains(&MapKey { x: 10 + dx, y: -3 + dy }));
        }
    }
}

#[test]
fn neighbors_clamp_at_the_integer_extremes() {
    let k = MapKey { x: i32::MAX, y: 0 };
    let n = k.neighbors();
    assert_eq!(n.len(), 6);
    for key in n.iter() {
        assert!(key.x == i32::MAX || key.x == i32::MAX - 1);
    }
    let k2 = MapKey { x: i32::MIN, y: i32::MIN };
    let n2 = k2.neighbors();
    assert_eq!(n2.len(), 4);
    for key in n2.iter() {
        assert!(key.x >= i32::MIN && key.y >= i32::MIN);
    }
    let corner = MapKey { x: i32::MAX, y: i32::MAX };
    assert_eq!(corner.neighbors().len(), 4);
}

#[test]
fn overlapping_particles_find_each_other_across_cells() {
    // Density one cell per unit: the two particles fall into adjacent
    // cells, and each still sees the other through the neighbor walk.
    let a = colliding(980, 0, 0, 0);
    let b = colliding(1100, 0, 0, 0);
    let mut grid = GridHandler::new(SCALE, 4);
    grid.add_particle(a);
    grid.add_particle(b);
    let fa = grid.calculate_spring_force(a, SCALE, 0);
    let fb = grid.calculate_spring_force(b, SCALE, 0);
    assert_ne!(fa, Vec2d::zero());
    assert_ne!(fb, Vec2d::zero());
    // The penalty spring pushes the pair apart; the exact magnitude is
    // -K * overlap along the unit normal, on the fixed-point grid.
    assert_eq!(fa, Vec2d::new(-292, 0));
    assert!(fb.x > 0);
}

#[test]
fn overlapping_particles_find_each_other_across_diagonal_cells() {
    let a = colliding(1000, 1000, 0, 0);
    let b = colliding(1100, 1100, 0, 0);
    let mut grid = GridHandler::new(SCALE, 4);
    grid.add_particle(a);
    grid.add_particle(b);
    assert_ne!(grid.calculate_spring_force(a, SCALE, 0), Vec2d::zero());
    assert_ne!(grid.calculate_spring_force(b, SCALE, 0), Vec2d::zero());
}

#[test]
fn overlapping_particles_find_each_other_at_clamped_keys() {
    // A huge density multiplier drives both cell coordinates past the i32
    // range, where they saturate; the pair still shares the clamped cell
    // and finds each other.
    let a = colliding(nbody_core::particles::COORD_MAX - 100, 4096, 0, 0);
    let b = colliding(nbody_core::particles::COORD_MAX, 4096, 0, 0);
    let mut grid = GridHandler::new(1 << 30, 4);
    grid.add_particle(a);
    grid.add_particle(b);
    assert_ne!(grid.calculate_spring_force(a, SCALE, 0), Vec2d::zero());
    assert_ne!(grid.calculate_spring_force(b, SCALE, 0), Vec2d::zero());
}

#[test]
fn separated_particles_exert_no_spring_force() {
    // Distance 3 units, radii 0.2 units: no contact, no force.
    let a = colliding(0, 0, 0, 0);
    let b = colliding(3 * SCALE, 0, 0, 0);
    let mut grid = GridHandler::new(SCALE, 4);
    grid.add_particle(a);
    grid.add_particle(b);
    assert_eq!(grid.calculate_spring_force(a, SCALE, 0), Vec2d::zero());
}

#[test]
fn coincident_particles_exert_no_spring_force() {
    let a = colliding(512, 512, 0, 0);
    let b = colliding(512, 512, 0, 0);
    let mut grid = GridHandler::new(SCALE, 4);
    grid.add_particle(a);
    grid.add_particle(b);
    assert_eq!(grid.calculate_spring_force(a, SCALE, SCALE), Vec2d::zero());
}

#[test]
fn damping_term_responds_to_relative_velocity() {
    // Same geometry, but the neighbor recedes: the damping term changes
    // the force, so the grid is reading velocities, not just positions.
    let a = colliding(980, 0, 0, 0);
    let still = colliding(1100, 0, 0, 0);
    let receding = colliding(1100, 0, SCALE, 0);
    let mut g1 = GridHandler::new(SCALE, 4);
    g1.add_particle(a);
    g1.add_particle(still);
    let mut g2 = GridHandler::new(SCALE, 4);
    g2.add_particle(a);
    g2.add_particle(receding);
    let f_still = g1.calculate_spring_force(a, SCALE, SCALE);
    let f_receding = g2.calculate_spring_force(a, SCALE, SCALE);
    assert_ne!(f_still, f_receding);
}

#[test]
fn clear_points_empties_the_buckets() {
    let a = colliding(980, 0, 0, 0);
    let b = colliding(1100, 0, 0, 0);
    let mut grid = GridHandler::new(SCALE, 4);
    grid.add_particle(a);
    grid.add_particle(b);
    grid.clear_points();
    assert_eq!(grid.calculate_spring_force(a, SCALE, 0), Vec2d::zero());
}
