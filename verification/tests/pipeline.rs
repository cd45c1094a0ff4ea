use nbody_core::mathvec::Vec2d;
use nbody_core::particles::Particle;
use nbody_core::physics_handler::{PhaseError, PhysicsHandlerThreaded, PhysicsThreadDispatcher};

const SCALE: i64 = nbody_core::fx::SCALE;

fn body(mass: i64, x: i64, y: i64, vx: i64, vy: i64) -> Particle {
    Particle::new(mass, SCALE / 4, Vec2d::new(x, y), Vec2d::new(vx, vy))
}

fn small_system() -> Vec<Particle> {
    vec![
        body(SCALE, 0, 0, SCALE / 2, 0),
        body(2 * SCALE, 4 * SCALE, 0, -SCALE / 4, SCALE / 8),
        body(SCALE, -3 * SCALE, 2 * SCALE, 0, -SCALE / 2),
    ]
}

fn loaded_handler() -> PhysicsHandlerThreaded {
    let mut h = PhysicsHandlerThreaded::new(SCALE, SCALE, SCALE / 2);
    assert!(h.try_load_particles(small_system()));
    h
}

#[test]
fn phase_ordering_is_enforced_loudly() {
    let mut d = PhysicsThreadDispatcher::new(SCALE, SCALE, 0);
    assert_eq!(d.mode(), 0);
    // Forces before any rebuild, and integration before any forces: errors.
    assert_eq!(d.try_dispatch(), Err(PhaseError::NotBuilt));
    assert_eq!(d.try_integrate(SCALE / 8), Err(PhaseError::NotComputed));
    assert_eq!(d.mode(), 0);
    // The rebuild itself is fine from idle.
    assert_eq!(d.try_dispatch_quad_grid(), Ok(()));
    assert_eq!(d.mode(), 2);
    // A second rebuild mid-step is an error; forces are now fine.
    assert_eq!(d.try_dispatch_quad_grid(), Err(PhaseError::NotIdle));
    assert_eq!(d.try_integrate(SCALE / 8), Err(PhaseError::NotComputed));
    assert_eq!(d.try_dispatch(), Ok(()));
    assert_eq!(d.mode(), 4);
    // Integration closes the step.
    assert_eq!(d.try_integrate(SCALE / 8), Ok(()));
    assert_eq!(d.mode(), 0);
}

#[test]
fn update_polls_one_phase_at_a_time() {
    let mut h = loaded_handler();
    assert_eq!(h.dispatcher.mode(), 0);
    assert!(!h.is_updating());
    h.update(SCALE / 8);
    assert_eq!(h.dispatcher.mode(), 2);
    h.update(SCALE / 8);
    assert_eq!(h.dispatcher.mode(), 4);
    h.update(SCALE / 8);
    assert_eq!(h.dispatcher.mode(), 0);
}

#[test]
fn integration_is_deterministic() {
    let mut h1 = loaded_handler();
    let mut h2 = loaded_handler();
    for _ in 0..6 {
        h1.update(SCALE / 8);
        h2.update(SCALE / 8);
    }
    assert_eq!(h1.particles(), h2.particles());
}

#[test]
fn a_full_step_moves_the_particles() {
    let mut h = loaded_handler();
    let before = h.particles();
    h.update(SCALE / 8);
    h.update(SCALE / 8);
    h.update(SCALE / 8);
    let after = h.particles();
    assert_eq!(before.len(), after.len());
    assert_ne!(before[0].pos, after[0].pos);
}

#[test]
fn totals_are_the_weighted_sums() {
    let h = loaded_handler();
    assert_eq!(h.num_particles(), 3);
    assert_eq!(h.total_mass(), 4 * SCALE);
    // sum of m * x: 1*0 + 2*4 + 1*(-3) == 5; sum of m * y: 0 + 0 + 2 == 2.
    assert_eq!(h.total_mass_pos(), Vec2d::new(5 * SCALE, 2 * SCALE));
    // sum of m * vx: 1/2 - 1/2 + 0 == 0; sum of m * vy: 0 + 1/4 - 1/2.
    assert_eq!(h.total_momentum(), Vec2d::new(0, -SCALE / 4));
}

#[test]
fn angular_momentum_of_a_single_orbiter() {
    // One unit mass at (2, 0) moving with vy = 1: L = m * (x*vy - y*vx) = 2.
    let mut h = PhysicsHandlerThreaded::new(SCALE, SCALE, 0);
    assert!(h.try_load_particles(vec![body(SCALE, 2 * SCALE, 0, 0, SCALE)]));
    assert_eq!(h.angular_momentum(), 2 * SCALE);
}

#[test]
fn momentum_zeroing_recenters_the_system() {
    let mut h = loaded_handler();
    h.zero_momentum_and_cm();
    let mom = h.total_momentum();
    let mp = h.total_mass_pos();
    // Residuals are bounded by the fixed-point rounding budget: well under
    // one mass-weighted unit for this system.
    let tol = h.total_mass() / SCALE + h.num_particles() as i64 + 1;
    assert!(mom.x.abs() <= tol, "momentum x residue {}", mom.x);
    assert!(mom.y.abs() <= tol, "momentum y residue {}", mom.y);
    assert!(mp.x.abs() <= tol, "mass-position x residue {}", mp.x);
    assert!(mp.y.abs() <= tol, "mass-position y residue {}", mp.y);
}

#[test]
fn identical_position_duplicates_feel_no_mutual_force() {
    // Two particles at the same position: the tree collapses them and the
    // grid guard skips them, so both force accumulators stay zero.
    let mut h = PhysicsHandlerThreaded::new(SCALE, SCALE, SCALE / 2);
    assert!(h.try_load_particles(vec![
        body(SCALE, SCALE, SCALE, 0, 0),
        body(3 * SCALE, SCALE, SCALE, 0, 0),
    ]));
    h.update(SCALE / 8);
    h.update(SCALE / 8);
    let parts = h.particles();
    for p in parts.iter() {
        assert_eq!(p.f_grav, Vec2d::zero());
        assert_eq!(p.f_spring, Vec2d::zero());
    }
}

#[test]
fn gravity_pulls_separated_particles_together() {
    let mut h = PhysicsHandlerThreaded::new(SCALE, SCALE, 0);
    assert!(h.try_load_particles(vec![
        body(4 * SCALE, -2 * SCALE, 0, 0, 0),
        body(4 * SCALE, 2 * SCALE, 0, 0, 0),
    ]));
    h.update(SCALE / 8);
    h.update(SCALE / 8);
    let parts = h.particles();
    assert!(parts[0].f_grav.x > 0, "left particle pulled right");
    assert!(parts[1].f_grav.x < 0, "right particle pulled left");
    // The exact kernel value: G*m1*m2/d^2 scaled along the unit diff.
    assert_eq!(parts[0].f_grav, Vec2d::new(SCALE, 0));
    assert_eq!(parts[1].f_grav, Vec2d::new(-SCALE, 0));
}

#[test]
fn load_rejects_inadmissible_particles() {
    let mut h = PhysicsHandlerThreaded::new(SCALE, SCALE, 0);
    // A mass of zero is not admissible.
    let bad = Particle::new(0, SCALE / 4, Vec2d::zero(), Vec2d::zero());
    assert!(!h.try_load_particles(vec![bad]));
    assert_eq!(h.num_particles(), 0);
    assert!(h.try_load_particles(small_system()));
    assert_eq!(h.num_particles(), 3);
}

#[test]
fn an_empty_buffer_still_cycles_phases() {
    let mut h = PhysicsHandlerThreaded::new(SCALE, SCALE, 0);
    h.update(SCALE / 8);
    h.update(SCALE / 8);
    h.update(SCALE / 8);
    assert_eq!(h.dispatcher.mode(), 0);
    assert_eq!(h.num_particles(), 0);
}

#[test]
fn set_present_keeps_the_physics_untouched() {
    let mut d = PhysicsThreadDispatcher::new(SCALE, SCALE, 0);
    d.set_present(nbody_core::easytime::get_present());
    assert_eq!(d.mode(), 0);
    let _ = nbody_core::easytime::EasyTimer::now();
    d.destruct_threads();
    d.next_computation();
    assert!(!d.is_running());
}
