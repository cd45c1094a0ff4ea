use nbody_core::masstree::{MassTree, MassTreeBuilder, Span, TreeNode};
use nbody_core::mathvec::Vec2d;
use nbody_core::particles::Particle;

const SCALE: i64 = nbody_core::fx::SCALE;

fn wide_span() -> Span {
    Span::new(
        Vec2d::new(8 * SCALE, 8 * SCALE),
        Vec2d::new(-8 * SCALE, -8 * SCALE),
    )
}

fn particle_at(mass: i64, x: i64, y: i64) -> Particle {
    Particle::new(mass, SCALE / 4, Vec2d::new(x, y), Vec2d::zero())
}

#[test]
fn mass_conservation_over_insertions() {
    let mut tree = MassTree::builder().with_span(wide_span()).build();
    assert_eq!(tree.root.mass(), 0);
    tree.add_particle(particle_at(1 * SCALE, 0, 0));
    assert_eq!(tree.root.mass(), 1 * SCALE);
    tree.add_particle(particle_at(3 * SCALE, 4 * SCALE, 0));
    assert_eq!(tree.root.mass(), 4 * SCALE);
    tree.add_particle(particle_at(2 * SCALE, -5 * SCALE, 3 * SCALE));
    assert_eq!(tree.root.mass(), 6 * SCALE);
    tree.add_particle(particle_at(5 * SCALE, 1, -7 * SCALE));
    assert_eq!(tree.root.mass(), 11 * SCALE);
}

#[test]
fn mass_conservation_is_insertion_order_independent() {
    let parts = [
        particle_at(1 * SCALE, 0, 0),
        particle_at(3 * SCALE, 4 * SCALE, 0),
        particle_at(2 * SCALE, -5 * SCALE, 3 * SCALE),
    ];
    let orders: [[usize; 3]; 3] = [[0, 1, 2], [2, 0, 1], [1, 2, 0]];
    for order in orders.iter() {
        let mut tree = MassTree::builder().with_span(wide_span()).build();
        for &i in order.iter() {
            tree.add_particle(parts[i]);
        }
        assert_eq!(tree.root.mass(), 6 * SCALE);
    }
}

#[test]
fn duplicate_position_insertion_is_skipped() {
    let mut tree = MassTree::builder().with_span(wide_span()).build();
    tree.add_particle(particle_at(1 * SCALE, 2 * SCALE, 2 * SCALE));
    // Same position, different mass: collapsed by the duplicate guard.
    tree.add_particle(particle_at(7 * SCALE, 2 * SCALE, 2 * SCALE));
    assert_eq!(tree.root.mass(), 1 * SCALE);
}

#[test]
fn center_of_mass_of_two_particles() {
    // Mass 1 at (0, 0) and mass 3 at (4, 0): the center of mass is (3, 0).
    let mut tree = MassTree::builder().with_span(wide_span()).build();
    tree.add_particle(particle_at(1 * SCALE, 0, 0));
    tree.add_particle(particle_at(3 * SCALE, 4 * SCALE, 0));
    let masspos = tree.root.masspos();
    let mass = tree.root.mass();
    assert_eq!(masspos.div_by(mass), Vec2d::new(3 * SCALE, 0));
}

#[test]
fn full_descent_equals_direct_summation() {
    // A query close enough that every branch passes the opening criterion:
    // the tree walk degenerates to the direct pairwise sum, which the
    // single-particle trees compute one source at a time.
    let p1 = particle_at(1 * SCALE, 2 * SCALE, 0);
    let p2 = particle_at(2 * SCALE, 3 * SCALE, 1 * SCALE);
    let arg = particle_at(1 * SCALE, 1 * SCALE, 0);
    let g = SCALE;

    let mut both = MassTree::builder().with_span(wide_span()).build();
    both.add_particle(p1);
    both.add_particle(p2);

    let mut only1 = MassTree::builder().with_span(wide_span()).build();
    only1.add_particle(p1);
    let mut only2 = MassTree::builder().with_span(wide_span()).build();
    only2.add_particle(p2);

    let full = both.calculate_forces(arg, g);
    let f1 = only1.calculate_forces(arg, g);
    let f2 = only2.calculate_forces(arg, g);
    assert_ne!(f1, Vec2d::zero());
    assert_ne!(f2, Vec2d::zero());
    assert_eq!(full, f1.plus(f2));
}

#[test]
fn softening_floor_suppresses_self_force() {
    // The queried particle coincides with the only leaf: within the
    // softening floor, so the net gravitational force is zero.
    let p = particle_at(4 * SCALE, 1 * SCALE, 1 * SCALE);
    let mut tree = MassTree::builder().with_span(wide_span()).build();
    tree.add_particle(p);
    assert_eq!(tree.calculate_forces(p, SCALE), Vec2d::zero());
}

#[test]
fn distant_aggregate_is_approximated_as_a_point() {
    // Far from the cluster the branch stays closed and acts as one point
    // mass; the force is still nonzero and directed toward the cluster.
    let p1 = particle_at(1 * SCALE, 2 * SCALE, 2 * SCALE);
    let p2 = particle_at(1 * SCALE, 3 * SCALE, 2 * SCALE);
    let far = particle_at(1 * SCALE, -7 * SCALE, 2 * SCALE);
    let mut tree = MassTree::builder().with_span(wide_span()).build();
    tree.add_particle(p1);
    tree.add_particle(p2);
    let f = tree.calculate_forces(far, SCALE);
    assert!(f.x > 0);
}

#[test]
fn spans_split_into_quadrants_at_the_midpoint() {
    let s = Span::new(Vec2d::new(4 * SCALE, 2 * SCALE), Vec2d::new(0, 0));
    assert_eq!(s.midpoint(), Vec2d::new(2 * SCALE, SCALE));
    let quads = s.subspans();
    assert_eq!(quads[0].minus_corner, Vec2d::new(0, 0));
    assert_eq!(quads[0].plus_corner, Vec2d::new(2 * SCALE, SCALE));
    assert_eq!(quads[3].minus_corner, Vec2d::new(2 * SCALE, SCALE));
    assert_eq!(quads[3].plus_corner, Vec2d::new(4 * SCALE, 2 * SCALE));
    let p = Particle::new(SCALE, 0, Vec2d::new(3 * SCALE, 0), Vec2d::zero());
    assert_eq!(s.subspan_idx_for(p), (1, 0));
    // 4.0 * 2.0 == 8.0 in fixed point.
    assert_eq!(s.volume(), 8 * SCALE);
}

#[test]
fn tree_nodes_report_leaf_aggregates() {
    let node = TreeNode::new(wide_span());
    assert_eq!(node.mass(), 0);
    assert_eq!(node.masspos(), Vec2d::zero());
}

#[test]
fn builder_derives_node_capacity_from_particle_count() {
    // 16 particles: 16 * log4(16) + 1 == 33 nodes.
    let b = MassTreeBuilder::new().with_particle_capacity(16);
    assert_eq!(b.node_capacity, 33);
    let b2 = MassTreeBuilder::new().with_particle_capacity(3);
    assert_eq!(b2.node_capacity, 1);
    let b3 = MassTree::builder().with_node_capacity(7);
    assert_eq!(b3.node_capacity, 7);
}
