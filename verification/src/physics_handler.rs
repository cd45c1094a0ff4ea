//! The physics dispatcher: a poll-driven, three-phase pipeline over the
//! particle buffer. One poll performs exactly the action its phase allows:
//! rebuild the spatial structures from current positions, evaluate forces
//! against the now-stable grid and tree, or integrate motion and return to
//! idle. Dispatching a phase out of order is reported loudly through the
//! checked entry points and excluded by contract from the unchecked ones.

use vstd::prelude::*;

verus! {

use crate::fx;
use crate::fx::{sadd, ssub, smul, sdiv, SCALE};
use crate::mathvec::{Scalar, Vec2d, vadd, vsub, vscale, vdiv};
use crate::particles::{Particle, particle_valid, COORD_MAX, MASS_MAX, MP_TERM_MAX, PARTICLE_MAX};
use crate::masstree::{
    MassTree, Span, tree_wf, leaf_count, subtree_mass, subtree_mpx, subtree_mpy, positions,
    pos_in_span, force_on,
};
use crate::gridhandler::{GridHandler, key_code, pos_key, neighbor_seq, cells_fold};

/// Half a unit, fixed-point: the factor of the second-order position term.
pub const HALF: i64 = 512;

/// The numerator of the grid cell density: about 0.706 in fixed point,
/// divided by the largest particle radius to size cells to the particles.
pub const CELL_DENSITY: i64 = 723;

/// The phase the poll-driven pipeline is in: `Idle` before a rebuild,
/// `Built` once grid and tree stand, `Computed` once forces are in the
/// buffer and integration may run.
#[derive(Copy, Clone, Debug, PartialEq, Eq, Structural)]
pub enum Phase {
    Idle,
    Built,
    Computed,
}

/// A phase was dispatched out of order.
#[derive(Copy, Clone, Debug, PartialEq, Eq, Structural)]
pub enum PhaseError {
    /// Force evaluation was dispatched before any rebuild completed.
    NotBuilt,
    /// Integration was dispatched before force evaluation completed.
    NotComputed,
    /// A rebuild was dispatched while a step was mid-flight.
    NotIdle,
}

/// Sum of the masses of a particle sequence.
pub open spec fn masses_sum(s: Seq<Particle>) -> int
    decreases s.len(),
{
    if s.len() == 0 {
        0
    } else {
        masses_sum(s.drop_last()) + s.last().mass
    }
}

/// Sum of the fixed-point products `mass * pos.x`.
pub open spec fn mp_sum_x(s: Seq<Particle>) -> int
    decreases s.len(),
{
    if s.len() == 0 {
        0
    } else {
        mp_sum_x(s.drop_last()) + smul(s.last().mass as int, s.last().pos.x as int)
    }
}

/// Sum of the fixed-point products `mass * pos.y`.
pub open spec fn mp_sum_y(s: Seq<Particle>) -> int
    decreases s.len(),
{
    if s.len() == 0 {
        0
    } else {
        mp_sum_y(s.drop_last()) + smul(s.last().mass as int, s.last().pos.y as int)
    }
}

/// Sum of the fixed-point products `mass * vel.x`.
pub open spec fn mom_sum_x(s: Seq<Particle>) -> int
    decreases s.len(),
{
    if s.len() == 0 {
        0
    } else {
        mom_sum_x(s.drop_last()) + smul(s.last().mass as int, s.last().vel.x as int)
    }
}

/// Sum of the fixed-point products `mass * vel.y`.
pub open spec fn mom_sum_y(s: Seq<Particle>) -> int
    decreases s.len(),
{
    if s.len() == 0 {
        0
    } else {
        mom_sum_y(s.drop_last()) + smul(s.last().mass as int, s.last().vel.y as int)
    }
}

/// One particle's angular momentum `mass * (x * vy - y * vx)`, saturating.
pub open spec fn ang_term(p: Particle) -> int {
    smul(
        p.mass as int,
        ssub(smul(p.pos.x as int, p.vel.y as int), smul(p.pos.y as int, p.vel.x as int)),
    )
}

/// Saturating fold of the angular momentum terms.
pub open spec fn ang_sum(s: Seq<Particle>) -> int
    decreases s.len(),
{
    if s.len() == 0 {
        0
    } else {
        sadd(ang_sum(s.drop_last()), ang_term(s.last()))
    }
}

/// Every particle of the sequence is admissible.
pub open spec fn all_valid(s: Seq<Particle>) -> bool {
    forall|i: int| 0 <= i < s.len() ==> particle_valid(#[trigger] s[i])
}

/// Under the admissibility bounds no mass or mass-weighted sum leaves the
/// `i64` range, so the executable folds compute them exactly.
pub proof fn lemma_sums_bounded(s: Seq<Particle>)
    requires
        all_valid(s),
        s.len() <= PARTICLE_MAX,
    ensures
        0 <= masses_sum(s) <= s.len() * MASS_MAX,
        -(s.len() * MP_TERM_MAX) <= mp_sum_x(s) <= s.len() * MP_TERM_MAX,
        -(s.len() * MP_TERM_MAX) <= mp_sum_y(s) <= s.len() * MP_TERM_MAX,
        -(s.len() * MP_TERM_MAX) <= mom_sum_x(s) <= s.len() * MP_TERM_MAX,
        -(s.len() * MP_TERM_MAX) <= mom_sum_y(s) <= s.len() * MP_TERM_MAX,
        masses_sum(s) >= s.len(),
    decreases s.len(),
{
    if s.len() > 0 {
        assert(all_valid(s.drop_last()));
        lemma_sums_bounded(s.drop_last());
        let p = s.last();
        assert(particle_valid(p));
        crate::masstree::lemma_mp_term_bound(p.mass as int, p.pos.x as int);
        crate::masstree::lemma_mp_term_bound(p.mass as int, p.pos.y as int);
        crate::masstree::lemma_mp_term_bound(p.mass as int, p.vel.x as int);
        crate::masstree::lemma_mp_term_bound(p.mass as int, p.vel.y as int);
    }
}

/// Largest x coordinate of a nonempty particle sequence.
pub open spec fn bb_max_x(s: Seq<Particle>) -> int
    decreases s.len(),
{
    if s.len() <= 1 {
        s[0].pos.x as int
    } else {
        let m = bb_max_x(s.drop_last());
        if s.last().pos.x > m {
            s.last().pos.x as int
        } else {
            m
        }
    }
}

/// Smallest x coordinate of a nonempty particle sequence.
pub open spec fn bb_min_x(s: Seq<Particle>) -> int
    decreases s.len(),
{
    if s.len() <= 1 {
        s[0].pos.x as int
    } else {
        let m = bb_min_x(s.drop_last());
        if s.last().pos.x < m {
            s.last().pos.x as int
        } else {
            m
        }
    }
}

/// Largest y coordinate of a nonempty particle sequence.
pub open spec fn bb_max_y(s: Seq<Particle>) -> int
    decreases s.len(),
{
    if s.len() <= 1 {
        s[0].pos.y as int
    } else {
        let m = bb_max_y(s.drop_last());
        if s.last().pos.y > m {
            s.last().pos.y as int
        } else {
            m
        }
    }
}

/// Smallest y coordinate of a nonempty particle sequence.
pub open spec fn bb_min_y(s: Seq<Particle>) -> int
    decreases s.len(),
{
    if s.len() <= 1 {
        s[0].pos.y as int
    } else {
        let m = bb_min_y(s.drop_last());
        if s.last().pos.y < m {
            s.last().pos.y as int
        } else {
            m
        }
    }
}

/// Largest radius of a particle sequence, at least zero.
pub open spec fn bb_rad(s: Seq<Particle>) -> int
    decreases s.len(),
{
    if s.len() == 0 {
        0
    } else {
        let m = bb_rad(s.drop_last());
        if s.last().radius > m {
            s.last().radius as int
        } else {
            m
        }
    }
}

/// The tree span a rebuild derives from the buffer: the bounding box of
/// the positions, widened by one unit so the half-open span covers every
/// particle.
pub open spec fn rebuild_span(s: Seq<Particle>) -> Span {
    Span {
        plus_corner: Vec2d { x: (bb_max_x(s) + 1) as i64, y: (bb_max_y(s) + 1) as i64 },
        minus_corner: Vec2d { x: bb_min_x(s) as i64, y: bb_min_y(s) as i64 },
    }
}

/// The grid density a rebuild derives from the buffer: about 0.706 divided
/// by the largest radius, or one cell per unit when every radius is zero.
pub open spec fn rebuild_mult(s: Seq<Particle>) -> int {
    if bb_rad(s) > 0 {
        sdiv(CELL_DENSITY as int, bb_rad(s))
    } else {
        SCALE as int
    }
}

/// The grid contents after inserting the sequence in order under density
/// `mult`.
pub open spec fn grid_fill(s: Seq<Particle>, mult: int) -> Map<u64, Seq<Particle>>
    decreases s.len(),
{
    if s.len() == 0 {
        Map::empty()
    } else {
        let m = grid_fill(s.drop_last(), mult);
        let code = key_code(pos_key(s.last().pos, mult)) as u64;
        let bucket = if m.contains_key(code) {
            m[code]
        } else {
            Seq::<Particle>::empty()
        };
        m.insert(code, bucket.push(s.last()))
    }
}

/// The set of positions of a particle sequence, as integer pairs.
pub open spec fn pos_set(s: Seq<Particle>) -> Set<(int, int)>
    decreases s.len(),
{
    if s.len() == 0 {
        Set::empty()
    } else {
        pos_set(s.drop_last()).insert((s.last().pos.x as int, s.last().pos.y as int))
    }
}

/// No two particles of the sequence share a position.
pub open spec fn distinct_positions(s: Seq<Particle>) -> bool {
    forall|i: int, j: int|
        0 <= i < j < s.len() ==> (#[trigger] s[i].pos.x != #[trigger] s[j].pos.x || s[i].pos.y
            != s[j].pos.y)
}

/// `pos_set` holds exactly the positions the sequence holds.
pub proof fn lemma_pos_set_iff(s: Seq<Particle>)
    ensures
        forall|q: (int, int)|
            pos_set(s).contains(q) <==> exists|j: int|
                0 <= j < s.len() && q == (#[trigger] s[j].pos.x as int, s[j].pos.y as int),
    decreases s.len(),
{
    if s.len() > 0 {
        lemma_pos_set_iff(s.drop_last());
        assert forall|q: (int, int)| pos_set(s).contains(q) implies exists|j: int|
            0 <= j < s.len() && q == (#[trigger] s[j].pos.x as int, s[j].pos.y as int) by {
            if q == (s.last().pos.x as int, s.last().pos.y as int) {
                assert(0 <= s.len() - 1 < s.len() && q == (
                    s[s.len() - 1].pos.x as int,
                    s[s.len() - 1].pos.y as int,
                ));
            } else {
                assert(pos_set(s.drop_last()).contains(q));
                let j = choose|j: int|
                    0 <= j < s.drop_last().len() && q == (
                        #[trigger] s.drop_last()[j].pos.x as int,
                        s.drop_last()[j].pos.y as int,
                    );
                assert(s[j] == s.drop_last()[j]);
                assert(0 <= j < s.len() && q == (s[j].pos.x as int, s[j].pos.y as int));
            }
        };
        assert forall|q: (int, int)|
            (exists|j: int|
                0 <= j < s.len() && q == (
                    #[trigger] s[j].pos.x as int,
                    s[j].pos.y as int,
                )) implies pos_set(s).contains(q) by {
            let j = choose|j: int|
                0 <= j < s.len() && q == (#[trigger] s[j].pos.x as int, s[j].pos.y as int);
            if j < s.len() - 1 {
                assert(s.drop_last()[j] == s[j]);
                assert(pos_set(s.drop_last()).contains(q));
            }
        };
    }
}

/// Sum of the masses of the particles that survive the duplicate guard:
/// of several particles at one position, only the first inserted counts.
pub open spec fn dedup_mass(s: Seq<Particle>) -> int
    decreases s.len(),
{
    if s.len() == 0 {
        0
    } else if pos_set(s.drop_last()).contains((s.last().pos.x as int, s.last().pos.y as int)) {
        dedup_mass(s.drop_last())
    } else {
        dedup_mass(s.drop_last()) + s.last().mass
    }
}

/// Sum of `mass * pos.x` over the particles that survive the duplicate
/// guard.
pub open spec fn dedup_mpx(s: Seq<Particle>) -> int
    decreases s.len(),
{
    if s.len() == 0 {
        0
    } else if pos_set(s.drop_last()).contains((s.last().pos.x as int, s.last().pos.y as int)) {
        dedup_mpx(s.drop_last())
    } else {
        dedup_mpx(s.drop_last()) + smul(s.last().mass as int, s.last().pos.x as int)
    }
}

/// Sum of `mass * pos.y` over the particles that survive the duplicate
/// guard.
pub open spec fn dedup_mpy(s: Seq<Particle>) -> int
    decreases s.len(),
{
    if s.len() == 0 {
        0
    } else if pos_set(s.drop_last()).contains((s.last().pos.x as int, s.last().pos.y as int)) {
        dedup_mpy(s.drop_last())
    } else {
        dedup_mpy(s.drop_last()) + smul(s.last().mass as int, s.last().pos.y as int)
    }
}

/// Number of particles that survive the duplicate guard: one per distinct
/// position.
pub open spec fn dedup_count(s: Seq<Particle>) -> int
    decreases s.len(),
{
    if s.len() == 0 {
        0
    } else if pos_set(s.drop_last()).contains((s.last().pos.x as int, s.last().pos.y as int)) {
        dedup_count(s.drop_last())
    } else {
        dedup_count(s.drop_last()) + 1
    }
}

/// Mass conservation over a whole buffer: when no two particles share a
/// position, the duplicate guard never fires, and the deduplicated sums
/// are the plain sums over every inserted particle.
pub proof fn lemma_dedup_of_distinct(s: Seq<Particle>)
    requires
        distinct_positions(s),
    ensures
        dedup_mass(s) == masses_sum(s),
        dedup_mpx(s) == mp_sum_x(s),
        dedup_mpy(s) == mp_sum_y(s),
        dedup_count(s) == s.len(),
    decreases s.len(),
{
    if s.len() > 0 {
        assert(distinct_positions(s.drop_last())) by {
            assert forall|i: int, j: int| 0 <= i < j < s.drop_last().len() implies (
            #[trigger] s.drop_last()[i].pos.x != #[trigger] s.drop_last()[j].pos.x
                || s.drop_last()[i].pos.y != s.drop_last()[j].pos.y) by {
                assert(s.drop_last()[i] == s[i] && s.drop_last()[j] == s[j]);
            };
        }
        lemma_dedup_of_distinct(s.drop_last());
        lemma_pos_set_iff(s.drop_last());
        let lastq = (s.last().pos.x as int, s.last().pos.y as int);
        assert(!pos_set(s.drop_last()).contains(lastq)) by {
            if pos_set(s.drop_last()).contains(lastq) {
                let j = choose|j: int|
                    0 <= j < s.drop_last().len() && lastq == (
                        #[trigger] s.drop_last()[j].pos.x as int,
                        s.drop_last()[j].pos.y as int,
                    );
                assert(s[j] == s.drop_last()[j]);
                assert(s[j].pos.x == s[s.len() - 1].pos.x && s[j].pos.y == s[s.len() - 1].pos.y);
            }
        };
    }
}

/// The dispatcher: the shared structures a step works over, the particle
/// buffer, the stored phase, and the force-law constants.
pub struct PhysicsThreadDispatcher {
    /// The clock value published for telemetry timestamps.
    pub present: std::time::Instant,
    /// Worker count the force pass is partitioned for.
    pub num_threads: usize,
    /// The Barnes-Hut tree of the last rebuild.
    pub quad: MassTree,
    /// The spatial hash grid of the last rebuild.
    pub grid: GridHandler,
    /// The particle buffer.
    pub data: Vec<Particle>,
    /// The stored phase of the pipeline.
    pub phase: Phase,
    /// The gravitational constant.
    pub g: Scalar,
    /// The collision spring constant.
    pub coll_k: Scalar,
    /// The collision damping factor.
    pub coll_dampening: Scalar,
}

/// The dispatcher's invariant: an admissible, bounded buffer and a
/// well-formed tree.
pub open spec fn disp_wf(d: PhysicsThreadDispatcher) -> bool {
    &&& tree_wf(d.quad)
    &&& d.data@.len() <= PARTICLE_MAX
    &&& all_valid(d.data@)
}

impl PhysicsThreadDispatcher {
    /// An idle dispatcher with an empty buffer and the given force-law
    /// constants.
    pub fn new(g: Scalar, coll_k: Scalar, coll_dampening: Scalar) -> (r: PhysicsThreadDispatcher)
        ensures
            disp_wf(r),
            r.phase is Idle,
            r.data@ == Seq::<Particle>::empty(),
            r.g == g,
            r.coll_k == coll_k,
            r.coll_dampening == coll_dampening,
            r.num_threads == 4,
    {
        let num_threads: usize = 4;
        PhysicsThreadDispatcher {
            present: crate::easytime::get_present(),
            num_threads,
            quad: MassTree::builder().build(),
            grid: GridHandler::new(0, 0),
            data: Vec::new(),
            phase: Phase::Idle,
            g,
            coll_k,
            coll_dampening,
        }
    }

    /// Publish a clock value for telemetry timestamps.
    pub fn set_present(&mut self, time: std::time::Instant)
        ensures
            *final(self) == restamped(*old(self), time),
    {
        self.present = time;
        proof {
            assert(*self == restamped(*old(self), time));
        }
    }

    /// The phase as a mode number: 0 idle, 2 built, 4 computed. The odd
    /// numbers are reserved for phases whose background work is still
    /// running, which never outlives a poll here.
    pub fn mode(&self) -> (r: u8)
        ensures
            r == 0 <==> self.phase is Idle,
            r == 2 <==> self.phase is Built,
            r == 4 <==> self.phase is Computed,
    {
        match self.phase {
            Phase::Idle => 0,
            Phase::Built => 2,
            Phase::Computed => 4,
        }
    }

    /// Whether a background task is mid-flight: never, since each poll
    /// completes its phase before returning.
    pub fn is_running(&self) -> (r: bool)
        ensures
            r == false,
    {
        false
    }

    /// Join outstanding tasks. Every phase completes within its poll, so
    /// there is nothing to join.
    pub fn destruct_threads(&mut self)
        ensures
            *final(self) == *old(self),
    {
    }

    /// Finish the force phase: joining its workers is immediate here.
    pub fn next_computation(&mut self)
        ensures
            *final(self) == *old(self),
    {
        self.destruct_threads();
    }

    /// Rebuild the spatial structures from current particle positions: scan
    /// the buffer once for its bounding box and largest radius, derive the
    /// grid density and tree span from them, and re-insert every particle
    /// into a fresh grid and tree.
    pub fn dispatch_quad_grid(&mut self)
        requires
            disp_wf(*old(self)),
            old(self).phase is Idle,
        ensures
            disp_wf(*final(self)),
            rebuilt(*old(self), *final(self)),
    {
        let n = self.data.len();
        if n == 0 {
            self.grid = GridHandler::new(SCALE, 0);
            self.quad = MassTree::builder().build();
            self.phase = Phase::Built;
            return ;
        }
        let p0 = self.data[0];
        let mut min_x = p0.pos.x;
        let mut max_x = p0.pos.x;
        let mut min_y = p0.pos.y;
        let mut max_y = p0.pos.y;
        let mut max_rad: i64 = if p0.radius > 0 {
            p0.radius
        } else {
            0
        };
        proof {
            let t1 = self.data@.take(1);
            assert(bb_rad(Seq::<Particle>::empty()) == 0);
            assert(t1.drop_last() =~= Seq::<Particle>::empty());
            assert(t1.last() == self.data@[0]);
            assert(t1[0] == self.data@[0]);
            assert(particle_valid(self.data@[0]));
        }
        let mut j: usize = 1;
        while j < n
            invariant
                *self == *old(self),
                disp_wf(*self),
                1 <= j <= n,
                n == self.data@.len(),
                min_x == bb_min_x(self.data@.take(j as int)),
                max_x == bb_max_x(self.data@.take(j as int)),
                min_y == bb_min_y(self.data@.take(j as int)),
                max_y == bb_max_y(self.data@.take(j as int)),
                max_rad == bb_rad(self.data@.take(j as int)),
                -COORD_MAX <= min_x <= max_x <= COORD_MAX,
                -COORD_MAX <= min_y <= max_y <= COORD_MAX,
                0 <= max_rad <= COORD_MAX,
            decreases n - j,
        {
            proof {
                let pre = self.data@.take(j as int + 1);
                assert(pre.drop_last() =~= self.data@.take(j as int));
                assert(pre.last() == self.data@[j as int]);
                assert(particle_valid(self.data@[j as int]));
            }
            let p = self.data[j];
            if p.pos.x < min_x {
                min_x = p.pos.x;
            }
            if p.pos.x > max_x {
                max_x = p.pos.x;
            }
            if p.pos.y < min_y {
                min_y = p.pos.y;
            }
            if p.pos.y > max_y {
                max_y = p.pos.y;
            }
            if p.radius > max_rad {
                max_rad = p.radius;
            }
            j = j + 1;
        }
        proof {
            assert(self.data@.take(n as int) =~= self.data@);
        }
        let mult: i64 = if max_rad > 0 {
            fx::fx_div(CELL_DENSITY, max_rad)
        } else {
            SCALE
        };
        let span = Span::new(
            Vec2d { x: max_x + 1, y: max_y + 1 },
            Vec2d { x: min_x, y: min_y },
        );
        let mut grid = GridHandler::new(mult, n);
        let mut quad = MassTree::builder().with_particle_capacity(n).with_span(span).build();
        proof {
            lemma_bb_bounds(self.data@);
            assert(self.data@.take(0) =~= Seq::<Particle>::empty());
        }
        let mut i: usize = 0;
        while i < n
            invariant
                *self == *old(self),
                disp_wf(*self),
                0 <= i <= n,
                n == self.data@.len(),
                mult as int == rebuild_mult(self.data@),
                span == rebuild_span(self.data@),
                forall|m: int| 0 <= m < n ==> pos_in_span(#[trigger] self.data@[m].pos, span),
                tree_wf(quad),
                quad.root.span == span,
                grid@ == grid_fill(self.data@.take(i as int), mult as int),
                grid.spec_multiplier() == mult,
                positions(quad.root) == pos_set(self.data@.take(i as int)),
                leaf_count(quad.root) <= i,
                subtree_mass(quad.root) == dedup_mass(self.data@.take(i as int)),
                subtree_mpx(quad.root) == dedup_mpx(self.data@.take(i as int)),
                subtree_mpy(quad.root) == dedup_mpy(self.data@.take(i as int)),
                leaf_count(quad.root) == dedup_count(self.data@.take(i as int)),
            decreases n - i,
        {
            proof {
                let pre = self.data@.take(i as int + 1);
                assert(pre.drop_last() =~= self.data@.take(i as int));
                assert(pre.last() == self.data@[i as int]);
                assert(particle_valid(self.data@[i as int]));
            }
            let p = self.data[i];
            grid.add_particle(p);
            quad.add_particle(p);
            proof {
                assert(positions(quad.root) =~= pos_set(self.data@.take(i as int + 1)));
            }
            i = i + 1;
        }
        proof {
            assert(self.data@.take(n as int) =~= self.data@);
        }
        self.grid = grid;
        self.quad = quad;
        self.phase = Phase::Built;
    }

    /// Evaluate forces for every particle against the stable grid and tree
    /// of the last rebuild. Valid only once a rebuild has completed; the
    /// checked entry reports the violation instead.
    pub fn dispatch(&mut self)
        requires
            disp_wf(*old(self)),
            old(self).phase is Built || old(self).phase is Computed,
        ensures
            disp_wf(*final(self)),
            forced(*old(self), *final(self)),
    {
        self.destruct_threads();
        let n = self.data.len();
        let mut i: usize = 0;
        while i < n
            invariant
                n == self.data@.len(),
                0 <= i <= n,
                self.quad == old(self).quad,
                self.grid == old(self).grid,
                self.present == old(self).present,
                self.g == old(self).g,
                self.coll_k == old(self).coll_k,
                self.coll_dampening == old(self).coll_dampening,
                self.num_threads == old(self).num_threads,
                self.phase == old(self).phase,
                tree_wf(self.quad),
                self.data@.len() <= PARTICLE_MAX,
                all_valid(old(self).data@),
                forall|m: int|
                    0 <= m < i ==> self.data@[m] == force_pass_particle(
                        #[trigger] old(self).data@[m],
                        *old(self),
                    ),
                forall|m: int| i <= m < n ==> self.data@[m] == old(self).data@[m],
            decreases n - i,
        {
            let p = self.data[i];
            let fg = self.quad.calculate_forces(p, self.g);
            let fs = self.grid.calculate_spring_force(p, self.coll_k, self.coll_dampening);
            let mut np = p;
            np.f_grav = fg;
            np.f_spring = fs;
            self.data.set(i, np);
            i = i + 1;
        }
        proof {
            assert forall|m: int| 0 <= m < self.data@.len() implies particle_valid(
                #[trigger] self.data@[m],
            ) by {
                assert(particle_valid(old(self).data@[m]));
            };
        }
        self.phase = Phase::Computed;
    }

    /// The checked force-evaluation entry: reports a phase error instead of
    /// using a grid and tree no rebuild has produced.
    pub fn try_dispatch(&mut self) -> (r: Result<(), PhaseError>)
        requires
            disp_wf(*old(self)),
        ensures
            disp_wf(*final(self)),
            r is Ok <==> !(old(self).phase is Idle),
            !(old(self).phase is Idle) ==> forced(*old(self), *final(self)),
            old(self).phase is Idle ==> *final(self) == *old(self) && r == Result::<
                (),
                PhaseError,
            >::Err(PhaseError::NotBuilt),
    {
        match self.phase {
            Phase::Idle => Err(PhaseError::NotBuilt),
            _ => {
                self.dispatch();
                Ok(())
            },
        }
    }

    /// Integrate motion over `dt` from the forces the last evaluation wrote,
    /// and return to idle. Valid only once force evaluation has completed;
    /// the checked entry reports the violation instead.
    pub fn integrate(&mut self, dt: Scalar)
        requires
            disp_wf(*old(self)),
            old(self).phase is Computed,
        ensures
            disp_wf(*final(self)),
            integrated(*old(self), *final(self), dt as int),
    {
        let n = self.data.len();
        let mut i: usize = 0;
        while i < n
            invariant
                n == self.data@.len(),
                0 <= i <= n,
                self.quad == old(self).quad,
                self.grid == old(self).grid,
                self.present == old(self).present,
                self.g == old(self).g,
                self.coll_k == old(self).coll_k,
                self.coll_dampening == old(self).coll_dampening,
                self.num_threads == old(self).num_threads,
                self.phase == old(self).phase,
                tree_wf(self.quad),
                self.data@.len() <= PARTICLE_MAX,
                all_valid(old(self).data@),
                all_valid(self.data@),
                forall|m: int|
                    0 <= m < i ==> self.data@[m] == integrate_particle(
                        #[trigger] old(self).data@[m],
                        dt as int,
                    ),
                forall|m: int| i <= m < n ==> self.data@[m] == old(self).data@[m],
            decreases n - i,
        {
            let p = self.data[i];
            proof {
                assert(particle_valid(old(self).data@[i as int]));
            }
            let fsum = p.f_spring.plus(p.f_grav);
            let half_dt = fx::fx_mul(HALF, dt);
            let corr = fsum.scale(half_dt).div_by(p.mass);
            let dx = p.vel.plus(corr).scale(dt);
            let dv = fsum.scale(dt).div_by(p.mass);
            let npos_raw = p.pos.plus(dx);
            let nvel_raw = p.vel.plus(dv);
            let mut np = p;
            np.pos = Vec2d {
                x: clamp_coord_exec(npos_raw.x),
                y: clamp_coord_exec(npos_raw.y),
            };
            np.vel = Vec2d {
                x: clamp_coord_exec(nvel_raw.x),
                y: clamp_coord_exec(nvel_raw.y),
            };
            self.data.set(i, np);
            proof {
                assert(self.data@[i as int] == integrate_particle(
                    old(self).data@[i as int],
                    dt as int,
                ));
                assert(particle_valid(self.data@[i as int]));
            }
            i = i + 1;
        }
        self.phase = Phase::Idle;
    }

    /// The checked integration entry: reports a phase error instead of
    /// integrating from forces no evaluation has written.
    pub fn try_integrate(&mut self, dt: Scalar) -> (r: Result<(), PhaseError>)
        requires
            disp_wf(*old(self)),
        ensures
            disp_wf(*final(self)),
            r is Ok <==> old(self).phase is Computed,
            old(self).phase is Computed ==> integrated(*old(self), *final(self), dt as int),
            !(old(self).phase is Computed) ==> *final(self) == *old(self) && r == Result::<
                (),
                PhaseError,
            >::Err(PhaseError::NotComputed),
    {
        match self.phase {
            Phase::Computed => {
                self.integrate(dt);
                Ok(())
            },
            _ => Err(PhaseError::NotComputed),
        }
    }

    /// One poll: perform exactly the action the current phase allows —
    /// rebuild when idle, evaluate forces when built, integrate and return
    /// to idle when computed. A full physics step therefore spans three
    /// polls.
    pub fn update(&mut self, dt: Scalar)
        requires
            disp_wf(*old(self)),
        ensures
            disp_wf(*final(self)),
            old(self).phase is Idle ==> rebuilt(*old(self), *final(self)),
            old(self).phase is Built ==> forced(*old(self), *final(self)),
            old(self).phase is Computed ==> integrated(*old(self), *final(self), dt as int),
    {
        match self.phase {
            Phase::Idle => self.dispatch_quad_grid(),
            Phase::Built => self.dispatch(),
            Phase::Computed => self.integrate(dt),
        }
    }

    /// The checked rebuild entry: reports a phase error instead of acting
    /// when a step is already mid-flight.
    pub fn try_dispatch_quad_grid(&mut self) -> (r: Result<(), PhaseError>)
        requires
            disp_wf(*old(self)),
        ensures
            disp_wf(*final(self)),
            r is Ok <==> old(self).phase is Idle,
            old(self).phase is Idle ==> rebuilt(*old(self), *final(self)),
            !(old(self).phase is Idle) ==> *final(self) == *old(self) && r == Result::<
                (),
                PhaseError,
            >::Err(PhaseError::NotIdle),
    {
        match self.phase {
            Phase::Idle => {
                self.dispatch_quad_grid();
                Ok(())
            },
            _ => Err(PhaseError::NotIdle),
        }
    }
}

/// Every position of a nonempty sequence lies inside its bounding box, and
/// every radius below its largest radius.
pub proof fn lemma_bb_bounds(s: Seq<Particle>)
    requires
        s.len() >= 1,
    ensures
        forall|i: int|
            0 <= i < s.len() ==> bb_min_x(s) <= #[trigger] s[i].pos.x <= bb_max_x(s) && bb_min_y(s)
                <= s[i].pos.y <= bb_max_y(s) && s[i].radius <= bb_rad(s),
    decreases s.len(),
{
    if s.len() > 1 {
        lemma_bb_bounds(s.drop_last());
        assert forall|i: int|
            0 <= i < s.len() implies bb_min_x(s) <= #[trigger] s[i].pos.x <= bb_max_x(s)
            && bb_min_y(s) <= s[i].pos.y <= bb_max_y(s) && s[i].radius <= bb_rad(s) by {
            if i < s.len() - 1 {
                assert(s.drop_last()[i] == s[i]);
            }
        };
    }
}

/// Saturation of a coordinate to the world box `[-COORD_MAX, COORD_MAX]`,
/// which keeps integrated state admissible for the next rebuild.
pub open spec fn clamp_coord(v: int) -> int {
    if v > COORD_MAX {
        COORD_MAX as int
    } else if v < -COORD_MAX {
        -COORD_MAX as int
    } else {
        v
    }
}

/// Component-wise saturation to the world box.
pub open spec fn vclamp_coord(a: Vec2d) -> Vec2d {
    Vec2d { x: clamp_coord(a.x as int) as i64, y: clamp_coord(a.y as int) as i64 }
}

fn clamp_coord_exec(v: i64) -> (r: i64)
    ensures
        r == clamp_coord(v as int),
{
    if v > COORD_MAX {
        COORD_MAX
    } else if v < -COORD_MAX {
        -COORD_MAX
    } else {
        v
    }
}

/// What the force pass writes into one particle: the tree's gravitational
/// force and the grid's spring force, everything else untouched.
pub open spec fn force_pass_particle(p: Particle, d: PhysicsThreadDispatcher) -> Particle {
    Particle {
        f_grav: force_on(Vec2d { x: 0i64, y: 0i64 }, d.quad.root, p, d.g as int),
        f_spring: cells_fold(
            Vec2d { x: 0i64, y: 0i64 },
            p,
            neighbor_seq(pos_key(p.pos, d.grid.spec_multiplier() as int)),
            d.grid@,
            d.coll_k as int,
            d.coll_dampening as int,
        ),
        ..p
    }
}

/// What one force-evaluation poll does: every particle's force accumulators
/// are overwritten from the stable grid and tree, and nothing else moves.
pub open spec fn forced(pre: PhysicsThreadDispatcher, post: PhysicsThreadDispatcher) -> bool {
    &&& post.data@.len() == pre.data@.len()
    &&& forall|i: int|
        0 <= i < pre.data@.len() ==> post.data@[i] == force_pass_particle(
            #[trigger] pre.data@[i],
            pre,
        )
    &&& post.quad == pre.quad
    &&& post.grid == pre.grid
    &&& post.present == pre.present
    &&& post.g == pre.g
    &&& post.coll_k == pre.coll_k
    &&& post.coll_dampening == pre.coll_dampening
    &&& post.num_threads == pre.num_threads
    &&& post.phase is Computed
}

/// The symplectic step of one particle under time delta `dt`: a position
/// update with a half-step acceleration correction and a first-order
/// velocity update, both saturated to the world box.
pub open spec fn integrate_particle(p: Particle, dt: int) -> Particle {
    let fsum = vadd(p.f_spring, p.f_grav);
    let dx = vscale(dt, vadd(p.vel, vdiv(vscale(smul(HALF as int, dt), fsum), p.mass as int)));
    let dv = vdiv(vscale(dt, fsum), p.mass as int);
    Particle {
        pos: vclamp_coord(vadd(p.pos, dx)),
        vel: vclamp_coord(vadd(p.vel, dv)),
        ..p
    }
}

/// What one integration poll does: every particle moves by exactly
/// `integrate_particle`, the phase returns to idle, and nothing else moves.
pub open spec fn integrated(pre: PhysicsThreadDispatcher, post: PhysicsThreadDispatcher, dt: int) -> bool {
    &&& post.data@.len() == pre.data@.len()
    &&& forall|i: int|
        0 <= i < pre.data@.len() ==> post.data@[i] == integrate_particle(
            #[trigger] pre.data@[i],
            dt,
        )
    &&& post.quad == pre.quad
    &&& post.grid == pre.grid
    &&& post.present == pre.present
    &&& post.g == pre.g
    &&& post.coll_k == pre.coll_k
    &&& post.coll_dampening == pre.coll_dampening
    &&& post.num_threads == pre.num_threads
    &&& post.phase is Idle
}

/// What one particle becomes when the system is recentered: the
/// mass-weighted average position and velocity are subtracted, saturated to
/// the world box.
pub open spec fn recenter_particle(p: Particle, pos_diff: Vec2d, mom_diff: Vec2d) -> Particle {
    Particle {
        pos: vclamp_coord(vsub(p.pos, pos_diff)),
        vel: vclamp_coord(vsub(p.vel, mom_diff)),
        ..p
    }
}

/// The handler around the dispatcher: the public face of the pipeline.
pub struct PhysicsHandlerThreaded {
    /// The dispatcher that holds the buffer and the phase.
    pub dispatcher: PhysicsThreadDispatcher,
    /// The wall-clock timer behind the telemetry timestamps.
    pub timer: crate::easytime::EasyTimer,
}

impl PhysicsHandlerThreaded {
    /// A handler over a fresh idle dispatcher with the given gravitational
    /// constant, collision spring constant and collision damping.
    pub fn new(grav_constant: Scalar, collision_spring_constant: Scalar, collision_dampening: Scalar) -> (r:
        PhysicsHandlerThreaded)
        ensures
            disp_wf(r.dispatcher),
            r.dispatcher.phase is Idle,
            r.dispatcher.data@ == Seq::<Particle>::empty(),
            r.dispatcher.g == grav_constant,
            r.dispatcher.coll_k == collision_spring_constant,
            r.dispatcher.coll_dampening == collision_dampening,
    {
        PhysicsHandlerThreaded {
            dispatcher: PhysicsThreadDispatcher::new(
                grav_constant,
                collision_spring_constant,
                collision_dampening,
            ),
            timer: crate::easytime::EasyTimer::now(),
        }
    }

    /// Sum of the particle masses, exact under the admissibility bounds.
    pub fn total_mass(&self) -> (r: Scalar)
        requires
            disp_wf(self.dispatcher),
        ensures
            r == masses_sum(self.dispatcher.data@),
    {
        let n = self.dispatcher.data.len();
        let mut acc: i64 = 0;
        let mut i: usize = 0;
        proof {
            assert(self.dispatcher.data@.take(0) =~= Seq::<Particle>::empty());
        }
        while i < n
            invariant
                disp_wf(self.dispatcher),
                n == self.dispatcher.data@.len(),
                0 <= i <= n,
                acc == masses_sum(self.dispatcher.data@.take(i as int)),
                0 <= acc <= i * MASS_MAX,
            decreases n - i,
        {
            proof {
                let pre = self.dispatcher.data@.take(i as int + 1);
                assert(pre.drop_last() =~= self.dispatcher.data@.take(i as int));
                assert(pre.last() == self.dispatcher.data@[i as int]);
                assert(particle_valid(self.dispatcher.data@[i as int]));
            }
            acc = fx::fx_add(acc, self.dispatcher.data[i].mass);
            i = i + 1;
        }
        proof {
            assert(self.dispatcher.data@.take(n as int) =~= self.dispatcher.data@);
        }
        acc
    }

    /// Sum of the mass-weighted positions, exact under the admissibility
    /// bounds.
    pub fn total_mass_pos(&self) -> (r: Vec2d)
        requires
            disp_wf(self.dispatcher),
        ensures
            r.x == mp_sum_x(self.dispatcher.data@),
            r.y == mp_sum_y(self.dispatcher.data@),
    {
        let n = self.dispatcher.data.len();
        let mut acc = Vec2d::zero();
        let mut i: usize = 0;
        proof {
            assert(self.dispatcher.data@.take(0) =~= Seq::<Particle>::empty());
        }
        while i < n
            invariant
                disp_wf(self.dispatcher),
                n == self.dispatcher.data@.len(),
                0 <= i <= n,
                acc.x == mp_sum_x(self.dispatcher.data@.take(i as int)),
                acc.y == mp_sum_y(self.dispatcher.data@.take(i as int)),
                -(i * MP_TERM_MAX) <= acc.x <= i * MP_TERM_MAX,
                -(i * MP_TERM_MAX) <= acc.y <= i * MP_TERM_MAX,
            decreases n - i,
        {
            proof {
                let pre = self.dispatcher.data@.take(i as int + 1);
                assert(pre.drop_last() =~= self.dispatcher.data@.take(i as int));
                assert(pre.last() == self.dispatcher.data@[i as int]);
                assert(particle_valid(self.dispatcher.data@[i as int]));
                crate::masstree::lemma_mp_term_bound(
                    self.dispatcher.data@[i as int].mass as int,
                    self.dispatcher.data@[i as int].pos.x as int,
                );
                crate::masstree::lemma_mp_term_bound(
                    self.dispatcher.data@[i as int].mass as int,
                    self.dispatcher.data@[i as int].pos.y as int,
                );
            }
            let p = self.dispatcher.data[i];
            acc = acc.plus(p.pos.scale(p.mass));
            i = i + 1;
        }
        proof {
            assert(self.dispatcher.data@.take(n as int) =~= self.dispatcher.data@);
        }
        acc
    }

    /// Sum of the mass-weighted velocities, exact under the admissibility
    /// bounds.
    pub fn total_momentum(&self) -> (r: Vec2d)
        requires
            disp_wf(self.dispatcher),
        ensures
            r.x == mom_sum_x(self.dispatcher.data@),
            r.y == mom_sum_y(self.dispatcher.data@),
    {
        let n = self.dispatcher.data.len();
        let mut acc = Vec2d::zero();
        let mut i: usize = 0;
        proof {
            assert(self.dispatcher.data@.take(0) =~= Seq::<Particle>::empty());
        }
        while i < n
            invariant
                disp_wf(self.dispatcher),
                n == self.dispatcher.data@.len(),
                0 <= i <= n,
                acc.x == mom_sum_x(self.dispatcher.data@.take(i as int)),
                acc.y == mom_sum_y(self.dispatcher.data@.take(i as int)),
                -(i * MP_TERM_MAX) <= acc.x <= i * MP_TERM_MAX,
                -(i * MP_TERM_MAX) <= acc.y <= i * MP_TERM_MAX,
            decreases n - i,
        {
            proof {
                let pre = self.dispatcher.data@.take(i as int + 1);
                assert(pre.drop_last() =~= self.dispatcher.data@.take(i as int));
                assert(pre.last() == self.dispatcher.data@[i as int]);
                assert(particle_valid(self.dispatcher.data@[i as int]));
                crate::masstree::lemma_mp_term_bound(
                    self.dispatcher.data@[i as int].mass as int,
                    self.dispatcher.data@[i as int].vel.x as int,
                );
                crate::masstree::lemma_mp_term_bound(
                    self.dispatcher.data@[i as int].mass as int,
                    self.dispatcher.data@[i as int].vel.y as int,
                );
            }
            let p = self.dispatcher.data[i];
            acc = acc.plus(p.vel.scale(p.mass));
            i = i + 1;
        }
        proof {
            assert(self.dispatcher.data@.take(n as int) =~= self.dispatcher.data@);
        }
        acc
    }

    /// Whether a background task is mid-flight: never, since every poll
    /// completes its phase before returning.
    pub fn is_updating(&self) -> (r: bool)
        ensures
            r == false,
    {
        self.dispatcher.is_running()
    }

    /// A snapshot copy of the particle buffer, for drawing.
    pub fn particles(&self) -> (r: Vec<Particle>)
        ensures
            r@ == self.dispatcher.data@,
    {
        let n = self.dispatcher.data.len();
        let mut out: Vec<Particle> = Vec::new();
        let mut i: usize = 0;
        while i < n
            invariant
                n == self.dispatcher.data@.len(),
                0 <= i <= n,
                out@ =~= self.dispatcher.data@.take(i as int),
            decreases n - i,
        {
            out.push(self.dispatcher.data[i]);
            i = i + 1;
        }
        proof {
            assert(self.dispatcher.data@.take(n as int) =~= self.dispatcher.data@);
        }
        out
    }

    /// Number of particles in the buffer.
    pub fn num_particles(&self) -> (r: usize)
        ensures
            r == self.dispatcher.data@.len(),
    {
        self.dispatcher.data.len()
    }

    /// Total angular momentum `sum of mass * (x * vy - y * vx)`, as the
    /// saturating fold `ang_sum` states it.
    pub fn angular_momentum(&self) -> (r: Scalar)
        ensures
            r == ang_sum(self.dispatcher.data@),
    {
        let n = self.dispatcher.data.len();
        let mut acc: i64 = 0;
        let mut i: usize = 0;
        proof {
            assert(self.dispatcher.data@.take(0) =~= Seq::<Particle>::empty());
        }
        while i < n
            invariant
                n == self.dispatcher.data@.len(),
                0 <= i <= n,
                acc == ang_sum(self.dispatcher.data@.take(i as int)),
            decreases n - i,
        {
            proof {
                let pre = self.dispatcher.data@.take(i as int + 1);
                assert(pre.drop_last() =~= self.dispatcher.data@.take(i as int));
                assert(pre.last() == self.dispatcher.data@[i as int]);
            }
            let p = self.dispatcher.data[i];
            let inner = fx::fx_sub(fx::fx_mul(p.pos.x, p.vel.y), fx::fx_mul(p.pos.y, p.vel.x));
            acc = fx::fx_add(acc, fx::fx_mul(p.mass, inner));
            i = i + 1;
        }
        proof {
            assert(self.dispatcher.data@.take(n as int) =~= self.dispatcher.data@);
        }
        acc
    }

    /// Recenter the system: subtract the mass-weighted average position and
    /// velocity from every particle, removing net drift. The buffer must
    /// not be empty, so the total mass is positive.
    pub fn zero_momentum_and_cm(&mut self)
        requires
            disp_wf(old(self).dispatcher),
            old(self).dispatcher.data@.len() >= 1,
        ensures
            disp_wf(final(self).dispatcher),
            ({
                let s = old(self).dispatcher.data@;
                let m = masses_sum(s);
                let pos_diff = Vec2d {
                    x: sdiv(mp_sum_x(s), m) as i64,
                    y: sdiv(mp_sum_y(s), m) as i64,
                };
                let mom_diff = Vec2d {
                    x: sdiv(mom_sum_x(s), m) as i64,
                    y: sdiv(mom_sum_y(s), m) as i64,
                };
                &&& final(self).dispatcher.data@.len() == s.len()
                &&& forall|i: int|
                    0 <= i < s.len() ==> final(self).dispatcher.data@[i] == recenter_particle(
                        #[trigger] s[i],
                        pos_diff,
                        mom_diff,
                    )
            }),
            final(self).dispatcher.quad == old(self).dispatcher.quad,
            final(self).dispatcher.grid == old(self).dispatcher.grid,
            final(self).dispatcher.phase == old(self).dispatcher.phase,
            final(self).dispatcher.g == old(self).dispatcher.g,
            final(self).dispatcher.coll_k == old(self).dispatcher.coll_k,
            final(self).dispatcher.coll_dampening == old(self).dispatcher.coll_dampening,
            final(self).timer == old(self).timer,
    {
        proof {
            lemma_sums_bounded(self.dispatcher.data@);
        }
        let mass = self.total_mass();
        let pos_diff = self.total_mass_pos().div_by(mass);
        let mom_diff = self.total_momentum().div_by(mass);
        let n = self.dispatcher.data.len();
        let mut i: usize = 0;
        while i < n
            invariant
                n == self.dispatcher.data@.len(),
                0 <= i <= n,
                self.dispatcher.quad == old(self).dispatcher.quad,
                self.dispatcher.grid == old(self).dispatcher.grid,
                self.dispatcher.present == old(self).dispatcher.present,
                self.dispatcher.phase == old(self).dispatcher.phase,
                self.dispatcher.g == old(self).dispatcher.g,
                self.dispatcher.coll_k == old(self).dispatcher.coll_k,
                self.dispatcher.coll_dampening == old(self).dispatcher.coll_dampening,
                self.dispatcher.num_threads == old(self).dispatcher.num_threads,
                self.timer == old(self).timer,
                tree_wf(self.dispatcher.quad),
                self.dispatcher.data@.len() <= PARTICLE_MAX,
                all_valid(old(self).dispatcher.data@),
                all_valid(self.dispatcher.data@),
                pos_diff == (Vec2d {
                    x: sdiv(mp_sum_x(old(self).dispatcher.data@), masses_sum(old(self).dispatcher.data@)) as i64,
                    y: sdiv(mp_sum_y(old(self).dispatcher.data@), masses_sum(old(self).dispatcher.data@)) as i64,
                }),
                mom_diff == (Vec2d {
                    x: sdiv(mom_sum_x(old(self).dispatcher.data@), masses_sum(old(self).dispatcher.data@)) as i64,
                    y: sdiv(mom_sum_y(old(self).dispatcher.data@), masses_sum(old(self).dispatcher.data@)) as i64,
                }),
                forall|m: int|
                    0 <= m < i ==> self.dispatcher.data@[m] == recenter_particle(
                        #[trigger] old(self).dispatcher.data@[m],
                        pos_diff,
                        mom_diff,
                    ),
                forall|m: int| i <= m < n ==> self.dispatcher.data@[m] == old(self).dispatcher.data@[m],
            decreases n - i,
        {
            let p = self.dispatcher.data[i];
            proof {
                assert(particle_valid(old(self).dispatcher.data@[i as int]));
            }
            let npos_raw = p.pos.minus(pos_diff);
            let nvel_raw = p.vel.minus(mom_diff);
            let mut np = p;
            np.pos = Vec2d {
                x: clamp_coord_exec(npos_raw.x),
                y: clamp_coord_exec(npos_raw.y),
            };
            np.vel = Vec2d {
                x: clamp_coord_exec(nvel_raw.x),
                y: clamp_coord_exec(nvel_raw.y),
            };
            self.dispatcher.data.set(i, np);
            proof {
                assert(particle_valid(self.dispatcher.data@[i as int]));
            }
            i = i + 1;
        }
    }

    /// One poll of the pipeline, after publishing the present instant for
    /// telemetry: rebuild when idle, evaluate forces when built, integrate
    /// over `dt` when computed.
    pub fn update(&mut self, dt: Scalar)
        requires
            disp_wf(old(self).dispatcher),
        ensures
            disp_wf(final(self).dispatcher),
            old(self).dispatcher.phase is Idle ==> rebuilt(
                restamped(old(self).dispatcher, final(self).dispatcher.present),
                final(self).dispatcher,
            ),
            old(self).dispatcher.phase is Built ==> forced(
                restamped(old(self).dispatcher, final(self).dispatcher.present),
                final(self).dispatcher,
            ),
            old(self).dispatcher.phase is Computed ==> integrated(
                restamped(old(self).dispatcher, final(self).dispatcher.present),
                final(self).dispatcher,
                dt as int,
            ),
    {
        self.dispatcher.set_present(crate::easytime::get_present());
        if self.is_updating() {
            return ;
        }
        self.dispatcher.update(dt);
    }

    /// Replace the particle buffer. The new particles must be admissible
    /// and fit the size bound; the pipeline restarts from idle, as joining
    /// every outstanding task leaves it.
    pub fn load_particles(&mut self, particles: Vec<Particle>)
        requires
            disp_wf(old(self).dispatcher),
            all_valid(particles@),
            particles@.len() <= PARTICLE_MAX,
        ensures
            disp_wf(final(self).dispatcher),
            final(self).dispatcher.data@ == particles@,
            final(self).dispatcher.phase is Idle,
            final(self).dispatcher.g == old(self).dispatcher.g,
            final(self).dispatcher.coll_k == old(self).dispatcher.coll_k,
            final(self).dispatcher.coll_dampening == old(self).dispatcher.coll_dampening,
    {
        self.dispatcher.destruct_threads();
        self.dispatcher.data = particles;
        self.dispatcher.phase = Phase::Idle;
    }

    /// The checked buffer replacement: loads only admissible particles
    /// within the size bound, and says whether it did.
    pub fn try_load_particles(&mut self, particles: Vec<Particle>) -> (r: bool)
        requires
            disp_wf(old(self).dispatcher),
        ensures
            disp_wf(final(self).dispatcher),
            r == (all_valid(particles@) && particles@.len() <= PARTICLE_MAX),
            r ==> final(self).dispatcher.data@ == particles@
                && final(self).dispatcher.phase is Idle,
            !r ==> *final(self) == *old(self),
    {
        if particles.len() > PARTICLE_MAX {
            proof {
                assert(particles@.len() > PARTICLE_MAX);
            }
            return false;
        }
        let n = particles.len();
        let mut i: usize = 0;
        while i < n
            invariant
                *self == *old(self),
                disp_wf(old(self).dispatcher),
                n == particles@.len(),
                n <= PARTICLE_MAX,
                0 <= i <= n,
                forall|m: int| 0 <= m < i ==> particle_valid(#[trigger] particles@[m]),
            decreases n - i,
        {
            if !particles[i].is_valid() {
                return false;
            }
            i = i + 1;
        }
        self.load_particles(particles);
        true
    }
}

/// One of the four recentered coordinates: a position or velocity
/// component.
spec fn sel(p: Particle, which: int) -> int {
    if which == 0 {
        p.pos.x as int
    } else if which == 1 {
        p.pos.y as int
    } else if which == 2 {
        p.vel.x as int
    } else {
        p.vel.y as int
    }
}

/// Mass-weighted fixed-point sum of one coordinate.
spec fn wsum(s: Seq<Particle>, which: int) -> int
    decreases s.len(),
{
    if s.len() == 0 {
        0
    } else {
        wsum(s.drop_last(), which) + smul(s.last().mass as int, sel(s.last(), which))
    }
}

/// Mass-weighted exact sum of one coordinate, without the fixed-point
/// rescaling.
spec fn twsum(s: Seq<Particle>, which: int) -> int
    decreases s.len(),
{
    if s.len() == 0 {
        0
    } else {
        twsum(s.drop_last(), which) + s.last().mass * sel(s.last(), which)
    }
}

/// The four selector sums are the four named sums.
proof fn lemma_wsum_bridge(s: Seq<Particle>)
    ensures
        wsum(s, 0) == mp_sum_x(s),
        wsum(s, 1) == mp_sum_y(s),
        wsum(s, 2) == mom_sum_x(s),
        wsum(s, 3) == mom_sum_y(s),
    decreases s.len(),
{
    if s.len() > 0 {
        lemma_wsum_bridge(s.drop_last());
    }
}

/// Bounded masses and coordinates: predicate of one coordinate column.
spec fn col_bounded(s: Seq<Particle>, which: int) -> bool {
    forall|i: int|
        0 <= i < s.len() ==> 1 <= (#[trigger] s[i]).mass <= MASS_MAX && -COORD_MAX <= sel(
            s[i],
            which,
        ) <= COORD_MAX
}

/// The fixed-point sum brackets the exact sum: each term floors away less
/// than one fixed-point unit.
proof fn lemma_sum_bracket(s: Seq<Particle>, which: int)
    requires
        col_bounded(s, which),
    ensures
        0 <= twsum(s, which) - SCALE * wsum(s, which) <= (SCALE - 1) * s.len(),
    decreases s.len(),
{
    if s.len() > 0 {
        assert(col_bounded(s.drop_last(), which)) by {
            assert forall|i: int| 0 <= i < s.drop_last().len() implies 1 <= (#[trigger] s.drop_last()[i]).mass
                <= MASS_MAX && -COORD_MAX <= sel(s.drop_last()[i], which) <= COORD_MAX by {
                assert(s.drop_last()[i] == s[i]);
            };
        }
        lemma_sum_bracket(s.drop_last(), which);
        let p = s.last();
        assert(1 <= p.mass <= MASS_MAX && -COORD_MAX <= sel(p, which) <= COORD_MAX);
        crate::masstree::lemma_mp_term_bound(p.mass as int, sel(p, which));
        vstd::arithmetic::div_mod::lemma_fundamental_div_mod(
            p.mass as int * sel(p, which),
            SCALE as int,
        );
    }
}

/// Subtracting `c` from one coordinate of every particle subtracts
/// `c * masses_sum` from the exact weighted sum.
proof fn lemma_sum_shift(s: Seq<Particle>, s2: Seq<Particle>, which: int, c: int)
    requires
        s2.len() == s.len(),
        forall|i: int|
            0 <= i < s.len() ==> (#[trigger] s2[i]).mass == s[i].mass && sel(s2[i], which) == sel(
                s[i],
                which,
            ) - c,
    ensures
        twsum(s2, which) == twsum(s, which) - c * masses_sum(s),
    decreases s.len(),
{
    if s.len() > 0 {
        assert forall|i: int| 0 <= i < s.drop_last().len() implies (#[trigger] s2.drop_last()[i]).mass
            == s.drop_last()[i].mass && sel(s2.drop_last()[i], which) == sel(
            s.drop_last()[i],
            which,
        ) - c by {
            assert(s2.drop_last()[i] == s2[i]);
            assert(s.drop_last()[i] == s[i]);
        };
        lemma_sum_shift(s.drop_last(), s2.drop_last(), which, c);
        let p = s.last();
        let p2 = s2.last();
        assert(p2.mass == p.mass && sel(p2, which) == sel(p, which) - c);
        assert(p.mass as int * (sel(p, which) - c) == p.mass as int * sel(p, which) - p.mass as int
            * c) by (nonlinear_arith);
        assert(c * (masses_sum(s.drop_last()) + p.mass) == c * masses_sum(s.drop_last()) + p.mass
            as int * c) by (nonlinear_arith);
    }
}

/// The average of a weighted sum stays within the coordinate term bound
/// once the masses dominate the count.
proof fn lemma_avg_in_range(a: int, m: int, n: int, t: int)
    requires
        -(n * t) <= a <= n * t,
        n <= m,
        1 <= n,
        0 < t,
    ensures
        -t - 1 <= a / m <= t,
{
    vstd::arithmetic::div_mod::lemma_fundamental_div_mod(a, m);
    let q = a / m;
    let r = a % m;
    assert(0 <= r < m);
    if q > t {
        assert(m * q >= m * (t + 1)) by (nonlinear_arith)
            requires
                q >= t + 1,
                m > 0,
        ;
        assert(m * (t + 1) > n * t) by (nonlinear_arith)
            requires
                1 <= n <= m,
                0 < t,
        ;
    }
    if q < -t - 1 {
        assert(m * q <= m * (-t - 1)) by (nonlinear_arith)
            requires
                q <= -t - 1,
                m > 0,
        ;
        assert(m * (-t - 1) + m <= -(n * t)) by (nonlinear_arith)
            requires
                1 <= n <= m,
                0 < t,
        ;
    }
}

/// One recentered coordinate column sums to nearly nothing: after
/// subtracting the floored mass-weighted average, the remaining weighted
/// sum is bounded by the division remainder plus one fixed-point unit per
/// particle.
proof fn lemma_recentered_column_small(s: Seq<Particle>, s2: Seq<Particle>, which: int, c: int)
    requires
        all_valid(s),
        1 <= s.len() <= PARTICLE_MAX,
        s2.len() == s.len(),
        col_bounded(s, which),
        col_bounded(s2, which),
        forall|i: int|
            0 <= i < s.len() ==> (#[trigger] s2[i]).mass == s[i].mass && sel(s2[i], which) == sel(
                s[i],
                which,
            ) - c,
        c == (wsum(s, which) * SCALE) / masses_sum(s),
    ensures
        -((SCALE - 1) * s.len()) <= SCALE * wsum(s2, which) <= masses_sum(s) + (SCALE - 1)
            * s.len(),
{
    let n = s.len() as int;
    let m = masses_sum(s);
    lemma_sums_bounded(s);
    lemma_sum_bracket(s, which);
    lemma_sum_bracket(s2, which);
    lemma_sum_shift(s, s2, which, c);
    vstd::arithmetic::div_mod::lemma_fundamental_div_mod(wsum(s, which) * SCALE, m);
}

/// Momentum zeroing: once the mass-weighted average position and velocity
/// are subtracted from every particle — with no coordinate saturating at
/// the world box — the total momentum and the mass-weighted position sum
/// are within one fixed-point rounding budget of zero: scaled by `SCALE`,
/// each residue lies between `-(SCALE - 1) * n` and
/// `masses_sum + (SCALE - 1) * n`.
pub proof fn lemma_momentum_zeroing(s: Seq<Particle>, s2: Seq<Particle>)
    requires
        all_valid(s),
        1 <= s.len() <= PARTICLE_MAX,
        s2.len() == s.len(),
        ({
            let m = masses_sum(s);
            let pos_diff = Vec2d { x: sdiv(mp_sum_x(s), m) as i64, y: sdiv(mp_sum_y(s), m) as i64 };
            let mom_diff = Vec2d {
                x: sdiv(mom_sum_x(s), m) as i64,
                y: sdiv(mom_sum_y(s), m) as i64,
            };
            &&& forall|i: int|
                0 <= i < s.len() ==> s2[i] == recenter_particle(#[trigger] s[i], pos_diff, mom_diff)
            &&& forall|i: int|
                0 <= i < s.len() ==> -COORD_MAX <= (#[trigger] s[i]).pos.x - pos_diff.x <= COORD_MAX
                    && -COORD_MAX <= s[i].pos.y - pos_diff.y <= COORD_MAX && -COORD_MAX
                    <= s[i].vel.x - mom_diff.x <= COORD_MAX && -COORD_MAX <= s[i].vel.y
                    - mom_diff.y <= COORD_MAX
        }),
    ensures
        -((SCALE - 1) * s.len()) <= SCALE * mp_sum_x(s2) <= masses_sum(s) + (SCALE - 1) * s.len(),
        -((SCALE - 1) * s.len()) <= SCALE * mp_sum_y(s2) <= masses_sum(s) + (SCALE - 1) * s.len(),
        -((SCALE - 1) * s.len()) <= SCALE * mom_sum_x(s2) <= masses_sum(s) + (SCALE - 1) * s.len(),
        -((SCALE - 1) * s.len()) <= SCALE * mom_sum_y(s2) <= masses_sum(s) + (SCALE - 1) * s.len(),
{
    let m = masses_sum(s);
    let pos_diff = Vec2d { x: sdiv(mp_sum_x(s), m) as i64, y: sdiv(mp_sum_y(s), m) as i64 };
    let mom_diff = Vec2d { x: sdiv(mom_sum_x(s), m) as i64, y: sdiv(mom_sum_y(s), m) as i64 };
    lemma_sums_bounded(s);
    lemma_wsum_bridge(s);
    lemma_wsum_bridge(s2);
    assert forall|i: int| 0 <= i < s.len() implies {
        &&& particle_valid(#[trigger] s[i])
        &&& s2[i].mass == s[i].mass
        &&& s2[i].pos.x == s[i].pos.x - pos_diff.x
        &&& s2[i].pos.y == s[i].pos.y - pos_diff.y
        &&& s2[i].vel.x == s[i].vel.x - mom_diff.x
        &&& s2[i].vel.y == s[i].vel.y - mom_diff.y
    } by {
        assert(s2[i] == recenter_particle(s[i], pos_diff, mom_diff));
    };
    assert forall|i: int| 0 <= i < s2.len() implies 1 <= (#[trigger] s2[i]).mass <= MASS_MAX
        && -COORD_MAX <= s2[i].pos.x <= COORD_MAX && -COORD_MAX <= s2[i].pos.y <= COORD_MAX
        && -COORD_MAX <= s2[i].vel.x <= COORD_MAX && -COORD_MAX <= s2[i].vel.y <= COORD_MAX by {
        assert(particle_valid(s[i]));
        assert(s2[i] == recenter_particle(s[i], pos_diff, mom_diff));
    };
    assert(col_bounded(s2, 0));
    assert(col_bounded(s2, 1));
    assert(col_bounded(s2, 2));
    assert(col_bounded(s2, 3));
    lemma_recentered_column(s, s2, 0, pos_diff.x as int);
    lemma_recentered_column(s, s2, 1, pos_diff.y as int);
    lemma_recentered_column(s, s2, 2, mom_diff.x as int);
    lemma_recentered_column(s, s2, 3, mom_diff.y as int);
}

/// One column of the recentering: the saturating average never saturates
/// under the admissibility bounds, so the column sums to nearly nothing.
proof fn lemma_recentered_column(s: Seq<Particle>, s2: Seq<Particle>, which: int, c: int)
    requires
        all_valid(s),
        1 <= s.len() <= PARTICLE_MAX,
        s2.len() == s.len(),
        0 <= which < 4,
        c == sdiv(wsum(s, which), masses_sum(s)),
        col_bounded(s2, which),
        forall|i: int|
            0 <= i < s.len() ==> (#[trigger] s2[i]).mass == s[i].mass && sel(s2[i], which) == sel(
                s[i],
                which,
            ) - c,
    ensures
        -((SCALE - 1) * s.len()) <= SCALE * wsum(s2, which) <= masses_sum(s) + (SCALE - 1)
            * s.len(),
{
    let n = s.len() as int;
    let m = masses_sum(s);
    let w = wsum(s, which);
    lemma_sums_bounded(s);
    lemma_wsum_bridge(s);
    assert(col_bounded(s, which)) by {
        assert forall|i: int| 0 <= i < s.len() implies 1 <= (#[trigger] s[i]).mass <= MASS_MAX
            && -COORD_MAX <= sel(s[i], which) <= COORD_MAX by {
            assert(particle_valid(s[i]));
        };
    };
    assert(-(n * (MP_TERM_MAX as int)) <= w <= n * (MP_TERM_MAX as int));
    assert(-(n * (MP_TERM_MAX as int * SCALE)) <= w * SCALE <= n * (MP_TERM_MAX as int * SCALE))
        by (nonlinear_arith)
        requires
            -(n * (MP_TERM_MAX as int)) <= w <= n * (MP_TERM_MAX as int),
            SCALE == 1024,
    ;
    lemma_avg_in_range(w * SCALE, m, n, MP_TERM_MAX as int * SCALE);
    assert(c == (w * SCALE) / m);
    lemma_recentered_column_small(s, s2, which, c);
}

/// Integration determinism: two integration polls over equal buffers with
/// the same time delta produce equal buffers — the step is a pure function
/// of its inputs.
pub proof fn lemma_integration_deterministic(
    a: PhysicsThreadDispatcher,
    a2: PhysicsThreadDispatcher,
    b: PhysicsThreadDispatcher,
    b2: PhysicsThreadDispatcher,
    dt: int,
)
    requires
        integrated(a, a2, dt),
        integrated(b, b2, dt),
        a.data@ == b.data@,
    ensures
        a2.data@ == b2.data@,
{
    assert forall|i: int| 0 <= i < a2.data@.len() implies a2.data@[i] == b2.data@[i] by {
        assert(a2.data@[i] == integrate_particle(a.data@[i], dt));
        assert(b2.data@[i] == integrate_particle(b.data@[i], dt));
    };
    assert(a2.data@ =~= b2.data@);
}

/// The seam a driver loop works against: construct an engine, load
/// particles, poll `update`, and read diagnostics back.
pub trait PhysicsHandler: Sized {
    /// The engine's invariant.
    spec fn inv(&self) -> bool;

    /// The engine's particle buffer, abstractly.
    spec fn buffer(&self) -> Seq<Particle>;

    fn new(grav_constant: Scalar, collision_spring_constant: Scalar, collision_dampening: Scalar) -> (r: Self)
        ensures
            r.inv(),
            r.buffer() == Seq::<Particle>::empty(),
    ;

    fn zero_momentum_and_cm(&mut self)
        requires
            old(self).inv(),
            old(self).buffer().len() >= 1,
        ensures
            final(self).inv(),
            final(self).buffer().len() == old(self).buffer().len(),
    ;

    fn angular_momentum(&self) -> (r: Scalar)
        ensures
            r == ang_sum(self.buffer()),
    ;

    fn num_particles(&self) -> (r: usize)
        ensures
            r == self.buffer().len(),
    ;

    fn load_particles(&mut self, particles: Vec<Particle>)
        requires
            old(self).inv(),
            all_valid(particles@),
            particles@.len() <= PARTICLE_MAX,
        ensures
            final(self).inv(),
            final(self).buffer() == particles@,
    ;

    fn update(&mut self, dt: Scalar)
        requires
            old(self).inv(),
        ensures
            final(self).inv(),
    ;
}

impl PhysicsHandler for PhysicsHandlerThreaded {
    open spec fn inv(&self) -> bool {
        disp_wf(self.dispatcher)
    }

    open spec fn buffer(&self) -> Seq<Particle> {
        self.dispatcher.data@
    }

    fn new(grav_constant: Scalar, collision_spring_constant: Scalar, collision_dampening: Scalar) -> (r: Self) {
        PhysicsHandlerThreaded::new(
            grav_constant,
            collision_spring_constant,
            collision_dampening,
        )
    }

    fn zero_momentum_and_cm(&mut self) {
        PhysicsHandlerThreaded::zero_momentum_and_cm(self)
    }

    fn angular_momentum(&self) -> (r: Scalar) {
        PhysicsHandlerThreaded::angular_momentum(self)
    }

    fn num_particles(&self) -> (r: usize) {
        PhysicsHandlerThreaded::num_particles(self)
    }

    fn load_particles(&mut self, particles: Vec<Particle>) {
        PhysicsHandlerThreaded::load_particles(self, particles)
    }

    fn update(&mut self, dt: Scalar) {
        PhysicsHandlerThreaded::update(self, dt)
    }
}

/// The same dispatcher with another published clock value; `update` stamps
/// the clock before acting, and the stamp carries no physics.
pub open spec fn restamped(d: PhysicsThreadDispatcher, t: std::time::Instant) -> PhysicsThreadDispatcher {
    PhysicsThreadDispatcher { present: t, ..d }
}

/// What one rebuild poll does: the buffer and constants stand, the phase is
/// `Built`, the grid holds every particle under the derived density, and
/// the tree aggregates the buffer exactly when its positions are distinct.
pub open spec fn rebuilt(pre: PhysicsThreadDispatcher, post: PhysicsThreadDispatcher) -> bool {
    &&& post.data == pre.data
    &&& post.present == pre.present
    &&& post.g == pre.g
    &&& post.coll_k == pre.coll_k
    &&& post.coll_dampening == pre.coll_dampening
    &&& post.num_threads == pre.num_threads
    &&& post.phase is Built
    &&& post.grid@ == grid_fill(pre.data@, rebuild_mult(pre.data@))
    &&& post.grid.spec_multiplier() as int == rebuild_mult(pre.data@)
    &&& tree_wf(post.quad)
    &&& pre.data@.len() > 0 ==> post.quad.root.span == rebuild_span(pre.data@)
    &&& positions(post.quad.root) == pos_set(pre.data@)
    &&& subtree_mass(post.quad.root) == dedup_mass(pre.data@)
    &&& subtree_mpx(post.quad.root) == dedup_mpx(pre.data@)
    &&& subtree_mpy(post.quad.root) == dedup_mpy(pre.data@)
    &&& leaf_count(post.quad.root) == dedup_count(pre.data@)
}

} // verus!
