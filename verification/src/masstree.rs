//! The Barnes-Hut mass tree: a quadtree over a rectangular span whose
//! branches carry the mass and mass-weighted position sum of the leaves below
//! them, maintained incrementally at insertion time. Long-range gravity on a
//! particle is evaluated by walking the tree and treating branches that pass
//! the opening-angle criterion as single point masses.
//!
//! Spans are half-open boxes on the fixed-point grid: a position is inside
//! when `minus_corner <= pos < plus_corner` on both axes. A box of width one
//! on both axes holds a single grid point, so two particles at distinct
//! positions always separate after finitely many splits.

use vstd::prelude::*;

verus! {

use crate::fx;
use crate::fx::{ssub, smul, sdiv, sqrt_floor, SCALE};
use crate::mathvec::{Scalar, Vec2d, vadd, vsub, vscale, vdiv, vmag_squared};
use crate::particles::{Particle, particle_valid, COORD_MAX, MASS_MAX, MP_TERM_MAX, PARTICLE_MAX};

/// Gravity softening floor: a source closer than this distance (half a unit,
/// in fixed-point) contributes no force, which also suppresses
/// self-interaction.
pub const GRAV_FLOOR: i64 = 512;

/// An axis-aligned box, half-open on both axes; two zero corners denote the
/// unset span of a default tree, which admits no position.
#[derive(Copy, Clone, Debug, PartialEq, Eq, Structural)]
pub struct Span {
    pub plus_corner: Vec2d,
    pub minus_corner: Vec2d,
}

/// The span admits at least one grid position.
pub open spec fn span_nonempty(s: Span) -> bool {
    s.minus_corner.x < s.plus_corner.x && s.minus_corner.y < s.plus_corner.y
}

/// A span is either nonempty or the unset all-zero span.
pub open spec fn span_wf(s: Span) -> bool {
    span_nonempty(s) || (s.plus_corner.x == 0 && s.plus_corner.y == 0 && s.minus_corner.x == 0
        && s.minus_corner.y == 0)
}

/// Half-open membership on both axes.
pub open spec fn pos_in_span(pos: Vec2d, s: Span) -> bool {
    &&& s.minus_corner.x <= pos.x < s.plus_corner.x
    &&& s.minus_corner.y <= pos.y < s.plus_corner.y
}

/// Midpoint coordinate of one axis, rounded toward negative infinity.
pub open spec fn mid_coord(lo: int, hi: int) -> int {
    (lo + hi) / 2
}

/// The quadrant of `s` selected by `xi` (0 below the x midpoint, 1 at or
/// above it) and `yi` (likewise for y).
pub open spec fn spec_subspan(s: Span, xi: int, yi: int) -> Span {
    let mx = mid_coord(s.minus_corner.x as int, s.plus_corner.x as int);
    let my = mid_coord(s.minus_corner.y as int, s.plus_corner.y as int);
    Span {
        minus_corner: Vec2d {
            x: if xi == 0 { s.minus_corner.x } else { mx as i64 },
            y: if yi == 0 { s.minus_corner.y } else { my as i64 },
        },
        plus_corner: Vec2d {
            x: if xi == 0 { mx as i64 } else { s.plus_corner.x },
            y: if yi == 0 { my as i64 } else { s.plus_corner.y },
        },
    }
}

/// Quadrant indices of a position: 0 below the axis midpoint, 1 otherwise.
pub open spec fn spec_subspan_idx(s: Span, pos: Vec2d) -> (int, int) {
    (
        if (pos.x as int) < mid_coord(s.minus_corner.x as int, s.plus_corner.x as int) {
            0int
        } else {
            1int
        },
        if (pos.y as int) < mid_coord(s.minus_corner.y as int, s.plus_corner.y as int) {
            0int
        } else {
            1int
        },
    )
}

/// Sum of the two axis widths, the measure that every descent shrinks.
pub open spec fn span_measure(s: Span) -> int {
    (s.plus_corner.x - s.minus_corner.x) + (s.plus_corner.y - s.minus_corner.y)
}

/// Midpoint of one axis, computed exactly in a wide intermediate.
fn mid_exec(lo: i64, hi: i64) -> (r: i64)
    ensures
        r == mid_coord(lo as int, hi as int),
        lo <= hi ==> lo <= r <= hi,
{
    let s = lo as i128 + hi as i128;
    let q = fx::div_floor(s, 2);
    proof {
        vstd::arithmetic::div_mod::lemma_fundamental_div_mod(s as int, 2);
    }
    q as i64
}

impl Span {
    /// A span from its two corners; the corners must form a nonempty box or
    /// both be zero (the unset span).
    pub fn new(plus_corner: Vec2d, minus_corner: Vec2d) -> (r: Span)
        requires
            span_wf(Span { plus_corner, minus_corner }),
        ensures
            r == (Span { plus_corner, minus_corner }),
    {
        Span { plus_corner, minus_corner }
    }

    /// The midpoint of the span, each axis rounded toward negative infinity.
    pub fn midpoint(self) -> (r: Vec2d)
        ensures
            r.x == mid_coord(self.minus_corner.x as int, self.plus_corner.x as int),
            r.y == mid_coord(self.minus_corner.y as int, self.plus_corner.y as int),
    {
        Vec2d {
            x: mid_exec(self.minus_corner.x, self.plus_corner.x),
            y: mid_exec(self.minus_corner.y, self.plus_corner.y),
        }
    }

    /// The four quadrants, ordered so that index `xi * 2 + yi` is the
    /// quadrant `spec_subspan(self, xi, yi)`.
    pub fn subspans(self) -> (r: [Span; 4])
        ensures
            r[0] == spec_subspan(self, 0, 0),
            r[1] == spec_subspan(self, 0, 1),
            r[2] == spec_subspan(self, 1, 0),
            r[3] == spec_subspan(self, 1, 1),
    {
        let mid = self.midpoint();
        let x_min = self.minus_corner.x;
        let x_mid = mid.x;
        let x_max = self.plus_corner.x;
        let y_min = self.minus_corner.y;
        let y_mid = mid.y;
        let y_max = self.plus_corner.y;
        let nn = Span {
            plus_corner: Vec2d { x: x_mid, y: y_mid },
            minus_corner: Vec2d { x: x_min, y: y_min },
        };
        let np = Span {
            plus_corner: Vec2d { x: x_mid, y: y_max },
            minus_corner: Vec2d { x: x_min, y: y_mid },
        };
        let pn = Span {
            plus_corner: Vec2d { x: x_max, y: y_mid },
            minus_corner: Vec2d { x: x_mid, y: y_min },
        };
        let pp = Span {
            plus_corner: Vec2d { x: x_max, y: y_max },
            minus_corner: Vec2d { x: x_mid, y: y_mid },
        };
        [nn, np, pn, pp]
    }

    /// The quadrant indices that `part`'s position selects.
    pub fn subspan_idx_for(self, part: Particle) -> (r: (usize, usize))
        ensures
            (r.0 as int, r.1 as int) == spec_subspan_idx(self, part.pos),
    {
        let mid = self.midpoint();
        let x_idx: usize = if part.pos.x < mid.x {
            0
        } else {
            1
        };
        let y_idx: usize = if part.pos.y < mid.y {
            0
        } else {
            1
        };
        (x_idx, y_idx)
    }

    /// The area of the span, as a saturating fixed-point product of its
    /// widths.
    pub fn volume(self) -> (r: Scalar)
        ensures
            r == smul(
                ssub(self.plus_corner.x as int, self.minus_corner.x as int),
                ssub(self.plus_corner.y as int, self.minus_corner.y as int),
            ),
    {
        let shifted = self.plus_corner.minus(self.minus_corner);
        fx::fx_mul(shifted.x, shifted.y)
    }
}

/// The four children of a branch, in quadrant order.
pub struct Quad {
    pub nn: TreeNode,
    pub np: TreeNode,
    pub pn: TreeNode,
    pub pp: TreeNode,
}

/// A tree node: a span and its payload.
pub struct TreeNode {
    pub span: Span,
    pub data: NodeType,
}

/// Payload of a node: nothing, one particle, or a branch whose `mass` and
/// `masspos` aggregate every leaf below it.
pub enum NodeType {
    Empty,
    Leaf(Particle),
    Branch { masspos: Vec2d, mass: Scalar, subnodes: Box<Quad> },
}

/// Sum of the masses of every leaf in the subtree.
pub open spec fn subtree_mass(n: TreeNode) -> int
    decreases n,
{
    match n.data {
        NodeType::Empty => 0,
        NodeType::Leaf(p) => p.mass as int,
        NodeType::Branch { subnodes, .. } => subtree_mass(subnodes.nn) + subtree_mass(subnodes.np)
            + subtree_mass(subnodes.pn) + subtree_mass(subnodes.pp),
    }
}

/// Sum over the subtree's leaves of the fixed-point product `mass * pos.x`.
pub open spec fn subtree_mpx(n: TreeNode) -> int
    decreases n,
{
    match n.data {
        NodeType::Empty => 0,
        NodeType::Leaf(p) => smul(p.mass as int, p.pos.x as int),
        NodeType::Branch { subnodes, .. } => subtree_mpx(subnodes.nn) + subtree_mpx(subnodes.np)
            + subtree_mpx(subnodes.pn) + subtree_mpx(subnodes.pp),
    }
}

/// Sum over the subtree's leaves of the fixed-point product `mass * pos.y`.
pub open spec fn subtree_mpy(n: TreeNode) -> int
    decreases n,
{
    match n.data {
        NodeType::Empty => 0,
        NodeType::Leaf(p) => smul(p.mass as int, p.pos.y as int),
        NodeType::Branch { subnodes, .. } => subtree_mpy(subnodes.nn) + subtree_mpy(subnodes.np)
            + subtree_mpy(subnodes.pn) + subtree_mpy(subnodes.pp),
    }
}

/// Number of leaves in the subtree.
pub open spec fn leaf_count(n: TreeNode) -> int
    decreases n,
{
    match n.data {
        NodeType::Empty => 0,
        NodeType::Leaf(_) => 1,
        NodeType::Branch { subnodes, .. } => leaf_count(subnodes.nn) + leaf_count(subnodes.np)
            + leaf_count(subnodes.pn) + leaf_count(subnodes.pp),
    }
}

/// The set of positions held at the subtree's leaves, as integer pairs.
pub open spec fn positions(n: TreeNode) -> Set<(int, int)>
    decreases n,
{
    match n.data {
        NodeType::Empty => Set::empty(),
        NodeType::Leaf(p) => Set::empty().insert((p.pos.x as int, p.pos.y as int)),
        NodeType::Branch { subnodes, .. } => positions(subnodes.nn).union(
            positions(subnodes.np),
        ).union(positions(subnodes.pn)).union(positions(subnodes.pp)),
    }
}

/// Well-formedness of a subtree: leaves hold admissible particles inside
/// their span; a branch's children carry exactly its four quadrants, its
/// stored `mass` and `masspos` equal the sums over its leaves, and its span
/// holds at least two grid positions (so a split always separates).
pub open spec fn wf(n: TreeNode) -> bool
    decreases n,
{
    match n.data {
        NodeType::Empty => true,
        NodeType::Leaf(p) => particle_valid(p) && pos_in_span(p.pos, n.span),
        NodeType::Branch { masspos, mass, subnodes } => {
            &&& span_nonempty(n.span)
            &&& (n.span.plus_corner.x - n.span.minus_corner.x >= 2 || n.span.plus_corner.y
                - n.span.minus_corner.y >= 2)
            &&& subnodes.nn.span == spec_subspan(n.span, 0, 0)
            &&& subnodes.np.span == spec_subspan(n.span, 0, 1)
            &&& subnodes.pn.span == spec_subspan(n.span, 1, 0)
            &&& subnodes.pp.span == spec_subspan(n.span, 1, 1)
            &&& wf(subnodes.nn)
            &&& wf(subnodes.np)
            &&& wf(subnodes.pn)
            &&& wf(subnodes.pp)
            &&& mass as int == subtree_mass(n)
            &&& masspos.x as int == subtree_mpx(n)
            &&& masspos.y as int == subtree_mpy(n)
            &&& leaf_count(n) >= 1
        },
    }
}

/// Membership of an integer pair in a span's half-open region.
pub open spec fn region_contains(s: Span, q: (int, int)) -> bool {
    s.minus_corner.x <= q.0 < s.plus_corner.x && s.minus_corner.y <= q.1 < s.plus_corner.y
}

/// The floored midpoint of a nonempty range lies inside it.
pub proof fn lemma_mid_bounds(a: int, b: int)
    requires
        a < b,
    ensures
        a <= mid_coord(a, b) < b,
{
    vstd::arithmetic::div_mod::lemma_fundamental_div_mod(a + b, 2);
}

/// One fixed-point product `mass * coordinate` of an admissible particle
/// stays within `MP_TERM_MAX`.
pub proof fn lemma_mp_term_bound(m: int, c: int)
    requires
        1 <= m <= MASS_MAX,
        -COORD_MAX <= c <= COORD_MAX,
    ensures
        -(MP_TERM_MAX as int) <= smul(m, c) <= MP_TERM_MAX,
        smul(m, c) == (m * c) / (SCALE as int),
{
    assert(-(MP_TERM_MAX as int) <= (m * c) / (SCALE as int) <= MP_TERM_MAX) by (nonlinear_arith)
        requires
            1 <= m <= MASS_MAX,
            -COORD_MAX <= c <= COORD_MAX,
            MASS_MAX == 0x400_0000,
            COORD_MAX == 0x4000_0000,
            MP_TERM_MAX == 0x4000_0000_0001,
            SCALE == 1024,
    ;
}

/// In a well-formed subtree every aggregate is bounded by the leaf count,
/// which keeps the incremental updates inside `i64`.
pub proof fn lemma_subtree_bounds(n: TreeNode)
    requires
        wf(n),
    ensures
        0 <= leaf_count(n),
        leaf_count(n) <= subtree_mass(n) <= leaf_count(n) * MASS_MAX,
        -(leaf_count(n) * MP_TERM_MAX) <= subtree_mpx(n) <= leaf_count(n) * MP_TERM_MAX,
        -(leaf_count(n) * MP_TERM_MAX) <= subtree_mpy(n) <= leaf_count(n) * MP_TERM_MAX,
    decreases n,
{
    match n.data {
        NodeType::Empty => {},
        NodeType::Leaf(p) => {
            assert(-(MP_TERM_MAX as int) <= (p.mass as int * p.pos.x as int) / (SCALE as int)
                <= MP_TERM_MAX) by (nonlinear_arith)
                requires
                    1 <= p.mass <= MASS_MAX,
                    -COORD_MAX <= p.pos.x <= COORD_MAX,
                    MASS_MAX == 0x400_0000,
                    COORD_MAX == 0x4000_0000,
                    MP_TERM_MAX == 0x4000_0000_0001,
                    SCALE == 1024,
            ;
            assert(-(MP_TERM_MAX as int) <= (p.mass as int * p.pos.y as int) / (SCALE as int)
                <= MP_TERM_MAX) by (nonlinear_arith)
                requires
                    1 <= p.mass <= MASS_MAX,
                    -COORD_MAX <= p.pos.y <= COORD_MAX,
                    MASS_MAX == 0x400_0000,
                    COORD_MAX == 0x4000_0000,
                    MP_TERM_MAX == 0x4000_0000_0001,
                    SCALE == 1024,
            ;
        },
        NodeType::Branch { subnodes, .. } => {
            lemma_subtree_bounds(subnodes.nn);
            lemma_subtree_bounds(subnodes.np);
            lemma_subtree_bounds(subnodes.pn);
            lemma_subtree_bounds(subnodes.pp);
        },
    }
}

/// Every position held in a well-formed subtree lies in its span's region.
pub proof fn lemma_positions_in_region(n: TreeNode)
    requires
        wf(n),
    ensures
        forall|q: (int, int)| positions(n).contains(q) ==> region_contains(n.span, q),
    decreases n,
{
    match n.data {
        NodeType::Empty => {},
        NodeType::Leaf(_) => {},
        NodeType::Branch { subnodes, .. } => {
            lemma_positions_in_region(subnodes.nn);
            lemma_positions_in_region(subnodes.np);
            lemma_positions_in_region(subnodes.pn);
            lemma_positions_in_region(subnodes.pp);
            lemma_mid_bounds(n.span.minus_corner.x as int, n.span.plus_corner.x as int);
            lemma_mid_bounds(n.span.minus_corner.y as int, n.span.plus_corner.y as int);
            assert forall|q: (int, int)| positions(n).contains(q) implies region_contains(
                n.span,
                q,
            ) by {
                if positions(subnodes.nn).contains(q) {
                    assert(region_contains(subnodes.nn.span, q));
                } else if positions(subnodes.np).contains(q) {
                    assert(region_contains(subnodes.np.span, q));
                } else if positions(subnodes.pn).contains(q) {
                    assert(region_contains(subnodes.pn.span, q));
                } else {
                    assert(positions(subnodes.pp).contains(q));
                    assert(region_contains(subnodes.pp.span, q));
                }
            };
        },
    }
}

/// A position inside a span lies in exactly the quadrant its indices select,
/// and descending into that quadrant shrinks the span measure whenever the
/// span holds more than one grid point.
pub proof fn lemma_subspan_selected(s: Span, pos: Vec2d)
    requires
        span_nonempty(s),
        pos_in_span(pos, s),
    ensures
        ({
            let (xi, yi) = spec_subspan_idx(s, pos);
            &&& pos_in_span(pos, spec_subspan(s, xi, yi))
            &&& forall|xj: int, yj: int|
                0 <= xj <= 1 && 0 <= yj <= 1 && (xj, yj) != (xi, yi) ==> !pos_in_span(
                    pos,
                    spec_subspan(s, xj, yj),
                )
            &&& (s.plus_corner.x - s.minus_corner.x >= 2 || s.plus_corner.y - s.minus_corner.y
                >= 2) ==> span_measure(spec_subspan(s, xi, yi)) < span_measure(s)
        }),
{
    lemma_mid_bounds(s.minus_corner.x as int, s.plus_corner.x as int);
    lemma_mid_bounds(s.minus_corner.y as int, s.plus_corner.y as int);
    vstd::arithmetic::div_mod::lemma_fundamental_div_mod(
        s.minus_corner.x as int + s.plus_corner.x as int,
        2,
    );
    vstd::arithmetic::div_mod::lemma_fundamental_div_mod(
        s.minus_corner.y as int + s.plus_corner.y as int,
        2,
    );
}

/// Ordering tag used by the insertion measure: splitting a leaf turns it
/// into a branch over the same span, which this tag orders below the leaf.
pub open spec fn node_tag(n: TreeNode) -> int {
    match n.data {
        NodeType::Leaf(_) => 1,
        _ => 0,
    }
}

/// Whether the subtree holds a leaf at exactly this position.
fn contains_at(node: &TreeNode, pos: Vec2d) -> (r: bool)
    requires
        wf(*node),
    ensures
        r == positions(*node).contains((pos.x as int, pos.y as int)),
    decreases *node,
{
    match &node.data {
        NodeType::Empty => false,
        NodeType::Leaf(p) => p.pos.x == pos.x && p.pos.y == pos.y,
        NodeType::Branch { subnodes, .. } => {
            let s = node.span;
            let inside = s.minus_corner.x <= pos.x && pos.x < s.plus_corner.x
                && s.minus_corner.y <= pos.y && pos.y < s.plus_corner.y;
            if !inside {
                proof {
                    lemma_positions_in_region(*node);
                }
                false
            } else {
                proof {
                    lemma_subspan_selected(s, pos);
                    lemma_positions_in_region(subnodes.nn);
                    lemma_positions_in_region(subnodes.np);
                    lemma_positions_in_region(subnodes.pn);
                    lemma_positions_in_region(subnodes.pp);
                    let qq = (pos.x as int, pos.y as int);
                    let (xi, yi) = spec_subspan_idx(s, pos);
                    if (xi, yi) != (0int, 0int) {
                        assert(!pos_in_span(pos, spec_subspan(s, 0, 0)));
                        assert(!positions(subnodes.nn).contains(qq));
                    }
                    if (xi, yi) != (0int, 1int) {
                        assert(!pos_in_span(pos, spec_subspan(s, 0, 1)));
                        assert(!positions(subnodes.np).contains(qq));
                    }
                    if (xi, yi) != (1int, 0int) {
                        assert(!pos_in_span(pos, spec_subspan(s, 1, 0)));
                        assert(!positions(subnodes.pn).contains(qq));
                    }
                    if (xi, yi) != (1int, 1int) {
                        assert(!pos_in_span(pos, spec_subspan(s, 1, 1)));
                        assert(!positions(subnodes.pp).contains(qq));
                    }
                }
                let mid = s.midpoint();
                if pos.x < mid.x {
                    if pos.y < mid.y {
                        contains_at(&subnodes.nn, pos)
                    } else {
                        contains_at(&subnodes.np, pos)
                    }
                } else {
                    if pos.y < mid.y {
                        contains_at(&subnodes.pn, pos)
                    } else {
                        contains_at(&subnodes.pp, pos)
                    }
                }
            }
        },
    }
}

/// Insert a particle below `node`, keeping every branch aggregate exact.
///
/// The position must be new to the subtree and inside the node's span; an
/// empty node becomes the particle's leaf, a leaf splits into a branch, and
/// a branch credits the particle to its aggregates and descends into the
/// quadrant holding the position.
fn add_at(node: &mut TreeNode, p: Particle)
    requires
        wf(*old(node)),
        particle_valid(p),
        pos_in_span(p.pos, old(node).span),
        !positions(*old(node)).contains((p.pos.x as int, p.pos.y as int)),
        leaf_count(*old(node)) < PARTICLE_MAX,
    ensures
        wf(*final(node)),
        final(node).span == old(node).span,
        subtree_mass(*final(node)) == subtree_mass(*old(node)) + p.mass,
        subtree_mpx(*final(node)) == subtree_mpx(*old(node)) + smul(p.mass as int, p.pos.x as int),
        subtree_mpy(*final(node)) == subtree_mpy(*old(node)) + smul(p.mass as int, p.pos.y as int),
        leaf_count(*final(node)) == leaf_count(*old(node)) + 1,
        positions(*final(node)) == positions(*old(node)).insert((p.pos.x as int, p.pos.y as int)),
    decreases span_measure(node.span), node_tag(*node),
{
    let is_empty = matches!(&node.data, NodeType::Empty);
    if is_empty {
        node.data = NodeType::Leaf(p);
        proof {
            assert(positions(*node) =~= positions(*old(node)).insert(
                (p.pos.x as int, p.pos.y as int),
            ));
        }
        return ;
    }
    let leaf_part: Option<Particle> = match &node.data {
        NodeType::Leaf(q) => Some(*q),
        _ => None,
    };
    if let Some(q) = leaf_part {
        // The leaf splits: four empty quadrants, the old particle re-seated
        // in its own quadrant, the branch aggregates seeded from it.
        let s = node.span;
        let spans = s.subspans();
        let mut quad = Quad {
            nn: TreeNode::new(spans[0]),
            np: TreeNode::new(spans[1]),
            pn: TreeNode::new(spans[2]),
            pp: TreeNode::new(spans[3]),
        };
        let (qxi, qyi) = s.subspan_idx_for(q);
        proof {
            lemma_subspan_selected(s, q.pos);
        }
        if qxi == 0 {
            if qyi == 0 {
                quad.nn.data = NodeType::Leaf(q);
            } else {
                quad.np.data = NodeType::Leaf(q);
            }
        } else {
            if qyi == 0 {
                quad.pn.data = NodeType::Leaf(q);
            } else {
                quad.pp.data = NodeType::Leaf(q);
            }
        }
        let seeded = NodeType::Branch {
            mass: q.mass,
            masspos: Vec2d { x: fx::fx_mul(q.mass, q.pos.x), y: fx::fx_mul(q.mass, q.pos.y) },
            subnodes: Box::new(quad),
        };
        node.data = seeded;
        proof {
            reveal_with_fuel(subtree_mass, 3);
            reveal_with_fuel(subtree_mpx, 3);
            reveal_with_fuel(subtree_mpy, 3);
            reveal_with_fuel(leaf_count, 3);
            reveal_with_fuel(positions, 3);
            reveal_with_fuel(wf, 3);
            assert(q.pos.x != p.pos.x || q.pos.y != p.pos.y);
            assert(s.plus_corner.x - s.minus_corner.x >= 2 || s.plus_corner.y - s.minus_corner.y
                >= 2) by {
                if s.plus_corner.x - s.minus_corner.x < 2 && s.plus_corner.y - s.minus_corner.y
                    < 2 {
                    assert(q.pos.x == p.pos.x && q.pos.y == p.pos.y);
                }
            };
            assert(subtree_mass(*node) == q.mass);
            assert(subtree_mpx(*node) == smul(q.mass as int, q.pos.x as int));
            assert(subtree_mpy(*node) == smul(q.mass as int, q.pos.y as int));
            assert(leaf_count(*node) == 1);
            assert(wf(*node));
            assert(positions(*node) =~= positions(*old(node)));
        }
        add_at(node, p);
        return ;
    }
    // The node is a branch: credit the particle to the aggregates and
    // descend into its quadrant.
    let s = node.span;
    proof {
        lemma_subtree_bounds(*node);
        lemma_subspan_selected(s, p.pos);
        lemma_mp_term_bound(p.mass as int, p.pos.x as int);
        lemma_mp_term_bound(p.mass as int, p.pos.y as int);
        match &node.data {
            NodeType::Branch { subnodes, .. } => {
                lemma_subtree_bounds(subnodes.nn);
                lemma_subtree_bounds(subnodes.np);
                lemma_subtree_bounds(subnodes.pn);
                lemma_subtree_bounds(subnodes.pp);
            },
            _ => {},
        }
    }
    let mid = s.midpoint();
    match &mut node.data {
        NodeType::Branch { masspos, mass, subnodes } => {
            *mass = fx::fx_add(*mass, p.mass);
            masspos.x = fx::fx_add(masspos.x, fx::fx_mul(p.mass, p.pos.x));
            masspos.y = fx::fx_add(masspos.y, fx::fx_mul(p.mass, p.pos.y));
            if p.pos.x < mid.x {
                if p.pos.y < mid.y {
                    add_at(&mut subnodes.nn, p);
                } else {
                    add_at(&mut subnodes.np, p);
                }
            } else {
                if p.pos.y < mid.y {
                    add_at(&mut subnodes.pn, p);
                } else {
                    add_at(&mut subnodes.pp, p);
                }
            }
        },
        NodeType::Empty => {
            proof {
                assert(false);
            }
        },
        NodeType::Leaf(_) => {
            proof {
                assert(false);
            }
        },
    }
    proof {
        reveal_with_fuel(subtree_mass, 2);
        reveal_with_fuel(subtree_mpx, 2);
        reveal_with_fuel(subtree_mpy, 2);
        reveal_with_fuel(leaf_count, 2);
        reveal_with_fuel(positions, 2);
        reveal_with_fuel(wf, 2);
        assert(subtree_mass(*node) == subtree_mass(*old(node)) + p.mass);
        assert(subtree_mpx(*node) == subtree_mpx(*old(node)) + smul(
            p.mass as int,
            p.pos.x as int,
        ));
        assert(subtree_mpy(*node) == subtree_mpy(*old(node)) + smul(
            p.mass as int,
            p.pos.y as int,
        ));
        assert(leaf_count(*node) == leaf_count(*old(node)) + 1);
        assert(wf(*node));
        assert(positions(*node) =~= positions(*old(node)).insert(
            (p.pos.x as int, p.pos.y as int),
        ));
    }
}

impl TreeNode {
    /// A fresh empty node over `span`.
    pub fn new(span: Span) -> (r: TreeNode)
        ensures
            r.span == span,
            r.data is Empty,
    {
        TreeNode { span, data: NodeType::Empty }
    }

    /// The node's mass-weighted position sum: zero for an empty node, the
    /// single product for a leaf, the stored aggregate for a branch.
    pub fn masspos(&self) -> (r: Vec2d)
        requires
            wf(*self),
        ensures
            r.x == subtree_mpx(*self),
            r.y == subtree_mpy(*self),
    {
        match &self.data {
            NodeType::Empty => Vec2d::zero(),
            NodeType::Leaf(p) => Vec2d {
                x: fx::fx_mul(p.mass, p.pos.x),
                y: fx::fx_mul(p.mass, p.pos.y),
            },
            NodeType::Branch { masspos, .. } => *masspos,
        }
    }

    /// The node's aggregated mass.
    pub fn mass(&self) -> (r: Scalar)
        requires
            wf(*self),
        ensures
            r == subtree_mass(*self),
    {
        match &self.data {
            NodeType::Empty => 0,
            NodeType::Leaf(p) => p.mass,
            NodeType::Branch { mass, .. } => *mass,
        }
    }
}

/// One gravitational contribution: the force of a point source of mass
/// `src_mass` at `src_pos` on `p`, added to `acc`; sources closer than the
/// softening floor contribute nothing.
pub open spec fn grav_point(acc: Vec2d, p: Particle, src_pos: Vec2d, src_mass: int, g: int) -> Vec2d {
    let diff = vsub(src_pos, p.pos);
    let d2 = vmag_squared(diff);
    let d = sqrt_floor(d2 * SCALE as int);
    if d > GRAV_FLOOR {
        let f = sdiv(smul(smul(g, p.mass as int), src_mass), d2);
        vadd(acc, vdiv(vscale(f, diff), d))
    } else {
        acc
    }
}

/// The opening-angle criterion of a branch with squared width `w2` against
/// squared distance `d2`: open (descend) when `w^2 >= 4/5 * d^2`.
pub open spec fn opens(w2: int, d2: int) -> bool {
    5 * w2 >= 4 * d2
}

/// The gravitational force the subtree exerts on `p`, added to `acc`:
/// leaves act as point sources; a branch near enough to open is expanded
/// into its quadrants in order, and otherwise acts as one point source at
/// its center of mass.
pub open spec fn force_on(acc: Vec2d, n: TreeNode, p: Particle, g: int) -> Vec2d
    decreases n,
{
    match n.data {
        NodeType::Empty => acc,
        NodeType::Leaf(q) => grav_point(acc, p, q.pos, q.mass as int, g),
        NodeType::Branch { masspos, mass, subnodes } => {
            let pt = vdiv(masspos, mass as int);
            let diff = vsub(pt, p.pos);
            let d2 = vmag_squared(diff);
            let w2 = smul(
                ssub(n.span.plus_corner.x as int, n.span.minus_corner.x as int),
                ssub(n.span.plus_corner.x as int, n.span.minus_corner.x as int),
            );
            if opens(w2, d2) {
                force_on(
                    force_on(force_on(force_on(acc, subnodes.nn, p, g), subnodes.np, p, g), subnodes.pn, p, g),
                    subnodes.pp,
                    p,
                    g,
                )
            } else {
                grav_point(acc, p, pt, mass as int, g)
            }
        },
    }
}

/// Every branch of the subtree passes the opening criterion for `p`, so a
/// traversal for `p` degenerates to a full descent.
pub open spec fn all_open(n: TreeNode, p: Particle) -> bool
    decreases n,
{
    match n.data {
        NodeType::Empty => true,
        NodeType::Leaf(_) => true,
        NodeType::Branch { masspos, mass, subnodes } => {
            let pt = vdiv(masspos, mass as int);
            let diff = vsub(pt, p.pos);
            let d2 = vmag_squared(diff);
            let w2 = smul(
                ssub(n.span.plus_corner.x as int, n.span.minus_corner.x as int),
                ssub(n.span.plus_corner.x as int, n.span.minus_corner.x as int),
            );
            &&& opens(w2, d2)
            &&& all_open(subnodes.nn, p)
            &&& all_open(subnodes.np, p)
            &&& all_open(subnodes.pn, p)
            &&& all_open(subnodes.pp, p)
        },
    }
}

/// Direct summation: the fold of the point-source force over exactly the
/// subtree's leaves, in traversal order.
pub open spec fn direct_sum(acc: Vec2d, n: TreeNode, p: Particle, g: int) -> Vec2d
    decreases n,
{
    match n.data {
        NodeType::Empty => acc,
        NodeType::Leaf(q) => grav_point(acc, p, q.pos, q.mass as int, g),
        NodeType::Branch { subnodes, .. } => direct_sum(
            direct_sum(direct_sum(direct_sum(acc, subnodes.nn, p, g), subnodes.np, p, g), subnodes.pn, p, g),
            subnodes.pp,
            p,
            g,
        ),
    }
}

/// Opening-angle degeneration: when every branch opens for `p`, the
/// tree-walk force equals the direct pairwise sum over the leaves.
pub proof fn lemma_full_descent_is_direct_sum(acc: Vec2d, n: TreeNode, p: Particle, g: int)
    requires
        all_open(n, p),
    ensures
        force_on(acc, n, p, g) == direct_sum(acc, n, p, g),
    decreases n,
{
    match n.data {
        NodeType::Empty => {},
        NodeType::Leaf(_) => {},
        NodeType::Branch { subnodes, .. } => {
            let a1 = force_on(acc, subnodes.nn, p, g);
            let a2 = force_on(a1, subnodes.np, p, g);
            let a3 = force_on(a2, subnodes.pn, p, g);
            lemma_full_descent_is_direct_sum(acc, subnodes.nn, p, g);
            lemma_full_descent_is_direct_sum(direct_sum(acc, subnodes.nn, p, g), subnodes.np, p, g);
            lemma_full_descent_is_direct_sum(direct_sum(direct_sum(acc, subnodes.nn, p, g), subnodes.np, p, g), subnodes.pn, p, g);
            lemma_full_descent_is_direct_sum(
                direct_sum(direct_sum(direct_sum(acc, subnodes.nn, p, g), subnodes.np, p, g), subnodes.pn, p, g),
                subnodes.pp,
                p,
                g,
            );
        },
    }
}

/// Softening floor: a source at the particle's own position contributes no
/// gravitational force, so an identical-position duplicate exerts zero
/// self-force.
pub proof fn lemma_self_gravity_zero(acc: Vec2d, p: Particle, src_mass: int, g: int)
    ensures
        grav_point(acc, p, p.pos, src_mass, g) == acc,
{
    let diff = vsub(p.pos, p.pos);
    assert(diff == (Vec2d { x: 0i64, y: 0i64 }));
    assert(vmag_squared(diff) == 0) by {
        assert(smul(0, 0) == 0) by {
            vstd::arithmetic::div_mod::lemma_fundamental_div_mod(0, SCALE as int);
        }
    }
    fx::lemma_sqrt_floor_is(0, 0);
}

/// One executable gravitational contribution, exactly `grav_point`.
fn grav_point_exec(acc: Vec2d, p: Particle, src_pos: Vec2d, src_mass: Scalar, g: Scalar) -> (r:
    Vec2d)
    ensures
        r == grav_point(acc, p, src_pos, src_mass as int, g as int),
{
    let diff = src_pos.minus(p.pos);
    let d2 = diff.mag_squared();
    proof {
        crate::mathvec::lemma_vmag_squared_nonneg(diff);
    }
    let d = fx::fx_sqrt(d2);
    if d > GRAV_FLOOR {
        proof {
            if d2 == 0 {
                fx::lemma_sqrt_floor_is(0, 0);
            }
        }
        let f = fx::fx_div(fx::fx_mul(fx::fx_mul(g, p.mass), src_mass), d2);
        acc.plus(diff.scale(f).div_by(d))
    } else {
        acc
    }
}

/// The tree walk behind `MassTree::calculate_forces`.
fn forces_from(node: &TreeNode, arg: Particle, g: Scalar, acc: Vec2d) -> (r: Vec2d)
    requires
        wf(*node),
    ensures
        r == force_on(acc, *node, arg, g as int),
    decreases *node,
{
    match &node.data {
        NodeType::Empty => acc,
        NodeType::Leaf(q) => grav_point_exec(acc, arg, q.pos, q.mass, g),
        NodeType::Branch { masspos, mass, subnodes } => {
            proof {
                lemma_subtree_bounds(*node);
            }
            let pt = masspos.div_by(*mass);
            let diff = pt.minus(arg.pos);
            let d2 = diff.mag_squared();
            let w = fx::fx_sub(node.span.plus_corner.x, node.span.minus_corner.x);
            let w2 = fx::fx_mul(w, w);
            if 5 * (w2 as i128) >= 4 * (d2 as i128) {
                let a1 = forces_from(&subnodes.nn, arg, g, acc);
                let a2 = forces_from(&subnodes.np, arg, g, a1);
                let a3 = forces_from(&subnodes.pn, arg, g, a2);
                forces_from(&subnodes.pp, arg, g, a3)
            } else {
                grav_point_exec(acc, arg, pt, *mass, g)
            }
        },
    }
}

/// The Barnes-Hut tree: a root node over the configured span.
pub struct MassTree {
    pub root: TreeNode,
}

/// The tree's invariant: its root subtree is well formed.
pub open spec fn tree_wf(t: MassTree) -> bool {
    wf(t.root)
}

/// The configuration a fresh builder starts from: the unset span and no
/// capacity hint.
pub open spec fn builder_init() -> MassTreeBuilder {
    MassTreeBuilder {
        node_capacity: 0usize,
        span: Span {
            plus_corner: Vec2d { x: 0i64, y: 0i64 },
            minus_corner: Vec2d { x: 0i64, y: 0i64 },
        },
    }
}

/// Configuration for a fresh tree: the root span and an advisory node
/// capacity.
#[derive(Copy, Clone, Debug, PartialEq, Eq, Structural)]
pub struct MassTreeBuilder {
    pub node_capacity: usize,
    pub span: Span,
}

impl MassTreeBuilder {
    /// A builder with the unset span and no capacity hint.
    pub fn new() -> (r: Self)
        ensures
            r == builder_init(),
    {
        MassTreeBuilder {
            node_capacity: 0,
            span: Span { plus_corner: Vec2d::zero(), minus_corner: Vec2d::zero() },
        }
    }

    /// The same configuration with `span` as the root span.
    pub fn with_span(self, span: Span) -> (r: Self)
        ensures
            r == (MassTreeBuilder { span, ..self }),
    {
        MassTreeBuilder { span, ..self }
    }

    /// The same configuration sized for `cap` particles: an advisory node
    /// capacity of `cap * log4(cap) + 1`, an empirical upper bound on node
    /// growth.
    pub fn with_particle_capacity(self, cap: usize) -> (r: Self)
        ensures
            r == (MassTreeBuilder {
                node_capacity: fx::clamp_usize(
                    cap * fx::log4_floor(cap as int) + 1,
                ) as usize,
                ..self
            }),
    {
        let mut l: usize = 0;
        let mut v: usize = cap;
        while v >= 4
            invariant
                fx::log4_floor(cap as int) == l + fx::log4_floor(v as int),
                3 * l <= cap - v,
                v <= cap,
            decreases v,
        {
            proof {
                vstd::arithmetic::div_mod::lemma_fundamental_div_mod(v as int, 4);
            }
            v = v / 4;
            l = l + 1;
        }
        proof {
            assert(fx::log4_floor(v as int) == 0);
        }
        proof {
            assert(cap as int * l as int + 1 < 0x1_0000_0000_0000_0000_0000_0000_0000_0000)
                by (nonlinear_arith)
                requires
                    0 <= cap < 0x1_0000_0000_0000_0000,
                    0 <= l < 0x1_0000_0000_0000_0000,
            ;
        }
        let wide: u128 = cap as u128 * l as u128 + 1;
        let node_cap: usize = if wide > usize::MAX as u128 {
            usize::MAX
        } else {
            wide as usize
        };
        self.with_node_capacity(node_cap)
    }

    /// The same configuration with an advisory node capacity.
    pub fn with_node_capacity(self, cap: usize) -> (r: Self)
        ensures
            r == (MassTreeBuilder { node_capacity: cap, ..self }),
    {
        MassTreeBuilder { node_capacity: cap, ..self }
    }

    /// A fresh empty tree over the configured span.
    pub fn build(self) -> (r: MassTree)
        ensures
            r.root.span == self.span,
            r.root.data is Empty,
            tree_wf(r),
            leaf_count(r.root) == 0,
            subtree_mass(r.root) == 0,
            positions(r.root) == Set::<(int, int)>::empty(),
    {
        MassTree { root: TreeNode::new(self.span) }
    }
}

impl Default for MassTreeBuilder {
    /// The same configuration `MassTreeBuilder::new` gives.
    fn default() -> (r: Self)
        ensures
            r == builder_init(),
    {
        MassTreeBuilder::new()
    }
}

impl Default for MassTree {
    /// An empty tree over the unset span, which admits no particle.
    fn default() -> (r: Self)
        ensures
            r.root.data is Empty,
            tree_wf(r),
            leaf_count(r.root) == 0,
    {
        MassTreeBuilder::new().build()
    }
}

impl MassTree {
    /// A fresh builder.
    pub fn builder() -> (r: MassTreeBuilder)
        ensures
            r == builder_init(),
    {
        MassTreeBuilder::new()
    }

    /// Insert a particle. A particle at a position the tree already holds is
    /// skipped (the duplicate guard); otherwise the particle becomes a leaf
    /// and every branch above it has its aggregates credited exactly.
    pub fn add_particle(&mut self, particle: Particle)
        requires
            tree_wf(*old(self)),
            particle_valid(particle),
            pos_in_span(particle.pos, old(self).root.span),
            leaf_count(old(self).root) < PARTICLE_MAX,
        ensures
            tree_wf(*final(self)),
            final(self).root.span == old(self).root.span,
            positions(old(self).root).contains((particle.pos.x as int, particle.pos.y as int))
                ==> *final(self) == *old(self),
            !positions(old(self).root).contains((particle.pos.x as int, particle.pos.y as int))
                ==> {
                &&& subtree_mass(final(self).root) == subtree_mass(old(self).root) + particle.mass
                &&& subtree_mpx(final(self).root) == subtree_mpx(old(self).root) + smul(
                    particle.mass as int,
                    particle.pos.x as int,
                )
                &&& subtree_mpy(final(self).root) == subtree_mpy(old(self).root) + smul(
                    particle.mass as int,
                    particle.pos.y as int,
                )
                &&& leaf_count(final(self).root) == leaf_count(old(self).root) + 1
                &&& positions(final(self).root) == positions(old(self).root).insert(
                    (particle.pos.x as int, particle.pos.y as int),
                )
            },
    {
        if contains_at(&self.root, particle.pos) {
            return ;
        }
        add_at(&mut self.root, particle);
    }

    /// The gravitational force of the whole tree on `arg`, by the walk that
    /// `force_on` states.
    pub fn calculate_forces(&self, arg: Particle, g: Scalar) -> (r: Vec2d)
        requires
            tree_wf(*self),
        ensures
            r == force_on(Vec2d { x: 0i64, y: 0i64 }, self.root, arg, g as int),
    {
        forces_from(&self.root, arg, g, Vec2d::zero())
    }
}

} // verus!
