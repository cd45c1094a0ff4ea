//! The uniform spatial hash grid for short-range collision springs.
//!
//! A particle is bucketed under the integer cell obtained by scaling its
//! position by the grid's density multiplier and flooring; a spring-force
//! query walks the particle's own cell and its up-to-8 neighbors. Near the
//! `i32` extremes the neighbor offsets are clamped so no cell coordinate
//! overflows.

use vstd::prelude::*;

verus! {

use vstd::hash_map::HashMapWithView;
use crate::fx;
use crate::fx::{sadd, ssub, smul, sqrt_floor, SCALE};
use crate::mathvec::{Scalar, Vec2d, vadd, vsub, vscale, vdiv, vdot, vmag_squared};
use crate::particles::Particle;

/// Squared-distance guard: a neighbor whose squared distance rounds below
/// one fixed-point unit is treated as coincident and skipped.
pub const SPRING_GUARD: i64 = 1;

/// A grid cell: the floored scaled coordinates of a position.
#[derive(Copy, Clone, Debug, PartialEq, Eq, Structural)]
pub struct MapKey {
    pub x: i32,
    pub y: i32,
}

/// Smallest neighbor offset on one axis: 0 instead of -1 at the lower
/// `i32` extreme.
pub open spec fn axis_lo(c: i32) -> int {
    if c == i32::MIN {
        0
    } else {
        -1
    }
}

/// Largest neighbor offset on one axis: 0 instead of 1 at the upper `i32`
/// extreme.
pub open spec fn axis_hi(c: i32) -> int {
    if c == i32::MAX {
        0
    } else {
        1
    }
}

/// The neighborhood of a cell, in row-major order: every cell whose
/// coordinates differ by at most one on each axis, the offsets clamped at
/// the `i32` extremes.
pub open spec fn neighbor_seq(k: MapKey) -> Seq<MapKey> {
    let ylen = axis_hi(k.y) - axis_lo(k.y) + 1;
    Seq::new(
        ((axis_hi(k.x) - axis_lo(k.x) + 1) * ylen) as nat,
        |t: int|
            MapKey {
                x: (k.x + axis_lo(k.x) + t / ylen) as i32,
                y: (k.y + axis_lo(k.y) + t % ylen) as i32,
            },
    )
}

/// Grid neighbor completeness: every cell within one step of `k` on both
/// axes appears in `k`'s neighborhood, the cells at the `i32` extremes
/// included.
pub proof fn lemma_neighbor_complete(k: MapKey, other: MapKey)
    requires
        -1 <= other.x - k.x <= 1,
        -1 <= other.y - k.y <= 1,
    ensures
        neighbor_seq(k).contains(other),
{
    let xlo = axis_lo(k.x);
    let ylo = axis_lo(k.y);
    let ylen = axis_hi(k.y) - ylo + 1;
    let i = other.x - k.x - xlo;
    let j = other.y - k.y - ylo;
    let t = i * ylen + j;
    assert(0 <= i <= axis_hi(k.x) - xlo);
    assert(0 <= j < ylen);
    vstd::arithmetic::div_mod::lemma_fundamental_div_mod_converse(t, ylen, i, j);
    assert(t < (axis_hi(k.x) - xlo + 1) * ylen) by (nonlinear_arith)
        requires
            0 <= i <= axis_hi(k.x) - xlo,
            0 <= j < ylen,
            t == i * ylen + j,
    ;
    assert(0 <= t) by (nonlinear_arith)
        requires
            0 <= i,
            0 <= j,
            0 < ylen,
            t == i * ylen + j,
    ;
    assert(neighbor_seq(k)[t] == other);
    assert(neighbor_seq(k).contains(other));
}

impl MapKey {
    /// The neighborhood of this cell, as `neighbor_seq` lists it.
    pub fn neighbors(self) -> (r: Vec<MapKey>)
        ensures
            r@ == neighbor_seq(self),
    {
        let x_lo: i64 = if self.x == i32::MIN {
            0
        } else {
            -1
        };
        let x_hi: i64 = if self.x == i32::MAX {
            0
        } else {
            1
        };
        let y_lo: i64 = if self.y == i32::MIN {
            0
        } else {
            -1
        };
        let y_hi: i64 = if self.y == i32::MAX {
            0
        } else {
            1
        };
        let ghost ylen = axis_hi(self.y) - axis_lo(self.y) + 1;
        let mut out: Vec<MapKey> = Vec::new();
        let mut i: i64 = 0;
        while i <= x_hi - x_lo
            invariant
                x_lo == axis_lo(self.x),
                x_hi == axis_hi(self.x),
                y_lo == axis_lo(self.y),
                y_hi == axis_hi(self.y),
                ylen == y_hi - y_lo + 1,
                0 <= i <= x_hi - x_lo + 1,
                out@.len() == i * ylen,
                out@ =~= neighbor_seq(self).take(i * ylen),
            decreases x_hi - x_lo + 1 - i,
        {
            let mut j: i64 = 0;
            while j <= y_hi - y_lo
                invariant
                    x_lo == axis_lo(self.x),
                    x_hi == axis_hi(self.x),
                    y_lo == axis_lo(self.y),
                    y_hi == axis_hi(self.y),
                    ylen == y_hi - y_lo + 1,
                    0 <= i <= x_hi - x_lo,
                    0 <= j <= y_hi - y_lo + 1,
                    out@.len() == i * ylen + j,
                    out@ =~= neighbor_seq(self).take(i * ylen + j),
                decreases y_hi - y_lo + 1 - j,
            {
                let nk = MapKey {
                    x: (self.x as i64 + x_lo + i) as i32,
                    y: (self.y as i64 + y_lo + j) as i32,
                };
                proof {
                    vstd::arithmetic::div_mod::lemma_fundamental_div_mod_converse(
                        i * ylen + j,
                        ylen,
                        i as int,
                        j as int,
                    );
                    assert(0 <= i * ylen + j < (x_hi - x_lo + 1) * ylen) by (nonlinear_arith)
                        requires
                            0 <= i <= x_hi - x_lo,
                            0 <= j < ylen,
                    ;
                    assert(neighbor_seq(self)[i * ylen + j] == nk);
                }
                out.push(nk);
                proof {
                    assert(out@ =~= neighbor_seq(self).take(i * ylen + j + 1));
                }
                j = j + 1;
            }
            proof {
                assert((i + 1) * ylen == i * ylen + ylen) by (nonlinear_arith);
            }
            i = i + 1;
        }
        proof {
            assert(i * ylen == (x_hi - x_lo + 1) * ylen);
            assert(out@ =~= neighbor_seq(self));
        }
        out
    }
}

/// Injective encoding of a cell into one `u64` hash key.
pub open spec fn key_code(k: MapKey) -> int {
    (k.x + 0x8000_0000) * 0x1_0000_0000 + (k.y + 0x8000_0000)
}

fn encode_key(k: MapKey) -> (c: u64)
    ensures
        c as int == key_code(k),
{
    (k.x as i64 + 0x8000_0000) as u64 * 0x1_0000_0000 + (k.y as i64 + 0x8000_0000) as u64
}

/// Saturation to the `i32` range, applied to out-of-range cell indices.
pub open spec fn clamp32(v: int) -> int {
    if v > i32::MAX {
        i32::MAX as int
    } else if v < i32::MIN {
        i32::MIN as int
    } else {
        v
    }
}

fn clamp_to_i32(v: i64) -> (r: i32)
    ensures
        r as int == clamp32(v as int),
{
    if v > i32::MAX as i64 {
        i32::MAX
    } else if v < i32::MIN as i64 {
        i32::MIN
    } else {
        v as i32
    }
}

/// The cell of a position under density multiplier `mult`: each coordinate
/// is scaled, floored to a whole unit, and saturated to the `i32` range.
pub open spec fn pos_key(pos: Vec2d, mult: int) -> MapKey {
    MapKey {
        x: clamp32(smul(pos.x as int, mult) / (SCALE as int)) as i32,
        y: clamp32(smul(pos.y as int, mult) / (SCALE as int)) as i32,
    }
}

/// One spring contribution of neighbor `q` on `p`, added to `acc`: zero
/// below contact (no overlap) and for coincident neighbors; otherwise a
/// penalty spring along the contact normal with a velocity-damping term.
pub open spec fn spring_kernel(acc: Vec2d, p: Particle, q: Particle, k: int, damp: int) -> Vec2d {
    let diff = vsub(q.pos, p.pos);
    let d2 = vmag_squared(diff);
    if d2 < SPRING_GUARD {
        acc
    } else {
        let d = sqrt_floor(d2 * SCALE as int);
        let dn = vdiv(diff, d);
        let overlap = ssub(sadd(p.radius as int, q.radius as int), d);
        if overlap > 0 {
            let relvel = vsub(q.vel, p.vel);
            let f = sadd(smul(ssub(0, k), overlap), smul(damp, vdot(dn, relvel)));
            vadd(acc, vscale(f, dn))
        } else {
            acc
        }
    }
}

/// Fold of the spring kernel over one bucket, front to back.
pub open spec fn bucket_fold(
    acc: Vec2d,
    p: Particle,
    bucket: Seq<Particle>,
    k: int,
    damp: int,
) -> Vec2d
    decreases bucket.len(),
{
    if bucket.len() == 0 {
        acc
    } else {
        bucket_fold(
            spring_kernel(acc, p, bucket[0], k, damp),
            p,
            bucket.subrange(1, bucket.len() as int),
            k,
            damp,
        )
    }
}

/// Fold of the spring kernel over the buckets of the listed cells, in
/// order; cells with no bucket contribute nothing.
pub open spec fn cells_fold(
    acc: Vec2d,
    p: Particle,
    keys: Seq<MapKey>,
    view: Map<u64, Seq<Particle>>,
    k: int,
    damp: int,
) -> Vec2d
    decreases keys.len(),
{
    if keys.len() == 0 {
        acc
    } else {
        let code = key_code(keys[0]) as u64;
        let acc2 = if view.contains_key(code) {
            bucket_fold(acc, p, view[code], k, damp)
        } else {
            acc
        };
        cells_fold(acc2, p, keys.subrange(1, keys.len() as int), view, k, damp)
    }
}

/// Coincidence guard: a neighbor at the particle's own position contributes
/// no spring force, so an identical-position duplicate exerts zero
/// self-force.
pub proof fn lemma_self_spring_zero(acc: Vec2d, p: Particle, q: Particle, k: int, damp: int)
    requires
        q.pos == p.pos,
    ensures
        spring_kernel(acc, p, q, k, damp) == acc,
{
    let diff = vsub(q.pos, p.pos);
    assert(diff == (Vec2d { x: 0i64, y: 0i64 }));
    assert(vmag_squared(diff) == 0) by {
        assert(smul(0, 0) == 0) by {
            vstd::arithmetic::div_mod::lemma_fundamental_div_mod(0, SCALE as int);
        }
    }
}

/// One executable spring contribution, exactly `spring_kernel`.
fn spring_kernel_exec(acc: Vec2d, p: Particle, q: Particle, k: Scalar, damp: Scalar) -> (r: Vec2d)
    ensures
        r == spring_kernel(acc, p, q, k as int, damp as int),
{
    let diff = q.pos.minus(p.pos);
    let d2 = diff.mag_squared();
    proof {
        crate::mathvec::lemma_vmag_squared_nonneg(diff);
    }
    if d2 < SPRING_GUARD {
        acc
    } else {
        let d = fx::fx_sqrt(d2);
        proof {
            assert(d >= 1) by {
                if d == 0 {
                    assert(d2 * SCALE < (0 + 1) * (0 + 1));
                }
            };
        }
        let dn = diff.div_by(d);
        let overlap = fx::fx_sub(fx::fx_add(p.radius, q.radius), d);
        if overlap > 0 {
            let relvel = q.vel.minus(p.vel);
            let f = fx::fx_add(
                fx::fx_mul(fx::fx_sub(0, k), overlap),
                fx::fx_mul(damp, dn.dot(relvel)),
            );
            acc.plus(dn.scale(f))
        } else {
            acc
        }
    }
}

/// The grid: buckets keyed by encoded cell, the density multiplier that
/// maps positions to cells, and the expected particle count the buckets
/// were sized for.
pub struct GridHandler {
    gridmap: HashMapWithView<u64, Vec<Particle>>,
    multiplier: Scalar,
    expected_particles: usize,
}

impl GridHandler {
    /// The buckets, abstractly: encoded cells to their particles in
    /// insertion order.
    pub closed spec fn view(&self) -> Map<u64, Seq<Particle>> {
        self.gridmap@.map_values(|v: Vec<Particle>| v@)
    }

    /// The density multiplier the grid was built with.
    pub closed spec fn spec_multiplier(&self) -> Scalar {
        self.multiplier
    }

    /// An empty grid with the given density multiplier, sized for the
    /// expected number of particles.
    pub fn new(multiplier: Scalar, expected_particles: usize) -> (r: GridHandler)
        ensures
            r@ == Map::<u64, Seq<Particle>>::empty(),
            r.spec_multiplier() == multiplier,
    {
        let r = GridHandler {
            multiplier,
            expected_particles,
            gridmap: HashMapWithView::with_capacity(expected_particles),
        };
        proof {
            assert(r@ =~= Map::<u64, Seq<Particle>>::empty());
        }
        r
    }

    fn pos_to_map_key(&self, pos: Vec2d) -> (r: MapKey)
        ensures
            r == pos_key(pos, self.spec_multiplier() as int),
    {
        let sx = fx::fx_mul(pos.x, self.multiplier);
        let sy = fx::fx_mul(pos.y, self.multiplier);
        let fx_ = fx::div_floor(sx as i128, SCALE as i128);
        let fy_ = fx::div_floor(sy as i128, SCALE as i128);
        MapKey { x: clamp_to_i32(fx_ as i64), y: clamp_to_i32(fy_ as i64) }
    }

    /// Insert a particle into the bucket of its cell.
    pub fn add_particle(&mut self, arg: Particle)
        ensures
            ({
                let code = key_code(pos_key(arg.pos, old(self).spec_multiplier() as int)) as u64;
                let bucket = if old(self)@.contains_key(code) {
                    old(self)@[code]
                } else {
                    Seq::<Particle>::empty()
                };
                final(self)@ == old(self)@.insert(code, bucket.push(arg))
            }),
            final(self).spec_multiplier() == old(self).spec_multiplier(),
    {
        let key = self.pos_to_map_key(arg.pos);
        let code = encode_key(key);
        let bucket = self.gridmap.remove(&code);
        match bucket {
            Some(mut v) => {
                v.push(arg);
                self.gridmap.insert(code, v);
            },
            None => {
                let mut v: Vec<Particle> = Vec::new();
                v.push(arg);
                self.gridmap.insert(code, v);
            },
        }
        proof {
            let c = key_code(pos_key(arg.pos, old(self).spec_multiplier() as int)) as u64;
            let bucket0 = if old(self)@.contains_key(c) {
                old(self)@[c]
            } else {
                Seq::<Particle>::empty()
            };
            assert(final(self)@ =~= old(self)@.insert(c, bucket0.push(arg)));
        }
    }

    /// Empty every bucket, keeping the grid's configuration.
    pub fn clear_points(&mut self)
        ensures
            final(self)@ == Map::<u64, Seq<Particle>>::empty(),
            final(self).spec_multiplier() == old(self).spec_multiplier(),
    {
        self.gridmap.clear();
        proof {
            assert(final(self)@ =~= Map::<u64, Seq<Particle>>::empty());
        }
    }

    /// The spring force on `arg`: the fold of the spring kernel over the
    /// buckets of `arg`'s cell and its up-to-8 neighbors.
    pub fn calculate_spring_force(&self, arg: Particle, k: Scalar, damping: Scalar) -> (r: Vec2d)
        ensures
            r == cells_fold(
                Vec2d { x: 0i64, y: 0i64 },
                arg,
                neighbor_seq(pos_key(arg.pos, self.spec_multiplier() as int)),
                self@,
                k as int,
                damping as int,
            ),
    {
        let key = self.pos_to_map_key(arg.pos);
        let neigh = key.neighbors();
        let ghost keys = neighbor_seq(pos_key(arg.pos, self.spec_multiplier() as int));
        let ghost target = cells_fold(Vec2d { x: 0i64, y: 0i64 }, arg, keys, self@, k as int, damping as int);
        let mut retval = Vec2d::zero();
        proof {
            assert(keys.subrange(0, keys.len() as int) =~= keys);
        }
        let mut i: usize = 0;
        while i < neigh.len()
            invariant
                neigh@ == keys,
                0 <= i <= neigh.len(),
                cells_fold(retval, arg, keys.subrange(i as int, keys.len() as int), self@, k as int, damping as int)
                    == target,
            decreases neigh.len() - i,
        {
            let ghost rest = keys.subrange(i as int, keys.len() as int);
            proof {
                assert(rest[0] == keys[i as int]);
                assert(rest.subrange(1, rest.len() as int) =~= keys.subrange(
                    i as int + 1,
                    keys.len() as int,
                ));
            }
            let code = encode_key(neigh[i]);
            let bucket = self.gridmap.get(&code);
            match bucket {
                Some(v) => {
                    proof {
                        assert(self@.contains_key(code));
                        assert(self@[code] == v@);
                    }
                    let ghost btarget = bucket_fold(retval, arg, v@, k as int, damping as int);
                    proof {
                        assert(v@.subrange(0, v@.len() as int) =~= v@);
                    }
                    let mut j: usize = 0;
                    while j < v.len()
                        invariant
                            0 <= j <= v.len(),
                            bucket_fold(
                                retval,
                                arg,
                                v@.subrange(j as int, v@.len() as int),
                                k as int,
                                damping as int,
                            ) == btarget,
                        decreases v.len() - j,
                    {
                        proof {
                            let brest = v@.subrange(j as int, v@.len() as int);
                            assert(brest[0] == v@[j as int]);
                            assert(brest.subrange(1, brest.len() as int) =~= v@.subrange(
                                j as int + 1,
                                v@.len() as int,
                            ));
                        }
                        retval = spring_kernel_exec(retval, arg, v[j], k, damping);
                        j = j + 1;
                    }
                    proof {
                        assert(v@.subrange(v@.len() as int, v@.len() as int) =~= Seq::<
                            Particle,
                        >::empty());
                        assert(retval == btarget);
                    }
                },
                None => {
                    proof {
                        assert(!self@.contains_key(code));
                    }
                },
            }
            i = i + 1;
        }
        proof {
            assert(keys.subrange(keys.len() as int, keys.len() as int) =~= Seq::<MapKey>::empty());
        }
        retval
    }
}

} // verus!
