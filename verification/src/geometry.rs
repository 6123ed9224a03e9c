//! The geometry field and its shape-query interface.
//!
//! Blocking geometry is a list of half-plane surfaces. A surface holds an
//! outward unit normal `n` (at the fixed-point scale) and an offset `c`:
//! space is free where `n . p >= (c + radius) * UNIT` for a disc collider of
//! the given radius, and blocked beyond. The cast sweeps the collider from an
//! origin along a motion vector and reports the nearest blocking surface,
//! honouring an exclusion filter.

use vstd::prelude::*;

verus! {

use crate::math::Vec2;
use crate::math::dot2;
use crate::math::iabs;
use crate::math::is_unit;
use crate::math::UNIT;
use crate::math::POS_LIMIT;
use crate::math::RADIUS_LIMIT;
use vstd::arithmetic::div_mod::lemma_fundamental_div_mod;
use vstd::arithmetic::div_mod::lemma_mod_division_less_than_divisor;

/// Largest position coordinate the cast accepts; wider than `POS_LIMIT` so
/// that the resolver may probe from intermediate positions.
pub const CAST_POS_BOUND: i64 = 1_500_000_000;

/// Largest motion component the cast accepts.
pub const CAST_MOTION_BOUND: i64 = 100_000_000;

/// Largest cast range the cast accepts.
pub const CAST_RANGE_BOUND: i64 = 200_000_000;

/// One blocking half-plane.
#[derive(Clone, Copy, Debug, PartialEq, Eq, Structural)]
pub struct Surface {
    /// Outward unit normal, pointing into free space.
    pub normal: Vec2,
    /// Offset of the surface from the world origin along the normal,
    /// in milli-units.
    pub offset: i64,
    /// Identity of the object the surface belongs to.
    pub id: u64,
}

impl Surface {
    pub open spec fn wf(self) -> bool {
        &&& is_unit(self.normal)
        &&& iabs(self.offset as int) <= POS_LIMIT as int
    }
}

/// The immutable geometry snapshot that one tick's queries run against.
#[derive(Clone, Debug)]
pub struct GeometryField {
    pub surfaces: Vec<Surface>,
}

impl GeometryField {
    pub open spec fn wf(self) -> bool {
        forall|i: int|
            0 <= i < self.surfaces@.len() ==> (#[trigger] self.surfaces@[i]).wf()
    }

    pub fn new(surfaces: Vec<Surface>) -> (f: GeometryField)
        ensures
            f.surfaces@ == surfaces@,
    {
        GeometryField { surfaces }
    }
}

/// One query result: distance along the cast direction to the nearest
/// surface, its outward normal, and the identity of the struck object.
#[derive(Clone, Copy, Debug, PartialEq, Eq, Structural)]
pub struct ShapeCastHit {
    pub distance: i64,
    pub normal: Vec2,
    pub object_id: u64,
}

/// Room between the collider disc at `center` and the surface, scaled by
/// `UNIT`: zero at contact, negative inside.
pub open spec fn surface_gap(s: Surface, center: Vec2, radius: int) -> int {
    dot2(s.normal, center) - (s.offset + radius) * UNIT
}

/// Distance until contact for a positive closing speed `den`, rounded down;
/// zero when already at or past contact.
pub open spec fn spec_hit_distance(g: int, l: int, den: int) -> int
    recommends
        den > 0,
{
    if g <= 0 {
        0
    } else {
        (g * l) / den
    }
}

/// What one surface reports for a sweep of length `l` along `motion`:
/// `None` when the motion does not approach the surface.
pub open spec fn surface_cast(s: Surface, origin: Vec2, motion: Vec2, l: int, radius: int) -> Option<
    int,
> {
    let den = -dot2(s.normal, motion);
    if den <= 0 {
        Option::None
    } else {
        Option::Some(spec_hit_distance(surface_gap(s, origin, radius), l, den))
    }
}

/// The nearest blocking surface over a list, excluding `exclude` and hits
/// past `maxd`; on equal distances the earliest surface wins.
pub open spec fn spec_cast(
    surfaces: Seq<Surface>,
    origin: Vec2,
    motion: Vec2,
    l: int,
    maxd: int,
    radius: int,
    exclude: u64,
) -> Option<(int, Surface)>
    decreases surfaces.len(),
{
    if surfaces.len() == 0 {
        Option::None
    } else {
        let head = surfaces[0];
        let rest = spec_cast(surfaces.drop_first(), origin, motion, l, maxd, radius, exclude);
        let head_hit = if head.id == exclude {
            Option::<int>::None
        } else {
            match surface_cast(head, origin, motion, l, radius) {
                Option::Some(d) => if d <= maxd {
                    Option::Some(d)
                } else {
                    Option::None
                },
                Option::None => Option::None,
            }
        };
        match head_hit {
            Option::None => rest,
            Option::Some(d) => match rest {
                Option::None => Option::Some((d, head)),
                Option::Some((dr, sr)) => if d <= dr {
                    Option::Some((d, head))
                } else {
                    Option::Some((dr, sr))
                },
            },
        }
    }
}

/// The exec result names the same surface as the spec-level cast.
pub open spec fn hit_matches(r: Option<ShapeCastHit>, c: Option<(int, Surface)>) -> bool {
    match (r, c) {
        (Option::None, Option::None) => true,
        (Option::Some(h), Option::Some((d, s))) => h.distance == d && h.normal == s.normal
            && h.object_id == s.id,
        _ => false,
    }
}

/// A reported hit lies within the asked range, and its surface is one of the
/// well-formed surfaces of the list.
pub proof fn lemma_spec_cast_hit(
    surfaces: Seq<Surface>,
    origin: Vec2,
    motion: Vec2,
    l: int,
    maxd: int,
    radius: int,
    exclude: u64,
)
    requires
        forall|i: int| 0 <= i < surfaces.len() ==> (#[trigger] surfaces[i]).wf(),
        l >= 0,
    ensures
        match spec_cast(surfaces, origin, motion, l, maxd, radius, exclude) {
            Option::Some((d, s)) => 0 <= d <= maxd && s.wf() && -dot2(s.normal, motion) > 0,
            Option::None => true,
        },
    decreases surfaces.len(),
{
    if surfaces.len() > 0 {
        assert(surfaces[0].wf());
        assert(forall|i: int|
            0 <= i < surfaces.drop_first().len() ==> (#[trigger] surfaces.drop_first()[i]).wf());
        lemma_spec_cast_hit(surfaces.drop_first(), origin, motion, l, maxd, radius, exclude);
        let head = surfaces[0];
        let den = -dot2(head.normal, motion);
        if den > 0 && head.id != exclude {
            let g = surface_gap(head, origin, radius as int);
            if g > 0 {
                assert(g * l >= 0) by (nonlinear_arith)
                    requires
                        g > 0,
                        l >= 0,
                ;
                lemma_fundamental_div_mod(g * l, den);
                lemma_mod_division_less_than_divisor(g * l, den);
                let q = (g * l) / den;
                assert(q >= 0) by (nonlinear_arith)
                    requires
                        den > 0,
                        g * l >= 0,
                        g * l == den * q + (g * l) % den,
                        0 <= (g * l) % den < den,
                ;
            }
        }
    }
}

/// Sweeps the collider disc from `origin` along `motion` (whose length is
/// `l`) up to `max_distance`, and returns the nearest blocking surface.
pub fn cast(
    field: &GeometryField,
    origin: Vec2,
    motion: Vec2,
    l: i64,
    max_distance: i64,
    radius: i64,
    exclude: u64,
) -> (r: Option<ShapeCastHit>)
    requires
        field.wf(),
        iabs(origin.x as int) <= CAST_POS_BOUND as int,
        iabs(origin.y as int) <= CAST_POS_BOUND as int,
        iabs(motion.x as int) <= CAST_MOTION_BOUND as int,
        iabs(motion.y as int) <= CAST_MOTION_BOUND as int,
        1 <= l <= CAST_RANGE_BOUND,
        0 <= max_distance <= CAST_RANGE_BOUND,
        0 < radius <= RADIUS_LIMIT,
    ensures
        hit_matches(
            r,
            spec_cast(
                field.surfaces@,
                origin,
                motion,
                l as int,
                max_distance as int,
                radius as int,
                exclude,
            ),
        ),
{
    let ghost gs = field.surfaces@;
    let n = field.surfaces.len();
    let mut best: Option<ShapeCastHit> = Option::None;
    let mut i: usize = n;
    proof {
        assert(gs.subrange(n as int, n as int).len() == 0);
    }
    while i > 0
        invariant
            i <= n,
            n == gs.len(),
            gs == field.surfaces@,
            field.wf(),
            iabs(origin.x as int) <= CAST_POS_BOUND as int,
            iabs(origin.y as int) <= CAST_POS_BOUND as int,
            iabs(motion.x as int) <= CAST_MOTION_BOUND as int,
            iabs(motion.y as int) <= CAST_MOTION_BOUND as int,
            1 <= l <= CAST_RANGE_BOUND,
            0 <= max_distance <= CAST_RANGE_BOUND,
            0 < radius <= RADIUS_LIMIT,
            hit_matches(
                best,
                spec_cast(
                    gs.subrange(i as int, n as int),
                    origin,
                    motion,
                    l as int,
                    max_distance as int,
                    radius as int,
                    exclude,
                ),
            ),
        decreases i,
    {
        i = i - 1;
        let s = field.surfaces[i];
        proof {
            assert(s == gs[i as int]);
            assert(s.wf());
            crate::math::lemma_unit_bounds(s.normal);
        }
        proof {
            crate::math::lemma_mul_bound(
                s.normal.x as int,
                motion.x as int,
                UNIT as int,
                CAST_MOTION_BOUND as int,
            );
            crate::math::lemma_mul_bound(
                s.normal.y as int,
                motion.y as int,
                UNIT as int,
                CAST_MOTION_BOUND as int,
            );
            crate::math::lemma_mul_bound(
                s.normal.x as int,
                origin.x as int,
                UNIT as int,
                CAST_POS_BOUND as int,
            );
            crate::math::lemma_mul_bound(
                s.normal.y as int,
                origin.y as int,
                UNIT as int,
                CAST_POS_BOUND as int,
            );
            crate::math::lemma_mul_bound(
                (s.offset + radius) as int,
                UNIT as int,
                1_001_000_000,
                UNIT as int,
            );
        }
        let den: i64 = -(s.normal.x * motion.x + s.normal.y * motion.y);
        let candidate: Option<i64> = if s.id == exclude || den <= 0 {
            Option::None
        } else {
            let g: i64 = s.normal.x * origin.x + s.normal.y * origin.y - (s.offset + radius)
                * UNIT;
            if g <= 0 {
                Option::Some(0)
            } else {
                proof {
                    crate::math::lemma_mul_bound(
                        g as int,
                        l as int,
                        5_000_000_000_000,
                        CAST_RANGE_BOUND as int,
                    );
                }
                let gl: u128 = (g as u128) * (l as u128);
                let q: u128 = gl / (den as u128);
                proof {
                    assert(gl == g * l);
                    assert(q == (g * l) as int / (den as int));
                }
                if q <= max_distance as u128 {
                    Option::Some(q as i64)
                } else {
                    Option::None
                }
            }
        };
        best = match (candidate, best) {
            (Option::None, b) => b,
            (Option::Some(d), Option::None) => Option::Some(
                ShapeCastHit { distance: d, normal: s.normal, object_id: s.id },
            ),
            (Option::Some(d), Option::Some(b)) => if d <= b.distance {
                Option::Some(ShapeCastHit { distance: d, normal: s.normal, object_id: s.id })
            } else {
                Option::Some(b)
            },
        };
        proof {
            let sub = gs.subrange(i as int, n as int);
            assert(sub.len() > 0);
            assert(sub[0] == gs[i as int]);
            assert(sub.drop_first() =~= gs.subrange(i as int + 1, n as int));
        }
    }
    proof {
        assert(gs.subrange(0, n as int) =~= gs);
    }
    best
}

} // verus!
