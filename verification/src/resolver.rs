//! The collide-and-slide kinematic resolver.
//!
//! Given a desired per-tick displacement, the resolver repeatedly sweeps the
//! collider along the remaining displacement, advances up to the nearest
//! blocking surface (keeping a skin-width buffer), and redirects the
//! unconsumed remainder along that surface's plane, for at most
//! `MAX_BOUNCES` iterations. The executable loop is proved equal to the
//! recursive specification `spec_resolve`.

use vstd::prelude::*;

verus! {

use crate::math::Vec2;
use crate::math::dot2;
use crate::math::iabs;
use crate::math::is_unit;
use crate::math::spec_len;
use crate::math::sqrt_floor;
use crate::math::lemma_sqrt_floor_bounds;
use crate::math::lemma_len_bounds;
use crate::math::lemma_mul_bound;
use crate::math::lemma_unit_bounds;
use crate::math::lemma_tdiv;
use crate::math::lemma_tdiv_shrink;
use crate::math::lemma_two_pow_small;
use crate::math::tdiv;
use crate::math::tdiv_i64;
use crate::math::two_pow;
use crate::math::v2;
use crate::math::vec_len;
use crate::math::UNIT;
use crate::math::SKIN_WIDTH;
use crate::math::MAX_BOUNCES;
use crate::math::POS_LIMIT;
use crate::math::DISP_LIMIT;
use crate::math::RADIUS_LIMIT;
use crate::math::RESULT_LIMIT;
use crate::geometry::GeometryField;
use crate::geometry::ShapeCastHit;
use crate::geometry::Surface;
use crate::geometry::spec_cast;
use crate::geometry::lemma_spec_cast_hit;
use crate::geometry::cast;
use crate::geometry::CAST_POS_BOUND;

/// What one resolver invocation produced: the collision-safe displacement,
/// the redirections taken, and the queries performed (a diagnostic counter
/// for tuning, not an error channel).
#[derive(Clone, Copy, Debug, PartialEq, Eq, Structural)]
pub struct ResolveOutcome {
    pub displacement: Vec2,
    pub bounces: u32,
    pub casts: u32,
}

/// The remainder of `v` after removing its component along the unit normal
/// `n`: the standard slide `v - (v . n) n`, in fixed point.
pub open spec fn spec_project(v: Vec2, n: Vec2) -> Vec2 {
    let dn = dot2(n, v);
    v2(v.x - tdiv(dn * n.x, UNIT * UNIT), v.y - tdiv(dn * n.y, UNIT * UNIT))
}

/// Projection does not grow a vector beyond the sum of its component
/// magnitudes, and leaves (numerically) nothing along the normal.
pub proof fn lemma_project_bounds(v: Vec2, n: Vec2)
    requires
        is_unit(n),
        iabs(v.x as int) <= 1_000_000_000,
        iabs(v.y as int) <= 1_000_000_000,
    ensures
        iabs(spec_project(v, n).x as int) <= iabs(v.x as int) + iabs(v.y as int),
        iabs(spec_project(v, n).y as int) <= iabs(v.x as int) + iabs(v.y as int),
        spec_project(v, n).x == v.x - tdiv(dot2(n, v) * n.x, UNIT * UNIT),
        spec_project(v, n).y == v.y - tdiv(dot2(n, v) * n.y, UNIT * UNIT),
        iabs(dot2(n, spec_project(v, n))) <= 2 * UNIT,
{
    let m = (UNIT * UNIT) as int;
    let dn = dot2(n, v);
    let t1 = tdiv(dn * n.x, m);
    let t2 = tdiv(dn * n.y, m);
    lemma_unit_bounds(n);
    lemma_tdiv(dn * n.x, m);
    lemma_tdiv(dn * n.y, m);
    let r1 = dn * n.x - m * t1;
    let r2 = dn * n.y - m * t2;
    assert(m * (v.x - t1) == n.y * (n.y * v.x - n.x * v.y) + r1) by (nonlinear_arith)
        requires
            m == UNIT * UNIT,
            n.x * n.x + n.y * n.y == UNIT * UNIT,
            dn == n.x * v.x + n.y * v.y,
            r1 == dn * n.x - m * t1,
    ;
    assert(m * (v.y - t2) == n.x * (n.x * v.y - n.y * v.x) + r2) by (nonlinear_arith)
        requires
            m == UNIT * UNIT,
            n.x * n.x + n.y * n.y == UNIT * UNIT,
            dn == n.x * v.x + n.y * v.y,
            r2 == dn * n.y - m * t2,
    ;
    assert(iabs(n.y * (n.y * v.x - n.x * v.y)) <= m * (iabs(v.x as int) + iabs(v.y as int)))
        by (nonlinear_arith)
        requires
            m == UNIT * UNIT,
            iabs(n.x as int) <= UNIT,
            iabs(n.y as int) <= UNIT,
    ;
    assert(iabs(n.x * (n.x * v.y - n.y * v.x)) <= m * (iabs(v.x as int) + iabs(v.y as int)))
        by (nonlinear_arith)
        requires
            m == UNIT * UNIT,
            iabs(n.x as int) <= UNIT,
            iabs(n.y as int) <= UNIT,
    ;
    let s = iabs(v.x as int) + iabs(v.y as int);
    assert(iabs(v.x - t1) <= s) by (nonlinear_arith)
        requires
            m >= 2,
            iabs(m * (v.x - t1)) <= m * s + iabs(r1),
            iabs(r1) < m,
            s >= 0,
    ;
    assert(iabs(v.y - t2) <= s) by (nonlinear_arith)
        requires
            m >= 2,
            iabs(m * (v.y - t2)) <= m * s + iabs(r2),
            iabs(r2) < m,
            s >= 0,
    ;
    let px = v.x - t1;
    let py = v.y - t2;
    assert(spec_project(v, n).x == px && spec_project(v, n).y == py);
    assert(m * (n.x * px + n.y * py) == m * dn - n.x * (m * t1) - n.y * (m * t2))
        by (nonlinear_arith)
        requires
            dn == n.x * v.x + n.y * v.y,
            px == v.x - t1,
            py == v.y - t2,
    ;
    assert(m * dn - n.x * (dn * n.x - r1) - n.y * (dn * n.y - r2) == dn * (m - n.x * n.x - n.y
        * n.y) + n.x * r1 + n.y * r2) by (nonlinear_arith);
    assert(dn * (m - n.x * n.x - n.y * n.y) == 0) by (nonlinear_arith)
        requires
            m == UNIT * UNIT,
            n.x * n.x + n.y * n.y == UNIT * UNIT,
    ;
    assert(m * (n.x * px + n.y * py) == n.x * r1 + n.y * r2);
    assert(iabs(n.x * r1 + n.y * r2) <= 2 * UNIT * m) by (nonlinear_arith)
        requires
            m == UNIT * UNIT,
            iabs(n.x as int) <= UNIT,
            iabs(n.y as int) <= UNIT,
            iabs(r1) < m,
            iabs(r2) < m,
    ;
    assert(iabs(n.x * px + n.y * py) <= 2 * UNIT) by (nonlinear_arith)
        requires
            m >= 2,
            iabs(m * (n.x * px + n.y * py)) <= 2 * UNIT * m,
    ;
    assert(dot2(n, spec_project(v, n)) == n.x * px + n.y * py);
}

/// One resolver invocation, as a recursive function of the geometry and the
/// starting state: `fuel` iterations remain, `rem` is the still-unconsumed
/// displacement and `acc` the displacement granted so far.
pub open spec fn spec_resolve(
    surfaces: Seq<Surface>,
    pos: Vec2,
    rem: Vec2,
    acc: Vec2,
    radius: int,
    max_slope_cos: Option<i64>,
    exclude: u64,
    fuel: nat,
) -> Vec2
    decreases fuel,
{
    if fuel == 0 || rem.is_zero() {
        acc
    } else {
        let l = spec_len(rem);
        match spec_cast(surfaces, pos, rem, l, l + SKIN_WIDTH, radius, exclude) {
            Option::None => v2(acc.x + rem.x, acc.y + rem.y),
            Option::Some((d, s)) => {
                let a = if d > SKIN_WIDTH {
                    d - SKIN_WIDTH
                } else {
                    0
                };
                let sx = tdiv(rem.x * a, l);
                let sy = tdiv(rem.y * a, l);
                let pos2 = v2(pos.x + sx, pos.y + sy);
                let acc2 = v2(acc.x + sx, acc.y + sy);
                let unc = v2(rem.x - sx, rem.y - sy);
                let proj = spec_project(unc, s.normal);
                let blocked = match max_slope_cos {
                    Option::Some(cm) => s.normal.y < cm,
                    Option::None => false,
                };
                let rem2 = if blocked {
                    v2(proj.x as int, 0)
                } else {
                    proj
                };
                spec_resolve(
                    surfaces,
                    pos2,
                    rem2,
                    acc2,
                    radius,
                    max_slope_cos,
                    exclude,
                    (fuel - 1) as nat,
                )
            },
        }
    }
}


/// Computes a collision-safe displacement for one tick: the desired
/// displacement, shortened and redirected so that the collider slides along
/// blocking surfaces instead of passing through them. A zero desired
/// displacement performs no query at all. Surfaces steeper than the walkable
/// slope wipe the vertical component of the redirected remainder, so the
/// controller cannot climb them.
#[verifier::spinoff_prover]
#[verifier::rlimit(100)]
pub fn collide_and_slide(
    field: &GeometryField,
    position: Vec2,
    desired: Vec2,
    radius: i64,
    max_slope_cos: Option<i64>,
    exclude: u64,
) -> (r: ResolveOutcome)
    requires
        field.wf(),
        iabs(position.x as int) <= POS_LIMIT as int,
        iabs(position.y as int) <= POS_LIMIT as int,
        iabs(desired.x as int) <= DISP_LIMIT as int,
        iabs(desired.y as int) <= DISP_LIMIT as int,
        0 < radius <= RADIUS_LIMIT,
    ensures
        r.displacement == spec_resolve(
            field.surfaces@,
            position,
            desired,
            Vec2::spec_zero(),
            radius as int,
            max_slope_cos,
            exclude,
            MAX_BOUNCES as nat,
        ),
        r.bounces <= MAX_BOUNCES,
        r.casts <= MAX_BOUNCES,
        desired.is_zero() ==> r.displacement == Vec2::spec_zero() && r.casts == 0,
        iabs(r.displacement.x as int) <= RESULT_LIMIT as int,
        iabs(r.displacement.y as int) <= RESULT_LIMIT as int,
{
    let ghost gs = field.surfaces@;
    let ghost target = spec_resolve(
        gs,
        position,
        desired,
        Vec2::spec_zero(),
        radius as int,
        max_slope_cos,
        exclude,
        MAX_BOUNCES as nat,
    );
    if desired.x == 0 && desired.y == 0 {
        proof {
            assert(target == Vec2::spec_zero());
        }
        return ResolveOutcome { displacement: Vec2::zero(), bounces: 0, casts: 0 };
    }
    let mut pos = position;
    let mut rem = desired;
    let mut acc = Vec2::zero();
    let mut i: u32 = 0;
    let mut casts: u32 = 0;
    let mut done: bool = false;
    while i < MAX_BOUNCES && !done
        invariant
            field.wf(),
            gs == field.surfaces@,
            0 < radius <= RADIUS_LIMIT,
            i <= MAX_BOUNCES,
            casts as int <= i as int + (if done {
                1int
            } else {
                0int
            }),
            done ==> i < MAX_BOUNCES,
            target == spec_resolve(
                gs,
                pos,
                rem,
                acc,
                radius as int,
                max_slope_cos,
                exclude,
                (MAX_BOUNCES - i) as nat,
            ),
            done ==> rem.is_zero(),
            iabs(rem.x as int) + iabs(rem.y as int) <= 2_000_000 * two_pow(i as nat),
            !done ==> iabs(acc.x as int) + iabs(acc.y as int) <= 2_000_000 * (two_pow(i as nat) - 1),
            done ==> iabs(acc.x as int) + iabs(acc.y as int) <= 2_000_000 * (two_pow((i + 1) as nat) - 1),
            iabs(pos.x as int - position.x as int) <= 2_000_000 * (two_pow(i as nat) - 1),
            iabs(pos.y as int - position.y as int) <= 2_000_000 * (two_pow(i as nat) - 1),
            iabs(position.x as int) <= POS_LIMIT as int,
            iabs(position.y as int) <= POS_LIMIT as int,
        decreases MAX_BOUNCES - i + (if done {
            0int
        } else {
            1int
        }),
    {
        proof {
            lemma_two_pow_small(i as nat);
            lemma_two_pow_small((i + 1) as nat);
            assert(two_pow((i + 1) as nat) == 2 * two_pow(i as nat));
        }
        if rem.x == 0 && rem.y == 0 {
            done = true;
        } else {
            let ghost fuel = (MAX_BOUNCES - i) as nat;
            let st = resolve_step(
                field,
                pos,
                rem,
                acc,
                radius,
                max_slope_cos,
                exclude,
                Ghost(fuel),
            );
            casts = casts + 1;
            if st.finished {
                proof {
                    assert(spec_resolve(
                        gs,
                        st.pos,
                        st.rem,
                        st.acc,
                        radius as int,
                        max_slope_cos,
                        exclude,
                        (fuel - 1) as nat,
                    ) == st.acc);
                    assert(spec_resolve(
                        gs,
                        st.pos,
                        st.rem,
                        st.acc,
                        radius as int,
                        max_slope_cos,
                        exclude,
                        fuel,
                    ) == st.acc);
                }
                done = true;
            } else {
                i = i + 1;
            }
            pos = st.pos;
            rem = st.rem;
            acc = st.acc;
        }
    }
    proof {
        lemma_two_pow_small(i as nat);
        lemma_two_pow_small((i + 1) as nat);
        if done {
            assert(spec_resolve(
                gs,
                pos,
                rem,
                acc,
                radius as int,
                max_slope_cos,
                exclude,
                (MAX_BOUNCES - i) as nat,
            ) == acc);
        } else {
            assert(i == MAX_BOUNCES);
            assert(spec_resolve(
                gs,
                pos,
                rem,
                acc,
                radius as int,
                max_slope_cos,
                exclude,
                0nat,
            ) == acc);
        }
    }
    ResolveOutcome { displacement: acc, bounces: i, casts }
}

/// The state carried from one resolver iteration to the next.
struct StepState {
    pos: Vec2,
    rem: Vec2,
    acc: Vec2,
    finished: bool,
}

/// One iteration of the collide-and-slide loop: sweep, advance, redirect.
/// Consumes one unit of `fuel` of the specification it mirrors.
#[verifier::spinoff_prover]
#[verifier::rlimit(100)]
fn resolve_step(
    field: &GeometryField,
    pos: Vec2,
    rem: Vec2,
    acc: Vec2,
    radius: i64,
    max_slope_cos: Option<i64>,
    exclude: u64,
    Ghost(fuel): Ghost<nat>,
) -> (st: StepState)
    requires
        field.wf(),
        fuel >= 1,
        !rem.is_zero(),
        iabs(rem.x as int) + iabs(rem.y as int) <= 32_000_000,
        iabs(acc.x as int) + iabs(acc.y as int) <= 62_000_000,
        iabs(pos.x as int) <= CAST_POS_BOUND as int - 32_000_000,
        iabs(pos.y as int) <= CAST_POS_BOUND as int - 32_000_000,
        0 < radius <= RADIUS_LIMIT,
    ensures
        st.finished ==> st.rem.is_zero() && st.pos == pos,
        spec_resolve(
            field.surfaces@,
            pos,
            rem,
            acc,
            radius as int,
            max_slope_cos,
            exclude,
            fuel,
        ) == spec_resolve(
            field.surfaces@,
            st.pos,
            st.rem,
            st.acc,
            radius as int,
            max_slope_cos,
            exclude,
            (fuel - 1) as nat,
        ),
        iabs(st.rem.x as int) + iabs(st.rem.y as int) <= 2 * (iabs(rem.x as int) + iabs(
            rem.y as int,
        )),
        iabs(st.acc.x as int) + iabs(st.acc.y as int) <= iabs(acc.x as int) + iabs(acc.y as int)
            + iabs(rem.x as int) + iabs(rem.y as int),
        iabs(st.pos.x as int - pos.x as int) <= iabs(rem.x as int),
        iabs(st.pos.y as int - pos.y as int) <= iabs(rem.y as int),
{
    let ghost gs = field.surfaces@;
    proof {
        lemma_len_bounds(rem);
        lemma_mul_bound(rem.x as int, rem.x as int, 32_000_000, 32_000_000);
        lemma_mul_bound(rem.y as int, rem.y as int, 32_000_000, 32_000_000);
    }
    let l = vec_len(rem);
    proof {
        assert(rem.x * rem.x >= 0) by (nonlinear_arith);
        assert(rem.y * rem.y >= 0) by (nonlinear_arith);
        let n = (rem.x * rem.x + rem.y * rem.y) as nat;
        lemma_sqrt_floor_bounds(n);
        assert(l <= 46_000_000) by (nonlinear_arith)
            requires
                l == sqrt_floor(n),
                l * l <= n,
                n <= 2_048_000_000_000_000,
                l >= 0,
        ;
    }
    let max_distance = l + SKIN_WIDTH;
    let hit = cast(field, pos, rem, l, max_distance, radius, exclude);
    proof {
        lemma_spec_cast_hit(gs, pos, rem, l as int, max_distance as int, radius as int, exclude);
    }
    match hit {
        Option::None => {
            let st = StepState {
                pos,
                rem: Vec2::zero(),
                acc: Vec2::new(acc.x + rem.x, acc.y + rem.y),
                finished: true,
            };
            proof {
                assert(spec_resolve(
                    gs,
                    pos,
                    rem,
                    acc,
                    radius as int,
                    max_slope_cos,
                    exclude,
                    fuel,
                ) == v2(acc.x + rem.x, acc.y + rem.y));
                assert(spec_resolve(
                    gs,
                    st.pos,
                    st.rem,
                    st.acc,
                    radius as int,
                    max_slope_cos,
                    exclude,
                    (fuel - 1) as nat,
                ) == st.acc);
            }
            st
        },
        Option::Some(h) => {
            let a: i64 = if h.distance > SKIN_WIDTH {
                h.distance - SKIN_WIDTH
            } else {
                0
            };
            proof {
                lemma_mul_bound(rem.x as int, a as int, 32_000_000, 46_000_000);
                lemma_mul_bound(rem.y as int, a as int, 32_000_000, 46_000_000);
                lemma_tdiv_shrink(rem.x as int, a as int, l as int);
                lemma_tdiv_shrink(rem.y as int, a as int, l as int);
            }
            let sx = tdiv_i64(rem.x * a, l);
            let sy = tdiv_i64(rem.y * a, l);
            let unc = Vec2::new(rem.x - sx, rem.y - sy);
            proof {
                assert(iabs(unc.x as int) <= iabs(rem.x as int));
                assert(iabs(unc.y as int) <= iabs(rem.y as int));
                lemma_project_bounds(unc, h.normal);
                lemma_unit_bounds(h.normal);
                lemma_mul_bound(h.normal.x as int, unc.x as int, UNIT as int, 32_000_000);
                lemma_mul_bound(h.normal.y as int, unc.y as int, UNIT as int, 32_000_000);
                lemma_mul_bound(
                    dot2(h.normal, unc),
                    h.normal.x as int,
                    64_000_000_000,
                    UNIT as int,
                );
                lemma_mul_bound(
                    dot2(h.normal, unc),
                    h.normal.y as int,
                    64_000_000_000,
                    UNIT as int,
                );
                lemma_tdiv(dot2(h.normal, unc) * (h.normal.x as int), UNIT * UNIT);
                lemma_tdiv(dot2(h.normal, unc) * (h.normal.y as int), UNIT * UNIT);
            }
            let dn: i64 = h.normal.x * unc.x + h.normal.y * unc.y;
            let px: i64 = unc.x - tdiv_i64(dn * h.normal.x, UNIT * UNIT);
            let py: i64 = unc.y - tdiv_i64(dn * h.normal.y, UNIT * UNIT);
            let blocked: bool = match max_slope_cos {
                Option::Some(cm) => h.normal.y < cm,
                Option::None => false,
            };
            let rem2 = if blocked {
                Vec2::new(px, 0)
            } else {
                Vec2::new(px, py)
            };
            let st = StepState {
                pos: Vec2::new(pos.x + sx, pos.y + sy),
                rem: rem2,
                acc: Vec2::new(acc.x + sx, acc.y + sy),
                finished: false,
            };
            proof {
                assert(unc == v2(rem.x - sx as int, rem.y - sy as int));
                assert(rem2 == (if blocked {
                    v2(spec_project(unc, h.normal).x as int, 0)
                } else {
                    spec_project(unc, h.normal)
                }));
                assert(spec_resolve(
                    gs,
                    pos,
                    rem,
                    acc,
                    radius as int,
                    max_slope_cos,
                    exclude,
                    fuel,
                ) == spec_resolve(
                    gs,
                    st.pos,
                    st.rem,
                    st.acc,
                    radius as int,
                    max_slope_cos,
                    exclude,
                    (fuel - 1) as nat,
                ));
            }
            st
        },
    }
}

} // verus!
