//! The resolver's guarantees, stated and proved as standalone laws.

use vstd::prelude::*;

verus! {

use crate::math::Vec2;
use crate::math::dot2;
use crate::math::iabs;
use crate::math::is_unit;
use crate::math::spec_len;
use crate::math::lemma_len_bounds;
use crate::math::lemma_tdiv_multiple;
use crate::math::tdiv;
use crate::math::v2;
use crate::math::UNIT;
use crate::math::SKIN_WIDTH;
use crate::math::MAX_BOUNCES;
use crate::geometry::Surface;
use crate::geometry::spec_cast;
use crate::resolver::spec_project;
use crate::resolver::spec_resolve;
use crate::resolver::lemma_project_bounds;

/// An unobstructed displacement is returned exactly: when the first sweep
/// finds no blocking surface within the query distance (or no motion is
/// asked for at all), the resolver's output equals its input.
pub proof fn lemma_unobstructed_returns_input(
    surfaces: Seq<Surface>,
    pos: Vec2,
    disp: Vec2,
    radius: int,
    max_slope_cos: Option<i64>,
    exclude: u64,
)
    requires
        disp.is_zero() || spec_cast(
            surfaces,
            pos,
            disp,
            spec_len(disp),
            spec_len(disp) + SKIN_WIDTH,
            radius,
            exclude,
        ) is None,
    ensures
        spec_resolve(
            surfaces,
            pos,
            disp,
            Vec2::spec_zero(),
            radius,
            max_slope_cos,
            exclude,
            MAX_BOUNCES as nat,
        ) == disp,
{
    if disp.is_zero() {
        assert(spec_resolve(
            surfaces,
            pos,
            disp,
            Vec2::spec_zero(),
            radius,
            max_slope_cos,
            exclude,
            MAX_BOUNCES as nat,
        ) == Vec2::spec_zero());
    } else {
        assert(spec_resolve(
            surfaces,
            pos,
            disp,
            Vec2::spec_zero(),
            radius,
            max_slope_cos,
            exclude,
            MAX_BOUNCES as nat,
        ) == v2(0 + disp.x, 0 + disp.y));
    }
}

/// A displacement aimed straight at a blocking surface (normal antiparallel
/// to the motion) that already stands within one skin width is stopped
/// whole: the output is zero, so its magnitude cannot exceed the input's
/// and the controller does not move toward the surface at all.
pub proof fn lemma_blocked_head_on(
    surfaces: Seq<Surface>,
    pos: Vec2,
    disp: Vec2,
    radius: int,
    max_slope_cos: Option<i64>,
    exclude: u64,
    d: int,
    s: Surface,
)
    requires
        !disp.is_zero(),
        is_unit(s.normal),
        spec_cast(
            surfaces,
            pos,
            disp,
            spec_len(disp),
            spec_len(disp) + SKIN_WIDTH,
            radius,
            exclude,
        ) == Option::Some((d, s)),
        0 <= d < SKIN_WIDTH,
        dot2(s.normal, disp) < 0,
        disp.x * s.normal.y == disp.y * s.normal.x,
    ensures
        spec_resolve(
            surfaces,
            pos,
            disp,
            Vec2::spec_zero(),
            radius,
            max_slope_cos,
            exclude,
            MAX_BOUNCES as nat,
        ) == Vec2::spec_zero(),
{
    let l = spec_len(disp);
    lemma_len_bounds(disp);
    assert(disp.x * 0 == 0) by (nonlinear_arith);
    assert(disp.y * 0 == 0) by (nonlinear_arith);
    vstd::arithmetic::div_mod::lemma_div_of0(l);
    assert(tdiv(0, l) == 0);
    let unc = v2(disp.x - 0, disp.y - 0);
    assert(unc == disp);
    let dn = dot2(s.normal, disp);
    assert(dn * s.normal.x == (UNIT * UNIT) * (disp.x as int)) by (nonlinear_arith)
        requires
            dn == s.normal.x * disp.x + s.normal.y * disp.y,
            disp.x * s.normal.y == disp.y * s.normal.x,
            s.normal.x * s.normal.x + s.normal.y * s.normal.y == UNIT * UNIT,
    ;
    assert(dn * s.normal.y == (UNIT * UNIT) * (disp.y as int)) by (nonlinear_arith)
        requires
            dn == s.normal.x * disp.x + s.normal.y * disp.y,
            disp.x * s.normal.y == disp.y * s.normal.x,
            s.normal.x * s.normal.x + s.normal.y * s.normal.y == UNIT * UNIT,
    ;
    lemma_tdiv_multiple(disp.x as int, UNIT * UNIT);
    lemma_tdiv_multiple(disp.y as int, UNIT * UNIT);
    assert(spec_project(disp, s.normal) == Vec2::spec_zero());
    assert(spec_resolve(
        surfaces,
        pos,
        disp,
        Vec2::spec_zero(),
        radius,
        max_slope_cos,
        exclude,
        MAX_BOUNCES as nat,
    ) == spec_resolve(
        surfaces,
        v2(pos.x + 0, pos.y + 0),
        if (match max_slope_cos {
            Option::Some(cm) => s.normal.y < cm,
            Option::None => false,
        }) {
            v2(0, 0)
        } else {
            Vec2::spec_zero()
        },
        v2(0int + 0int, 0int + 0int),
        radius,
        max_slope_cos,
        exclude,
        (MAX_BOUNCES - 1) as nat,
    ));
}

/// Sliding decomposes the motion: after projecting a displacement onto the
/// plane of a surface whose unit normal need not align with the motion, the
/// component of the result along that normal is numerically zero (at most
/// two fixed-point steps of rounding, against a scale of a million).
pub proof fn lemma_slide_removes_normal_component(v: Vec2, n: Vec2)
    requires
        is_unit(n),
        iabs(v.x as int) <= 1_000_000_000,
        iabs(v.y as int) <= 1_000_000_000,
    ensures
        iabs(dot2(n, spec_project(v, n))) <= 2 * UNIT,
{
    lemma_project_bounds(v, n);
}

/// A zero desired displacement resolves to zero at any iteration budget;
/// since the result is a function of the inputs alone, a second call
/// returns zero again, and the executable resolver performs no query for
/// it.
pub proof fn lemma_zero_displacement_resolves_to_zero(
    surfaces: Seq<Surface>,
    pos: Vec2,
    radius: int,
    max_slope_cos: Option<i64>,
    exclude: u64,
    fuel: nat,
)
    ensures
        spec_resolve(
            surfaces,
            pos,
            Vec2::spec_zero(),
            Vec2::spec_zero(),
            radius,
            max_slope_cos,
            exclude,
            fuel,
        ) == Vec2::spec_zero(),
{
}

} // verus!
