//! The character controller: its state, movement intents, velocity
//! integration, grounding, and the per-tick update sequence.
//!
//! Each tick runs an explicit, contract-checked pipeline: intents set
//! velocity, gravity and damping integrate it, a downward probe classifies
//! support, and the kinematic resolver turns velocity into a collision-safe
//! displacement that is applied to the position.

use vstd::prelude::*;

verus! {

use crate::math::Vec2;
use crate::math::iabs;
use crate::math::lemma_mul_bound;
use crate::math::lemma_tdiv_shrink;
use crate::math::tdiv;
use crate::math::tdiv_i64;
use crate::math::v2;
use crate::math::UNIT;
use crate::math::MAX_BOUNCES;
use crate::math::POS_LIMIT;
use crate::math::VEL_LIMIT;
use crate::math::RADIUS_LIMIT;
use crate::math::DT_LIMIT;
use crate::geometry::GeometryField;
use crate::geometry::ShapeCastHit;
use crate::geometry::spec_cast;
use crate::geometry::hit_matches;
use crate::geometry::cast;
use crate::resolver::ResolveOutcome;
use crate::resolver::spec_resolve;
use crate::resolver::collide_and_slide;

/// How far beneath the controller the grounding probe looks, in milli-units.
pub const GROUND_PROBE_DISTANCE: i64 = 10_000;

/// One discrete movement event; the direction of a walk or sprint is
/// -1, 0 or 1.
#[derive(Clone, Copy, Debug, PartialEq, Eq, Structural)]
pub enum MovementIntent {
    Walk(i64),
    Sprint(i64),
    Jump,
}

pub open spec fn intent_wf(intent: MovementIntent) -> bool {
    match intent {
        MovementIntent::Walk(d) => -1 <= d <= 1,
        MovementIntent::Sprint(d) => -1 <= d <= 1,
        MovementIntent::Jump => true,
    }
}

/// Why a controller configuration was rejected.
#[derive(Clone, Copy, Debug, PartialEq, Eq, Structural)]
pub enum ConfigError {
    PositionOutOfRange,
    VelocityOutOfRange,
    RadiusOutOfRange,
    SlopeOutOfRange,
    AccelerationOutOfRange,
    DampingOutOfRange,
    JumpImpulseOutOfRange,
    GravityOutOfRange,
}

/// Why the required single controller could not be found.
#[derive(Clone, Copy, Debug, PartialEq, Eq, Structural)]
pub enum ControllerLookupError {
    Missing,
    Multiple,
}

pub open spec fn position_ok(p: Vec2) -> bool {
    iabs(p.x as int) <= POS_LIMIT as int && iabs(p.y as int) <= POS_LIMIT as int
}

pub open spec fn velocity_ok(v: Vec2) -> bool {
    iabs(v.x as int) <= VEL_LIMIT as int && iabs(v.y as int) <= VEL_LIMIT as int
}

pub open spec fn radius_ok(r: i64) -> bool {
    0 < r <= RADIUS_LIMIT
}

pub open spec fn slope_ok(m: Option<i64>) -> bool {
    match m {
        Option::Some(c) => -UNIT <= c <= UNIT,
        Option::None => true,
    }
}

pub open spec fn acceleration_ok(a: i64) -> bool {
    0 <= a <= VEL_LIMIT
}

pub open spec fn damping_ok(d: i64) -> bool {
    0 <= d <= UNIT
}

pub open spec fn jump_impulse_ok(j: i64) -> bool {
    0 <= j <= VEL_LIMIT
}

pub open spec fn gravity_ok(g: Vec2) -> bool {
    iabs(g.x as int) <= VEL_LIMIT as int && iabs(g.y as int) <= VEL_LIMIT as int
}

/// One player character: kinematic state, collider, support flag and the
/// movement configuration.
#[derive(Clone, Copy, Debug, PartialEq, Eq, Structural)]
pub struct Controller {
    /// World position of the collider disc's centre, in milli-units.
    pub position: Vec2,
    /// Velocity in milli-units per second.
    pub velocity: Vec2,
    /// Radius of the collider disc, in milli-units.
    pub radius: i64,
    /// Support flag, recomputed from scratch every tick.
    pub grounded: bool,
    /// Cosine of the maximum walkable slope angle, at the fixed-point
    /// scale; `None` means every surface counts as ground.
    pub max_slope_cos: Option<i64>,
    /// Magnitude of the horizontal velocity a walk or sprint sets.
    pub acceleration: i64,
    /// Per-tick horizontal damping factor, scaled by `UNIT` (so `UNIT`
    /// keeps the velocity, `0` stops it).
    pub damping: i64,
    /// Vertical velocity a jump sets.
    pub jump_impulse: i64,
    /// Velocity added each tick, in milli-units per second.
    pub gravity: Vec2,
    /// Identity excluded from this controller's own shape queries.
    pub id: u64,
}

impl Controller {
    pub open spec fn wf(self) -> bool {
        &&& position_ok(self.position)
        &&& velocity_ok(self.velocity)
        &&& radius_ok(self.radius)
        &&& slope_ok(self.max_slope_cos)
        &&& acceleration_ok(self.acceleration)
        &&& damping_ok(self.damping)
        &&& jump_impulse_ok(self.jump_impulse)
        &&& gravity_ok(self.gravity)
    }

    /// Validates a configuration at the boundary: a controller outside the
    /// fixed-point ranges is rejected with the first failing field, never
    /// accepted into the simulation.
    pub fn new(
        position: Vec2,
        velocity: Vec2,
        radius: i64,
        max_slope_cos: Option<i64>,
        acceleration: i64,
        damping: i64,
        jump_impulse: i64,
        gravity: Vec2,
        id: u64,
    ) -> (r: Result<Controller, ConfigError>)
        ensures
            r is Ok <==> position_ok(position) && velocity_ok(velocity) && radius_ok(radius)
                && slope_ok(max_slope_cos) && acceleration_ok(acceleration) && damping_ok(damping)
                && jump_impulse_ok(jump_impulse) && gravity_ok(gravity),
            r is Ok ==> r->Ok_0 == (Controller {
                position,
                velocity,
                radius,
                grounded: false,
                max_slope_cos,
                acceleration,
                damping,
                jump_impulse,
                gravity,
                id,
            }) && r->Ok_0.wf(),
            r == Result::<Controller, ConfigError>::Err(ConfigError::PositionOutOfRange)
                <==> !position_ok(position),
            r == Result::<Controller, ConfigError>::Err(ConfigError::VelocityOutOfRange)
                <==> position_ok(position) && !velocity_ok(velocity),
            r == Result::<Controller, ConfigError>::Err(ConfigError::RadiusOutOfRange)
                <==> position_ok(position) && velocity_ok(velocity) && !radius_ok(radius),
            r == Result::<Controller, ConfigError>::Err(ConfigError::SlopeOutOfRange)
                <==> position_ok(position) && velocity_ok(velocity) && radius_ok(radius)
                && !slope_ok(max_slope_cos),
            r == Result::<Controller, ConfigError>::Err(ConfigError::AccelerationOutOfRange)
                <==> position_ok(position) && velocity_ok(velocity) && radius_ok(radius)
                && slope_ok(max_slope_cos) && !acceleration_ok(acceleration),
            r == Result::<Controller, ConfigError>::Err(ConfigError::DampingOutOfRange)
                <==> position_ok(position) && velocity_ok(velocity) && radius_ok(radius)
                && slope_ok(max_slope_cos) && acceleration_ok(acceleration) && !damping_ok(damping),
            r == Result::<Controller, ConfigError>::Err(ConfigError::JumpImpulseOutOfRange)
                <==> position_ok(position) && velocity_ok(velocity) && radius_ok(radius)
                && slope_ok(max_slope_cos) && acceleration_ok(acceleration) && damping_ok(damping)
                && !jump_impulse_ok(jump_impulse),
            r == Result::<Controller, ConfigError>::Err(ConfigError::GravityOutOfRange)
                <==> position_ok(position) && velocity_ok(velocity) && radius_ok(radius)
                && slope_ok(max_slope_cos) && acceleration_ok(acceleration) && damping_ok(damping)
                && jump_impulse_ok(jump_impulse) && !gravity_ok(gravity),
    {
        if position.x < -POS_LIMIT || position.x > POS_LIMIT || position.y < -POS_LIMIT
            || position.y > POS_LIMIT {
            Result::Err(ConfigError::PositionOutOfRange)
        } else if velocity.x < -VEL_LIMIT || velocity.x > VEL_LIMIT || velocity.y < -VEL_LIMIT
            || velocity.y > VEL_LIMIT {
            Result::Err(ConfigError::VelocityOutOfRange)
        } else if radius <= 0 || radius > RADIUS_LIMIT {
            Result::Err(ConfigError::RadiusOutOfRange)
        } else if match max_slope_cos {
            Option::Some(c) => c < -UNIT || c > UNIT,
            Option::None => false,
        } {
            Result::Err(ConfigError::SlopeOutOfRange)
        } else if acceleration < 0 || acceleration > VEL_LIMIT {
            Result::Err(ConfigError::AccelerationOutOfRange)
        } else if damping < 0 || damping > UNIT {
            Result::Err(ConfigError::DampingOutOfRange)
        } else if jump_impulse < 0 || jump_impulse > VEL_LIMIT {
            Result::Err(ConfigError::JumpImpulseOutOfRange)
        } else if gravity.x < -VEL_LIMIT || gravity.x > VEL_LIMIT || gravity.y < -VEL_LIMIT
            || gravity.y > VEL_LIMIT {
            Result::Err(ConfigError::GravityOutOfRange)
        } else {
            Result::Ok(
                Controller {
                    position,
                    velocity,
                    radius,
                    grounded: false,
                    max_slope_cos,
                    acceleration,
                    damping,
                    jump_impulse,
                    gravity,
                    id,
                },
            )
        }
    }
}

/// The fields a tick never touches.
pub open spec fn same_config(a: Controller, b: Controller) -> bool {
    &&& a.radius == b.radius
    &&& a.max_slope_cos == b.max_slope_cos
    &&& a.acceleration == b.acceleration
    &&& a.damping == b.damping
    &&& a.jump_impulse == b.jump_impulse
    &&& a.gravity == b.gravity
    &&& a.id == b.id
}

/// What one intent does to the velocity: walks and sprints set the
/// horizontal axis, a jump sets the vertical axis (gated by support only
/// when `gate_jump` asks for it).
pub open spec fn spec_apply_intent(
    vel: Vec2,
    intent: MovementIntent,
    grounded: bool,
    gate_jump: bool,
    acceleration: i64,
    jump_impulse: i64,
) -> Vec2 {
    match intent {
        MovementIntent::Walk(d) => v2(d * acceleration, vel.y as int),
        MovementIntent::Sprint(d) => v2(d * acceleration, vel.y as int),
        MovementIntent::Jump => if !gate_jump || grounded {
            v2(vel.x as int, jump_impulse as int)
        } else {
            vel
        },
    }
}

/// All intents of one tick, folded in arrival order.
pub open spec fn spec_apply_intents(
    vel: Vec2,
    intents: Seq<MovementIntent>,
    grounded: bool,
    gate_jump: bool,
    acceleration: i64,
    jump_impulse: i64,
) -> Vec2
    decreases intents.len(),
{
    if intents.len() == 0 {
        vel
    } else {
        spec_apply_intents(
            spec_apply_intent(vel, intents[0], grounded, gate_jump, acceleration, jump_impulse),
            intents.drop_first(),
            grounded,
            gate_jump,
            acceleration,
            jump_impulse,
        )
    }
}

/// Applies the tick's movement intents to the velocity, in arrival order.
/// Support-gating of jumps is a configuration switch, not hard-wired.
pub fn movement(c: &mut Controller, intents: &Vec<MovementIntent>, gate_jump: bool)
    requires
        old(c).wf(),
        forall|i: int| 0 <= i < intents@.len() ==> intent_wf(#[trigger] intents@[i]),
    ensures
        final(c).velocity == spec_apply_intents(
            old(c).velocity,
            intents@,
            old(c).grounded,
            gate_jump,
            old(c).acceleration,
            old(c).jump_impulse,
        ),
        final(c).position == old(c).position,
        final(c).grounded == old(c).grounded,
        same_config(*old(c), *final(c)),
        final(c).wf(),
{
    let ghost gseq = intents@;
    let ghost target = spec_apply_intents(
        old(c).velocity,
        gseq,
        old(c).grounded,
        gate_jump,
        old(c).acceleration,
        old(c).jump_impulse,
    );
    let n = intents.len();
    proof {
        assert(gseq.subrange(0, n as int) =~= gseq);
    }
    let mut i: usize = 0;
    while i < n
        invariant
            i <= n,
            n == gseq.len(),
            gseq == intents@,
            forall|k: int| 0 <= k < gseq.len() ==> intent_wf(#[trigger] gseq[k]),
            c.wf(),
            c.position == old(c).position,
            c.grounded == old(c).grounded,
            same_config(*old(c), *c),
            target == spec_apply_intents(
                c.velocity,
                gseq.subrange(i as int, n as int),
                c.grounded,
                gate_jump,
                c.acceleration,
                c.jump_impulse,
            ),
        decreases n - i,
    {
        let intent = intents[i];
        proof {
            let sub = gseq.subrange(i as int, n as int);
            assert(sub[0] == gseq[i as int]);
            assert(sub.drop_first() =~= gseq.subrange(i as int + 1, n as int));
            lemma_mul_bound(
                match intent {
                    MovementIntent::Walk(d) => d as int,
                    MovementIntent::Sprint(d) => d as int,
                    MovementIntent::Jump => 0int,
                },
                c.acceleration as int,
                1,
                1_000_000,
            );
        }
        match intent {
            MovementIntent::Walk(d) => {
                c.velocity.x = d * c.acceleration;
            },
            MovementIntent::Sprint(d) => {
                c.velocity.x = d * c.acceleration;
            },
            MovementIntent::Jump => {
                if !gate_jump || c.grounded {
                    c.velocity.y = c.jump_impulse;
                }
            },
        }
        i = i + 1;
    }
    proof {
        assert(gseq.subrange(n as int, n as int).len() == 0);
    }
}

/// A value clipped into `[-limit, limit]`.
pub open spec fn clamp_spec(v: int, limit: int) -> int {
    if v < -limit {
        -limit
    } else if v > limit {
        limit
    } else {
        v
    }
}

fn clamp_i64(v: i64, limit: i64) -> (r: i64)
    requires
        0 <= limit,
        v > i64::MIN,
    ensures
        r == clamp_spec(v as int, limit as int),
{
    if v < -limit {
        -limit
    } else if v > limit {
        limit
    } else {
        v
    }
}

/// Adds the gravity vector to the velocity, unconditionally (support does
/// not suppress it; the resolver's surface handling absorbs it while
/// grounded). Saturates at the velocity range, a terminal speed.
pub fn apply_gravity(c: &mut Controller)
    requires
        old(c).wf(),
    ensures
        final(c).velocity == v2(
            clamp_spec(old(c).velocity.x + old(c).gravity.x, VEL_LIMIT as int),
            clamp_spec(old(c).velocity.y + old(c).gravity.y, VEL_LIMIT as int),
        ),
        final(c).position == old(c).position,
        final(c).grounded == old(c).grounded,
        same_config(*old(c), *final(c)),
        final(c).wf(),
{
    c.velocity.x = clamp_i64(c.velocity.x + c.gravity.x, VEL_LIMIT);
    c.velocity.y = clamp_i64(c.velocity.y + c.gravity.y, VEL_LIMIT);
}

/// Scales the horizontal velocity by the damping factor; the vertical axis
/// is untouched (ground friction, not vertical drag). Runs after gravity.
pub fn apply_damping(c: &mut Controller)
    requires
        old(c).wf(),
    ensures
        final(c).velocity == v2(
            tdiv(old(c).velocity.x * old(c).damping, UNIT as int),
            old(c).velocity.y as int,
        ),
        final(c).position == old(c).position,
        final(c).grounded == old(c).grounded,
        same_config(*old(c), *final(c)),
        final(c).wf(),
{
    proof {
        lemma_mul_bound(c.velocity.x as int, c.damping as int, 1_000_000, 1_000);
        lemma_tdiv_shrink(c.velocity.x as int, c.damping as int, UNIT as int);
    }
    c.velocity.x = tdiv_i64(c.velocity.x * c.damping, UNIT);
}

/// The surface under this normal counts as walkable ground: its angle to
/// "up" stays within the configured maximum slope, compared through the
/// cosine; with no maximum configured, anything counts.
pub open spec fn walkable_normal(n: Vec2, max_slope_cos: Option<i64>) -> bool {
    match max_slope_cos {
        Option::Some(cm) => n.y >= cm,
        Option::None => true,
    }
}

pub open spec fn hit_is_walkable(h: ShapeCastHit, max_slope_cos: Option<i64>) -> bool {
    walkable_normal(h.normal, max_slope_cos)
}

pub open spec fn spec_grounded(hits: Seq<ShapeCastHit>, max_slope_cos: Option<i64>) -> bool {
    exists|i: int| 0 <= i < hits.len() && #[trigger] hit_is_walkable(hits[i], max_slope_cos)
}

/// Recomputes the support flag from scratch: the controller is grounded
/// exactly when some downward hit's surface is walkable; an empty hit set
/// never grounds.
pub fn update_grounded(c: &mut Controller, hits: &Vec<ShapeCastHit>)
    requires
        old(c).wf(),
    ensures
        final(c).grounded == spec_grounded(hits@, old(c).max_slope_cos),
        final(c).position == old(c).position,
        final(c).velocity == old(c).velocity,
        same_config(*old(c), *final(c)),
        final(c).wf(),
{
    let ghost gh = hits@;
    let n = hits.len();
    let mut found: bool = false;
    let mut i: usize = 0;
    while i < n
        invariant
            i <= n,
            n == gh.len(),
            gh == hits@,
            c == old(c),
            found == spec_grounded(gh.subrange(0, i as int), c.max_slope_cos),
        decreases n - i,
    {
        let walkable: bool = match c.max_slope_cos {
            Option::Some(cm) => hits[i].normal.y >= cm,
            Option::None => true,
        };
        proof {
            let pre = gh.subrange(0, i as int);
            let now = gh.subrange(0, i as int + 1);
            assert(now[i as int] == gh[i as int]);
            assert(forall|k: int| 0 <= k < i as int ==> now[k] == pre[k]);
            if walkable {
                assert(hit_is_walkable(now[i as int], c.max_slope_cos));
                assert(spec_grounded(now, c.max_slope_cos));
            } else {
                if spec_grounded(now, c.max_slope_cos) {
                    let w = choose|k: int|
                        0 <= k < now.len() && #[trigger] hit_is_walkable(now[k], c.max_slope_cos);
                    if w < i as int {
                        assert(hit_is_walkable(pre[w], c.max_slope_cos));
                    }
                    assert(spec_grounded(pre, c.max_slope_cos) || walkable);
                }
            }
        }
        if walkable {
            found = true;
        }
        i = i + 1;
    }
    proof {
        assert(gh.subrange(0, n as int) =~= gh);
    }
    c.grounded = found;
}

/// The downward shape-cast whose result grounds the controller.
pub open spec fn spec_ground_cast(field: GeometryField, c: Controller) -> Option<(int, crate::geometry::Surface)> {
    spec_cast(
        field.surfaces@,
        c.position,
        v2(0, -(GROUND_PROBE_DISTANCE as int)),
        GROUND_PROBE_DISTANCE as int,
        GROUND_PROBE_DISTANCE as int,
        c.radius as int,
        c.id,
    )
}

/// Casts the collider straight down, up to the probe distance, excluding
/// the controller's own identity, and hands back the hit set for the
/// grounding classifier.
pub fn ground_probe(field: &GeometryField, c: &Controller) -> (hits: Vec<ShapeCastHit>)
    requires
        field.wf(),
        c.wf(),
    ensures
        hits@.len() <= 1,
        hit_matches(
            if hits@.len() == 1 {
                Option::Some(hits@[0])
            } else {
                Option::None
            },
            spec_ground_cast(*field, *c),
        ),
{
    let motion = Vec2::new(0, -GROUND_PROBE_DISTANCE);
    let hit = cast(
        field,
        c.position,
        motion,
        GROUND_PROBE_DISTANCE,
        GROUND_PROBE_DISTANCE,
        c.radius,
        c.id,
    );
    let mut hits: Vec<ShapeCastHit> = Vec::new();
    match hit {
        Option::Some(h) => {
            hits.push(h);
        },
        Option::None => {},
    }
    hits
}

/// The displacement one tick asks for: velocity times the timestep, in
/// fixed point.
pub open spec fn spec_desired(vel: Vec2, dt: int) -> Vec2 {
    v2(tdiv(vel.x * dt, UNIT as int), tdiv(vel.y * dt, UNIT as int))
}

/// Converts the velocity into a per-tick displacement, resolves it against
/// the geometry with the collide-and-slide loop, and applies the safe
/// displacement to the position (clipped to the world range). The velocity
/// itself is left for the next tick's integration.
pub fn kinematic_collision_response(c: &mut Controller, field: &GeometryField, dt: i64) -> (out:
    ResolveOutcome)
    requires
        old(c).wf(),
        field.wf(),
        0 < dt <= DT_LIMIT,
    ensures
        out.displacement == spec_resolve(
            field.surfaces@,
            old(c).position,
            spec_desired(old(c).velocity, dt as int),
            Vec2::spec_zero(),
            old(c).radius as int,
            old(c).max_slope_cos,
            old(c).id,
            MAX_BOUNCES as nat,
        ),
        final(c).position == v2(
            clamp_spec(old(c).position.x + out.displacement.x, POS_LIMIT as int),
            clamp_spec(old(c).position.y + out.displacement.y, POS_LIMIT as int),
        ),
        final(c).velocity == old(c).velocity,
        final(c).grounded == old(c).grounded,
        same_config(*old(c), *final(c)),
        final(c).wf(),
        out.bounces <= MAX_BOUNCES,
        out.casts <= MAX_BOUNCES,
        spec_desired(old(c).velocity, dt as int).is_zero() ==> out.displacement
            == Vec2::spec_zero() && out.casts == 0,
{
    proof {
        lemma_mul_bound(c.velocity.x as int, dt as int, 1_000_000, 1_000);
        lemma_mul_bound(c.velocity.y as int, dt as int, 1_000_000, 1_000);
        lemma_tdiv_shrink(c.velocity.x as int, dt as int, UNIT as int);
        lemma_tdiv_shrink(c.velocity.y as int, dt as int, UNIT as int);
    }
    let desired = Vec2::new(tdiv_i64(c.velocity.x * dt, UNIT), tdiv_i64(c.velocity.y * dt, UNIT));
    let out = collide_and_slide(field, c.position, desired, c.radius, c.max_slope_cos, c.id);
    c.position.x = clamp_i64(c.position.x + out.displacement.x, POS_LIMIT);
    c.position.y = clamp_i64(c.position.y + out.displacement.y, POS_LIMIT);
    out
}

/// The velocity after the tick's three integration stages, in order:
/// intents, then gravity, then damping.
pub open spec fn spec_velocity_after(
    c: Controller,
    intents: Seq<MovementIntent>,
    gate_jump: bool,
) -> Vec2 {
    let after_intents = spec_apply_intents(
        c.velocity,
        intents,
        c.grounded,
        gate_jump,
        c.acceleration,
        c.jump_impulse,
    );
    let after_gravity = v2(
        clamp_spec(after_intents.x + c.gravity.x, VEL_LIMIT as int),
        clamp_spec(after_intents.y + c.gravity.y, VEL_LIMIT as int),
    );
    v2(tdiv(after_gravity.x * c.damping, UNIT as int), after_gravity.y as int)
}

/// Whether the downward probe grounds the controller at its pre-move
/// position.
pub open spec fn spec_grounded_after(field: GeometryField, c: Controller) -> bool {
    match spec_ground_cast(field, c) {
        Option::Some((d, s)) => walkable_normal(s.normal, c.max_slope_cos),
        Option::None => false,
    }
}

/// One full simulation tick, the explicit pipeline of the design:
/// intents, gravity, damping, grounding, then the kinematic resolver.
/// The support flag consumed by the intents is the previous tick's.
pub fn tick(
    c: &mut Controller,
    field: &GeometryField,
    intents: &Vec<MovementIntent>,
    dt: i64,
    gate_jump: bool,
) -> (out: ResolveOutcome)
    requires
        old(c).wf(),
        field.wf(),
        forall|i: int| 0 <= i < intents@.len() ==> intent_wf(#[trigger] intents@[i]),
        0 < dt <= DT_LIMIT,
    ensures
        final(c).velocity == spec_velocity_after(*old(c), intents@, gate_jump),
        final(c).grounded == spec_grounded_after(*field, *old(c)),
        out.displacement == spec_resolve(
            field.surfaces@,
            old(c).position,
            spec_desired(spec_velocity_after(*old(c), intents@, gate_jump), dt as int),
            Vec2::spec_zero(),
            old(c).radius as int,
            old(c).max_slope_cos,
            old(c).id,
            MAX_BOUNCES as nat,
        ),
        final(c).position == v2(
            clamp_spec(old(c).position.x + out.displacement.x, POS_LIMIT as int),
            clamp_spec(old(c).position.y + out.displacement.y, POS_LIMIT as int),
        ),
        same_config(*old(c), *final(c)),
        final(c).wf(),
        out.bounces <= MAX_BOUNCES,
        out.casts <= MAX_BOUNCES,
{
    movement(c, intents, gate_jump);
    apply_gravity(c);
    apply_damping(c);
    let hits = ground_probe(field, c);
    proof {
        if hits@.len() == 1 {
            if hit_is_walkable(hits@[0], c.max_slope_cos) {
                assert(spec_grounded(hits@, c.max_slope_cos));
            }
            if spec_grounded(hits@, c.max_slope_cos) {
                let w = choose|k: int|
                    0 <= k < hits@.len() && #[trigger] hit_is_walkable(hits@[k], c.max_slope_cos);
                assert(w == 0);
            }
        }
    }
    update_grounded(c, &hits);
    kinematic_collision_response(c, field, dt)
}

/// Finds the one controller the simulation requires: absence and
/// multiplicity are reported as distinct configuration errors, not by a
/// panic inside the tick.
pub fn single_controller_index(controllers: &Vec<Controller>) -> (r: Result<
    usize,
    ControllerLookupError,
>)
    ensures
        match r {
            Result::Ok(i) => controllers@.len() == 1 && i == 0,
            Result::Err(e) => (e == ControllerLookupError::Missing <==> controllers@.len() == 0)
                && (e == ControllerLookupError::Multiple <==> controllers@.len() > 1),
        },
{
    if controllers.len() == 0 {
        Result::Err(ControllerLookupError::Missing)
    } else if controllers.len() > 1 {
        Result::Err(ControllerLookupError::Multiple)
    } else {
        Result::Ok(0)
    }
}

} // verus!
