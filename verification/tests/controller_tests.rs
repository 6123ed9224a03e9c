use character_controller::controller::ConfigError;
use character_controller::controller::Controller;
use character_controller::controller::ControllerLookupError;
use character_controller::controller::MovementIntent;
use character_controller::controller::apply_damping;
use character_controller::controller::apply_gravity;
use character_controller::controller::movement;
use character_controller::controller::single_controller_index;
use character_controller::controller::tick;
use character_controller::controller::update_grounded;
use character_controller::geometry::GeometryField;
use character_controller::geometry::ShapeCastHit;
use character_controller::geometry::Surface;
use character_controller::math::Vec2;
use character_controller::resolver::collide_and_slide;

fn v(x: i64, y: i64) -> Vec2 {
    Vec2 { x, y }
}

fn floor_at_origin() -> Surface {
    Surface { normal: v(0, 1000), offset: 0, id: 1 }
}

fn basic_controller(position: Vec2, velocity: Vec2) -> Controller {
    Controller::new(
        position,
        velocity,
        15,
        Some(707),
        30_000,
        900,
        7_000,
        v(0, -1000),
        9,
    )
    .unwrap()
}

#[test]
fn unobstructed_displacement_returned_exactly() {
    let field = GeometryField::new(vec![]);
    let out = collide_and_slide(&field, v(0, 100_000), v(3000, -4000), 500, Some(707), 7);
    assert_eq!(out.displacement, v(3000, -4000));
    assert_eq!(out.bounces, 0);
    assert_eq!(out.casts, 1);
}

#[test]
fn resolver_stops_at_ground_with_skin() {
    // Ground 4.98 units below along the cast; advance by 4.98 - 0.015.
    let field = GeometryField::new(vec![floor_at_origin()]);
    let out = collide_and_slide(&field, v(0, 4995), v(0, -5000), 15, Some(707), 9);
    assert_eq!(out.displacement, v(0, -4965));
    assert_eq!(out.bounces, 1);
    assert_eq!(out.casts, 1);
}

#[test]
fn blocked_head_on_within_skin_stops_whole() {
    let wall = Surface { normal: v(-1000, 0), offset: -30, id: 1 };
    let field = GeometryField::new(vec![wall]);
    let out = collide_and_slide(&field, v(0, 0), v(5000, 0), 20, Some(707), 9);
    assert_eq!(out.displacement, v(0, 0));
    assert_eq!(out.bounces, 1);
}

#[test]
fn slide_removes_normal_component_keeps_tangent() {
    let field = GeometryField::new(vec![floor_at_origin()]);
    let out = collide_and_slide(&field, v(0, 1712), v(3000, -4000), 100, Some(707), 9);
    // Advance (1200, -1600) to the surface, then slide the rest along it.
    assert_eq!(out.displacement, v(3000, -1600));
    assert_eq!(out.bounces, 1);
    assert_eq!(out.casts, 2);
}

#[test]
fn corner_terminates_within_bounce_budget() {
    let wall_right = Surface { normal: v(-1000, 0), offset: -2000, id: 1 };
    let wall_top = Surface { normal: v(0, -1000), offset: -2000, id: 2 };
    let field = GeometryField::new(vec![wall_right, wall_top]);
    let out = collide_and_slide(&field, v(0, 0), v(5000, 5000), 100, None, 9);
    assert!(out.bounces <= 5);
    assert_eq!(out.bounces, 2);
    assert_eq!(out.displacement, v(1888, 1888));
}

#[test]
fn zero_displacement_is_idempotent_and_queryless() {
    let field = GeometryField::new(vec![floor_at_origin()]);
    let first = collide_and_slide(&field, v(0, 500), v(0, 0), 15, Some(707), 9);
    let second = collide_and_slide(&field, v(0, 500), v(0, 0), 15, Some(707), 9);
    assert_eq!(first.displacement, v(0, 0));
    assert_eq!(second.displacement, v(0, 0));
    assert_eq!(first.casts, 0);
    assert_eq!(second.casts, 0);
    assert_eq!(first.bounces, 0);
}

#[test]
fn grounded_on_flat_normal_within_slope() {
    let mut c = basic_controller(v(0, 500), v(0, 0));
    let hits = vec![ShapeCastHit { distance: 100, normal: v(0, 1000), object_id: 2 }];
    update_grounded(&mut c, &hits);
    assert!(c.grounded);
}

#[test]
fn not_grounded_on_steep_normal() {
    let mut c = basic_controller(v(0, 500), v(0, 0));
    // A normal 60 degrees from vertical: cosine 0.5, below the 45-degree cap.
    let hits = vec![ShapeCastHit { distance: 100, normal: v(866, 500), object_id: 2 }];
    update_grounded(&mut c, &hits);
    assert!(!c.grounded);
}

#[test]
fn not_grounded_on_empty_hit_set() {
    let mut c = basic_controller(v(0, 500), v(0, 0));
    c.grounded = true;
    update_grounded(&mut c, &vec![]);
    assert!(!c.grounded);
}

#[test]
fn grounded_with_no_slope_cap_counts_any_hit() {
    let mut c = basic_controller(v(0, 500), v(0, 0));
    c.max_slope_cos = None;
    let hits = vec![ShapeCastHit { distance: 100, normal: v(866, 500), object_id: 2 }];
    update_grounded(&mut c, &hits);
    assert!(c.grounded);
}

#[test]
fn walk_and_sprint_set_horizontal_velocity() {
    let mut c = basic_controller(v(0, 500), v(0, 0));
    movement(&mut c, &vec![MovementIntent::Walk(1)], false);
    assert_eq!(c.velocity, v(30_000, 0));
    movement(&mut c, &vec![MovementIntent::Sprint(-1)], false);
    assert_eq!(c.velocity, v(-30_000, 0));
}

#[test]
fn intents_apply_in_arrival_order() {
    let mut c = basic_controller(v(0, 500), v(0, 0));
    movement(
        &mut c,
        &vec![MovementIntent::Walk(1), MovementIntent::Walk(-1)],
        false,
    );
    assert_eq!(c.velocity, v(-30_000, 0));
}

#[test]
fn jump_is_unconditional_without_gate() {
    let mut c = basic_controller(v(0, 500), v(0, 0));
    assert!(!c.grounded);
    movement(&mut c, &vec![MovementIntent::Jump], false);
    assert_eq!(c.velocity, v(0, 7_000));
}

#[test]
fn gated_jump_needs_support() {
    let mut c = basic_controller(v(0, 500), v(0, 0));
    movement(&mut c, &vec![MovementIntent::Jump], true);
    assert_eq!(c.velocity, v(0, 0));
    c.grounded = true;
    movement(&mut c, &vec![MovementIntent::Jump], true);
    assert_eq!(c.velocity, v(0, 7_000));
}

#[test]
fn gravity_then_damping_in_order() {
    let mut c = basic_controller(v(0, 500), v(10_000, 0));
    c.gravity = v(0, -981);
    apply_gravity(&mut c);
    assert_eq!(c.velocity, v(10_000, -981));
    apply_damping(&mut c);
    assert_eq!(c.velocity, v(9_000, -981));
}

#[test]
fn damping_affects_only_horizontal_axis() {
    let mut c = basic_controller(v(0, 500), v(-10_000, -5000));
    apply_damping(&mut c);
    assert_eq!(c.velocity, v(-9_000, -5000));
}

#[test]
fn gravity_saturates_at_terminal_speed() {
    let mut c = basic_controller(v(0, 500), v(0, -999_900));
    apply_gravity(&mut c);
    assert_eq!(c.velocity, v(0, -1_000_000));
}

#[test]
fn config_rejects_each_bad_field() {
    let ok = v(0, 0);
    assert_eq!(
        Controller::new(v(1_000_000_001, 0), ok, 15, None, 0, 0, 0, ok, 1).unwrap_err(),
        ConfigError::PositionOutOfRange
    );
    assert_eq!(
        Controller::new(ok, v(0, -1_000_001), 15, None, 0, 0, 0, ok, 1).unwrap_err(),
        ConfigError::VelocityOutOfRange
    );
    assert_eq!(
        Controller::new(ok, ok, 0, None, 0, 0, 0, ok, 1).unwrap_err(),
        ConfigError::RadiusOutOfRange
    );
    assert_eq!(
        Controller::new(ok, ok, 15, Some(1001), 0, 0, 0, ok, 1).unwrap_err(),
        ConfigError::SlopeOutOfRange
    );
    assert_eq!(
        Controller::new(ok, ok, 15, None, -1, 0, 0, ok, 1).unwrap_err(),
        ConfigError::AccelerationOutOfRange
    );
    assert_eq!(
        Controller::new(ok, ok, 15, None, 0, 1001, 0, ok, 1).unwrap_err(),
        ConfigError::DampingOutOfRange
    );
    assert_eq!(
        Controller::new(ok, ok, 15, None, 0, 0, -5, ok, 1).unwrap_err(),
        ConfigError::JumpImpulseOutOfRange
    );
    assert_eq!(
        Controller::new(ok, ok, 15, None, 0, 0, 0, v(0, -1_000_001), 1).unwrap_err(),
        ConfigError::GravityOutOfRange
    );
    assert!(Controller::new(ok, ok, 15, Some(707), 30_000, 900, 7_000, v(0, -1000), 1).is_ok());
}

#[test]
fn singleton_lookup_reports_absence_and_multiplicity() {
    let none: Vec<Controller> = vec![];
    assert_eq!(
        single_controller_index(&none).unwrap_err(),
        ControllerLookupError::Missing
    );
    let one = vec![basic_controller(v(0, 0), v(0, 0))];
    assert_eq!(single_controller_index(&one).unwrap(), 0);
    let two = vec![
        basic_controller(v(0, 0), v(0, 0)),
        basic_controller(v(100, 0), v(0, 0)),
    ];
    assert_eq!(
        single_controller_index(&two).unwrap_err(),
        ControllerLookupError::Multiple
    );
}

#[test]
fn tick_runs_the_full_pipeline() {
    let field = GeometryField::new(vec![floor_at_origin()]);
    let mut c = basic_controller(v(0, 4995), v(0, -50_000));
    let out = tick(&mut c, &field, &vec![], 100, false);
    // Gravity pulls to -51000, the floor 4.98 units below stops the motion
    // one skin width early, and the downward probe grounds the controller.
    assert_eq!(c.velocity, v(0, -51_000));
    assert!(c.grounded);
    assert_eq!(out.displacement, v(0, -4965));
    assert_eq!(c.position, v(0, 30));
    assert_eq!(out.bounces, 1);
}
