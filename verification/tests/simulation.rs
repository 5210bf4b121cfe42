// Component-level checks: integrator, collision classification, wall
// bounces, paddle deflection, brick despawning.

use oxide_pong::geometry::{clamp, closest_point, overlaps, Aabb, Vec2};
use oxide_pong::paddle::move_paddle;
use oxide_pong::physics::{
    apply_velocity, ball_collision, check_and_handle_collisions, paddle_bounce, remove_despawned,
    Collider, Collision, Role, Velocity,
};
use oxide_pong::trig::sine_times;
use oxide_pong::{BALL_BASE_SPEED, BALL_RADIUS, PADDLE_SPEED, POS_SCALE};

const TICK_MICROS: i64 = 2_000; // 500 Hz fixed step

fn units(u: i64) -> i64 {
    u * POS_SCALE
}

fn aabb(cx: i64, cy: i64, hx: i64, hy: i64) -> Aabb {
    Aabb {
        center: Vec2 { x: cx, y: cy },
        half: Vec2 { x: hx, y: hy },
    }
}

#[test]
fn integrator_advances_by_velocity_times_dt() {
    let mut p = Vec2 { x: 0, y: 0 };
    let v = Velocity::new(0, -400_000);
    apply_velocity(&mut p, &v, TICK_MICROS);
    assert_eq!(p.x, 0);
    assert_eq!(p.y, -800_000_000); // -0.8 world units
}

#[test]
fn integrator_is_linear_in_dt() {
    let v = Velocity::new(123_456, -654_321);
    let mut many = Vec2 { x: 777, y: -888 };
    for _ in 0..5 {
        apply_velocity(&mut many, &v, TICK_MICROS);
    }
    let mut once = Vec2 { x: 777, y: -888 };
    apply_velocity(&mut once, &v, 5 * TICK_MICROS);
    assert_eq!(many, once);
}

#[test]
fn clamp_picks_closest_point_of_interval() {
    assert_eq!(clamp(-5, 0, 10), 0);
    assert_eq!(clamp(15, 0, 10), 10);
    assert_eq!(clamp(7, 0, 10), 7);
}

#[test]
fn closest_point_clamps_into_box() {
    let b = aabb(0, 0, units(10), units(5));
    let c = closest_point(&b, Vec2 { x: units(12), y: units(-7) });
    assert_eq!(c, Vec2 { x: units(10), y: units(-5) });
    let inside = closest_point(&b, Vec2 { x: units(3), y: units(-2) });
    assert_eq!(inside, Vec2 { x: units(3), y: units(-2) });
}

#[test]
fn overlap_holds_exactly_at_the_radius() {
    let b = aabb(0, 0, units(10), units(5));
    // Distance from the right face: exactly one radius.
    assert!(overlaps(&b, Vec2 { x: units(11), y: 0 }, BALL_RADIUS));
    // One subunit further: no contact.
    assert!(!overlaps(&b, Vec2 { x: units(11) + 1, y: 0 }, BALL_RADIUS));
}

#[test]
fn collision_sides_are_classified_by_largest_offset() {
    let b = aabb(0, 0, units(10), units(5));
    let r = BALL_RADIUS;
    let half = POS_SCALE / 2;
    assert_eq!(ball_collision(Vec2 { x: units(-10) - half, y: 0 }, r, &b), Some(Collision::Left));
    assert_eq!(ball_collision(Vec2 { x: units(10) + half, y: 0 }, r, &b), Some(Collision::Right));
    assert_eq!(ball_collision(Vec2 { x: 0, y: units(5) + half }, r, &b), Some(Collision::Top));
    assert_eq!(ball_collision(Vec2 { x: 0, y: units(-5) - half }, r, &b), Some(Collision::Bottom));
    assert_eq!(ball_collision(Vec2 { x: units(12), y: 0 }, r, &b), None);
}

#[test]
fn collision_tie_breaks_favor_vertical_sides() {
    let b = aabb(0, 0, units(10), units(5));
    // Ball center exactly on the box: zero offset classifies as Bottom.
    assert_eq!(
        ball_collision(Vec2 { x: 0, y: 0 }, BALL_RADIUS, &b),
        Some(Collision::Bottom)
    );
    // Equal horizontal and vertical offsets at a corner: Top wins over
    // Left/Right because the comparison is strict.
    assert_eq!(
        ball_collision(Vec2 { x: units(10) + POS_SCALE / 2, y: units(5) + POS_SCALE / 2 }, BALL_RADIUS, &b),
        Some(Collision::Top)
    );
}

#[test]
fn wall_bounce_inverts_only_the_component_into_the_wall() {
    // Right-side contact, ball moving left: vx inverts, vy untouched.
    let wall = Collider { rect: aabb(0, 0, units(2), units(10)), role: Role::Plain };
    let colliders = vec![wall];
    let mut v = Velocity::new(-300_000, 123_456);
    let despawn =
        check_and_handle_collisions(&mut v, Vec2 { x: units(2) + POS_SCALE / 2, y: 0 }, &colliders);
    assert_eq!(v, Velocity::new(300_000, 123_456));
    assert!(despawn.is_empty());
}

#[test]
fn no_double_bounce_when_moving_away() {
    let wall = Collider { rect: aabb(0, 0, units(2), units(10)), role: Role::Plain };
    let colliders = vec![wall];
    let mut v = Velocity::new(300_000, 123_456);
    let despawn =
        check_and_handle_collisions(&mut v, Vec2 { x: units(2) + POS_SCALE / 2, y: 0 }, &colliders);
    assert_eq!(v, Velocity::new(300_000, 123_456));
    assert!(despawn.is_empty());
}

#[test]
fn resolver_without_contact_changes_nothing() {
    let colliders = vec![
        Collider { rect: aabb(0, 0, units(2), units(10)), role: Role::Plain },
        Collider { rect: aabb(units(100), 0, units(25), units(10)), role: Role::Destructible(5) },
    ];
    let mut v = Velocity::new(111, -222);
    let despawn = check_and_handle_collisions(&mut v, Vec2 { x: units(50), y: units(50) }, &colliders);
    assert_eq!(v, Velocity::new(111, -222));
    assert!(despawn.is_empty());
    let mut kept = colliders.clone();
    remove_despawned(&mut kept, &despawn);
    assert_eq!(kept, colliders);
}

#[test]
fn brick_contact_despawns_and_bounces() {
    let brick = Collider { rect: aabb(0, 0, units(25), units(10)), role: Role::Destructible(7) };
    let mut colliders = vec![brick];
    let mut v = Velocity::new(0, -400_000);
    // Ball just above the brick's top face, falling into it.
    let despawn = check_and_handle_collisions(
        &mut v,
        Vec2 { x: 0, y: units(10) + POS_SCALE / 2 },
        &colliders,
    );
    assert_eq!(v, Velocity::new(0, 400_000));
    assert_eq!(despawn, vec![7u64]);
    remove_despawned(&mut colliders, &despawn);
    assert!(colliders.is_empty());
}

#[test]
fn paddle_center_hit_goes_straight_up_at_base_speed() {
    let paddle = aabb(0, units(-300), units(64), units(16));
    let v = paddle_bounce(&paddle, Vec2 { x: 0, y: units(-284) + POS_SCALE / 2 });
    assert_eq!(v, Velocity::new(0, BALL_BASE_SPEED));
}

#[test]
fn paddle_ignores_incoming_velocity_and_resets_speed() {
    let paddle = Collider { rect: aabb(0, units(-300), units(64), units(16)), role: Role::Paddle };
    let colliders = vec![paddle];
    let mut v = Velocity::new(999, 999);
    let despawn = check_and_handle_collisions(
        &mut v,
        Vec2 { x: 0, y: units(-284) + POS_SCALE / 2 },
        &colliders,
    );
    assert_eq!(v, Velocity::new(0, BALL_BASE_SPEED));
    assert!(despawn.is_empty());
}

#[test]
fn paddle_edge_hits_deflect_sixty_degrees() {
    let paddle = aabb(0, units(-300), units(64), units(16));
    // Far left edge: up and to the left; vertical component exactly
    // half the base speed; horizontal the base speed's sine of sixty
    // degrees.
    let left = paddle_bounce(&paddle, Vec2 { x: units(-64) - POS_SCALE / 10, y: units(-300) });
    assert_eq!(left, Velocity::new(-345_945, BALL_BASE_SPEED / 2));
    // Far right edge: the exact mirror image.
    let right = paddle_bounce(&paddle, Vec2 { x: units(64) + POS_SCALE / 10, y: units(-300) });
    assert_eq!(right, Velocity::new(345_945, BALL_BASE_SPEED / 2));
}

#[test]
fn paddle_quarter_hit_deflects_thirty_degrees() {
    let paddle = aabb(0, units(-300), units(64), units(16));
    // Halfway between the left edge and the center: a thirty-degree
    // deflection, with the thirty/sixty-degree components swapped.
    let v = paddle_bounce(&paddle, Vec2 { x: units(-32), y: units(-284) + POS_SCALE / 2 });
    assert_eq!(v, Velocity::new(-200_000, 345_945));
}

#[test]
fn sine_is_exact_at_the_anchor_angles() {
    assert_eq!(sine_times(BALL_BASE_SPEED, 0), 0);
    assert_eq!(sine_times(BALL_BASE_SPEED, 30_000), BALL_BASE_SPEED / 2);
    assert_eq!(sine_times(BALL_BASE_SPEED, 90_000), BALL_BASE_SPEED);
    assert_eq!(sine_times(BALL_BASE_SPEED, 150_000), BALL_BASE_SPEED / 2);
    assert_eq!(sine_times(BALL_BASE_SPEED, 180_000), 0);
    assert_eq!(sine_times(BALL_BASE_SPEED, 60_000), 345_945);
}

#[test]
fn paddle_controller_direction_rules() {
    let dt = TICK_MICROS;
    let step = PADDLE_SPEED * dt; // 1 world unit per tick

    let mut x: i64 = 0;
    move_paddle(&mut x, false, true, dt);
    assert_eq!(x, step);

    let mut x: i64 = 0;
    move_paddle(&mut x, true, false, dt);
    assert_eq!(x, -step);

    let mut x: i64 = 0;
    move_paddle(&mut x, true, true, dt);
    assert_eq!(x, 0);

    let mut x: i64 = 0;
    move_paddle(&mut x, false, false, dt);
    assert_eq!(x, 0);
}

#[test]
fn scenario_falling_ball_bounces_off_horizontal_wall() {
    // Ball at the origin falling at 400 units/s towards a 900 x 4 wall
    // centered at (0, -300): after enough ticks to overlap, the contact
    // is classified on the wall's upper face and the vertical velocity
    // inverts to +400 units/s with the horizontal untouched.
    let wall = Collider { rect: aabb(0, units(-300), units(450), units(2)), role: Role::Plain };
    let colliders = vec![wall];
    let mut p = Vec2 { x: 0, y: 0 };
    let mut v = Velocity::new(0, -400_000);
    let mut bounced_at: Option<u32> = None;
    for tick in 1..=400u32 {
        apply_velocity(&mut p, &v, TICK_MICROS);
        let despawn = check_and_handle_collisions(&mut v, p, &colliders);
        assert!(despawn.is_empty());
        if v.y > 0 {
            bounced_at = Some(tick);
            break;
        }
    }
    // First overlap: wall's top face is at -298, so contact needs
    // y <= -297, reached at tick 372 (y = -297.6).
    assert_eq!(bounced_at, Some(372));
    assert_eq!(p.y, -297_600_000_000);
    assert_eq!(v, Velocity::new(0, 400_000));
    assert_eq!(
        ball_collision(p, BALL_RADIUS, &colliders[0].rect),
        Some(Collision::Top)
    );
}
