// Level-setup and whole-tick pipeline checks.

use oxide_pong::ball::BallBundle;
use oxide_pong::brick::BrickBundle;
use oxide_pong::geometry::Vec2;
use oxide_pong::paddle::PaddleBundle;
use oxide_pong::physics::{Role, Velocity};
use oxide_pong::wall::{WallBundle, WallLocation, LEFT_WALL, RIGHT_WALL, TOP_WALL, WALL_THICKNESS};
use oxide_pong::world::setup;
use oxide_pong::{BALL_BASE_SPEED, POS_SCALE};

const TICK_MICROS: i64 = 2_000; // 500 Hz fixed step

#[test]
fn wall_locations_and_sizes() {
    let left = WallLocation::Left;
    assert_eq!(left.position(), Vec2 { x: LEFT_WALL, y: 0 });
    assert_eq!(left.size(), Vec2 { x: WALL_THICKNESS, y: 604 * POS_SCALE });
    let top = WallLocation::Top;
    assert_eq!(top.position(), Vec2 { x: 0, y: TOP_WALL });
    assert_eq!(top.size(), Vec2 { x: 904 * POS_SCALE, y: WALL_THICKNESS });
    let right = WallLocation::Right;
    assert_eq!(right.position(), Vec2 { x: RIGHT_WALL, y: 0 });
    assert_eq!(right.size(), Vec2 { x: WALL_THICKNESS, y: 604 * POS_SCALE });
}

#[test]
fn bundles_carry_the_level_constants() {
    let wall = WallBundle::new(WallLocation::Left);
    assert_eq!(wall.collider.role, Role::Plain);
    assert_eq!(wall.collider.rect.center, Vec2 { x: LEFT_WALL, y: 0 });
    assert_eq!(wall.collider.rect.half, Vec2 { x: 2 * POS_SCALE, y: 302 * POS_SCALE });

    let paddle = PaddleBundle::new();
    assert_eq!(paddle.collider.role, Role::Paddle);
    assert_eq!(paddle.translation, Vec2 { x: 0, y: -300 * POS_SCALE });
    assert_eq!(paddle.collider.rect.half, Vec2 { x: 64 * POS_SCALE, y: 16 * POS_SCALE });

    let ball = BallBundle::new();
    assert_eq!(ball.translation, Vec2 { x: 0, y: 100 * POS_SCALE });
    assert_eq!(ball.velocity, Velocity::new(0, -BALL_BASE_SPEED));

    let brick = BrickBundle::new(Vec2 { x: 0, y: 0 }, 42);
    assert_eq!(brick.collider.role, Role::Destructible(42));
    assert_eq!(brick.collider.rect.half, Vec2 { x: 25 * POS_SCALE, y: 10 * POS_SCALE });
}

#[test]
fn setup_builds_the_full_level() {
    let w = setup();
    assert_eq!(w.ball_translation, Vec2 { x: 0, y: 100 * POS_SCALE });
    assert_eq!(w.ball_velocity, Velocity::new(0, -BALL_BASE_SPEED));
    // Three walls, the paddle, and a 17 x 10 brick grid.
    assert_eq!(w.colliders.len(), 174);
    assert_eq!(w.colliders[0].role, Role::Plain);
    assert_eq!(w.colliders[1].role, Role::Plain);
    assert_eq!(w.colliders[2].role, Role::Plain);
    assert_eq!(w.colliders[3].role, Role::Paddle);
    // First brick: top-left corner of the grid.
    assert_eq!(w.colliders[4].role, Role::Destructible(0));
    assert_eq!(
        w.colliders[4].rect.center,
        Vec2 { x: -400 * POS_SCALE, y: 280 * POS_SCALE }
    );
    // Last brick: bottom-right corner of the grid.
    assert_eq!(w.colliders[173].role, Role::Destructible(169));
    assert_eq!(
        w.colliders[173].rect.center,
        Vec2 { x: 400 * POS_SCALE, y: 100 * POS_SCALE }
    );
}

#[test]
fn tick_moves_the_paddle_with_the_input() {
    let mut w = setup();
    let before = w.colliders[3].rect.center;
    w.tick(false, true, TICK_MICROS);
    // 500 units/s for 2 ms: one world unit to the right.
    assert_eq!(w.colliders[3].rect.center.x, before.x + POS_SCALE);
    assert_eq!(w.colliders[3].rect.center.y, before.y);
    w.tick(true, false, TICK_MICROS);
    assert_eq!(w.colliders[3].rect.center.x, before.x);
    // Both keys cancel.
    w.tick(true, true, TICK_MICROS);
    assert_eq!(w.colliders[3].rect.center.x, before.x);
}

#[test]
fn first_tick_destroys_the_brick_the_ball_starts_in() {
    // The ball spawns at (0, 100), inside the grid's bottom-center
    // brick; its zero offset classifies as Bottom, and the ball is
    // falling, so the velocity is untouched but the brick goes.
    let mut w = setup();
    w.tick(false, false, TICK_MICROS);
    assert_eq!(w.colliders.len(), 173);
    assert!(w
        .colliders
        .iter()
        .all(|c| c.role != Role::Destructible(89)));
    assert_eq!(w.ball_velocity, Velocity::new(0, -BALL_BASE_SPEED));
    assert_eq!(w.ball_translation.y, 100 * POS_SCALE - 800_000_000);
}

#[test]
fn falling_ball_reaches_the_paddle_and_bounces_straight_up() {
    let mut w = setup();
    // From (0, 100) at -400 units/s the ball first touches the paddle's
    // top face (y = -284, radius 1) at tick 479 (y = -283.2).
    for _ in 0..479 {
        w.tick(false, false, TICK_MICROS);
    }
    assert_eq!(w.ball_translation.y, -283_200_000_000);
    // Center hit: straight up at the base speed.
    assert_eq!(w.ball_velocity, Velocity::new(0, BALL_BASE_SPEED));
    // Only the spawn brick was destroyed on the way down.
    assert_eq!(w.colliders.len(), 173);
}

#[test]
fn ball_bounces_off_the_right_arena_wall() {
    // Drive the ball rightwards through the real level: only the
    // horizontal component inverts at the wall, the drift is kept.
    let mut w = setup();
    w.ball_translation = Vec2 { x: 440 * POS_SCALE, y: -100 * POS_SCALE };
    w.ball_velocity = Velocity::new(400_000, 50_000);
    // The right wall's inner face is at x = 448; contact (radius 1)
    // needs x >= 447, reached at tick 9 (x = 447.2).
    for _ in 0..9 {
        w.tick(false, false, TICK_MICROS);
    }
    assert_eq!(w.ball_translation.x, 447_200_000_000);
    assert_eq!(w.ball_velocity, Velocity::new(-400_000, 50_000));
    assert_eq!(w.colliders.len(), 174);
}
