//! The simulation world: level setup and the fixed-tick pipeline
//! (paddle controller, then velocity integrator, then collision
//! resolver, with brick removal applied at the end of the tick).

use crate::ball::BallBundle;
use crate::brick::BrickBundle;
use crate::brick::brick_collider;
use crate::geometry::Aabb;
use crate::geometry::Vec2;
use crate::paddle::move_paddle;
use crate::paddle::paddle_collider;
use crate::paddle::paddle_direction;
use crate::paddle::PaddleBundle;
use crate::physics::check_and_handle_collisions;
use crate::physics::apply_velocity;
use crate::physics::despawned;
use crate::physics::remove_despawned;
use crate::physics::resolved;
use crate::physics::surviving;
use crate::physics::Collider;
use crate::physics::Role;
use crate::physics::Velocity;
use crate::wall::wall_collider;
use crate::wall::WallBundle;
use crate::wall::WallLocation;
use crate::BALL_BASE_SPEED;
use crate::PADDLE_SPEED;
use crate::POS_SCALE;
use vstd::prelude::*;

verus! {

/// The complete simulation state: the single ball (position and
/// velocity) and every collidable entity.
pub struct World {
    pub ball_translation: Vec2,
    pub ball_velocity: Velocity,
    pub colliders: Vec<Collider>,
}

/// A collider after the paddle controller has run with direction `dir`:
/// paddles shift horizontally by `dir * PADDLE_SPEED * dt`, everything
/// else stays put.
pub open spec fn paddle_moved(c: Collider, dir: int, dt: int) -> Collider {
    if c.role is Paddle {
        Collider {
            rect: Aabb {
                center: Vec2 {
                    x: (c.rect.center.x + dir * (PADDLE_SPEED * dt)) as i64,
                    y: c.rect.center.y,
                },
                half: c.rect.half,
            },
            role: c.role,
        }
    } else {
        c
    }
}

/// The collider set after the paddle controller has run.
pub open spec fn moved_colliders(cs: Seq<Collider>, dir: int, dt: int) -> Seq<Collider> {
    cs.map_values(|c: Collider| paddle_moved(c, dir, dt))
}

/// A position advanced by `velocity * dt`.
pub open spec fn integrated_translation(p: Vec2, v: Velocity, dt: int) -> Vec2 {
    Vec2 { x: (p.x + v.x * dt) as i64, y: (p.y + v.y * dt) as i64 }
}

/// The brick of the level grid in column `col` (0 to 16) and row `row`
/// (0 to 9): centered at `(-400 + 50 col, 280 - 20 row)` world units,
/// destructible under identity `col * 10 + row`.
pub open spec fn level_brick(col: int, row: int) -> Collider {
    brick_collider(
        Vec2 {
            x: ((-400 + 50 * col) * POS_SCALE) as i64,
            y: ((280 - 20 * row) * POS_SCALE) as i64,
        },
        (col * 10 + row) as u64,
    )
}

impl World {
    /// Every collider's box is well-formed and the ball's velocity can
    /// be negated without leaving `i64`.
    pub open spec fn wf(self) -> bool {
        &&& forall|i: int|
            0 <= i < self.colliders@.len() ==> (#[trigger] self.colliders@[i]).rect.wf()
        &&& i64::MIN < self.ball_velocity.x
        &&& i64::MIN < self.ball_velocity.y
    }

    /// Machine-size bounds under which one tick of duration `dt` cannot
    /// overflow: the ball's next position and the paddle's furthest
    /// possible edges stay representable.
    pub open spec fn tick_fits(self, dt: int) -> bool {
        &&& 0 <= dt
        &&& i64::MIN <= self.ball_translation.x + self.ball_velocity.x * dt
        &&& self.ball_translation.x + self.ball_velocity.x * dt <= i64::MAX
        &&& i64::MIN <= self.ball_translation.y + self.ball_velocity.y * dt
        &&& self.ball_translation.y + self.ball_velocity.y * dt <= i64::MAX
        &&& forall|i: int|
            0 <= i < self.colliders@.len() && (#[trigger] self.colliders@[i]).role is Paddle
                ==> i64::MIN <= self.colliders@[i].rect.center.x - self.colliders@[i].rect.half.x
                - PADDLE_SPEED * dt && self.colliders@[i].rect.center.x
                + self.colliders@[i].rect.half.x + PADDLE_SPEED * dt <= i64::MAX
    }

    /// Runs one fixed simulation tick, in order: the paddle controller,
    /// the velocity integrator on the ball, and the collision resolver,
    /// whose brick removals are applied at the end of the tick.
    pub fn tick(&mut self, left_pressed: bool, right_pressed: bool, dt_micros: i64)
        requires
            old(self).wf(),
            old(self).tick_fits(dt_micros as int),
        ensures
            ({
                let dir = paddle_direction(left_pressed, right_pressed);
                let moved = moved_colliders(old(self).colliders@, dir, dt_micros as int);
                let pos = integrated_translation(
                    old(self).ball_translation,
                    old(self).ball_velocity,
                    dt_micros as int,
                );
                &&& final(self).ball_translation == pos
                &&& (final(self).ball_velocity.x as int, final(self).ball_velocity.y as int)
                    == resolved(
                    (old(self).ball_velocity.x as int, old(self).ball_velocity.y as int),
                    moved,
                    pos,
                )
                &&& final(self).colliders@ == surviving(moved, despawned(moved, pos))
                &&& final(self).wf()
            }),
    {
        let ghost dir = paddle_direction(left_pressed, right_pressed);
        let ghost old_cs = self.colliders@;

        let mut moved: Vec<Collider> = Vec::new();
        let mut i: usize = 0;
        while i < self.colliders.len()
            invariant
                0 <= i <= self.colliders@.len(),
                *self == *old(self),
                old(self).wf(),
                old(self).tick_fits(dt_micros as int),
                old_cs == old(self).colliders@,
                dir == paddle_direction(left_pressed, right_pressed),
                moved@.len() == i as int,
                forall|k: int|
                    0 <= k < i ==> moved@[k] == paddle_moved(old_cs[k], dir, dt_micros as int),
                forall|k: int| 0 <= k < i ==> (#[trigger] moved@[k]).rect.wf(),
            decreases self.colliders@.len() - i,
        {
            let c = self.colliders[i];
            let is_paddle = match c.role {
                Role::Paddle => true,
                _ => false,
            };
            if is_paddle {
                let mut x = c.rect.center.x;
                move_paddle(&mut x, left_pressed, right_pressed, dt_micros);
                proof {
                    assert(-(PADDLE_SPEED * dt_micros) <= dir * (PADDLE_SPEED * dt_micros)
                        <= PADDLE_SPEED * dt_micros) by (nonlinear_arith)
                        requires
                            -1 <= dir <= 1,
                            0 <= PADDLE_SPEED * dt_micros,
                    ;
                }
                let nc = Collider {
                    rect: Aabb { center: Vec2 { x, y: c.rect.center.y }, half: c.rect.half },
                    role: c.role,
                };
                moved.push(nc);
            } else {
                moved.push(c);
            }
            i = i + 1;
        }
        proof {
            assert(moved@ =~= moved_colliders(old_cs, dir, dt_micros as int));
        }
        self.colliders = moved;

        let vel = self.ball_velocity;
        apply_velocity(&mut self.ball_translation, &vel, dt_micros);

        let despawn = check_and_handle_collisions(
            &mut self.ball_velocity,
            self.ball_translation,
            &self.colliders,
        );
        remove_despawned(&mut self.colliders, &despawn);
        proof {
            lemma_surviving_wf(
                moved_colliders(old_cs, dir, dt_micros as int),
                despawn@,
                moved_colliders(old_cs, dir, dt_micros as int).len() as int,
            );
        }
    }
}

/// Colliders that survive brick removal keep their well-formed boxes.
proof fn lemma_surviving_wf(cs: Seq<Collider>, ids: Seq<u64>, n: int)
    requires
        n <= cs.len(),
        forall|i: int| 0 <= i < cs.len() ==> (#[trigger] cs[i]).rect.wf(),
    ensures
        forall|j: int|
            0 <= j < crate::physics::surviving_prefix(cs, ids, n).len() ==> (
            #[trigger] crate::physics::surviving_prefix(cs, ids, n)[j]).rect.wf(),
    decreases n,
{
    if n > 0 {
        lemma_surviving_wf(cs, ids, n - 1);
        let pre = crate::physics::surviving_prefix(cs, ids, n - 1);
        let cur = crate::physics::surviving_prefix(cs, ids, n);
        assert forall|j: int| 0 <= j < cur.len() implies cur[j].rect.wf() by {
            if crate::physics::survives(cs[n - 1], ids) {
                if j < pre.len() {
                    assert(cur[j] == pre[j]);
                } else {
                    assert(cur[j] == cs[n - 1]);
                }
            } else {
                assert(cur == pre);
            }
        }
    }
}

/// Builds the level exactly as the game starts: the three walls, the
/// paddle, the ball falling from (0, 100), and a 17 by 10 grid of
/// bricks.
pub fn setup() -> (w: World)
    ensures
        w.wf(),
        w.ball_translation.x == 0,
        w.ball_translation.y == 100 * POS_SCALE,
        w.ball_velocity.x == 0,
        w.ball_velocity.y == -BALL_BASE_SPEED,
        w.colliders@.len() == 174,
        w.colliders@[0] == wall_collider(WallLocation::Left),
        w.colliders@[1] == wall_collider(WallLocation::Top),
        w.colliders@[2] == wall_collider(WallLocation::Right),
        w.colliders@[3] == paddle_collider(),
        forall|col: int, row: int|
            0 <= col < 17 && 0 <= row < 10 ==> w.colliders@[4 + col * 10 + row] == level_brick(
                col,
                row,
            ),
{
    let mut colliders: Vec<Collider> = Vec::new();
    colliders.push(WallBundle::new(WallLocation::Left).collider);
    colliders.push(WallBundle::new(WallLocation::Top).collider);
    colliders.push(WallBundle::new(WallLocation::Right).collider);
    colliders.push(PaddleBundle::new().collider);

    let mut col: usize = 0;
    while col < 17
        invariant
            0 <= col <= 17,
            colliders@.len() == 4 + col * 10,
            colliders@[0] == wall_collider(WallLocation::Left),
            colliders@[1] == wall_collider(WallLocation::Top),
            colliders@[2] == wall_collider(WallLocation::Right),
            colliders@[3] == paddle_collider(),
            forall|c2: int, r2: int|
                0 <= c2 < col && 0 <= r2 < 10 ==> colliders@[4 + c2 * 10 + r2] == level_brick(
                    c2,
                    r2,
                ),
            forall|i: int| 0 <= i < colliders@.len() ==> (#[trigger] colliders@[i]).rect.wf(),
        decreases 17 - col,
    {
        let mut row: usize = 0;
        while row < 10
            invariant
                0 <= col < 17,
                0 <= row <= 10,
                colliders@.len() == 4 + col * 10 + row,
                colliders@[0] == wall_collider(WallLocation::Left),
                colliders@[1] == wall_collider(WallLocation::Top),
                colliders@[2] == wall_collider(WallLocation::Right),
                colliders@[3] == paddle_collider(),
                forall|c2: int, r2: int|
                    0 <= c2 < col && 0 <= r2 < 10 ==> colliders@[4 + c2 * 10 + r2] == level_brick(
                        c2,
                        r2,
                    ),
                forall|r2: int|
                    0 <= r2 < row ==> colliders@[4 + col * 10 + r2] == level_brick(
                        col as int,
                        r2,
                    ),
                forall|i: int| 0 <= i < colliders@.len() ==> (#[trigger] colliders@[i]).rect.wf(),
            decreases 10 - row,
        {
            let xc: i64 = (-400 + 50 * (col as i64)) * POS_SCALE;
            let yc: i64 = (280 - 20 * (row as i64)) * POS_SCALE;
            let id: u64 = (col as u64) * 10 + (row as u64);
            let b = BrickBundle::new(Vec2 { x: xc, y: yc }, id);
            colliders.push(b.collider);
            row = row + 1;
        }
        col = col + 1;
    }

    let ball = BallBundle::new();
    World { ball_translation: ball.translation, ball_velocity: ball.velocity, colliders }
}

} // verus!
