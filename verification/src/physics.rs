//! The per-tick physics: the velocity integrator, the circle-versus-box
//! collision test with side classification, the paddle's angle-based
//! deflection, and the collision resolver that drives them.

use crate::geometry::Aabb;
use crate::geometry::Vec2;
use crate::geometry::circle_box_overlap;
use crate::geometry::clamp;
use crate::geometry::closest_point;
use crate::geometry::closest_x_spec;
use crate::geometry::closest_y_spec;
use crate::geometry::overlaps;
use crate::trig::sine_scaled;
use crate::trig::sine_times;
use crate::trig::lemma_sine_scaled_bounds;
use crate::BALL_BASE_SPEED;
use crate::BALL_RADIUS;
use vstd::arithmetic::div_mod::lemma_div_is_ordered;
use vstd::arithmetic::div_mod::lemma_div_multiples_vanish;
use vstd::arithmetic::div_mod::lemma_div_pos_is_pos;
use vstd::arithmetic::mul::lemma_mul_inequality;
use vstd::prelude::*;

verus! {

/// A moving body's velocity, in velocity subunits per second
/// (`crate::VEL_SCALE` per world unit).
#[derive(Clone, Copy, PartialEq, Eq, Structural, Debug)]
pub struct Velocity {
    pub x: i64,
    pub y: i64,
}

impl Velocity {
    pub fn new(x: i64, y: i64) -> (v: Velocity)
        ensures
            v.x == x,
            v.y == y,
    {
        Velocity { x, y }
    }
}

/// What a collider means to the resolver: a plain wall, the paddle, or
/// a destructible brick carrying the identity under which it is removed.
#[derive(Clone, Copy, PartialEq, Eq, Structural, Debug)]
pub enum Role {
    Plain,
    Paddle,
    Destructible(u64),
}

/// A collidable entity: an axis-aligned box and its role.
#[derive(Clone, Copy, PartialEq, Eq, Structural, Debug)]
pub struct Collider {
    pub rect: Aabb,
    pub role: Role,
}

/// The side of a box on which the ball made contact.
#[derive(Clone, Copy, PartialEq, Eq, Structural, Debug)]
pub enum Collision {
    Left,
    Right,
    Top,
    Bottom,
}

/// Advances a position by `velocity * dt`.  Exact: one position subunit
/// is one velocity subunit times one microsecond.
pub fn apply_velocity(translation: &mut Vec2, velocity: &Velocity, dt_micros: i64)
    requires
        0 <= dt_micros,
        i64::MIN <= old(translation).x + velocity.x * dt_micros <= i64::MAX,
        i64::MIN <= old(translation).y + velocity.y * dt_micros <= i64::MAX,
    ensures
        final(translation).x == old(translation).x + velocity.x * dt_micros,
        final(translation).y == old(translation).y + velocity.y * dt_micros,
{
    proof {
        lemma_product_in_i128(velocity.x as int, dt_micros as int);
        lemma_product_in_i128(velocity.y as int, dt_micros as int);
    }
    let nx: i128 = translation.x as i128 + (velocity.x as i128) * (dt_micros as i128);
    let ny: i128 = translation.y as i128 + (velocity.y as i128) * (dt_micros as i128);
    translation.x = nx as i64;
    translation.y = ny as i64;
}

/// The product of two `i64`-range factors fits comfortably in `i128`.
pub(crate) proof fn lemma_product_in_i128(a: int, b: int)
    requires
        i64::MIN <= a <= i64::MAX,
        i64::MIN <= b <= i64::MAX,
    ensures
        -0x4000_0000_0000_0000_0000_0000_0000_0000 <= a * b,
        a * b <= 0x4000_0000_0000_0000_0000_0000_0000_0000,
{
    assert(-0x4000_0000_0000_0000_0000_0000_0000_0000 <= a * b
        <= 0x4000_0000_0000_0000_0000_0000_0000_0000) by (nonlinear_arith)
        requires
            -0x8000_0000_0000_0000 <= a <= 0x7fff_ffff_ffff_ffff,
            -0x8000_0000_0000_0000 <= b <= 0x7fff_ffff_ffff_ffff,
    ;
}

/// Magnitude of an integer.
pub open spec fn mag(v: int) -> int {
    if v < 0 {
        -v
    } else {
        v
    }
}

/// Side classification from the offset `ball center - closest point`:
/// a strictly wider horizontal offset makes it a Left/Right contact,
/// everything else (ties included) a Top/Bottom contact.
pub open spec fn side_spec(ox: int, oy: int) -> Collision {
    if mag(ox) > mag(oy) {
        if ox < 0 {
            Collision::Left
        } else {
            Collision::Right
        }
    } else if oy > 0 {
        Collision::Top
    } else {
        Collision::Bottom
    }
}

/// The side of box `b` the ball centered at `p` is in contact with.
pub open spec fn contact_side(b: Aabb, p: Vec2) -> Collision {
    side_spec(p.x - closest_x_spec(b, p), p.y - closest_y_spec(b, p))
}

pub open spec fn ball_collision_spec(b: Aabb, p: Vec2, radius: int) -> Option<Collision> {
    if circle_box_overlap(b, p, radius) {
        Some(contact_side(b, p))
    } else {
        None
    }
}

/// Tests the ball's bounding circle against a box: `None` when they do
/// not touch, otherwise the classified contact side.
pub fn ball_collision(ball_center: Vec2, radius: i64, bounding_box: &Aabb) -> (r: Option<
    Collision,
>)
    requires
        bounding_box.wf(),
        0 <= radius,
    ensures
        r == ball_collision_spec(*bounding_box, ball_center, radius as int),
{
    if !overlaps(bounding_box, ball_center, radius) {
        return None;
    }
    let c = closest_point(bounding_box, ball_center);
    let ox: i128 = ball_center.x as i128 - c.x as i128;
    let oy: i128 = ball_center.y as i128 - c.y as i128;
    let ax: i128 = if ox < 0 { -ox } else { ox };
    let ay: i128 = if oy < 0 { -oy } else { oy };
    let side = if ax > ay {
        if ox < 0 {
            Collision::Left
        } else {
            Collision::Right
        }
    } else if oy > 0 {
        Collision::Top
    } else {
        Collision::Bottom
    };
    Some(side)
}

/// The paddle deflection angle, in milli-degrees relative to straight
/// up: where the closest point sits across the paddle's full width,
/// mapped linearly so the far left edge gives -60 degrees, the center
/// 0, and the far right edge +60.
pub open spec fn deflect_angle(b: Aabb, p: Vec2) -> int {
    let rel = closest_x_spec(b, p) - (b.center.x - b.half.x);
    let width = 2 * b.half.x;
    120_000 * rel / width - 60_000
}

/// Horizontal component of the velocity a paddle bounce sets: the base
/// speed times the sine of the deflection angle, signed.
pub open spec fn paddle_bounce_x(b: Aabb, p: Vec2) -> int {
    let a = deflect_angle(b, p);
    if a < 0 {
        -sine_scaled(BALL_BASE_SPEED as int, -a)
    } else {
        sine_scaled(BALL_BASE_SPEED as int, a)
    }
}

/// Vertical component of the velocity a paddle bounce sets: the base
/// speed times the cosine of the deflection angle, always upward.
pub open spec fn paddle_bounce_y(b: Aabb, p: Vec2) -> int {
    sine_scaled(BALL_BASE_SPEED as int, 90_000 - mag(deflect_angle(b, p)))
}

/// The deflection angle stays within sixty degrees of vertical.
pub proof fn lemma_deflect_angle_bounds(b: Aabb, p: Vec2)
    requires
        b.wf(),
    ensures
        -60_000 <= deflect_angle(b, p) <= 60_000,
{
    let rel = closest_x_spec(b, p) - (b.center.x - b.half.x);
    let width = 2 * b.half.x;
    assert(0 <= rel <= width);
    lemma_mul_inequality(0, rel, 120_000);
    assert(120_000 * 0 == 0 && 0 * 120_000 == 0);
    lemma_div_pos_is_pos(120_000 * rel, width);
    lemma_mul_inequality(rel, width, 120_000);
    assert(120_000 * width == width * 120_000) by (nonlinear_arith);
    lemma_div_is_ordered(120_000 * rel, width * 120_000, width);
    lemma_div_multiples_vanish(120_000, width);
}

/// A paddle hit replaces the ball's velocity outright: direction from
/// the deflection angle, magnitude reset to the base speed.
pub fn paddle_bounce(paddle_box: &Aabb, ball_center: Vec2) -> (v: Velocity)
    requires
        paddle_box.wf(),
    ensures
        v.x == paddle_bounce_x(*paddle_box, ball_center),
        v.y == paddle_bounce_y(*paddle_box, ball_center),
{
    let min_x = paddle_box.min_x();
    let max_x = paddle_box.max_x();
    let cx = clamp(ball_center.x, min_x, max_x);
    let rel_i: i128 = cx as i128 - min_x as i128;
    let width_i: i128 = 2 * (paddle_box.half.x as i128);
    proof {
        assert(0 <= rel_i <= width_i);
        let rel = rel_i as int;
        let width = width_i as int;
        assert((120_000 * rel as int) < 0x1_0000_0000_0000_0000_0000_0000) by (nonlinear_arith)
            requires
                0 <= rel < 0x2_0000_0000_0000_0000,
        ;
        lemma_mul_inequality(rel, width, 120_000);
        assert(120_000 * width == width * 120_000) by (nonlinear_arith);
        lemma_div_is_ordered(120_000 * rel, width * 120_000, width);
        lemma_div_multiples_vanish(120_000, width);
        lemma_mul_inequality(0, rel, 120_000);
        assert(120_000 * 0 == 0 && 0 * 120_000 == 0);
        lemma_div_pos_is_pos(120_000 * rel, width);
    }
    let rel: u128 = rel_i as u128;
    let width: u128 = width_i as u128;
    let q: u128 = 120_000 * rel / width;
    let a: i64 = (q as i64) - 60_000;
    let abs_a: i64 = if a < 0 { -a } else { a };
    let vy = sine_times(BALL_BASE_SPEED, 90_000 - abs_a);
    let vx = if a < 0 {
        -sine_times(BALL_BASE_SPEED, -a)
    } else {
        sine_times(BALL_BASE_SPEED, a)
    };
    Velocity { x: vx, y: vy }
}

/// Every paddle bounce sends the ball upward at no less than half the
/// base speed, and neither component exceeds the base speed.
pub proof fn lemma_paddle_bounce_bounds(b: Aabb, p: Vec2)
    requires
        b.wf(),
    ensures
        -BALL_BASE_SPEED <= paddle_bounce_x(b, p) <= BALL_BASE_SPEED,
        BALL_BASE_SPEED / 2 <= paddle_bounce_y(b, p) <= BALL_BASE_SPEED,
{
    lemma_deflect_angle_bounds(b, p);
    let a = deflect_angle(b, p);
    lemma_sine_scaled_bounds(BALL_BASE_SPEED as int, mag(a));
    let m = 90_000 - mag(a);
    lemma_sine_scaled_bounds(BALL_BASE_SPEED as int, m);
    crate::trig::lemma_sine_profile_bounds(m);
    let profile = crate::trig::sine_profile(m);
    assert(profile >= 4_500_000_000) by (nonlinear_arith)
        requires
            30_000 <= m <= 90_000,
            profile == m * (180_000 - m),
    ;
    let num = crate::trig::sine_num(m);
    let den = crate::trig::sine_den(m);
    assert(200_000 * den <= 400_000 * num) by (nonlinear_arith)
        requires
            profile >= 4_500_000_000,
            num == 4 * profile,
            den == 40_500_000_000 - profile,
    ;
    lemma_div_is_ordered(den * 200_000, 400_000 * num, den);
    lemma_div_multiples_vanish(200_000, den);
}

/// Whether the ball (fixed radius) touches collider `c`.
pub open spec fn ball_overlaps(c: Collider, p: Vec2) -> bool {
    circle_box_overlap(c.rect, p, BALL_RADIUS as int)
}

/// The effect of a single collider on the ball's velocity: no contact
/// leaves it alone; the paddle replaces it by the angle rule; a wall or
/// brick inverts the component consistent with the contact side, and
/// only when the ball is moving into the box.
pub open spec fn resolve_step(v: (int, int), c: Collider, p: Vec2) -> (int, int) {
    if !ball_overlaps(c, p) {
        v
    } else if c.role is Paddle {
        (paddle_bounce_x(c.rect, p), paddle_bounce_y(c.rect, p))
    } else {
        match contact_side(c.rect, p) {
            Collision::Left => if v.0 > 0 { (-v.0, v.1) } else { v },
            Collision::Right => if v.0 < 0 { (-v.0, v.1) } else { v },
            Collision::Top => if v.1 < 0 { (v.0, -v.1) } else { v },
            Collision::Bottom => if v.1 > 0 { (v.0, -v.1) } else { v },
        }
    }
}

/// The ball's velocity after the resolver has run over the first `n`
/// colliders, in order.
pub open spec fn resolved_prefix(v0: (int, int), cs: Seq<Collider>, p: Vec2, n: int) -> (
    int,
    int,
)
    decreases n,
{
    if n <= 0 {
        v0
    } else {
        resolve_step(resolved_prefix(v0, cs, p, n - 1), cs[n - 1], p)
    }
}

/// The ball's velocity after the resolver has run over all colliders.
pub open spec fn resolved(v0: (int, int), cs: Seq<Collider>, p: Vec2) -> (int, int) {
    resolved_prefix(v0, cs, p, cs.len() as int)
}

/// Whether the ball's contact destroys `c` this tick.
pub open spec fn hits_brick(c: Collider, p: Vec2) -> bool {
    ball_overlaps(c, p) && c.role is Destructible
}

pub open spec fn brick_id(c: Collider) -> u64 {
    c.role->Destructible_0
}

/// Identities of the bricks destroyed among the first `n` colliders, in
/// collider order.
pub open spec fn despawned_prefix(cs: Seq<Collider>, p: Vec2, n: int) -> Seq<u64>
    decreases n,
{
    if n <= 0 {
        Seq::empty()
    } else {
        let pre = despawned_prefix(cs, p, n - 1);
        if hits_brick(cs[n - 1], p) {
            pre.push(brick_id(cs[n - 1]))
        } else {
            pre
        }
    }
}

/// Identities of all bricks the ball destroys this tick.
pub open spec fn despawned(cs: Seq<Collider>, p: Vec2) -> Seq<u64> {
    despawned_prefix(cs, p, cs.len() as int)
}

/// Runs the collision resolver for one tick: tests the ball against
/// every collider in order, updates its velocity per `resolve_step`,
/// and returns the identities of the bricks hit, for removal at the end
/// of the tick.
pub fn check_and_handle_collisions(
    ball_velocity: &mut Velocity,
    ball_translation: Vec2,
    colliders: &Vec<Collider>,
) -> (despawn: Vec<u64>)
    requires
        forall|i: int| 0 <= i < colliders@.len() ==> (#[trigger] colliders@[i]).rect.wf(),
        i64::MIN < old(ball_velocity).x,
        i64::MIN < old(ball_velocity).y,
    ensures
        (final(ball_velocity).x as int, final(ball_velocity).y as int) == resolved(
            (old(ball_velocity).x as int, old(ball_velocity).y as int),
            colliders@,
            ball_translation,
        ),
        despawn@ == despawned(colliders@, ball_translation),
        i64::MIN < final(ball_velocity).x,
        i64::MIN < final(ball_velocity).y,
{
    let ghost v0 = (old(ball_velocity).x as int, old(ball_velocity).y as int);
    let mut despawn: Vec<u64> = Vec::new();
    let mut i: usize = 0;
    while i < colliders.len()
        invariant
            0 <= i <= colliders@.len(),
            forall|k: int| 0 <= k < colliders@.len() ==> (#[trigger] colliders@[k]).rect.wf(),
            i64::MIN < ball_velocity.x,
            i64::MIN < ball_velocity.y,
            (ball_velocity.x as int, ball_velocity.y as int) == resolved_prefix(
                v0,
                colliders@,
                ball_translation,
                i as int,
            ),
            despawn@ == despawned_prefix(colliders@, ball_translation, i as int),
        decreases colliders@.len() - i,
    {
        let c = &colliders[i];
        let collision = ball_collision(ball_translation, BALL_RADIUS, &c.rect);
        if let Some(side) = collision {
            match c.role {
                Role::Paddle => {
                    proof {
                        lemma_paddle_bounce_bounds(c.rect, ball_translation);
                    }
                    let nv = paddle_bounce(&c.rect, ball_translation);
                    ball_velocity.x = nv.x;
                    ball_velocity.y = nv.y;
                },
                _ => {
                    match side {
                        Collision::Left => {
                            if ball_velocity.x > 0 {
                                ball_velocity.x = -ball_velocity.x;
                            }
                        },
                        Collision::Right => {
                            if ball_velocity.x < 0 {
                                ball_velocity.x = -ball_velocity.x;
                            }
                        },
                        Collision::Top => {
                            if ball_velocity.y < 0 {
                                ball_velocity.y = -ball_velocity.y;
                            }
                        },
                        Collision::Bottom => {
                            if ball_velocity.y > 0 {
                                ball_velocity.y = -ball_velocity.y;
                            }
                        },
                    }
                },
            }
            if let Role::Destructible(id) = c.role {
                despawn.push(id);
            }
        }
        i = i + 1;
    }
    despawn
}

/// Whether collider `c` stays in the world when the bricks named in
/// `ids` are removed.
pub open spec fn survives(c: Collider, ids: Seq<u64>) -> bool {
    match c.role {
        Role::Destructible(id) => !ids.contains(id),
        _ => true,
    }
}

/// The first `n` colliders that survive removal of the bricks named in
/// `ids`, in order.
pub open spec fn surviving_prefix(cs: Seq<Collider>, ids: Seq<u64>, n: int) -> Seq<Collider>
    decreases n,
{
    if n <= 0 {
        Seq::empty()
    } else {
        let pre = surviving_prefix(cs, ids, n - 1);
        if survives(cs[n - 1], ids) {
            pre.push(cs[n - 1])
        } else {
            pre
        }
    }
}

/// All colliders that survive removal of the bricks named in `ids`.
pub open spec fn surviving(cs: Seq<Collider>, ids: Seq<u64>) -> Seq<Collider> {
    surviving_prefix(cs, ids, cs.len() as int)
}

fn ids_contain(ids: &Vec<u64>, id: u64) -> (r: bool)
    ensures
        r == ids@.contains(id),
{
    let mut j: usize = 0;
    while j < ids.len()
        invariant
            0 <= j <= ids@.len(),
            forall|k: int| 0 <= k < j ==> ids@[k] != id,
        decreases ids@.len() - j,
    {
        if ids[j] == id {
            assert(ids@[j as int] == id);
            return true;
        }
        j = j + 1;
    }
    false
}

/// End-of-tick removal: drops every collider whose role is a brick
/// named in `despawn`, keeping all others in order.
pub fn remove_despawned(colliders: &mut Vec<Collider>, despawn: &Vec<u64>)
    ensures
        final(colliders)@ == surviving(old(colliders)@, despawn@),
{
    let mut kept: Vec<Collider> = Vec::new();
    let mut i: usize = 0;
    while i < colliders.len()
        invariant
            0 <= i <= colliders@.len(),
            colliders@ == old(colliders)@,
            kept@ == surviving_prefix(old(colliders)@, despawn@, i as int),
        decreases colliders@.len() - i,
    {
        let c = colliders[i];
        let keep = match c.role {
            Role::Destructible(id) => !ids_contain(despawn, id),
            _ => true,
        };
        if keep {
            kept.push(c);
        }
        i = i + 1;
    }
    *colliders = kept;
}

/// Law: a wall contact on the left or right side, with the ball moving
/// into the wall, inverts exactly the horizontal velocity component and
/// preserves the squared speed.
pub proof fn lemma_wall_reflection_horizontal(v: (int, int), c: Collider, p: Vec2)
    requires
        !(c.role is Paddle),
        ball_overlaps(c, p),
        contact_side(c.rect, p) == Collision::Left ==> v.0 > 0,
        contact_side(c.rect, p) == Collision::Right ==> v.0 < 0,
        contact_side(c.rect, p) == Collision::Left || contact_side(c.rect, p)
            == Collision::Right,
    ensures
        resolve_step(v, c, p) == ((-v.0, v.1)),
        (-v.0) * (-v.0) + v.1 * v.1 == v.0 * v.0 + v.1 * v.1,
{
    assert((-v.0) * (-v.0) == v.0 * v.0) by (nonlinear_arith);
}

/// Law: the same for a top or bottom contact and the vertical
/// component.
pub proof fn lemma_wall_reflection_vertical(v: (int, int), c: Collider, p: Vec2)
    requires
        !(c.role is Paddle),
        ball_overlaps(c, p),
        contact_side(c.rect, p) == Collision::Top ==> v.1 < 0,
        contact_side(c.rect, p) == Collision::Bottom ==> v.1 > 0,
        contact_side(c.rect, p) == Collision::Top || contact_side(c.rect, p)
            == Collision::Bottom,
    ensures
        resolve_step(v, c, p) == ((v.0, -v.1)),
        v.0 * v.0 + (-v.1) * (-v.1) == v.0 * v.0 + v.1 * v.1,
{
    assert((-v.1) * (-v.1) == v.1 * v.1) by (nonlinear_arith);
}

/// Law: no double bounce.  A wall or brick the ball overlaps while
/// moving away from it (or parallel to it) leaves the velocity
/// unchanged.
pub proof fn lemma_no_double_bounce(v: (int, int), c: Collider, p: Vec2)
    requires
        !(c.role is Paddle),
        ball_overlaps(c, p),
        match contact_side(c.rect, p) {
            Collision::Left => v.0 <= 0,
            Collision::Right => v.0 >= 0,
            Collision::Top => v.1 >= 0,
            Collision::Bottom => v.1 <= 0,
        },
    ensures
        resolve_step(v, c, p) == v,
{
}

/// Law: a ball meeting the paddle exactly at its horizontal center
/// leaves straight up at exactly the base speed, whatever its incoming
/// velocity.
pub proof fn lemma_paddle_center_hit(v: (int, int), c: Collider, p: Vec2)
    requires
        c.role is Paddle,
        c.rect.wf(),
        ball_overlaps(c, p),
        closest_x_spec(c.rect, p) == c.rect.center.x,
    ensures
        resolve_step(v, c, p) == ((0int, BALL_BASE_SPEED as int)),
{
    let b = c.rect;
    let rel = closest_x_spec(b, p) - (b.center.x - b.half.x);
    let width = 2 * b.half.x;
    assert(rel == b.half.x);
    assert(120_000 * rel == width * 60_000) by (nonlinear_arith)
        requires
            rel == b.half.x,
            width == 2 * b.half.x,
    ;
    lemma_div_multiples_vanish(60_000, width);
    assert(deflect_angle(b, p) == 0);
    crate::trig::lemma_sine_exact_quarter(BALL_BASE_SPEED as int);
    assert(crate::trig::sine_num(0) == 0);
    assert(BALL_BASE_SPEED * crate::trig::sine_num(0) == 0);
    vstd::arithmetic::div_mod::lemma_div_of0(crate::trig::sine_den(0));
    assert(paddle_bounce_x(b, p) == 0);
}

/// Law: a ball meeting the paddle at its far left or far right edge is
/// deflected a full sixty degrees off vertical: it leaves upward at
/// exactly half the base speed vertically, and horizontally at the base
/// speed's sine of sixty degrees, towards the side that was hit.  The
/// two edges are exact mirror images.
pub proof fn lemma_paddle_edge_hits(v: (int, int), c: Collider, p: Vec2)
    requires
        c.role is Paddle,
        c.rect.wf(),
        ball_overlaps(c, p),
        closest_x_spec(c.rect, p) == c.rect.spec_min_x() || closest_x_spec(c.rect, p)
            == c.rect.spec_max_x(),
    ensures
        deflect_angle(c.rect, p) == (if closest_x_spec(c.rect, p) == c.rect.spec_min_x() {
            -60_000int
        } else {
            60_000int
        }),
        resolve_step(v, c, p).1 == BALL_BASE_SPEED / 2,
        resolve_step(v, c, p).0 == (if closest_x_spec(c.rect, p) == c.rect.spec_min_x() {
            -sine_scaled(BALL_BASE_SPEED as int, 60_000)
        } else {
            sine_scaled(BALL_BASE_SPEED as int, 60_000)
        }),
        BALL_BASE_SPEED / 2 <= sine_scaled(BALL_BASE_SPEED as int, 60_000) <= BALL_BASE_SPEED,
{
    let b = c.rect;
    let rel = closest_x_spec(b, p) - (b.center.x - b.half.x);
    let width = 2 * b.half.x;
    if closest_x_spec(b, p) == b.spec_min_x() {
        assert(rel == 0);
        assert(120_000 * rel == 0);
        vstd::arithmetic::div_mod::lemma_div_of0(width);
        assert(deflect_angle(b, p) == -60_000);
    } else {
        assert(rel == width);
        assert(120_000 * rel == width * 120_000) by (nonlinear_arith)
            requires
                rel == width,
        ;
        lemma_div_multiples_vanish(120_000, width);
        assert(deflect_angle(b, p) == 60_000);
    }
    crate::trig::lemma_sine_exact_half(BALL_BASE_SPEED as int, 30_000);
    assert(crate::trig::sine_num(60_000) == 28_800_000_000);
    assert(crate::trig::sine_den(60_000) == 33_300_000_000);
    assert(BALL_BASE_SPEED * crate::trig::sine_num(60_000) >= 200_000 * crate::trig::sine_den(
        60_000,
    ));
    lemma_div_is_ordered(
        crate::trig::sine_den(60_000) * 200_000,
        BALL_BASE_SPEED * crate::trig::sine_num(60_000),
        crate::trig::sine_den(60_000),
    );
    lemma_div_multiples_vanish(200_000, crate::trig::sine_den(60_000));
    crate::trig::lemma_sine_scaled_bounds(BALL_BASE_SPEED as int, 60_000);
}

/// Law: a brick the ball overlaps is reported for removal.
pub proof fn lemma_brick_hit_despawned(cs: Seq<Collider>, p: Vec2, i: int)
    requires
        0 <= i < cs.len(),
        hits_brick(cs[i], p),
    ensures
        despawned(cs, p).contains(brick_id(cs[i])),
{
    lemma_despawned_prefix_contains(cs, p, i, cs.len() as int);
}

proof fn lemma_despawned_prefix_contains(cs: Seq<Collider>, p: Vec2, i: int, n: int)
    requires
        0 <= i < n <= cs.len(),
        hits_brick(cs[i], p),
    ensures
        despawned_prefix(cs, p, n).contains(brick_id(cs[i])),
    decreases n,
{
    let pre = despawned_prefix(cs, p, n - 1);
    if i == n - 1 {
        assert(despawned_prefix(cs, p, n)[pre.len() as int] == brick_id(cs[i]));
    } else {
        lemma_despawned_prefix_contains(cs, p, i, n - 1);
        let k = choose|k: int| 0 <= k < pre.len() && pre[k] == brick_id(cs[i]);
        assert(despawned_prefix(cs, p, n)[k] == brick_id(cs[i]));
    }
}

/// Law: after end-of-tick removal, no collider carrying a removed
/// brick's identity remains in the world.
pub proof fn lemma_despawned_absent(cs: Seq<Collider>, ids: Seq<u64>, id: u64)
    requires
        ids.contains(id),
    ensures
        forall|j: int|
            0 <= j < surviving(cs, ids).len() ==> (#[trigger] surviving(cs, ids)[j]).role
                != Role::Destructible(id),
{
    lemma_surviving_prefix_survives(cs, ids, cs.len() as int);
}

proof fn lemma_surviving_prefix_survives(cs: Seq<Collider>, ids: Seq<u64>, n: int)
    requires
        n <= cs.len(),
    ensures
        forall|j: int|
            0 <= j < surviving_prefix(cs, ids, n).len() ==> survives(
                #[trigger] surviving_prefix(cs, ids, n)[j],
                ids,
            ),
    decreases n,
{
    if n > 0 {
        lemma_surviving_prefix_survives(cs, ids, n - 1);
        let pre = surviving_prefix(cs, ids, n - 1);
        let cur = surviving_prefix(cs, ids, n);
        assert forall|j: int| 0 <= j < cur.len() implies survives(cur[j], ids) by {
            if survives(cs[n - 1], ids) {
                if j < pre.len() {
                    assert(cur[j] == pre[j]);
                } else {
                    assert(cur[j] == cs[n - 1]);
                }
            } else {
                assert(cur == pre);
            }
        }
    }
}

/// Law: a resolver run in which the ball touches nothing leaves the
/// velocity unchanged and removes nothing.
pub proof fn lemma_resolver_no_contact(v0: (int, int), cs: Seq<Collider>, p: Vec2)
    requires
        forall|i: int| 0 <= i < cs.len() ==> !ball_overlaps(#[trigger] cs[i], p),
    ensures
        resolved(v0, cs, p) == v0,
        despawned(cs, p) == Seq::<u64>::empty(),
    decreases cs.len(),
{
    lemma_prefix_no_contact(v0, cs, p, cs.len() as int);
}

proof fn lemma_prefix_no_contact(v0: (int, int), cs: Seq<Collider>, p: Vec2, n: int)
    requires
        n <= cs.len(),
        forall|i: int| 0 <= i < cs.len() ==> !ball_overlaps(#[trigger] cs[i], p),
    ensures
        resolved_prefix(v0, cs, p, n) == v0,
        despawned_prefix(cs, p, n) == Seq::<u64>::empty(),
    decreases n,
{
    if n > 0 {
        lemma_prefix_no_contact(v0, cs, p, n - 1);
    }
}

/// Law: integration is linear in the tick duration.  Advancing a
/// position by `dt1` and then by `dt2` at the same velocity equals
/// advancing it once by `dt1 + dt2`.
pub proof fn lemma_integrator_additive(x: int, v: int, dt1: int, dt2: int)
    ensures
        (x + v * dt1) + v * dt2 == x + v * (dt1 + dt2),
{
    assert(v * dt1 + v * dt2 == v * (dt1 + dt2)) by (nonlinear_arith);
}

} // verus!
