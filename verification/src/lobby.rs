//! The lobby level: two players, three platforms and a vine, laid out in
//! fixed-point sub-units. The geometry mirrors a 196-pixel background image
//! mapped onto a 10-unit world, truncated to whole sub-units.

use vstd::prelude::*;
use crate::collider::{Collider, ColliderView, CollisionRecord};
use crate::components::{CoyoteTime, Platform, Player, Vine};
use crate::world::{
    empty_body_view, Body, BodyView, Gravity, Solid, Transform, Vec2i, Velocity, World, UNIT,
};

verus! {

pub const BOTTOM_PLATFORM_HEIGHT: i64 = 918;

pub const BOTTOM_PLATFORM_WIDTH: i64 = 10 * UNIT;

pub const BOTTOM_PLATFORM_POS_Y: i64 = -4541;

pub const VINE_HEIGHT: i64 = 4285;

pub const VINE_WIDTH: i64 = 255;

pub const VINE_POS_Y: i64 = -1887;

pub const VINE_POS_X: i64 = -1352;

pub const MIDDLE_PLATFORM_HEIGHT: i64 = 867;

pub const MIDDLE_PLATFORM_LENGTH: i64 = 3775;

pub const MIDDLE_PLATFORM_POS_Y: i64 = -1913;

pub const MIDDLE_PLATFORM_POS_X: i64 = 3112;

pub const TOP_PLATFORM_HEIGHT: i64 = 867;

pub const TOP_PLATFORM_LENGTH: i64 = 3571;

pub const TOP_PLATFORM_POS_Y: i64 = -178;

pub const TOP_PLATFORM_POS_X: i64 = -3214;

/// Where the first player spawns.
pub const PLAYER_ONE_START_X: i64 = -2 * UNIT;

/// Where the second player spawns.
pub const PLAYER_TWO_START_X: i64 = 2 * UNIT;

/// Both players spawn at this height.
pub const PLAYER_START_Y: i64 = 2 * UNIT;

/// Downward acceleration every player spawns with, in sub-units per tick
/// squared: 9.8 world units per second squared, scaled by ten and expressed
/// at the fixed 60 Hz tick rate.
pub const PLAYER_GRAVITY: i64 = -27;

/// The grace window every player spawns with, in milliseconds.
pub const COYOTE_TIME_MS: i64 = 125;

/// The first player's box is slightly narrower than the second's.
pub const PLAYER_ONE_BOX_X: i64 = 1224;

pub const PLAYER_BOX_Y: i64 = 1632;

/// An empty collider view around the given extents.
pub open spec fn fresh_collider(bx: i64, by: i64) -> ColliderView {
    ColliderView {
        bounding_box: Vec2i { x: bx, y: by },
        collisions: Seq::<CollisionRecord>::empty(),
        colliding_side: 0,
    }
}

/// The body a player spawns as.
pub open spec fn player_body_view(handle: usize, px: i64, bx: i64) -> BodyView {
    BodyView {
        transform: Some(Transform { translation: Vec2i { x: px, y: PLAYER_START_Y } }),
        velocity: Some(Velocity(Vec2i { x: 0, y: 0 })),
        gravity: Some(Gravity(PLAYER_GRAVITY, false)),
        collider: Some(fresh_collider(bx, PLAYER_BOX_Y)),
        solid: Some(Solid(true)),
        player: Some(Player { handle }),
        coyote_time: Some(CoyoteTime { remaining: COYOTE_TIME_MS, duration: COYOTE_TIME_MS }),
        ..empty_body_view()
    }
}

/// The body a platform spawns as: a non-solid collider, so it registers
/// contacts without ever being pushed out.
pub open spec fn platform_body_view(x: i64, y: i64, bx: i64, by: i64) -> BodyView {
    BodyView {
        transform: Some(Transform { translation: Vec2i { x, y } }),
        velocity: Some(Velocity(Vec2i { x: 0, y: 0 })),
        collider: Some(fresh_collider(bx, by)),
        solid: Some(Solid(false)),
        platform: Some(Platform),
        ..empty_body_view()
    }
}

/// The body the vine spawns as: a tagged trigger zone with no solid flag.
pub open spec fn vine_body_view() -> BodyView {
    BodyView {
        transform: Some(Transform { translation: Vec2i { x: VINE_POS_X, y: VINE_POS_Y } }),
        velocity: Some(Velocity(Vec2i { x: 0, y: 0 })),
        collider: Some(fresh_collider(VINE_WIDTH, VINE_HEIGHT)),
        vine: Some(Vine),
        ..empty_body_view()
    }
}

/// One player, ready to be steered by the given handle.
fn make_player(handle: usize, px: i64, bx: i64) -> (b: Body)
    requires
        bx >= 0,
    ensures
        b@ == player_body_view(handle, px, bx),
{
    let mut b = Body::empty();
    b.transform = Some(Transform { translation: Vec2i { x: px, y: PLAYER_START_Y } });
    b.velocity = Some(Velocity(Vec2i { x: 0, y: 0 }));
    b.gravity = Some(Gravity(PLAYER_GRAVITY, false));
    b.collider = Some(Collider::new(Vec2i { x: bx, y: PLAYER_BOX_Y }));
    b.solid = Some(Solid(true));
    b.player = Some(Player { handle });
    b.coyote_time = Some(CoyoteTime::new(COYOTE_TIME_MS));
    proof {
        assert(b@ =~= player_body_view(handle, px, bx));
    }
    b
}

/// Spawns the two players at their fixed start positions, handles 0 and 1.
pub fn spawn_player(w: &mut World)
    ensures
        final(w)@ == old(w)@.push(player_body_view(0, PLAYER_ONE_START_X, PLAYER_ONE_BOX_X)).push(
            player_body_view(1, PLAYER_TWO_START_X, PLAYER_BOX_Y),
        ),
{
    let p1 = make_player(0, PLAYER_ONE_START_X, PLAYER_ONE_BOX_X);
    w.push_body(p1);
    let p2 = make_player(1, PLAYER_TWO_START_X, PLAYER_BOX_Y);
    w.push_body(p2);
}

/// One platform, positioned and sized.
fn make_platform(x: i64, y: i64, bx: i64, by: i64) -> (b: Body)
    requires
        bx >= 0,
        by >= 0,
    ensures
        b@ == platform_body_view(x, y, bx, by),
{
    let mut b = Body::empty();
    b.transform = Some(Transform { translation: Vec2i { x, y } });
    b.velocity = Some(Velocity(Vec2i { x: 0, y: 0 }));
    b.collider = Some(Collider::new(Vec2i { x: bx, y: by }));
    b.solid = Some(Solid(false));
    b.platform = Some(Platform);
    proof {
        assert(b@ =~= platform_body_view(x, y, bx, by));
    }
    b
}

/// Spawns the bottom, middle and top platforms.
pub fn spawn_platforms(w: &mut World)
    ensures
        final(w)@ == old(w)@.push(
            platform_body_view(0, BOTTOM_PLATFORM_POS_Y, BOTTOM_PLATFORM_WIDTH, BOTTOM_PLATFORM_HEIGHT),
        ).push(
            platform_body_view(
                MIDDLE_PLATFORM_POS_X,
                MIDDLE_PLATFORM_POS_Y,
                MIDDLE_PLATFORM_LENGTH,
                MIDDLE_PLATFORM_HEIGHT,
            ),
        ).push(
            platform_body_view(
                TOP_PLATFORM_POS_X,
                TOP_PLATFORM_POS_Y,
                TOP_PLATFORM_LENGTH,
                TOP_PLATFORM_HEIGHT,
            ),
        ),
{
    let b = make_platform(0, BOTTOM_PLATFORM_POS_Y, BOTTOM_PLATFORM_WIDTH, BOTTOM_PLATFORM_HEIGHT);
    w.push_body(b);
    let m = make_platform(
        MIDDLE_PLATFORM_POS_X,
        MIDDLE_PLATFORM_POS_Y,
        MIDDLE_PLATFORM_LENGTH,
        MIDDLE_PLATFORM_HEIGHT,
    );
    w.push_body(m);
    let t = make_platform(
        TOP_PLATFORM_POS_X,
        TOP_PLATFORM_POS_Y,
        TOP_PLATFORM_LENGTH,
        TOP_PLATFORM_HEIGHT,
    );
    w.push_body(t);
}

/// Spawns the climbable vine.
pub fn spawn_vines(w: &mut World)
    ensures
        final(w)@ == old(w)@.push(vine_body_view()),
{
    let mut b = Body::empty();
    b.transform = Some(Transform { translation: Vec2i { x: VINE_POS_X, y: VINE_POS_Y } });
    b.velocity = Some(Velocity(Vec2i { x: 0, y: 0 }));
    b.collider = Some(Collider::new(Vec2i { x: VINE_WIDTH, y: VINE_HEIGHT }));
    b.vine = Some(Vine);
    proof {
        assert(b@ =~= vine_body_view());
    }
    w.push_body(b);
}

/// The whole lobby: players first, then the platforms, then the vine.
pub fn lobby_world() -> (w: World)
    ensures
        w@ == Seq::<BodyView>::empty().push(player_body_view(0, PLAYER_ONE_START_X, PLAYER_ONE_BOX_X)).push(
            player_body_view(1, PLAYER_TWO_START_X, PLAYER_BOX_Y),
        ).push(
            platform_body_view(0, BOTTOM_PLATFORM_POS_Y, BOTTOM_PLATFORM_WIDTH, BOTTOM_PLATFORM_HEIGHT),
        ).push(
            platform_body_view(
                MIDDLE_PLATFORM_POS_X,
                MIDDLE_PLATFORM_POS_Y,
                MIDDLE_PLATFORM_LENGTH,
                MIDDLE_PLATFORM_HEIGHT,
            ),
        ).push(
            platform_body_view(
                TOP_PLATFORM_POS_X,
                TOP_PLATFORM_POS_Y,
                TOP_PLATFORM_LENGTH,
                TOP_PLATFORM_HEIGHT,
            ),
        ).push(vine_body_view()),
{
    let mut w = World::new();
    spawn_player(&mut w);
    spawn_platforms(&mut w);
    spawn_vines(&mut w);
    w
}

} // verus!
