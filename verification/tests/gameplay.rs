//! Gameplay systems around the physics core: steering and platform jumps,
//! vine climbing and sliding, the coyote-time window, the fall reset, and
//! the window scale.

use lockstep_core::collider::{Collider, CollidingSide};
use lockstep_core::components::{handle_coyote_time, CoyoteTime, Platform, Player, Vine};
use lockstep_core::detection::handle_colliders;
use lockstep_core::input::{encode_input, JUMP_SPEED, WALK_SPEED};
use lockstep_core::interactions::{handle_vine_interactions, VINE_CLIMB_SPEED, VINE_SLIDE_SPEED};
use lockstep_core::movement::{move_player_multiplayer, reset, DEATH_Y, RESPAWN_Y};
use lockstep_core::resources::WindowScale;
use lockstep_core::world::{Body, Gravity, Solid, Transform, Vec2i, Velocity, World};

fn player_body(x: i64, y: i64, handle: usize) -> Body {
    let mut b = Body::empty();
    b.transform = Some(Transform { translation: Vec2i { x, y } });
    b.velocity = Some(Velocity(Vec2i { x: 0, y: 0 }));
    b.gravity = Some(Gravity(-98_000, false));
    b.collider = Some(Collider::new(Vec2i { x: 1500, y: 1500 }));
    b.solid = Some(Solid(true));
    b.player = Some(Player { handle });
    b.coyote_time = Some(CoyoteTime::new(125));
    b
}

fn platform_body(x: i64, y: i64) -> Body {
    let mut b = Body::empty();
    b.transform = Some(Transform { translation: Vec2i { x, y } });
    b.collider = Some(Collider::new(Vec2i { x: 8000, y: 1000 }));
    b.solid = Some(Solid(false));
    b.platform = Some(Platform);
    b
}

fn vine_body(x: i64, y: i64) -> Body {
    let mut b = Body::empty();
    b.transform = Some(Transform { translation: Vec2i { x, y } });
    b.collider = Some(Collider::new(Vec2i { x: 300, y: 4000 }));
    b.vine = Some(Vine);
    b
}

/// A player standing on a platform, contacts freshly detected.
fn standing_world() -> World {
    let mut w = World::new();
    w.push_body(player_body(0, 0, 0));
    w.push_body(platform_body(0, -1200));
    handle_colliders(&mut w);
    w
}

#[test]
fn jump_is_honored_only_on_a_platform() {
    let mut w = standing_world();
    let inputs = vec![encode_input(false, true, true, false)];
    move_player_multiplayer(&mut w, &inputs);
    let v = w.bodies[0].velocity.unwrap().0;
    assert_eq!(v.x, WALK_SPEED);
    assert_eq!(v.y, JUMP_SPEED);

    // Airborne: the same input steers but does not jump.
    let mut w = World::new();
    w.push_body(player_body(0, 5000, 0));
    w.push_body(platform_body(0, -1200));
    handle_colliders(&mut w);
    move_player_multiplayer(&mut w, &inputs);
    let v = w.bodies[0].velocity.unwrap().0;
    assert_eq!(v.x, WALK_SPEED);
    assert_eq!(v.y, 0);
}

#[test]
fn a_player_without_an_input_is_left_alone() {
    let mut w = standing_world();
    w.bodies[0].velocity = Some(Velocity(Vec2i { x: 7, y: 8 }));
    // No entry for handle 0 this tick.
    let inputs: Vec<u8> = vec![];
    move_player_multiplayer(&mut w, &inputs);
    let v = w.bodies[0].velocity.unwrap().0;
    assert_eq!((v.x, v.y), (7, 8));
}

#[test]
fn interacting_on_a_vine_climbs_and_arms_the_override() {
    let mut w = World::new();
    w.push_body(player_body(0, 0, 0));
    w.push_body(vine_body(0, 0));
    handle_colliders(&mut w);
    let inputs = vec![encode_input(false, false, false, true)];
    handle_vine_interactions(&mut w, &inputs);
    assert_eq!(w.bodies[0].velocity.unwrap().0.y, VINE_CLIMB_SPEED);
    assert!(w.bodies[0].gravity.unwrap().1);
}

#[test]
fn hanging_on_a_vine_slides_down() {
    let mut w = World::new();
    w.push_body(player_body(0, 0, 0));
    w.push_body(vine_body(0, 0));
    handle_colliders(&mut w);
    let inputs = vec![0u8];
    handle_vine_interactions(&mut w, &inputs);
    assert_eq!(w.bodies[0].velocity.unwrap().0.y, VINE_SLIDE_SPEED);
    assert!(w.bodies[0].gravity.unwrap().1);
}

#[test]
fn standing_on_solid_ground_beats_the_vine_slide() {
    let mut w = World::new();
    w.push_body(player_body(0, 0, 0));
    w.push_body(vine_body(0, 0));
    // A solid floor right under the player.
    let mut floor = platform_body(0, -1200);
    floor.solid = Some(Solid(true));
    floor.platform = None;
    w.push_body(floor);
    handle_colliders(&mut w);
    let inputs = vec![0u8];
    handle_vine_interactions(&mut w, &inputs);
    assert_eq!(w.bodies[0].velocity.unwrap().0.y, 0);
    assert!(!w.bodies[0].gravity.unwrap().1);
}

#[test]
fn coyote_window_refills_on_a_platform_and_runs_out_in_the_air() {
    let mut w = standing_world();
    handle_coyote_time(&mut w, 100);
    // Standing: the window is restored to its full duration.
    assert_eq!(w.bodies[0].coyote_time.unwrap().remaining, 125);

    // Airborne: the window drains and stops at zero.
    let mut w = World::new();
    w.push_body(player_body(0, 5000, 0));
    w.push_body(platform_body(0, -1200));
    handle_colliders(&mut w);
    handle_coyote_time(&mut w, 100);
    assert_eq!(w.bodies[0].coyote_time.unwrap().remaining, 25);
    assert!(w.bodies[0].coyote_time.unwrap().get());
    handle_coyote_time(&mut w, 100);
    assert_eq!(w.bodies[0].coyote_time.unwrap().remaining, 0);
}

#[test]
fn coyote_methods_tick_reset_and_clear() {
    let mut ct = CoyoteTime::new(125);
    assert!(ct.get());
    ct.tick(100);
    assert!(ct.get());
    ct.tick(100);
    assert!(!ct.get());
    ct.set_on_platform();
    assert!(ct.get());
    ct.clear();
    assert!(!ct.get());
}

#[test]
fn falling_below_the_death_line_respawns() {
    let mut w = World::new();
    let mut b = Body::empty();
    b.transform = Some(Transform { translation: Vec2i { x: 4000, y: DEATH_Y - 1 } });
    b.velocity = Some(Velocity(Vec2i { x: 9, y: -9 }));
    w.push_body(b);
    reset(&mut w);
    let t = w.bodies[0].transform.unwrap().translation;
    assert_eq!((t.x, t.y), (0, RESPAWN_Y));
    let v = w.bodies[0].velocity.unwrap().0;
    assert_eq!((v.x, v.y), (0, 0));

    // Exactly on the line is not below it.
    let mut w = World::new();
    let mut b = Body::empty();
    b.transform = Some(Transform { translation: Vec2i { x: 4000, y: DEATH_Y } });
    b.velocity = Some(Velocity(Vec2i { x: 9, y: -9 }));
    w.push_body(b);
    reset(&mut w);
    let t = w.bodies[0].transform.unwrap().translation;
    assert_eq!((t.x, t.y), (4000, DEATH_Y));
}

#[test]
fn window_scale_never_drops_below_one() {
    let mut s = WindowScale::new();
    assert_eq!(s.0, 1);
    assert_eq!(s.increase(), 2);
    assert_eq!(s.increase(), 3);
    assert_eq!(s.decrease(), 2);
    assert_eq!(s.decrease(), 1);
    assert_eq!(s.decrease(), 1);
}
