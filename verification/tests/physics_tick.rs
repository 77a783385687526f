//! The physics stages: gravity with its clamp and one-shot override,
//! velocity integration, and solid push-out resolution with its
//! visited-pairs idempotence.

use lockstep_core::collider::{Collider, CollidingSide};
use lockstep_core::detection::handle_colliders;
use lockstep_core::physics::{
    handle_gravity, handle_velocity, physics_step, step_bounds_ok, REST_FALL_SPEED,
};
use lockstep_core::solids::{handle_solids, ResolvedPairs};
use lockstep_core::world::{Body, Gravity, Solid, Transform, Vec2i, Velocity, World};

fn falling_body(gravity: i64, overridden: bool, vy: i64) -> Body {
    let mut b = Body::empty();
    b.transform = Some(Transform { translation: Vec2i { x: 0, y: 0 } });
    b.velocity = Some(Velocity(Vec2i { x: 0, y: vy }));
    b.gravity = Some(Gravity(gravity, overridden));
    b.collider = Some(Collider::new(Vec2i { x: 1000, y: 1000 }));
    b
}

fn solid_box(x: i64, y: i64, solid: Option<bool>) -> Body {
    let mut b = Body::empty();
    b.transform = Some(Transform { translation: Vec2i { x, y } });
    b.collider = Some(Collider::new(Vec2i { x: 4000, y: 4000 }));
    b.solid = solid.map(Solid);
    b
}

#[test]
fn gravity_accelerates_an_airborne_body() {
    let mut w = World::new();
    w.push_body(falling_body(-10, false, 0));
    handle_gravity(&mut w, 3);
    assert_eq!(w.bodies[0].velocity.unwrap().0.y, -30);
    assert_eq!(w.bodies[0].velocity.unwrap().0.x, 0);
}

#[test]
fn floor_contact_clamps_the_downward_speed() {
    let mut w = World::new();
    let mut b = falling_body(-10, false, -500);
    let mut c = Collider::new(Vec2i { x: 1000, y: 1000 });
    c.add_collision(7, CollidingSide::Bottom, 5, true);
    b.collider = Some(c);
    w.push_body(b);
    handle_gravity(&mut w, 3);
    assert_eq!(w.bodies[0].velocity.unwrap().0.y, REST_FALL_SPEED);
    // A shallower creep stays as it is.
    let mut w2 = World::new();
    let mut b2 = falling_body(-10, false, -3);
    let mut c2 = Collider::new(Vec2i { x: 1000, y: 1000 });
    c2.add_collision(7, CollidingSide::Bottom, 5, true);
    b2.collider = Some(c2);
    w2.push_body(b2);
    handle_gravity(&mut w2, 3);
    assert_eq!(w2.bodies[0].velocity.unwrap().0.y, -3);
}

#[test]
fn gravity_override_suppresses_exactly_one_tick() {
    let mut w = World::new();
    w.push_body(falling_body(-10, true, 100));
    // Tick N: the armed override skips gravity and clears itself.
    handle_gravity(&mut w, 3);
    assert_eq!(w.bodies[0].velocity.unwrap().0.y, 100);
    assert_eq!(w.bodies[0].gravity.unwrap().1, false);
    // Velocity is changed from the outside between the ticks.
    w.bodies[0].velocity = Some(Velocity(Vec2i { x: 0, y: 77 }));
    // Tick N+1: gravity applies normally to the modified velocity.
    handle_gravity(&mut w, 3);
    assert_eq!(w.bodies[0].velocity.unwrap().0.y, 77 - 30);
}

#[test]
fn velocity_integration_moves_by_velocity_times_dt() {
    let mut w = World::new();
    let mut b = Body::empty();
    b.transform = Some(Transform { translation: Vec2i { x: 100, y: -200 } });
    b.velocity = Some(Velocity(Vec2i { x: 2, y: 3 }));
    w.push_body(b);
    handle_velocity(&mut w, 4);
    let t = w.bodies[0].transform.unwrap();
    assert_eq!(t.translation.x, 108);
    assert_eq!(t.translation.y, -188);
}

#[test]
fn two_solids_split_the_correction_evenly() {
    let mut w = World::new();
    w.push_body(solid_box(0, 0, Some(true)));
    w.push_body(solid_box(3000, 0, Some(true)));
    handle_colliders(&mut w);
    let mut handled = ResolvedPairs::new();
    handle_solids(&mut w, &mut handled);
    // One unit deep on the horizontal axis: each side takes half.
    assert_eq!(w.bodies[0].transform.unwrap().translation.x, -500);
    assert_eq!(w.bodies[1].transform.unwrap().translation.x, 3500);
}

#[test]
fn one_solid_takes_the_whole_correction() {
    let mut w = World::new();
    w.push_body(solid_box(0, 0, Some(true)));
    w.push_body(solid_box(3000, 0, Some(false)));
    handle_colliders(&mut w);
    let mut handled = ResolvedPairs::new();
    handle_solids(&mut w, &mut handled);
    assert_eq!(w.bodies[0].transform.unwrap().translation.x, -1000);
    assert_eq!(w.bodies[1].transform.unwrap().translation.x, 3000);
}

#[test]
fn entities_without_a_solid_flag_are_never_pushed() {
    let mut w = World::new();
    w.push_body(solid_box(0, 0, Some(true)));
    w.push_body(solid_box(3000, 0, None));
    handle_colliders(&mut w);
    let mut handled = ResolvedPairs::new();
    handle_solids(&mut w, &mut handled);
    assert_eq!(w.bodies[0].transform.unwrap().translation.x, 0);
    assert_eq!(w.bodies[1].transform.unwrap().translation.x, 3000);
}

#[test]
fn a_coincident_solid_pair_is_split_apart() {
    // Two equal solid boxes at exactly the same spot — e.g. both players
    // respawned on the same tick. The pair's records mirror (Bottom/Top),
    // so the halves push in opposite directions and the pair separates.
    let mut w = World::new();
    w.push_body(solid_box(0, 3000, Some(true)));
    w.push_body(solid_box(0, 3000, Some(true)));
    handle_colliders(&mut w);
    let mut handled = ResolvedPairs::new();
    handle_solids(&mut w, &mut handled);
    assert_eq!(w.bodies[0].transform.unwrap().translation.y, 5000);
    assert_eq!(w.bodies[1].transform.unwrap().translation.y, 1000);
}

#[test]
fn resolution_is_idempotent_over_the_same_visited_pairs() {
    let mut w = World::new();
    w.push_body(solid_box(0, 0, Some(true)));
    w.push_body(solid_box(3000, 0, Some(true)));
    handle_colliders(&mut w);
    let mut handled = ResolvedPairs::new();
    handle_solids(&mut w, &mut handled);
    let x0 = w.bodies[0].transform.unwrap().translation.x;
    let x1 = w.bodies[1].transform.unwrap().translation.x;
    // A second pass over the same visited-pairs set must not double-apply.
    handle_solids(&mut w, &mut handled);
    assert_eq!(w.bodies[0].transform.unwrap().translation.x, x0);
    assert_eq!(w.bodies[1].transform.unwrap().translation.x, x1);
    // A fresh set, with the stale contact data still in place, would apply
    // the correction again — the set is what carries the idempotence.
    let mut fresh = ResolvedPairs::new();
    handle_solids(&mut w, &mut fresh);
    assert_eq!(w.bodies[0].transform.unwrap().translation.x, x0 - 500);
}

#[test]
fn the_bounds_check_accepts_sane_worlds_and_rejects_the_rest() {
    let mut w = World::new();
    w.push_body(solid_box(0, 0, Some(true)));
    assert!(step_bounds_ok(&w, 1));
    assert!(!step_bounds_ok(&w, -1));
    assert!(!step_bounds_ok(&w, 0x2_0000));
    w.bodies[0].transform = Some(Transform { translation: Vec2i { x: 0x200_0000, y: 0 } });
    assert!(!step_bounds_ok(&w, 1));
}

#[test]
fn a_physics_step_runs_the_stages_in_order() {
    // A body one unit above an exact floor contact: gravity pulls it, the
    // integration moves it, detection sees the new overlap, and resolution
    // pushes it back out against the solid floor.
    let mut w = World::new();
    let mut faller = Body::empty();
    faller.transform = Some(Transform { translation: Vec2i { x: 0, y: 4100 } });
    faller.velocity = Some(Velocity(Vec2i { x: 0, y: 0 }));
    faller.gravity = Some(Gravity(-200, false));
    faller.collider = Some(Collider::new(Vec2i { x: 4000, y: 4000 }));
    faller.solid = Some(Solid(true));
    w.push_body(faller);
    w.push_body(solid_box(0, 0, Some(true)));
    physics_step(&mut w, 1);
    // Gravity: vy = -200; integration: y = 3900; overlap 100, faller sees
    // Bottom; both solid, the correction splits: faller up 50, floor down 50.
    assert_eq!(w.bodies[0].velocity.unwrap().0.y, -200);
    assert_eq!(w.bodies[0].transform.unwrap().translation.y, 3950);
    assert_eq!(w.bodies[1].transform.unwrap().translation.y, -50);
    let c = w.bodies[0].collider.as_ref().unwrap();
    assert_eq!(c.colliding_with(1).unwrap(), (CollidingSide::Bottom, 100, true));
}
