//! Collision detection: the separation formula decides contact, the side
//! classification and its tie-break, the overlap depth, and the side masks.

use lockstep_core::collider::{Collider, CollidingSide};
use lockstep_core::detection::handle_colliders;
use lockstep_core::world::{Body, Solid, Transform, Vec2i, World};

fn boxed_body(x: i64, y: i64, bx: i64, by: i64, solid: Option<bool>) -> Body {
    let mut b = Body::empty();
    b.transform = Some(Transform { translation: Vec2i { x, y } });
    b.collider = Some(Collider::new(Vec2i { x: bx, y: by }));
    b.solid = solid.map(Solid);
    b
}

fn two_box_world(x2: i64, y2: i64) -> World {
    let mut w = World::new();
    w.push_body(boxed_body(0, 0, 4000, 4000, Some(true)));
    w.push_body(boxed_body(x2, y2, 4000, 4000, Some(true)));
    w
}

#[test]
fn overlapping_pair_records_contact_both_ways() {
    let mut w = two_box_world(3000, 0);
    handle_colliders(&mut w);
    let c0 = w.bodies[0].collider.as_ref().unwrap();
    let c1 = w.bodies[1].collider.as_ref().unwrap();
    // Centers 3 units apart, summed half extents 4 units: 1 unit deep.
    let hit0 = c0.colliding_with(1).unwrap();
    let hit1 = c1.colliding_with(0).unwrap();
    assert_eq!(hit0, (CollidingSide::Right, 1000, true));
    assert_eq!(hit1, (CollidingSide::Left, 1000, true));
    assert!(c0.check_colliding_side(CollidingSide::Right));
    assert!(!c0.check_colliding_side(CollidingSide::Left));
    assert!(!c0.check_colliding_side(CollidingSide::Top));
    assert!(!c0.check_colliding_side(CollidingSide::Bottom));
}

#[test]
fn separated_pair_records_nothing() {
    let mut w = two_box_world(4001, 0);
    handle_colliders(&mut w);
    let c0 = w.bodies[0].collider.as_ref().unwrap();
    let c1 = w.bodies[1].collider.as_ref().unwrap();
    assert!(c0.colliding_with(1).is_none());
    assert!(c1.colliding_with(0).is_none());
}

#[test]
fn exact_touch_counts_as_contact_with_zero_overlap() {
    // Separation exactly zero: still a contact, at depth zero.
    let mut w = two_box_world(4000, 0);
    handle_colliders(&mut w);
    let c0 = w.bodies[0].collider.as_ref().unwrap();
    let hit = c0.colliding_with(1).unwrap();
    assert_eq!(hit, (CollidingSide::Right, 0, true));
}

#[test]
fn vertical_contact_is_antisymmetric() {
    // The second body sits above the first: it records Bottom, the first Top.
    let mut w = two_box_world(0, 3500);
    handle_colliders(&mut w);
    let c0 = w.bodies[0].collider.as_ref().unwrap();
    let c1 = w.bodies[1].collider.as_ref().unwrap();
    assert_eq!(c0.colliding_with(1).unwrap(), (CollidingSide::Top, 500, true));
    assert_eq!(c1.colliding_with(0).unwrap(), (CollidingSide::Bottom, 500, true));
}

#[test]
fn diagonal_tie_picks_the_vertical_axis() {
    // Equal separations on both axes: the tie goes to the vertical axis.
    let mut w = two_box_world(3000, 3000);
    handle_colliders(&mut w);
    let c0 = w.bodies[0].collider.as_ref().unwrap();
    let c1 = w.bodies[1].collider.as_ref().unwrap();
    assert_eq!(c0.colliding_with(1).unwrap().0, CollidingSide::Top);
    assert_eq!(c1.colliding_with(0).unwrap().0, CollidingSide::Bottom);
}

#[test]
fn coincident_centers_still_record_opposite_sides() {
    // Two equal boxes exactly on top of each other: the tie picks the
    // vertical axis and the zero center difference still gives the pair
    // opposite sides — the lower-indexed entity Bottom, the partner Top.
    let mut w = two_box_world(0, 0);
    handle_colliders(&mut w);
    let c0 = w.bodies[0].collider.as_ref().unwrap();
    let c1 = w.bodies[1].collider.as_ref().unwrap();
    assert_eq!(c0.colliding_with(1).unwrap(), (CollidingSide::Bottom, 4000, true));
    assert_eq!(c1.colliding_with(0).unwrap(), (CollidingSide::Top, 4000, true));

    // Same coordinate on the chosen horizontal axis: Left and Right.
    let mut w = World::new();
    w.push_body(boxed_body(0, 0, 2000, 8000, Some(true)));
    w.push_body(boxed_body(0, 1000, 2000, 8000, Some(true)));
    handle_colliders(&mut w);
    let c0 = w.bodies[0].collider.as_ref().unwrap();
    let c1 = w.bodies[1].collider.as_ref().unwrap();
    assert_eq!(c0.colliding_with(1).unwrap().0, CollidingSide::Left);
    assert_eq!(c1.colliding_with(0).unwrap().0, CollidingSide::Right);
}

#[test]
fn contact_is_solid_only_when_both_carry_solid_true() {
    for (s0, s1, expect) in [
        (Some(true), Some(true), true),
        (Some(true), Some(false), false),
        (Some(false), Some(true), false),
        (Some(true), None, false),
        (None, None, false),
    ] {
        let mut w = World::new();
        w.push_body(boxed_body(0, 0, 4000, 4000, s0));
        w.push_body(boxed_body(3000, 0, 4000, 4000, s1));
        handle_colliders(&mut w);
        let c0 = w.bodies[0].collider.as_ref().unwrap();
        assert_eq!(c0.colliding_with(1).unwrap().2, expect);
    }
}

#[test]
fn lists_are_rebuilt_from_scratch_each_pass() {
    let mut w = two_box_world(3000, 0);
    handle_colliders(&mut w);
    // Move the second body out of reach and detect again: the old contact
    // must be gone.
    w.bodies[1].transform = Some(Transform { translation: Vec2i { x: 20000, y: 0 } });
    handle_colliders(&mut w);
    let c0 = w.bodies[0].collider.as_ref().unwrap();
    assert!(c0.colliding_with(1).is_none());
    assert!(!c0.check_colliding_side(CollidingSide::Right));
}

#[test]
fn side_queries_filter_by_side_and_solidity() {
    let mut w = World::new();
    w.push_body(boxed_body(0, 0, 4000, 4000, Some(true)));
    w.push_body(boxed_body(0, -3500, 4000, 4000, Some(true)));
    w.push_body(boxed_body(0, -3600, 4000, 4000, None));
    handle_colliders(&mut w);
    let c0 = w.bodies[0].collider.as_ref().unwrap();
    let below = c0.get_all_colliding_side(CollidingSide::Bottom);
    assert_eq!(below, vec![1, 2]);
    assert!(c0.check_colliding_solid_side(CollidingSide::Bottom));
    assert!(!c0.check_colliding_solid_side(CollidingSide::Top));
    let c2 = w.bodies[2].collider.as_ref().unwrap();
    // The third body's contacts are not solid: its solid flag is absent.
    assert!(!c2.check_colliding_solid_side(CollidingSide::Top));
}
