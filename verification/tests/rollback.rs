//! Snapshot/restore: a restored world is bit-identical, component for
//! component, to the world the snapshot was taken of, across real ticks.

use lockstep_core::input::{encode_input, INPUT_JUMP, WALK_SPEED};
use lockstep_core::lobby::lobby_world;
use lockstep_core::session::advance_frame;
use lockstep_core::snapshot::{restore, snapshot, Snapshot};
use lockstep_core::world::{Body, World};

fn bodies_identical(a: &Body, b: &Body) -> bool {
    let colliders_match = match (&a.collider, &b.collider) {
        (None, None) => true,
        (Some(x), Some(y)) => {
            x.bounding_box == y.bounding_box && x.colliding_side == y.colliding_side
                && x.collisions == y.collisions
        },
        _ => false,
    };
    a.transform == b.transform && a.velocity == b.velocity && a.gravity == b.gravity
        && a.solid == b.solid && a.player == b.player && a.coyote_time == b.coyote_time
        && a.platform == b.platform && a.vine == b.vine && colliders_match
}

fn assert_world_matches_snapshot(w: &World, s: &Snapshot) {
    assert_eq!(w.bodies.len(), s.bodies.len());
    for i in 0..w.bodies.len() {
        assert!(bodies_identical(&w.bodies[i], &s.bodies[i]), "entity {i} differs");
    }
}

#[test]
fn restore_of_snapshot_reproduces_the_world_bit_for_bit() {
    let mut w = lobby_world();
    let inputs = vec![
        encode_input(false, true, true, false),
        encode_input(true, false, false, false),
    ];
    // Advance a few real ticks so the state holds contacts, velocities and
    // spent coyote time.
    for _ in 0..5 {
        advance_frame(&mut w, &inputs, 1);
    }
    let saved = snapshot(&w);
    assert_world_matches_snapshot(&w, &saved);

    // Keep simulating: the live world drifts away from the snapshot.
    for _ in 0..3 {
        advance_frame(&mut w, &inputs, 1);
    }

    // Restoring brings every component back, including the transient
    // contact lists and side masks the same tick's gameplay code reads.
    restore(&mut w, &saved);
    assert_world_matches_snapshot(&w, &saved);
}

#[test]
fn resimulation_from_a_restored_snapshot_is_deterministic() {
    let mut w = lobby_world();
    let first = vec![encode_input(false, true, false, false), 0u8];
    let second = vec![encode_input(true, false, true, false), INPUT_JUMP];
    for _ in 0..4 {
        advance_frame(&mut w, &first, 1);
    }
    let saved = snapshot(&w);

    // Play three ticks, remember the outcome.
    for _ in 0..3 {
        advance_frame(&mut w, &second, 1);
    }
    let outcome = snapshot(&w);

    // Roll back and replay the same inputs: the outcome must be identical.
    restore(&mut w, &saved);
    for _ in 0..3 {
        advance_frame(&mut w, &second, 1);
    }
    assert_world_matches_snapshot(&w, &outcome);
}

#[test]
fn mixed_inputs_leave_players_where_the_codec_says() {
    let mut w = lobby_world();
    let inputs = vec![
        encode_input(true, true, false, false),
        encode_input(false, false, false, false),
    ];
    advance_frame(&mut w, &inputs, 1);
    // Opposite keys cancel: player 0 gains no horizontal speed.
    assert_eq!(w.bodies[0].velocity.unwrap().0.x, 0);
    assert_eq!(w.bodies[1].velocity.unwrap().0.x, 0);
    let left = vec![
        encode_input(true, false, false, false),
        encode_input(false, true, false, false),
    ];
    advance_frame(&mut w, &left, 1);
    assert_eq!(w.bodies[0].velocity.unwrap().0.x, -WALK_SPEED);
    assert_eq!(w.bodies[1].velocity.unwrap().0.x, WALK_SPEED);
}
