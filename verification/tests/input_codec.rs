//! The input codec: every 4-bit key state decodes back to the vector the
//! keys stand for.

use lockstep_core::input::{
    direction, encode_input, INPUT_INTERACT, INPUT_JUMP, INPUT_LEFT, INPUT_RIGHT, JUMP_SPEED,
    WALK_SPEED,
};

#[test]
fn bit_assignments_are_fixed() {
    assert_eq!(INPUT_LEFT, 1);
    assert_eq!(INPUT_RIGHT, 2);
    assert_eq!(INPUT_JUMP, 4);
    assert_eq!(INPUT_INTERACT, 8);
    assert_eq!(encode_input(true, false, false, false), 1);
    assert_eq!(encode_input(false, true, false, false), 2);
    assert_eq!(encode_input(false, false, true, false), 4);
    assert_eq!(encode_input(false, false, false, true), 8);
    assert_eq!(encode_input(true, true, true, true), 15);
    assert_eq!(encode_input(false, false, false, false), 0);
}

#[test]
fn decode_of_encode_matches_direction_for_all_sixteen_key_states() {
    for bits in 0u8..16 {
        let left = bits & 1 != 0;
        let right = bits & 2 != 0;
        let jump = bits & 4 != 0;
        let interact = bits & 8 != 0;
        let mask = encode_input(left, right, jump, interact);
        let dir = direction(mask);
        let expect_x = if right { WALK_SPEED } else { 0 } - if left { WALK_SPEED } else { 0 };
        let expect_y = if jump { JUMP_SPEED } else { 0 };
        assert_eq!(dir.x, expect_x);
        assert_eq!(dir.y, expect_y);
        // The mask itself decodes identically: decode ∘ encode == direction.
        let direct = direction(mask);
        assert_eq!(direct.x, dir.x);
        assert_eq!(direct.y, dir.y);
    }
}

#[test]
fn opposite_horizontal_keys_cancel() {
    let mask = encode_input(true, true, false, false);
    let dir = direction(mask);
    assert_eq!(dir.x, 0);
    assert_eq!(dir.y, 0);
}

#[test]
fn unused_bits_are_ignored() {
    let dir_low = direction(0b0000_0110);
    let dir_high = direction(0b1111_0110);
    assert_eq!(dir_low.x, dir_high.x);
    assert_eq!(dir_low.y, dir_high.y);
    assert_eq!(dir_low.x, WALK_SPEED);
    assert_eq!(dir_low.y, JUMP_SPEED);
}
