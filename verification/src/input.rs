//! Input codec: a local player's intent packed into a fixed-width bitmask,
//! and the movement vector any such mask decodes to.

use vstd::prelude::*;
use crate::world::{Vec2i, UNIT};

verus! {

pub const INPUT_LEFT: u8 = 1;
pub const INPUT_RIGHT: u8 = 2;
pub const INPUT_JUMP: u8 = 4;
pub const INPUT_INTERACT: u8 = 8;

/// Horizontal speed contributed by a held LEFT or RIGHT key.
pub const WALK_SPEED: i64 = 4 * UNIT;
/// Vertical speed contributed by a pressed JUMP key.
pub const JUMP_SPEED: i64 = 15 * UNIT;

/// The horizontal speed a mask decodes to: LEFT and RIGHT contribute
/// opposite amounts, so holding both cancels.
pub open spec fn dir_x(input: u8) -> int {
    (if input & INPUT_RIGHT != 0 { WALK_SPEED as int } else { 0 })
        - (if input & INPUT_LEFT != 0 { WALK_SPEED as int } else { 0 })
}

/// The vertical speed a mask decodes to: JUMP contributes upward speed.
pub open spec fn dir_y(input: u8) -> int {
    if input & INPUT_JUMP != 0 { JUMP_SPEED as int } else { 0 }
}

/// Packs the four key states into the wire mask, lowest bit first:
/// LEFT, RIGHT, JUMP, INTERACT.
pub fn encode_input(left: bool, right: bool, jump: bool, interact: bool) -> (mask: u8)
    ensures
        (mask & INPUT_LEFT != 0) == left,
        (mask & INPUT_RIGHT != 0) == right,
        (mask & INPUT_JUMP != 0) == jump,
        (mask & INPUT_INTERACT != 0) == interact,
        mask & 0xf0 == 0,
{
    let ghost bl: u8 = if left { 1 } else { 0 };
    let ghost br: u8 = if right { 1 } else { 0 };
    let ghost bj: u8 = if jump { 1 } else { 0 };
    let ghost bi: u8 = if interact { 1 } else { 0 };
    let mut mask: u8 = 0;
    if left {
        mask = mask | INPUT_LEFT;
    }
    let ghost m1 = mask;
    if right {
        mask = mask | INPUT_RIGHT;
    }
    let ghost m2 = mask;
    if jump {
        mask = mask | INPUT_JUMP;
    }
    let ghost m3 = mask;
    if interact {
        mask = mask | INPUT_INTERACT;
    }
    proof {
        let m = mask;
        assert(m1 == (if bl == 1 { 0u8 | 1u8 } else { 0u8 }));
        assert(m2 == (if br == 1 { m1 | 2u8 } else { m1 }));
        assert(m3 == (if bj == 1 { m2 | 4u8 } else { m2 }));
        assert(m == (if bi == 1 { m3 | 8u8 } else { m3 }));
        assert((m & 1 != 0) == (bl == 1) && (m & 2 != 0) == (br == 1) && (m & 4 != 0) == (bj
            == 1) && (m & 8 != 0) == (bi == 1) && m & 0xf0 == 0) by (bit_vector)
            requires
                bl <= 1 && br <= 1 && bj <= 1 && bi <= 1,
                m1 == (if bl == 1 { 0u8 | 1u8 } else { 0u8 }),
                m2 == (if br == 1 { m1 | 2u8 } else { m1 }),
                m3 == (if bj == 1 { m2 | 4u8 } else { m2 }),
                m == (if bi == 1 { m3 | 8u8 } else { m3 }),
        ;
    }
    mask
}

/// Decodes a mask into the movement vector it stands for. Pure and total:
/// every 8-bit value decodes, unused bits are ignored.
pub fn direction(input: u8) -> (dir: Vec2i)
    ensures
        dir.x == dir_x(input),
        dir.y == dir_y(input),
{
    let mut dir = Vec2i { x: 0, y: 0 };
    if input & INPUT_LEFT != 0 {
        dir.x = dir.x - WALK_SPEED;
    }
    if input & INPUT_RIGHT != 0 {
        dir.x = dir.x + WALK_SPEED;
    }
    if input & INPUT_JUMP != 0 {
        dir.y = dir.y + JUMP_SPEED;
    }
    dir
}

/// Law: decoding an encoded key state yields exactly the vector the keys
/// stand for, for all sixteen key states; opposite horizontal keys cancel.
pub proof fn lemma_direction_of_encoded(mask: u8, left: bool, right: bool, jump: bool, interact: bool)
    requires
        (mask & INPUT_LEFT != 0) == left,
        (mask & INPUT_RIGHT != 0) == right,
        (mask & INPUT_JUMP != 0) == jump,
        (mask & INPUT_INTERACT != 0) == interact,
    ensures
        dir_x(mask) == (if right { WALK_SPEED as int } else { 0 }) - (if left {
            WALK_SPEED as int
        } else {
            0
        }),
        dir_y(mask) == if jump { JUMP_SPEED as int } else { 0 },
        left == right ==> dir_x(mask) == 0,
{
}

} // verus!
