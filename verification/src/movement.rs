//! Player movement from confirmed inputs, and the fall-reset that respawns
//! entities dropping below the death line.

use vstd::prelude::*;
use crate::input::{dir_x, dir_y, direction};
use crate::world::{
    has_motion, pos_of, standing_on_platform, vel_of, BodyView, Transform, Vec2i, Velocity, World,
    UNIT,
};
use crate::collider::CollidingSide;

verus! {

/// Entities whose position falls below this line are respawned.
pub const DEATH_Y: i64 = -5 * UNIT;

/// Vertical position a respawned entity is placed at.
pub const RESPAWN_Y: i64 = 3 * UNIT;

/// The entity is a steerable player: it carries velocity, a collider and a
/// player handle.
pub open spec fn steerable(b: BodyView) -> bool {
    b.velocity is Some && b.collider is Some && b.player is Some
}

/// What one movement application does to one body: a steerable player
/// whose handle has an input gets the decoded horizontal speed, and the
/// decoded jump speed when it is jumping off a platform it stands on.
pub open spec fn move_step_body(w: Seq<BodyView>, k: int, inputs: Seq<u8>) -> BodyView {
    let b = w[k];
    if !steerable(b) {
        b
    } else {
        let h = (b.player->0).handle as int;
        if h >= inputs.len() {
            b
        } else {
            let dx = dir_x(inputs[h]);
            let dy = dir_y(inputs[h]);
            let vy = if dy > 0 && standing_on_platform(w, b) {
                dy as i64
            } else {
                vel_of(b).y
            };
            BodyView { velocity: Some(Velocity(Vec2i { x: dx as i64, y: vy })), ..b }
        }
    }
}

/// One movement application over the whole world.
pub open spec fn move_stage(w: Seq<BodyView>, inputs: Seq<u8>) -> Seq<BodyView> {
    Seq::new(w.len(), |k: int| move_step_body(w, k, inputs))
}

/// Applies the per-player inputs, indexed by player handle: the horizontal
/// speed becomes the decoded direction, and a positive decoded jump speed
/// is taken only while standing on a platform. A player whose handle has
/// no input this tick is left alone.
pub fn move_player_multiplayer(w: &mut World, inputs: &Vec<u8>)
    ensures
        final(w)@ == move_stage(old(w)@, inputs@),
{
    let ghost w0 = w@;
    let n = w.bodies.len();
    let mut k: usize = 0;
    while k < n
        invariant
            n == w.bodies@.len(),
            w0.len() == n,
            0 <= k <= n,
            forall|i: int| 0 <= i < k ==> w.bodies@[i]@ == move_step_body(w0, i, inputs@),
            forall|i: int| k <= i < n ==> w.bodies@[i]@ == w0[i],
        decreases n - k,
    {
        let is_player = w.bodies[k].velocity.is_some() && w.bodies[k].collider.is_some()
            && w.bodies[k].player.is_some();
        if is_player {
            let handle = w.bodies[k].player.unwrap().handle;
            if handle < inputs.len() {
                let input = inputs[handle];
                let dir = direction(input);
                let v = w.bodies[k].velocity.unwrap();
                let mut vy = v.0.y;
                if dir.y > 0 {
                    let standing = on_platform(w, k, n);
                    proof {
                        assert(w.bodies@[k as int]@ == w0[k as int]);
                        assert forall|e: int|
                            0 <= e < w0.len() implies #[trigger] w@[e].platform
                            == w0[e].platform by {
                            if e < k {
                                assert(w@[e] == move_step_body(w0, e, inputs@));
                            }
                        }
                        crate::world::lemma_standing_eq(w@, w0, w0[k as int]);
                    }
                    if standing {
                        vy = dir.y;
                    }
                }
                w.bodies[k].velocity = Some(Velocity(Vec2i { x: dir.x, y: vy }));
            }
        }
        proof {
            assert(w.bodies@[k as int]@ =~= move_step_body(w0, k as int, inputs@));
        }
        k = k + 1;
    }
    proof {
        assert(w@ =~= move_stage(w0, inputs@));
    }
}

/// Whether entity `k`'s collider has a bottom-side contact with a
/// platform-tagged entity. Bodies before `k` may already have been steered
/// this tick; steering changes no collider and no tag, so the answer
/// matches the pre-pass world.
pub(crate) fn on_platform(w: &World, k: usize, n: usize) -> (r: bool)
    requires
        n == w@.len(),
        k < n,
        w@[k as int].collider is Some,
    ensures
        r == standing_on_platform(w@, w@[k as int]),
{
    let ghost recs = (w@[k as int].collider->0).collisions;
    let c = match &w.bodies[k].collider {
        Some(c) => c,
        None => {
            return false;
        },
    };
    proof {
        assert(c@ == w@[k as int].collider->0);
    }
    let m = c.collisions.len();
    let mut i: usize = 0;
    while i < m
        invariant
            n == w@.len(),
            k < n,
            w@[k as int].collider is Some,
            recs == (w@[k as int].collider->0).collisions,
            recs == c.collisions@,
            m == recs.len(),
            0 <= i <= m,
            forall|t: int|
                0 <= t < i ==> !((#[trigger] recs[t]).side == CollidingSide::Bottom && 0 <= recs[t].entity
                    < n && w@[recs[t].entity as int].platform is Some),
        decreases m - i,
    {
        let rec = c.collisions[i];
        if matches!(rec.side, CollidingSide::Bottom) && rec.entity < n {
            if w.bodies[rec.entity].platform.is_some() {
                proof {
                    assert(w@[rec.entity as int].platform is Some);
                    let ghost b = w@[k as int];
                    assert(((b.collider->0).collisions[i as int]).side == CollidingSide::Bottom
                        && 0 <= (b.collider->0).collisions[i as int].entity < n && w@[(
                    b.collider->0).collisions[i as int].entity as int].platform is Some);
                    assert(standing_on_platform(w@, b));
                }
                return true;
            }
        }
        i = i + 1;
    }
    false
}

/// What the fall-reset does to one body: a moving entity below the death
/// line is put back at the respawn point with zero velocity.
pub open spec fn reset_step_body(b: BodyView) -> BodyView {
    if has_motion(b) && pos_of(b).y < DEATH_Y {
        BodyView {
            transform: Some(Transform { translation: Vec2i { x: 0, y: RESPAWN_Y } }),
            velocity: Some(Velocity(Vec2i { x: 0, y: 0 })),
            ..b
        }
    } else {
        b
    }
}

/// One fall-reset over the whole world.
pub open spec fn reset_stage(w: Seq<BodyView>) -> Seq<BodyView> {
    w.map_values(|b: BodyView| reset_step_body(b))
}

/// Respawns every moving entity that fell below the death line: its
/// position returns to the respawn point and its velocity is zeroed.
pub fn reset(w: &mut World)
    ensures
        final(w)@ == reset_stage(old(w)@),
{
    let ghost w0 = w@;
    let n = w.bodies.len();
    let mut k: usize = 0;
    while k < n
        invariant
            n == w.bodies@.len(),
            w0.len() == n,
            0 <= k <= n,
            forall|i: int| 0 <= i < k ==> w.bodies@[i]@ == reset_step_body(w0[i]),
            forall|i: int| k <= i < n ==> w.bodies@[i]@ == w0[i],
        decreases n - k,
    {
        let moving = w.bodies[k].transform.is_some() && w.bodies[k].velocity.is_some();
        if moving {
            let t = w.bodies[k].transform.unwrap();
            if t.translation.y < DEATH_Y {
                w.bodies[k].transform = Some(
                    Transform { translation: Vec2i { x: 0, y: RESPAWN_Y } },
                );
                w.bodies[k].velocity = Some(Velocity(Vec2i { x: 0, y: 0 }));
            }
        }
        proof {
            assert(w.bodies@[k as int]@ =~= reset_step_body(w0[k as int]));
        }
        k = k + 1;
    }
    proof {
        assert(w@ =~= reset_stage(w0));
    }
}

} // verus!
