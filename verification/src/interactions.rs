//! Vine interactions: a player overlapping a vine climbs it while the
//! interact key is held, or slides down it while airborne, both times
//! arming the one-tick gravity override so the same tick's gravity pass
//! does not cancel the set speed.

use vstd::prelude::*;
use crate::collider::{find_rec, CollidingSide};
use crate::input::INPUT_INTERACT;
use crate::world::{vel_of, BodyView, Gravity, Vec2i, Velocity, World};

verus! {

/// Upward speed while climbing a vine.
pub const VINE_CLIMB_SPEED: i64 = 1500;

/// Downward speed while sliding along a vine.
pub const VINE_SLIDE_SPEED: i64 = -750;

/// The entity can interact with vines: velocity, collider, player handle
/// and gravity all present.
pub open spec fn vine_touchable(b: BodyView) -> bool {
    b.velocity is Some && b.collider is Some && b.player is Some && b.gravity is Some
}

/// The body overlaps some vine-tagged entity.
pub open spec fn touching_vine(w: Seq<BodyView>, b: BodyView) -> bool
    recommends
        b.collider is Some,
{
    exists|e: int|
        0 <= e < w.len() && (#[trigger] w[e]).vine is Some && find_rec(
            (b.collider->0).collisions,
            e,
        ) is Some
}

/// The body has a solid contact under it.
pub open spec fn bottom_solid(b: BodyView) -> bool
    recommends
        b.collider is Some,
{
    exists|i: int|
        0 <= i < (b.collider->0).collisions.len() && (#[trigger] (b.collider->0).collisions[i]).side
            == CollidingSide::Bottom && (b.collider->0).collisions[i].solid
}

/// What one vine pass does to one body: a vine-touching player climbs at
/// the climb speed while interacting, slides at the slide speed while not
/// standing on solid ground, and in both cases arms the gravity override.
pub open spec fn vine_step_body(w: Seq<BodyView>, k: int, inputs: Seq<u8>) -> BodyView {
    let b = w[k];
    if !vine_touchable(b) {
        b
    } else {
        let h = (b.player->0).handle as int;
        if h >= inputs.len() || !touching_vine(w, b) {
            b
        } else if inputs[h] & INPUT_INTERACT != 0 {
            BodyView {
                velocity: Some(Velocity(Vec2i { x: vel_of(b).x, y: VINE_CLIMB_SPEED })),
                gravity: Some(Gravity((b.gravity->0).0, true)),
                ..b
            }
        } else if !bottom_solid(b) {
            BodyView {
                velocity: Some(Velocity(Vec2i { x: vel_of(b).x, y: VINE_SLIDE_SPEED })),
                gravity: Some(Gravity((b.gravity->0).0, true)),
                ..b
            }
        } else {
            b
        }
    }
}

/// One vine pass over the whole world.
pub open spec fn vine_stage(w: Seq<BodyView>, inputs: Seq<u8>) -> Seq<BodyView> {
    Seq::new(w.len(), |k: int| vine_step_body(w, k, inputs))
}

/// Touching a vine depends only on the body's contact records and the
/// worlds' vine tags, so two worlds with the same tags agree.
pub proof fn lemma_touching_eq(w1: Seq<BodyView>, w2: Seq<BodyView>, b: BodyView)
    requires
        w1.len() == w2.len(),
        forall|e: int| 0 <= e < w1.len() ==> (#[trigger] w1[e]).vine == w2[e].vine,
    ensures
        touching_vine(w1, b) == touching_vine(w2, b),
{
    let recs = (b.collider->0).collisions;
    if touching_vine(w1, b) {
        let e = choose|e: int| 0 <= e < w1.len() && (#[trigger] w1[e]).vine is Some && find_rec(recs, e) is Some;
        assert(w2[e].vine is Some && find_rec(recs, e) is Some);
    }
    if touching_vine(w2, b) {
        let e = choose|e: int| 0 <= e < w2.len() && (#[trigger] w2[e]).vine is Some && find_rec(recs, e) is Some;
        assert(w1[e].vine is Some && find_rec(recs, e) is Some);
    }
}

/// Whether entity `k` overlaps any vine-tagged entity.
fn touches_vine(w: &World, k: usize, n: usize) -> (r: bool)
    requires
        n == w@.len(),
        k < n,
        w@[k as int].collider is Some,
    ensures
        r == touching_vine(w@, w@[k as int]),
{
    let ghost recs = (w@[k as int].collider->0).collisions;
    let mut e: usize = 0;
    while e < n
        invariant
            n == w@.len(),
            k < n,
            w@[k as int].collider is Some,
            recs == (w@[k as int].collider->0).collisions,
            0 <= e <= n,
            forall|t: int| 0 <= t < e ==> !((#[trigger] w@[t]).vine is Some && find_rec(recs, t) is Some),
        decreases n - e,
    {
        if w.bodies[e].vine.is_some() {
            let hit = match &w.bodies[k].collider {
                Some(c) => c.colliding_with(e).is_some(),
                None => false,
            };
            if hit {
                proof {
                    let ghost b = w@[k as int];
                    assert(0 <= e < w@.len() && w@[e as int].vine is Some && find_rec(
                        (b.collider->0).collisions,
                        e as int,
                    ) is Some);
                    assert(touching_vine(w@, b));
                }
                return true;
            }
        }
        e = e + 1;
    }
    false
}

/// Lets every vine-touching player interact with the vine: holding the
/// interact key climbs, hanging in the air slides, and either one arms the
/// one-tick gravity override so this tick's gravity pass is skipped.
pub fn handle_vine_interactions(w: &mut World, inputs: &Vec<u8>)
    ensures
        final(w)@ == vine_stage(old(w)@, inputs@),
{
    let ghost w0 = w@;
    let n = w.bodies.len();
    let mut k: usize = 0;
    while k < n
        invariant
            n == w.bodies@.len(),
            w0.len() == n,
            0 <= k <= n,
            forall|i: int| 0 <= i < k ==> w.bodies@[i]@ == vine_step_body(w0, i, inputs@),
            forall|i: int| k <= i < n ==> w.bodies@[i]@ == w0[i],
        decreases n - k,
    {
        let able = w.bodies[k].velocity.is_some() && w.bodies[k].collider.is_some()
            && w.bodies[k].player.is_some() && w.bodies[k].gravity.is_some();
        if able {
            let handle = w.bodies[k].player.unwrap().handle;
            if handle < inputs.len() {
                let input = inputs[handle];
                let touching = touches_vine(w, k, n);
                proof {
                    assert(w.bodies@[k as int]@ == w0[k as int]);
                    assert forall|e: int|
                        0 <= e < w0.len() implies (#[trigger] w@[e]).vine == w0[e].vine by {
                        if e < k {
                            assert(w@[e] == vine_step_body(w0, e, inputs@));
                        }
                    }
                    lemma_touching_eq(w@, w0, w0[k as int]);
                }
                if touching {
                    let v = w.bodies[k].velocity.unwrap();
                    let g = w.bodies[k].gravity.unwrap();
                    if input & INPUT_INTERACT != 0 {
                        w.bodies[k].velocity = Some(
                            Velocity(Vec2i { x: v.0.x, y: VINE_CLIMB_SPEED }),
                        );
                        w.bodies[k].gravity = Some(Gravity(g.0, true));
                    } else {
                        let grounded = match &w.bodies[k].collider {
                            Some(c) => c.check_colliding_solid_side(CollidingSide::Bottom),
                            None => false,
                        };
                        if !grounded {
                            w.bodies[k].velocity = Some(
                                Velocity(Vec2i { x: v.0.x, y: VINE_SLIDE_SPEED }),
                            );
                            w.bodies[k].gravity = Some(Gravity(g.0, true));
                        }
                    }
                }
            }
        }
        proof {
            assert(w.bodies@[k as int]@ =~= vine_step_body(w0, k as int, inputs@));
        }
        k = k + 1;
    }
    proof {
        assert(w@ =~= vine_stage(w0, inputs@));
    }
}

} // verus!
