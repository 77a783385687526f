//! Snapshot and restore of the rollback-eligible state: every component
//! that influences physics output — transform, velocity, gravity, solid
//! flag, player handle, coyote window, tags, and the collider including its
//! transient contact list — is copied by value, so a restored world is
//! component-for-component identical to the one the snapshot was taken of.

use vstd::prelude::*;
use crate::collider::{Collider, CollisionRecord};
use crate::world::{Body, BodyView, World};

verus! {

/// An exact deep copy of a collider, contact list included.
fn clone_collider(c: &Collider) -> (r: Collider)
    ensures
        r@ == c@,
{
    let n = c.collisions.len();
    let mut recs: Vec<CollisionRecord> = Vec::new();
    let mut i: usize = 0;
    while i < n
        invariant
            n == c.collisions@.len(),
            0 <= i <= n,
            recs@ == c.collisions@.subrange(0, i as int),
        decreases n - i,
    {
        recs.push(c.collisions[i]);
        proof {
            assert(recs@ =~= c.collisions@.subrange(0, i as int + 1));
        }
        i = i + 1;
    }
    proof {
        assert(c.collisions@.subrange(0, n as int) =~= c.collisions@);
    }
    let r = Collider {
        bounding_box: c.bounding_box,
        collisions: recs,
        colliding_side: c.colliding_side,
    };
    proof {
        assert(r@ =~= c@);
    }
    r
}

/// An exact copy of one entity's rollback-eligible components.
fn clone_body(b: &Body) -> (r: Body)
    ensures
        r@ == b@,
{
    let collider = match &b.collider {
        Some(c) => Some(clone_collider(c)),
        None => None,
    };
    let r = Body {
        transform: b.transform,
        velocity: b.velocity,
        gravity: b.gravity,
        collider,
        solid: b.solid,
        player: b.player,
        coyote_time: b.coyote_time,
        platform: b.platform,
        vine: b.vine,
    };
    proof {
        assert(r@ =~= b@);
    }
    r
}

/// A saved world state, opaque to the rollback engine that holds it.
#[derive(Debug)]
pub struct Snapshot {
    pub bodies: Vec<Body>,
}

impl View for Snapshot {
    type V = Seq<BodyView>;

    open spec fn view(&self) -> Seq<BodyView> {
        self.bodies@.map_values(|b: Body| b@)
    }
}

/// Law (with `restore`): a snapshot holds exactly the world it was taken
/// of, so restoring it reproduces that world component for component.
pub fn snapshot(w: &World) -> (s: Snapshot)
    ensures
        s@ == w@,
{
    let n = w.bodies.len();
    let mut bodies: Vec<Body> = Vec::new();
    let mut i: usize = 0;
    while i < n
        invariant
            n == w.bodies@.len(),
            0 <= i <= n,
            bodies@.len() == i,
            forall|t: int| 0 <= t < i ==> bodies@[t]@ == w.bodies@[t]@,
        decreases n - i,
    {
        let b = clone_body(&w.bodies[i]);
        bodies.push(b);
        i = i + 1;
    }
    let s = Snapshot { bodies };
    proof {
        assert(s@ =~= w@);
    }
    s
}

/// Replaces the world's state with the snapshot's, component for component.
/// The snapshot is untouched and can restore the same state again.
pub fn restore(w: &mut World, s: &Snapshot)
    ensures
        final(w)@ == s@,
{
    let n = s.bodies.len();
    let mut bodies: Vec<Body> = Vec::new();
    let mut i: usize = 0;
    while i < n
        invariant
            n == s.bodies@.len(),
            0 <= i <= n,
            bodies@.len() == i,
            forall|t: int| 0 <= t < i ==> bodies@[t]@ == s.bodies@[t]@,
        decreases n - i,
    {
        let b = clone_body(&s.bodies[i]);
        bodies.push(b);
        i = i + 1;
    }
    w.bodies = bodies;
    proof {
        assert(w@ =~= s@);
    }
}

} // verus!
