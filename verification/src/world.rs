//! The simulated world: entities and the components the physics engine
//! reads and writes. Every field is a plain integer or bool so that a tick
//! is a pure function of (state, inputs) and replays bit-identically.
//!
//! Distances are fixed-point: [`UNIT`] sub-units per world unit. Wall-time
//! durations (the grace window, the handshake timeout) are counted in
//! milliseconds; the physics stages take the tick's duration in whatever
//! time unit the session fixes, the canonical loop passing 1 per tick.

use vstd::prelude::*;
use crate::collider::{Collider, ColliderView};
use crate::components::{CoyoteTime, Platform, Player, Vine};

verus! {

/// Sub-units per world unit of distance.
pub const UNIT: i64 = 1000;

/// One second, in the time unit used throughout (milliseconds).
pub const SECOND: i64 = 1000;

/// A two-dimensional fixed-point vector.
#[derive(PartialEq, Eq, Structural, Debug, Clone, Copy)]
pub struct Vec2i {
    pub x: i64,
    pub y: i64,
}

/// Position in 2D world space. Rotation is unused and not stored.
#[derive(PartialEq, Eq, Structural, Debug, Clone, Copy)]
pub struct Transform {
    pub translation: Vec2i,
}

/// Velocity in sub-units per time unit.
#[derive(PartialEq, Eq, Structural, Debug, Clone, Copy)]
pub struct Velocity(pub Vec2i);

impl Velocity {
    /// The position change over `delta_time`, axis by axis.
    pub fn calc_pos_delta(&self, delta_time: i64) -> (d: Vec2i)
        requires
            i64::MIN <= self.0.x * delta_time <= i64::MAX,
            i64::MIN <= self.0.y * delta_time <= i64::MAX,
        ensures
            d.x == self.0.x * delta_time,
            d.y == self.0.y * delta_time,
    {
        Vec2i { x: self.0.x * delta_time, y: self.0.y * delta_time }
    }

    /// Adds another vector onto the velocity.
    pub fn add(&mut self, other: Vec2i)
        requires
            i64::MIN <= old(self).0.x + other.x <= i64::MAX,
            i64::MIN <= old(self).0.y + other.y <= i64::MAX,
        ensures
            final(self).0.x == old(self).0.x + other.x,
            final(self).0.y == old(self).0.y + other.y,
    {
        self.0.x = self.0.x + other.x;
        self.0.y = self.0.y + other.y;
    }
}

/// Scalar vertical acceleration plus a one-tick override flag: while the
/// flag is set, the next gravity application is skipped and the flag
/// auto-clears.
#[derive(PartialEq, Eq, Structural, Debug, Clone, Copy)]
pub struct Gravity(pub i64, pub bool);

impl Gravity {
    /// The velocity change gravity contributes over `delta_time`.
    pub fn calc_velo_delta(&self, delta_time: i64) -> (d: Vec2i)
        requires
            i64::MIN <= self.0 * delta_time <= i64::MAX,
        ensures
            d.x == 0,
            d.y == self.0 * delta_time,
    {
        Vec2i { x: 0, y: self.0 * delta_time }
    }

    /// Arms the one-tick override: the next gravity application is skipped.
    pub fn temp_override(&mut self)
        ensures
            final(self).0 == old(self).0,
            final(self).1,
    {
        self.1 = true;
    }

    pub fn clear_temp_override(&mut self)
        ensures
            final(self).0 == old(self).0,
            !final(self).1,
    {
        self.1 = false;
    }

    pub fn overriden(&self) -> (r: bool)
        ensures
            r == self.1,
    {
        self.1
    }
}

/// Whether the entity takes part in solid push-out resolution.
#[derive(PartialEq, Eq, Structural, Debug, Clone, Copy)]
pub struct Solid(pub bool);

/// One simulation entity: each component it carries, or `None` where the
/// entity does not own that component. An entity's identity is its index in
/// the world.
#[derive(Debug)]
pub struct Body {
    pub transform: Option<Transform>,
    pub velocity: Option<Velocity>,
    pub gravity: Option<Gravity>,
    pub collider: Option<Collider>,
    pub solid: Option<Solid>,
    pub player: Option<Player>,
    pub coyote_time: Option<CoyoteTime>,
    pub platform: Option<Platform>,
    pub vine: Option<Vine>,
}

/// The view of a body: the same components with the collider abstracted to
/// its view.
#[verifier::ext_equal]
pub struct BodyView {
    pub transform: Option<Transform>,
    pub velocity: Option<Velocity>,
    pub gravity: Option<Gravity>,
    pub collider: Option<ColliderView>,
    pub solid: Option<Solid>,
    pub player: Option<Player>,
    pub coyote_time: Option<CoyoteTime>,
    pub platform: Option<Platform>,
    pub vine: Option<Vine>,
}

impl View for Body {
    type V = BodyView;

    open spec fn view(&self) -> BodyView {
        BodyView {
            transform: self.transform,
            velocity: self.velocity,
            gravity: self.gravity,
            collider: match self.collider {
                Some(c) => Some(c@),
                None => None,
            },
            solid: self.solid,
            player: self.player,
            coyote_time: self.coyote_time,
            platform: self.platform,
            vine: self.vine,
        }
    }
}

/// The simulated world: all live entities, addressed by index.
#[derive(Debug)]
pub struct World {
    pub bodies: Vec<Body>,
}

impl View for World {
    type V = Seq<BodyView>;

    open spec fn view(&self) -> Seq<BodyView> {
        self.bodies@.map_values(|b: Body| b@)
    }
}

impl World {
    pub fn new() -> (w: Self)
        ensures
            w@ == Seq::<BodyView>::empty(),
    {
        let w = World { bodies: Vec::new() };
        assert(w@ =~= Seq::<BodyView>::empty());
        w
    }

    /// Appends an entity and reports its index.
    pub fn push_body(&mut self, body: Body) -> (idx: usize)
        ensures
            final(self)@ == old(self)@.push(body@),
            idx == old(self)@.len(),
    {
        let idx = self.bodies.len();
        self.bodies.push(body);
        assert(self@ =~= old(self)@.push(body@));
        idx
    }

    pub fn len(&self) -> (n: usize)
        ensures
            n == self@.len(),
    {
        self.bodies.len()
    }
}

/// A body with no components and no tags.
pub open spec fn empty_body_view() -> BodyView {
    BodyView {
        transform: None,
        velocity: None,
        gravity: None,
        collider: None,
        solid: None,
        player: None,
        coyote_time: None,
        platform: None,
        vine: None,
    }
}

impl Body {
    /// A body with no components and no tags, to be filled field by field.
    pub fn empty() -> (b: Self)
        ensures
            b@ == empty_body_view(),
    {
        Body {
            transform: None,
            velocity: None,
            gravity: None,
            collider: None,
            solid: None,
            player: None,
            coyote_time: None,
            platform: None,
            vine: None,
        }
    }
}

/// The entity carries both a transform and a collider, so the collision
/// engine tests it against the others.
pub open spec fn has_box(b: BodyView) -> bool {
    b.transform is Some && b.collider is Some
}

/// The entity is subject to gravity: it carries gravity, velocity and a
/// collider.
pub open spec fn has_grav(b: BodyView) -> bool {
    b.gravity is Some && b.velocity is Some && b.collider is Some
}

/// The entity moves: it carries velocity and a transform.
pub open spec fn has_motion(b: BodyView) -> bool {
    b.velocity is Some && b.transform is Some
}

/// The entity takes part in solid resolution: a box plus a solid flag.
pub open spec fn solid_trio(b: BodyView) -> bool {
    has_box(b) && b.solid is Some
}

/// The position of a body that has a transform.
pub open spec fn pos_of(b: BodyView) -> Vec2i
    recommends
        b.transform is Some,
{
    b.transform->0.translation
}

/// The velocity vector of a body that has a velocity.
pub open spec fn vel_of(b: BodyView) -> Vec2i
    recommends
        b.velocity is Some,
{
    (b.velocity->0).0
}


/// The body stands on a platform: one of its bottom-side contacts names a
/// live entity tagged as a platform.
pub open spec fn standing_on_platform(w: Seq<BodyView>, b: BodyView) -> bool
    recommends
        b.collider is Some,
{
    exists|i: int|
        0 <= i < (b.collider->0).collisions.len() && (#[trigger] (b.collider->0).collisions[i]).side
            == crate::collider::CollidingSide::Bottom && 0 <= (
        b.collider->0).collisions[i].entity < w.len() && w[(
        b.collider->0).collisions[i].entity as int].platform is Some
}


/// Standing on a platform depends only on the body's contact records and
/// the worlds' platform tags, so two worlds with the same tags agree.
pub proof fn lemma_standing_eq(w1: Seq<BodyView>, w2: Seq<BodyView>, b: BodyView)
    requires
        w1.len() == w2.len(),
        forall|e: int| 0 <= e < w1.len() ==> #[trigger] w1[e].platform == w2[e].platform,
    ensures
        standing_on_platform(w1, b) == standing_on_platform(w2, b),
{
    let recs = (b.collider->0).collisions;
    if standing_on_platform(w1, b) {
        let i = choose|i: int|
            0 <= i < recs.len() && (#[trigger] recs[i]).side == crate::collider::CollidingSide::Bottom
                && 0 <= recs[i].entity < w1.len() && w1[recs[i].entity as int].platform is Some;
        assert(recs[i].side == crate::collider::CollidingSide::Bottom && 0 <= recs[i].entity
            < w2.len() && w2[recs[i].entity as int].platform is Some);
    }
    if standing_on_platform(w2, b) {
        let i = choose|i: int|
            0 <= i < recs.len() && (#[trigger] recs[i]).side == crate::collider::CollidingSide::Bottom
                && 0 <= recs[i].entity < w2.len() && w2[recs[i].entity as int].platform is Some;
        assert(recs[i].side == crate::collider::CollidingSide::Bottom && 0 <= recs[i].entity
            < w1.len() && w1[recs[i].entity as int].platform is Some);
    }
}

} // verus!


