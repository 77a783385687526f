//! The per-tick physics stages that mutate velocities and positions:
//! gravity application and velocity integration. Each stage is a pure,
//! entity-wise function of the previous state, stated by a spec function
//! and proved of the executable loop.

use vstd::prelude::*;
use crate::collider::{mask_has, CollidingSide};
use crate::world::{
    has_box, has_grav, has_motion, pos_of, vel_of, BodyView, Gravity, Transform, Vec2i, Velocity,
    World,
};

verus! {

/// While an entity rests on a floor its downward speed is clamped to this
/// small creep, steep enough for next-tick re-detection but too shallow to
/// sink in.
pub const REST_FALL_SPEED: i64 = -10;

/// What one gravity application does to one body. An entity without
/// gravity, velocity and a collider is left alone; an armed override is
/// consumed and suppresses the application; a floor contact clamps the
/// downward speed; otherwise gravity accelerates the fall.
pub open spec fn gravity_step_body(b: BodyView, dt: int) -> BodyView {
    if !has_grav(b) {
        b
    } else {
        let g = b.gravity->0;
        let v = vel_of(b);
        if g.1 {
            BodyView { gravity: Some(Gravity(g.0, false)), ..b }
        } else if mask_has((b.collider->0).colliding_side, CollidingSide::Bottom) {
            BodyView {
                velocity: Some(
                    Velocity(
                        Vec2i {
                            x: v.x,
                            y: if v.y < REST_FALL_SPEED {
                                REST_FALL_SPEED
                            } else {
                                v.y
                            },
                        },
                    ),
                ),
                ..b
            }
        } else {
            BodyView {
                velocity: Some(Velocity(Vec2i { x: v.x, y: (v.y + g.0 * dt) as i64 })),
                ..b
            }
        }
    }
}

/// One gravity application over the whole world.
pub open spec fn gravity_stage(w: Seq<BodyView>, dt: int) -> Seq<BodyView> {
    w.map_values(|b: BodyView| gravity_step_body(b, dt))
}

/// No gravity application may overflow the fixed-point range.
pub open spec fn gravity_bounds(w: Seq<BodyView>, dt: int) -> bool {
    forall|k: int|
        0 <= k < w.len() && has_grav(#[trigger] w[k]) ==> {
            let g = (w[k].gravity->0).0;
            let vy = vel_of(w[k]).y;
            i64::MIN <= g * dt <= i64::MAX && i64::MIN <= vy + g * dt <= i64::MAX
        }
}

/// Applies gravity to every entity carrying gravity, velocity and a
/// collider, in entity order: an armed override is consumed and skips the
/// application, a floor contact clamps the downward speed, and otherwise
/// `gravity * dt` is added to the vertical speed.
pub fn handle_gravity(w: &mut World, delta_time: i64)
    requires
        delta_time >= 0,
        gravity_bounds(old(w)@, delta_time as int),
    ensures
        final(w)@ == gravity_stage(old(w)@, delta_time as int),
{
    let ghost w0 = w@;
    let n = w.bodies.len();
    let mut k: usize = 0;
    while k < n
        invariant
            n == w.bodies@.len(),
            w0.len() == n,
            0 <= k <= n,
            delta_time >= 0,
            gravity_bounds(w0, delta_time as int),
            forall|i: int| 0 <= i < k ==> w.bodies@[i]@ == gravity_step_body(w0[i], delta_time as int),
            forall|i: int| k <= i < n ==> w.bodies@[i]@ == w0[i],
        decreases n - k,
    {
        let has = w.bodies[k].gravity.is_some() && w.bodies[k].velocity.is_some()
            && w.bodies[k].collider.is_some();
        if has {
            let g = w.bodies[k].gravity.unwrap();
            let v = w.bodies[k].velocity.unwrap();
            if g.1 {
                w.bodies[k].gravity = Some(Gravity(g.0, false));
            } else {
                let bottom = match &w.bodies[k].collider {
                    Some(c) => c.check_colliding_side(CollidingSide::Bottom),
                    None => false,
                };
                if bottom {
                    if v.0.y < REST_FALL_SPEED {
                        w.bodies[k].velocity = Some(
                            Velocity(Vec2i { x: v.0.x, y: REST_FALL_SPEED }),
                        );
                    }
                } else {
                    let mut v2 = v;
                    v2.add(g.calc_velo_delta(delta_time));
                    w.bodies[k].velocity = Some(v2);
                }
            }
        }
        proof {
            assert(w.bodies@[k as int]@ =~= gravity_step_body(w0[k as int], delta_time as int));
        }
        k = k + 1;
    }
    proof {
        assert(w@ =~= gravity_stage(w0, delta_time as int));
    }
}

/// What one velocity integration does to one body: an entity with velocity
/// and transform moves by `velocity * dt`.
pub open spec fn velocity_step_body(b: BodyView, dt: int) -> BodyView {
    if !has_motion(b) {
        b
    } else {
        let p = pos_of(b);
        let v = vel_of(b);
        BodyView {
            transform: Some(
                Transform {
                    translation: Vec2i { x: (p.x + v.x * dt) as i64, y: (p.y + v.y * dt) as i64 },
                },
            ),
            ..b
        }
    }
}

/// One velocity integration over the whole world.
pub open spec fn velocity_stage(w: Seq<BodyView>, dt: int) -> Seq<BodyView> {
    w.map_values(|b: BodyView| velocity_step_body(b, dt))
}

/// No velocity integration may overflow the fixed-point range.
pub open spec fn velocity_bounds(w: Seq<BodyView>, dt: int) -> bool {
    forall|k: int|
        0 <= k < w.len() && has_motion(#[trigger] w[k]) ==> {
            let p = pos_of(w[k]);
            let v = vel_of(w[k]);
            i64::MIN <= v.x * dt <= i64::MAX && i64::MIN <= v.y * dt <= i64::MAX && i64::MIN <= p.x
                + v.x * dt <= i64::MAX && i64::MIN <= p.y + v.y * dt <= i64::MAX
        }
}

/// Moves every entity carrying velocity and a transform by `velocity * dt`.
pub fn handle_velocity(w: &mut World, delta_time: i64)
    requires
        velocity_bounds(old(w)@, delta_time as int),
    ensures
        final(w)@ == velocity_stage(old(w)@, delta_time as int),
{
    let ghost w0 = w@;
    let n = w.bodies.len();
    let mut k: usize = 0;
    while k < n
        invariant
            n == w.bodies@.len(),
            w0.len() == n,
            0 <= k <= n,
            velocity_bounds(w0, delta_time as int),
            forall|i: int| 0 <= i < k ==> w.bodies@[i]@ == velocity_step_body(w0[i], delta_time as int),
            forall|i: int| k <= i < n ==> w.bodies@[i]@ == w0[i],
        decreases n - k,
    {
        let has = w.bodies[k].velocity.is_some() && w.bodies[k].transform.is_some();
        if has {
            let v = w.bodies[k].velocity.unwrap();
            let t = w.bodies[k].transform.unwrap();
            let delta = v.calc_pos_delta(delta_time);
            w.bodies[k].transform = Some(
                Transform {
                    translation: Vec2i { x: t.translation.x + delta.x, y: t.translation.y + delta.y },
                },
            );
        }
        proof {
            assert(w.bodies@[k as int]@ =~= velocity_step_body(w0[k as int], delta_time as int));
        }
        k = k + 1;
    }
    proof {
        assert(w@ =~= velocity_stage(w0, delta_time as int));
    }
}

/// A product of values within the given magnitudes stays within their
/// product.
pub proof fn lemma_mul_range(a: int, b: int, la: int, lb: int)
    by (nonlinear_arith)
    requires
        -la <= a <= la,
        0 <= b <= lb,
        la >= 0,
    ensures
        -(la * lb) <= a * b <= la * lb,
{
}

/// Magnitude bound under which one whole tick stays exact.
pub const STEP_LIMIT: i64 = 0x100_0000;

/// Longest tick duration, in milliseconds, a step accepts.
pub const STEP_DT_LIMIT: i64 = 0x1_0000;

/// One body's values lie within the per-tick magnitude bound.
pub open spec fn body_step_bounds(b: BodyView) -> bool {
    &&& (b.transform matches Some(t) ==> -STEP_LIMIT <= t.translation.x <= STEP_LIMIT
        && -STEP_LIMIT <= t.translation.y <= STEP_LIMIT)
    &&& (b.velocity matches Some(v) ==> -STEP_LIMIT <= v.0.x <= STEP_LIMIT && -STEP_LIMIT <= v.0.y
        <= STEP_LIMIT)
    &&& (b.gravity matches Some(g) ==> -STEP_LIMIT <= g.0 <= STEP_LIMIT)
    &&& (b.collider matches Some(c) ==> 0 <= c.bounding_box.x <= STEP_LIMIT && 0
        <= c.bounding_box.y <= STEP_LIMIT)
}

/// Sizes under which a whole tick's arithmetic stays exact.
pub open spec fn step_bounds(w: Seq<BodyView>, dt: int) -> bool {
    &&& 0 <= dt <= STEP_DT_LIMIT
    &&& w.len() <= crate::solids::MAX_BODIES
    &&& forall|k: int| 0 <= k < w.len() ==> body_step_bounds(#[trigger] w[k])
}

/// Whether one body's values lie within the per-tick magnitude bound.
fn body_step_bounds_ok(b: &crate::world::Body) -> (r: bool)
    ensures
        r == body_step_bounds(b@),
{
    let t_ok = match b.transform {
        Some(t) => -STEP_LIMIT <= t.translation.x && t.translation.x <= STEP_LIMIT
            && -STEP_LIMIT <= t.translation.y && t.translation.y <= STEP_LIMIT,
        None => true,
    };
    let v_ok = match b.velocity {
        Some(v) => -STEP_LIMIT <= v.0.x && v.0.x <= STEP_LIMIT && -STEP_LIMIT <= v.0.y && v.0.y
            <= STEP_LIMIT,
        None => true,
    };
    let g_ok = match b.gravity {
        Some(g) => -STEP_LIMIT <= g.0 && g.0 <= STEP_LIMIT,
        None => true,
    };
    let c_ok = match &b.collider {
        Some(c) => 0 <= c.bounding_box.x && c.bounding_box.x <= STEP_LIMIT && 0
            <= c.bounding_box.y && c.bounding_box.y <= STEP_LIMIT,
        None => true,
    };
    t_ok && v_ok && g_ok && c_ok
}

/// Decides whether a whole tick's arithmetic stays exact on this world —
/// the run-time check a driver gates a tick on before advancing the frame.
pub fn step_bounds_ok(w: &World, delta_time: i64) -> (r: bool)
    ensures
        r == step_bounds(w@, delta_time as int),
{
    if !(0 <= delta_time && delta_time <= STEP_DT_LIMIT) {
        return false;
    }
    let n = w.bodies.len();
    if n > crate::solids::MAX_BODIES {
        return false;
    }
    let mut k: usize = 0;
    while k < n
        invariant
            n == w@.len(),
            0 <= k <= n,
            forall|i: int| 0 <= i < k ==> body_step_bounds(#[trigger] w@[i]),
        decreases n - k,
    {
        if !body_step_bounds_ok(&w.bodies[k]) {
            proof {
                assert(!body_step_bounds(w@[k as int]));
            }
            return false;
        }
        k = k + 1;
    }
    true
}

/// Everything one tick of the physics stepper does, in its load-bearing
/// order: gravity, velocity integration, a fresh collision detection pass,
/// then solid resolution against this tick's contacts with an empty
/// visited-pairs set.
pub open spec fn physics_step_spec(w: Seq<BodyView>, dt: int) -> Seq<BodyView> {
    crate::solids::resolve_stage(
        crate::detection::detect_stage(velocity_stage(gravity_stage(w, dt), dt)),
        Set::empty(),
    )
}

/// Every contact detection records has a nonnegative overlap no deeper
/// than the box-extent bound.
pub proof fn lemma_contacts_overlap_bounded(w: Seq<BodyView>, k: int, upto: int, lim: int)
    requires
        0 <= k < w.len(),
        upto <= w.len(),
        lim >= 0,
        forall|i: int|
            0 <= i < w.len() && has_box(#[trigger] w[i]) ==> 0 <= (w[i].collider->0).bounding_box.x
                <= lim && 0 <= (w[i].collider->0).bounding_box.y <= lim,
        lim < i64::MAX,
    ensures
        forall|i: int|
            0 <= i < crate::detection::contacts_upto(w, k, upto).len() ==> 0 <= (
            #[trigger] crate::detection::contacts_upto(w, k, upto)[i]).overlap <= lim,
    decreases upto,
{
    if upto > 0 {
        lemma_contacts_overlap_bounded(w, k, upto - 1, lim);
        if upto - 1 != k && crate::detection::colliding_spec(w[k], w[upto - 1]) {
            let c = crate::detection::contacts_upto(w, k, upto);
            assert(c[c.len() - 1] == crate::detection::record_for(w, k, upto - 1));
            assert(crate::detection::sep_x(w[k], w[upto - 1]) >= -lim);
            assert(crate::detection::sep_y(w[k], w[upto - 1]) >= -lim);
            assert(0 <= crate::detection::overlap_of(w[k], w[upto - 1]) <= lim);
        }
    }
}

/// Advances the simulation by one tick: gravity, velocity integration,
/// collision detection, then solid resolution over a fresh visited-pairs
/// set. Resolution works against this tick's contact data, which keeps a
/// resimulated tick identical to the original one.
pub fn physics_step(w: &mut World, delta_time: i64)
    requires
        step_bounds(old(w)@, delta_time as int),
    ensures
        final(w)@ == physics_step_spec(old(w)@, delta_time as int),
{
    let ghost w0 = w@;
    let ghost dt = delta_time as int;
    proof {
        assert forall|k: int| 0 <= k < w0.len() && has_grav(#[trigger] w0[k]) implies {
            let g = (w0[k].gravity->0).0;
            let vy = vel_of(w0[k]).y;
            i64::MIN <= g * dt <= i64::MAX && i64::MIN <= vy + g * dt <= i64::MAX
        } by {
            let g = (w0[k].gravity->0).0;
            lemma_mul_range(g as int, dt, STEP_LIMIT as int, STEP_DT_LIMIT as int);
        }
    }
    handle_gravity(w, delta_time);
    let ghost w1 = w@;
    proof {
        assert forall|k: int| 0 <= k < w1.len() && has_motion(#[trigger] w1[k]) implies {
            let p = pos_of(w1[k]);
            let v = vel_of(w1[k]);
            i64::MIN <= v.x * dt <= i64::MAX && i64::MIN <= v.y * dt <= i64::MAX && i64::MIN <= p.x
                + v.x * dt <= i64::MAX && i64::MIN <= p.y + v.y * dt <= i64::MAX
        } by {
            assert(w1[k] == gravity_step_body(w0[k], dt));
            assert(body_step_bounds(w0[k]));
            let v = vel_of(w1[k]);
            if has_grav(w0[k]) {
                let g = (w0[k].gravity->0).0;
                lemma_mul_range(g as int, dt, STEP_LIMIT as int, STEP_DT_LIMIT as int);
            }
            assert(-(STEP_LIMIT + STEP_LIMIT * STEP_DT_LIMIT) <= v.x <= STEP_LIMIT + STEP_LIMIT
                * STEP_DT_LIMIT);
            assert(-(STEP_LIMIT + STEP_LIMIT * STEP_DT_LIMIT) <= v.y <= STEP_LIMIT + STEP_LIMIT
                * STEP_DT_LIMIT);
            lemma_mul_range(
                v.x as int,
                dt,
                STEP_LIMIT + STEP_LIMIT * (STEP_DT_LIMIT as int),
                STEP_DT_LIMIT as int,
            );
            lemma_mul_range(
                v.y as int,
                dt,
                STEP_LIMIT + STEP_LIMIT * (STEP_DT_LIMIT as int),
                STEP_DT_LIMIT as int,
            );
        }
    }
    handle_velocity(w, delta_time);
    let ghost w2 = w@;
    proof {
        assert forall|k: int|
            0 <= k < w2.len() && has_box(#[trigger] w2[k]) implies {
            let p = pos_of(w2[k]);
            let bb = (w2[k].collider->0).bounding_box;
            -crate::detection::POS_LIMIT <= p.x <= crate::detection::POS_LIMIT
                && -crate::detection::POS_LIMIT <= p.y <= crate::detection::POS_LIMIT && 0 <= bb.x
                <= crate::detection::POS_LIMIT && 0 <= bb.y <= crate::detection::POS_LIMIT
        } by {
            assert(w2[k] == velocity_step_body(w1[k], dt));
            assert(w1[k] == gravity_step_body(w0[k], dt));
            assert(body_step_bounds(w0[k]));
            if has_motion(w1[k]) {
                let v = vel_of(w1[k]);
                if has_grav(w0[k]) {
                    let g = (w0[k].gravity->0).0;
                    lemma_mul_range(g as int, dt, STEP_LIMIT as int, STEP_DT_LIMIT as int);
                }
                lemma_mul_range(
                    v.x as int,
                    dt,
                    STEP_LIMIT + STEP_LIMIT * (STEP_DT_LIMIT as int),
                    STEP_DT_LIMIT as int,
                );
                lemma_mul_range(
                    v.y as int,
                    dt,
                    STEP_LIMIT + STEP_LIMIT * (STEP_DT_LIMIT as int),
                    STEP_DT_LIMIT as int,
                );
            }
        }
    }
    crate::detection::handle_colliders(w);
    let ghost w3 = w@;
    proof {
        assert forall|k: int|
            0 <= k < w3.len() && crate::world::solid_trio(#[trigger] w3[k]) implies {
            let p = pos_of(w3[k]);
            let recs = (w3[k].collider->0).collisions;
            &&& -crate::solids::RESOLVE_POS_LIMIT <= p.x <= crate::solids::RESOLVE_POS_LIMIT
            &&& -crate::solids::RESOLVE_POS_LIMIT <= p.y <= crate::solids::RESOLVE_POS_LIMIT
            &&& forall|i: int|
                0 <= i < recs.len() ==> 0 <= (#[trigger] recs[i]).overlap
                    <= crate::solids::OVERLAP_LIMIT
        } by {
            assert(w3[k] == crate::detection::detect_body(w2, k));
            assert(w2[k] == velocity_step_body(w1[k], dt));
            assert(w1[k] == gravity_step_body(w0[k], dt));
            assert(body_step_bounds(w0[k]));
            if has_motion(w1[k]) {
                let v = vel_of(w1[k]);
                if has_grav(w0[k]) {
                    let g = (w0[k].gravity->0).0;
                    lemma_mul_range(g as int, dt, STEP_LIMIT as int, STEP_DT_LIMIT as int);
                }
                lemma_mul_range(
                    v.x as int,
                    dt,
                    STEP_LIMIT + STEP_LIMIT * (STEP_DT_LIMIT as int),
                    STEP_DT_LIMIT as int,
                );
                lemma_mul_range(
                    v.y as int,
                    dt,
                    STEP_LIMIT + STEP_LIMIT * (STEP_DT_LIMIT as int),
                    STEP_DT_LIMIT as int,
                );
            }
            assert forall|i: int|
                0 <= i < w2.len() && has_box(#[trigger] w2[i]) implies 0 <= (
            w2[i].collider->0).bounding_box.x <= STEP_LIMIT as int && 0 <= (
            w2[i].collider->0).bounding_box.y <= STEP_LIMIT as int by {
                assert(w2[i] == velocity_step_body(w1[i], dt));
                assert(w1[i] == gravity_step_body(w0[i], dt));
                assert(body_step_bounds(w0[i]));
            }
            lemma_contacts_overlap_bounded(w2, k, w2.len() as int, STEP_LIMIT as int);
        }
    }
    let mut handled = crate::solids::ResolvedPairs::new();
    crate::solids::handle_solids(w, &mut handled);
}

/// Law: the one-shot gravity override is consumed by exactly one tick.
/// On the tick it is armed, the application only clears the flag and
/// leaves the velocity alone; on the next tick gravity applies normally,
/// even to a velocity that was changed from outside in between.
pub proof fn lemma_gravity_override_one_shot(b: BodyView, v: Velocity, dt1: int, dt2: int)
    requires
        has_grav(b),
        (b.gravity->0).1,
        !mask_has((b.collider->0).colliding_side, CollidingSide::Bottom),
    ensures
        gravity_step_body(b, dt1).velocity == b.velocity,
        !(gravity_step_body(b, dt1).gravity->0).1,
        (gravity_step_body(b, dt1).gravity->0).0 == (b.gravity->0).0,
        vel_of(
            gravity_step_body(
                BodyView { velocity: Some(v), ..gravity_step_body(b, dt1) },
                dt2,
            ),
        ).y == (v.0.y + (b.gravity->0).0 * dt2) as i64,
{
}

} // verus!
