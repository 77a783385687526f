//! Gameplay components that ride along with the physics state: the player
//! handle, the platform and vine tags, and the coyote-time grace window.

use vstd::prelude::*;
use crate::world::{standing_on_platform, BodyView, World};

verus! {

/// Stable handle mapping a simulation entity to an input source.
#[derive(PartialEq, Eq, Structural, Debug, Clone, Copy)]
pub struct Player {
    pub handle: usize,
}

/// Tag: a climbable zone a player can interact with.
#[derive(PartialEq, Eq, Structural, Debug, Clone, Copy)]
pub struct Vine;

/// Tag: a one-way stand-on surface.
#[derive(PartialEq, Eq, Structural, Debug, Clone, Copy)]
pub struct Platform;

/// A one-shot countdown granting a short post-leaving-platform jump grace
/// window, counted in milliseconds.
#[derive(PartialEq, Eq, Structural, Debug, Clone, Copy)]
pub struct CoyoteTime {
    pub remaining: i64,
    pub duration: i64,
}

impl CoyoteTime {
    /// The window never runs negative and never exceeds its full duration.
    pub open spec fn wf(&self) -> bool {
        0 <= self.remaining <= self.duration
    }

    /// A fresh window with the whole grace duration ahead of it.
    pub fn new(buffer_ms: i64) -> (r: Self)
        requires
            buffer_ms >= 0,
        ensures
            r.wf(),
            r.duration == buffer_ms,
            r.remaining == buffer_ms,
    {
        Self { remaining: buffer_ms, duration: buffer_ms }
    }

    /// Lets `duration_ms` elapse, stopping at zero.
    pub fn tick(&mut self, duration_ms: i64)
        requires
            duration_ms >= 0,
        ensures
            final(self).duration == old(self).duration,
            final(self).remaining == if old(self).remaining > duration_ms {
                old(self).remaining - duration_ms
            } else {
                0
            },
            old(self).wf() ==> final(self).wf(),
    {
        if self.remaining > duration_ms {
            self.remaining = self.remaining - duration_ms;
        } else {
            self.remaining = 0;
        }
    }

    /// Standing on a platform restores the full grace window.
    pub fn set_on_platform(&mut self)
        ensures
            final(self).duration == old(self).duration,
            final(self).remaining == old(self).duration,
            old(self).duration >= 0 ==> final(self).wf(),
    {
        self.remaining = self.duration;
    }

    /// Whether any of the grace window is left.
    pub fn get(&self) -> (r: bool)
        ensures
            r == (self.remaining > 0),
    {
        self.remaining > 0
    }

    /// Consumes the window: a jump spent on it leaves nothing behind.
    pub fn clear(&mut self)
        ensures
            final(self).duration == old(self).duration,
            final(self).remaining == 0,
            old(self).duration >= 0 ==> final(self).wf(),
    {
        self.remaining = 0;
    }
}

/// The entity's grace window is managed: it carries a window, a collider
/// and a player handle.
pub open spec fn coyote_applies(b: BodyView) -> bool {
    b.coyote_time is Some && b.collider is Some && b.player is Some
}

/// What one coyote-time pass does to one body: the window elapses by the
/// tick duration, and standing on a platform restores it in full.
pub open spec fn coyote_step_body(w: Seq<BodyView>, k: int, dt: int) -> BodyView {
    let b = w[k];
    if !coyote_applies(b) {
        b
    } else {
        let ct = b.coyote_time->0;
        let ticked: int = if ct.remaining > dt {
            ct.remaining - dt
        } else {
            0
        };
        let rem: int = if standing_on_platform(w, b) {
            ct.duration as int
        } else {
            ticked
        };
        BodyView {
            coyote_time: Some(CoyoteTime { remaining: rem as i64, duration: ct.duration }),
            ..b
        }
    }
}

/// One coyote-time pass over the whole world.
pub open spec fn coyote_stage(w: Seq<BodyView>, dt: int) -> Seq<BodyView> {
    Seq::new(w.len(), |k: int| coyote_step_body(w, k, dt))
}

/// Ticks every player's coyote-time window by the tick duration and
/// restores it in full for players standing on a platform this tick.
pub fn handle_coyote_time(w: &mut World, delta_time: i64)
    requires
        delta_time >= 0,
    ensures
        final(w)@ == coyote_stage(old(w)@, delta_time as int),
{
    let ghost w0 = w@;
    let n = w.bodies.len();
    let mut k: usize = 0;
    while k < n
        invariant
            n == w.bodies@.len(),
            w0.len() == n,
            0 <= k <= n,
            delta_time >= 0,
            forall|i: int| 0 <= i < k ==> w.bodies@[i]@ == coyote_step_body(w0, i, delta_time as int),
            forall|i: int| k <= i < n ==> w.bodies@[i]@ == w0[i],
        decreases n - k,
    {
        let applies = w.bodies[k].coyote_time.is_some() && w.bodies[k].collider.is_some()
            && w.bodies[k].player.is_some();
        if applies {
            let mut ct = w.bodies[k].coyote_time.unwrap();
            ct.tick(delta_time);
            let standing = crate::movement::on_platform(w, k, n);
            proof {
                assert(w.bodies@[k as int]@ == w0[k as int]);
                assert forall|e: int|
                    0 <= e < w0.len() implies #[trigger] w@[e].platform == w0[e].platform by {
                    if e < k {
                        assert(w@[e] == coyote_step_body(w0, e, delta_time as int));
                    }
                }
                crate::world::lemma_standing_eq(w@, w0, w0[k as int]);
            }
            if standing {
                ct.set_on_platform();
            }
            w.bodies[k].coyote_time = Some(ct);
        }
        proof {
            assert(w.bodies@[k as int]@ =~= coyote_step_body(w0, k as int, delta_time as int));
        }
        k = k + 1;
    }
    proof {
        assert(w@ =~= coyote_stage(w0, delta_time as int));
    }
}

} // verus!
