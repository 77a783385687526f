//! The session loop's decisions: one whole simulation tick in the fixed
//! system order, and the reactions to the rollback session's notifications.

use vstd::prelude::*;
use crate::movement::{move_stage, reset_stage};
use crate::physics::{body_step_bounds, physics_step_spec, step_bounds};
use crate::world::{BodyView, World};

verus! {

/// What the rollback session reported after advancing a frame.
#[derive(PartialEq, Eq, Structural, Debug, Clone, Copy)]
pub enum SessionEvent {
    /// A remote peer dropped from the session.
    Disconnected,
    /// The peers' post-resimulation checksums differ on this frame.
    DesyncDetected { frame: i64, local_checksum: u128, remote_checksum: u128 },
    /// Anything else the session emits; none of it needs a reaction.
    Other,
}

/// What the application must do about one session event.
#[derive(PartialEq, Eq, Structural, Debug, Clone, Copy)]
pub enum SessionReaction {
    /// Fatal: disconnect the remaining remote players, discard the session,
    /// configuration and role, and return to the main menu.
    ReturnToMainMenu,
    /// Diagnostic only: report the frame and both checksums; the session
    /// continues.
    ReportDesync { frame: i64, local_checksum: u128, remote_checksum: u128 },
    /// Nothing to do.
    Continue,
}

/// The reaction one session event calls for.
pub open spec fn reaction_spec(e: SessionEvent) -> SessionReaction {
    match e {
        SessionEvent::Disconnected => SessionReaction::ReturnToMainMenu,
        SessionEvent::DesyncDetected { frame, local_checksum, remote_checksum } => {
            SessionReaction::ReportDesync { frame, local_checksum, remote_checksum }
        },
        SessionEvent::Other => SessionReaction::Continue,
    }
}

/// Decides the reaction to one session event: a disconnect is fatal and
/// sends the application back to the main menu; a desync is reported but
/// not fatal; everything else is ignored.
pub fn react_to_event(e: &SessionEvent) -> (r: SessionReaction)
    ensures
        r == reaction_spec(*e),
{
    match e {
        SessionEvent::Disconnected => SessionReaction::ReturnToMainMenu,
        SessionEvent::DesyncDetected { frame, local_checksum, remote_checksum } => {
            SessionReaction::ReportDesync {
                frame: *frame,
                local_checksum: *local_checksum,
                remote_checksum: *remote_checksum,
            }
        },
        SessionEvent::Other => SessionReaction::Continue,
    }
}

/// Whether a batch of session events forces the session to end.
pub fn handle_ggrs_events(events: &Vec<SessionEvent>) -> (r: bool)
    ensures
        r == exists|i: int| 0 <= i < events@.len() && events@[i] is Disconnected,
{
    let n = events.len();
    let mut i: usize = 0;
    while i < n
        invariant
            n == events@.len(),
            0 <= i <= n,
            forall|t: int| 0 <= t < i ==> !(events@[t] is Disconnected),
        decreases n - i,
    {
        if matches!(events[i], SessionEvent::Disconnected) {
            return true;
        }
        i = i + 1;
    }
    false
}

/// Everything one session tick does, in schedule order: steer the players
/// from the tick's confirmed inputs, respawn anything that fell out of the
/// world, then run the physics step.
pub open spec fn session_tick_spec(w: Seq<BodyView>, inputs: Seq<u8>, dt: int) -> Seq<BodyView> {
    physics_step_spec(reset_stage(move_stage(w, inputs)), dt)
}

/// Advances the simulation by one whole tick: player movement from the
/// confirmed per-handle inputs, the fall reset, then gravity, integration,
/// collision detection and solid resolution. This is the unit the rollback
/// engine replays: a pure function of (state, inputs, dt).
pub fn advance_frame(w: &mut World, inputs: &Vec<u8>, delta_time: i64)
    requires
        step_bounds(old(w)@, delta_time as int),
    ensures
        final(w)@ == session_tick_spec(old(w)@, inputs@, delta_time as int),
{
    let ghost w0 = w@;
    crate::movement::move_player_multiplayer(w, inputs);
    let ghost w1 = w@;
    proof {
        assert forall|k: int| 0 <= k < w1.len() implies body_step_bounds(#[trigger] w1[k]) by {
            assert(w1[k] == crate::movement::move_step_body(w0, k, inputs@));
            assert(body_step_bounds(w0[k]));
        }
    }
    crate::movement::reset(w);
    let ghost w2 = w@;
    proof {
        assert forall|k: int| 0 <= k < w2.len() implies body_step_bounds(#[trigger] w2[k]) by {
            assert(w2[k] == crate::movement::reset_step_body(w1[k]));
            assert(body_step_bounds(w1[k]));
        }
        assert(step_bounds(w2, delta_time as int));
    }
    crate::physics::physics_step(w, delta_time);
}

/// Tears the simulation down on the way back to the menu: every entity is
/// despawned. The camera and the rest of the presentation live outside the
/// simulated world and are untouched.
pub fn despawn_all_but_camera(w: &mut World)
    ensures
        final(w)@ == Seq::<BodyView>::empty(),
{
    w.bodies = Vec::new();
    proof {
        assert(w@ =~= Seq::<BodyView>::empty());
    }
}

} // verus!
