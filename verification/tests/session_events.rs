//! Reactions to the rollback session's notifications: a disconnect is
//! fatal, a desync is only reported.

use lockstep_core::session::{handle_ggrs_events, react_to_event, SessionEvent, SessionReaction};

#[test]
fn a_disconnect_returns_to_the_main_menu() {
    assert_eq!(
        react_to_event(&SessionEvent::Disconnected),
        SessionReaction::ReturnToMainMenu
    );
}

#[test]
fn a_desync_is_reported_with_frame_and_checksums() {
    let e = SessionEvent::DesyncDetected { frame: 42, local_checksum: 7, remote_checksum: 9 };
    assert_eq!(
        react_to_event(&e),
        SessionReaction::ReportDesync { frame: 42, local_checksum: 7, remote_checksum: 9 }
    );
}

#[test]
fn other_events_need_no_reaction() {
    assert_eq!(react_to_event(&SessionEvent::Other), SessionReaction::Continue);
}

#[test]
fn a_batch_ends_the_session_only_on_a_disconnect() {
    let quiet = vec![
        SessionEvent::Other,
        SessionEvent::DesyncDetected { frame: 1, local_checksum: 2, remote_checksum: 3 },
    ];
    assert!(!handle_ggrs_events(&quiet));
    let fatal = vec![
        SessionEvent::Other,
        SessionEvent::Disconnected,
        SessionEvent::Other,
    ];
    assert!(handle_ggrs_events(&fatal));
    assert!(!handle_ggrs_events(&vec![]));
}
