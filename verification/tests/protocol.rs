//! The rendezvous handshake: the happy paths of both roles, every
//! malformed-message rejection, and the timeout's scope.

use lockstep_core::config::{CMRole, GameConfig};
use lockstep_core::connection::{
    connection_address, Action, ConnectionManager, ConnectionManagerState, MetaConnectionState,
    TickInput, CONFIG, CONFIG_BEARER, CONFIG_RECEIVER, OK, ROLE,
};

fn tick(dt: u64, peers: usize, messages: Vec<Vec<u8>>) -> TickInput {
    TickInput { delta_ms: dt, peer_count: peers, messages }
}

fn quiet(peers: usize) -> TickInput {
    tick(100, peers, vec![])
}

#[test]
fn config_bearer_happy_path_reaches_ready() {
    let gc = GameConfig { seed: 10, difficulty: 1 };
    let mut cm = ConnectionManager::new(CMRole::ConfigBearer(gc));
    assert!(matches!(cm.get_state(), ConnectionManagerState::PreConnect));

    let a = cm.start();
    assert!(matches!(a, Action::OpenMetaSocket));
    assert!(matches!(cm.get_state(), ConnectionManagerState::WaitingOnMetaConnection));

    // One peer is not enough; the lobby keeps waiting.
    let a = cm.check_advance(&quiet(1));
    assert!(matches!(a, Action::Idle));
    assert!(matches!(cm.get_state(), ConnectionManagerState::WaitingOnMetaConnection));

    // The second peer arrives: the metadata exchange begins.
    cm.check_advance(&quiet(2));
    assert!(matches!(
        cm.get_state(),
        ConnectionManagerState::WaitingOnMetadata(MetaConnectionState::Start)
    ));

    // The manager announces its role.
    let a = cm.check_advance(&quiet(2));
    match a {
        Action::Send(m) => assert_eq!(m, vec![ROLE, CONFIG_BEARER]),
        _ => panic!("expected a role announcement"),
    }

    // The peer announces the counter-role: the bearer sends the packed
    // configuration, seed in the low half, in big-endian bytes.
    let a = cm.check_advance(&tick(100, 2, vec![vec![ROLE, CONFIG_RECEIVER]]));
    match a {
        Action::Send(m) => assert_eq!(m, vec![CONFIG, 0, 0, 0, 1, 0, 0, 0, 10]),
        _ => panic!("expected the configuration message"),
    }

    // The acknowledgement closes the meta channel and opens the transport.
    let a = cm.check_advance(&tick(100, 2, vec![vec![OK]]));
    assert!(matches!(a, Action::CloseMetaOpenSession));

    // Both peers on the transport: the session starts with two players and
    // an input delay of two frames.
    let a = cm.check_advance(&quiet(2));
    match a {
        Action::StartSession { num_players, input_delay } => {
            assert_eq!(num_players, 2);
            assert_eq!(input_delay, 2);
        },
        _ => panic!("expected the session start"),
    }
    let got = cm.ready_config().unwrap();
    assert_eq!(got.seed, 10);
    assert_eq!(got.difficulty, 1);
}

#[test]
fn config_receiver_happy_path_decodes_the_config() {
    let mut cm = ConnectionManager::new(CMRole::ConfigReceiver);
    cm.start();
    cm.check_advance(&quiet(2));
    let a = cm.check_advance(&quiet(2));
    match a {
        Action::Send(m) => assert_eq!(m, vec![ROLE, CONFIG_RECEIVER]),
        _ => panic!("expected a role announcement"),
    }
    let a = cm.check_advance(&tick(100, 2, vec![vec![ROLE, CONFIG_BEARER]]));
    assert!(matches!(a, Action::Idle));
    assert!(matches!(
        cm.get_state(),
        ConnectionManagerState::WaitingOnMetadata(MetaConnectionState::WaitingOnConfig)
    ));
    let a = cm.check_advance(&tick(100, 2, vec![vec![CONFIG, 0, 0, 0, 1, 0, 0, 0, 10]]));
    assert!(matches!(a, Action::CloseMetaOpenSession));
    match cm.get_state() {
        ConnectionManagerState::WaitingOnGGRSConnection(gc) => {
            assert_eq!(gc.seed, 10);
            assert_eq!(gc.difficulty, 1);
        },
        _ => panic!("expected the transport wait"),
    }
    cm.check_advance(&quiet(2));
    assert!(cm.ready_config().is_some());
}

fn manager_waiting_on_role(role: CMRole) -> ConnectionManager {
    let mut cm = ConnectionManager::new(role);
    cm.start();
    cm.check_advance(&quiet(2));
    cm.check_advance(&quiet(2));
    cm
}

#[test]
fn two_messages_in_one_poll_are_a_protocol_violation() {
    // Whatever the two messages hold — even two perfectly valid role
    // announcements — an overfull poll invalidates the connection.
    let gc = GameConfig { seed: 10, difficulty: 1 };
    let mut cm = manager_waiting_on_role(CMRole::ConfigBearer(gc));
    cm.check_advance(&tick(
        100,
        2,
        vec![vec![ROLE, CONFIG_RECEIVER], vec![ROLE, CONFIG_RECEIVER]],
    ));
    assert!(matches!(cm.get_state(), ConnectionManagerState::InvalidConnection));

    let mut cm = manager_waiting_on_role(CMRole::ConfigReceiver);
    cm.check_advance(&tick(100, 2, vec![vec![1, 2, 3], vec![]]));
    assert!(matches!(cm.get_state(), ConnectionManagerState::InvalidConnection));
}

#[test]
fn wrong_role_byte_is_a_protocol_violation() {
    let gc = GameConfig { seed: 10, difficulty: 1 };
    // The bearer expects the receiver's announcement, not another bearer.
    let mut cm = manager_waiting_on_role(CMRole::ConfigBearer(gc));
    cm.check_advance(&tick(100, 2, vec![vec![ROLE, CONFIG_BEARER]]));
    assert!(matches!(cm.get_state(), ConnectionManagerState::InvalidConnection));
    // And the receiver expects a bearer.
    let mut cm = manager_waiting_on_role(CMRole::ConfigReceiver);
    cm.check_advance(&tick(100, 2, vec![vec![ROLE, CONFIG_RECEIVER]]));
    assert!(matches!(cm.get_state(), ConnectionManagerState::InvalidConnection));
}

#[test]
fn malformed_messages_invalidate_the_connection() {
    let gc = GameConfig { seed: 10, difficulty: 1 };

    // A role announcement of the wrong length.
    let mut cm = manager_waiting_on_role(CMRole::ConfigBearer(gc));
    cm.check_advance(&tick(100, 2, vec![vec![ROLE, CONFIG_RECEIVER, 0]]));
    assert!(matches!(cm.get_state(), ConnectionManagerState::InvalidConnection));

    // Waiting on OK, anything but the bare acknowledgement is rejected.
    let mut cm = manager_waiting_on_role(CMRole::ConfigBearer(gc));
    cm.check_advance(&tick(100, 2, vec![vec![ROLE, CONFIG_RECEIVER]]));
    cm.check_advance(&tick(100, 2, vec![vec![OK, OK]]));
    assert!(matches!(cm.get_state(), ConnectionManagerState::InvalidConnection));

    // Waiting on the configuration: wrong tag.
    let mut cm = manager_waiting_on_role(CMRole::ConfigReceiver);
    cm.check_advance(&tick(100, 2, vec![vec![ROLE, CONFIG_BEARER]]));
    cm.check_advance(&tick(100, 2, vec![vec![OK, 0, 0, 0, 1, 0, 0, 0, 10]]));
    assert!(matches!(cm.get_state(), ConnectionManagerState::InvalidConnection));

    // Wrong payload length: seven bytes instead of eight.
    let mut cm = manager_waiting_on_role(CMRole::ConfigReceiver);
    cm.check_advance(&tick(100, 2, vec![vec![ROLE, CONFIG_BEARER]]));
    cm.check_advance(&tick(100, 2, vec![vec![CONFIG, 0, 0, 1, 0, 0, 0, 10]]));
    assert!(matches!(cm.get_state(), ConnectionManagerState::InvalidConnection));

    // An empty message is as malformed as any other.
    let mut cm = manager_waiting_on_role(CMRole::ConfigReceiver);
    cm.check_advance(&tick(100, 2, vec![vec![ROLE, CONFIG_BEARER]]));
    cm.check_advance(&tick(100, 2, vec![vec![]]));
    assert!(matches!(cm.get_state(), ConnectionManagerState::InvalidConnection));
}

#[test]
fn an_empty_poll_just_waits() {
    let gc = GameConfig { seed: 10, difficulty: 1 };
    let mut cm = manager_waiting_on_role(CMRole::ConfigBearer(gc));
    cm.check_advance(&quiet(2));
    assert!(matches!(
        cm.get_state(),
        ConnectionManagerState::WaitingOnMetadata(MetaConnectionState::WaitingOnRole)
    ));
}

#[test]
fn lobby_wait_is_exempt_from_the_timeout() {
    let mut cm = ConnectionManager::new(CMRole::ConfigReceiver);
    cm.start();
    // Far past the ten-second window with no peer: still waiting.
    cm.check_advance(&tick(20_000, 1, vec![]));
    assert!(matches!(cm.get_state(), ConnectionManagerState::WaitingOnMetaConnection));
    cm.check_advance(&tick(20_000, 1, vec![]));
    assert!(matches!(cm.get_state(), ConnectionManagerState::WaitingOnMetaConnection));
}

#[test]
fn a_stalled_handshake_times_out() {
    let gc = GameConfig { seed: 10, difficulty: 1 };
    let mut cm = manager_waiting_on_role(CMRole::ConfigBearer(gc));
    // 300 ms have passed so far; stall past the ten-second window.
    cm.check_advance(&tick(9_600, 2, vec![]));
    assert!(matches!(
        cm.get_state(),
        ConnectionManagerState::WaitingOnMetadata(MetaConnectionState::WaitingOnRole)
    ));
    cm.check_advance(&tick(200, 2, vec![]));
    assert!(matches!(cm.get_state(), ConnectionManagerState::TimedOut));
}

#[test]
fn a_user_abort_is_terminal_from_any_phase() {
    let gc = GameConfig { seed: 10, difficulty: 1 };
    let mut cm = manager_waiting_on_role(CMRole::ConfigBearer(gc));
    cm.cancel();
    assert!(matches!(cm.get_state(), ConnectionManagerState::Cancelled));
    // A cancelled manager never becomes ready again.
    cm.check_advance(&tick(100, 2, vec![vec![ROLE, CONFIG_RECEIVER]]));
    assert!(cm.ready_config().is_none());

    let mut cm = ConnectionManager::new(CMRole::ConfigReceiver);
    cm.start();
    cm.cancel();
    assert!(matches!(cm.get_state(), ConnectionManagerState::Cancelled));
}

#[test]
fn the_signaling_url_spells_host_room_and_peer_cap() {
    assert_eq!(connection_address("a:1", 7), "ws://a:1/7?next=2");
    assert_eq!(connection_address("3.128.79.14:3536", 20), "ws://3.128.79.14:3536/20?next=2");
    assert_eq!(connection_address("relay", 0), "ws://relay/0?next=2");
    assert_eq!(connection_address("relay", 4_294_967_295), "ws://relay/4294967295?next=2");
}

#[test]
fn starting_twice_changes_nothing() {
    let mut cm = ConnectionManager::new(CMRole::ConfigReceiver);
    cm.start();
    let a = cm.start();
    assert!(matches!(a, Action::Idle));
    assert!(matches!(cm.get_state(), ConnectionManagerState::WaitingOnMetaConnection));
}

#[test]
fn the_timer_saturates_rather_than_wrapping() {
    // Ridiculous tick durations saturate the elapsed clock; a manager that
    // never even started still times out, since only the ready state and
    // the open lobby wait are exempt.
    let mut cm = ConnectionManager::new(CMRole::ConfigReceiver);
    cm.check_advance(&tick(u64::MAX, 0, vec![]));
    cm.check_advance(&tick(u64::MAX, 0, vec![]));
    assert!(matches!(cm.get_state(), ConnectionManagerState::TimedOut));
}

#[test]
fn ready_is_exempt_from_the_timeout() {
    let gc = GameConfig { seed: 3, difficulty: 4 };
    let mut cm = manager_waiting_on_role(CMRole::ConfigBearer(gc));
    cm.check_advance(&tick(100, 2, vec![vec![ROLE, CONFIG_RECEIVER]]));
    cm.check_advance(&tick(100, 2, vec![vec![OK]]));
    cm.check_advance(&quiet(2));
    assert!(cm.ready_config().is_some());
    // Hours later the negotiated session is still the terminal state.
    cm.check_advance(&tick(3_600_000, 2, vec![]));
    assert!(cm.ready_config().is_some());
}
