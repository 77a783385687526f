//! The rendezvous handshake: a state machine that elects roles over the
//! signaling channel, carries the shared configuration from the bearer to
//! the receiver, and hands off to the rollback session transport. The
//! machine only decides; the surrounding application performs each returned
//! action (opening sockets, sending bytes, starting the session) and feeds
//! back what it observed each tick.

use vstd::prelude::*;
use vstd::string::StringExecFns;
use crate::config::{be_u64_of, packed, u64_be_bytes_spec, u64_from_be_bytes, u64_to_be_bytes, CMRole, GameConfig};

verus! {

/// How long the handshake may stall, in milliseconds, once it has left the
/// open lobby wait.
pub const CONNECTION_TIMEOUT_MS: u64 = 10_000;

/// Role byte: this peer originates the configuration.
pub const CONFIG_BEARER: u8 = 0;

/// Role byte: this peer receives the configuration.
pub const CONFIG_RECEIVER: u8 = 1;

/// Message tag: the sender declares its role in one payload byte.
pub const ROLE: u8 = 0;

/// Message tag: eight big-endian payload bytes carry the configuration.
pub const CONFIG: u8 = 1;

/// Message tag: the configuration was received; the meta channel may close.
pub const OK: u8 = 2;

/// A session always has exactly two players.
pub const NUM_PLAYERS: usize = 2;

/// Fixed input delay, in frames, of every session.
pub const INPUT_DELAY: usize = 2;

/// The room number a lobby is opened under.
#[derive(PartialEq, Eq, Structural, Debug, Clone, Copy)]
pub struct RoomID(pub u32);

/// The decimal digits of a nonnegative number, most significant first.
pub open spec fn dec_digits(n: int) -> Seq<char>
    recommends
        n >= 0,
    decreases n,
{
    if n < 10 {
        seq![digit_char(n)]
    } else {
        dec_digits(n / 10).push(digit_char(n % 10))
    }
}

/// The character of one decimal digit.
pub open spec fn digit_char(d: int) -> char
    recommends
        0 <= d < 10,
{
    ((48 + d) as u8) as char
}

/// The signaling URL a lobby is reached under: the relay host, the room
/// number, and the fixed two-peer cap.
pub open spec fn connection_url_spec(host: Seq<char>, room: int) -> Seq<char> {
    seq!['w', 's', ':', '/', '/'] + host + seq!['/'] + dec_digits(room) + seq![
        '?',
        'n',
        'e',
        'x',
        't',
        '=',
        '2',
    ]
}

/// One decimal digit as a string slice.
fn digit_str(d: u32) -> (s: &'static str)
    requires
        d < 10,
    ensures
        s@ == seq![digit_char(d as int)],
{
    let s = match d {
        0 => "0",
        1 => "1",
        2 => "2",
        3 => "3",
        4 => "4",
        5 => "5",
        6 => "6",
        7 => "7",
        8 => "8",
        _ => "9",
    };
    proof {
        reveal_strlit("0");
        reveal_strlit("1");
        reveal_strlit("2");
        reveal_strlit("3");
        reveal_strlit("4");
        reveal_strlit("5");
        reveal_strlit("6");
        reveal_strlit("7");
        reveal_strlit("8");
        reveal_strlit("9");
        assert(s@ =~= seq![digit_char(d as int)]);
    }
    s
}

/// Appends the decimal digits of `n`, most significant first.
fn push_digits(n: u32, out: &mut String)
    ensures
        final(out)@ == old(out)@ + dec_digits(n as int),
    decreases n,
{
    if n >= 10 {
        push_digits(n / 10, out);
    }
    out.append(digit_str(n % 10));
    proof {
        assert(final(out)@ =~= old(out)@ + dec_digits(n as int));
    }
}

/// Builds the signaling URL the lobby connects to:
/// `ws://` + host + `/` + the room number in decimal + `?next=2`.
pub fn connection_address(host: &str, room_id: u32) -> (r: String)
    ensures
        r@ == connection_url_spec(host@, room_id as int),
{
    let mut r = String::new();
    r.append("ws://");
    r.append(host);
    r.append("/");
    push_digits(room_id, &mut r);
    r.append("?next=2");
    proof {
        reveal_strlit("ws://");
        reveal_strlit("/");
        reveal_strlit("?next=2");
        assert(r@ =~= connection_url_spec(host@, room_id as int));
    }
    r
}

/// Where the metadata exchange stands once both peers are present.
#[derive(PartialEq, Eq, Structural, Debug, Clone, Copy)]
pub enum MetaConnectionState {
    Start,
    WaitingOnRole,
    WaitingOnOK(GameConfig),
    WaitingOnConfig,
}

/// The connection manager's state. Terminal states are `Ready`, `TimedOut`,
/// `InvalidConnection` and `Cancelled`; recovery is always a fresh manager,
/// never in-place repair.
#[derive(PartialEq, Eq, Structural, Debug, Clone, Copy)]
pub enum ConnectionManagerState {
    PreConnect,
    WaitingOnMetaConnection,
    WaitingOnMetadata(MetaConnectionState),
    WaitingOnGGRSConnection(GameConfig),
    Ready(GameConfig),
    TimedOut,
    InvalidConnection,
    Cancelled,
}

/// What the surrounding application must do after a tick of the manager.
#[derive(Debug)]
pub enum Action {
    /// Nothing this tick.
    Idle,
    /// Open the reliable signaling socket for the lobby.
    OpenMetaSocket,
    /// Send these bytes to the peer on the meta channel.
    Send(Vec<u8>),
    /// Close the meta channel and open the session transport socket.
    CloseMetaOpenSession,
    /// Build a session over the transport with this many players and this
    /// input delay, one player per peer in enumeration order, and start it.
    StartSession { num_players: usize, input_delay: usize },
}

/// The view of an action, with sent bytes as a sequence.
pub enum ActionView {
    Idle,
    OpenMetaSocket,
    Send(Seq<u8>),
    CloseMetaOpenSession,
    StartSession { num_players: usize, input_delay: usize },
}

impl View for Action {
    type V = ActionView;

    open spec fn view(&self) -> ActionView {
        match self {
            Action::Idle => ActionView::Idle,
            Action::OpenMetaSocket => ActionView::OpenMetaSocket,
            Action::Send(m) => ActionView::Send(m@),
            Action::CloseMetaOpenSession => ActionView::CloseMetaOpenSession,
            Action::StartSession { num_players, input_delay } => ActionView::StartSession {
                num_players: *num_players,
                input_delay: *input_delay,
            },
        }
    }
}

/// What the driver observed this tick: how much time passed, how many
/// peers the socket currently sees, and the messages a non-blocking poll
/// of the meta channel handed back (empty when no channel is open).
#[derive(Debug)]
pub struct TickInput {
    pub delta_ms: u64,
    pub peer_count: usize,
    pub messages: Vec<Vec<u8>>,
}

impl View for TickInput {
    type V = Seq<Seq<u8>>;

    open spec fn view(&self) -> Seq<Seq<u8>> {
        self.messages@.map_values(|m: Vec<u8>| m@)
    }
}

/// Drives the handshake from lobby entry to a running session.
#[derive(PartialEq, Eq, Structural, Debug, Clone, Copy)]
pub struct ConnectionManager {
    pub role: CMRole,
    pub state: ConnectionManagerState,
    pub elapsed_ms: u64,
}

/// The configuration a 64-bit wire value decodes to.
pub open spec fn config_of(v: int) -> GameConfig {
    GameConfig { seed: (v % 0x1_0000_0000) as u32, difficulty: (v / 0x1_0000_0000) as u32 }
}

/// The role-announcement message: tag byte, then the sender's role byte.
pub open spec fn role_msg_spec(role: CMRole) -> Seq<u8> {
    match role {
        CMRole::ConfigBearer(_) => seq![ROLE, CONFIG_BEARER],
        CMRole::ConfigReceiver => seq![ROLE, CONFIG_RECEIVER],
    }
}

/// The configuration message: tag byte, then the packed configuration in
/// eight big-endian bytes.
pub open spec fn config_msg_spec(gc: GameConfig) -> Seq<u8> {
    seq![CONFIG].add(u64_be_bytes_spec(packed(gc) as u64))
}

/// The message is a well-formed role announcement of `byte`.
pub open spec fn is_role_msg(m: Seq<u8>, byte: u8) -> bool {
    m.len() == 2 && m[0] == ROLE && m[1] == byte
}

/// The message is the bare acknowledgement.
pub open spec fn is_ok_msg(m: Seq<u8>) -> bool {
    m.len() == 1 && m[0] == OK
}

/// The message is a well-formed configuration message.
pub open spec fn is_config_msg(m: Seq<u8>) -> bool {
    m.len() == 9 && m[0] == CONFIG
}

/// Everything one tick of the manager decides, given the elapsed time, the
/// polled peer count and the polled messages: the successor state and the
/// action the driver must perform. The timeout fires in any state but
/// `Ready` and the open lobby wait; each metadata substate accepts at most
/// one message per poll, and any unexpected or malformed message is a
/// protocol violation.
pub open spec fn advance_spec(cm: ConnectionManager, dt: u64, peers: int, msgs: Seq<Seq<u8>>) -> (
    ConnectionManager,
    ActionView,
) {
    let elapsed: u64 = if cm.elapsed_ms + dt > u64::MAX {
        u64::MAX
    } else {
        (cm.elapsed_ms + dt) as u64
    };
    let cm1 = ConnectionManager { elapsed_ms: elapsed, ..cm };
    if elapsed >= CONNECTION_TIMEOUT_MS && !(cm.state is Ready
        || cm.state is WaitingOnMetaConnection) {
        (ConnectionManager { state: ConnectionManagerState::TimedOut, ..cm1 }, ActionView::Idle)
    } else {
        match cm.state {
            ConnectionManagerState::WaitingOnMetaConnection => {
                if peers == 2 {
                    (
                        ConnectionManager {
                            state: ConnectionManagerState::WaitingOnMetadata(
                                MetaConnectionState::Start,
                            ),
                            ..cm1
                        },
                        ActionView::Idle,
                    )
                } else {
                    (cm1, ActionView::Idle)
                }
            },
            ConnectionManagerState::WaitingOnMetadata(meta) => advance_metadata_spec(
                cm1,
                meta,
                msgs,
            ),
            ConnectionManagerState::WaitingOnGGRSConnection(gc) => {
                if peers < 2 {
                    (cm1, ActionView::Idle)
                } else {
                    (
                        ConnectionManager { state: ConnectionManagerState::Ready(gc), ..cm1 },
                        ActionView::StartSession {
                            num_players: NUM_PLAYERS,
                            input_delay: INPUT_DELAY,
                        },
                    )
                }
            },
            _ => (cm1, ActionView::Idle),
        }
    }
}

/// The metadata-exchange part of a tick, after the timeout check.
pub open spec fn advance_metadata_spec(
    cm1: ConnectionManager,
    meta: MetaConnectionState,
    msgs: Seq<Seq<u8>>,
) -> (ConnectionManager, ActionView) {
    let invalid = (
        ConnectionManager { state: ConnectionManagerState::InvalidConnection, ..cm1 },
        ActionView::Idle,
    );
    match meta {
        MetaConnectionState::Start => (
            ConnectionManager {
                state: ConnectionManagerState::WaitingOnMetadata(
                    MetaConnectionState::WaitingOnRole,
                ),
                ..cm1
            },
            ActionView::Send(role_msg_spec(cm1.role)),
        ),
        MetaConnectionState::WaitingOnRole => {
            if msgs.len() > 1 {
                invalid
            } else if msgs.len() < 1 {
                (cm1, ActionView::Idle)
            } else {
                match cm1.role {
                    CMRole::ConfigBearer(gc) => {
                        if is_role_msg(msgs[0], CONFIG_RECEIVER) {
                            (
                                ConnectionManager {
                                    state: ConnectionManagerState::WaitingOnMetadata(
                                        MetaConnectionState::WaitingOnOK(gc),
                                    ),
                                    ..cm1
                                },
                                ActionView::Send(config_msg_spec(gc)),
                            )
                        } else {
                            invalid
                        }
                    },
                    CMRole::ConfigReceiver => {
                        if is_role_msg(msgs[0], CONFIG_BEARER) {
                            (
                                ConnectionManager {
                                    state: ConnectionManagerState::WaitingOnMetadata(
                                        MetaConnectionState::WaitingOnConfig,
                                    ),
                                    ..cm1
                                },
                                ActionView::Idle,
                            )
                        } else {
                            invalid
                        }
                    },
                }
            }
        },
        MetaConnectionState::WaitingOnOK(gc) => {
            if msgs.len() > 1 {
                invalid
            } else if msgs.len() < 1 {
                (cm1, ActionView::Idle)
            } else if is_ok_msg(msgs[0]) {
                (
                    ConnectionManager {
                        state: ConnectionManagerState::WaitingOnGGRSConnection(gc),
                        ..cm1
                    },
                    ActionView::CloseMetaOpenSession,
                )
            } else {
                invalid
            }
        },
        MetaConnectionState::WaitingOnConfig => {
            if msgs.len() > 1 {
                invalid
            } else if msgs.len() < 1 {
                (cm1, ActionView::Idle)
            } else if is_config_msg(msgs[0]) {
                (
                    ConnectionManager {
                        state: ConnectionManagerState::WaitingOnGGRSConnection(
                            config_of(be_u64_of(msgs[0].subrange(1, 9))),
                        ),
                        ..cm1
                    },
                    ActionView::CloseMetaOpenSession,
                )
            } else {
                invalid
            }
        },
    }
}

impl ConnectionManager {
    /// A manager that has not opened anything yet.
    pub fn new(role: CMRole) -> (r: Self)
        ensures
            r.role == role,
            r.state == ConnectionManagerState::PreConnect,
            r.elapsed_ms == 0,
    {
        ConnectionManager { role, state: ConnectionManagerState::PreConnect, elapsed_ms: 0 }
    }

    /// Begins the handshake: from `PreConnect` the manager asks the driver
    /// to open the signaling socket and starts waiting for the peer. A
    /// second call changes nothing.
    pub fn start(&mut self) -> (a: Action)
        ensures
            old(self).state is PreConnect ==> final(self).state
                == ConnectionManagerState::WaitingOnMetaConnection && a@
                == ActionView::OpenMetaSocket,
            !(old(self).state is PreConnect) ==> *final(self) == *old(self) && a@
                == ActionView::Idle,
            final(self).role == old(self).role,
            final(self).elapsed_ms == old(self).elapsed_ms,
    {
        if matches!(self.state, ConnectionManagerState::PreConnect) {
            self.state = ConnectionManagerState::WaitingOnMetaConnection;
            Action::OpenMetaSocket
        } else {
            Action::Idle
        }
    }

    /// The current state, for the driver to act on.
    pub fn get_state(&self) -> (r: &ConnectionManagerState)
        ensures
            *r == self.state,
    {
        &self.state
    }

    /// The negotiated configuration, once the handshake has succeeded.
    pub fn ready_config(&self) -> (r: Option<GameConfig>)
        ensures
            r == match self.state {
                ConnectionManagerState::Ready(gc) => Some(gc),
                _ => None::<GameConfig>,
            },
    {
        match self.state {
            ConnectionManagerState::Ready(gc) => Some(gc),
            _ => None,
        }
    }

    /// Aborts the handshake on a local user action: the manager moves to
    /// the terminal failure state deterministically, whatever it was doing.
    /// Releasing the signaling socket is the driver's part.
    pub fn cancel(&mut self)
        ensures
            final(self).state == ConnectionManagerState::Cancelled,
            final(self).role == old(self).role,
            final(self).elapsed_ms == old(self).elapsed_ms,
    {
        self.state = ConnectionManagerState::Cancelled;
    }

    /// Advances the handshake by one tick: lets `input.delta_ms` elapse
    /// toward the timeout, reads the polled peer count or messages the
    /// current state cares about, and returns the action the driver must
    /// perform.
    pub fn check_advance(&mut self, input: &TickInput) -> (a: Action)
        ensures
            *final(self) == advance_spec(
                *old(self),
                input.delta_ms,
                input.peer_count as int,
                input@,
            ).0,
            a@ == advance_spec(*old(self), input.delta_ms, input.peer_count as int, input@).1,
    {
        let dt = input.delta_ms;
        if dt > u64::MAX - self.elapsed_ms {
            self.elapsed_ms = u64::MAX;
        } else {
            self.elapsed_ms = self.elapsed_ms + dt;
        }
        let timed = self.elapsed_ms >= CONNECTION_TIMEOUT_MS;
        let exempt = matches!(
            self.state,
            ConnectionManagerState::Ready(_) | ConnectionManagerState::WaitingOnMetaConnection,
        );
        if timed && !exempt {
            self.state = ConnectionManagerState::TimedOut;
            return Action::Idle;
        }
        match self.state {
            ConnectionManagerState::WaitingOnMetaConnection => {
                if input.peer_count == 2 {
                    self.state = ConnectionManagerState::WaitingOnMetadata(
                        MetaConnectionState::Start,
                    );
                }
                Action::Idle
            },
            ConnectionManagerState::WaitingOnMetadata(meta) => self.advance_metadata(meta, input),
            ConnectionManagerState::WaitingOnGGRSConnection(gc) => {
                if input.peer_count < 2 {
                    Action::Idle
                } else {
                    self.state = ConnectionManagerState::Ready(gc);
                    Action::StartSession { num_players: NUM_PLAYERS, input_delay: INPUT_DELAY }
                }
            },
            _ => Action::Idle,
        }
    }

    /// One metadata-exchange tick, after the timeout check.
    fn advance_metadata(&mut self, meta: MetaConnectionState, input: &TickInput) -> (a: Action)
        requires
            old(self).state == ConnectionManagerState::WaitingOnMetadata(meta),
        ensures
            *final(self) == advance_metadata_spec(*old(self), meta, input@).0,
            a@ == advance_metadata_spec(*old(self), meta, input@).1,
    {
        match meta {
            MetaConnectionState::Start => {
                let mut m: Vec<u8> = Vec::new();
                m.push(ROLE);
                match self.role {
                    CMRole::ConfigBearer(_) => m.push(CONFIG_BEARER),
                    CMRole::ConfigReceiver => m.push(CONFIG_RECEIVER),
                }
                self.state = ConnectionManagerState::WaitingOnMetadata(
                    MetaConnectionState::WaitingOnRole,
                );
                proof {
                    assert(m@ =~= role_msg_spec(self.role));
                }
                Action::Send(m)
            },
            MetaConnectionState::WaitingOnRole => {
                let count = input.messages.len();
                if count > 1 {
                    self.state = ConnectionManagerState::InvalidConnection;
                    return Action::Idle;
                }
                if count < 1 {
                    return Action::Idle;
                }
                let msg = &input.messages[0];
                proof {
                    assert(msg@ == input@[0]);
                }
                match self.role {
                    CMRole::ConfigBearer(gc) => {
                        let good = msg.len() == 2 && msg[0] == ROLE && msg[1] == CONFIG_RECEIVER;
                        if !good {
                            self.state = ConnectionManagerState::InvalidConnection;
                            return Action::Idle;
                        }
                        let mut m: Vec<u8> = Vec::new();
                        m.push(CONFIG);
                        let mut payload = u64_to_be_bytes(gc.as_u64());
                        m.append(&mut payload);
                        self.state = ConnectionManagerState::WaitingOnMetadata(
                            MetaConnectionState::WaitingOnOK(gc),
                        );
                        proof {
                            assert(m@ =~= config_msg_spec(gc));
                        }
                        Action::Send(m)
                    },
                    CMRole::ConfigReceiver => {
                        let good = msg.len() == 2 && msg[0] == ROLE && msg[1] == CONFIG_BEARER;
                        if !good {
                            self.state = ConnectionManagerState::InvalidConnection;
                            return Action::Idle;
                        }
                        self.state = ConnectionManagerState::WaitingOnMetadata(
                            MetaConnectionState::WaitingOnConfig,
                        );
                        Action::Idle
                    },
                }
            },
            MetaConnectionState::WaitingOnOK(gc) => {
                let count = input.messages.len();
                if count > 1 {
                    self.state = ConnectionManagerState::InvalidConnection;
                    return Action::Idle;
                }
                if count < 1 {
                    return Action::Idle;
                }
                let msg = &input.messages[0];
                proof {
                    assert(msg@ == input@[0]);
                }
                if msg.len() == 1 && msg[0] == OK {
                    self.state = ConnectionManagerState::WaitingOnGGRSConnection(gc);
                    Action::CloseMetaOpenSession
                } else {
                    self.state = ConnectionManagerState::InvalidConnection;
                    Action::Idle
                }
            },
            MetaConnectionState::WaitingOnConfig => {
                let count = input.messages.len();
                if count > 1 {
                    self.state = ConnectionManagerState::InvalidConnection;
                    return Action::Idle;
                }
                if count < 1 {
                    return Action::Idle;
                }
                let msg = &input.messages[0];
                proof {
                    assert(msg@ == input@[0]);
                }
                if msg.len() == 9 && msg[0] == CONFIG {
                    let value = u64_from_be_bytes(msg, 1);
                    let gc = GameConfig::from_u64(value);
                    self.state = ConnectionManagerState::WaitingOnGGRSConnection(gc);
                    Action::CloseMetaOpenSession
                } else {
                    self.state = ConnectionManagerState::InvalidConnection;
                    Action::Idle
                }
            },
        }
    }
}

/// Law: a poll that hands any receiving substate — the role wait, the
/// acknowledgement wait or the configuration wait — more than one message
/// is a protocol violation, whatever the messages hold, and nothing is
/// sent; provided the tick itself does not first hit the timeout.
pub proof fn lemma_overfull_poll_invalid(
    cm: ConnectionManager,
    dt: u64,
    peers: int,
    msgs: Seq<Seq<u8>>,
)
    requires
        cm.state matches ConnectionManagerState::WaitingOnMetadata(m) && !(m
            is Start),
        msgs.len() > 1,
        cm.elapsed_ms + dt < CONNECTION_TIMEOUT_MS,
    ensures
        advance_spec(cm, dt, peers, msgs).0.state is InvalidConnection,
        advance_spec(cm, dt, peers, msgs).1 is Idle,
{
}

/// Law: the open lobby wait is exempt from the timeout — while the manager
/// waits for its first peer it stays in that wait however much time
/// passes — but any metadata substate that stalls past the window times
/// out.
pub proof fn lemma_timeout_scope(cm: ConnectionManager, dt: u64, peers: int, msgs: Seq<Seq<u8>>)
    requires
        cm.elapsed_ms + dt >= CONNECTION_TIMEOUT_MS,
    ensures
        cm.state is WaitingOnMetaConnection && peers < 2 ==> advance_spec(
            cm,
            dt,
            peers,
            msgs,
        ).0.state is WaitingOnMetaConnection,
        cm.state is WaitingOnMetadata ==> advance_spec(cm, dt, peers, msgs).0.state is TimedOut,
{
}

} // verus!
