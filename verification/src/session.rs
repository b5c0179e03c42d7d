//! The session state machine: the handshake and the steady-state loop as a
//! pure function from state and event to next state and actions. The caller
//! owns the socket and the queues; it performs each returned action (open,
//! close, send, log) and feeds the next event back in.

use vstd::prelude::*;

use crate::codec::BitcoinType;
use crate::messages::version_model;
use crate::messages::AddrElement;
use crate::messages::BitcoinMsg;
use crate::messages::BitcoinPayload;
use crate::messages::BitcoinPayloadV;
use crate::messages::InventoryElement;
use crate::messages::InventoryElementV;
use crate::net::NetAddr;
use crate::net::Services;
use crate::net::SockAddr;
use crate::scanner::DecodeError;

verus! {

/// How serious a log record is.
#[derive(Debug, Clone, Copy, PartialEq, Eq, Structural)]
pub enum LogLevel {
    Info,
    Warn,
    Error,
}

/// What the session reports on its log queue. Each record carries the data
/// of the event; rendering it as text is the consumer's business.
#[derive(Debug, Clone, PartialEq, Eq)]
pub enum LogEvent {
    /// The TCP connection could not be opened.
    ConnectFailed,
    /// The handshake completed with the peer at this address.
    Connected(SockAddr),
    /// The connection to this peer is being dropped.
    Disconnecting(SockAddr),
    /// A disconnect arrived with no connection to drop.
    AlreadyDisconnected,
    /// A connect arrived while a connection was already underway.
    NotDisconnected,
    /// A message was to be sent with no established connection.
    NotConnected,
    /// A version message was to be sent over an established connection.
    AlreadyConnected,
    /// A handshake step saw the wrong message.
    HandshakeFailed,
    /// An outbound ping with its nonce.
    SendingPing(u64),
    /// An outbound address request.
    SendingGetAddr,
    /// Any other outbound message.
    Sending(BitcoinPayload),
    /// The socket failed fatally (closed, reset, or end of stream).
    ReadFailed,
    /// An inbound message could not be decoded.
    MalformedMessage(DecodeError),
    /// An inbound pong with its nonce.
    PongReceived(u64),
    /// An inbound inventory announcement with this many entries.
    InvCount(usize),
    /// One announced inventory entry.
    InvItem(InventoryElement),
    /// An inbound address announcement with this many entries.
    AddrCount(usize),
    /// One announced peer address.
    AddrSeen(AddrElement),
    /// A version message arrived over an established connection.
    UnexpectedVersion,
    /// An inbound message with no protocol response.
    Unhandled(BitcoinPayload),
}

/// The model of a log record.
pub enum LogEventV {
    ConnectFailed,
    Connected(SockAddr),
    Disconnecting(SockAddr),
    AlreadyDisconnected,
    NotDisconnected,
    NotConnected,
    AlreadyConnected,
    HandshakeFailed,
    SendingPing(u64),
    SendingGetAddr,
    Sending(BitcoinPayloadV),
    ReadFailed,
    MalformedMessage(DecodeError),
    PongReceived(u64),
    InvCount(usize),
    InvItem(InventoryElementV),
    AddrCount(usize),
    AddrSeen(AddrElement),
    UnexpectedVersion,
    Unhandled(BitcoinPayloadV),
}

/// The model of a log record value.
pub open spec fn log_event_model(e: LogEvent) -> LogEventV {
    match e {
        LogEvent::ConnectFailed => LogEventV::ConnectFailed,
        LogEvent::Connected(a) => LogEventV::Connected(a),
        LogEvent::Disconnecting(a) => LogEventV::Disconnecting(a),
        LogEvent::AlreadyDisconnected => LogEventV::AlreadyDisconnected,
        LogEvent::NotDisconnected => LogEventV::NotDisconnected,
        LogEvent::NotConnected => LogEventV::NotConnected,
        LogEvent::AlreadyConnected => LogEventV::AlreadyConnected,
        LogEvent::HandshakeFailed => LogEventV::HandshakeFailed,
        LogEvent::SendingPing(x) => LogEventV::SendingPing(x),
        LogEvent::SendingGetAddr => LogEventV::SendingGetAddr,
        LogEvent::Sending(p) => LogEventV::Sending(crate::messages::payload_model(p)),
        LogEvent::ReadFailed => LogEventV::ReadFailed,
        LogEvent::MalformedMessage(e) => LogEventV::MalformedMessage(e),
        LogEvent::PongReceived(x) => LogEventV::PongReceived(x),
        LogEvent::InvCount(n) => LogEventV::InvCount(n),
        LogEvent::InvItem(it) => LogEventV::InvItem(it.model()),
        LogEvent::AddrCount(n) => LogEventV::AddrCount(n),
        LogEvent::AddrSeen(a) => LogEventV::AddrSeen(a),
        LogEvent::UnexpectedVersion => LogEventV::UnexpectedVersion,
        LogEvent::Unhandled(p) => LogEventV::Unhandled(crate::messages::payload_model(p)),
    }
}

/// How serious each record is: transient protocol trouble is an error,
/// an unknown command or an unhandled message only a warning.
pub open spec fn log_level(e: LogEventV) -> LogLevel {
    match e {
        LogEventV::ConnectFailed => LogLevel::Error,
        LogEventV::Connected(_) => LogLevel::Info,
        LogEventV::Disconnecting(_) => LogLevel::Info,
        LogEventV::AlreadyDisconnected => LogLevel::Info,
        LogEventV::NotDisconnected => LogLevel::Error,
        LogEventV::NotConnected => LogLevel::Error,
        LogEventV::AlreadyConnected => LogLevel::Error,
        LogEventV::HandshakeFailed => LogLevel::Error,
        LogEventV::SendingPing(_) => LogLevel::Info,
        LogEventV::SendingGetAddr => LogLevel::Info,
        LogEventV::Sending(_) => LogLevel::Warn,
        LogEventV::ReadFailed => LogLevel::Error,
        LogEventV::MalformedMessage(e) => if e == DecodeError::UnsupportedCommand {
            LogLevel::Warn
        } else {
            LogLevel::Error
        },
        LogEventV::PongReceived(_) => LogLevel::Info,
        LogEventV::InvCount(_) => LogLevel::Info,
        LogEventV::InvItem(_) => LogLevel::Info,
        LogEventV::AddrCount(_) => LogLevel::Info,
        LogEventV::AddrSeen(_) => LogLevel::Info,
        LogEventV::UnexpectedVersion => LogLevel::Error,
        LogEventV::Unhandled(_) => LogLevel::Warn,
    }
}

impl LogEvent {
    /// The record's severity.
    pub fn level(&self) -> (r: LogLevel)
        ensures
            r == log_level(log_event_model(*self)),
    {
        match self {
            LogEvent::ConnectFailed => LogLevel::Error,
            LogEvent::Connected(_) => LogLevel::Info,
            LogEvent::Disconnecting(_) => LogLevel::Info,
            LogEvent::AlreadyDisconnected => LogLevel::Info,
            LogEvent::NotDisconnected => LogLevel::Error,
            LogEvent::NotConnected => LogLevel::Error,
            LogEvent::AlreadyConnected => LogLevel::Error,
            LogEvent::HandshakeFailed => LogLevel::Error,
            LogEvent::SendingPing(_) => LogLevel::Info,
            LogEvent::SendingGetAddr => LogLevel::Info,
            LogEvent::Sending(_) => LogLevel::Warn,
            LogEvent::ReadFailed => LogLevel::Error,
            LogEvent::MalformedMessage(e) => if *e == DecodeError::UnsupportedCommand {
                LogLevel::Warn
            } else {
                LogLevel::Error
            },
            LogEvent::PongReceived(_) => LogLevel::Info,
            LogEvent::InvCount(_) => LogLevel::Info,
            LogEvent::InvItem(_) => LogLevel::Info,
            LogEvent::AddrCount(_) => LogLevel::Info,
            LogEvent::AddrSeen(_) => LogLevel::Info,
            LogEvent::UnexpectedVersion => LogLevel::Error,
            LogEvent::Unhandled(_) => LogLevel::Warn,
        }
    }
}

/// Where the session stands. The handshake states carry the peer address
/// the connection is being made to.
#[derive(Debug, Clone, Copy, PartialEq, Eq)]
pub enum SessionState {
    Disconnected,
    /// A TCP connection to this peer is being opened.
    Opening(SockAddr),
    /// Our version went out; the peer's version is owed next.
    AwaitVersion(SockAddr),
    /// The peer's version arrived; its verack is owed next.
    AwaitVerack(SockAddr),
    Connected(SockAddr),
}

/// What the controller may ask of the session.
#[derive(Debug, Clone, PartialEq, Eq)]
pub enum Command {
    Connect(SockAddr),
    Disconnect,
    SendMessage(BitcoinPayload),
}

/// The model of a command.
pub enum CommandV {
    Connect(SockAddr),
    Disconnect,
    SendMessage(BitcoinPayloadV),
}

/// The model of a command value.
pub open spec fn command_model(c: Command) -> CommandV {
    match c {
        Command::Connect(a) => CommandV::Connect(a),
        Command::Disconnect => CommandV::Disconnect,
        Command::SendMessage(p) => CommandV::SendMessage(crate::messages::payload_model(p)),
    }
}

/// What the socket side reports to the session.
#[derive(Debug)]
pub enum NetEvent {
    /// The TCP connection opened.
    Opened,
    /// The TCP connection could not be opened.
    OpenFailed,
    /// A whole message arrived and decoded.
    Message(BitcoinMsg),
    /// Bytes arrived but did not decode to a message.
    Malformed(DecodeError),
    /// The read timed out with nothing to deliver.
    ReadTimeout,
    /// The socket failed fatally (closed, reset, or end of stream).
    IoFailed,
}

/// The model of a network event.
pub enum NetEventV {
    Opened,
    OpenFailed,
    Message(BitcoinPayloadV),
    Malformed(DecodeError),
    ReadTimeout,
    IoFailed,
}

/// The model of a network event value.
pub open spec fn net_event_model(ev: NetEvent) -> NetEventV {
    match ev {
        NetEvent::Opened => NetEventV::Opened,
        NetEvent::OpenFailed => NetEventV::OpenFailed,
        NetEvent::Message(msg) => NetEventV::Message(msg.model()),
        NetEvent::Malformed(e) => NetEventV::Malformed(e),
        NetEvent::ReadTimeout => NetEventV::ReadTimeout,
        NetEvent::IoFailed => NetEventV::IoFailed,
    }
}

/// What the caller must do on the session's behalf, in order.
#[derive(Debug)]
pub enum Action {
    /// Open a TCP connection to this peer.
    Open(SockAddr),
    /// Drop the connection.
    Close,
    /// Write this message's encoding to the socket.
    Send(BitcoinMsg),
    /// Set the socket's read timeout to the short steady-state interval.
    SetReadTimeout,
    /// Put this record on the log queue.
    Log(LogEvent),
}

/// The model of an action.
pub enum ActionV {
    Open(SockAddr),
    Close,
    Send(BitcoinPayloadV),
    SetReadTimeout,
    Log(LogEventV),
}

/// The model of an action value.
pub open spec fn action_model(a: Action) -> ActionV {
    match a {
        Action::Open(addr) => ActionV::Open(addr),
        Action::Close => ActionV::Close,
        Action::Send(msg) => ActionV::Send(msg.model()),
        Action::SetReadTimeout => ActionV::SetReadTimeout,
        Action::Log(e) => ActionV::Log(log_event_model(e)),
    }
}

/// The models of a batch of actions, in order.
pub open spec fn actions_model(acts: Seq<Action>) -> Seq<ActionV> {
    acts.map_values(|a: Action| action_model(a))
}

/// What the session introduces itself with.
#[derive(Debug, Clone, PartialEq, Eq)]
pub struct SessionConfig {
    /// The local endpoint announced in the version message.
    pub local: NetAddr,
    /// The advertised user agent, as UTF-8 bytes.
    pub user_agent: Vec<u8>,
    /// The handshake nonce.
    pub nonce: u64,
    /// The advertised height of the last known block.
    pub last_block: u32,
    /// The advertised relay flag.
    pub relay: bool,
}

/// The model of a session configuration.
pub struct SessionConfigV {
    pub local: NetAddr,
    pub user_agent: Seq<u8>,
    pub nonce: u64,
    pub last_block: u32,
    pub relay: bool,
}

impl SessionConfig {
    /// The model of this configuration.
    pub open spec fn model(&self) -> SessionConfigV {
        SessionConfigV {
            local: self.local,
            user_agent: self.user_agent@,
            nonce: self.nonce,
            last_block: self.last_block,
            relay: self.relay,
        }
    }
}

/// The version payload the session opens the handshake with: the configured
/// identity, the peer at `remote`, and the clock reading `now`.
pub open spec fn handshake_version(cfg: SessionConfigV, remote: SockAddr, now: u64) -> BitcoinPayloadV {
    version_model(
        cfg.local,
        NetAddr { services: Services::none(), addr: remote },
        cfg.user_agent,
        cfg.nonce,
        cfg.last_block,
        cfg.relay,
        now,
    )
}

/// The step the state machine takes on one controller command: `Connect` is
/// refused unless disconnected, `SendMessage` is refused unless connected,
/// and `Disconnect` is idempotent.
pub open spec fn spec_handle_command(st: SessionState, c: CommandV) -> (SessionState, Seq<
    ActionV,
>) {
    match c {
        CommandV::Connect(a) => match st {
            SessionState::Disconnected => (
                SessionState::Opening(a),
                seq![ActionV::Open(a)],
            ),
            _ => (st, seq![ActionV::Log(LogEventV::NotDisconnected)]),
        },
        CommandV::Disconnect => match st {
            SessionState::Disconnected => (
                st,
                seq![ActionV::Log(LogEventV::AlreadyDisconnected)],
            ),
            SessionState::Opening(a) => (
                SessionState::Disconnected,
                seq![ActionV::Close, ActionV::Log(LogEventV::Disconnecting(a))],
            ),
            SessionState::AwaitVersion(a) => (
                SessionState::Disconnected,
                seq![ActionV::Close, ActionV::Log(LogEventV::Disconnecting(a))],
            ),
            SessionState::AwaitVerack(a) => (
                SessionState::Disconnected,
                seq![ActionV::Close, ActionV::Log(LogEventV::Disconnecting(a))],
            ),
            SessionState::Connected(a) => (
                SessionState::Disconnected,
                seq![ActionV::Close, ActionV::Log(LogEventV::Disconnecting(a))],
            ),
        },
        CommandV::SendMessage(p) => match st {
            SessionState::Connected(_) => (
                st,
                seq![
                    match p {
                        BitcoinPayloadV::Version(_) => ActionV::Log(LogEventV::AlreadyConnected),
                        BitcoinPayloadV::Ping(x) => ActionV::Log(LogEventV::SendingPing(x)),
                        BitcoinPayloadV::GetAddr => ActionV::Log(LogEventV::SendingGetAddr),
                        _ => ActionV::Log(LogEventV::Sending(p)),
                    },
                    ActionV::Send(p),
                ],
            ),
            _ => (st, seq![ActionV::Log(LogEventV::NotConnected)]),
        },
    }
}

/// The step the state machine takes on one network event: the ordered
/// handshake, the autonomous pong, the per-entry inventory and address
/// logging, and teardown on fatal failure.
pub open spec fn spec_handle_net(
    st: SessionState,
    ev: NetEventV,
    now: u64,
    cfg: SessionConfigV,
) -> (SessionState, Seq<ActionV>) {
    match ev {
        NetEventV::Opened => match st {
            SessionState::Opening(a) => (
                SessionState::AwaitVersion(a),
                seq![ActionV::Send(handshake_version(cfg, a, now))],
            ),
            _ => (st, Seq::empty()),
        },
        NetEventV::OpenFailed => match st {
            SessionState::Opening(_) => (
                SessionState::Disconnected,
                seq![ActionV::Log(LogEventV::ConnectFailed)],
            ),
            _ => (st, Seq::empty()),
        },
        NetEventV::ReadTimeout => (st, Seq::empty()),
        NetEventV::IoFailed => match st {
            SessionState::Disconnected => (st, Seq::empty()),
            _ => (
                SessionState::Disconnected,
                seq![ActionV::Close, ActionV::Log(LogEventV::ReadFailed)],
            ),
        },
        NetEventV::Malformed(e) => (st, seq![ActionV::Log(LogEventV::MalformedMessage(e))]),
        NetEventV::Message(p) => match st {
            SessionState::AwaitVersion(a) => match p {
                BitcoinPayloadV::Version(_) => (SessionState::AwaitVerack(a), Seq::empty()),
                _ => (
                    SessionState::Disconnected,
                    seq![ActionV::Close, ActionV::Log(LogEventV::HandshakeFailed)],
                ),
            },
            SessionState::AwaitVerack(a) => match p {
                BitcoinPayloadV::VerAck => (
                    SessionState::Connected(a),
                    seq![
                        ActionV::Send(BitcoinPayloadV::VerAck),
                        ActionV::SetReadTimeout,
                        ActionV::Log(LogEventV::Connected(a)),
                    ],
                ),
                _ => (
                    SessionState::Disconnected,
                    seq![ActionV::Close, ActionV::Log(LogEventV::HandshakeFailed)],
                ),
            },
            SessionState::Connected(_) => match p {
                BitcoinPayloadV::Ping(x) => (st, seq![ActionV::Send(BitcoinPayloadV::Pong(x))]),
                BitcoinPayloadV::Pong(x) => (
                    st,
                    seq![ActionV::Log(LogEventV::PongReceived(x))],
                ),
                BitcoinPayloadV::Inv(items) => (
                    st,
                    seq![ActionV::Log(LogEventV::InvCount(items.len() as usize))]
                        + items.map_values(|it: InventoryElementV| ActionV::Log(LogEventV::InvItem(it))),
                ),
                BitcoinPayloadV::Addr(list) => (
                    st,
                    seq![ActionV::Log(LogEventV::AddrCount(list.len() as usize))]
                        + list.map_values(|a: AddrElement| ActionV::Log(LogEventV::AddrSeen(a))),
                ),
                BitcoinPayloadV::Version(_) => (
                    st,
                    seq![ActionV::Log(LogEventV::UnexpectedVersion)],
                ),
                _ => (st, seq![ActionV::Log(LogEventV::Unhandled(p))]),
            },
            _ => (st, Seq::empty()),
        },
    }
}

/// Running a batch of commands in order, accumulating their actions.
pub open spec fn spec_run_commands(st: SessionState, cmds: Seq<CommandV>) -> (SessionState, Seq<
    ActionV,
>)
    decreases cmds.len(),
{
    if cmds.len() == 0 {
        (st, Seq::empty())
    } else {
        let (st1, a1) = spec_handle_command(st, cmds[0]);
        let (st2, a2) = spec_run_commands(st1, cmds.skip(1));
        (st2, a1 + a2)
    }
}

/// One tick of the steady loop: drain the queued commands in order, then
/// take at most one network event.
pub open spec fn spec_tick(
    st: SessionState,
    cmds: Seq<CommandV>,
    ev: Option<NetEventV>,
    now: u64,
    cfg: SessionConfigV,
) -> (SessionState, Seq<ActionV>) {
    let (st1, a1) = spec_run_commands(st, cmds);
    match ev {
        None => (st1, a1),
        Some(e) => {
            let (st2, a2) = spec_handle_net(st1, e, now, cfg);
            (st2, a1 + a2)
        },
    }
}

/// The session: its state and its configured identity. All decisions are
/// made here; the caller owns the socket and performs the actions.
pub struct Session {
    pub state: SessionState,
    pub cfg: SessionConfig,
}

impl Session {
    /// A fresh session starts disconnected.
    pub fn new(cfg: SessionConfig) -> (r: Session)
        ensures
            r.state == SessionState::Disconnected,
            r.cfg == cfg,
    {
        Session { state: SessionState::Disconnected, cfg }
    }

    /// Apply one controller command.
    pub fn handle_command(&mut self, cmd: Command) -> (acts: Vec<Action>)
        ensures
            (final(self).state, actions_model(acts@)) == spec_handle_command(
                old(self).state,
                command_model(cmd),
            ),
            final(self).cfg == old(self).cfg,
    {
        let mut acts: Vec<Action> = Vec::new();
        match cmd {
            Command::Connect(a) => match self.state {
                SessionState::Disconnected => {
                    self.state = SessionState::Opening(a);
                    acts.push(Action::Open(a));
                },
                _ => {
                    acts.push(Action::Log(LogEvent::NotDisconnected));
                },
            },
            Command::Disconnect => match self.state {
                SessionState::Disconnected => {
                    acts.push(Action::Log(LogEvent::AlreadyDisconnected));
                },
                SessionState::Opening(a) | SessionState::AwaitVersion(a)
                | SessionState::AwaitVerack(a) | SessionState::Connected(a) => {
                    self.state = SessionState::Disconnected;
                    acts.push(Action::Close);
                    acts.push(Action::Log(LogEvent::Disconnecting(a)));
                },
            },
            Command::SendMessage(p) => match self.state {
                SessionState::Connected(_) => {
                    let log = match &p {
                        BitcoinPayload::Version(_) => LogEvent::AlreadyConnected,
                        BitcoinPayload::Ping(x) => LogEvent::SendingPing(*x),
                        BitcoinPayload::GetAddr => LogEvent::SendingGetAddr,
                        _ => LogEvent::Sending(p.duplicate()),
                    };
                    acts.push(Action::Log(log));
                    acts.push(Action::Send(BitcoinMsg { payload: p }));
                },
                _ => {
                    acts.push(Action::Log(LogEvent::NotConnected));
                },
            },
        }
        proof {
            assert(actions_model(acts@) =~= spec_handle_command(
                old(self).state,
                command_model(cmd),
            ).1);
        }
        acts
    }

    /// Apply one network event, with the clock reading `now` for the
    /// handshake's version message.
    pub fn handle_net(&mut self, ev: NetEvent, now: u64) -> (acts: Vec<Action>)
        ensures
            (final(self).state, actions_model(acts@)) == spec_handle_net(
                old(self).state,
                net_event_model(ev),
                now,
                old(self).cfg.model(),
            ),
            final(self).cfg == old(self).cfg,
    {
        let ghost st0 = self.state;
        let ghost evv = net_event_model(ev);
        let ghost cfgv = self.cfg.model();
        let mut acts: Vec<Action> = Vec::new();
        match ev {
            NetEvent::Opened => match self.state {
                SessionState::Opening(a) => {
                    let user_agent = vstd::slice::slice_to_vec(self.cfg.user_agent.as_slice());
                    let remote = NetAddr { services: Services::default(), addr: a };
                    let msg = BitcoinMsg::version_at(
                        self.cfg.local,
                        remote,
                        user_agent,
                        self.cfg.nonce,
                        self.cfg.last_block,
                        self.cfg.relay,
                        now,
                    );
                    self.state = SessionState::AwaitVersion(a);
                    acts.push(Action::Send(msg));
                },
                _ => {},
            },
            NetEvent::OpenFailed => match self.state {
                SessionState::Opening(_) => {
                    self.state = SessionState::Disconnected;
                    acts.push(Action::Log(LogEvent::ConnectFailed));
                },
                _ => {},
            },
            NetEvent::ReadTimeout => {},
            NetEvent::IoFailed => match self.state {
                SessionState::Disconnected => {},
                _ => {
                    self.state = SessionState::Disconnected;
                    acts.push(Action::Close);
                    acts.push(Action::Log(LogEvent::ReadFailed));
                },
            },
            NetEvent::Malformed(e) => {
                acts.push(Action::Log(LogEvent::MalformedMessage(e)));
            },
            NetEvent::Message(msg) => match self.state {
                SessionState::AwaitVersion(a) => match msg.payload {
                    BitcoinPayload::Version(_) => {
                        self.state = SessionState::AwaitVerack(a);
                    },
                    _ => {
                        self.state = SessionState::Disconnected;
                        acts.push(Action::Close);
                        acts.push(Action::Log(LogEvent::HandshakeFailed));
                    },
                },
                SessionState::AwaitVerack(a) => match msg.payload {
                    BitcoinPayload::VerAck => {
                        self.state = SessionState::Connected(a);
                        acts.push(Action::Send(BitcoinMsg::verack()));
                        acts.push(Action::SetReadTimeout);
                        acts.push(Action::Log(LogEvent::Connected(a)));
                    },
                    _ => {
                        self.state = SessionState::Disconnected;
                        acts.push(Action::Close);
                        acts.push(Action::Log(LogEvent::HandshakeFailed));
                    },
                },
                SessionState::Connected(_) => match msg.payload {
                    BitcoinPayload::Ping(x) => {
                        acts.push(Action::Send(BitcoinMsg::pong(x)));
                    },
                    BitcoinPayload::Pong(x) => {
                        acts.push(Action::Log(LogEvent::PongReceived(x)));
                    },
                    BitcoinPayload::Inv(inv) => {
                        let ghost items = inv.model();
                        proof {
                            crate::codec::lemma_models_of::<InventoryElement>(inv.inventory@);
                        }
                        acts.push(Action::Log(LogEvent::InvCount(inv.inventory.len())));
                        let mut i: usize = 0;
                        while i < inv.inventory.len()
                            invariant
                                0 <= i <= inv.inventory@.len(),
                                items == inv.model(),
                                items.len() == inv.inventory@.len(),
                                actions_model(acts@) =~= seq![
                                    ActionV::Log(LogEventV::InvCount(items.len() as usize)),
                                ] + items.take(i as int).map_values(
                                    |it: InventoryElementV| ActionV::Log(LogEventV::InvItem(it)),
                                ),
                            decreases inv.inventory@.len() - i,
                        {
                            let ghost pre = actions_model(acts@);
                            acts.push(Action::Log(LogEvent::InvItem(inv.inventory[i])));
                            proof {
                                crate::codec::lemma_models_of::<InventoryElement>(inv.inventory@);
                                assert(log_event_model(LogEvent::InvItem(inv.inventory@[i as int]))
                                    == LogEventV::InvItem(items[i as int]));
                                assert(items.take(i as int + 1) =~= items.take(i as int).push(items[i as int]));
                                assert(actions_model(acts@) =~= pre.push(
                                    ActionV::Log(LogEventV::InvItem(items[i as int])),
                                ));
                                assert(items.take(i as int + 1).map_values(
                                    |it: InventoryElementV| ActionV::Log(LogEventV::InvItem(it)),
                                ) =~= items.take(i as int).map_values(
                                    |it: InventoryElementV| ActionV::Log(LogEventV::InvItem(it)),
                                ).push(ActionV::Log(LogEventV::InvItem(items[i as int]))));
                                assert(actions_model(acts@) =~= seq![
                                    ActionV::Log(LogEventV::InvCount(items.len() as usize)),
                                ] + items.take(i as int + 1).map_values(
                                    |it: InventoryElementV| ActionV::Log(LogEventV::InvItem(it)),
                                ));
                            }
                            i = i + 1;
                        }
                        proof {
                            assert(items.take(items.len() as int) =~= items);
                        }
                    },
                    BitcoinPayload::Addr(addrs) => {
                        let ghost list = addrs.model();
                        proof {
                            crate::codec::lemma_models_of::<AddrElement>(addrs.addr_list@);
                        }
                        acts.push(Action::Log(LogEvent::AddrCount(addrs.addr_list.len())));
                        let mut i: usize = 0;
                        while i < addrs.addr_list.len()
                            invariant
                                0 <= i <= addrs.addr_list@.len(),
                                list == addrs.model(),
                                list.len() == addrs.addr_list@.len(),
                                actions_model(acts@) =~= seq![
                                    ActionV::Log(LogEventV::AddrCount(list.len() as usize)),
                                ] + list.take(i as int).map_values(
                                    |a: AddrElement| ActionV::Log(LogEventV::AddrSeen(a)),
                                ),
                            decreases addrs.addr_list@.len() - i,
                        {
                            let ghost pre = actions_model(acts@);
                            acts.push(Action::Log(LogEvent::AddrSeen(addrs.addr_list[i])));
                            proof {
                                crate::codec::lemma_models_of::<AddrElement>(addrs.addr_list@);
                                assert(log_event_model(LogEvent::AddrSeen(addrs.addr_list@[i as int]))
                                    == LogEventV::AddrSeen(list[i as int]));
                                assert(list.take(i as int + 1) =~= list.take(i as int).push(list[i as int]));
                                assert(actions_model(acts@) =~= pre.push(
                                    ActionV::Log(LogEventV::AddrSeen(list[i as int])),
                                ));
                                assert(list.take(i as int + 1).map_values(
                                    |a: AddrElement| ActionV::Log(LogEventV::AddrSeen(a)),
                                ) =~= list.take(i as int).map_values(
                                    |a: AddrElement| ActionV::Log(LogEventV::AddrSeen(a)),
                                ).push(ActionV::Log(LogEventV::AddrSeen(list[i as int]))));
                                assert(actions_model(acts@) =~= seq![
                                    ActionV::Log(LogEventV::AddrCount(list.len() as usize)),
                                ] + list.take(i as int + 1).map_values(
                                    |a: AddrElement| ActionV::Log(LogEventV::AddrSeen(a)),
                                ));
                            }
                            i = i + 1;
                        }
                        proof {
                            assert(list.take(list.len() as int) =~= list);
                        }
                    },
                    BitcoinPayload::Version(_) => {
                        acts.push(Action::Log(LogEvent::UnexpectedVersion));
                    },
                    other => {
                        acts.push(Action::Log(LogEvent::Unhandled(other)));
                    },
                },
                _ => {},
            },
        }
        proof {
            assert(actions_model(acts@) =~= spec_handle_net(st0, evv, now, cfgv).1);
        }
        acts
    }

    /// One tick of the steady loop: drain the queued commands in order, then
    /// take at most one network event.
    pub fn tick(&mut self, cmds: Vec<Command>, ev: Option<NetEvent>, now: u64) -> (acts: Vec<
        Action,
    >)
        ensures
            (final(self).state, actions_model(acts@)) == spec_tick(
                old(self).state,
                cmds@.map_values(|c: Command| command_model(c)),
                match ev {
                    Some(e) => Some(net_event_model(e)),
                    None => None,
                },
                now,
                old(self).cfg.model(),
            ),
            final(self).cfg == old(self).cfg,
    {
        let ghost st0 = self.state;
        let ghost cmds0 = cmds@.map_values(|c: Command| command_model(c));
        let mut cmds = cmds;
        let mut acts: Vec<Action> = Vec::new();
        proof {
            assert(actions_model(acts@) =~= Seq::<ActionV>::empty());
            assert(Seq::<ActionV>::empty() + spec_run_commands(self.state, cmds0).1
                =~= spec_run_commands(self.state, cmds0).1);
        }
        while cmds.len() > 0
            invariant
                self.cfg == old(self).cfg,
                spec_run_commands(st0, cmds0) == ({
                    let (st2, a2) = spec_run_commands(
                        self.state,
                        cmds@.map_values(|c: Command| command_model(c)),
                    );
                    (st2, actions_model(acts@) + a2)
                }),
            decreases cmds@.len(),
        {
            let ghost pre_cmds = cmds@.map_values(|c: Command| command_model(c));
            let ghost pre_acts = actions_model(acts@);
            let ghost pre_state = self.state;
            let cmd = cmds.remove(0);
            let ghost cmdv = command_model(cmd);
            let mut batch = self.handle_command(cmd);
            acts.append(&mut batch);
            proof {
                assert(cmds@.map_values(|c: Command| command_model(c)) =~= pre_cmds.skip(1));
                assert(pre_cmds[0] == cmdv);
                assert(actions_model(acts@) =~= pre_acts + spec_handle_command(
                    pre_state,
                    cmdv,
                ).1);
                let (st2, a2) = spec_run_commands(
                    self.state,
                    cmds@.map_values(|c: Command| command_model(c)),
                );
                assert(pre_acts + (spec_handle_command(pre_state, cmdv).1 + a2) =~= actions_model(
                    acts@,
                ) + a2);
            }
        }
        proof {
            assert(cmds@.map_values(|c: Command| command_model(c)) =~= Seq::<CommandV>::empty());
            assert(actions_model(acts@) + Seq::<ActionV>::empty() =~= actions_model(acts@));
        }
        match ev {
            None => acts,
            Some(e) => {
                let ghost pre_acts = actions_model(acts@);
                let mut batch = self.handle_net(e, now);
                let ghost batchv = actions_model(batch@);
                acts.append(&mut batch);
                proof {
                    assert(actions_model(acts@) =~= pre_acts + batchv);
                }
                acts
            },
        }
    }
}

/// Handshake ordering: a peer that answers the handshake with anything but
/// its version — a premature verack included — makes the session report the
/// failed handshake, drop the connection, and return to Disconnected.
pub proof fn lemma_handshake_ordering(a: SockAddr, now: u64, cfg: SessionConfigV)
    ensures
        spec_handle_net(
            SessionState::AwaitVersion(a),
            NetEventV::Message(BitcoinPayloadV::VerAck),
            now,
            cfg,
        ) == (
            SessionState::Disconnected,
            seq![ActionV::Close, ActionV::Log(LogEventV::HandshakeFailed)],
        ),
        log_level(LogEventV::HandshakeFailed) == LogLevel::Error,
{
}

/// Ping response: a connected session that receives `ping(n)` answers with
/// exactly one action, the outbound `pong(n)` — no other bytes precede it.
pub proof fn lemma_ping_response(a: SockAddr, n: u64, now: u64, cfg: SessionConfigV)
    ensures
        spec_handle_net(
            SessionState::Connected(a),
            NetEventV::Message(BitcoinPayloadV::Ping(n)),
            now,
            cfg,
        ) == (SessionState::Connected(a), seq![ActionV::Send(BitcoinPayloadV::Pong(n))]),
{
}

/// State refusal: `SendMessage` while Disconnected produces exactly one
/// action, a log record of Error severity — so nothing is written to any
/// socket — and the state does not change.
pub proof fn lemma_state_refusal(p: BitcoinPayloadV)
    ensures
        spec_handle_command(SessionState::Disconnected, CommandV::SendMessage(p)) == (
            SessionState::Disconnected,
            seq![ActionV::Log(LogEventV::NotConnected)],
        ),
        log_level(LogEventV::NotConnected) == LogLevel::Error,
{
}

/// The actions of a run of queued pings: for each, its log record, then its
/// outbound message, in queue order.
pub open spec fn ping_actions(cmds: Seq<CommandV>) -> Seq<ActionV>
    decreases cmds.len(),
{
    if cmds.len() == 0 {
        Seq::empty()
    } else {
        (match cmds[0] {
            CommandV::SendMessage(BitcoinPayloadV::Ping(x)) => seq![
                ActionV::Log(LogEventV::SendingPing(x)),
                ActionV::Send(BitcoinPayloadV::Ping(x)),
            ],
            _ => Seq::empty(),
        }) + ping_actions(cmds.skip(1))
    }
}

/// A run of queued pings leaves a connected session connected and sends
/// every ping, in order.
pub proof fn lemma_run_pings(a: SockAddr, cmds: Seq<CommandV>)
    requires
        forall|i: int|
            0 <= i < cmds.len() ==> #[trigger] cmds[i] matches CommandV::SendMessage(
                BitcoinPayloadV::Ping(_),
            ),
    ensures
        spec_run_commands(SessionState::Connected(a), cmds) == (
            SessionState::Connected(a),
            ping_actions(cmds),
        ),
    decreases cmds.len(),
{
    if cmds.len() > 0 {
        assert(cmds[0] matches CommandV::SendMessage(BitcoinPayloadV::Ping(_)));
        lemma_run_pings(a, cmds.skip(1));
    }
}

/// Command-queue interleave: when pings are queued and a pong from the peer
/// is pending, one tick of a connected session sends every queued ping and
/// logs the pong — both directions are served within the tick.
pub proof fn lemma_command_queue_interleave(
    a: SockAddr,
    cmds: Seq<CommandV>,
    y: u64,
    now: u64,
    cfg: SessionConfigV,
)
    requires
        forall|i: int|
            0 <= i < cmds.len() ==> #[trigger] cmds[i] matches CommandV::SendMessage(
                BitcoinPayloadV::Ping(_),
            ),
    ensures
        spec_tick(
            SessionState::Connected(a),
            cmds,
            Some(NetEventV::Message(BitcoinPayloadV::Pong(y))),
            now,
            cfg,
        ) == (
            SessionState::Connected(a),
            ping_actions(cmds) + seq![ActionV::Log(LogEventV::PongReceived(y))],
        ),
{
    lemma_run_pings(a, cmds);
}

/// A hexadecimal digit's ASCII code, lower case.
pub open spec fn hex_digit(n: u8) -> u8 {
    if n < 10 {
        (48 + n) as u8
    } else {
        (87 + n) as u8
    }
}

/// The two hexadecimal digits of one byte.
pub open spec fn hex_byte(b: u8) -> Seq<u8> {
    seq![hex_digit(b / 16), hex_digit(b % 16)]
}

/// The hexadecimal rendering of a hash in display order: the bytes in
/// reverse of wire order, two digits each.
pub open spec fn hash_hex_rev(h: Seq<u8>) -> Seq<u8>
    decreases h.len(),
{
    if h.len() == 0 {
        Seq::empty()
    } else {
        hex_byte(h.last()) + hash_hex_rev(h.drop_last())
    }
}

/// Peeling the hex rendering from the front: the first byte of the hash is
/// rendered last.
proof fn lemma_hash_hex_rev_step(h: Seq<u8>)
    requires
        h.len() > 0,
    ensures
        hash_hex_rev(h) == hash_hex_rev(h.skip(1)) + hex_byte(h[0]),
    decreases h.len(),
{
    if h.len() == 1 {
        assert(h.skip(1) =~= Seq::<u8>::empty());
        assert(h.drop_last() =~= Seq::<u8>::empty());
        assert(hash_hex_rev(h) =~= hash_hex_rev(h.skip(1)) + hex_byte(h[0]));
    } else {
        lemma_hash_hex_rev_step(h.drop_last());
        assert(h.drop_last()[0] == h[0]);
        assert(h.skip(1).last() == h.last());
        assert(h.skip(1).drop_last() =~= h.drop_last().skip(1));
        assert(hash_hex_rev(h) =~= hash_hex_rev(h.skip(1)) + hex_byte(h[0]));
    }
}

/// The display text of an inventory hash: the 64 hexadecimal digits of its
/// bytes in reverse of wire order, as the network conventionally shows them.
pub fn inv_hash_hex(hash: &[u8; 32]) -> (r: Vec<u8>)
    ensures
        r@ == hash_hex_rev(hash@),
{
    let mut r: Vec<u8> = Vec::new();
    let mut i: usize = 32;
    proof {
        assert(hash@.skip(32) =~= Seq::<u8>::empty());
    }
    while i > 0
        invariant
            0 <= i <= 32,
            hash@.len() == 32,
            r@ == hash_hex_rev(hash@.skip(i as int)),
        decreases i,
    {
        let b = hash[i - 1];
        let hi = b / 16;
        let lo = b % 16;
        r.push(if hi < 10 {
            48 + hi
        } else {
            87 + hi
        });
        r.push(if lo < 10 {
            48 + lo
        } else {
            87 + lo
        });
        proof {
            lemma_hash_hex_rev_step(hash@.skip(i - 1));
            assert(hash@.skip(i - 1).skip(1) =~= hash@.skip(i as int));
            assert(hash@.skip(i - 1)[0] == hash@[i - 1]);
            assert(r@ =~= hash_hex_rev(hash@.skip(i - 1)));
        }
        i = i - 1;
    }
    proof {
        assert(hash@.skip(0) =~= hash@);
    }
    r
}

/// The whole hours, leftover minutes and leftover seconds of an elapsed
/// span: how long ago `ts` was, seen from `now`.
pub fn elapsed_hms(now: u64, ts: u64) -> (r: (u64, u64, u64))
    requires
        ts <= now,
    ensures
        r.0 == (now - ts) / 3600,
        r.1 == ((now - ts) % 3600) / 60,
        r.2 == (now - ts) % 60,
{
    let d = now - ts;
    (d / 3600, (d % 3600) / 60, d % 60)
}

} // verus!
