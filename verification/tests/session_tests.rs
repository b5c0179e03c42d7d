use btc_lib::session::elapsed_hms;
use btc_lib::session::inv_hash_hex;
use btc_lib::Action;
use btc_lib::BitcoinMsg;
use btc_lib::BitcoinPayload;
use btc_lib::Command;
use btc_lib::Ip;
use btc_lib::LogEvent;
use btc_lib::LogLevel;
use btc_lib::NetAddr;
use btc_lib::NetEvent;
use btc_lib::Services;
use btc_lib::Session;
use btc_lib::SessionConfig;
use btc_lib::SessionState;
use btc_lib::SockAddr;

fn peer() -> SockAddr {
    SockAddr {
        ip: Ip::V4([10, 0, 0, 2]),
        port: 8333,
    }
}

fn config() -> SessionConfig {
    SessionConfig {
        local: NetAddr {
            services: Services::default(),
            addr: SockAddr {
                ip: Ip::V4([127, 0, 0, 1]),
                port: 8333,
            },
        },
        user_agent: b"my bitcoin client".to_vec(),
        nonce: 69,
        last_block: 0,
        relay: true,
    }
}

/// Drives a fresh session up to the point where the peer's version is owed.
fn session_awaiting_version() -> Session {
    let mut s = Session::new(config());
    let acts = s.handle_command(Command::Connect(peer()));
    assert!(matches!(acts[..], [Action::Open(_)]));
    let acts = s.handle_net(NetEvent::Opened, 1000);
    assert_eq!(acts.len(), 1);
    match &acts[0] {
        Action::Send(msg) => match &msg.payload {
            BitcoinPayload::Version(v) => {
                assert_eq!(v.proto_ver, 70014);
                assert_eq!(v.nonce, 69);
                assert_eq!(v.time, 1000);
            }
            other => panic!("expected a version payload, got {other:?}"),
        },
        other => panic!("expected a send action, got {other:?}"),
    }
    assert!(matches!(s.state, SessionState::AwaitVersion(_)));
    s
}

/// Drives a fresh session through a clean handshake.
fn connected_session() -> Session {
    let mut s = session_awaiting_version();
    let peer_version =
        BitcoinMsg::version_at(config().local, config().local, b"peer".to_vec(), 7, 0, false, 5);
    let acts = s.handle_net(NetEvent::Message(peer_version), 1001);
    assert!(acts.is_empty());
    assert!(matches!(s.state, SessionState::AwaitVerack(_)));
    let acts = s.handle_net(NetEvent::Message(BitcoinMsg::verack()), 1002);
    assert_eq!(acts.len(), 3);
    assert!(
        matches!(&acts[0], Action::Send(m) if matches!(m.payload, BitcoinPayload::VerAck))
    );
    assert!(matches!(acts[1], Action::SetReadTimeout));
    assert!(matches!(acts[2], Action::Log(LogEvent::Connected(_))));
    assert!(matches!(s.state, SessionState::Connected(_)));
    s
}

#[test]
fn handshake_reaches_connected_and_answers_the_first_ping() {
    let mut s = connected_session();
    let acts = s.handle_net(NetEvent::Message(BitcoinMsg::ping(42)), 1003);
    assert_eq!(acts.len(), 1);
    match &acts[0] {
        Action::Send(m) => assert!(matches!(m.payload, BitcoinPayload::Pong(42))),
        other => panic!("expected a send action, got {other:?}"),
    }
    assert!(matches!(s.state, SessionState::Connected(_)));
}

#[test]
fn verack_before_version_aborts_the_handshake() {
    let mut s = session_awaiting_version();
    let acts = s.handle_net(NetEvent::Message(BitcoinMsg::verack()), 1001);
    assert_eq!(s.state, SessionState::Disconnected);
    assert_eq!(acts.len(), 2);
    assert!(matches!(acts[0], Action::Close));
    match &acts[1] {
        Action::Log(e) => {
            assert!(matches!(e, LogEvent::HandshakeFailed));
            assert_eq!(e.level(), LogLevel::Error);
        }
        other => panic!("expected a log action, got {other:?}"),
    }
}

#[test]
fn send_while_disconnected_logs_an_error_and_writes_nothing() {
    let mut s = Session::new(config());
    let acts = s.handle_command(Command::SendMessage(BitcoinPayload::Ping(1)));
    assert_eq!(s.state, SessionState::Disconnected);
    assert_eq!(acts.len(), 1);
    match &acts[0] {
        Action::Log(e) => {
            assert!(matches!(e, LogEvent::NotConnected));
            assert_eq!(e.level(), LogLevel::Error);
        }
        other => panic!("expected a log action, got {other:?}"),
    }
    assert!(!acts
        .iter()
        .any(|a| matches!(a, Action::Send(_) | Action::Open(_))));
}

#[test]
fn queued_pings_and_a_pending_pong_are_served_in_one_tick() {
    let mut s = connected_session();
    let cmds = vec![
        Command::SendMessage(BitcoinPayload::Ping(1)),
        Command::SendMessage(BitcoinPayload::Ping(2)),
        Command::SendMessage(BitcoinPayload::Ping(3)),
    ];
    let acts = s.tick(
        cmds,
        Some(NetEvent::Message(BitcoinMsg::pong(7))),
        2000,
    );
    assert_eq!(acts.len(), 7);
    for (k, nonce) in [1u64, 2, 3].iter().enumerate() {
        match &acts[2 * k] {
            Action::Log(LogEvent::SendingPing(x)) => assert_eq!(x, nonce),
            other => panic!("expected a ping log, got {other:?}"),
        }
        match &acts[2 * k + 1] {
            Action::Send(m) => match m.payload {
                BitcoinPayload::Ping(x) => assert_eq!(x, *nonce),
                ref other => panic!("expected an outbound ping, got {other:?}"),
            },
            other => panic!("expected a send action, got {other:?}"),
        }
    }
    assert!(matches!(acts[6], Action::Log(LogEvent::PongReceived(7))));
    assert!(matches!(s.state, SessionState::Connected(_)));
}

#[test]
fn connect_while_not_disconnected_is_refused_in_queue_order() {
    let mut s = Session::new(config());
    let acts = s.tick(
        vec![Command::Connect(peer()), Command::Connect(peer())],
        None,
        0,
    );
    assert_eq!(acts.len(), 2);
    assert!(matches!(acts[0], Action::Open(_)));
    assert!(matches!(acts[1], Action::Log(LogEvent::NotDisconnected)));
}

#[test]
fn disconnect_is_idempotent() {
    let mut s = connected_session();
    let acts = s.handle_command(Command::Disconnect);
    assert_eq!(s.state, SessionState::Disconnected);
    assert!(matches!(acts[0], Action::Close));
    assert!(matches!(acts[1], Action::Log(LogEvent::Disconnecting(_))));
    let acts = s.handle_command(Command::Disconnect);
    assert_eq!(s.state, SessionState::Disconnected);
    assert!(matches!(
        acts[..],
        [Action::Log(LogEvent::AlreadyDisconnected)]
    ));
}

#[test]
fn malformed_message_is_logged_and_the_connection_survives() {
    let mut s = connected_session();
    let acts = s.handle_net(
        NetEvent::Malformed(btc_lib::DecodeError::ChecksumMismatch),
        3000,
    );
    assert!(matches!(s.state, SessionState::Connected(_)));
    assert_eq!(acts.len(), 1);
    match &acts[0] {
        Action::Log(e) => {
            assert!(matches!(
                e,
                LogEvent::MalformedMessage(btc_lib::DecodeError::ChecksumMismatch)
            ));
            assert_eq!(e.level(), LogLevel::Error);
        }
        other => panic!("expected a log action, got {other:?}"),
    }
}

#[test]
fn unsupported_command_logs_a_warning() {
    let e = LogEvent::MalformedMessage(btc_lib::DecodeError::UnsupportedCommand);
    assert_eq!(e.level(), LogLevel::Warn);
}

#[test]
fn fatal_read_failure_tears_the_session_down() {
    let mut s = connected_session();
    let acts = s.handle_net(NetEvent::IoFailed, 4000);
    assert_eq!(s.state, SessionState::Disconnected);
    assert!(matches!(acts[0], Action::Close));
    assert!(matches!(acts[1], Action::Log(LogEvent::ReadFailed)));
}

#[test]
fn version_in_steady_state_is_an_error_but_keeps_the_connection() {
    let mut s = connected_session();
    let msg =
        BitcoinMsg::version_at(config().local, config().local, b"x".to_vec(), 0, 0, false, 0);
    let acts = s.handle_net(NetEvent::Message(msg), 5000);
    assert!(matches!(s.state, SessionState::Connected(_)));
    assert_eq!(acts.len(), 1);
    match &acts[0] {
        Action::Log(e) => {
            assert!(matches!(e, LogEvent::UnexpectedVersion));
            assert_eq!(e.level(), LogLevel::Error);
        }
        other => panic!("expected a log action, got {other:?}"),
    }
}

#[test]
fn inv_hash_renders_reversed_hex() {
    let mut hash = [0u8; 32];
    for (i, b) in hash.iter_mut().enumerate() {
        *b = (i + 1) as u8;
    }
    let text = String::from_utf8(inv_hash_hex(&hash)).unwrap();
    assert_eq!(text.len(), 64);
    assert!(text.starts_with("201f1e1d"));
    assert!(text.ends_with("04030201"));
    assert_eq!(
        text,
        "201f1e1d1c1b1a191817161514131211100f0e0d0c0b0a090807060504030201"
    );
}

#[test]
fn elapsed_time_splits_into_hours_minutes_seconds() {
    assert_eq!(elapsed_hms(7322, 0), (2, 2, 2));
    assert_eq!(elapsed_hms(1000, 1000), (0, 0, 0));
    assert_eq!(elapsed_hms(3661, 1), (1, 1, 0));
}
