use zogzog::session::{packet_log_line, DEFAULT_VERSION};
use zogzog::{client_ping, searchgame_payload, GameType, NetworkEvent, ProxyState, Session};

#[test]
fn new_session_defaults() {
    let s = Session::new();
    assert_eq!(s.state, ProxyState::Idle);
    assert_eq!(s.error, None);
    assert!(s.log.is_empty());
    assert_eq!(s.game_type, GameType::FrozenThrone);
    assert_eq!(s.version, 29);
    assert_eq!(DEFAULT_VERSION, 29);
    assert_eq!(s.peer_count, 0);
}

#[test]
fn log_line_format() {
    let p = searchgame_payload(GameType::FrozenThrone, 29);
    assert_eq!(
        packet_log_line("12:34:56", "127.0.0.1:6112", &p),
        "12:34:56: RECV from 127.0.0.1:6112: [SEARCHGAME]"
    );
    assert_eq!(
        packet_log_line("00:00:00", "[::1]:7000", &[0xf7, 0x02]),
        "00:00:00: RECV from [::1]:7000: [UNKNOWN]"
    );
}

#[test]
fn packet_events_append_to_the_log() {
    let mut s = Session::new();
    s.record_event(
        NetworkEvent::PacketReceived { addr: "1.2.3.4:7000".to_string(), data: client_ping().to_vec() },
        "10:00:00",
    );
    s.record_event(
        NetworkEvent::PacketSent { addr: "127.0.0.1:6112".to_string(), data: vec![0xf7, 0x30, 0, 0] },
        "10:00:01",
    );
    assert_eq!(
        s.log,
        vec![
            "10:00:00: RECV from 1.2.3.4:7000: [WC3C_CLIENT_PING]".to_string(),
            "10:00:01: RECV from 127.0.0.1:6112: [GAMEINFO]".to_string(),
        ]
    );
    assert_eq!(s.state, ProxyState::Idle);
}

#[test]
fn hosting_lifecycle() {
    let mut s = Session::new();
    s.record_event(NetworkEvent::Error("bind failed".to_string()), "t");
    assert_eq!(s.state, ProxyState::Idle);
    assert_eq!(s.error.as_deref(), Some("bind failed"));
    s.record_event(NetworkEvent::ServerStarted, "t");
    assert_eq!(s.state, ProxyState::Hosting);
    assert_eq!(s.error, None);
    s.record_event(NetworkEvent::PeerCount(3), "t");
    assert_eq!(s.peer_count, 3);
    assert_eq!(s.state, ProxyState::Hosting);
    s.record_event(NetworkEvent::Disconnected, "t");
    assert_eq!(s.state, ProxyState::Idle);
    assert_eq!(s.peer_count, 3);
    assert!(s.log.is_empty());
}

#[test]
fn client_lifecycle() {
    let mut s = Session::new();
    s.error = Some("old".to_string());
    s.record_event(NetworkEvent::Connecting, "t");
    assert_eq!(s.state, ProxyState::Connecting);
    assert_eq!(s.error, None);
    s.record_event(NetworkEvent::Connected, "t");
    assert_eq!(s.state, ProxyState::Connected);
    s.record_event(NetworkEvent::Error("connection reset".to_string()), "t");
    assert_eq!(s.state, ProxyState::Idle);
    assert_eq!(s.error.as_deref(), Some("connection reset"));
    // disconnecting keeps the error shown
    s.record_event(NetworkEvent::Disconnected, "t");
    assert_eq!(s.error.as_deref(), Some("connection reset"));
}

#[test]
fn connected_does_not_clear_the_error() {
    let mut s = Session::new();
    s.record_event(NetworkEvent::Error("e".to_string()), "t");
    s.record_event(NetworkEvent::Connected, "t");
    assert_eq!(s.state, ProxyState::Connected);
    assert_eq!(s.error.as_deref(), Some("e"));
}

#[test]
fn peer_count_keeps_low_bits() {
    let mut s = Session::new();
    s.record_event(NetworkEvent::PeerCount(7), "t");
    assert_eq!(s.peer_count, 7);
    if usize::BITS > 32 {
        s.record_event(NetworkEvent::PeerCount(((1u64 << 32) + 5) as usize), "t");
        assert_eq!(s.peer_count, 5);
    }
}

#[test]
fn clock_text_stamps_the_log_line() {
    let mut s = Session::new();
    let time = chrono::Local::now().format("%H:%M:%S").to_string();
    s.record_event(
        NetworkEvent::PacketSent {
            addr: "127.0.0.1:6112".to_string(),
            data: searchgame_payload(GameType::ReignOfChaos, 27).to_vec(),
        },
        &time,
    );
    assert_eq!(s.log.len(), 1);
    assert_eq!(s.log[0], format!("{time}: RECV from 127.0.0.1:6112: [SEARCHGAME]"));
    s.record_event(NetworkEvent::ServerStarted, &time);
    assert_eq!(s.state, ProxyState::Hosting);
    assert_eq!(s.log.len(), 1);
}
