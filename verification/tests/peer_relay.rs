use zogzog::peers::PEER_TIMEOUT_NANOS;
use zogzog::{client_ping, searchgame_payload, GameType, PeerAddr, PeerTable, Relay};

fn v4(last: u8, port: u16) -> PeerAddr {
    PeerAddr::V4 { ipv4: u32::from_be_bytes([10, 0, 0, last]), port }
}

const SEC: u64 = 1_000_000_000;

/// Does what the host does with a greeting from `addr` that arrives at
/// `now` and is recorded at `recorded`: returns the reported peer count.
fn greet_at(t: &mut PeerTable, addr: PeerAddr, now: u64, recorded: u64) -> usize {
    match t.on_datagram(&client_ping(), addr, now) {
        Relay::Register { peer_count } => {
            t.touch(addr, recorded);
            peer_count
        }
        other => panic!("unexpected {other:?}"),
    }
}

fn greet(t: &mut PeerTable, addr: PeerAddr, now: u64) -> usize {
    greet_at(t, addr, now, now)
}

fn sorted(mut v: Vec<PeerAddr>) -> Vec<PeerAddr> {
    v.sort_by_key(|a| format!("{a:?}"));
    v
}

#[test]
fn non_w3gs_datagrams_are_ignored() {
    let mut t = PeerTable::new();
    assert_eq!(greet(&mut t, v4(1, 1), 0), 0);
    assert!(matches!(t.on_datagram(&[0x01, 0x02, 0x03], v4(2, 1), 100 * SEC), Relay::Ignore));
    assert!(matches!(t.on_datagram(&[0xf7], v4(2, 1), 100 * SEC), Relay::Ignore));
    // an ignored datagram does not even drop stale peers
    assert_eq!(t.len(), 1);
    assert_eq!(t.last_seen(v4(1, 1)), Some(0));
}

#[test]
fn greetings_register_peers() {
    let mut t = PeerTable::new();
    assert_eq!(greet(&mut t, v4(1, 6112), SEC), 0);
    assert_eq!(greet(&mut t, v4(2, 6112), 2 * SEC), 1);
    // greeting again refreshes, it does not duplicate
    assert_eq!(greet(&mut t, v4(1, 6112), 3 * SEC), 2);
    assert_eq!(t.len(), 2);
    assert_eq!(t.last_seen(v4(1, 6112)), Some(3 * SEC));
    assert_eq!(t.last_seen(v4(2, 6112)), Some(2 * SEC));
    assert_eq!(t.last_seen(v4(3, 6112)), None);
}

#[test]
fn broadcast_goes_to_all_live_peers_but_the_sender() {
    let mut t = PeerTable::new();
    greet(&mut t, v4(1, 1), 0);
    greet(&mut t, v4(2, 2), 0);
    greet(&mut t, v4(3, 3), 0);
    let data = searchgame_payload(GameType::FrozenThrone, 29);
    match t.on_datagram(&data, v4(2, 2), SEC) {
        Relay::Broadcast { peer_count, targets } => {
            assert_eq!(peer_count, 3);
            assert_eq!(sorted(targets), sorted(vec![v4(1, 1), v4(3, 3)]));
        }
        other => panic!("unexpected {other:?}"),
    }
    // a sender that is not a peer reaches every peer
    match t.on_datagram(&[0xf7, 0x30, 0x00, 0x00], v4(9, 9), SEC) {
        Relay::Broadcast { peer_count, targets } => {
            assert_eq!(peer_count, 3);
            assert_eq!(targets.len(), 3);
        }
        other => panic!("unexpected {other:?}"),
    }
    // broadcasting does not register the sender
    assert_eq!(t.last_seen(v4(9, 9)), None);
}

#[test]
fn same_ip_other_port_is_another_peer() {
    let mut t = PeerTable::new();
    greet(&mut t, v4(1, 1000), 0);
    greet(&mut t, v4(1, 2000), 0);
    assert_eq!(t.len(), 2);
    match t.on_datagram(&[0xf7, 0x30], v4(1, 1000), 1) {
        Relay::Broadcast { targets, .. } => assert_eq!(targets, vec![v4(1, 2000)]),
        other => panic!("unexpected {other:?}"),
    }
}

#[test]
fn ipv6_peers_compare_all_fields() {
    let a = PeerAddr::V6 { ipv6: 1, port: 7, flowinfo: 0, scope_id: 0 };
    let b = PeerAddr::V6 { ipv6: 1, port: 7, flowinfo: 0, scope_id: 3 };
    let mut t = PeerTable::new();
    greet(&mut t, a, 0);
    greet(&mut t, b, 0);
    assert_eq!(t.len(), 2);
}

#[test]
fn peers_expire_after_the_timeout() {
    let mut t = PeerTable::new();
    greet(&mut t, v4(1, 1), 0);
    greet(&mut t, v4(2, 2), 10 * SEC);
    // one nanosecond before the first peer expires
    match t.on_datagram(&[0xf7, 0x0c], v4(9, 9), PEER_TIMEOUT_NANOS - 1) {
        Relay::Broadcast { peer_count, targets } => {
            assert_eq!(peer_count, 2);
            assert_eq!(targets.len(), 2);
        }
        other => panic!("unexpected {other:?}"),
    }
    // exactly at the timeout the first peer is gone
    match t.on_datagram(&[0xf7, 0x0c], v4(9, 9), PEER_TIMEOUT_NANOS) {
        Relay::Broadcast { peer_count, targets } => {
            assert_eq!(peer_count, 1);
            assert_eq!(targets, vec![v4(2, 2)]);
        }
        other => panic!("unexpected {other:?}"),
    }
    assert_eq!(t.last_seen(v4(1, 1)), None);
    // the greeting's own count is taken after stale peers left
    assert_eq!(greet(&mut t, v4(1, 1), 40 * SEC), 0);
    assert_eq!(t.len(), 1);
}

#[test]
fn clock_going_backwards_keeps_peers() {
    let mut t = PeerTable::new();
    greet(&mut t, v4(1, 1), 100 * SEC);
    t.drop_stale(SEC);
    assert_eq!(t.last_seen(v4(1, 1)), Some(100 * SEC));
}

#[test]
fn touch_and_others() {
    let mut t = PeerTable::new();
    assert_eq!(t.len(), 0);
    t.touch(v4(1, 1), 5);
    t.touch(v4(2, 2), 6);
    t.touch(v4(1, 1), 7);
    assert_eq!(t.len(), 2);
    assert_eq!(t.last_seen(v4(1, 1)), Some(7));
    assert_eq!(sorted(t.others(v4(3, 3))), sorted(vec![v4(1, 1), v4(2, 2)]));
    assert_eq!(t.others(v4(1, 1)), vec![v4(2, 2)]);
}

#[test]
fn a_greeting_is_recorded_when_touched() {
    let mut t = PeerTable::new();
    // the greeting itself leaves the sender out of the table
    assert!(matches!(t.on_datagram(&client_ping(), v4(1, 1), 5 * SEC), Relay::Register { peer_count: 0 }));
    assert_eq!(t.last_seen(v4(1, 1)), None);
    // the host records it with the time it reads after reporting the count
    t.touch(v4(1, 1), 5 * SEC + 3);
    assert_eq!(t.last_seen(v4(1, 1)), Some(5 * SEC + 3));
    // it expires a timeout after the recorded time, not the arrival
    match t.on_datagram(&[0xf7, 0x0c], v4(9, 9), 5 * SEC + PEER_TIMEOUT_NANOS + 2) {
        Relay::Broadcast { targets, .. } => assert_eq!(targets, vec![v4(1, 1)]),
        other => panic!("unexpected {other:?}"),
    }
    assert_eq!(greet_at(&mut t, v4(2, 2), 100 * SEC, 100 * SEC + 7), 0);
    assert_eq!(t.last_seen(v4(2, 2)), Some(100 * SEC + 7));
}
