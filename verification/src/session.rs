//! The state of the bridge as the user sees it, driven by network events.
//!
//! The networking side reports what happens as `NetworkEvent`s; the session
//! folds each one into the proxy state, the last error, the traffic log and
//! the peer count that the window shows.
use vstd::prelude::*;
use vstd::string::StringExecFns;
use crate::w3gs::{GameType, W3gsPacket, lemma_packet_code_injective, packet_kind, spec_packet_kind};

verus! {

/// What the bridge is doing.
#[derive(Debug, Clone, Copy, PartialEq, Eq, Structural)]
pub enum ProxyState {
    Idle,
    Hosting,
    Connecting,
    Connected,
}

/// What the networking side reports. Addresses are given as the text the
/// log shows for them.
#[derive(Debug)]
pub enum NetworkEvent {
    PacketReceived { addr: String, data: Vec<u8> },
    PacketSent { addr: String, data: Vec<u8> },
    ServerStarted,
    Connecting,
    Connected,
    Disconnected,
    Error(String),
    PeerCount(usize),
}

/// The patch version a new session asks for.
pub const DEFAULT_VERSION: u32 = 29;

/// The user-facing state of the bridge.
pub struct Session {
    pub state: ProxyState,
    pub error: Option<String>,
    pub log: Vec<String>,
    pub game_type: GameType,
    pub version: u32,
    pub peer_count: u32,
}

/// A packet event carries a datagram that has a packet id.
pub open spec fn event_well_formed(event: NetworkEvent) -> bool {
    match event {
        NetworkEvent::PacketReceived { data, .. } => data@.len() > 1,
        NetworkEvent::PacketSent { data, .. } => data@.len() > 1,
        _ => true,
    }
}

/// The log line for a datagram `data` exchanged with `addr` at `time`.
/// Sent and received datagrams are logged alike.
pub open spec fn log_line(time: Seq<char>, addr: Seq<char>, data: Seq<u8>) -> Seq<char> {
    time + ": RECV from "@ + addr + ": ["@ + spec_packet_kind(data[1]).spec_name() + "]"@
}

/// The log line an event adds at `time`, if it adds one.
pub open spec fn event_log_line(event: NetworkEvent, time: Seq<char>) -> Option<Seq<char>> {
    match event {
        NetworkEvent::PacketReceived { addr, data } => Some(log_line(time, addr@, data@)),
        NetworkEvent::PacketSent { addr, data } => Some(log_line(time, addr@, data@)),
        _ => None,
    }
}

/// The proxy state after an event.
pub open spec fn next_state(state: ProxyState, event: NetworkEvent) -> ProxyState {
    match event {
        NetworkEvent::ServerStarted => ProxyState::Hosting,
        NetworkEvent::Connecting => ProxyState::Connecting,
        NetworkEvent::Connected => ProxyState::Connected,
        NetworkEvent::Disconnected => ProxyState::Idle,
        NetworkEvent::Error(_) => ProxyState::Idle,
        _ => state,
    }
}

/// The last error after an event: starting to host or to connect clears it,
/// an error replaces it.
pub open spec fn next_error(error: Option<String>, event: NetworkEvent) -> Option<String> {
    match event {
        NetworkEvent::ServerStarted => None,
        NetworkEvent::Connecting => None,
        NetworkEvent::Error(e) => Some(e),
        _ => error,
    }
}

/// The peer count after an event; a count beyond `u32` keeps its low 32
/// bits.
pub open spec fn next_peer_count(count: u32, event: NetworkEvent) -> u32 {
    match event {
        NetworkEvent::PeerCount(n) => n as u32,
        _ => count,
    }
}

/// The log line for a datagram `data` exchanged with `addr` at `time`.
pub fn packet_log_line(time: &str, addr: &str, data: &[u8]) -> (line: String)
    requires
        data@.len() > 1,
    ensures
        line@ == log_line(time@, addr@, data@),
        forall|p: W3gsPacket|
            #[trigger] p.spec_code() == data@[1] ==> line@ == time@ + ": RECV from "@ + addr@ + ": ["@
                + p.spec_name() + "]"@,
        (forall|p: W3gsPacket| #[trigger] p.spec_code() != data@[1]) ==> line@ == time@
            + ": RECV from "@ + addr@ + ": ["@ + "UNKNOWN"@ + "]"@,
{
    proof {
        lemma_log_line_names_the_id(time@, addr@, data@);
    }
    let kind: W3gsPacket = packet_kind(data);
    let mut line = String::from_str(time);
    line.append(": RECV from ");
    line.append(addr);
    line.append(": [");
    line.append(kind.name());
    line.append("]");
    line
}

/// A log line names the packet kind whose id is the datagram's second byte,
/// whichever kind that is, and `UNKNOWN` when no kind has that id.
pub proof fn lemma_log_line_names_the_id(time: Seq<char>, addr: Seq<char>, data: Seq<u8>)
    requires
        data.len() > 1,
    ensures
        forall|p: W3gsPacket|
            #[trigger] p.spec_code() == data[1] ==> log_line(time, addr, data) == time
                + ": RECV from "@ + addr + ": ["@ + p.spec_name() + "]"@,
        (forall|p: W3gsPacket| #[trigger] p.spec_code() != data[1]) ==> log_line(time, addr, data)
            == time + ": RECV from "@ + addr + ": ["@ + "UNKNOWN"@ + "]"@,
{
    assert forall|p: W3gsPacket| #[trigger] p.spec_code() == data[1] implies log_line(time, addr, data)
        == time + ": RECV from "@ + addr + ": ["@ + p.spec_name() + "]"@ by {
        lemma_packet_code_injective(p, spec_packet_kind(data[1]));
    }
}

/// What each event does to the proxy state, the error and the peer count:
/// datagrams leave all three alone; a peer count changes only the count;
/// hosting or connecting starts clear the error; connected and disconnected
/// keep it; an error replaces it and makes the session idle.
pub proof fn lemma_event_effects(state: ProxyState, error: Option<String>, count: u32, event: NetworkEvent)
    ensures
        (event is PacketReceived || event is PacketSent) ==> next_state(state, event) == state
            && next_error(error, event) == error && next_peer_count(count, event) == count,
        event is PeerCount ==> next_state(state, event) == state && next_error(error, event) == error
            && next_peer_count(count, event) == event->PeerCount_0 as u32,
        event is ServerStarted ==> next_state(state, event) == ProxyState::Hosting && next_error(
            error,
            event,
        ) is None && next_peer_count(count, event) == count,
        event is Connecting ==> next_state(state, event) == ProxyState::Connecting && next_error(
            error,
            event,
        ) is None && next_peer_count(count, event) == count,
        event is Connected ==> next_state(state, event) == ProxyState::Connected && next_error(
            error,
            event,
        ) == error && next_peer_count(count, event) == count,
        event is Disconnected ==> next_state(state, event) == ProxyState::Idle && next_error(
            error,
            event,
        ) == error && next_peer_count(count, event) == count,
        event is Error ==> next_state(state, event) == ProxyState::Idle && next_error(error, event)
            == Some(event->Error_0) && next_peer_count(count, event) == count,
{
}

/// An error stays shown until the user starts to host or to connect again,
/// or another error replaces it; an error always sends the session back to
/// idle.
pub proof fn lemma_error_lifecycle(error: Option<String>, state: ProxyState, event: NetworkEvent)
    ensures
        next_error(error, event) is None <==> (event is ServerStarted || event is Connecting || (
        error is None && !(event is Error))),
        event is Error ==> next_state(state, event) == ProxyState::Idle && next_error(error, event)
            == Some(event->Error_0),
{
}

/// Only datagram events give a log line; every other event leaves the log
/// alone.
pub proof fn lemma_only_packets_are_logged(event: NetworkEvent, time: Seq<char>)
    ensures
        event_log_line(event, time) is Some <==> (event is PacketReceived || event is PacketSent),
{
}

impl Session {
    /// A session that is idle, has no error, no log and no peers, and is set
    /// for The Frozen Throne at patch 1.29.
    pub fn new() -> (s: Session)
        ensures
            s.state == ProxyState::Idle,
            s.error is None,
            s.log@.len() == 0,
            s.game_type == GameType::FrozenThrone,
            s.version == DEFAULT_VERSION,
            s.peer_count == 0,
    {
        Session {
            state: ProxyState::Idle,
            error: None,
            log: Vec::new(),
            game_type: GameType::FrozenThrone,
            version: DEFAULT_VERSION,
            peer_count: 0,
        }
    }

    /// Folds `event`, which happened at local time `time`, into the session.
    pub fn record_event(&mut self, event: NetworkEvent, time: &str)
        requires
            event_well_formed(event),
        ensures
            final(self).state == next_state(old(self).state, event),
            final(self).error == next_error(old(self).error, event),
            final(self).peer_count == next_peer_count(old(self).peer_count, event),
            final(self).game_type == old(self).game_type,
            final(self).version == old(self).version,
            match event_log_line(event, time@) {
                Some(line) => final(self).log@.len() == old(self).log@.len() + 1
                    && final(self).log@.drop_last() == old(self).log@
                    && final(self).log@.last()@ == line,
                None => final(self).log@ == old(self).log@,
            },
            (event is PacketReceived || event is PacketSent) ==> final(self).state == old(self).state
                && final(self).error == old(self).error && final(self).peer_count == old(
                self,
            ).peer_count,
            event is PeerCount ==> final(self).state == old(self).state && final(self).error == old(
                self,
            ).error && final(self).peer_count == event->PeerCount_0 as u32,
            event is ServerStarted ==> final(self).state == ProxyState::Hosting && final(self).error is None,
            event is Connecting ==> final(self).state == ProxyState::Connecting && final(self).error is None,
            event is Connected ==> final(self).state == ProxyState::Connected && final(self).error == old(
                self,
            ).error,
            event is Disconnected ==> final(self).state == ProxyState::Idle && final(self).error == old(
                self,
            ).error,
            event is Error ==> final(self).state == ProxyState::Idle && final(self).error == Some(
                event->Error_0,
            ),
            !(event is PacketReceived || event is PacketSent) ==> final(self).log@ == old(self).log@,
    {
        match event {
            NetworkEvent::PacketReceived { addr, data } => {
                let line = packet_log_line(time, addr.as_str(), data.as_slice());
                self.log.push(line);
            },
            NetworkEvent::ServerStarted => {
                self.error = None;
                self.state = ProxyState::Hosting;
            },
            NetworkEvent::PacketSent { addr, data } => {
                let line = packet_log_line(time, addr.as_str(), data.as_slice());
                self.log.push(line);
            },
            NetworkEvent::Connected => self.state = ProxyState::Connected,
            NetworkEvent::Connecting => {
                self.error = None;
                self.state = ProxyState::Connecting;
            },
            NetworkEvent::Disconnected => self.state = ProxyState::Idle,
            NetworkEvent::Error(e) => {
                self.error = Some(e);
                self.state = ProxyState::Idle;
            },
            NetworkEvent::PeerCount(u) => self.peer_count = u as u32,
        }
    }
}

} // verus!
