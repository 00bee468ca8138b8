//! Verified core of a LAN bridge for Warcraft III game discovery.
//!
//! The library holds the parts of the bridge that decide things: the
//! W3GS packet vocabulary and the datagrams it builds and recognises
//! (`w3gs`), the host's table of live peers and its relay decisions
//! (`peers`), and the user-facing session state that network events drive
//! (`session`). Sockets, timers and the window live outside the library.
pub mod peers;
pub mod session;
pub mod w3gs;

pub use session::{NetworkEvent, ProxyState, Session};
pub use peers::{PeerAddr, PeerTable, Relay};
pub use w3gs::{GameType, W3gsPacket, client_ping, is_greeting, is_w3gs, packet_kind, searchgame_payload};
