//! The W3GS (Warcraft III game server) packet vocabulary used on the LAN.
//!
//! Every W3GS datagram starts with the class byte `0xf7`, followed by the
//! packet id, then a little-endian `u16` holding the whole packet length.
use vstd::prelude::*;

verus! {

/// The class byte that opens every W3GS packet.
pub const W3GS_CLASS: u8 = 0xf7;

/// Packet ids of the W3GS protocol, plus `Unknown` for ids outside the list.
#[derive(Debug, Clone, Copy, PartialEq, Eq, Structural)]
pub enum W3gsPacket {
    Wc3cClientPing,
    PingFromHost,
    SlotInfoJoin,
    RejectJoin,
    PlayerInfo,
    PlayerLeft,
    PlayerLoaded,
    SlotInfo,
    CountdownStart,
    CountdownEnd,
    IncomingAction,
    ChatFromHost,
    StartLag,
    StopLag,
    Leavers,
    HostKickPlayer,
    ReqJoin,
    LeaveReq,
    GameLoadedSelf,
    OutgoingAction,
    OutgoingKeepalive,
    ChatToHost,
    DropReq,
    SearchGame,
    GameInfo,
    CreateGame,
    RefreshGame,
    DecreateGame,
    PingFromOthers,
    PongToOthers,
    ClientInfo,
    MapCheck,
    StartDownload,
    MapSize,
    MapPart,
    MapPartOk,
    MapPartNotOk,
    PongToHost,
    IncomingAction2,
    Unknown,
}

impl W3gsPacket {
    /// The id byte of each packet kind. `Unknown` takes the id that follows
    /// the last listed one.
    pub open spec fn spec_code(self) -> u8 {
        match self {
            W3gsPacket::Wc3cClientPing => 0x00,
            W3gsPacket::PingFromHost => 0x01,
            W3gsPacket::SlotInfoJoin => 0x04,
            W3gsPacket::RejectJoin => 0x05,
            W3gsPacket::PlayerInfo => 0x06,
            W3gsPacket::PlayerLeft => 0x07,
            W3gsPacket::PlayerLoaded => 0x08,
            W3gsPacket::SlotInfo => 0x09,
            W3gsPacket::CountdownStart => 0x0A,
            W3gsPacket::CountdownEnd => 0x0B,
            W3gsPacket::IncomingAction => 0x0C,
            W3gsPacket::ChatFromHost => 0x0F,
            W3gsPacket::StartLag => 0x10,
            W3gsPacket::StopLag => 0x11,
            W3gsPacket::Leavers => 0x1B,
            W3gsPacket::HostKickPlayer => 0x1C,
            W3gsPacket::ReqJoin => 0x1E,
            W3gsPacket::LeaveReq => 0x21,
            W3gsPacket::GameLoadedSelf => 0x23,
            W3gsPacket::OutgoingAction => 0x26,
            W3gsPacket::OutgoingKeepalive => 0x27,
            W3gsPacket::ChatToHost => 0x28,
            W3gsPacket::DropReq => 0x29,
            W3gsPacket::SearchGame => 0x2F,
            W3gsPacket::GameInfo => 0x30,
            W3gsPacket::CreateGame => 0x31,
            W3gsPacket::RefreshGame => 0x32,
            W3gsPacket::DecreateGame => 0x33,
            W3gsPacket::PingFromOthers => 0x35,
            W3gsPacket::PongToOthers => 0x36,
            W3gsPacket::ClientInfo => 0x37,
            W3gsPacket::MapCheck => 0x3D,
            W3gsPacket::StartDownload => 0x3F,
            W3gsPacket::MapSize => 0x42,
            W3gsPacket::MapPart => 0x43,
            W3gsPacket::MapPartOk => 0x44,
            W3gsPacket::MapPartNotOk => 0x45,
            W3gsPacket::PongToHost => 0x46,
            W3gsPacket::IncomingAction2 => 0x48,
            W3gsPacket::Unknown => 0x49,
        }
    }

    /// The protocol name of each packet kind, as the traffic log shows it.
    pub open spec fn spec_name(self) -> Seq<char> {
        match self {
            W3gsPacket::Wc3cClientPing => "WC3C_CLIENT_PING"@,
            W3gsPacket::PingFromHost => "PING_FROM_HOST"@,
            W3gsPacket::SlotInfoJoin => "SLOTINFOJOIN"@,
            W3gsPacket::RejectJoin => "REJECTJOIN"@,
            W3gsPacket::PlayerInfo => "PLAYERINFO"@,
            W3gsPacket::PlayerLeft => "PLAYERLEFT"@,
            W3gsPacket::PlayerLoaded => "PLAYERLOADED"@,
            W3gsPacket::SlotInfo => "SLOTINFO"@,
            W3gsPacket::CountdownStart => "COUNTDOWN_START"@,
            W3gsPacket::CountdownEnd => "COUNTDOWN_END"@,
            W3gsPacket::IncomingAction => "INCOMING_ACTION"@,
            W3gsPacket::ChatFromHost => "CHAT_FROM_HOST"@,
            W3gsPacket::StartLag => "START_LAG"@,
            W3gsPacket::StopLag => "STOP_LAG"@,
            W3gsPacket::Leavers => "LEAVERS"@,
            W3gsPacket::HostKickPlayer => "HOST_KICK_PLAYER"@,
            W3gsPacket::ReqJoin => "REQJOIN"@,
            W3gsPacket::LeaveReq => "LEAVEREQ"@,
            W3gsPacket::GameLoadedSelf => "GAMELOADED_SELF"@,
            W3gsPacket::OutgoingAction => "OUTGOING_ACTION"@,
            W3gsPacket::OutgoingKeepalive => "OUTGOING_KEEPALIVE"@,
            W3gsPacket::ChatToHost => "CHAT_TO_HOST"@,
            W3gsPacket::DropReq => "DROPREQ"@,
            W3gsPacket::SearchGame => "SEARCHGAME"@,
            W3gsPacket::GameInfo => "GAMEINFO"@,
            W3gsPacket::CreateGame => "CREATEGAME"@,
            W3gsPacket::RefreshGame => "REFRESHGAME"@,
            W3gsPacket::DecreateGame => "DECREATEGAME"@,
            W3gsPacket::PingFromOthers => "PING_FROM_OTHERS"@,
            W3gsPacket::PongToOthers => "PONG_TO_OTHERS"@,
            W3gsPacket::ClientInfo => "CLIENTINFO"@,
            W3gsPacket::MapCheck => "MAPCHECK"@,
            W3gsPacket::StartDownload => "STARTDOWNLOAD"@,
            W3gsPacket::MapSize => "MAPSIZE"@,
            W3gsPacket::MapPart => "MAPPART"@,
            W3gsPacket::MapPartOk => "MAPPARTOK"@,
            W3gsPacket::MapPartNotOk => "MAPPARTNOTOK"@,
            W3gsPacket::PongToHost => "PONG_TO_HOST"@,
            W3gsPacket::IncomingAction2 => "INCOMING_ACTION2"@,
            W3gsPacket::Unknown => "UNKNOWN"@,
        }
    }

    /// The id byte of this packet kind.
    pub fn code(self) -> (b: u8)
        ensures
            b == self.spec_code(),
    {
        match self {
            W3gsPacket::Wc3cClientPing => 0x00,
            W3gsPacket::PingFromHost => 0x01,
            W3gsPacket::SlotInfoJoin => 0x04,
            W3gsPacket::RejectJoin => 0x05,
            W3gsPacket::PlayerInfo => 0x06,
            W3gsPacket::PlayerLeft => 0x07,
            W3gsPacket::PlayerLoaded => 0x08,
            W3gsPacket::SlotInfo => 0x09,
            W3gsPacket::CountdownStart => 0x0A,
            W3gsPacket::CountdownEnd => 0x0B,
            W3gsPacket::IncomingAction => 0x0C,
            W3gsPacket::ChatFromHost => 0x0F,
            W3gsPacket::StartLag => 0x10,
            W3gsPacket::StopLag => 0x11,
            W3gsPacket::Leavers => 0x1B,
            W3gsPacket::HostKickPlayer => 0x1C,
            W3gsPacket::ReqJoin => 0x1E,
            W3gsPacket::LeaveReq => 0x21,
            W3gsPacket::GameLoadedSelf => 0x23,
            W3gsPacket::OutgoingAction => 0x26,
            W3gsPacket::OutgoingKeepalive => 0x27,
            W3gsPacket::ChatToHost => 0x28,
            W3gsPacket::DropReq => 0x29,
            W3gsPacket::SearchGame => 0x2F,
            W3gsPacket::GameInfo => 0x30,
            W3gsPacket::CreateGame => 0x31,
            W3gsPacket::RefreshGame => 0x32,
            W3gsPacket::DecreateGame => 0x33,
            W3gsPacket::PingFromOthers => 0x35,
            W3gsPacket::PongToOthers => 0x36,
            W3gsPacket::ClientInfo => 0x37,
            W3gsPacket::MapCheck => 0x3D,
            W3gsPacket::StartDownload => 0x3F,
            W3gsPacket::MapSize => 0x42,
            W3gsPacket::MapPart => 0x43,
            W3gsPacket::MapPartOk => 0x44,
            W3gsPacket::MapPartNotOk => 0x45,
            W3gsPacket::PongToHost => 0x46,
            W3gsPacket::IncomingAction2 => 0x48,
            W3gsPacket::Unknown => 0x49,
        }
    }

    /// The packet kind whose id is `b`, if there is one.
    pub fn from_repr(b: u8) -> (res: Option<W3gsPacket>)
        ensures
            res matches Some(p) ==> p.spec_code() == b,
            res is None ==> forall|p: W3gsPacket| p.spec_code() != b,
    {
        match b {
            0x00 => Some(W3gsPacket::Wc3cClientPing),
            0x01 => Some(W3gsPacket::PingFromHost),
            0x04 => Some(W3gsPacket::SlotInfoJoin),
            0x05 => Some(W3gsPacket::RejectJoin),
            0x06 => Some(W3gsPacket::PlayerInfo),
            0x07 => Some(W3gsPacket::PlayerLeft),
            0x08 => Some(W3gsPacket::PlayerLoaded),
            0x09 => Some(W3gsPacket::SlotInfo),
            0x0A => Some(W3gsPacket::CountdownStart),
            0x0B => Some(W3gsPacket::CountdownEnd),
            0x0C => Some(W3gsPacket::IncomingAction),
            0x0F => Some(W3gsPacket::ChatFromHost),
            0x10 => Some(W3gsPacket::StartLag),
            0x11 => Some(W3gsPacket::StopLag),
            0x1B => Some(W3gsPacket::Leavers),
            0x1C => Some(W3gsPacket::HostKickPlayer),
            0x1E => Some(W3gsPacket::ReqJoin),
            0x21 => Some(W3gsPacket::LeaveReq),
            0x23 => Some(W3gsPacket::GameLoadedSelf),
            0x26 => Some(W3gsPacket::OutgoingAction),
            0x27 => Some(W3gsPacket::OutgoingKeepalive),
            0x28 => Some(W3gsPacket::ChatToHost),
            0x29 => Some(W3gsPacket::DropReq),
            0x2F => Some(W3gsPacket::SearchGame),
            0x30 => Some(W3gsPacket::GameInfo),
            0x31 => Some(W3gsPacket::CreateGame),
            0x32 => Some(W3gsPacket::RefreshGame),
            0x33 => Some(W3gsPacket::DecreateGame),
            0x35 => Some(W3gsPacket::PingFromOthers),
            0x36 => Some(W3gsPacket::PongToOthers),
            0x37 => Some(W3gsPacket::ClientInfo),
            0x3D => Some(W3gsPacket::MapCheck),
            0x3F => Some(W3gsPacket::StartDownload),
            0x42 => Some(W3gsPacket::MapSize),
            0x43 => Some(W3gsPacket::MapPart),
            0x44 => Some(W3gsPacket::MapPartOk),
            0x45 => Some(W3gsPacket::MapPartNotOk),
            0x46 => Some(W3gsPacket::PongToHost),
            0x48 => Some(W3gsPacket::IncomingAction2),
            0x49 => Some(W3gsPacket::Unknown),
            _ => None,
        }
    }

    /// The protocol name of this packet kind.
    pub fn name(self) -> (s: &'static str)
        ensures
            s@ == self.spec_name(),
    {
        match self {
            W3gsPacket::Wc3cClientPing => "WC3C_CLIENT_PING",
            W3gsPacket::PingFromHost => "PING_FROM_HOST",
            W3gsPacket::SlotInfoJoin => "SLOTINFOJOIN",
            W3gsPacket::RejectJoin => "REJECTJOIN",
            W3gsPacket::PlayerInfo => "PLAYERINFO",
            W3gsPacket::PlayerLeft => "PLAYERLEFT",
            W3gsPacket::PlayerLoaded => "PLAYERLOADED",
            W3gsPacket::SlotInfo => "SLOTINFO",
            W3gsPacket::CountdownStart => "COUNTDOWN_START",
            W3gsPacket::CountdownEnd => "COUNTDOWN_END",
            W3gsPacket::IncomingAction => "INCOMING_ACTION",
            W3gsPacket::ChatFromHost => "CHAT_FROM_HOST",
            W3gsPacket::StartLag => "START_LAG",
            W3gsPacket::StopLag => "STOP_LAG",
            W3gsPacket::Leavers => "LEAVERS",
            W3gsPacket::HostKickPlayer => "HOST_KICK_PLAYER",
            W3gsPacket::ReqJoin => "REQJOIN",
            W3gsPacket::LeaveReq => "LEAVEREQ",
            W3gsPacket::GameLoadedSelf => "GAMELOADED_SELF",
            W3gsPacket::OutgoingAction => "OUTGOING_ACTION",
            W3gsPacket::OutgoingKeepalive => "OUTGOING_KEEPALIVE",
            W3gsPacket::ChatToHost => "CHAT_TO_HOST",
            W3gsPacket::DropReq => "DROPREQ",
            W3gsPacket::SearchGame => "SEARCHGAME",
            W3gsPacket::GameInfo => "GAMEINFO",
            W3gsPacket::CreateGame => "CREATEGAME",
            W3gsPacket::RefreshGame => "REFRESHGAME",
            W3gsPacket::DecreateGame => "DECREATEGAME",
            W3gsPacket::PingFromOthers => "PING_FROM_OTHERS",
            W3gsPacket::PongToOthers => "PONG_TO_OTHERS",
            W3gsPacket::ClientInfo => "CLIENTINFO",
            W3gsPacket::MapCheck => "MAPCHECK",
            W3gsPacket::StartDownload => "STARTDOWNLOAD",
            W3gsPacket::MapSize => "MAPSIZE",
            W3gsPacket::MapPart => "MAPPART",
            W3gsPacket::MapPartOk => "MAPPARTOK",
            W3gsPacket::MapPartNotOk => "MAPPARTNOTOK",
            W3gsPacket::PongToHost => "PONG_TO_HOST",
            W3gsPacket::IncomingAction2 => "INCOMING_ACTION2",
            W3gsPacket::Unknown => "UNKNOWN",
        }
    }
}


/// The product whose games a SEARCHGAME asks for.
#[derive(Debug, Clone, Copy, PartialEq, Eq, Structural)]
pub enum GameType {
    ReignOfChaos,
    FrozenThrone,
}

impl GameType {
    /// The product tag as a `u32`: the four ASCII letters `WAR3` or `W3XP`
    /// read big-endian.
    pub open spec fn spec_code(self) -> u32 {
        match self {
            GameType::ReignOfChaos => 0x5741_5233,
            GameType::FrozenThrone => 0x5733_5850,
        }
    }

    pub open spec fn spec_label(self) -> Seq<char> {
        match self {
            GameType::ReignOfChaos => "Reign of Chaos"@,
            GameType::FrozenThrone => "Frozen Throne"@,
        }
    }

    /// The product tag of this game as a `u32`.
    pub fn code(self) -> (c: u32)
        ensures
            c == self.spec_code(),
    {
        match self {
            GameType::ReignOfChaos => 0x5741_5233,
            GameType::FrozenThrone => 0x5733_5850,
        }
    }

    /// The product tag as it travels on the wire: little-endian.
    pub fn serialize(self) -> (b: [u8; 4])
        ensures
            b@ == le_bytes_u32(self.spec_code()),
    {
        u32_to_le_bytes(self.code())
    }

    /// The name shown to the user.
    pub fn label(self) -> (s: &'static str)
        ensures
            s@ == self.spec_label(),
    {
        match self {
            GameType::ReignOfChaos => "Reign of Chaos",
            GameType::FrozenThrone => "Frozen Throne",
        }
    }
}

/// The four little-endian bytes of `v`.
pub open spec fn le_bytes_u32(v: u32) -> Seq<u8> {
    seq![(v % 0x100) as u8, (v / 0x100 % 0x100) as u8, (v / 0x1_0000 % 0x100) as u8, (v / 0x100_0000) as u8]
}

/// The value of four bytes read little-endian.
pub open spec fn le_value(b: Seq<u8>) -> int
    recommends
        b.len() == 4,
{
    b[0] + 256 * b[1] + 65536 * b[2] + 16777216 * b[3]
}

/// The value of the two bytes at `at` and `at + 1` read little-endian.
pub open spec fn le_u16_at(b: Seq<u8>, at: int) -> int {
    b[at] + 256 * b[at + 1]
}

/// A datagram is W3GS when it has more than one byte and opens with the
/// W3GS class byte.
pub open spec fn spec_is_w3gs(buf: Seq<u8>) -> bool {
    buf.len() > 1 && buf[0] == W3GS_CLASS
}

/// A greeting is exactly four bytes: the class byte, packet id 0, and a
/// length field that is not looked at.
pub open spec fn spec_is_greeting(buf: Seq<u8>) -> bool {
    buf.len() == 4 && buf[0] == W3GS_CLASS && buf[1] == 0x00
}

/// The SEARCHGAME datagram that asks the local game for open games of
/// `game` at patch `version`; its last four bytes stay zero.
pub open spec fn spec_searchgame(game: GameType, version: u32) -> Seq<u8> {
    seq![W3GS_CLASS, 0x2fu8, 0x10u8, 0x00u8] + le_bytes_u32(game.spec_code()) + le_bytes_u32(version)
        + seq![0u8, 0u8, 0u8, 0u8]
}

/// The packet kind that a datagram's id byte names: the listed kind with
/// that id, else `Unknown`.
pub open spec fn spec_packet_kind(id: u8) -> W3gsPacket {
    if exists|p: W3gsPacket| p.spec_code() == id {
        choose|p: W3gsPacket| p.spec_code() == id
    } else {
        W3gsPacket::Unknown
    }
}

fn u32_to_le_bytes(v: u32) -> (b: [u8; 4])
    ensures
        b@ == le_bytes_u32(v),
{
    let b = [(v % 0x100) as u8, (v / 0x100 % 0x100) as u8, (v / 0x1_0000 % 0x100) as u8, (v / 0x100_0000) as u8];
    assert(b@ =~= le_bytes_u32(v));
    b
}

/// The SEARCHGAME datagram for `game` at patch `version`.
pub fn searchgame_payload(game: GameType, version: u32) -> (p: [u8; 16])
    ensures
        p@ == spec_searchgame(game, version),
        p@.len() == 16,
        p@[0] == 0xf7 && p@[1] == 0x2f && p@[2] == 0x10 && p@[3] == 0x00,
        p@[4] + 0x100 * p@[5] + 0x1_0000 * p@[6] + 0x100_0000 * p@[7] == game.spec_code(),
        p@[8] + 0x100 * p@[9] + 0x1_0000 * p@[10] + 0x100_0000 * p@[11] == version,
        p@.subrange(12, 16) == seq![0u8, 0u8, 0u8, 0u8],
{
    let g = game.serialize();
    let v = u32_to_le_bytes(version);
    let p = [
        W3GS_CLASS, 0x2f, 0x10, 0x00,
        g[0], g[1], g[2], g[3],
        v[0], v[1], v[2], v[3],
        0, 0, 0, 0,
    ];
    assert(p@ =~= spec_searchgame(game, version));
    proof {
        lemma_searchgame_wellformed(game, version);
        assert(p@.subrange(4, 8)[0] == p@[4] && p@.subrange(4, 8)[1] == p@[5] && p@.subrange(4, 8)[2]
            == p@[6] && p@.subrange(4, 8)[3] == p@[7]);
        assert(p@.subrange(8, 12)[0] == p@[8] && p@.subrange(8, 12)[1] == p@[9] && p@.subrange(8, 12)[2]
            == p@[10] && p@.subrange(8, 12)[3] == p@[11]);
        assert(p@.subrange(12, 16) =~= seq![0u8, 0u8, 0u8, 0u8]);
    }
    p
}

/// The greeting a client sends the host to be counted among its peers.
pub fn client_ping() -> (p: [u8; 4])
    ensures
        p@ == seq![W3GS_CLASS, 0x00u8, 0x04u8, 0x00u8],
{
    let p = [W3GS_CLASS, 0x00, 0x04, 0x00];
    assert(p@ =~= seq![W3GS_CLASS, 0x00u8, 0x04u8, 0x00u8]);
    p
}

/// Whether `buf` is a W3GS datagram.
pub fn is_w3gs(buf: &[u8]) -> (r: bool)
    ensures
        r == spec_is_w3gs(buf@),
        r <==> (buf@.len() > 1 && buf@[0] == 0xf7),
{
    buf.len() > 1 && buf[0] == W3GS_CLASS
}

/// Whether `buf` is a client's greeting.
pub fn is_greeting(buf: &[u8]) -> (r: bool)
    ensures
        r == spec_is_greeting(buf@),
        r <==> (buf@.len() == 4 && buf@[0] == 0xf7 && buf@[1] == 0x00),
{
    buf.len() == 4 && buf[0] == W3GS_CLASS && buf[1] == 0x00
}

/// The packet kind of a datagram, read from its id byte.
pub fn packet_kind(buf: &[u8]) -> (p: W3gsPacket)
    requires
        buf@.len() > 1,
    ensures
        p == spec_packet_kind(buf@[1]),
{
    match W3gsPacket::from_repr(buf[1]) {
        Some(p) => {
            proof { lemma_packet_code_injective(p, spec_packet_kind(buf@[1])); }
            p
        },
        None => W3gsPacket::Unknown,
    }
}

/// Distinct packet kinds have distinct ids.
pub proof fn lemma_packet_code_injective(p: W3gsPacket, q: W3gsPacket)
    ensures
        p.spec_code() == q.spec_code() ==> p == q,
{
}

/// Reading a packet kind's id gives that kind back, and `from_repr` finds
/// it.
pub proof fn lemma_packet_kind_of_code(p: W3gsPacket)
    ensures
        spec_packet_kind(p.spec_code()) == p,
{
    lemma_packet_code_injective(p, spec_packet_kind(p.spec_code()));
}

/// Four little-endian bytes read back give the value they were made from.
pub proof fn lemma_le_bytes_roundtrip(v: u32)
    ensures
        le_value(le_bytes_u32(v)) == v,
{
    let b = le_bytes_u32(v);
    assert(b[0] == v % 0x100 && b[1] == v / 0x100 % 0x100 && b[2] == v / 0x1_0000 % 0x100 && b[3]
        == v / 0x100_0000);
    assert(v % 0x100 + 0x100 * (v / 0x100 % 0x100) + 0x1_0000 * (v / 0x1_0000 % 0x100) + 0x100_0000 * (v
        / 0x100_0000) == v) by (bit_vector);
}

/// A datagram is W3GS exactly when it has at least two bytes and its first
/// byte is `0xf7`, whatever its length beyond that; it is a greeting
/// exactly when it is the four bytes `f7 00 _ _`.
pub proof fn lemma_w3gs_recognition(buf: Seq<u8>)
    ensures
        spec_is_w3gs(buf) <==> (buf.len() >= 2 && buf[0] == 0xf7),
        spec_is_greeting(buf) <==> (buf.len() == 4 && buf[0] == 0xf7 && buf[1] == 0x00),
{
}

/// Every SEARCHGAME datagram, for every game and version, opens with
/// `f7 2f 10 00`, carries the product tag and the version little-endian, and
/// ends with four zero bytes.
pub proof fn lemma_searchgame_layout(game: GameType, version: u32)
    ensures
        ({
            let p = spec_searchgame(game, version);
            &&& p.len() == 16
            &&& p[0] == 0xf7 && p[1] == 0x2f && p[2] == 0x10 && p[3] == 0x00
            &&& p[4] + 0x100 * p[5] + 0x1_0000 * p[6] + 0x100_0000 * p[7] == game.spec_code()
            &&& p[8] + 0x100 * p[9] + 0x1_0000 * p[10] + 0x100_0000 * p[11] == version
            &&& p[12] == 0 && p[13] == 0 && p[14] == 0 && p[15] == 0
        }),
{
    let p = spec_searchgame(game, version);
    lemma_searchgame_wellformed(game, version);
    assert(p.subrange(4, 8)[0] == p[4] && p.subrange(4, 8)[1] == p[5] && p.subrange(4, 8)[2] == p[6]
        && p.subrange(4, 8)[3] == p[7]);
    assert(p.subrange(8, 12)[0] == p[8] && p.subrange(8, 12)[1] == p[9] && p.subrange(8, 12)[2] == p[10]
        && p.subrange(8, 12)[3] == p[11]);
}

/// A greeting is a W3GS datagram.
pub proof fn lemma_greeting_is_w3gs(buf: Seq<u8>)
    requires
        spec_is_greeting(buf),
    ensures
        spec_is_w3gs(buf),
{
}

/// The client's greeting is recognised by the host as a greeting, is a
/// W3GS datagram of kind `WC3C_CLIENT_PING`, and its length field gives
/// its own length.
pub proof fn lemma_client_ping_wellformed(p: Seq<u8>)
    requires
        p == seq![W3GS_CLASS, 0x00u8, 0x04u8, 0x00u8],
    ensures
        spec_is_greeting(p),
        spec_is_w3gs(p),
        spec_packet_kind(p[1]) == W3gsPacket::Wc3cClientPing,
        le_u16_at(p, 2) == p.len(),
{
    lemma_packet_kind_of_code(W3gsPacket::Wc3cClientPing);
}

/// A SEARCHGAME datagram is a W3GS datagram of kind `SEARCHGAME`, never a
/// greeting, its length field gives its own length, and the product tag and
/// patch version read back from it are the ones it was built from.
pub proof fn lemma_searchgame_wellformed(game: GameType, version: u32)
    ensures
        ({
            let p = spec_searchgame(game, version);
            &&& p.len() == 16
            &&& spec_is_w3gs(p)
            &&& !spec_is_greeting(p)
            &&& spec_packet_kind(p[1]) == W3gsPacket::SearchGame
            &&& le_u16_at(p, 2) == p.len()
            &&& le_value(p.subrange(4, 8)) == game.spec_code()
            &&& le_value(p.subrange(8, 12)) == version
        }),
{
    let p = spec_searchgame(game, version);
    lemma_packet_kind_of_code(W3gsPacket::SearchGame);
    lemma_le_bytes_roundtrip(game.spec_code());
    lemma_le_bytes_roundtrip(version);
    assert(p.subrange(4, 8) =~= le_bytes_u32(game.spec_code()));
    assert(p.subrange(8, 12) =~= le_bytes_u32(version));
}

} // verus!
