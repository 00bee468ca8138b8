//! The host's table of live peers and its relay decisions.
//!
//! The host listens for W3GS datagrams from the clients of the bridge. A
//! client that greets the host is remembered, with the time of its greeting,
//! for as long as it keeps greeting within the peer timeout; every other
//! W3GS datagram is relayed to all live peers but its sender.
use vstd::prelude::*;
use crate::w3gs::{is_greeting, is_w3gs, spec_is_greeting, spec_is_w3gs};

verus! {

broadcast use vstd::seq_lib::group_seq_properties;

/// How long a peer stays live after its last greeting, in nanoseconds
/// (fifteen seconds).
pub const PEER_TIMEOUT_NANOS: u64 = 15_000_000_000;

/// The socket address of a peer, as plain values: an IPv4 address and port,
/// or an IPv6 address, port, flow information and scope id. Two addresses
/// are the same peer exactly when all their fields agree.
#[derive(Debug, Clone, Copy, PartialEq, Eq, Structural)]
pub enum PeerAddr {
    V4 { ipv4: u32, port: u16 },
    V6 { ipv6: u128, port: u16, flowinfo: u32, scope_id: u32 },
}

/// A peer and the time of its last greeting, in nanoseconds on the host's
/// monotonic clock.
#[derive(Debug, Clone, Copy, PartialEq, Eq, Structural)]
pub struct PeerEntry {
    pub addr: PeerAddr,
    pub last_seen: u64,
}

/// The time from `earlier` to `now`, or zero when `earlier` is later.
pub open spec fn elapsed(now: u64, earlier: u64) -> int {
    if now >= earlier {
        now - earlier
    } else {
        0
    }
}

/// A peer last seen at `last_seen` is still live at `now` when less than
/// the peer timeout has passed since.
pub open spec fn is_fresh(now: u64, last_seen: u64) -> bool {
    elapsed(now, last_seen) < PEER_TIMEOUT_NANOS
}

/// The peers of `m` that are still live at `now`.
pub open spec fn live_peers(m: Map<PeerAddr, u64>, now: u64) -> Map<PeerAddr, u64> {
    Map::new(|a: PeerAddr| m.dom().contains(a) && is_fresh(now, m[a]), |a: PeerAddr| m[a])
}

/// The addresses of a sequence of entries, in order.
pub open spec fn addrs(s: Seq<PeerEntry>) -> Seq<PeerAddr> {
    s.map_values(|e: PeerEntry| e.addr)
}

/// The map from address to last greeting that a sequence of entries with
/// distinct addresses stands for.
pub open spec fn entries_map(s: Seq<PeerEntry>) -> Map<PeerAddr, u64> {
    Map::new(
        |a: PeerAddr| addrs(s).contains(a),
        |a: PeerAddr| s[addrs(s).index_of(a)].last_seen,
    )
}

/// The live peers of a host, each with the time of its last greeting.
pub struct PeerTable {
    entries: Vec<PeerEntry>,
}

impl PeerTable {
    #[verifier::type_invariant]
    spec fn distinct_addrs(self) -> bool {
        addrs(self.entries@).no_duplicates()
    }
}

impl View for PeerTable {
    type V = Map<PeerAddr, u64>;

    closed spec fn view(&self) -> Map<PeerAddr, u64> {
        entries_map(self.entries@)
    }
}

/// In a sequence with distinct addresses, the map gives each entry's own
/// time, and its domain has as many addresses as the sequence has entries.
proof fn lemma_entries_map(s: Seq<PeerEntry>)
    requires
        addrs(s).no_duplicates(),
    ensures
        forall|i: int|
            0 <= i < s.len() ==> #[trigger] entries_map(s).dom().contains(s[i].addr)
                && entries_map(s)[s[i].addr] == s[i].last_seen,
        forall|a: PeerAddr|
            #[trigger] entries_map(s).dom().contains(a) <==> exists|i: int|
                0 <= i < s.len() && s[i].addr == a,
        entries_map(s).dom().finite(),
        entries_map(s).dom().len() == s.len(),
{
    let ad = addrs(s);
    assert forall|i: int| 0 <= i < s.len() implies #[trigger] entries_map(s).dom().contains(s[i].addr)
        && entries_map(s)[s[i].addr] == s[i].last_seen by {
        assert(ad[i] == s[i].addr);
        assert(ad.contains(s[i].addr));
        let j = ad.index_of(s[i].addr);
        assert(ad[j] == s[i].addr);
    }
    assert forall|a: PeerAddr| #[trigger] entries_map(s).dom().contains(a) <==> exists|i: int|
        0 <= i < s.len() && s[i].addr == a by {
        if ad.contains(a) {
            let j = ad.index_of(a);
            assert(s[j].addr == a);
        }
        if exists|i: int| 0 <= i < s.len() && s[i].addr == a {
            let i = choose|i: int| 0 <= i < s.len() && s[i].addr == a;
            assert(ad[i] == a);
        }
    }
    assert(entries_map(s).dom() =~= ad.to_set());
    ad.unique_seq_to_set();
}

impl PeerTable {
    /// A table with no peers.
    pub fn new() -> (t: PeerTable)
        ensures
            t@ == Map::<PeerAddr, u64>::empty(),
    {
        let t = PeerTable { entries: Vec::new() };
        assert(t@ =~= Map::<PeerAddr, u64>::empty());
        t
    }

    /// How many peers the table holds.
    pub fn len(&self) -> (n: usize)
        ensures
            n == self@.dom().len(),
    {
        proof {
            use_type_invariant(self);
            lemma_entries_map(self.entries@);
        }
        self.entries.len()
    }

    /// The time of the last greeting of `addr`, if it is in the table.
    pub fn last_seen(&self, addr: PeerAddr) -> (t: Option<u64>)
        ensures
            t == (if self@.dom().contains(addr) {
                Some(self@[addr])
            } else {
                None
            }),
    {
        proof {
            use_type_invariant(self);
            lemma_entries_map(self.entries@);
        }
        let n = self.entries.len();
        let mut i: usize = 0;
        while i < n
            invariant
                n == self.entries@.len(),
                0 <= i <= n,
                forall|j: int| 0 <= j < i ==> self.entries@[j].addr != addr,
            decreases n - i,
        {
            if self.entries[i].addr == addr {
                proof {
                    use_type_invariant(self);
                    lemma_entries_map(self.entries@);
                }
                return Some(self.entries[i].last_seen);
            }
            i = i + 1;
        }
        proof {
            use_type_invariant(self);
            lemma_entries_map(self.entries@);
        }
        None
    }

    /// Forgets every peer that is no longer live at `now`.
    pub fn drop_stale(&mut self, now: u64)
        ensures
            final(self)@ == live_peers(old(self)@, now),
            forall|a: PeerAddr|
                #[trigger] final(self)@.dom().contains(a) <==> (old(self)@.dom().contains(a) && (if now
                    >= old(self)@[a] {
                    now - old(self)@[a]
                } else {
                    0
                }) < 15_000_000_000),
            forall|a: PeerAddr| #[trigger] final(self)@.dom().contains(a) ==> final(self)@[a] == old(self)@[a],
    {
        proof {
            use_type_invariant(&*self);
        }
        let ghost s = self.entries@;
        let n = self.entries.len();
        let mut kept: Vec<PeerEntry> = Vec::new();
        // `origin[k]` is the position in `s` that `kept[k]` was copied from.
        let ghost mut origin: Seq<int> = Seq::empty();
        let mut i: usize = 0;
        while i < n
            invariant
                n == s.len(),
                s == self.entries@,
                addrs(s).no_duplicates(),
                0 <= i <= n,
                addrs(kept@).no_duplicates(),
                origin.len() == kept@.len(),
                forall|k: int|
                    #![trigger origin[k]]
                    0 <= k < kept@.len() ==> 0 <= origin[k] < i && kept@[k] == s[origin[k]]
                        && is_fresh(now, s[origin[k]].last_seen),
                forall|j: int|
                    #![trigger s[j]]
                    0 <= j < i && is_fresh(now, s[j].last_seen) ==> exists|k: int|
                        #![trigger kept@[k]]
                        0 <= k < kept@.len() && kept@[k] == s[j],
            decreases n - i,
        {
            let e = self.entries[i];
            let ghost old_kept = kept@;
            let ghost old_origin = origin;
            let fresh = now.saturating_sub(e.last_seen) < PEER_TIMEOUT_NANOS;
            assert(fresh == is_fresh(now, s[i as int].last_seen));
            if fresh {
                proof {
                    assert forall|k: int| 0 <= k < kept@.len() implies kept@[k].addr != e.addr by {
                        let j = origin[k];
                        assert(kept@[k] == s[j]);
                        assert(addrs(s)[j] == s[j].addr);
                        assert(addrs(s)[i as int] == s[i as int].addr);
                    }
                    assert forall|p: int, q: int|
                        0 <= p < kept@.len() + 1 && 0 <= q < kept@.len() + 1 && p != q implies
                        addrs(kept@.push(e))[p] != addrs(kept@.push(e))[q] by {
                        if p < kept@.len() && q < kept@.len() {
                            assert(addrs(kept@)[p] == addrs(kept@.push(e))[p]);
                            assert(addrs(kept@)[q] == addrs(kept@.push(e))[q]);
                        }
                    }
                }
                kept.push(e);
                proof {
                    origin = origin.push(i as int);
                    assert(kept@[kept@.len() - 1] == s[i as int]);
                    assert forall|k: int| #![trigger origin[k]] 0 <= k < kept@.len() implies 0 <= origin[k] < i + 1
                        && kept@[k] == s[origin[k]] && is_fresh(now, s[origin[k]].last_seen) by {
                        if k < old_kept.len() {
                            assert(kept@[k] == old_kept[k]);
                            assert(origin[k] == old_origin[k]);
                        }
                    }
                    assert forall|j: int| #![trigger s[j]] 0 <= j < i + 1 && is_fresh(now, s[j].last_seen) implies exists|k: int|
                        #![trigger kept@[k]] 0 <= k < kept@.len() && kept@[k] == s[j] by {
                        if j == i {
                            assert(kept@[kept@.len() - 1] == s[j]);
                        } else {
                            let k = choose|k: int| 0 <= k < old_kept.len() && old_kept[k] == s[j];
                            assert(kept@[k] == old_kept[k]);
                        }
                    }
                }
            } else {
                proof {
                    assert forall|j: int| #![trigger s[j]] 0 <= j < i + 1 && is_fresh(now, s[j].last_seen) implies exists|k: int|
                        #![trigger kept@[k]] 0 <= k < kept@.len() && kept@[k] == s[j] by {
                        let k = choose|k: int| 0 <= k < old_kept.len() && old_kept[k] == s[j];
                        assert(kept@[k] == old_kept[k]);
                    }
                }
            }
            i = i + 1;
        }
        proof {
            lemma_entries_map(s);
            lemma_entries_map(kept@);
            let m = entries_map(kept@);
            let want = live_peers(entries_map(s), now);
            assert forall|a: PeerAddr| m.dom().contains(a) <==> want.dom().contains(a) by {
                if m.dom().contains(a) {
                    let k = choose|k: int| 0 <= k < kept@.len() && kept@[k].addr == a;
                    let j = origin[k];
                    assert(kept@[k] == s[j]);
                    assert(entries_map(s).dom().contains(s[j].addr));
                }
                if want.dom().contains(a) {
                    let j = choose|j: int| 0 <= j < s.len() && s[j].addr == a;
                    assert(entries_map(s).dom().contains(s[j].addr));
                    let k = choose|k: int| 0 <= k < kept@.len() && kept@[k] == s[j];
                    assert(kept@[k].addr == a);
                }
            }
            assert forall|a: PeerAddr| m.dom().contains(a) implies m[a] == want[a] by {
                let k = choose|k: int| 0 <= k < kept@.len() && kept@[k].addr == a;
                let j = origin[k];
                assert(kept@[k] == s[j]);
                assert(entries_map(s).dom().contains(s[j].addr));
                assert(entries_map(kept@).dom().contains(kept@[k].addr));
            }
            assert(m =~= want);
        }
        self.entries = kept;
    }

    /// Records that `addr` greeted the host at `now`.
    pub fn touch(&mut self, addr: PeerAddr, now: u64)
        ensures
            final(self)@ == old(self)@.insert(addr, now),
    {
        proof {
            use_type_invariant(&*self);
            lemma_entries_map(self.entries@);
        }
        let ghost s = self.entries@;
        let e = PeerEntry { addr, last_seen: now };
        let n = self.entries.len();
        let mut i: usize = 0;
        while i < n
            invariant
                n == s.len(),
                s == self.entries@,
                s == old(self).entries@,
                addrs(s).no_duplicates(),
                e == (PeerEntry { addr, last_seen: now }),
                0 <= i <= n,
                forall|j: int| 0 <= j < i ==> s[j].addr != addr,
            decreases n - i,
        {
            if self.entries[i].addr == addr {
                let ghost t = s.update(i as int, e);
                proof {
                    lemma_entries_map(s);
                    assert(s[i as int].addr == addr);
                    assert(t.len() == s.len());
                    assert(t[i as int].addr == s[i as int].addr);
                    assert(addrs(t)[i as int] == addrs(s)[i as int]);
                    assert forall|j: int| 0 <= j < s.len() implies #[trigger] addrs(t)[j] == addrs(s)[j] by {
                        assert(addrs(s)[j] == s[j].addr);
                        assert(addrs(t)[j] == t[j].addr);
                        if j == i {
                            assert(t[j] == e);
                        } else {
                            assert(t[j] == s[j]);
                        }
                    }
                    assert(addrs(t) =~= addrs(s));
                    lemma_entries_map(t);
                    let want = entries_map(s).insert(addr, now);
                    assert forall|a: PeerAddr| entries_map(t).dom().contains(a) <==> want.dom().contains(a) by {
                        if want.dom().contains(a) && a != addr {
                            let j = choose|j: int| 0 <= j < s.len() && s[j].addr == a;
                            assert(t[j].addr == a);
                        }
                        if a == addr {
                            assert(t[i as int].addr == a);
                        }
                        if entries_map(t).dom().contains(a) {
                            let j = choose|j: int| 0 <= j < t.len() && t[j].addr == a;
                            if j != i {
                                assert(s[j].addr == a);
                            }
                        }
                    }
                    assert forall|a: PeerAddr| entries_map(t).dom().contains(a) implies entries_map(t)[a] == want[a] by {
                        let j = choose|j: int| 0 <= j < t.len() && t[j].addr == a;
                        assert(entries_map(t)[t[j].addr] == t[j].last_seen);
                        if j != i {
                            assert(entries_map(s)[s[j].addr] == s[j].last_seen);
                        }
                    }
                    assert(entries_map(t) =~= want);
                }
                let mut v: Vec<PeerEntry> = Vec::new();
                std::mem::swap(&mut v, &mut self.entries);
                v.set(i, e);
                self.entries = v;
                return;
            }
            i = i + 1;
        }
        let ghost t = s.push(e);
        proof {
            lemma_entries_map(s);
            assert forall|p: int, q: int| 0 <= p < t.len() && 0 <= q < t.len() && p != q implies
                addrs(t)[p] != addrs(t)[q] by {
                if p < s.len() {
                    assert(addrs(s)[p] == addrs(t)[p]);
                }
                if q < s.len() {
                    assert(addrs(s)[q] == addrs(t)[q]);
                }
            }
            lemma_entries_map(t);
            let want = entries_map(s).insert(addr, now);
            assert forall|a: PeerAddr| entries_map(t).dom().contains(a) <==> want.dom().contains(a) by {
                if want.dom().contains(a) && a != addr {
                    let j = choose|j: int| 0 <= j < s.len() && s[j].addr == a;
                    assert(t[j].addr == a);
                }
                if entries_map(t).dom().contains(a) {
                    let j = choose|j: int| 0 <= j < t.len() && t[j].addr == a;
                    if j < s.len() {
                        assert(s[j].addr == a);
                    }
                }
                if a == addr {
                    assert(t[s.len() as int].addr == a);
                }
            }
            assert forall|a: PeerAddr| entries_map(t).dom().contains(a) implies entries_map(t)[a] == want[a] by {
                let j = choose|j: int| 0 <= j < t.len() && t[j].addr == a;
                assert(entries_map(t).dom().contains(t[j].addr));
                if j < s.len() {
                    assert(t[j] == s[j]);
                    assert(entries_map(s).dom().contains(s[j].addr));
                }
            }
            assert(entries_map(t) =~= want);
        }
        let mut v: Vec<PeerEntry> = Vec::new();
        std::mem::swap(&mut v, &mut self.entries);
        v.push(e);
        self.entries = v;
    }

    /// Every peer in the table but `sender`, each once, in no promised order.
    pub fn others(&self, sender: PeerAddr) -> (r: Vec<PeerAddr>)
        ensures
            r@.no_duplicates(),
            forall|a: PeerAddr| r@.contains(a) <==> (self@.dom().contains(a) && a != sender),
    {
        proof {
            use_type_invariant(self);
            lemma_entries_map(self.entries@);
        }
        let ghost s = self.entries@;
        let n = self.entries.len();
        let mut r: Vec<PeerAddr> = Vec::new();
        let mut i: usize = 0;
        while i < n
            invariant
                n == s.len(),
                s == self.entries@,
                addrs(s).no_duplicates(),
                0 <= i <= n,
                r@.no_duplicates(),
                forall|a: PeerAddr|
                    r@.contains(a) <==> (a != sender && exists|j: int| 0 <= j < i && s[j].addr == a),
            decreases n - i,
        {
            let a = self.entries[i].addr;
            if a != sender {
                proof {
                    if r@.contains(a) {
                        let j = choose|j: int| 0 <= j < i && s[j].addr == a;
                        assert(addrs(s)[j] == s[j].addr);
                        assert(addrs(s)[i as int] == s[i as int].addr);
                    }
                }
                r.push(a);
            }
            proof {
                assert forall|b: PeerAddr|
                    r@.contains(b) <==> (b != sender && exists|j: int| 0 <= j < i + 1 && s[j].addr == b) by {
                    if b != sender && exists|j: int| 0 <= j < i + 1 && s[j].addr == b {
                        let j = choose|j: int| 0 <= j < i + 1 && s[j].addr == b;
                        if j == i {
                            assert(r@[r@.len() - 1] == b);
                        }
                    }
                }
            }
            i = i + 1;
        }
        r
    }
}


/// What the host does with a datagram that reached its bridge socket.
#[derive(Debug)]
pub enum Relay {
    /// Not a W3GS datagram: nothing is reported or sent.
    Ignore,
    /// A greeting: nothing is sent, and its sender is to become (again) a
    /// live peer. The table does not hold it yet: the host records it with
    /// `touch`, stamped with the time at which it does so, once it has
    /// reported `peer_count`, the number of live peers without the sender's
    /// greeting.
    Register { peer_count: usize },
    /// Any other W3GS datagram: it goes to every address in `targets`.
    /// `peer_count` is the number of live peers.
    Broadcast { peer_count: usize, targets: Vec<PeerAddr> },
}

/// The peers that a datagram from `sender` arriving at `now` is relayed to:
/// every live peer but the sender.
pub open spec fn relay_targets(m: Map<PeerAddr, u64>, sender: PeerAddr, now: u64) -> Set<PeerAddr> {
    live_peers(m, now).dom().remove(sender)
}

/// The peer table after a datagram `data` from `sender` arrived at `now`,
/// before a greeting's sender is recorded.
pub open spec fn table_after(
    m: Map<PeerAddr, u64>,
    data: Seq<u8>,
    sender: PeerAddr,
    now: u64,
) -> Map<PeerAddr, u64> {
    if !spec_is_w3gs(data) {
        m
    } else {
        live_peers(m, now)
    }
}

impl PeerTable {
    /// Decides what becomes of a datagram `data` that `sender` sent to the
    /// host's bridge at `now`, and updates the table: a W3GS datagram drops
    /// the peers that are stale at `now`. The table records the sender of a
    /// greeting only when `touch` is called for it.
    pub fn on_datagram(&mut self, data: &[u8], sender: PeerAddr, now: u64) -> (r: Relay)
        ensures
            final(self)@ == table_after(old(self)@, data@, sender, now),
            !spec_is_w3gs(data@) <==> r is Ignore,
            spec_is_w3gs(data@) && spec_is_greeting(data@) <==> r is Register,
            r matches Relay::Register { peer_count } ==> peer_count == live_peers(old(self)@, now).dom().len(),
            r matches Relay::Broadcast { peer_count, targets } ==> {
                &&& peer_count == live_peers(old(self)@, now).dom().len()
                &&& targets@.no_duplicates()
                &&& targets@.to_set() == relay_targets(old(self)@, sender, now)
            },
            !(data@.len() > 1 && data@[0] == 0xf7) ==> final(self)@ == old(self)@,
            data@.len() > 1 && data@[0] == 0xf7 ==> forall|a: PeerAddr|
                #[trigger] final(self)@.dom().contains(a) <==> (old(self)@.dom().contains(a) && (if now
                    >= old(self)@[a] {
                    now - old(self)@[a]
                } else {
                    0
                }) < 15_000_000_000),
            forall|a: PeerAddr| #[trigger] final(self)@.dom().contains(a) ==> final(self)@[a] == old(self)@[a],
            r matches Relay::Register { peer_count } ==> peer_count == final(self)@.dom().len(),
            r matches Relay::Broadcast { peer_count, targets } ==> {
                &&& peer_count == final(self)@.dom().len()
                &&& forall|a: PeerAddr|
                    #[trigger] targets@.contains(a) <==> (a != sender && old(self)@.dom().contains(a) && (
                    if now >= old(self)@[a] {
                        now - old(self)@[a]
                    } else {
                        0
                    }) < 15_000_000_000)
            },
    {
        if !is_w3gs(data) {
            return Relay::Ignore;
        }
        self.drop_stale(now);
        let peer_count = self.len();
        if is_greeting(data) {
            return Relay::Register { peer_count };
        }
        let targets = self.others(sender);
        assert(targets@.to_set() =~= relay_targets(old(self)@, sender, now));
        assert forall|a: PeerAddr| #[trigger] targets@.contains(a) <==> targets@.to_set().contains(a) by {}
        Relay::Broadcast { peer_count, targets }
    }
}

/// A client whose greeting arrived at `arrived` and was recorded at
/// `greeted_at` stays a relay target for every datagram another client sends
/// within the peer timeout of `greeted_at`, and a datagram is never relayed
/// back to its own sender.
pub proof fn lemma_greeted_peer_receives_relays(
    m: Map<PeerAddr, u64>,
    greeting: Seq<u8>,
    peer: PeerAddr,
    arrived: u64,
    greeted_at: u64,
    sender: PeerAddr,
    now: u64,
)
    requires
        spec_is_greeting(greeting),
        is_fresh(now, greeted_at),
    ensures
        relay_targets(table_after(m, greeting, peer, arrived).insert(peer, greeted_at), sender, now).contains(
            peer,
        ) <==> peer != sender,
        !relay_targets(m, sender, now).contains(sender),
{
}

/// A peer is live at `now` exactly when it is in the table and less than
/// fifteen seconds have passed since its last greeting (no time at all when
/// the clock reads earlier than that greeting); a live peer keeps its time.
/// This holds whatever `now` is.
pub proof fn lemma_live_peers_exact(m: Map<PeerAddr, u64>, now: u64, a: PeerAddr)
    ensures
        live_peers(m, now).dom().contains(a) <==> (m.dom().contains(a) && (if now >= m[a] {
            now - m[a]
        } else {
            0
        }) < 15_000_000_000),
        live_peers(m, now).dom().contains(a) ==> live_peers(m, now)[a] == m[a],
{
}

/// A datagram from `sender` at `now` is relayed to `a` exactly when `a` is
/// another peer whose last greeting is less than fifteen seconds old.
pub proof fn lemma_relay_targets_exact(m: Map<PeerAddr, u64>, sender: PeerAddr, now: u64, a: PeerAddr)
    ensures
        relay_targets(m, sender, now).contains(a) <==> (a != sender && m.dom().contains(a) && (if now
            >= m[a] {
            now - m[a]
        } else {
            0
        }) < 15_000_000_000),
{
}

/// A peer that has not greeted for the whole peer timeout is no longer
/// live, and no datagram is relayed to it.
pub proof fn lemma_silent_peer_expires(m: Map<PeerAddr, u64>, peer: PeerAddr, sender: PeerAddr, now: u64)
    requires
        m.dom().contains(peer),
        elapsed(now, m[peer]) >= PEER_TIMEOUT_NANOS,
    ensures
        !live_peers(m, now).dom().contains(peer),
        !relay_targets(m, sender, now).contains(peer),
{
}

/// A datagram that is not W3GS leaves the table as it was; any W3GS
/// datagram, a greeting too, leaves exactly the peers that are live at its
/// arrival, and recording a greeting's sender afterwards makes it live with
/// the time of recording.
pub proof fn lemma_table_after(m: Map<PeerAddr, u64>, data: Seq<u8>, sender: PeerAddr, now: u64, greeted_at: u64)
    ensures
        !spec_is_w3gs(data) ==> table_after(m, data, sender, now) == m,
        spec_is_w3gs(data) ==> table_after(m, data, sender, now) == live_peers(m, now),
        table_after(m, data, sender, now).insert(sender, greeted_at).dom().contains(sender),
        table_after(m, data, sender, now).insert(sender, greeted_at)[sender] == greeted_at,
{
}

} // verus!
