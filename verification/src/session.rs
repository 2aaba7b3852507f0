//! The direct peer-to-peer session of the desktop client: the wire packets,
//! candidate port spraying, the hole-punching handshake and the connected
//! session (ping/pong, acknowledged chat with de-duplication, re-punching).
//! Sockets, timers and tasks stay with the application, which feeds this
//! state machine events and performs the actions it returns.

use vstd::prelude::*;
use crate::addr::{Endpoint, IpAddress};
use crate::text::{push_str, to_owned_string, trim, trimmed};
use std::collections::HashSet;

verus! {

broadcast use vstd::std_specs::hash::group_hash_axioms;

/// The wire protocol version.
pub const PROTOCOL_VERSION: u32 = 3;

/// A datagram of the direct session protocol.
#[derive(Debug, Clone, PartialEq)]
pub enum Packet {
    Punch { nonce: u64, sender_name: String },
    PunchAck { nonce: u64, sender_name: String },
    ConnectRequest { client_name: String, protocol_version: u32, client_nonce: u64 },
    ConnectAccept { assigned_id: u32, host_name: String, room_name: String },
    ConnectReject { reason: String },
    Ping { seq: u64, timestamp_ms: u64 },
    Pong { seq: u64, timestamp_ms: u64 },
    TextMessage { id: u64, text: String, sender_name: String, timestamp_ms: u64 },
    TextAck { id: u64 },
    Disconnect { reason: String },
}

/// A chat line shown to the user.
#[derive(Debug, Clone)]
pub struct ChatMessage {
    pub id: u64,
    pub sender: String,
    pub text: String,
    pub timestamp_ms: u64,
    pub is_me: bool,
}

/// The connected peer.
#[derive(Debug, Clone)]
pub struct PeerInfo {
    pub id: u32,
    pub name: String,
    pub addr: String,
    pub ping_ms: u32,
    pub last_seen_ms: u64,
}

/// The state of the node as the user interface shows it.
#[derive(Debug, Clone)]
pub enum ConnectionStatus {
    Disconnected,
    Hosting {
        room_name: String,
        room_code: Option<String>,
        local_addr: Option<String>,
        public_addr: Option<String>,
        connected_count: usize,
    },
    Connecting { target_str: String, attempt: u32, max_attempts: u32, mode: String },
    Connected { peer_name: String, peer_addr: String, room_name: String, ping_ms: u32 },
    Failed { error: String },
}

// ---------------------------------------------------------------------------
// Candidate port spraying
// ---------------------------------------------------------------------------

/// `t` with `e` appended unless it is already there.
pub open spec fn push_if_new(t: Seq<Endpoint>, e: Endpoint) -> Seq<Endpoint> {
    if t.contains(e) { t } else { t.push(e) }
}

/// The port offsets tried around each IPv4 candidate.
pub open spec fn spray_delta(k: int) -> int {
    if k == 0 { -3 } else if k == 1 { -2 } else if k == 2 { -1 } else if k == 3 { 1 } else if k == 4 { 2 } else { 3 }
}

/// Appends the sprayed neighbours `k..6` of an IPv4 candidate whose ports
/// stay within 1024..=65535.
pub open spec fn spray_from(t: Seq<Endpoint>, ip: IpAddress, port: int, k: int) -> Seq<Endpoint>
    decreases 6 - k,
{
    if k >= 6 || k < 0 {
        t
    } else {
        let p = port + spray_delta(k);
        let t2 = if 1024 <= p <= 65535 { push_if_new(t, Endpoint { ip, port: p as u16 }) } else { t };
        spray_from(t2, ip, port, k + 1)
    }
}

/// The targets for a list of candidates: each candidate, followed for IPv4
/// by its neighbouring ports (for symmetric NAT / CGNAT port drift).
pub open spec fn spray(cands: Seq<Endpoint>) -> Seq<Endpoint>
    decreases cands.len(),
{
    if cands.len() == 0 {
        Seq::empty()
    } else {
        let t = spray(cands.drop_last()).push(cands.last());
        match cands.last().ip {
            IpAddress::V4(_) => spray_from(t, cands.last().ip, cands.last().port as int, 0),
            IpAddress::V6(_) => t,
        }
    }
}

proof fn lemma_spray_from(t: Seq<Endpoint>, ip: IpAddress, port: int, k: int)
    requires
        0 <= k <= 6,
    ensures
        forall|e: Endpoint| t.contains(e) ==> #[trigger] spray_from(t, ip, port, k).contains(e),
        forall|j: int|
            k <= j < 6 && 1024 <= port + spray_delta(j) <= 65535 ==> #[trigger] spray_from(t, ip, port, k).contains(
                Endpoint { ip, port: (port + spray_delta(j)) as u16 },
            ),
        forall|e: Endpoint|
            #[trigger] spray_from(t, ip, port, k).contains(e) ==> t.contains(e) || (e.ip == ip && exists|j: int|
                k <= j < 6 && 1024 <= port + spray_delta(j) <= 65535 && e.port == port + spray_delta(j)),
    decreases 6 - k,
{
    if k < 6 {
        let p = port + spray_delta(k);
        let e0 = Endpoint { ip, port: p as u16 };
        let t2 = if 1024 <= p <= 65535 { push_if_new(t, e0) } else { t };
        lemma_spray_from(t2, ip, port, k + 1);
        assert(spray_from(t, ip, port, k) == spray_from(t2, ip, port, k + 1));
        if 1024 <= p <= 65535 {
            assert(t2.contains(e0)) by {
                if !t.contains(e0) {
                    assert(t2.last() == e0);
                }
            }
            assert forall|e: Endpoint| t.contains(e) implies t2.contains(e) by {
                if !t.contains(e0) {
                    let i = choose|i: int| 0 <= i < t.len() && t[i] == e;
                    assert(t2[i] == e);
                }
            }
            assert forall|e: Endpoint| t2.contains(e) implies t.contains(e) || e == e0 by {
                if !t.contains(e0) {
                    let i = choose|i: int| 0 <= i < t2.len() && t2[i] == e;
                    if i < t.len() {
                        assert(t[i] == e);
                    }
                }
            }
        }
        assert forall|e: Endpoint| #[trigger] spray_from(t, ip, port, k).contains(e) implies t.contains(e) || (e.ip
            == ip && exists|j: int| k <= j < 6 && 1024 <= port + spray_delta(j) <= 65535 && e.port == port
            + spray_delta(j)) by {
            if !t2.contains(e) {
                let j = choose|j: int|
                    k + 1 <= j < 6 && 1024 <= port + spray_delta(j) <= 65535 && e.port == port + spray_delta(j);
                assert(k <= j);
            } else if !t.contains(e) {
                assert(e == e0);
                assert(e.port == port + spray_delta(k));
            }
        }
    }
}

/// `e` has the address of `c` and a port one, two or three below or above.
pub open spec fn neighbour_of(e: Endpoint, c: Endpoint) -> bool {
    &&& e.ip == c.ip
    &&& (e.port == c.port - 3 || e.port == c.port - 2 || e.port == c.port - 1 || e.port == c.port + 1 || e.port
        == c.port + 2 || e.port == c.port + 3)
}

/// Port spraying keeps every candidate and adds, for each IPv4 candidate
/// with port `p` between 1027 and 65532, the six neighbours `p - 3`, `p - 2`,
/// `p - 1`, `p + 1`, `p + 2` and `p + 3` on the same address; every target is
/// a candidate or such a neighbour (within 1024..=65535) of an IPv4
/// candidate.
pub proof fn lemma_port_spray(cands: Seq<Endpoint>)
    ensures
        forall|c: Endpoint| #[trigger] cands.contains(c) ==> spray(cands).contains(c),
        forall|c: Endpoint|
            #[trigger] cands.contains(c) && c.ip is V4 && 1027 <= c.port <= 65532 ==> {
                &&& spray(cands).contains(Endpoint { ip: c.ip, port: (c.port - 3) as u16 })
                &&& spray(cands).contains(Endpoint { ip: c.ip, port: (c.port - 2) as u16 })
                &&& spray(cands).contains(Endpoint { ip: c.ip, port: (c.port - 1) as u16 })
                &&& spray(cands).contains(Endpoint { ip: c.ip, port: (c.port + 1) as u16 })
                &&& spray(cands).contains(Endpoint { ip: c.ip, port: (c.port + 2) as u16 })
                &&& spray(cands).contains(Endpoint { ip: c.ip, port: (c.port + 3) as u16 })
            },
        forall|e: Endpoint|
            #[trigger] spray(cands).contains(e) ==> cands.contains(e) || exists|c: Endpoint|
                #[trigger] cands.contains(c) && c.ip is V4 && neighbour_of(e, c),
    decreases cands.len(),
{
    if cands.len() > 0 {
        let prev = cands.drop_last();
        let c0 = cands.last();
        lemma_port_spray(prev);
        let t = spray(prev).push(c0);
        assert forall|e: Endpoint| spray(prev).contains(e) implies t.contains(e) by {
            let i = choose|i: int| 0 <= i < spray(prev).len() && spray(prev)[i] == e;
            assert(t[i] == e);
        }
        assert(t.contains(c0)) by {
            assert(t[t.len() - 1] == c0);
        }
        assert forall|e: Endpoint| t.contains(e) implies spray(prev).contains(e) || e == c0 by {
            let i = choose|i: int| 0 <= i < t.len() && t[i] == e;
            if i < spray(prev).len() {
                assert(spray(prev)[i] == e);
            }
        }
        assert forall|c: Endpoint| prev.contains(c) implies cands.contains(c) by {
            let i = choose|i: int| 0 <= i < prev.len() && prev[i] == c;
            assert(cands[i] == c);
        }
        assert forall|c: Endpoint| cands.contains(c) implies prev.contains(c) || c == c0 by {
            let i = choose|i: int| 0 <= i < cands.len() && cands[i] == c;
            if i < prev.len() {
                assert(prev[i] == c);
            }
        }
        match c0.ip {
            IpAddress::V4(_) => {
                let port = c0.port as int;
                lemma_spray_from(t, c0.ip, port, 0);
                assert(spray(cands) == spray_from(t, c0.ip, port, 0));
                assert(spray_delta(0) == -3 && spray_delta(1) == -2 && spray_delta(2) == -1);
                assert(spray_delta(3) == 1 && spray_delta(4) == 2 && spray_delta(5) == 3);
                if 1027 <= c0.port <= 65532 {
                    assert(spray(cands).contains(Endpoint { ip: c0.ip, port: (port + spray_delta(0)) as u16 }));
                    assert(spray(cands).contains(Endpoint { ip: c0.ip, port: (port + spray_delta(1)) as u16 }));
                    assert(spray(cands).contains(Endpoint { ip: c0.ip, port: (port + spray_delta(2)) as u16 }));
                    assert(spray(cands).contains(Endpoint { ip: c0.ip, port: (port + spray_delta(3)) as u16 }));
                    assert(spray(cands).contains(Endpoint { ip: c0.ip, port: (port + spray_delta(4)) as u16 }));
                    assert(spray(cands).contains(Endpoint { ip: c0.ip, port: (port + spray_delta(5)) as u16 }));
                }
                assert forall|e: Endpoint| #[trigger] spray(cands).contains(e) implies cands.contains(e)
                    || exists|c: Endpoint| #[trigger] cands.contains(c) && c.ip is V4 && neighbour_of(e, c) by {
                    assert(cands.contains(c0)) by {
                        assert(cands[cands.len() - 1] == c0);
                    }
                    if !t.contains(e) {
                        let j = choose|j: int|
                            0 <= j < 6 && 1024 <= port + spray_delta(j) <= 65535 && e.port == port + spray_delta(j);
                        assert(e.ip == c0.ip);
                        if j == 0 {
                        } else if j == 1 {
                        } else if j == 2 {
                        } else if j == 3 {
                        } else if j == 4 {
                        } else {
                        }
                        assert(neighbour_of(e, c0));
                        assert(c0.ip is V4);
                    } else if e == c0 {
                    } else if spray(prev).contains(e) && !prev.contains(e) {
                        let c = choose|c: Endpoint| #[trigger] prev.contains(c) && c.ip is V4 && neighbour_of(e, c);
                        assert(cands.contains(c));
                    }
                }
            },
            IpAddress::V6(_) => {
                assert(spray(cands) == t);
                assert forall|e: Endpoint| #[trigger] spray(cands).contains(e) implies cands.contains(e)
                    || exists|c: Endpoint| #[trigger] cands.contains(c) && c.ip is V4 && neighbour_of(e, c) by {
                    if spray(prev).contains(e) && !prev.contains(e) {
                        let c = choose|c: Endpoint| #[trigger] prev.contains(c) && c.ip is V4 && neighbour_of(e, c);
                        assert(cands.contains(c));
                    }
                }
            },
        }
    }
}

/// A single IPv4 candidate with port `p` between 1027 and 65532 is punched
/// first itself and then at `p - 3`, `p - 2`, `p - 1`, `p + 1`, `p + 2` and
/// `p + 3`, in that order.
pub proof fn lemma_port_spray_single(c: Endpoint)
    requires
        c.ip is V4,
        1027 <= c.port <= 65532,
    ensures
        spray(seq![c]) == seq![
            c,
            Endpoint { ip: c.ip, port: (c.port - 3) as u16 },
            Endpoint { ip: c.ip, port: (c.port - 2) as u16 },
            Endpoint { ip: c.ip, port: (c.port - 1) as u16 },
            Endpoint { ip: c.ip, port: (c.port + 1) as u16 },
            Endpoint { ip: c.ip, port: (c.port + 2) as u16 },
            Endpoint { ip: c.ip, port: (c.port + 3) as u16 },
        ],
{
    let cs = seq![c];
    assert(cs.drop_last() =~= Seq::<Endpoint>::empty());
    assert(spray(Seq::<Endpoint>::empty()) == Seq::<Endpoint>::empty());
    let t0 = seq![c];
    assert(spray(cs) == spray_from(Seq::<Endpoint>::empty().push(c), c.ip, c.port as int, 0));
    assert(Seq::<Endpoint>::empty().push(c) =~= t0);
    let p = c.port as int;
    let e0 = Endpoint { ip: c.ip, port: (p - 3) as u16 };
    let e1 = Endpoint { ip: c.ip, port: (p - 2) as u16 };
    let e2 = Endpoint { ip: c.ip, port: (p - 1) as u16 };
    let e3 = Endpoint { ip: c.ip, port: (p + 1) as u16 };
    let e4 = Endpoint { ip: c.ip, port: (p + 2) as u16 };
    let e5 = Endpoint { ip: c.ip, port: (p + 3) as u16 };
    let t1 = t0.push(e0);
    let t2 = t1.push(e1);
    let t3 = t2.push(e2);
    let t4 = t3.push(e3);
    let t5 = t4.push(e4);
    let t6 = t5.push(e5);
    assert(!t0.contains(e0)) by { if t0.contains(e0) { let i = choose|i: int| 0 <= i < t0.len() && t0[i] == e0; } }
    assert(!t1.contains(e1)) by { if t1.contains(e1) { let i = choose|i: int| 0 <= i < t1.len() && t1[i] == e1; } }
    assert(!t2.contains(e2)) by { if t2.contains(e2) { let i = choose|i: int| 0 <= i < t2.len() && t2[i] == e2; } }
    assert(!t3.contains(e3)) by { if t3.contains(e3) { let i = choose|i: int| 0 <= i < t3.len() && t3[i] == e3; } }
    assert(!t4.contains(e4)) by { if t4.contains(e4) { let i = choose|i: int| 0 <= i < t4.len() && t4[i] == e4; } }
    assert(!t5.contains(e5)) by { if t5.contains(e5) { let i = choose|i: int| 0 <= i < t5.len() && t5[i] == e5; } }
    assert(spray_from(t6, c.ip, p, 6) == t6);
    assert(spray_from(t5, c.ip, p, 5) == t6);
    assert(spray_from(t4, c.ip, p, 4) == t6);
    assert(spray_from(t3, c.ip, p, 3) == t6);
    assert(spray_from(t2, c.ip, p, 2) == t6);
    assert(spray_from(t1, c.ip, p, 1) == t6);
    assert(spray_from(t0, c.ip, p, 0) == t6);
    assert(t6 =~= seq![c, e0, e1, e2, e3, e4, e5]);
}

fn contains_endpoint(v: &Vec<Endpoint>, e: &Endpoint) -> (res: bool)
    ensures
        res == v@.contains(*e),
{
    let mut i: usize = 0;
    while i < v.len()
        invariant
            0 <= i <= v@.len(),
            forall|j: int| 0 <= j < i ==> v@[j] != *e,
        decreases v@.len() - i,
    {
        if v[i].same_as(e) {
            return true;
        }
        i = i + 1;
    }
    false
}

fn delta_at(k: usize) -> (res: i32)
    requires
        k < 6,
    ensures
        res == spray_delta(k as int),
{
    if k == 0 { -3 } else if k == 1 { -2 } else if k == 2 { -1 } else if k == 3 { 1 } else if k == 4 { 2 } else { 3 }
}

/// Expands candidates with neighbouring ports for Symmetric NAT / CGNAT
/// port drift.
pub fn expand_candidates_with_port_spray(candidates: &[Endpoint]) -> (res: Vec<Endpoint>)
    ensures
        res@ == spray(candidates@),
{
    let mut targets: Vec<Endpoint> = Vec::new();
    let mut i: usize = 0;
    while i < candidates.len()
        invariant
            0 <= i <= candidates@.len(),
            targets@ == spray(candidates@.take(i as int)),
        decreases candidates@.len() - i,
    {
        let addr = candidates[i];
        proof {
            assert(candidates@.take(i + 1).drop_last() =~= candidates@.take(i as int));
            assert(candidates@.take(i + 1).last() == addr);
        }
        targets.push(addr);
        if addr.is_ipv4() {
            let mut k: usize = 0;
            while k < 6
                invariant
                    0 <= k <= 6,
                    addr == candidates@[i as int],
                    addr.ip is V4,
                    spray(candidates@.take(i + 1)) == spray_from(targets@, addr.ip, addr.port as int, k as int),
                decreases 6 - k,
            {
                let p: i32 = addr.port as i32 + delta_at(k);
                if 1024 <= p && p <= 65535 {
                    let sprayed = Endpoint { ip: addr.ip, port: p as u16 };
                    if !contains_endpoint(&targets, &sprayed) {
                        targets.push(sprayed);
                    }
                }
                k = k + 1;
            }
        }
        i = i + 1;
    }
    assert(candidates@.take(candidates@.len() as int) =~= candidates@);
    targets
}

// ---------------------------------------------------------------------------
// Hole punching
// ---------------------------------------------------------------------------

/// What a datagram does to the punching phase.
#[derive(Debug)]
pub enum PunchStep {
    /// Keep punching.
    Continue,
    /// The path is open: `peer` answered. `peer_name` is the name it gave,
    /// if any, and `ack` is what to send back (four times) when it punched.
    Connected { peer: Endpoint, peer_name: Option<String>, ack: Option<Packet> },
}

/// The punching phase's reaction to `packet` from `sender`.
pub open spec fn spec_punch_step(my_name: String, packet: Packet, sender: Endpoint) -> PunchStep {
    match packet {
        Packet::Punch { nonce, sender_name } => PunchStep::Connected {
            peer: sender,
            peer_name: Some(sender_name),
            ack: Some(Packet::PunchAck { nonce, sender_name: my_name }),
        },
        Packet::PunchAck { sender_name, .. } => PunchStep::Connected {
            peer: sender,
            peer_name: Some(sender_name),
            ack: None,
        },
        Packet::TextMessage { .. } | Packet::Ping { .. } => PunchStep::Connected {
            peer: sender,
            peer_name: None,
            ack: None,
        },
        _ => PunchStep::Continue,
    }
}

/// Decides what a datagram received while punching means: a Punch is
/// answered and opens the path, a PunchAck, text or ping opens it too.
pub fn punch_phase_step(my_name: &String, packet: Packet, sender: Endpoint) -> (res: PunchStep)
    ensures
        res == spec_punch_step(*my_name, packet, sender),
{
    match packet {
        Packet::Punch { nonce, sender_name } => PunchStep::Connected {
            peer: sender,
            peer_name: Some(sender_name),
            ack: Some(Packet::PunchAck { nonce, sender_name: my_name.clone() }),
        },
        Packet::PunchAck { sender_name, .. } => PunchStep::Connected {
            peer: sender,
            peer_name: Some(sender_name),
            ack: None,
        },
        Packet::TextMessage { .. } => PunchStep::Connected { peer: sender, peer_name: None, ack: None },
        Packet::Ping { .. } => PunchStep::Connected { peer: sender, peer_name: None, ack: None },
        _ => PunchStep::Continue,
    }
}

/// How many times an own chat message is sent at most while it waits for
/// its acknowledgement (every 200 ms).
pub const MAX_CHAT_SENDS: u32 = 6;

/// How long the punching phase lasts, in milliseconds.
pub const PUNCH_TIMEOUT_MS: u64 = 12_000;

/// How often the punches are sent to every candidate, in milliseconds.
pub const PUNCH_INTERVAL_MS: u64 = 80;

/// What the punching phase does at a moment.
#[derive(Debug, Clone, Copy, PartialEq, Eq)]
pub struct PunchTick {
    /// The phase is over without an answer.
    pub expired: bool,
    /// Send a punch to every candidate now.
    pub blast: bool,
}

/// The pacing of the punching phase: it started at `start_ms`, and punches
/// were last sent at `last_blast_ms`.
pub struct PunchClock {
    start_ms: u64,
    last_blast_ms: Option<u64>,
}

impl PunchClock {
    pub closed spec fn start(&self) -> u64 {
        self.start_ms
    }

    pub closed spec fn last_blast(&self) -> Option<u64> {
        self.last_blast_ms
    }

    /// A phase starting at `now_ms`, nothing sent yet.
    pub fn new(now_ms: u64) -> (res: Self)
        ensures
            res.start() == now_ms,
            res.last_blast() is None,
    {
        PunchClock { start_ms: now_ms, last_blast_ms: None }
    }

    /// The phase at `now_ms` (a monotonic clock, never before the start or
    /// the last punches): it is over once 12 s have passed; otherwise the
    /// punches go out when none were sent yet or 80 ms have passed since.
    pub fn tick(&mut self, now_ms: u64) -> (res: PunchTick)
        requires
            now_ms >= old(self).start(),
            old(self).last_blast() matches Some(t) ==> now_ms >= t,
        ensures
            res.expired == (now_ms - old(self).start() >= PUNCH_TIMEOUT_MS),
            res.blast == (!res.expired && match old(self).last_blast() {
                Some(t) => now_ms - t >= PUNCH_INTERVAL_MS,
                None => true,
            }),
            final(self).start() == old(self).start(),
            final(self).last_blast() == if res.blast { Some(now_ms) } else { old(self).last_blast() },
    {
        let expired = now_ms - self.start_ms >= PUNCH_TIMEOUT_MS;
        let blast = !expired && match self.last_blast_ms {
            Some(t) => now_ms - t >= PUNCH_INTERVAL_MS,
            None => true,
        };
        if blast {
            self.last_blast_ms = Some(now_ms);
        }
        PunchTick { expired, blast }
    }
}

/// The reason shown when the punching phase ended without an answer.
pub open spec fn punch_failure_text(peer_name: Seq<char>) -> Seq<char> {
    "Не удалось пробить NAT с собеседником '"@ + peer_name
        + "' после 12 секунд встречных попыток. Проверьте соединение и попробуйте снова."@
}

/// The reason shown when the punching phase ended without an answer.
pub fn punch_failure_message(peer_name: &str) -> (res: String)
    ensures
        res@ == punch_failure_text(peer_name@),
{
    let mut s = to_owned_string("Не удалось пробить NAT с собеседником '");
    push_str(&mut s, peer_name);
    push_str(&mut s, "' после 12 секунд встречных попыток. Проверьте соединение и попробуйте снова.");
    s
}

// ---------------------------------------------------------------------------
// Chat log with acknowledged delivery and de-duplication
// ---------------------------------------------------------------------------

/// The chat history with the ids already seen in the current session and the
/// ids of own messages still waiting for an acknowledgement. The history
/// outlives a session; the ids do not, so the messages of the current session
/// are those from `session_start` on.
pub struct ChatLog {
    messages: Vec<ChatMessage>,
    session_start: usize,
    seen: HashSet<u64>,
    pending: HashSet<u64>,
}

/// The id of an outgoing message made from 64 random bits: the top bit
/// cleared, and never zero.
pub open spec fn message_id_from(raw: u64) -> u64 {
    let masked = raw & 0x7FFF_FFFF_FFFF_FFFFu64;
    if masked > 1 { masked } else { 1 }
}

/// The id of an outgoing message made from 64 random bits.
pub fn message_id(raw: u64) -> (res: u64)
    ensures
        res == message_id_from(raw),
{
    let masked = raw & 0x7FFF_FFFF_FFFF_FFFFu64;
    if masked > 1 { masked } else { 1 }
}

impl ChatLog {
    pub closed spec fn messages(&self) -> Seq<ChatMessage> {
        self.messages@
    }

    pub closed spec fn seen(&self) -> Set<u64> {
        self.seen@
    }

    /// Where the messages of the current session begin in the history.
    pub closed spec fn session_start(&self) -> int {
        self.session_start as int
    }

    pub closed spec fn pending(&self) -> Set<u64> {
        self.pending@
    }

    /// Every message of the current session has its id among the seen ids,
    /// and no two of them share an id.
    pub closed spec fn inv(&self) -> bool {
        &&& self.session_start <= self.messages@.len()
        &&& forall|i: int|
            self.session_start <= i < self.messages@.len() ==> self.seen@.contains(#[trigger] self.messages@[i].id)
        &&& forall|i: int, j: int|
            self.session_start <= i < self.messages@.len() && self.session_start <= j < self.messages@.len() && i
                != j ==> #[trigger] self.messages@[i].id != #[trigger] self.messages@[j].id
    }

    /// Every message shown in the current session has its id among the seen
    /// ids, and no two of them share an id.
    pub proof fn lemma_inv(&self)
        requires
            self.inv(),
        ensures
            0 <= self.session_start() <= self.messages().len(),
            forall|i: int|
                self.session_start() <= i < self.messages().len() ==> self.seen().contains(
                    #[trigger] self.messages()[i].id,
                ),
            forall|i: int, j: int|
                self.session_start() <= i < self.messages().len() && self.session_start() <= j
                    < self.messages().len() && i != j ==> #[trigger] self.messages()[i].id
                    != #[trigger] self.messages()[j].id,
    {
    }

    pub fn new() -> (res: Self)
        ensures
            res.inv(),
            res.messages().len() == 0,
            res.session_start() == 0,
            res.seen() == Set::<u64>::empty(),
            res.pending() == Set::<u64>::empty(),
    {
        ChatLog { messages: Vec::new(), session_start: 0, seen: HashSet::new(), pending: HashSet::new() }
    }

    /// The messages in arrival order.
    pub fn messages_vec(&self) -> (res: &Vec<ChatMessage>)
        ensures
            res@ == self.messages(),
    {
        &self.messages
    }

    /// Ends the session: forgets the seen and pending ids, keeping the
    /// history, which from now on belongs to no session.
    pub fn reset_ids(&mut self)
        requires
            old(self).inv(),
        ensures
            final(self).inv(),
            final(self).messages() == old(self).messages(),
            final(self).session_start() == old(self).messages().len(),
            final(self).seen() == Set::<u64>::empty(),
            final(self).pending() == Set::<u64>::empty(),
    {
        self.seen = HashSet::new();
        self.pending = HashSet::new();
        self.session_start = self.messages.len();
    }

    /// Records an own outgoing message: its id is marked seen (so that a
    /// bounced copy is never shown twice), it waits for an acknowledgement,
    /// and it is shown.
    pub fn record_outgoing(&mut self, raw_id: u64, text: String, my_name: String, timestamp_ms: u64) -> (res: ChatMessage)
        requires
            old(self).inv(),
            !old(self).seen().contains(message_id_from(raw_id)),
        ensures
            final(self).inv(),
            res == (ChatMessage { id: message_id_from(raw_id), sender: my_name, text, timestamp_ms, is_me: true }),
            final(self).messages() == old(self).messages().push(res),
            final(self).seen() == old(self).seen().insert(res.id),
            final(self).pending() == old(self).pending().insert(res.id),
            final(self).session_start() == old(self).session_start(),
    {
        let masked = raw_id & 0x7FFF_FFFF_FFFF_FFFFu64;
        let id = if masked > 1 { masked } else { 1 };
        self.seen.insert(id);
        self.pending.insert(id);
        let msg = ChatMessage { id, sender: my_name, text, timestamp_ms, is_me: true };
        let shown = ChatMessage {
            id,
            sender: msg.sender.clone(),
            text: msg.text.clone(),
            timestamp_ms,
            is_me: true,
        };
        self.messages.push(shown);
        proof {
            assert(self.messages@.last() == msg);
            assert forall|i: int| self.session_start <= i < self.messages@.len() implies self.seen@.contains(#[trigger] self.messages@[i].id) by {
                if i < old(self).messages@.len() {
                    assert(old(self).messages@[i] == self.messages@[i]);
                }
            }
            assert forall|i: int, j: int|
                self.session_start <= i < self.messages@.len() && self.session_start <= j < self.messages@.len() && i != j
                    implies #[trigger] self.messages@[i].id != #[trigger] self.messages@[j].id by {
                if i < old(self).messages@.len() && j < old(self).messages@.len() {
                    assert(old(self).messages@[i] == self.messages@[i]);
                    assert(old(self).messages@[j] == self.messages@[j]);
                } else if i < old(self).messages@.len() {
                    assert(old(self).seen@.contains(old(self).messages@[i].id));
                } else if j < old(self).messages@.len() {
                    assert(old(self).seen@.contains(old(self).messages@[j].id));
                }
            }
        }
        msg
    }

    /// Whether an own message still waits for its acknowledgement.
    pub fn is_pending(&self, id: u64) -> (res: bool)
        ensures
            res == self.pending().contains(id),
    {
        self.pending.contains(&id)
    }

    /// Whether an id is already known.
    pub fn has_seen(&self, id: u64) -> (res: bool)
        ensures
            res == self.seen().contains(id),
    {
        self.seen.contains(&id)
    }

    /// Accepts an incoming message: shown only the first time its id arrives.
    /// Returns whether it was new.
    pub fn receive(&mut self, id: u64, text: String, sender_name: String, timestamp_ms: u64) -> (res: bool)
        requires
            old(self).inv(),
        ensures
            final(self).inv(),
            res == !old(self).seen().contains(id),
            final(self).seen() == old(self).seen().insert(id),
            final(self).pending() == old(self).pending(),
            final(self).session_start() == old(self).session_start(),
            res ==> final(self).messages() == old(self).messages().push(
                ChatMessage { id, sender: sender_name, text, timestamp_ms, is_me: false },
            ),
            !res ==> final(self).messages() == old(self).messages(),
    {
        let is_new = self.seen.insert(id);
        if is_new {
            self.messages.push(ChatMessage { id, sender: sender_name, text, timestamp_ms, is_me: false });
        }
        proof {
            assert forall|i: int| self.session_start <= i < self.messages@.len() implies self.seen@.contains(#[trigger] self.messages@[i].id) by {
                if i < old(self).messages@.len() {
                    assert(old(self).messages@[i] == self.messages@[i]);
                }
            }
            assert forall|i: int, j: int|
                self.session_start <= i < self.messages@.len() && self.session_start <= j < self.messages@.len() && i != j
                    implies #[trigger] self.messages@[i].id != #[trigger] self.messages@[j].id by {
                if i < old(self).messages@.len() && j < old(self).messages@.len() {
                    assert(old(self).messages@[i] == self.messages@[i]);
                    assert(old(self).messages@[j] == self.messages@[j]);
                } else if i < old(self).messages@.len() {
                    assert(old(self).seen@.contains(old(self).messages@[i].id));
                } else if j < old(self).messages@.len() {
                    assert(old(self).seen@.contains(old(self).messages@[j].id));
                }
            }
        }
        is_new
    }

    /// Whether an own message is sent (again) after `sent` sends: while it
    /// waits for its acknowledgement and fewer than `MAX_CHAT_SENDS` sends
    /// were made. Otherwise it stops waiting.
    pub fn delivery_step(&mut self, id: u64, sent: u32) -> (res: bool)
        requires
            old(self).inv(),
        ensures
            final(self).inv(),
            res == (old(self).pending().contains(id) && sent < MAX_CHAT_SENDS),
            final(self).pending() == if res { old(self).pending() } else { old(self).pending().remove(id) },
            final(self).seen() == old(self).seen(),
            final(self).messages() == old(self).messages(),
            final(self).session_start() == old(self).session_start(),
    {
        if self.pending.contains(&id) && sent < MAX_CHAT_SENDS {
            true
        } else {
            let _ = self.pending.remove(&id);
            proof {
                assert forall|i: int| self.session_start <= i < self.messages@.len() implies self.seen@.contains(#[trigger] self.messages@[i].id) by {
                    assert(old(self).messages@[i] == self.messages@[i]);
                }
            }
            false
        }
    }

    /// An acknowledgement arrived: the id stops waiting. Returns whether it
    /// was waiting.
    pub fn acknowledge(&mut self, id: u64) -> (res: bool)
        requires
            old(self).inv(),
        ensures
            final(self).inv(),
            res == old(self).pending().contains(id),
            final(self).pending() == old(self).pending().remove(id),
            final(self).seen() == old(self).seen(),
            final(self).messages() == old(self).messages(),
            final(self).session_start() == old(self).session_start(),
    {
        let r = self.pending.remove(&id);
        proof {
            assert forall|i: int| self.session_start <= i < self.messages@.len() implies self.seen@.contains(#[trigger] self.messages@[i].id) by {
                assert(old(self).messages@[i] == self.messages@[i]);
            }
        }
        r
    }
}

// ---------------------------------------------------------------------------
// Connected session
// ---------------------------------------------------------------------------

/// What the session does with a datagram: packets to send to the peer (in
/// order), the id of an own message now acknowledged, and the peer's
/// disconnect reason when it left.
#[derive(Debug)]
pub struct SessionReply {
    pub replies: Vec<Packet>,
    pub acknowledged: Option<u64>,
    pub disconnected: Option<String>,
}

/// What a timer tick asks for: a ping to send, whether to spray punches
/// again, and how long the peer has been silent.
#[derive(Debug)]
pub struct TickActions {
    pub ping: Option<Packet>,
    pub repunch: bool,
    pub silence_ms: u64,
}

/// The round-trip time that a Pong stamped `sent_ms` shows at `now_ms`, at
/// least one millisecond.
pub open spec fn rtt_of(now_ms: u64, sent_ms: u64) -> u32 {
    let d = if now_ms >= sent_ms { (now_ms - sent_ms) as u64 } else { 0u64 };
    let r = d as u32;
    if r > 1 { r } else { 1 }
}

/// The ping a Pong sets is the round trip in milliseconds: the time it
/// arrived minus the time it was stamped, when that fits in 32 bits and is
/// at least one; a Pong stamped at or after its arrival counts as one
/// millisecond.
pub proof fn lemma_pong_round_trip(now_ms: u64, sent_ms: u64)
    ensures
        sent_ms + 1 <= now_ms && now_ms - sent_ms < 0x1_0000_0000 ==> rtt_of(now_ms, sent_ms) == now_ms - sent_ms,
        now_ms <= sent_ms ==> rtt_of(now_ms, sent_ms) == 1,
{
}

/// The text of the failure after the peer disconnected.
pub open spec fn peer_left_text(reason: Seq<char>) -> Seq<char> {
    "Собеседник отключился: "@ + reason
}

/// A connected session with one peer.
pub struct Session {
    active: Endpoint,
    targets: Vec<Endpoint>,
    my_name: String,
    peer: PeerInfo,
    chat: ChatLog,
    ping_seq: u64,
    last_ping_sent: u64,
    last_repunch: Option<u64>,
}

impl Session {
    pub closed spec fn active(&self) -> Endpoint {
        self.active
    }

    pub closed spec fn targets(&self) -> Seq<Endpoint> {
        self.targets@
    }

    pub closed spec fn my_name(&self) -> String {
        self.my_name
    }

    pub closed spec fn peer_info(&self) -> PeerInfo {
        self.peer
    }

    pub closed spec fn chat_log(&self) -> ChatLog {
        self.chat
    }

    /// The connected peer.
    pub fn peer(&self) -> (res: &PeerInfo)
        ensures
            *res == self.peer_info(),
    {
        &self.peer
    }

    /// The chat of this session.
    pub fn chat(&self) -> (res: &ChatLog)
        ensures
            *res == self.chat_log(),
    {
        &self.chat
    }

    /// Hands the chat of this session back.
    pub fn into_chat(self) -> (res: ChatLog)
        ensures
            res == self.chat_log(),
    {
        self.chat
    }

    pub closed spec fn ping_seq(&self) -> u64 {
        self.ping_seq
    }

    pub closed spec fn last_ping_sent(&self) -> u64 {
        self.last_ping_sent
    }

    pub closed spec fn last_repunch(&self) -> Option<u64> {
        self.last_repunch
    }

    /// Starts the session with `active` at monotonic time `mono_ms`; the
    /// peer was last seen at wall time `now_ms`.
    pub fn start(
        active: Endpoint,
        targets: Vec<Endpoint>,
        my_name: String,
        peer_id: u32,
        peer_name: String,
        peer_addr: String,
        now_ms: u64,
        mono_ms: u64,
        chat: ChatLog,
    ) -> (res: Self)
        ensures
            res.active() == active,
            res.targets() == targets@,
            res.my_name() == my_name,
            res.peer_info() == (PeerInfo { id: peer_id, name: peer_name, addr: peer_addr, ping_ms: 1, last_seen_ms: now_ms }),
            res.chat_log() == chat,
            res.ping_seq() == 0,
            res.last_ping_sent() == mono_ms,
            res.last_repunch() is None,
    {
        Session {
            active,
            targets,
            my_name,
            peer: PeerInfo { id: peer_id, name: peer_name, addr: peer_addr, ping_ms: 1, last_seen_ms: now_ms },
            chat,
            ping_seq: 0,
            last_ping_sent: mono_ms,
            last_repunch: None,
        }
    }

    /// The peer this session talks to.
    pub fn active_endpoint(&self) -> (res: Endpoint)
        ensures
            res == self.active(),
    {
        self.active
    }

    /// Whether a datagram from `from` belongs to this session: from the
    /// peer, or from one of the punched targets.
    pub fn accepts_from(&self, from: &Endpoint) -> (res: bool)
        ensures
            res == (*from == self.active() || self.targets().contains(*from)),
    {
        from.same_as(&self.active) || contains_endpoint(&self.targets, from)
    }

    /// Handles a datagram from the peer at wall time `now_ms`.
    ///
    /// A Ping is answered with the Pong of the same sequence and stamp; a Pong
    /// sets the ping to the round-trip time; a text message is acknowledged
    /// three times and shown once per id; an acknowledgement releases the
    /// waiting message; a Punch is answered with a PunchAck; a Disconnect ends
    /// the session. Every packet but Disconnect refreshes the peer's last-seen
    /// time.
    pub fn on_packet(&mut self, packet: Packet, now_ms: u64) -> (res: SessionReply)
        requires
            old(self).chat_log().inv(),
        ensures
            final(self).chat_log().inv(),
            final(self).active() == old(self).active(),
            final(self).targets() == old(self).targets(),
            final(self).my_name() == old(self).my_name(),
            final(self).ping_seq() == old(self).ping_seq(),
            final(self).last_ping_sent() == old(self).last_ping_sent(),
            final(self).last_repunch() == old(self).last_repunch(),
            final(self).peer_info().id == old(self).peer_info().id,
            final(self).peer_info().name == old(self).peer_info().name,
            final(self).peer_info().addr == old(self).peer_info().addr,
            match packet {
                Packet::Ping { seq, timestamp_ms } => {
                    &&& res.replies@ == seq![Packet::Pong { seq, timestamp_ms }]
                    &&& res.acknowledged is None && res.disconnected is None
                    &&& final(self).peer_info().last_seen_ms == now_ms
                    &&& final(self).peer_info().ping_ms == old(self).peer_info().ping_ms
                    &&& final(self).chat_log() == old(self).chat_log()
                },
                Packet::Pong { timestamp_ms, .. } => {
                    &&& res.replies@.len() == 0
                    &&& res.acknowledged is None && res.disconnected is None
                    &&& final(self).peer_info().ping_ms == rtt_of(now_ms, timestamp_ms)
                    &&& final(self).peer_info().last_seen_ms == now_ms
                    &&& final(self).chat_log() == old(self).chat_log()
                },
                Packet::TextMessage { id, text, sender_name, timestamp_ms } => {
                    &&& res.replies@ == seq![Packet::TextAck { id }, Packet::TextAck { id }, Packet::TextAck { id }]
                    &&& res.acknowledged is None && res.disconnected is None
                    &&& final(self).peer_info().last_seen_ms == now_ms
                    &&& final(self).peer_info().ping_ms == old(self).peer_info().ping_ms
                    &&& final(self).chat_log().seen() == old(self).chat_log().seen().insert(id)
                    &&& final(self).chat_log().pending() == old(self).chat_log().pending()
                    &&& old(self).chat_log().seen().contains(id) ==> final(self).chat_log().messages() == old(self).chat_log().messages()
                    &&& !old(self).chat_log().seen().contains(id) ==> final(self).chat_log().messages() == old(self).chat_log().messages().push(
                        ChatMessage { id, sender: sender_name, text, timestamp_ms, is_me: false },
                    )
                },
                Packet::TextAck { id } => {
                    &&& res.replies@.len() == 0
                    &&& res.disconnected is None
                    &&& res.acknowledged == if old(self).chat_log().pending().contains(id) { Some(id) } else { None }
                    &&& final(self).chat_log().pending() == old(self).chat_log().pending().remove(id)
                    &&& final(self).chat_log().seen() == old(self).chat_log().seen()
                    &&& final(self).chat_log().messages() == old(self).chat_log().messages()
                    &&& final(self).peer_info().last_seen_ms == now_ms
                    &&& final(self).peer_info().ping_ms == old(self).peer_info().ping_ms
                },
                Packet::Punch { nonce, .. } => {
                    &&& res.replies@ == seq![Packet::PunchAck { nonce, sender_name: old(self).my_name() }]
                    &&& res.acknowledged is None && res.disconnected is None
                    &&& final(self).peer_info().last_seen_ms == now_ms
                    &&& final(self).peer_info().ping_ms == old(self).peer_info().ping_ms
                    &&& final(self).chat_log() == old(self).chat_log()
                },
                Packet::PunchAck { .. } => {
                    &&& res.replies@.len() == 0
                    &&& res.acknowledged is None && res.disconnected is None
                    &&& final(self).peer_info().last_seen_ms == now_ms
                    &&& final(self).peer_info().ping_ms == old(self).peer_info().ping_ms
                    &&& final(self).chat_log() == old(self).chat_log()
                },
                Packet::Disconnect { reason } => {
                    &&& res.replies@.len() == 0
                    &&& res.acknowledged is None
                    &&& res.disconnected == Some(reason)
                    &&& final(self).peer_info() == old(self).peer_info()
                    &&& final(self).chat_log() == old(self).chat_log()
                },
                _ => {
                    &&& res.replies@.len() == 0
                    &&& res.acknowledged is None && res.disconnected is None
                    &&& final(self).peer_info() == old(self).peer_info()
                    &&& final(self).chat_log() == old(self).chat_log()
                },
            },
    {
        let mut replies: Vec<Packet> = Vec::new();
        match packet {
            Packet::Ping { seq, timestamp_ms } => {
                replies.push(Packet::Pong { seq, timestamp_ms });
                self.peer.last_seen_ms = now_ms;
                SessionReply { replies, acknowledged: None, disconnected: None }
            },
            Packet::Pong { timestamp_ms, .. } => {
                let d = now_ms.saturating_sub(timestamp_ms);
                let r = d as u32;
                let rtt = if r > 1 { r } else { 1 };
                self.peer.ping_ms = rtt;
                self.peer.last_seen_ms = now_ms;
                SessionReply { replies, acknowledged: None, disconnected: None }
            },
            Packet::TextMessage { id, text, sender_name, timestamp_ms } => {
                replies.push(Packet::TextAck { id });
                replies.push(Packet::TextAck { id });
                replies.push(Packet::TextAck { id });
                let _ = self.chat.receive(id, text, sender_name, timestamp_ms);
                self.peer.last_seen_ms = now_ms;
                SessionReply { replies, acknowledged: None, disconnected: None }
            },
            Packet::TextAck { id } => {
                let was_pending = self.chat.acknowledge(id);
                self.peer.last_seen_ms = now_ms;
                SessionReply { replies, acknowledged: if was_pending { Some(id) } else { None }, disconnected: None }
            },
            Packet::Punch { nonce, .. } => {
                replies.push(Packet::PunchAck { nonce, sender_name: self.my_name.clone() });
                self.peer.last_seen_ms = now_ms;
                SessionReply { replies, acknowledged: None, disconnected: None }
            },
            Packet::PunchAck { .. } => {
                self.peer.last_seen_ms = now_ms;
                SessionReply { replies, acknowledged: None, disconnected: None }
            },
            Packet::Disconnect { reason } => {
                SessionReply { replies, acknowledged: None, disconnected: Some(reason) }
            },
            _ => SessionReply { replies, acknowledged: None, disconnected: None },
        }
    }

    /// Handles the timer at monotonic time `mono_ms` and wall time `now_ms`:
    /// every 1.5 s a ping with the next sequence number goes out, and when
    /// the peer has been silent for more than 3.5 s the targets are punched
    /// again, at most every 1.5 s.
    pub fn on_tick(&mut self, mono_ms: u64, now_ms: u64) -> (res: TickActions)
        requires
            old(self).ping_seq() < u64::MAX,
        ensures
            final(self).chat_log() == old(self).chat_log(),
            final(self).peer_info() == old(self).peer_info(),
            final(self).active() == old(self).active(),
            final(self).targets() == old(self).targets(),
            final(self).my_name() == old(self).my_name(),
            mono_ms < old(self).last_ping_sent() + 1500 ==> {
                &&& res.ping is None && !res.repunch
                &&& final(self).ping_seq() == old(self).ping_seq()
                &&& final(self).last_ping_sent() == old(self).last_ping_sent()
                &&& final(self).last_repunch() == old(self).last_repunch()
            },
            mono_ms >= old(self).last_ping_sent() + 1500 ==> {
                let silence = if now_ms >= old(self).peer_info().last_seen_ms { now_ms - old(self).peer_info().last_seen_ms } else { 0 };
                let repunch_due = match old(self).last_repunch() {
                    Some(t) => mono_ms >= t + 1500,
                    None => true,
                };
                &&& res.ping == Some(Packet::Ping { seq: (old(self).ping_seq() + 1) as u64, timestamp_ms: now_ms })
                &&& final(self).ping_seq() == old(self).ping_seq() + 1
                &&& final(self).last_ping_sent() == mono_ms
                &&& res.silence_ms == silence
                &&& res.repunch == (silence > 3500 && repunch_due)
                &&& final(self).last_repunch() == if res.repunch { Some(mono_ms) } else { old(self).last_repunch() }
            },
    {
        if mono_ms < self.last_ping_sent || mono_ms - self.last_ping_sent < 1500 {
            return TickActions { ping: None, repunch: false, silence_ms: 0 };
        }
        self.ping_seq = self.ping_seq + 1;
        let ping = Packet::Ping { seq: self.ping_seq, timestamp_ms: now_ms };
        self.last_ping_sent = mono_ms;
        let silence = now_ms.saturating_sub(self.peer.last_seen_ms);
        let repunch_due = match self.last_repunch {
            Some(t) => mono_ms >= t && mono_ms - t >= 1500,
            None => true,
        };
        let repunch = silence > 3500 && repunch_due;
        if repunch {
            self.last_repunch = Some(mono_ms);
        }
        TickActions { ping: Some(ping), repunch, silence_ms: silence }
    }

    /// Records an own outgoing message in the session's chat (see
    /// `ChatLog::record_outgoing`).
    pub fn record_outgoing(&mut self, raw_id: u64, text: String, my_name: String, timestamp_ms: u64) -> (res:
        ChatMessage)
        requires
            old(self).chat_log().inv(),
            !old(self).chat_log().seen().contains(message_id_from(raw_id)),
        ensures
            final(self).chat_log().inv(),
            res == (ChatMessage { id: message_id_from(raw_id), sender: my_name, text, timestamp_ms, is_me: true }),
            final(self).chat_log().messages() == old(self).chat_log().messages().push(res),
            final(self).chat_log().seen() == old(self).chat_log().seen().insert(res.id),
            final(self).chat_log().pending() == old(self).chat_log().pending().insert(res.id),
            final(self).active() == old(self).active(),
            final(self).targets() == old(self).targets(),
            final(self).my_name() == old(self).my_name(),
            final(self).peer_info() == old(self).peer_info(),
            final(self).ping_seq() == old(self).ping_seq(),
            final(self).last_ping_sent() == old(self).last_ping_sent(),
            final(self).last_repunch() == old(self).last_repunch(),
    {
        self.chat.record_outgoing(raw_id, text, my_name, timestamp_ms)
    }

    /// Whether an own message is sent (again) after `sent` sends (see
    /// `ChatLog::delivery_step`).
    pub fn delivery_step(&mut self, id: u64, sent: u32) -> (res: bool)
        requires
            old(self).chat_log().inv(),
        ensures
            final(self).chat_log().inv(),
            res == (old(self).chat_log().pending().contains(id) && sent < MAX_CHAT_SENDS),
            final(self).chat_log().pending() == if res {
                old(self).chat_log().pending()
            } else {
                old(self).chat_log().pending().remove(id)
            },
            final(self).chat_log().seen() == old(self).chat_log().seen(),
            final(self).chat_log().messages() == old(self).chat_log().messages(),
            final(self).active() == old(self).active(),
            final(self).targets() == old(self).targets(),
            final(self).my_name() == old(self).my_name(),
            final(self).peer_info() == old(self).peer_info(),
            final(self).ping_seq() == old(self).ping_seq(),
            final(self).last_ping_sent() == old(self).last_ping_sent(),
            final(self).last_repunch() == old(self).last_repunch(),
    {
        self.chat.delivery_step(id, sent)
    }

    /// The targets to punch again.
    pub fn punch_targets(&self) -> (res: &Vec<Endpoint>)
        ensures
            res@ == self.targets(),
    {
        &self.targets
    }
}

/// The failure text after the peer disconnected with `reason`.
pub fn peer_left_status(reason: &str) -> (res: ConnectionStatus)
    ensures
        res matches ConnectionStatus::Failed { error } && error@ == peer_left_text(reason@),
{
    let mut error = to_owned_string("Собеседник отключился: ");
    push_str(&mut error, reason);
    ConnectionStatus::Failed { error }
}

/// The text of a chat message to send: trimmed, and refused when nothing
/// is left.
pub fn outgoing_text(text: &str) -> (res: Result<String, String>)
    ensures
        trimmed(text@).len() == 0 ==> (res matches Err(e) && e@ == "Сообщение не может быть пустым"@),
        trimmed(text@).len() > 0 ==> (res matches Ok(t) && t@ == trimmed(text@)),
{
    let t = trim(text);
    if t.as_str().is_empty() {
        Err(to_owned_string("Сообщение не может быть пустым"))
    } else {
        Ok(t)
    }
}

/// The addresses a hosted room advertises: the first candidate as the local
/// address, and as the public one the first candidate that is not loopback
/// and differs from the first.
pub fn hosting_addresses(candidates: &[Endpoint]) -> (res: (Option<Endpoint>, Option<Endpoint>))
    ensures
        candidates@.len() == 0 ==> res.0 is None && res.1 is None,
        candidates@.len() > 0 ==> res.0 == Some(candidates@[0]),
        match res.1 {
            Some(p) => exists|i: int| {
                &&& 0 <= i < candidates@.len()
                &&& #[trigger] candidates@[i] == p
                &&& !crate::addr::spec_is_loopback(p.ip)
                &&& p != candidates@[0]
                &&& forall|j: int| 0 <= j < i ==> crate::addr::spec_is_loopback(#[trigger] candidates@[j].ip)
                    || candidates@[j] == candidates@[0]
            },
            None => forall|j: int| 0 <= j < candidates@.len() ==> crate::addr::spec_is_loopback(#[trigger] candidates@[j].ip)
                || candidates@[j] == candidates@[0],
        },
{
    if candidates.len() == 0 {
        return (None, None);
    }
    let first = candidates[0];
    let mut i: usize = 0;
    while i < candidates.len()
        invariant
            candidates@.len() > 0,
            first == candidates@[0],
            0 <= i <= candidates@.len(),
            forall|j: int| 0 <= j < i ==> crate::addr::spec_is_loopback(#[trigger] candidates@[j].ip)
                || candidates@[j] == candidates@[0],
        decreases candidates@.len() - i,
    {
        let c = candidates[i];
        if !c.is_loopback() && !c.same_as(&first) {
            return (Some(first), Some(c));
        }
        i = i + 1;
    }
    (Some(first), None)
}

} // verus!
