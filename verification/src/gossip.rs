//! Peer tables: the gossip table of known peer routes and the table of peers
//! discovered on the local network.

use vstd::prelude::*;
use crate::table::Table;
use crate::time::now_ms;
use crate::text::{decimal, push_decimal, push_str, str_eq, to_owned_string};

verus! {

/// A route to a peer as exchanged by gossip.
#[derive(Debug)]
pub struct PeerGossipEntry {
    pub user_id: String,
    pub public_key_hex: String,
    pub endpoint: String,
    pub last_seen_ms: u64,
    pub nat_type: String,
}

impl Clone for PeerGossipEntry {
    fn clone(&self) -> (res: Self)
        ensures
            res == *self,
    {
        PeerGossipEntry {
            user_id: self.user_id.clone(),
            public_key_hex: self.public_key_hex.clone(),
            endpoint: self.endpoint.clone(),
            last_seen_ms: self.last_seen_ms,
            nat_type: self.nat_type.clone(),
        }
    }
}

/// A peer discovered on the local network (Wi-Fi or LAN) without any
/// central server.
#[derive(Debug)]
pub struct DiscoveredLanPeer {
    pub user_id: String,
    pub display_name: String,
    pub endpoint: String,
    pub public_key_hex: String,
    pub last_seen_ms: u64,
}

impl Clone for DiscoveredLanPeer {
    fn clone(&self) -> (res: Self)
        ensures
            res == *self,
    {
        DiscoveredLanPeer {
            user_id: self.user_id.clone(),
            display_name: self.display_name.clone(),
            endpoint: self.endpoint.clone(),
            public_key_hex: self.public_key_hex.clone(),
            last_seen_ms: self.last_seen_ms,
        }
    }
}

/// The effect of one gossip entry on the table: routes of this node are
/// ignored, unknown peers are added, known peers are replaced only by a
/// strictly fresher entry. The flag says whether the table changed.
pub open spec fn merge_one(
    m: Map<Seq<char>, PeerGossipEntry>,
    e: PeerGossipEntry,
    me: Seq<char>,
) -> (Map<Seq<char>, PeerGossipEntry>, bool) {
    if e.user_id@ == me {
        (m, false)
    } else if m.contains_key(e.user_id@) {
        if e.last_seen_ms > m[e.user_id@].last_seen_ms {
            (m.insert(e.user_id@, e), true)
        } else {
            (m, false)
        }
    } else {
        (m.insert(e.user_id@, e), true)
    }
}

/// The table after merging `s` in order, with the number of entries taken.
pub open spec fn merge_all(
    m: Map<Seq<char>, PeerGossipEntry>,
    s: Seq<PeerGossipEntry>,
    me: Seq<char>,
) -> (Map<Seq<char>, PeerGossipEntry>, nat)
    decreases s.len(),
{
    if s.len() == 0 {
        (m, 0)
    } else {
        let (m1, c1) = merge_all(m, s.drop_last(), me);
        let (m2, b) = merge_one(m1, s.last(), me);
        (m2, c1 + if b { 1nat } else { 0nat })
    }
}

/// The table already holds a route to `e`'s peer at least as fresh as `e`
/// (or `e` is a route to this node).
pub open spec fn covers(m: Map<Seq<char>, PeerGossipEntry>, e: PeerGossipEntry, me: Seq<char>) -> bool {
    e.user_id@ == me || (m.contains_key(e.user_id@) && m[e.user_id@].last_seen_ms >= e.last_seen_ms)
}

proof fn lemma_merge_keeps_cover(m: Map<Seq<char>, PeerGossipEntry>, s: Seq<PeerGossipEntry>, me: Seq<char>, e: PeerGossipEntry)
    requires
        covers(m, e, me),
    ensures
        covers(merge_all(m, s, me).0, e, me),
    decreases s.len(),
{
    if s.len() > 0 {
        lemma_merge_keeps_cover(m, s.drop_last(), me, e);
    }
}

proof fn lemma_merge_covers_all(m: Map<Seq<char>, PeerGossipEntry>, s: Seq<PeerGossipEntry>, me: Seq<char>)
    ensures
        forall|i: int| 0 <= i < s.len() ==> covers(merge_all(m, s, me).0, #[trigger] s[i], me),
    decreases s.len(),
{
    if s.len() > 0 {
        let p = s.drop_last();
        lemma_merge_covers_all(m, p, me);
        let m1 = merge_all(m, p, me).0;
        assert forall|i: int| 0 <= i < s.len() implies covers(merge_all(m, s, me).0, #[trigger] s[i], me) by {
            if i < s.len() - 1 {
                assert(s[i] == p[i]);
                lemma_merge_keeps_cover(m1, seq![s.last()], me, s[i]);
                assert(seq![s.last()].drop_last() =~= Seq::<PeerGossipEntry>::empty());
            }
        }
    }
}

proof fn lemma_merge_covered_is_noop(m: Map<Seq<char>, PeerGossipEntry>, s: Seq<PeerGossipEntry>, me: Seq<char>)
    requires
        forall|i: int| 0 <= i < s.len() ==> covers(m, #[trigger] s[i], me),
    ensures
        merge_all(m, s, me) == (m, 0nat),
    decreases s.len(),
{
    if s.len() > 0 {
        let p = s.drop_last();
        assert forall|i: int| 0 <= i < p.len() implies covers(m, #[trigger] p[i], me) by {
            assert(p[i] == s[i]);
        }
        lemma_merge_covered_is_noop(m, p, me);
        assert(covers(m, s[s.len() - 1], me));
    }
}

/// Merging the same gossip table a second time changes nothing and takes
/// no entry: every route it carries is already covered.
pub proof fn lemma_merge_idempotent(m: Map<Seq<char>, PeerGossipEntry>, s: Seq<PeerGossipEntry>, me: Seq<char>)
    ensures
        merge_all(merge_all(m, s, me).0, s, me) == (merge_all(m, s, me).0, 0nat),
{
    lemma_merge_covers_all(m, s, me);
    lemma_merge_covered_is_noop(merge_all(m, s, me).0, s, me);
}

proof fn lemma_merge_count_bound(m: Map<Seq<char>, PeerGossipEntry>, s: Seq<PeerGossipEntry>, me: Seq<char>)
    ensures
        merge_all(m, s, me).1 <= s.len(),
    decreases s.len(),
{
    if s.len() > 0 {
        lemma_merge_count_bound(m, s.drop_last(), me);
    }
}

/// Gossip manager that exchanges known peer addresses and routes.
pub struct GossipManager {
    my_user_id: String,
    peer_table: Table<PeerGossipEntry>,
}

impl GossipManager {
    pub closed spec fn wf(&self) -> bool {
        &&& self.peer_table.wf()
        &&& !self.peer_table.view().contains_key(self.my_user_id@)
        &&& forall|k: Seq<char>| #[trigger] self.peer_table.view().contains_key(k) ==> self.peer_table.view()[k].user_id@ == k
    }

    pub closed spec fn me(&self) -> Seq<char> {
        self.my_user_id@
    }

    /// The known routes by user id.
    pub closed spec fn table(&self) -> Map<Seq<char>, PeerGossipEntry> {
        self.peer_table.view()
    }

    /// The table never holds this node, and each route is filed under its
    /// own user id.
    pub proof fn lemma_wf(&self)
        requires
            self.wf(),
        ensures
            !self.table().contains_key(self.me()),
            forall|k: Seq<char>| #[trigger] self.table().contains_key(k) ==> self.table()[k].user_id@ == k,
    {
    }

    pub fn new(my_user_id: String) -> (res: Self)
        ensures
            res.wf(),
            res.me() == my_user_id@,
            res.table() == Map::<Seq<char>, PeerGossipEntry>::empty(),
    {
        GossipManager { my_user_id, peer_table: Table::new() }
    }

    /// Adds or replaces a peer in the local gossip table; this node itself is
    /// never added.
    pub fn update_peer(&mut self, entry: PeerGossipEntry)
        requires
            old(self).wf(),
        ensures
            final(self).wf(),
            final(self).me() == old(self).me(),
            final(self).table() == if entry.user_id@ == old(self).me() {
                old(self).table()
            } else {
                old(self).table().insert(entry.user_id@, entry)
            },
    {
        if entry.user_id != self.my_user_id {
            let key = entry.user_id.clone();
            self.peer_table.insert(key, entry);
        }
    }

    /// Merges a table received from a remote peer: unknown peers are added
    /// and known ones replaced by strictly fresher routes. Returns how many
    /// entries were taken.
    pub fn merge_gossip_table(&mut self, incoming: Vec<PeerGossipEntry>) -> (res: usize)
        requires
            old(self).wf(),
        ensures
            final(self).wf(),
            final(self).me() == old(self).me(),
            (final(self).table(), res as nat) == merge_all(old(self).table(), incoming@, old(self).me()),
    {
        let ghost m0 = self.peer_table.view();
        let ghost s = incoming@;
        let mut updated_count: usize = 0;
        let mut incoming = incoming;
        let mut i: usize = 0;
        let n = incoming.len();
        while incoming.len() > 0
            invariant
                self.wf(),
                self.me() == old(self).me(),
                n == s.len(),
                i + incoming@.len() == n,
                incoming@ == s.subrange(i as int, n as int),
                (self.table(), updated_count as nat) == merge_all(m0, s.take(i as int), old(self).me()),
                updated_count <= i,
            decreases incoming@.len(),
        {
            let entry = incoming.remove(0);
            proof {
                assert(entry == s[i as int]);
                assert(s.take(i + 1).drop_last() =~= s.take(i as int));
                assert(s.take(i + 1).last() == s[i as int]);
                assert(incoming@ =~= s.subrange(i + 1, n as int));
            }
            if entry.user_id != self.my_user_id {
                match self.peer_table.get(entry.user_id.as_str()) {
                    Some(existing) => {
                        if entry.last_seen_ms > existing.last_seen_ms {
                            let key = entry.user_id.clone();
                            self.peer_table.insert(key, entry);
                            updated_count = updated_count + 1;
                        }
                    },
                    None => {
                        let key = entry.user_id.clone();
                        self.peer_table.insert(key, entry);
                        updated_count = updated_count + 1;
                    },
                }
            }
            i = i + 1;
        }
        proof {
            assert(s.take(n as int) =~= s);
        }
        updated_count
    }

    /// Up to `limit` known routes to send in a gossip packet, in the table's
    /// order.
    pub fn sample_peers_for_gossip(&self, limit: usize) -> (res: Vec<PeerGossipEntry>)
        requires
            self.wf(),
        ensures
            res@.len() == if limit < self.table().dom().len() { limit as int } else { self.table().dom().len() as int },
            forall|a: int| 0 <= a < res@.len() ==> #[trigger] self.table().contains_key(res@[a].user_id@)
                && self.table()[res@[a].user_id@] == res@[a],
            forall|a: int, b: int| 0 <= a < res@.len() && 0 <= b < res@.len() && a != b ==> #[trigger] res@[a].user_id@ != #[trigger] res@[b].user_id@,
    {
        let n = self.peer_table.len();
        proof {
            self.peer_table.lemma_entries();
        }
        let ghost es = self.peer_table.entries();
        let mut res: Vec<PeerGossipEntry> = Vec::new();
        let mut i: usize = 0;
        while i < n && i < limit
            invariant
                n == es.len(),
                es == self.peer_table.entries(),
                self.wf(),
                0 <= i <= n,
                i <= limit,
                res@.len() == i,
                forall|a: int| 0 <= a < i ==> res@[a] == #[trigger] es[a].1,
            decreases n - i,
        {
            res.push(self.peer_table.entry(i).1.clone());
            i = i + 1;
        }
        proof {
            let m = self.peer_table.view();
            assert forall|a: int| 0 <= a < res@.len() implies #[trigger] m.contains_key(res@[a].user_id@)
                && m[res@[a].user_id@] == res@[a] by {
                assert(m.contains_key(es[a].0@));
                assert(m[es[a].0@].user_id@ == es[a].0@);
            }
            assert forall|a: int, b: int| 0 <= a < res@.len() && 0 <= b < res@.len() && a != b implies #[trigger] res@[a].user_id@ != #[trigger] res@[b].user_id@ by {
                assert(m.contains_key(es[a].0@));
                assert(m.contains_key(es[b].0@));
                assert(es[a].0@ != es[b].0@);
            }
        }
        res
    }

    /// Total number of known peers in the routing table.
    pub fn peer_count(&self) -> (res: usize)
        requires
            self.wf(),
        ensures
            res == self.table().dom().len(),
    {
        self.peer_table.len()
    }
}

/// How long a LAN peer stays listed after its last beacon.
pub open spec fn lan_ttl_ms() -> u64 {
    10_000
}

/// A LAN peer seen at `last_seen` is still active at `current`.
pub open spec fn lan_fresh(current: u64, last_seen: u64) -> bool {
    (if current >= last_seen { current - last_seen } else { 0 }) < lan_ttl_ms()
}

/// The peers of `m` still fresh at `current`.
pub open spec fn fresh_at(m: Map<Seq<char>, DiscoveredLanPeer>, current: u64) -> Map<Seq<char>, DiscoveredLanPeer> {
    Map::new(|k: Seq<char>| m.contains_key(k) && lan_fresh(current, m[k].last_seen_ms), |k: Seq<char>| m[k])
}

/// Eviction after ten seconds of silence: at time `current`, a peer last
/// heard from at `current - 10000` or earlier is dropped, one heard from
/// later (or stamped after `current`) is kept unchanged, and no peer is
/// added.
pub proof fn lemma_fresh_at_evicts_after_ten_seconds(m: Map<Seq<char>, DiscoveredLanPeer>, current: u64)
    ensures
        forall|k: Seq<char>|
            #[trigger] m.contains_key(k) && m[k].last_seen_ms + 10_000 <= current ==> !fresh_at(m, current).contains_key(k),
        forall|k: Seq<char>|
            #[trigger] m.contains_key(k) && current < m[k].last_seen_ms + 10_000 ==> fresh_at(m, current).contains_key(k)
                && fresh_at(m, current)[k] == m[k],
        forall|k: Seq<char>| #[trigger] fresh_at(m, current).contains_key(k) ==> m.contains_key(k),
{
}

spec fn among(es: Seq<(String, DiscoveredLanPeer)>, i: int, k: Seq<char>) -> bool {
    exists|j: int| 0 <= j < i && es[j].0@ == k
}

/// Serverless LAN auto-discovery: the peers heard from on the local network.
/// The beacon broadcaster and listener stay with the application.
pub struct LanDiscovery {
    my_user_id: String,
    display_name: String,
    listening_port: u16,
    public_key_hex: String,
    peers: Table<DiscoveredLanPeer>,
}

/// The values of a table of LAN peers filed under their user ids, in the
/// table's order.
fn lan_values(t: &Table<DiscoveredLanPeer>) -> (res: Vec<DiscoveredLanPeer>)
    requires
        t.wf(),
        forall|k: Seq<char>| #[trigger] t.view().contains_key(k) ==> t.view()[k].user_id@ == k,
    ensures
        res@.len() == t.view().dom().len(),
        forall|a: int| 0 <= a < res@.len() ==> #[trigger] t.view().contains_key(res@[a].user_id@)
            && t.view()[res@[a].user_id@] == res@[a],
        forall|a: int, b: int| 0 <= a < res@.len() && 0 <= b < res@.len() && a != b ==> #[trigger] res@[a].user_id@ != #[trigger] res@[b].user_id@,
{
    let n = t.len();
    proof {
        t.lemma_entries();
    }
    let ghost es = t.entries();
    let mut res: Vec<DiscoveredLanPeer> = Vec::new();
    let mut i: usize = 0;
    while i < n
        invariant
            n == es.len(),
            es == t.entries(),
            0 <= i <= n,
            res@.len() == i,
            forall|a: int| 0 <= a < i ==> res@[a] == #[trigger] es[a].1,
        decreases n - i,
    {
        res.push(t.entry(i).1.clone());
        i = i + 1;
    }
    proof {
        let m = t.view();
        assert forall|a: int| 0 <= a < res@.len() implies #[trigger] m.contains_key(res@[a].user_id@)
            && m[res@[a].user_id@] == res@[a] by {
            assert(m.contains_key(es[a].0@));
        }
        assert forall|a: int, b: int| 0 <= a < res@.len() && 0 <= b < res@.len() && a != b implies #[trigger] res@[a].user_id@ != #[trigger] res@[b].user_id@ by {
            assert(m.contains_key(es[a].0@));
            assert(m.contains_key(es[b].0@));
            assert(es[a].0@ != es[b].0@);
        }
    }
    res
}

impl LanDiscovery {
    pub closed spec fn wf(&self) -> bool {
        &&& self.peers.wf()
        &&& !self.peers.view().contains_key(self.my_user_id@)
        &&& forall|k: Seq<char>| #[trigger] self.peers.view().contains_key(k) ==> self.peers.view()[k].user_id@ == k
    }

    pub closed spec fn me(&self) -> Seq<char> {
        self.my_user_id@
    }

    /// The discovered peers by user id.
    pub closed spec fn table(&self) -> Map<Seq<char>, DiscoveredLanPeer> {
        self.peers.view()
    }

    /// The table never holds this node, and each peer is filed under its own
    /// user id.
    pub proof fn lemma_wf(&self)
        requires
            self.wf(),
        ensures
            !self.table().contains_key(self.me()),
            forall|k: Seq<char>| #[trigger] self.table().contains_key(k) ==> self.table()[k].user_id@ == k,
    {
    }

    pub fn new(my_user_id: String, display_name: String, listening_port: u16, public_key_hex: String) -> (res: Self)
        ensures
            res.wf(),
            res.me() == my_user_id@,
            res.table() == Map::<Seq<char>, DiscoveredLanPeer>::empty(),
    {
        LanDiscovery { my_user_id, display_name, listening_port, public_key_hex, peers: Table::new() }
    }

    /// The beacon this node broadcasts: its id, name, port and key.
    pub fn beacon_fields(&self) -> (res: (&String, &String, u16, &String))
        ensures
            res.0@ == self.me(),
    {
        (&self.my_user_id, &self.display_name, self.listening_port, &self.public_key_hex)
    }

    /// The marker that begins every beacon.
    pub open spec fn beacon_magic() -> Seq<char> {
        "BALABOL_LAN_BEACON"@
    }

    /// A beacon arrived at `now_ms` from the address `src_ip`: when it bears
    /// the marker and comes from another node, that node is recorded at
    /// `<src_ip>:<listening_port>`. Tells whether it was recorded.
    pub fn on_beacon(
        &mut self,
        magic: &str,
        user_id: String,
        display_name: String,
        listening_port: u16,
        public_key_hex: String,
        src_ip: &str,
        now_ms: u64,
    ) -> (res: bool)
        requires
            old(self).wf(),
        ensures
            final(self).wf(),
            final(self).me() == old(self).me(),
            res == (magic@ == Self::beacon_magic() && user_id@ != old(self).me()),
            !res ==> final(self).table() == old(self).table(),
            res ==> {
                &&& final(self).table().dom() == old(self).table().dom().insert(user_id@)
                &&& forall|k: Seq<char>| #[trigger] final(self).table().contains_key(k) && k != user_id@
                    ==> final(self).table()[k] == old(self).table()[k]
                &&& final(self).table()[user_id@].user_id == user_id
                &&& final(self).table()[user_id@].display_name == display_name
                &&& final(self).table()[user_id@].endpoint@ == src_ip@ + ":"@ + decimal(listening_port as nat)
                &&& final(self).table()[user_id@].public_key_hex == public_key_hex
                &&& final(self).table()[user_id@].last_seen_ms == now_ms
            },
    {
        if !str_eq(magic, "BALABOL_LAN_BEACON") || str_eq(user_id.as_str(), self.my_user_id.as_str()) {
            return false;
        }
        let mut endpoint = to_owned_string(src_ip);
        push_str(&mut endpoint, ":");
        push_decimal(&mut endpoint, listening_port as u64);
        let peer = DiscoveredLanPeer { user_id, display_name, endpoint, public_key_hex, last_seen_ms: now_ms };
        self.record_peer(peer);
        true
    }

    /// Adds or updates a peer heard from; this node itself is never added.
    pub fn record_peer(&mut self, peer: DiscoveredLanPeer)
        requires
            old(self).wf(),
        ensures
            final(self).wf(),
            final(self).me() == old(self).me(),
            final(self).table() == if peer.user_id@ == old(self).me() {
                old(self).table()
            } else {
                old(self).table().insert(peer.user_id@, peer)
            },
    {
        if peer.user_id != self.my_user_id {
            let key = peer.user_id.clone();
            self.peers.insert(key, peer);
        }
    }

    /// Forgets the peers not heard from within ten seconds of `current` and
    /// lists the others in the table's order.
    pub fn active_peers_at(&mut self, current: u64) -> (res: Vec<DiscoveredLanPeer>)
        requires
            old(self).wf(),
        ensures
            final(self).wf(),
            final(self).me() == old(self).me(),
            final(self).table() == fresh_at(old(self).table(), current),
            res@.len() == final(self).table().dom().len(),
            forall|a: int| 0 <= a < res@.len() ==> #[trigger] final(self).table().contains_key(res@[a].user_id@)
                && final(self).table()[res@[a].user_id@] == res@[a],
            forall|a: int, b: int| 0 <= a < res@.len() && 0 <= b < res@.len() && a != b ==> #[trigger] res@[a].user_id@ != #[trigger] res@[b].user_id@,
    {
        let ghost m0 = self.peers.view();
        let n = self.peers.len();
        proof {
            self.peers.lemma_entries();
        }
        let ghost es = self.peers.entries();
        let mut kept: Table<DiscoveredLanPeer> = Table::new();
        let mut i: usize = 0;
        while i < n
            invariant
                n == es.len(),
                es == self.peers.entries(),
                self.wf(),
                self.peers.view() == m0,
                kept.wf(),
                0 <= i <= n,
                forall|k: Seq<char>| #[trigger] kept.view().contains_key(k) == (among(es, i as int, k) && m0.contains_key(k) && lan_fresh(current, m0[k].last_seen_ms)),
                forall|k: Seq<char>| #[trigger] kept.view().contains_key(k) ==> kept.view()[k] == m0[k],
                forall|i: int, j: int| 0 <= i < n && 0 <= j < n && i != j ==> #[trigger] es[i].0@ != #[trigger] es[j].0@,
                forall|j: int| 0 <= j < n ==> #[trigger] m0.contains_key(es[j].0@) && m0[es[j].0@] == es[j].1,
                forall|k: Seq<char>| #[trigger] m0.contains_key(k) ==> among(es, n as int, k),
            decreases n - i,
        {
            let e = self.peers.entry(i);
            let age = current.saturating_sub(e.1.last_seen_ms);
            let ghost kk = es[i as int].0@;
            proof {
                assert(m0.contains_key(es[i as int].0@));
                assert(m0[kk] == es[i as int].1);
                assert forall|k: Seq<char>| #[trigger] among(es, i + 1, k) == (among(es, i as int, k) || k == kk) by {
                    if among(es, i + 1, k) {
                        let j = choose|j: int| 0 <= j < i + 1 && es[j].0@ == k;
                        if j < i {
                            assert(among(es, i as int, k));
                        }
                    }
                    if among(es, i as int, k) {
                        let j = choose|j: int| 0 <= j < i && es[j].0@ == k;
                        assert(0 <= j < i + 1 && es[j].0@ == k);
                    }
                    if k == kk {
                        assert(0 <= i < i + 1 && es[i as int].0@ == k);
                    }
                }
                assert(!among(es, i as int, kk)) by {
                    if among(es, i as int, kk) {
                        let j = choose|j: int| 0 <= j < i && es[j].0@ == kk;
                        assert(es[j].0@ != es[i as int].0@);
                    }
                }
            }
            if age < 10_000 {
                kept.insert(e.0.clone(), e.1.clone());
            }
            i = i + 1;
        }
        proof {
            assert(kept.view() =~= fresh_at(m0, current));
            assert(!kept.view().contains_key(self.my_user_id@));
        }
        self.peers = kept;
        lan_values(&self.peers)
    }

    /// The peers heard from within the last ten seconds; older ones are
    /// forgotten.
    pub fn get_active_peers(&mut self) -> (res: Vec<DiscoveredLanPeer>)
        requires
            old(self).wf(),
        ensures
            final(self).wf(),
            final(self).me() == old(self).me(),
            exists|current: u64| #[trigger] fresh_at(old(self).table(), current) == final(self).table(),
            res@.len() == final(self).table().dom().len(),
            forall|a: int| 0 <= a < res@.len() ==> #[trigger] final(self).table().contains_key(res@[a].user_id@)
                && final(self).table()[res@[a].user_id@] == res@[a],
    {
        let current = now_ms();
        self.active_peers_at(current)
    }
}

} // verus!
