//! Selective Forwarding Unit: leader election among peers by their composite
//! link score, heartbeat failover, multi-host clustering and media routing.

use vstd::prelude::*;
use crate::table::Table;
use vstd::string::StringSliceAdditionalSpecFns;
use vstd::arithmetic::power2::{pow2, lemma_pow2_pos, lemma_pow2_unfold, lemma_pow2_strictly_increases};
use crate::text::{push_decimal, push_str, str_eq, to_owned_string, decimal, names, distinct_names, contains_name};

verus! {

/// Why a routing request was refused.
#[derive(Debug)]
pub enum SfuError {
    RoomNotFound(String),
    UserNotSubscribed,
    NoEligiblePeers,
}

/// How reachable a peer is behind its NAT.
#[derive(Debug, Clone, Copy, PartialEq, Eq, Structural)]
pub enum NatType {
    /// Public IP or UPnP port mapped.
    Open,
    /// Cone NAT: easy hole punching.
    FullCone,
    /// Port-restricted cone NAT.
    Restricted,
    /// Symmetric NAT: cannot easily act as SFU router.
    Symmetric,
}

/// A peer's link metrics. The composite score (lower is better; see
/// `PeerScoreReport::composite_score` in the application) is carried as the
/// bits of its IEEE-754 single-precision value.
#[derive(Debug)]
pub struct PeerScoreReport {
    pub user_id: String,
    pub score_bits: u32,
    pub nat_type: NatType,
    pub last_ping_ms: u64,
}

impl Clone for PeerScoreReport {
    fn clone(&self) -> (res: Self)
        ensures
            res == *self,
    {
        PeerScoreReport {
            user_id: self.user_id.clone(),
            score_bits: self.score_bits,
            nat_type: self.nat_type,
            last_ping_ms: self.last_ping_ms,
        }
    }
}

/// A heartbeat from the current SFU leader.
#[derive(Debug)]
pub struct SfuHeartbeat {
    pub leader_id: String,
    pub term: u64,
    pub timestamp_ms: u64,
}

/// Announces that a silent leader has been replaced.
#[derive(Debug)]
pub struct FailoverNotice {
    pub new_leader_id: String,
    pub term: u64,
    pub previous_leader_id: String,
    pub reason: String,
}

/// The order key of a score: the IEEE-754 bits mapped so that unsigned
/// comparison of keys agrees with numeric comparison of the scores (negative
/// values have every bit flipped, others get the sign bit set).
pub open spec fn score_key(bits: u32) -> u32 {
    if bits & 0x8000_0000u32 != 0 { !bits } else { bits | 0x8000_0000u32 }
}

/// Computes `score_key`.
pub fn order_key(bits: u32) -> (res: u32)
    ensures
        res == score_key(bits),
{
    if bits & 0x8000_0000u32 != 0 { !bits } else { bits | 0x8000_0000u32 }
}

/// The bits of an IEEE-754 single below the sign bit.
pub open spec fn f32_low(bits: u32) -> int {
    bits as int % 0x8000_0000
}

/// The biased exponent field of an IEEE-754 single.
pub open spec fn f32_exponent(bits: u32) -> int {
    f32_low(bits) / 0x80_0000
}

/// The fraction field of an IEEE-754 single.
pub open spec fn f32_fraction(bits: u32) -> int {
    f32_low(bits) % 0x80_0000
}

/// The sign bit of an IEEE-754 single is set.
pub open spec fn f32_is_negative(bits: u32) -> bool {
    bits >= 0x8000_0000
}

/// The bits are those of a finite single (not an infinity or a NaN).
pub open spec fn f32_finite(bits: u32) -> bool {
    f32_exponent(bits) < 255
}

/// The magnitude that the low 31 bits `m` of a single stand for, in units
/// of 2^-149 (the least subnormal).
pub open spec fn magnitude_of_low(m: int) -> int {
    let e = m / 0x80_0000;
    let f = m % 0x80_0000;
    if e == 0 { f } else { (f + 0x80_0000) * pow2((e - 1) as nat) }
}

/// The value of finite single bits, in units of 2^-149.
pub open spec fn f32_scaled_value(bits: u32) -> int {
    let m = magnitude_of_low(f32_low(bits));
    if f32_is_negative(bits) { -m } else { m }
}

proof fn lemma_magnitude_strict(m1: int, m2: int)
    requires
        0 <= m1 < m2,
    ensures
        magnitude_of_low(m1) < magnitude_of_low(m2),
{
    let d: int = 0x80_0000;
    let e1 = m1 / d;
    let e2 = m2 / d;
    let f1 = m1 % d;
    let f2 = m2 % d;
    vstd::arithmetic::div_mod::lemma_fundamental_div_mod(m1, d);
    vstd::arithmetic::div_mod::lemma_fundamental_div_mod(m2, d);
    vstd::arithmetic::div_mod::lemma_div_is_ordered(m1, m2, d);
    assert(0 <= f1 < d && 0 <= f2 < d);
    assert(e1 >= 0);
    if e1 == e2 {
        assert(f1 < f2) by (nonlinear_arith)
            requires
                m1 == d * e1 + f1,
                m2 == d * e2 + f2,
                e1 == e2,
                m1 < m2,
        ;
        if e1 != 0 {
            let p = pow2((e1 - 1) as nat);
            lemma_pow2_pos((e1 - 1) as nat);
            assert((f1 + d) * p < (f2 + d) * p) by (nonlinear_arith)
                requires
                    f1 < f2,
                    p > 0,
            ;
        }
    } else {
        assert(e1 < e2);
        let p2 = pow2((e2 - 1) as nat);
        lemma_pow2_pos((e2 - 1) as nat);
        assert(d * p2 <= (f2 + d) * p2) by (nonlinear_arith)
            requires
                f2 >= 0,
                p2 > 0,
        ;
        if e1 == 0 {
            assert(d <= d * p2) by (nonlinear_arith)
                requires
                    p2 >= 1,
                    d > 0,
            ;
        } else {
            let p1 = pow2((e1 - 1) as nat);
            lemma_pow2_pos((e1 - 1) as nat);
            lemma_pow2_unfold(e1 as nat);
            assert(pow2(e1 as nat) <= p2) by {
                if e1 < e2 - 1 {
                    lemma_pow2_strictly_increases(e1 as nat, (e2 - 1) as nat);
                }
            }
            assert((f1 + d) * p1 < d * (2 * p1)) by (nonlinear_arith)
                requires
                    f1 < d,
                    p1 > 0,
            ;
            assert(d * pow2(e1 as nat) <= d * p2) by (nonlinear_arith)
                requires
                    pow2(e1 as nat) <= p2,
                    d > 0,
            ;
        }
    }
}

/// Order keys follow the numbers: of two finite scores, the smaller one has
/// the smaller key, so the peer ranked first has the numerically least
/// composite score.
pub proof fn lemma_order_key_follows_value(a: u32, b: u32)
    requires
        f32_finite(a),
        f32_finite(b),
        f32_scaled_value(a) < f32_scaled_value(b),
    ensures
        score_key(a) < score_key(b),
{
    assert(a & 0x8000_0000u32 != 0 <==> a >= 0x8000_0000u32) by (bit_vector);
    assert(b & 0x8000_0000u32 != 0 <==> b >= 0x8000_0000u32) by (bit_vector);
    assert(a >= 0x8000_0000u32 ==> !a == 0xFFFF_FFFFu32 - a) by (bit_vector);
    assert(b >= 0x8000_0000u32 ==> !b == 0xFFFF_FFFFu32 - b) by (bit_vector);
    assert(a < 0x8000_0000u32 ==> a | 0x8000_0000u32 == a + 0x8000_0000u32) by (bit_vector);
    assert(b < 0x8000_0000u32 ==> b | 0x8000_0000u32 == b + 0x8000_0000u32) by (bit_vector);
    let la = f32_low(a);
    let lb = f32_low(b);
    assert(a < 0x8000_0000u32 ==> la == a as int);
    assert(b < 0x8000_0000u32 ==> lb == b as int);
    assert(a >= 0x8000_0000u32 ==> la == a as int - 0x8000_0000);
    assert(b >= 0x8000_0000u32 ==> lb == b as int - 0x8000_0000);
    assert(magnitude_of_low(la) >= 0 && magnitude_of_low(lb) >= 0) by {
        lemma_pow2_pos((la / 0x80_0000 - 1) as nat);
        lemma_pow2_pos((lb / 0x80_0000 - 1) as nat);
        let pa = pow2((la / 0x80_0000 - 1) as nat);
        let pb = pow2((lb / 0x80_0000 - 1) as nat);
        assert((la % 0x80_0000 + 0x80_0000) * pa >= 0) by (nonlinear_arith)
            requires
                la % 0x80_0000 >= 0,
                pa > 0,
        ;
        assert((lb % 0x80_0000 + 0x80_0000) * pb >= 0) by (nonlinear_arith)
            requires
                lb % 0x80_0000 >= 0,
                pb > 0,
        ;
    }
    if !f32_is_negative(a) && !f32_is_negative(b) {
        if lb <= la {
            if lb < la {
                lemma_magnitude_strict(lb, la);
            }
        }
    } else if f32_is_negative(a) && f32_is_negative(b) {
        if la <= lb {
            if la < lb {
                lemma_magnitude_strict(la, lb);
            }
        }
    }
}

/// A best-scored peer has the numerically least score: no peer with a
/// finite score scores strictly less than a best peer with a finite score.
pub proof fn lemma_best_has_least_score(m: Map<Seq<char>, PeerScoreReport>, id: Seq<char>)
    requires
        is_best(m, id),
        f32_finite(m[id].score_bits),
    ensures
        forall|k: Seq<char>|
            #[trigger] m.contains_key(k) && f32_finite(m[k].score_bits) ==> f32_scaled_value(m[id].score_bits)
                <= f32_scaled_value(m[k].score_bits),
{
    assert forall|k: Seq<char>| #[trigger] m.contains_key(k) && f32_finite(m[k].score_bits) implies f32_scaled_value(
        m[id].score_bits,
    ) <= f32_scaled_value(m[k].score_bits) by {
        if f32_scaled_value(m[k].score_bits) < f32_scaled_value(m[id].score_bits) {
            lemma_order_key_follows_value(m[k].score_bits, m[id].score_bits);
        }
    }
}

/// The key of a peer's report.
pub open spec fn key_of(r: PeerScoreReport) -> u32 {
    score_key(r.score_bits)
}

/// `id` is a best-scored peer of `m`.
pub open spec fn is_best(m: Map<Seq<char>, PeerScoreReport>, id: Seq<char>) -> bool {
    &&& m.contains_key(id)
    &&& forall|k: Seq<char>| #[trigger] m.contains_key(k) ==> key_of(m[id]) <= key_of(m[k])
}

/// `id` is a best-scored peer of `m` other than `first`.
pub open spec fn is_second(m: Map<Seq<char>, PeerScoreReport>, first: Seq<char>, id: Seq<char>) -> bool {
    &&& m.contains_key(id)
    &&& id != first
    &&& forall|k: Seq<char>| #[trigger] m.contains_key(k) && k != first ==> key_of(m[id]) <= key_of(m[k])
}

/// The leader and runner-up are the two best-scored peers of `m` (the
/// runner-up is absent when the leader is the only peer).
pub open spec fn ranked(m: Map<Seq<char>, PeerScoreReport>, leader: Option<String>, runner_up: Option<String>) -> bool {
    match leader {
        Some(l) => {
            &&& is_best(m, l@)
            &&& match runner_up {
                Some(r) => is_second(m, l@, r@),
                None => forall|k: Seq<char>| #[trigger] m.contains_key(k) ==> k == l@,
            }
        },
        None => false,
    }
}

/// The reason text of a heartbeat failover after `elapsed` milliseconds.
pub open spec fn timeout_reason(elapsed: nat) -> Seq<char> {
    "Heartbeat timeout ("@ + decimal(elapsed) + "ms > 1000ms)"@
}

/// Raft-inspired dynamic leader election for P2P SFU supernodes.
/// Monitors peer latencies and automatically promotes the best available node.
pub struct SfuElectionManager {
    my_user_id: String,
    term: u64,
    current_leader: Option<String>,
    runner_up: Option<String>,
    last_heartbeat_ms: u64,
    peer_scores: Table<PeerScoreReport>,
}

impl SfuElectionManager {
    pub closed spec fn wf(&self) -> bool {
        self.peer_scores.wf()
    }

    /// This node's user id.
    pub closed spec fn me(&self) -> Seq<char> {
        self.my_user_id@
    }

    /// The election term.
    pub closed spec fn term(&self) -> u64 {
        self.term
    }

    /// The leader this node believes in.
    pub closed spec fn leader(&self) -> Option<String> {
        self.current_leader
    }

    /// The second-best peer.
    pub closed spec fn second(&self) -> Option<String> {
        self.runner_up
    }

    /// When the last heartbeat (or the start of tracking) was seen.
    pub closed spec fn last_heartbeat(&self) -> u64 {
        self.last_heartbeat_ms
    }

    /// The latest report of each peer, by user id.
    pub closed spec fn peers(&self) -> Map<Seq<char>, PeerScoreReport> {
        self.peer_scores.view()
    }

    /// Whether this node is the leader it believes in.
    pub open spec fn leads(&self) -> bool {
        self.leader() matches Some(l) && l@ == self.me()
    }

    pub fn new(my_user_id: String) -> (res: Self)
        ensures
            res.wf(),
            res.me() == my_user_id@,
            res.term() == 1,
            res.leader() is None,
            res.second() is None,
            res.last_heartbeat() == 0,
            res.peers() == Map::<Seq<char>, PeerScoreReport>::empty(),
    {
        SfuElectionManager {
            my_user_id,
            term: 1,
            current_leader: None,
            runner_up: None,
            last_heartbeat_ms: 0,
            peer_scores: Table::new(),
        }
    }

    pub fn current_leader(&self) -> (res: Option<&String>)
        ensures
            match res {
                Some(l) => self.leader() == Some(*l),
                None => self.leader() is None,
            },
    {
        self.current_leader.as_ref()
    }

    pub fn runner_up(&self) -> (res: Option<&String>)
        ensures
            match res {
                Some(r) => self.second() == Some(*r),
                None => self.second() is None,
            },
    {
        self.runner_up.as_ref()
    }

    pub fn is_current_node_sfu(&self) -> (res: bool)
        ensures
            res == self.leads(),
    {
        match &self.current_leader {
            Some(l) => *l == self.my_user_id,
            None => false,
        }
    }

    /// Records updated latency/NAT metrics for a peer in the room, then ranks
    /// the peers again.
    pub fn update_peer_score(&mut self, report: PeerScoreReport)
        requires
            old(self).wf(),
        ensures
            final(self).wf(),
            final(self).peers() == old(self).peers().insert(report.user_id@, report),
            ranked(final(self).peers(), final(self).leader(), final(self).second()),
            final(self).me() == old(self).me(),
            final(self).term() == old(self).term(),
            final(self).last_heartbeat() == old(self).last_heartbeat(),
    {
        let key = report.user_id.clone();
        self.peer_scores.insert(key, report);
        proof {
            assert(self.peer_scores.view().contains_key(report.user_id@));
            self.peer_scores.lemma_entries();
        }
        self.recalculate_leaders();
    }

    /// Removes a peer when disconnected; a departing leader is forgotten.
    pub fn remove_peer(&mut self, user_id: &str)
        requires
            old(self).wf(),
        ensures
            final(self).wf(),
            final(self).peers() == old(self).peers().remove(user_id@),
            final(self).peers().dom().len() > 0 ==> ranked(
                final(self).peers(),
                final(self).leader(),
                final(self).second(),
            ),
            final(self).peers().dom().len() == 0 ==> {
                &&& final(self).second() == old(self).second()
                &&& final(self).leader() == (if old(self).leader() matches Some(l) && l@ == user_id@ {
                    None
                } else {
                    old(self).leader()
                })
            },
            final(self).me() == old(self).me(),
            final(self).term() == old(self).term(),
            final(self).last_heartbeat() == old(self).last_heartbeat(),
    {
        let _ = self.peer_scores.remove(user_id);
        let leader_left = match &self.current_leader {
            Some(l) => str_eq(l.as_str(), user_id),
            None => false,
        };
        if leader_left {
            self.current_leader = None;
        }
        self.recalculate_leaders();
    }

    /// Ranks the peers by score: the best becomes leader, the next runner-up.
    /// With no peers nothing changes.
    pub fn recalculate_leaders(&mut self)
        requires
            old(self).wf(),
        ensures
            final(self).wf(),
            final(self).peers() == old(self).peers(),
            old(self).peers().dom().len() > 0 ==> ranked(
                final(self).peers(),
                final(self).leader(),
                final(self).second(),
            ),
            old(self).peers().dom().len() == 0 ==> final(self).leader() == old(self).leader()
                && final(self).second() == old(self).second(),
            final(self).me() == old(self).me(),
            final(self).term() == old(self).term(),
            final(self).last_heartbeat() == old(self).last_heartbeat(),
    {
        let n = self.peer_scores.len();
        if n == 0 {
            return;
        }
        let ghost es = self.peer_scores.entries();
        let mut best: usize = 0;
        let mut i: usize = 1;
        while i < n
            invariant
                n == es.len(),
                es == self.peer_scores.entries(),
                0 <= best < n,
                1 <= i <= n,
                forall|j: int| 0 <= j < i ==> key_of(es[best as int].1) <= key_of(es[j].1),
            decreases n - i,
        {
            if order_key(self.peer_scores.entry(i).1.score_bits) < order_key(
                self.peer_scores.entry(best).1.score_bits,
            ) {
                best = i;
            }
            i = i + 1;
        }
        let mut second: Option<usize> = None;
        let mut i: usize = 0;
        while i < n
            invariant
                n == es.len(),
                es == self.peer_scores.entries(),
                0 <= best < n,
                0 <= i <= n,
                match second {
                    Some(s) => s < n && s != best && forall|j: int|
                        0 <= j < i && j != best ==> key_of(es[s as int].1) <= key_of(es[j].1),
                    None => i == 0 || (i == 1 && best == 0),
                },
            decreases n - i,
        {
            if i != best {
                match second {
                    Some(s) => {
                        if order_key(self.peer_scores.entry(i).1.score_bits) < order_key(
                            self.peer_scores.entry(s).1.score_bits,
                        ) {
                            second = Some(i);
                        }
                    },
                    None => {
                        second = Some(i);
                    },
                }
            }
            i = i + 1;
        }
        let leader = self.peer_scores.entry(best).0.clone();
        let runner = match second {
            Some(s) => Some(self.peer_scores.entry(s).0.clone()),
            None => None,
        };
        proof {
            self.peer_scores.lemma_entries();
            let m = self.peer_scores.view();
            assert(m.contains_key(es[best as int].0@));
            assert forall|k: Seq<char>| #[trigger] m.contains_key(k) implies key_of(m[es[best as int].0@]) <= key_of(m[k]) by {
                let j = choose|j: int| 0 <= j < es.len() && es[j].0@ == k;
                assert(m.contains_key(es[j].0@));
            }
            assert(is_best(m, leader@));
            match second {
                Some(s) => {
                    assert(m.contains_key(es[s as int].0@));
                    assert(es[s as int].0@ != es[best as int].0@);
                    assert forall|k: Seq<char>| #[trigger] m.contains_key(k) && k != leader@ implies key_of(m[es[s as int].0@]) <= key_of(m[k]) by {
                        let j = choose|j: int| 0 <= j < es.len() && es[j].0@ == k;
                        assert(m.contains_key(es[j].0@));
                    }
                },
                None => {
                    assert forall|k: Seq<char>| #[trigger] m.contains_key(k) implies k == leader@ by {
                        let j = choose|j: int| 0 <= j < es.len() && es[j].0@ == k;
                        assert(j == best);
                    }
                },
            }
        }
        self.current_leader = Some(leader);
        self.runner_up = runner;
    }

    /// Records a heartbeat from the SFU leader: one of the current or a later
    /// term is adopted, an older one is ignored.
    pub fn handle_heartbeat(&mut self, heartbeat: SfuHeartbeat)
        requires
            old(self).wf(),
        ensures
            final(self).wf(),
            heartbeat.term >= old(self).term() ==> {
                &&& final(self).term() == heartbeat.term
                &&& final(self).leader() == Some(heartbeat.leader_id)
                &&& final(self).last_heartbeat() == heartbeat.timestamp_ms
            },
            heartbeat.term < old(self).term() ==> {
                &&& final(self).term() == old(self).term()
                &&& final(self).leader() == old(self).leader()
                &&& final(self).last_heartbeat() == old(self).last_heartbeat()
            },
            final(self).second() == old(self).second(),
            final(self).peers() == old(self).peers(),
            final(self).me() == old(self).me(),
    {
        if heartbeat.term >= self.term {
            self.term = heartbeat.term;
            self.current_leader = Some(heartbeat.leader_id);
            self.last_heartbeat_ms = heartbeat.timestamp_ms;
        }
    }

    /// Checks for SFU timeout. When this node is not the leader and more than
    /// 1000 ms have passed since the last heartbeat, the runner-up (or this node
    /// when there is none) is promoted in a new term, the silent leader's score
    /// is dropped and the peers are ranked again.
    pub fn check_heartbeat_timeout(&mut self, current_time_ms: u64) -> (res: Option<FailoverNotice>)
        requires
            old(self).wf(),
            old(self).term() < u64::MAX,
        ensures
            final(self).wf(),
            final(self).me() == old(self).me(),
            res is Some <==> !old(self).leads() && old(self).last_heartbeat() != 0
                && current_time_ms - old(self).last_heartbeat() > 1000,
            old(self).leads() ==> *final(self) == *old(self),
            !old(self).leads() && old(self).last_heartbeat() == 0 ==> {
                &&& final(self).last_heartbeat() == current_time_ms
                &&& final(self).term() == old(self).term()
                &&& final(self).leader() == old(self).leader()
                &&& final(self).second() == old(self).second()
                &&& final(self).peers() == old(self).peers()
            },
            !old(self).leads() && old(self).last_heartbeat() != 0 && current_time_ms
                - old(self).last_heartbeat() <= 1000 ==> *final(self) == *old(self),
            res matches Some(notice) ==> {
                let prev: Seq<char> = match old(self).leader() {
                    Some(l) => l@,
                    None => "none"@,
                };
                let promoted: Seq<char> = match old(self).second() {
                    Some(r) => r@,
                    None => old(self).me(),
                };
                &&& notice.previous_leader_id@ == prev
                &&& notice.new_leader_id@ == promoted
                &&& notice.term == old(self).term() + 1
                &&& notice.reason@ == timeout_reason(
                    (current_time_ms - old(self).last_heartbeat()) as nat,
                )
                &&& final(self).term() == old(self).term() + 1
                &&& final(self).last_heartbeat() == current_time_ms
                &&& final(self).peers() == old(self).peers().remove(prev)
                &&& final(self).peers().dom().len() > 0 ==> ranked(
                    final(self).peers(),
                    final(self).leader(),
                    final(self).second(),
                )
                &&& final(self).peers().dom().len() == 0 ==> {
                    &&& final(self).leader() matches Some(l) && l@ == promoted
                    &&& final(self).second() == old(self).second()
                }
            },
    {
        if self.is_current_node_sfu() {
            return None;
        }
        if self.last_heartbeat_ms == 0 {
            self.last_heartbeat_ms = current_time_ms;
            return None;
        }
        let elapsed = current_time_ms.saturating_sub(self.last_heartbeat_ms);
        if elapsed > 1000 {
            let prev_leader = match &self.current_leader {
                Some(l) => l.clone(),
                None => to_owned_string("none"),
            };
            let new_leader = match &self.runner_up {
                Some(r) => r.clone(),
                None => self.my_user_id.clone(),
            };
            self.term = self.term + 1;
            self.current_leader = Some(new_leader.clone());
            self.last_heartbeat_ms = current_time_ms;
            let _ = self.peer_scores.remove(prev_leader.as_str());
            self.recalculate_leaders();
            let mut reason = to_owned_string("Heartbeat timeout (");
            push_decimal(&mut reason, elapsed);
            push_str(&mut reason, "ms > 1000ms)");
            return Some(
                FailoverNotice {
                    new_leader_id: new_leader,
                    term: self.term,
                    previous_leader_id: prev_leader,
                    reason,
                },
            );
        }
        None
    }
}

/// The sum of the bytes of `s`.
pub open spec fn byte_sum(s: Seq<u8>) -> nat
    decreases s.len(),
{
    if s.len() == 0 {
        0
    } else {
        byte_sum(s.drop_last()) + s.last() as nat
    }
}

proof fn lemma_byte_sum_bound(s: Seq<u8>)
    ensures
        byte_sum(s) <= 255 * s.len(),
    decreases s.len(),
{
    if s.len() > 0 {
        lemma_byte_sum_bound(s.drop_last());
    }
}

/// The hosts that a cluster of `max_hosts` would have: `res` lists the
/// best-scored peers of `m`, best first.
pub open spec fn cluster_hosts(m: Map<Seq<char>, PeerScoreReport>, max_hosts: usize, res: Seq<String>) -> bool {
    let want = if max_hosts > 1 { max_hosts as int } else { 1 };
    &&& res.len() == if want < m.dom().len() { want } else { m.dom().len() as int }
    &&& distinct_names(res)
    &&& forall|a: int| 0 <= a < res.len() ==> #[trigger] m.contains_key(res[a]@)
    &&& forall|a: int, b: int| 0 <= a < b < res.len() ==> key_of(m[res[a]@]) <= key_of(m[res[b]@])
    &&& forall|a: int, k: Seq<char>|
        0 <= a < res.len() && #[trigger] m.contains_key(k) && !names(res).contains(k) ==> key_of(
            m[#[trigger] res[a]@],
        ) <= key_of(m[k])
}

impl SfuElectionManager {
    /// Elects up to `max_hosts` (at least one) hosts for a large group room:
    /// the best-scored peers, best first.
    pub fn elect_cluster_hosts(&self, max_hosts: usize) -> (res: Vec<String>)
        requires
            self.wf(),
        ensures
            cluster_hosts(self.peers(), max_hosts, res@),
    {
        let want: usize = if max_hosts > 1 { max_hosts } else { 1 };
        let n = self.peer_scores.len();
        let ghost es = self.peer_scores.entries();
        proof {
            self.peer_scores.lemma_entries();
        }
        let mut used: Vec<bool> = Vec::new();
        let mut i: usize = 0;
        while i < n
            invariant
                0 <= i <= n,
                used@.len() == i,
                forall|j: int| 0 <= j < i ==> !used@[j],
            decreases n - i,
        {
            used.push(false);
            i = i + 1;
        }
        let mut res: Vec<String> = Vec::new();
        let ghost mut chosen: Seq<int> = Seq::empty();
        while res.len() < want && res.len() < n
            invariant
                n == es.len(),
                es == self.peer_scores.entries(),
                used@.len() == n,
                res@.len() == chosen.len(),
                res@.len() <= n,
                res@.len() <= want,
                want >= 1,
                want == if max_hosts > 1 { max_hosts } else { 1 },
                n == self.peers().dom().len(),
                forall|a: int| 0 <= a < chosen.len() ==> 0 <= #[trigger] chosen[a] < n,
                forall|a: int| 0 <= a < chosen.len() ==> res@[a]@ == es[#[trigger] chosen[a]].0@,
                forall|a: int, b: int| 0 <= a < b < chosen.len() ==> chosen[a] != chosen[b],
                forall|j: int| 0 <= j < n ==> (used@[j] <==> exists|a: int| 0 <= a < chosen.len() && chosen[a] == j),
                forall|a: int, b: int| 0 <= a < b < chosen.len() ==> key_of(es[chosen[a]].1) <= key_of(es[chosen[b]].1),
                forall|a: int, j: int|
                    0 <= a < chosen.len() && 0 <= j < n && !used@[j] ==> key_of(es[#[trigger] chosen[a]].1) <= key_of(#[trigger] es[j].1),
                forall|i: int, j: int| 0 <= i < n && 0 <= j < n && i != j ==> #[trigger] es[i].0@ != #[trigger] es[j].0@,
            decreases n - res@.len(),
        {
            // some index is unused, since fewer than n were chosen
            let mut pick: Option<usize> = None;
            let mut j: usize = 0;
            while j < n
                invariant
                    n == es.len(),
                    es == self.peer_scores.entries(),
                    used@.len() == n,
                    0 <= j <= n,
                    match pick {
                        Some(p) => p < n && !used@[p as int] && forall|q: int| 0 <= q < j && !used@[q] ==> key_of(es[p as int].1) <= key_of(es[q].1),
                        None => forall|q: int| 0 <= q < j ==> used@[q],
                    },
                decreases n - j,
            {
                if !used[j] {
                    match pick {
                        Some(p) => {
                            if order_key(self.peer_scores.entry(j).1.score_bits) < order_key(self.peer_scores.entry(p).1.score_bits) {
                                pick = Some(j);
                            }
                        },
                        None => {
                            pick = Some(j);
                        },
                    }
                }
                j = j + 1;
            }
            match pick {
                Some(p) => {
                    let ghost old_chosen = chosen;
                    let ghost old_used = used@;
                    used.set(p, true);
                    res.push(self.peer_scores.entry(p).0.clone());
                    proof {
                        chosen = chosen.push(p as int);
                        assert forall|q: int| 0 <= q < n implies (used@[q] <==> exists|a: int| 0 <= a < chosen.len() && chosen[a] == q) by {
                            if q != p {
                                if old_used[q] {
                                    let a = choose|a: int| 0 <= a < old_chosen.len() && old_chosen[a] == q;
                                    assert(chosen[a] == q);
                                }
                                if exists|a: int| 0 <= a < chosen.len() && chosen[a] == q {
                                    let a = choose|a: int| 0 <= a < chosen.len() && chosen[a] == q;
                                    assert(old_chosen[a] == q);
                                }
                            } else {
                                assert(chosen[chosen.len() - 1] == q);
                            }
                        }
                        assert forall|a: int, b: int| 0 <= a < b < chosen.len() implies chosen[a] != chosen[b] by {
                            if b == chosen.len() - 1 {
                                assert(old_used[old_chosen[a]]);
                            }
                        }
                    }
                },
                None => {
                    proof {
                        // every index is used, so n were chosen: contradiction
                        assert forall|j: int| 0 <= j < n implies #[trigger] covers(chosen, j) by {
                            assert(used@[j]);
                        }
                        lemma_covering_bound(chosen, n as int);
                    }
                    return res;
                },
            }
        }
        proof {
            let m = self.peer_scores.view();
            assert forall|a: int, b: int| 0 <= a < res@.len() && 0 <= b < res@.len() && a != b implies res@[a]@ != res@[b]@ by {
                assert(es[chosen[a]].0@ != es[chosen[b]].0@);
            }
            assert forall|a: int| 0 <= a < res@.len() implies #[trigger] m.contains_key(res@[a]@) && m[res@[a]@] == es[chosen[a]].1 by {
                assert(m.contains_key(es[chosen[a]].0@));
            }
            assert forall|a: int, k: Seq<char>|
                0 <= a < res@.len() && #[trigger] m.contains_key(k) && !names(res@).contains(k) implies key_of(m[#[trigger] res@[a]@]) <= key_of(m[k]) by {
                let j = choose|j: int| 0 <= j < es.len() && es[j].0@ == k;
                assert(m.contains_key(es[j].0@));
                if used@[j] {
                    let c = choose|c: int| 0 <= c < chosen.len() && chosen[c] == j;
                    assert(res@[c]@ == k);
                }
                assert(m.contains_key(res@[a]@));
            }
            assert forall|a: int, b: int| 0 <= a < b < res@.len() implies key_of(m[res@[a]@]) <= key_of(m[res@[b]@]) by {
                assert(m.contains_key(res@[a]@));
                assert(m.contains_key(res@[b]@));
            }
            if res@.len() < want {
                assert(res@.len() >= n);
            }
        }
        res
    }

    /// Partitions a participant onto one of `hosts` by a deterministic hash:
    /// the sum of the bytes of its id, modulo the number of hosts.
    pub fn assign_host_for_client(&self, client_id: &str, hosts: &[String]) -> (res: Option<String>)
        requires
            client_id.spec_bytes().len() <= usize::MAX / 256,
        ensures
            hosts@.len() == 0 ==> res is None,
            hosts@.len() > 0 ==> res == Some(
                hosts@[(byte_sum(client_id.spec_bytes()) % (hosts@.len() as nat)) as int],
            ),
    {
        if hosts.len() == 0 {
            return None;
        }
        let bytes = client_id.as_bytes();
        let mut hash: usize = 0;
        let mut i: usize = 0;
        while i < bytes.len()
            invariant
                bytes@ == client_id.spec_bytes(),
                bytes@.len() <= usize::MAX / 256,
                0 <= i <= bytes@.len(),
                hash == byte_sum(bytes@.take(i as int)),
            decreases bytes@.len() - i,
        {
            proof {
                lemma_byte_sum_bound(bytes@.take(i as int));
                assert(bytes@.take(i + 1).drop_last() =~= bytes@.take(i as int));
            }
            hash = hash + bytes[i] as usize;
            i = i + 1;
        }
        assert(bytes@.take(bytes@.len() as int) =~= bytes@);
        Some(hosts[hash % hosts.len()].clone())
    }
}

proof fn lemma_injective_bound(s: Seq<int>, n: int)
    requires
        0 <= n,
        forall|a: int| 0 <= a < s.len() ==> 0 <= #[trigger] s[a] < n,
        forall|a: int, b: int| 0 <= a < b < s.len() ==> s[a] != s[b],
    ensures
        s.len() <= n,
    decreases n,
{
    if n <= 0 {
        if s.len() > 0 {
            assert(0 <= s[0] < n);
        }
    } else {
        // drop the element equal to n - 1, if any
        if exists|a: int| 0 <= a < s.len() && s[a] == n - 1 {
            let a = choose|a: int| 0 <= a < s.len() && s[a] == n - 1;
            let t = s.remove(a);
            assert forall|x: int| 0 <= x < t.len() implies 0 <= #[trigger] t[x] < n - 1 by {
                let x2 = if x < a { x } else { x + 1 };
                assert(t[x] == s[x2]);
            }
            assert forall|x: int, y: int| 0 <= x < y < t.len() implies t[x] != t[y] by {
                let x2 = if x < a { x } else { x + 1 };
                let y2 = if y < a { y } else { y + 1 };
                assert(t[x] == s[x2]);
                assert(t[y] == s[y2]);
            }
            lemma_injective_bound(t, n - 1);
        } else {
            assert forall|x: int| 0 <= x < s.len() implies 0 <= #[trigger] s[x] < n - 1 by {
                assert(s[x] != n - 1);
            }
            lemma_injective_bound(s, n - 1);
        }
    }
}

spec fn covers(s: Seq<int>, j: int) -> bool {
    exists|a: int| 0 <= a < s.len() && s[a] == j
}

proof fn lemma_covering_bound(s: Seq<int>, n: int)
    requires
        0 <= n,
        forall|j: int| 0 <= j < n ==> #[trigger] covers(s, j),
    ensures
        s.len() >= n,
{
    let f = Seq::new(n as nat, |j: int| choose|a: int| 0 <= a < s.len() && s[a] == j);
    assert forall|x: int| 0 <= x < f.len() implies 0 <= #[trigger] f[x] < s.len() && s[f[x]] == x by {
        assert(covers(s, x));
    }
    assert forall|x: int, y: int| 0 <= x < y < f.len() implies f[x] != f[y] by {
        assert(s[f[x]] == x);
        assert(s[f[y]] == y);
    }
    lemma_injective_bound(f, s.len() as int);
}

/// The rooms after `user` joins `room`, which is created if needed.
pub open spec fn after_join(rooms: Map<Seq<char>, Set<Seq<char>>>, room: Seq<char>, user: Seq<char>) -> Map<
    Seq<char>,
    Set<Seq<char>>,
> {
    let members = if rooms.contains_key(room) { rooms[room] } else { Set::empty() };
    rooms.insert(room, members.insert(user))
}

/// The rooms after `user` leaves `room`; a room left without subscribers
/// disappears.
pub open spec fn after_leave(rooms: Map<Seq<char>, Set<Seq<char>>>, room: Seq<char>, user: Seq<char>) -> Map<
    Seq<char>,
    Set<Seq<char>>,
> {
    if !rooms.contains_key(room) {
        rooms
    } else {
        let left = rooms[room].remove(user);
        if left.len() == 0 {
            rooms.remove(room)
        } else {
            rooms.insert(room, left)
        }
    }
}

/// A user who joins a room it was not in and then leaves it leaves the
/// rooms as they were (rooms being finite and never empty).
pub proof fn lemma_join_then_leave(rooms: Map<Seq<char>, Set<Seq<char>>>, room: Seq<char>, user: Seq<char>)
    requires
        rooms.contains_key(room) ==> !rooms[room].contains(user) && rooms[room].finite() && rooms[room].len() > 0,
    ensures
        after_leave(after_join(rooms, room, user), room, user) == rooms,
{
    let joined = after_join(rooms, room, user);
    if rooms.contains_key(room) {
        assert(joined[room].remove(user) =~= rooms[room]);
        assert(rooms.insert(room, rooms[room]) =~= rooms);
    } else {
        assert(joined[room].remove(user) =~= Set::<Seq<char>>::empty());
        assert(joined.remove(room) =~= rooms);
    }
}

/// In-memory Selective Forwarding Unit (SFU) router.
/// Receives one media packet from an active speaker and names the peers of
/// the room that must get it.
pub struct SfuRouter {
    rooms: Table<Table<()>>,
}

impl SfuRouter {
    /// Every room held has at least one subscriber.
    pub closed spec fn wf(&self) -> bool {
        &&& self.rooms.wf()
        &&& forall|r: Seq<char>| #[trigger] self.rooms.view().contains_key(r) ==> self.rooms.view()[r].wf()
        &&& forall|r: Seq<char>| #[trigger] self.rooms.view().contains_key(r) ==> self.rooms.view()[r].view().dom().len() > 0
    }

    /// A room exists only while someone is subscribed to it.
    pub proof fn lemma_rooms_have_members(&self)
        requires
            self.wf(),
        ensures
            forall|r: Seq<char>| #[trigger] self.rooms().contains_key(r) ==> self.rooms()[r] != Set::<Seq<char>>::empty(),
    {
        assert forall|r: Seq<char>| #[trigger] self.rooms().contains_key(r) implies self.rooms()[r] != Set::<Seq<char>>::empty() by {
            let t = self.rooms.view()[r];
            t.lemma_entries();
            if t.view().dom() == Set::<Seq<char>>::empty() {
                assert(t.view().dom().len() == 0);
            }
        }
    }

    /// Each room with its subscribers.
    pub closed spec fn rooms(&self) -> Map<Seq<char>, Set<Seq<char>>> {
        Map::new(
            |r: Seq<char>| self.rooms.view().contains_key(r),
            |r: Seq<char>| self.rooms.view()[r].view().dom(),
        )
    }

    /// The subscribers of `room`, none when it does not exist.
    pub open spec fn members(&self, room: Seq<char>) -> Set<Seq<char>> {
        if self.rooms().contains_key(room) { self.rooms()[room] } else { Set::empty() }
    }

    pub fn new() -> (res: Self)
        ensures
            res.wf(),
            res.rooms() == Map::<Seq<char>, Set<Seq<char>>>::empty(),
    {
        let r = SfuRouter { rooms: Table::new() };
        assert(r.rooms() =~= Map::<Seq<char>, Set<Seq<char>>>::empty());
        r
    }

    /// Subscribes a user to an SFU media room, creating the room if needed.
    pub fn join_room(&mut self, room_id: &str, user_id: &str)
        requires
            old(self).wf(),
        ensures
            final(self).wf(),
            final(self).rooms() == after_join(old(self).rooms(), room_id@, user_id@),
    {
        let ghost old_rooms = self.rooms();
        let mut members = match self.rooms.remove(room_id) {
            Some(t) => t,
            None => Table::new(),
        };
        members.insert(to_owned_string(user_id), ());
        proof {
            members.lemma_entries();
            assert(members.view().contains_key(user_id@));
            assert(members.view().dom().remove(user_id@).len() + 1 == members.view().dom().len());
        }
        self.rooms.insert(to_owned_string(room_id), members);
        proof {
            assert(self.rooms() =~= old_rooms.insert(room_id@, old_rooms.get(room_id@).unwrap_or(Set::empty()).insert(user_id@)));
        }
    }

    /// Unsubscribes a user; a room left without subscribers disappears.
    pub fn leave_room(&mut self, room_id: &str, user_id: &str)
        requires
            old(self).wf(),
        ensures
            final(self).wf(),
            final(self).rooms() == after_leave(old(self).rooms(), room_id@, user_id@),
    {
        let ghost old_rooms = self.rooms();
        match self.rooms.remove(room_id) {
            Some(mut members) => {
                let _ = members.remove(user_id);
                if members.is_empty() {
                    proof {
                        members.lemma_entries();
                        assert(self.rooms() =~= old_rooms.remove(room_id@));
                    }
                } else {
                    self.rooms.insert(to_owned_string(room_id), members);
                    proof {
                        members.lemma_entries();
                        assert(self.rooms() =~= old_rooms.insert(room_id@, old_rooms[room_id@].remove(user_id@)));
                    }
                }
            },
            None => {
                proof {
                    assert(self.rooms() =~= old_rooms);
                }
            },
        }
    }

    /// The members of `room`'s table other than `sender` and the `hosts`.
    fn members_except(members: &Table<()>, sender: &str, hosts: &[String]) -> (res: Vec<String>)
        requires
            members.wf(),
        ensures
            distinct_names(res@),
            names(res@) == members.view().dom().filter(
                |x: Seq<char>| x != sender@ && !names(hosts@).contains(x),
            ),
    {
        let n = members.len();
        let ghost es = members.entries();
        proof {
            members.lemma_entries();
        }
        let mut res: Vec<String> = Vec::new();
        let mut i: usize = 0;
        while i < n
            invariant
                n == es.len(),
                es == members.entries(),
                0 <= i <= n,
                distinct_names(res@),
                forall|a: int| 0 <= a < res@.len() ==> exists|j: int| 0 <= j < i && #[trigger] res@[a]@ == es[j].0@,
                forall|x: Seq<char>| names(res@).contains(x) <==> (exists|j: int| 0 <= j < i && es[j].0@ == x)
                    && x != sender@ && !names(hosts@).contains(x),
                forall|i: int, j: int| 0 <= i < n && 0 <= j < n && i != j ==> #[trigger] es[i].0@ != #[trigger] es[j].0@,
            decreases n - i,
        {
            let name = &members.entry(i).0;
            if !str_eq(name.as_str(), sender) && !contains_name(hosts, name.as_str()) {
                let ghost old_res = res@;
                res.push(name.clone());
                proof {
                    assert forall|a: int, b: int| 0 <= a < res@.len() && 0 <= b < res@.len() && a != b implies res@[a]@ != res@[b]@ by {
                        if a == res@.len() - 1 {
                            let j = choose|j: int| 0 <= j < i && old_res[b]@ == es[j].0@;
                            assert(res@[b]@ == old_res[b]@);
                        } else if b == res@.len() - 1 {
                            let j = choose|j: int| 0 <= j < i && old_res[a]@ == es[j].0@;
                            assert(res@[a]@ == old_res[a]@);
                        }
                    }
                    assert forall|a: int| 0 <= a < res@.len() implies exists|j: int| 0 <= j < i + 1 && #[trigger] res@[a]@ == es[j].0@ by {
                        if a < res@.len() - 1 {
                            assert(res@[a] == old_res[a]);
                        } else {
                            assert(res@[a]@ == es[i as int].0@);
                        }
                    }
                    assert forall|x: Seq<char>| names(res@).contains(x) <==> (exists|j: int| 0 <= j < i + 1 && es[j].0@ == x)
                        && x != sender@ && !names(hosts@).contains(x) by {
                        if names(res@).contains(x) {
                            let a = choose|a: int| 0 <= a < res@.len() && res@[a]@ == x;
                            if a < res@.len() - 1 {
                                assert(old_res[a]@ == x);
                                assert(names(old_res).contains(x));
                            }
                        }
                        if (exists|j: int| 0 <= j < i + 1 && es[j].0@ == x) && x != sender@ && !names(hosts@).contains(x) {
                            let j = choose|j: int| 0 <= j < i + 1 && es[j].0@ == x;
                            if j < i {
                                assert(names(old_res).contains(x));
                                let a = choose|a: int| 0 <= a < old_res.len() && old_res[a]@ == x;
                                assert(res@[a]@ == x);
                            } else {
                                assert(res@[res@.len() - 1]@ == x);
                            }
                        }
                    }
                }
            } else {
                proof {
                    assert forall|x: Seq<char>| names(res@).contains(x) <==> (exists|j: int| 0 <= j < i + 1 && es[j].0@ == x)
                        && x != sender@ && !names(hosts@).contains(x) by {
                        if (exists|j: int| 0 <= j < i + 1 && es[j].0@ == x) && x != sender@ && !names(hosts@).contains(x) {
                            let j = choose|j: int| 0 <= j < i + 1 && es[j].0@ == x;
                            assert(j < i);
                        }
                    }
                }
            }
            i = i + 1;
        }
        proof {
            assert forall|x: Seq<char>| names(res@).contains(x) == members.view().dom().filter(
                |x: Seq<char>| x != sender@ && !names(hosts@).contains(x),
            ).contains(x) by {
                if members.view().contains_key(x) {
                    let j = choose|j: int| 0 <= j < es.len() && es[j].0@ == x;
                }
                if exists|j: int| 0 <= j < n && es[j].0@ == x {
                    let j = choose|j: int| 0 <= j < n && es[j].0@ == x;
                    assert(members.view().contains_key(es[j].0@));
                }
            }
            assert(names(res@) =~= members.view().dom().filter(
                |x: Seq<char>| x != sender@ && !names(hosts@).contains(x),
            ));
        }
        res
    }

    /// The peers that must receive a media packet: everyone in the room except
    /// the sender. The room must exist and the sender must be subscribed.
    pub fn route_media_packet(&self, room_id: &str, sender_id: &str) -> (res: Result<Vec<String>, SfuError>)
        requires
            self.wf(),
        ensures
            match res {
                Ok(v) => {
                    &&& self.rooms().contains_key(room_id@)
                    &&& self.rooms()[room_id@].contains(sender_id@)
                    &&& distinct_names(v@)
                    &&& names(v@) == self.rooms()[room_id@].remove(sender_id@)
                },
                Err(SfuError::RoomNotFound(r)) => !self.rooms().contains_key(room_id@) && r@ == room_id@,
                Err(SfuError::UserNotSubscribed) => self.rooms().contains_key(room_id@)
                    && !self.rooms()[room_id@].contains(sender_id@),
                Err(SfuError::NoEligiblePeers) => false,
            },
            self.members(room_id@) == Set::<Seq<char>>::empty() ==> res matches Err(SfuError::RoomNotFound(_)),
    {
        proof {
            self.lemma_rooms_have_members();
        }
        match self.rooms.get(room_id) {
            None => Err(SfuError::RoomNotFound(to_owned_string(room_id))),
            Some(members) => {
                if !members.contains_key(sender_id) {
                    return Err(SfuError::UserNotSubscribed);
                }
                let no_hosts: Vec<String> = Vec::new();
                let v = Self::members_except(members, sender_id, no_hosts.as_slice());
                proof {
                    assert(names(no_hosts@) =~= Set::<Seq<char>>::empty());
                    assert(names(v@) =~= self.rooms()[room_id@].remove(sender_id@));
                }
                Ok(v)
            },
        }
    }

    /// The recipients of a packet in a room served by several hosts: the local
    /// members other than the sender and the hosts, and, for a packet from a
    /// local client (not from another host's trunk), the other hosts.
    pub fn route_cluster_packet(
        &self,
        room_id: &str,
        sender_id: &str,
        is_inter_host_trunk: bool,
        other_hosts: &[String],
    ) -> (res: Result<(Vec<String>, Vec<String>), SfuError>)
        requires
            self.wf(),
        ensures
            match res {
                Ok((local, trunks)) => {
                    &&& self.rooms().contains_key(room_id@)
                    &&& distinct_names(local@)
                    &&& names(local@) == self.rooms()[room_id@].filter(
                        |x: Seq<char>| x != sender_id@ && !names(other_hosts@).contains(x),
                    )
                    &&& trunks@ == if is_inter_host_trunk {
                        Seq::<String>::empty()
                    } else {
                        other_hosts@.filter(|h: String| h@ != sender_id@)
                    }
                },
                Err(SfuError::RoomNotFound(r)) => !self.rooms().contains_key(room_id@) && r@ == room_id@,
                Err(_) => false,
            },
    {
        match self.rooms.get(room_id) {
            None => Err(SfuError::RoomNotFound(to_owned_string(room_id))),
            Some(members) => {
                let local = Self::members_except(members, sender_id, other_hosts);
                let mut trunks: Vec<String> = Vec::new();
                if !is_inter_host_trunk {
                    let mut i: usize = 0;
                    while i < other_hosts.len()
                        invariant
                            0 <= i <= other_hosts@.len(),
                            trunks@ == other_hosts@.take(i as int).filter(|h: String| h@ != sender_id@),
                        decreases other_hosts@.len() - i,
                    {
                        proof {
                            reveal_with_fuel(Seq::filter, 1);
                            assert(other_hosts@.take(i + 1).drop_last() =~= other_hosts@.take(i as int));
                        }
                        if !str_eq(other_hosts[i].as_str(), sender_id) {
                            trunks.push(other_hosts[i].clone());
                        }
                        i = i + 1;
                    }
                    assert(other_hosts@.take(other_hosts@.len() as int) =~= other_hosts@);
                }
                Ok((local, trunks))
            },
        }
    }
}

} // verus!
