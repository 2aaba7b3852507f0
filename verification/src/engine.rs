//! The engine's own state and rules: invite codes of the form
//! `bala://<public_key_hex>@<endpoint>`, the peers it knows with their
//! endpoints, who is in the voice call of each room, and the records it
//! makes for new rooms, channels, messages and room members.

use vstd::prelude::*;
use vstd::string::StringSliceAdditionalSpecFns;
use vstd::utf8::{decode_utf8, encode_utf8, encode_utf8_decode_utf8, is_char_boundary};
use crate::crypto::{strip_prefix, ContactCard};
use crate::gossip::{merge_all, GossipManager, PeerGossipEntry};
use crate::sfu::{SfuElectionManager, SfuHeartbeat, SfuRouter};
use crate::storage::{peer_stub_id, peer_stub_id_of, StoredChannel, StoredMessage, StoredRoom, StoredRoomMember};
use crate::table::Table;
use crate::text::{chars_of, decimal, push_decimal, distinct_names, names, push_str, starts_with, str_eq, string_of, to_owned_string, trim, trimmed};

verus! {

/// What the user interface shows of the network state.
#[derive(Debug, Clone, PartialEq, Eq)]
pub struct NetworkStatusInfo {
    pub public_endpoint: Option<String>,
    pub local_port: u16,
    pub is_upnp_mapped: bool,
    pub nat_type: String,
    pub is_sfu_host: bool,
    pub invite_code: String,
}

/// A member of a room as the user interface shows it.
#[derive(Debug, Clone, PartialEq, Eq)]
pub struct RoomMemberCard {
    pub user_id: String,
    pub display_name: String,
    pub role: String,
    pub is_online: bool,
    pub is_in_voice: bool,
}

// ---------------------------------------------------------------------------
// Text pieces
// ---------------------------------------------------------------------------

/// The characters whose UTF-8 encoding is the first `n` bytes of that of
/// `s` (all of `s` when it is shorter).
pub open spec fn byte_prefix(s: Seq<char>, n: int) -> Seq<char> {
    let b = encode_utf8(s);
    decode_utf8(b.take(if n < b.len() { n } else { b.len() as int }))
}

/// The first `n` bytes of `s` end on a character boundary (or `s` is
/// shorter), so that they can be cut off.
pub open spec fn cuttable(s: Seq<char>, n: int) -> bool {
    let b = encode_utf8(s);
    is_char_boundary(b, if n < b.len() { n } else { b.len() as int })
}

/// The first `n` bytes of `s`, which must end on a character boundary.
pub fn byte_prefix_of(s: &str, n: usize) -> (res: &str)
    requires
        cuttable(s@, n as int),
    ensures
        res@ == byte_prefix(s@, n as int),
{
    let blen = s.as_bytes().len();
    let m = if n < blen { n } else { blen };
    let (head, _) = s.split_at(m);
    proof {
        encode_utf8_decode_utf8(head@);
        assert(s.spec_bytes().subrange(0, m as int) =~= s.spec_bytes().take(m as int));
    }
    head
}

/// Whether the first `n` bytes of `s` can be cut off.
pub fn cuttable_prefix(s: &str, n: usize) -> (res: bool)
    ensures
        res == cuttable(s@, n as int),
{
    let blen = s.as_bytes().len();
    let m = if n < blen { n } else { blen };
    s.is_char_boundary(m)
}

/// `label` followed by the first `n` bytes of `s`.
pub open spec fn tagged(label: Seq<char>, s: Seq<char>, n: int) -> Seq<char> {
    label + byte_prefix(s, n)
}

/// `label` followed by the first `n` bytes of `s`.
pub fn tagged_name(label: &str, s: &str, n: usize) -> (res: String)
    requires
        cuttable(s@, n as int),
    ensures
        res@ == tagged(label@, s@, n as int),
{
    let mut out = to_owned_string(label);
    push_str(&mut out, byte_prefix_of(s, n));
    out
}

/// Where `c` first occurs in `s`; the length of `s` when it does not.
pub open spec fn index_of(s: Seq<char>, c: char) -> nat
    decreases s.len(),
{
    if s.len() == 0 {
        0
    } else if s[0] == c {
        0
    } else {
        1 + index_of(s.drop_first(), c)
    }
}

proof fn lemma_index_of(s: Seq<char>, c: char)
    ensures
        index_of(s, c) <= s.len(),
        index_of(s, c) < s.len() ==> s[index_of(s, c) as int] == c,
        forall|j: int| 0 <= j < index_of(s, c) ==> s[j] != c,
    decreases s.len(),
{
    if s.len() > 0 && s[0] != c {
        lemma_index_of(s.drop_first(), c);
        assert forall|j: int| 0 <= j < index_of(s, c) implies s[j] != c by {
            if j > 0 {
                assert(s[j] == s.drop_first()[j - 1]);
            }
        }
    }
}

/// Where `c` first occurs in `s`, if anywhere.
pub fn find_char(s: &[char], c: char) -> (res: Option<usize>)
    ensures
        match res {
            Some(i) => i == index_of(s@, c) && i < s@.len(),
            None => index_of(s@, c) == s@.len(),
        },
{
    let mut i: usize = 0;
    assert(s@.skip(0) =~= s@);
    while i < s.len()
        invariant
            0 <= i <= s@.len(),
            index_of(s@, c) == i + index_of(s@.skip(i as int), c),
        decreases s@.len() - i,
    {
        if s[i] == c {
            return Some(i);
        }
        assert(s@.skip(i as int).drop_first() =~= s@.skip(i + 1));
        i = i + 1;
    }
    None
}

/// `s` cut at the first `c`: the part before and the part after, when
/// there is a `c`.
pub open spec fn split_once(s: Seq<char>, c: char) -> Option<(Seq<char>, Seq<char>)> {
    let i = index_of(s, c);
    if i < s.len() {
        Some((s.take(i as int), s.skip(i as int + 1)))
    } else {
        None
    }
}

/// `s` cut at the first `c`.
pub fn split_once_at(s: &str, c: char) -> (res: Option<(String, String)>)
    ensures
        match res {
            Some((a, b)) => split_once(s@, c) == Some((a@, b@)),
            None => split_once(s@, c) is None,
        },
{
    let cs = chars_of(s);
    let n = cs.len();
    match find_char(cs.as_slice(), c) {
        Some(i) => {
            assert(i < n);
            let mut a: Vec<char> = Vec::new();
            let mut k: usize = 0;
            while k < i
                invariant
                    cs@ == s@,
                    i < cs@.len(),
                    0 <= k <= i,
                    a@ == s@.take(k as int),
                decreases i - k,
            {
                a.push(cs[k]);
                k = k + 1;
                assert(a@ =~= s@.take(k as int));
            }
            let mut b: Vec<char> = Vec::new();
            let mut k: usize = i + 1;
            while k < cs.len()
                invariant
                    cs@ == s@,
                    i < cs@.len(),
                    i + 1 <= k <= cs@.len(),
                    b@ == s@.subrange(i + 1, k as int),
                decreases cs@.len() - k,
            {
                b.push(cs[k]);
                k = k + 1;
                assert(b@ =~= s@.subrange(i + 1, k as int));
            }
            assert(b@ =~= s@.skip(i + 1));
            Some((string_of(a.as_slice()), string_of(b.as_slice())))
        },
        None => None,
    }
}

// ---------------------------------------------------------------------------
// Invite codes
// ---------------------------------------------------------------------------

/// The invite code of a node: `bala://`, its public key in hex, `@`, and
/// the endpoint where it listens.
pub open spec fn invite_code_of(public_key_hex: Seq<char>, endpoint: Seq<char>) -> Seq<char> {
    "bala://"@ + public_key_hex + "@"@ + endpoint
}

/// Builds an invite code.
pub fn invite_code(public_key_hex: &str, endpoint: &str) -> (res: String)
    ensures
        res@ == invite_code_of(public_key_hex@, endpoint@),
{
    let mut s = to_owned_string("bala://");
    push_str(&mut s, public_key_hex);
    push_str(&mut s, "@");
    push_str(&mut s, endpoint);
    s
}

/// The public key and endpoint that a trimmed direct-connect text names:
/// after `bala://`, the parts around the first `@`, or no key and the rest;
/// without `bala://`, no key and the whole text.
pub open spec fn invite_parts(clean: Seq<char>) -> (Seq<char>, Seq<char>) {
    if "bala://"@.is_prefix_of(clean) {
        let rest = clean.skip(7);
        match split_once(rest, '@') {
            Some((pk, ep)) => (pk, ep),
            None => (Seq::empty(), rest),
        }
    } else {
        (Seq::empty(), clean)
    }
}

/// Splits a trimmed direct-connect text into public key and endpoint.
pub fn split_invite(clean: &str) -> (res: (String, String))
    ensures
        (res.0@, res.1@) == invite_parts(clean@),
{
    proof {
        reveal_strlit("bala://");
    }
    match strip_prefix(clean, "bala://") {
        Some(rest) => match split_once_at(rest.as_str(), '@') {
            Some((pk, ep)) => (pk, ep),
            None => (String::new(), rest),
        },
        None => (String::new(), to_owned_string(clean)),
    }
}

/// The peer id of a direct connection: `bala:` and the key when one was
/// given, else the stand-in id of the endpoint.
pub open spec fn direct_peer_id(public_key_hex: Seq<char>, endpoint: Seq<char>) -> Seq<char> {
    if public_key_hex.len() > 0 {
        "bala:"@ + public_key_hex
    } else {
        peer_stub_id_of(endpoint)
    }
}

/// A direct connection to make: the peer's id, its endpoint, and the
/// contact to record for it.
#[derive(Debug, Clone, PartialEq, Eq)]
pub struct DirectPeer {
    pub peer_id: String,
    pub public_key_hex: String,
    pub endpoint: String,
    pub contact: ContactCard,
}

/// What a direct-connect text is acceptable as: its key, if any, can be cut
/// after 4 bytes.
pub open spec fn direct_text_ok(text: Seq<char>) -> bool {
    cuttable(invite_parts(trimmed(text)).0, 4)
}

/// Whether a direct-connect text is acceptable (see `direct_text_ok`).
pub fn direct_text_acceptable(text: &str) -> (res: bool)
    ensures
        res == direct_text_ok(text@),
{
    let clean = trim(text);
    let (pk, _) = split_invite(clean.as_str());
    cuttable_prefix(pk.as_str(), 4)
}

/// Decides the direct connection that a pasted endpoint or invite code asks
/// for: the peer is registered under `direct_peer_id` at the named endpoint,
/// and recorded as a contact whose bio is that endpoint and whose name is
/// `Балабол-` with the first 4 bytes of its key, or the endpoint itself
/// when no key was given.
pub fn plan_direct_connect(endpoint_or_invite: &str) -> (res: DirectPeer)
    requires
        direct_text_ok(endpoint_or_invite@),
    ensures
        ({
            let (pk, ep) = invite_parts(trimmed(endpoint_or_invite@));
            &&& res.public_key_hex@ == pk
            &&& res.endpoint@ == ep
            &&& res.peer_id@ == direct_peer_id(pk, ep)
            &&& res.contact.user_id@ == direct_peer_id(pk, ep)
            &&& res.contact.public_key_hex@ == pk
            &&& res.contact.display_name@ == (if pk.len() > 0 {
                tagged("Балабол-"@, pk, 4)
            } else {
                ep
            })
            &&& res.contact.avatar_url is None
            &&& res.contact.bio matches Some(b) && b@ == ep
        }),
{
    let clean = trim(endpoint_or_invite);
    let (pk, ep) = split_invite(clean.as_str());
    let peer_id = if !pk.as_str().is_empty() {
        let mut id = to_owned_string("bala:");
        push_str(&mut id, pk.as_str());
        id
    } else {
        peer_stub_id(ep.as_str())
    };
    let display_name = if !pk.as_str().is_empty() {
        tagged_name("Балабол-", pk.as_str(), 4)
    } else {
        ep.clone()
    };
    let contact = ContactCard {
        user_id: peer_id.clone(),
        public_key_hex: pk.clone(),
        display_name,
        avatar_url: None,
        bio: Some(ep.clone()),
    };
    DirectPeer { peer_id, public_key_hex: pk, endpoint: ep, contact }
}

proof fn lemma_split_once_around(pk: Seq<char>, ep: Seq<char>)
    requires
        !pk.contains('@'),
    ensures
        split_once(pk + "@"@ + ep, '@') == Some((pk, ep)),
{
    reveal_strlit("@");
    let s = pk + "@"@ + ep;
    lemma_index_of(s, '@');
    let i = index_of(s, '@');
    assert(s[pk.len() as int] == '@');
    if i < pk.len() {
        assert(s[i as int] == pk[i as int]);
    }
    assert(i == pk.len());
    assert(s.take(i as int) =~= pk);
    assert(s.skip(i as int + 1) =~= ep);
}

/// Pasting a node's own invite code names that node: the key and the
/// endpoint come back out, provided the key holds no `@` and the endpoint
/// does not end in white space.
pub proof fn lemma_invite_code_roundtrip(public_key_hex: Seq<char>, endpoint: Seq<char>)
    requires
        !public_key_hex.contains('@'),
        endpoint.len() > 0,
        !crate::text::is_white_space(endpoint.last()),
    ensures
        invite_parts(trimmed(invite_code_of(public_key_hex, endpoint))) == (public_key_hex, endpoint),
{
    reveal_strlit("bala://");
    let code = invite_code_of(public_key_hex, endpoint);
    assert(code.last() == endpoint.last());
    assert(code[0] == 'b');
    crate::text::lemma_trimmed_unchanged(code);
    assert("bala://"@.is_prefix_of(code)) by {
        assert(code.subrange(0, 7) =~= "bala://"@);
    }
    assert(code.skip(7) =~= public_key_hex + "@"@ + endpoint);
    lemma_split_once_around(public_key_hex, endpoint);
}

/// The key, endpoint and remaining text that a contact text names: after
/// `bala://`, the parts around the first `@` (or no key and the rest), with
/// an endpoint; after `bala:`, the key and no endpoint; else the whole text
/// as key and no endpoint.
pub open spec fn friend_parts(clean: Seq<char>) -> (Seq<char>, Option<Seq<char>>) {
    if "bala://"@.is_prefix_of(clean) {
        let rest = clean.skip(7);
        match split_once(rest, '@') {
            Some((pk, ep)) => (pk, Some(ep)),
            None => (Seq::empty(), Some(rest)),
        }
    } else if "bala:"@.is_prefix_of(clean) {
        (clean.skip(5), None)
    } else {
        (clean, None)
    }
}

/// What a contact text is acceptable as: when it names no key, its first
/// 16 bytes can be cut off.
pub open spec fn friend_text_ok(text: Seq<char>) -> bool {
    let clean = trimmed(text);
    friend_parts(clean).0.len() == 0 ==> cuttable(clean, 16)
}

/// The user id of a new contact: `bala:` and its key, or `bala:` and the
/// first 16 bytes of the text when it names no key.
pub open spec fn friend_user_id(clean: Seq<char>) -> Seq<char> {
    let pk = friend_parts(clean).0;
    if pk.len() > 0 {
        "bala:"@ + pk
    } else {
        tagged("bala:"@, clean, 16)
    }
}

/// Whether a contact text is acceptable (see `friend_text_ok`).
pub fn friend_text_acceptable(text: &str) -> (res: bool)
    ensures
        res == friend_text_ok(text@),
{
    proof {
        reveal_strlit("bala://");
        reveal_strlit("bala:");
    }
    let clean = trim(text);
    let no_key = match strip_prefix(clean.as_str(), "bala://") {
        Some(rest) => match split_once_at(rest.as_str(), '@') {
            Some((pk, _)) => pk.as_str().is_empty(),
            None => true,
        },
        None => match strip_prefix(clean.as_str(), "bala:") {
            Some(rest) => rest.as_str().is_empty(),
            None => clean.as_str().is_empty(),
        },
    };
    !no_key || cuttable_prefix(clean.as_str(), 16)
}

/// A contact to add, and the invite code to connect to when the text named
/// an endpoint.
#[derive(Debug, Clone, PartialEq, Eq)]
pub struct FriendPlan {
    pub card: ContactCard,
    pub connect_code: Option<String>,
}

/// Decides the contact that `name` and a pasted invite code, `bala:` id or
/// bare key make, and whether to connect to it.
pub fn plan_add_friend(name: &str, invite_or_id: &str) -> (res: FriendPlan)
    requires
        friend_text_ok(invite_or_id@),
    ensures
        ({
            let clean = trimmed(invite_or_id@);
            let (pk, ep) = friend_parts(clean);
            &&& res.card.user_id@ == friend_user_id(clean)
            &&& res.card.public_key_hex@ == pk
            &&& res.card.display_name@ == name@
            &&& res.card.avatar_url is None
            &&& match ep {
                Some(e) => (res.card.bio matches Some(b) && b@ == e) && (res.connect_code matches Some(c)
                    && c@ == invite_code_of(pk, e)),
                None => res.card.bio is None && res.connect_code is None,
            }
        }),
{
    proof {
        reveal_strlit("bala://");
        reveal_strlit("bala:");
    }
    let clean = trim(invite_or_id);
    let (pk, endpoint): (String, Option<String>) = match strip_prefix(clean.as_str(), "bala://") {
        Some(rest) => match split_once_at(rest.as_str(), '@') {
            Some((pk, ep)) => (pk, Some(ep)),
            None => (String::new(), Some(rest)),
        },
        None => match strip_prefix(clean.as_str(), "bala:") {
            Some(rest) => (rest, None),
            None => (clean.clone(), None),
        },
    };
    let user_id = if pk.as_str().is_empty() {
        tagged_name("bala:", clean.as_str(), 16)
    } else {
        let mut id = to_owned_string("bala:");
        push_str(&mut id, pk.as_str());
        id
    };
    let connect_code = match &endpoint {
        Some(ep) => Some(invite_code(pk.as_str(), ep.as_str())),
        None => None,
    };
    let card = ContactCard {
        user_id,
        public_key_hex: pk,
        display_name: to_owned_string(name),
        avatar_url: None,
        bio: endpoint,
    };
    FriendPlan { card, connect_code }
}

// ---------------------------------------------------------------------------
// Known peers and voice calls
// ---------------------------------------------------------------------------

/// A stand-in peer (`peer:` id) registered at endpoint `src`.
pub open spec fn is_stub_at(user_id: Seq<char>, endpoint: Seq<char>, src: Seq<char>) -> bool {
    "peer:"@.is_prefix_of(user_id) && endpoint == src
}

/// The peers after a handshake from the peer with key `public_key_hex` at
/// `src`: the stand-in peers registered at `src` are gone, `bala:<key>` is
/// registered at `src`, and every other peer keeps its endpoint.
pub open spec fn handshake_peers(
    before: Map<Seq<char>, String>,
    after: Map<Seq<char>, String>,
    public_key_hex: Seq<char>,
    src: Seq<char>,
) -> bool {
    let id = "bala:"@ + public_key_hex;
    &&& after.dom() == before.dom().filter(|k: Seq<char>| !is_stub_at(k, before[k]@, src)).insert(id)
    &&& after[id]@ == src
    &&& forall|k: Seq<char>| #[trigger] after.contains_key(k) && k != id ==> after[k] == before[k]
}

/// The endpoints of those `recipients` whose endpoint is known, in order.
pub open spec fn known_endpoints(peers: Map<Seq<char>, String>, recipients: Seq<String>) -> Seq<Seq<char>>
    decreases recipients.len(),
{
    if recipients.len() == 0 {
        Seq::empty()
    } else {
        let prev = known_endpoints(peers, recipients.drop_last());
        let r = recipients.last()@;
        if peers.contains_key(r) {
            prev.push(peers[r]@)
        } else {
            prev
        }
    }
}

/// The endpoint texts held by a map of peers.
pub open spec fn endpoint_set(peers: Map<Seq<char>, String>) -> Set<Seq<char>> {
    Set::new(|e: Seq<char>| exists|k: Seq<char>| peers.contains_key(k) && #[trigger] peers[k]@ == e)
}

/// The name shown for a room member.
pub open spec fn member_display_name(user_id: Seq<char>, my_id: Seq<char>, contact_name: Option<String>) -> Seq<char> {
    if user_id == my_id {
        "Вы (Локальный узел)"@
    } else {
        match contact_name {
            Some(n) => n@,
            None => tagged("Участник-"@, user_id, 4),
        }
    }
}

/// The peers this node can reach, each with its `ip:port` endpoint, and the
/// participants of the voice call of each room.
pub struct PeerBook {
    peers: Table<String>,
    voice: Table<Table<()>>,
}

impl PeerBook {
    pub closed spec fn wf(&self) -> bool {
        &&& self.peers.wf()
        &&& self.voice.wf()
        &&& forall|r: Seq<char>| #[trigger] self.voice.view().contains_key(r) ==> self.voice.view()[r].wf()
    }

    /// Each known peer with its endpoint.
    pub closed spec fn peers(&self) -> Map<Seq<char>, String> {
        self.peers.view()
    }

    /// Each room that has had a voice call, with its participants.
    pub closed spec fn voice(&self) -> Map<Seq<char>, Set<Seq<char>>> {
        Map::new(
            |r: Seq<char>| self.voice.view().contains_key(r),
            |r: Seq<char>| self.voice.view()[r].view().dom(),
        )
    }

    /// The participants of the voice call of `room`, none when it never had
    /// one.
    pub open spec fn in_call(&self, room: Seq<char>) -> Set<Seq<char>> {
        if self.voice().contains_key(room) { self.voice()[room] } else { Set::empty() }
    }

    /// No peers and no calls.
    pub fn new() -> (res: Self)
        ensures
            res.wf(),
            res.peers() == Map::<Seq<char>, String>::empty(),
            res.voice() == Map::<Seq<char>, Set<Seq<char>>>::empty(),
    {
        let b = PeerBook { peers: Table::new(), voice: Table::new() };
        assert(b.voice() =~= Map::<Seq<char>, Set<Seq<char>>>::empty());
        b
    }

    /// Registers (or moves) a peer at an endpoint.
    pub fn register(&mut self, user_id: String, endpoint: String)
        requires
            old(self).wf(),
        ensures
            final(self).wf(),
            final(self).peers() == old(self).peers().insert(user_id@, endpoint),
            final(self).voice() == old(self).voice(),
    {
        self.peers.insert(user_id, endpoint);
    }

    /// Forgets a peer.
    pub fn forget(&mut self, user_id: &str)
        requires
            old(self).wf(),
        ensures
            final(self).wf(),
            final(self).peers() == old(self).peers().remove(user_id@),
            final(self).voice() == old(self).voice(),
    {
        let _ = self.peers.remove(user_id);
    }

    /// The endpoint of a peer.
    pub fn endpoint_of(&self, user_id: &str) -> (res: Option<&String>)
        requires
            self.wf(),
        ensures
            match res {
                Some(e) => self.peers().contains_key(user_id@) && *e == self.peers()[user_id@],
                None => !self.peers().contains_key(user_id@),
            },
    {
        self.peers.get(user_id)
    }

    /// Where this node's voice frames go: to the elected SFU host when there
    /// is one, it is another node, this node is not a host, and its
    /// endpoint is known; otherwise to every known peer and then to every
    /// LAN peer endpoint not already listed.
    pub fn voice_targets(&self, leader: Option<&String>, i_am_host: bool, my_id: &str, lan_endpoints: &[String]) -> (res:
        Vec<String>)
        requires
            self.wf(),
        ensures
            ({
                let via_host = match leader {
                    Some(h) => !i_am_host && h@ != my_id@ && self.peers().contains_key(h@),
                    None => false,
                };
                &&& via_host ==> res@.len() == 1 && res@[0]@ == self.peers()[leader->0@]@
                &&& !via_host ==> names(res@) == endpoint_set(self.peers()) + names(lan_endpoints@)
            }),
    {
        if let Some(h) = leader {
            if !i_am_host && !str_eq(h.as_str(), my_id) {
                if let Some(ep) = self.peers.get(h.as_str()) {
                    let mut v: Vec<String> = Vec::new();
                    v.push(ep.clone());
                    return v;
                }
            }
        }
        let mut targets = self.broadcast_targets();
        let ghost base = names(targets@);
        let mut i: usize = 0;
        while i < lan_endpoints.len()
            invariant
                0 <= i <= lan_endpoints@.len(),
                names(targets@) == base + names(lan_endpoints@.take(i as int)),
            decreases lan_endpoints@.len() - i,
        {
            let e = &lan_endpoints[i];
            let ghost before = targets@;
            if !crate::text::contains_name(targets.as_slice(), e.as_str()) {
                targets.push(e.clone());
                proof {
                    crate::text::lemma_names_push(before, *e);
                }
            } else {
                assert(names(before).insert(e@) =~= names(before));
            }
            proof {
                assert(lan_endpoints@.take(i + 1) =~= lan_endpoints@.take(i as int).push(*e));
                crate::text::lemma_names_push(lan_endpoints@.take(i as int), *e);
                assert(names(targets@) =~= base + names(lan_endpoints@.take(i + 1)));
            }
            i = i + 1;
        }
        assert(lan_endpoints@.take(lan_endpoints@.len() as int) =~= lan_endpoints@);
        targets
    }

    /// Where to send a room invitation for `friend_id`: its registered
    /// endpoint, or else the endpoint kept in its contact's bio.
    pub fn invite_target(&self, friend_id: &str, contact_bio: Option<String>) -> (res: Option<String>)
        requires
            self.wf(),
        ensures
            res == if self.peers().contains_key(friend_id@) {
                Some(self.peers()[friend_id@])
            } else {
                contact_bio
            },
    {
        match self.peers.get(friend_id) {
            Some(e) => Some(e.clone()),
            None => contact_bio,
        }
    }

    /// Whether a peer is known.
    pub fn is_connected(&self, user_id: &str) -> (res: bool)
        requires
            self.wf(),
        ensures
            res == self.peers().contains_key(user_id@),
    {
        self.peers.contains_key(user_id)
    }

    /// The ids of the known peers, each once.
    pub fn peer_ids(&self) -> (res: Vec<String>)
        requires
            self.wf(),
        ensures
            names(res@) == self.peers().dom(),
            distinct_names(res@),
    {
        self.peers.keys()
    }

    /// The endpoint of every known peer, one per peer: where a broadcast
    /// goes.
    pub fn broadcast_targets(&self) -> (res: Vec<String>)
        requires
            self.wf(),
        ensures
            res@.len() == self.peers().dom().len(),
            names(res@) == endpoint_set(self.peers()),
    {
        let n = self.peers.len();
        proof {
            self.peers.lemma_entries();
        }
        let ghost es = self.peers.entries();
        let mut res: Vec<String> = Vec::new();
        let mut i: usize = 0;
        while i < n
            invariant
                self.wf(),
                es == self.peers.entries(),
                n == es.len(),
                0 <= i <= n,
                res@.len() == i,
                forall|j: int| 0 <= j < i ==> #[trigger] res@[j]@ == es[j].1@,
            decreases n - i,
        {
            res.push(self.peers.entry(i).1.clone());
            i = i + 1;
        }
        proof {
            self.peers.lemma_entries();
            assert forall|e: Seq<char>| names(res@).contains(e) == endpoint_set(self.peers()).contains(e) by {
                if names(res@).contains(e) {
                    let j = choose|j: int| 0 <= j < res@.len() && res@[j]@ == e;
                    assert(self.peers().contains_key(es[j].0@));
                    assert(self.peers()[es[j].0@]@ == e);
                }
                if endpoint_set(self.peers()).contains(e) {
                    let k = choose|k: Seq<char>| self.peers().contains_key(k) && #[trigger] self.peers()[k]@ == e;
                    let j = choose|j: int| 0 <= j < es.len() && es[j].0@ == k;
                    assert(res@[j]@ == e);
                }
            }
            assert(names(res@) =~= endpoint_set(self.peers()));
        }
        res
    }

    /// The endpoints of those `recipients` that are known, in order: where
    /// a forwarded media packet goes.
    pub fn endpoints_for(&self, recipients: &[String]) -> (res: Vec<String>)
        requires
            self.wf(),
        ensures
            res@.map_values(|e: String| e@) == known_endpoints(self.peers(), recipients@),
    {
        let mut res: Vec<String> = Vec::new();
        let mut i: usize = 0;
        while i < recipients.len()
            invariant
                self.wf(),
                0 <= i <= recipients@.len(),
                res@.map_values(|e: String| e@) == known_endpoints(self.peers(), recipients@.take(i as int)),
            decreases recipients@.len() - i,
        {
            assert(recipients@.take(i + 1).drop_last() =~= recipients@.take(i as int));
            match self.peers.get(recipients[i].as_str()) {
                Some(e) => {
                    res.push(e.clone());
                },
                None => {},
            }
            i = i + 1;
            assert(res@.map_values(|e: String| e@) =~= known_endpoints(self.peers(), recipients@.take(i as int)));
        }
        assert(recipients@.take(recipients@.len() as int) =~= recipients@);
        res
    }

    /// A handshake from the peer with key `public_key_hex` arrived from
    /// `src`: the stand-in peers registered at `src` are dropped and the
    /// keyed peer `bala:<key>` is registered there. Gives its id.
    pub fn register_handshake(&mut self, public_key_hex: &str, src: &str) -> (res: String)
        requires
            old(self).wf(),
        ensures
            final(self).wf(),
            res@ == "bala:"@ + public_key_hex@,
            handshake_peers(old(self).peers(), final(self).peers(), public_key_hex@, src@),
            final(self).voice() == old(self).voice(),
    {
        let ghost old_peers = self.peers.view();
        let n = self.peers.len();
        proof {
            self.peers.lemma_entries();
        }
        let ghost es = self.peers.entries();
        let mut kept: Table<String> = Table::new();
        let mut i: usize = 0;
        while i < n
            invariant
                self.wf(),
                self.peers.view() == old_peers,
                es == self.peers.entries(),
                n == es.len(),
                0 <= i <= n,
                kept.wf(),
                forall|k: Seq<char>|
                    #[trigger] kept.view().contains_key(k) <==> (exists|j: int| 0 <= j < i && es[j].0@ == k)
                        && old_peers.contains_key(k) && !is_stub_at(k, old_peers[k]@, src@),
                forall|k: Seq<char>| #[trigger] kept.view().contains_key(k) ==> kept.view()[k] == old_peers[k],
                forall|j: int| 0 <= j < n ==> old_peers.contains_key(#[trigger] es[j].0@) && old_peers[es[j].0@]
                    == es[j].1,
            decreases n - i,
        {
            let entry = self.peers.entry(i);
            let is_stub = starts_with(entry.0.as_str(), "peer:") && str_eq(entry.1.as_str(), src);
            if !is_stub {
                kept.insert(entry.0.clone(), entry.1.clone());
            }
            proof {
                assert forall|k: Seq<char>|
                    #[trigger] kept.view().contains_key(k) <==> (exists|j: int| 0 <= j < i + 1 && es[j].0@ == k)
                        && old_peers.contains_key(k) && !is_stub_at(k, old_peers[k]@, src@) by {
                    if (exists|j: int| 0 <= j < i + 1 && es[j].0@ == k) && old_peers.contains_key(k) {
                        let j = choose|j: int| 0 <= j < i + 1 && es[j].0@ == k;
                        if j < i {
                        } else {
                            assert(es[j].0@ == k);
                        }
                    }
                }
            }
            i = i + 1;
        }
        let peer_id = {
            let mut id = to_owned_string("bala:");
            push_str(&mut id, public_key_hex);
            id
        };
        kept.insert(peer_id.clone(), to_owned_string(src));
        proof {
            assert forall|k: Seq<char>| old_peers.contains_key(k) implies exists|j: int| 0 <= j < n && es[j].0@ == k by {
                self.peers.lemma_entries();
            }
            assert(kept.view().dom() =~= old_peers.dom().filter(
                |k: Seq<char>| !is_stub_at(k, old_peers[k]@, src@),
            ).insert(peer_id@));
        }
        self.peers = kept;
        peer_id
    }

    /// Records a voice state: `user_id` joined or left the call of
    /// `room_id`; the room's call is created if it had none.
    pub fn set_voice(&mut self, room_id: &str, user_id: &str, is_joined: bool)
        requires
            old(self).wf(),
        ensures
            final(self).wf(),
            final(self).peers() == old(self).peers(),
            final(self).voice() == old(self).voice().insert(
                room_id@,
                if is_joined {
                    old(self).in_call(room_id@).insert(user_id@)
                } else {
                    old(self).in_call(room_id@).remove(user_id@)
                },
            ),
    {
        let ghost old_voice = self.voice();
        let mut members = match self.voice.remove(room_id) {
            Some(t) => t,
            None => Table::new(),
        };
        if is_joined {
            members.insert(to_owned_string(user_id), ());
        } else {
            let _ = members.remove(user_id);
        }
        self.voice.insert(to_owned_string(room_id), members);
        proof {
            let base = old_voice.get(room_id@).unwrap_or(Set::empty());
            assert(self.voice() =~= old_voice.insert(
                room_id@,
                if is_joined { base.insert(user_id@) } else { base.remove(user_id@) },
            ));
        }
    }

    /// `user_id` leaves the call of `room_id`, if that room has one.
    pub fn leave_voice(&mut self, room_id: &str, user_id: &str)
        requires
            old(self).wf(),
        ensures
            final(self).wf(),
            final(self).peers() == old(self).peers(),
            final(self).voice() == if old(self).voice().contains_key(room_id@) {
                old(self).voice().insert(room_id@, old(self).voice()[room_id@].remove(user_id@))
            } else {
                old(self).voice()
            },
    {
        let ghost old_voice = self.voice();
        match self.voice.remove(room_id) {
            Some(mut members) => {
                let _ = members.remove(user_id);
                self.voice.insert(to_owned_string(room_id), members);
                proof {
                    assert(self.voice() =~= old_voice.insert(room_id@, old_voice[room_id@].remove(user_id@)));
                }
            },
            None => {
                proof {
                    assert(self.voice() =~= old_voice);
                }
            },
        }
    }

    /// The participants of the call of `room_id`, each once.
    pub fn voice_participants(&self, room_id: &str) -> (res: Vec<String>)
        requires
            self.wf(),
        ensures
            names(res@) == self.in_call(room_id@),
            distinct_names(res@),
    {
        match self.voice.get(room_id) {
            Some(t) => t.keys(),
            None => {
                let v: Vec<String> = Vec::new();
                assert(names(v@) =~= Set::<Seq<char>>::empty());
                v
            },
        }
    }

    /// The cards of a room's members: the local node is shown as such,
    /// others by their contact name (`contact_names[i]`, when they are a
    /// contact) or as `Участник-` with the first 4 bytes of their id; a
    /// member is online when it is the local node or a known peer.
    pub fn member_cards(
        &self,
        room_id: &str,
        members: &[StoredRoomMember],
        my_id: &str,
        contact_names: &[Option<String>],
    ) -> (res: Vec<RoomMemberCard>)
        requires
            self.wf(),
            contact_names@.len() == members@.len(),
            forall|i: int|
                0 <= i < members@.len() && members@[i].user_id@ != my_id@ && contact_names@[i] is None
                    ==> cuttable(#[trigger] members@[i].user_id@, 4),
        ensures
            res@.len() == members@.len(),
            forall|i: int| 0 <= i < res@.len() ==> {
                let m = #[trigger] members@[i];
                &&& res@[i].user_id == m.user_id
                &&& res@[i].role == m.role
                &&& res@[i].display_name@ == member_display_name(m.user_id@, my_id@, contact_names@[i])
                &&& res@[i].is_online == (m.user_id@ == my_id@ || self.peers().contains_key(m.user_id@))
                &&& res@[i].is_in_voice == self.in_call(room_id@).contains(m.user_id@)
            },
    {
        let mut res: Vec<RoomMemberCard> = Vec::new();
        let mut i: usize = 0;
        while i < members.len()
            invariant
                self.wf(),
                contact_names@.len() == members@.len(),
                forall|i: int|
                    0 <= i < members@.len() && members@[i].user_id@ != my_id@ && contact_names@[i] is None
                        ==> cuttable(#[trigger] members@[i].user_id@, 4),
                0 <= i <= members@.len(),
                res@.len() == i,
                forall|j: int| 0 <= j < i ==> {
                    let m = #[trigger] members@[j];
                    &&& res@[j].user_id == m.user_id
                    &&& res@[j].role == m.role
                    &&& res@[j].display_name@ == member_display_name(m.user_id@, my_id@, contact_names@[j])
                    &&& res@[j].is_online == (m.user_id@ == my_id@ || self.peers().contains_key(m.user_id@))
                    &&& res@[j].is_in_voice == self.in_call(room_id@).contains(m.user_id@)
                },
            decreases members@.len() - i,
        {
            let m = &members[i];
            let is_self = str_eq(m.user_id.as_str(), my_id);
            let display_name = if is_self {
                to_owned_string("Вы (Локальный узел)")
            } else {
                match &contact_names[i] {
                    Some(n) => n.clone(),
                    None => {
                        assert(cuttable(members@[i as int].user_id@, 4));
                        tagged_name("Участник-", m.user_id.as_str(), 4)
                    },
                }
            };
            let is_online = is_self || self.is_connected(m.user_id.as_str());
            let is_in_voice = self.is_in_voice(room_id, m.user_id.as_str());
            res.push(RoomMemberCard {
                user_id: m.user_id.clone(),
                display_name,
                role: m.role.clone(),
                is_online,
                is_in_voice,
            });
            i = i + 1;
        }
        res
    }

    /// Whether `user_id` is in the call of `room_id`.
    pub fn is_in_voice(&self, room_id: &str, user_id: &str) -> (res: bool)
        requires
            self.wf(),
        ensures
            res == self.in_call(room_id@).contains(user_id@),
    {
        match self.voice.get(room_id) {
            Some(t) => t.contains_key(user_id),
            None => false,
        }
    }
}

// ---------------------------------------------------------------------------
// Records the engine makes
// ---------------------------------------------------------------------------

/// `prefix`, the decimal digits of `n`, then `suffix`.
pub fn numbered_id(prefix: &str, n: u64, suffix: &str) -> (res: String)
    ensures
        res@ == prefix@ + decimal(n as nat) + suffix@,
{
    let mut s = to_owned_string(prefix);
    push_decimal(&mut s, n);
    push_str(&mut s, suffix);
    s
}

/// `prefix` then `rest`.
fn prefixed(prefix: &str, rest: &str) -> (res: String)
    ensures
        res@ == prefix@ + rest@,
{
    let mut s = to_owned_string(prefix);
    push_str(&mut s, rest);
    s
}

/// The id of the voice channel of a room.
pub open spec fn voice_channel_id_of(room_id: Seq<char>) -> Seq<char> {
    "v-"@ + room_id
}

/// The id of the voice channel that joining a room's call starts.
pub fn voice_channel_id(room_id: &str) -> (res: String)
    ensures
        res@ == voice_channel_id_of(room_id@),
{
    prefixed("v-", room_id)
}

/// A time, in milliseconds, at which records can be made: as the signed
/// 64-bit stamp that records carry, a few milliseconds after it still fit.
pub open spec fn time_ok(now_ms: u64) -> bool {
    now_ms as i64 <= 0x7FFF_FFFF_FFFF_FFFC
}

/// A new room made at `now_ms`, with its text and voice channels:
/// `r-<now>`, `c-<now>-txt` and `c-<now>-vc`.
pub fn new_room_records(now_ms: u64, name: &str, emoji: &str, invite_code: String) -> (res: (
    StoredRoom,
    StoredChannel,
    StoredChannel,
))
    requires
        time_ok(now_ms),
    ensures
        res.0.id@ == "r-"@ + decimal(now_ms as nat),
        res.0.name@ == name@,
        res.0.emoji@ == emoji@,
        res.0.invite_code == Some(invite_code),
        res.0.created_at == now_ms as i64,
        res.1.id@ == "c-"@ + decimal(now_ms as nat) + "-txt"@,
        res.1.server_id == Some(res.0.id),
        res.1.name@ == "общий-чат"@,
        res.1.channel_type@ == "text"@,
        res.1.topic is None,
        res.1.created_at == now_ms as i64,
        res.2.id@ == "c-"@ + decimal(now_ms as nat) + "-vc"@,
        res.2.server_id == Some(res.0.id),
        res.2.name@ == "Голосовой"@,
        res.2.channel_type@ == "voice"@,
        res.2.topic is None,
        res.2.created_at == now_ms as i64 + 1,
{
    let t = now_ms as i64;
    let room = StoredRoom {
        id: numbered_id("r-", now_ms, ""),
        name: to_owned_string(name),
        emoji: to_owned_string(emoji),
        invite_code: Some(invite_code),
        created_at: t,
    };
    let text = StoredChannel {
        id: numbered_id("c-", now_ms, "-txt"),
        server_id: Some(room.id.clone()),
        name: to_owned_string("общий-чат"),
        channel_type: to_owned_string("text"),
        topic: None,
        created_at: t,
    };
    let voice = StoredChannel {
        id: numbered_id("c-", now_ms, "-vc"),
        server_id: Some(room.id.clone()),
        name: to_owned_string("Голосовой"),
        channel_type: to_owned_string("voice"),
        topic: None,
        created_at: t + 1,
    };
    proof {
        reveal_strlit("");
        assert(room.id@ =~= "r-"@ + decimal(now_ms as nat));
    }
    (room, text, voice)
}

/// The records a room invitation makes at `now_ms`: the room (no invite
/// code), its text channel `c-<room>` and its voice channel `v-<room>`, made
/// a millisecond later.
pub open spec fn invite_records(
    res: (StoredRoom, StoredChannel, StoredChannel),
    room_id: Seq<char>,
    room_name: Seq<char>,
    room_emoji: Seq<char>,
    now_ms: u64,
) -> bool {
    &&& res.0.id@ == room_id
    &&& res.0.name@ == room_name
    &&& res.0.emoji@ == room_emoji
    &&& res.0.invite_code is None
    &&& res.0.created_at == now_ms as i64
    &&& res.1.id@ == "c-"@ + room_id
    &&& res.1.server_id matches Some(r) && r@ == room_id
    &&& res.1.name@ == "общий-чат"@
    &&& res.1.channel_type@ == "text"@
    &&& res.1.topic matches Some(t) && t@ == "Чат беседы "@ + room_name
    &&& res.1.created_at == now_ms as i64
    &&& res.2.id@ == voice_channel_id_of(room_id)
    &&& res.2.server_id matches Some(r) && r@ == room_id
    &&& res.2.name@ == "Голосовой"@
    &&& res.2.channel_type@ == "voice"@
    &&& res.2.topic matches Some(t) && t@ == "Голосовой канал "@ + room_name
    &&& res.2.created_at == now_ms as i64 + 1
}

/// The records a room invitation makes: the room, its text channel
/// `c-<room>` and its voice channel `v-<room>`.
pub fn room_invite_records(room_id: &str, room_name: &str, room_emoji: &str, now_ms: u64) -> (res: (
    StoredRoom,
    StoredChannel,
    StoredChannel,
))
    requires
        time_ok(now_ms),
    ensures
        invite_records(res, room_id@, room_name@, room_emoji@, now_ms),
{
    let t = now_ms as i64;
    let room = StoredRoom {
        id: to_owned_string(room_id),
        name: to_owned_string(room_name),
        emoji: to_owned_string(room_emoji),
        invite_code: None,
        created_at: t,
    };
    let text = StoredChannel {
        id: prefixed("c-", room_id),
        server_id: Some(to_owned_string(room_id)),
        name: to_owned_string("общий-чат"),
        channel_type: to_owned_string("text"),
        topic: Some(prefixed("Чат беседы ", room_name)),
        created_at: t,
    };
    let voice = StoredChannel {
        id: voice_channel_id(room_id),
        server_id: Some(to_owned_string(room_id)),
        name: to_owned_string("Голосовой"),
        channel_type: to_owned_string("voice"),
        topic: Some(prefixed("Голосовой канал ", room_name)),
        created_at: t + 1,
    };
    (room, text, voice)
}

/// A new channel made at `now_ms`: `c-<now>`, in the given room or else
/// in the lounge.
pub fn new_channel_record(now_ms: u64, name: &str, channel_type: &str, room_id: Option<&str>) -> (res: StoredChannel)
    ensures
        res.id@ == "c-"@ + decimal(now_ms as nat),
        res.server_id matches Some(r) && r@ == match room_id {
            Some(x) => x@,
            None => "r-lounge"@,
        },
        res.name@ == name@,
        res.channel_type@ == channel_type@,
        res.topic is None,
        res.created_at == now_ms as i64,
{
    proof {
        reveal_strlit("");
        assert("c-"@ + decimal(now_ms as nat) + ""@ =~= "c-"@ + decimal(now_ms as nat));
    }
    StoredChannel {
        id: numbered_id("c-", now_ms, ""),
        server_id: Some(
            match room_id {
                Some(r) => to_owned_string(r),
                None => to_owned_string("r-lounge"),
            },
        ),
        name: to_owned_string(name),
        channel_type: to_owned_string(channel_type),
        topic: None,
        created_at: now_ms as i64,
    }
}

/// A message sent at `now_ms` by the node with key `public_key_hex`:
/// its id is `m-<now>-` and the first 6 bytes of the key.
pub fn new_message_record(
    now_ms: u64,
    public_key_hex: &str,
    channel_id: &str,
    author_id: String,
    content: &str,
    signature_hex: String,
) -> (res: StoredMessage)
    requires
        time_ok(now_ms),
        public_key_hex.spec_bytes().len() >= 6,
        cuttable(public_key_hex@, 6),
    ensures
        res.id@ == "m-"@ + decimal(now_ms as nat) + "-"@ + byte_prefix(public_key_hex@, 6),
        res.channel_id@ == channel_id@,
        res.author_id == author_id,
        res.content@ == content@,
        res.attachments@.len() == 0,
        res.timestamp_ms == now_ms as i64,
        res.signature_hex == Some(signature_hex),
{
    let mut id = numbered_id("m-", now_ms, "-");
    push_str(&mut id, byte_prefix_of(public_key_hex, 6));
    StoredMessage {
        id,
        channel_id: to_owned_string(channel_id),
        author_id,
        content: to_owned_string(content),
        attachments: Vec::new(),
        timestamp_ms: now_ms as i64,
        signature_hex: Some(signature_hex),
    }
}

/// A room record with no invite code.
fn room_record(id: &str, name: &str, emoji: &str, created_at: i64) -> (res: StoredRoom)
    ensures
        res.id@ == id@,
        res.name@ == name@,
        res.emoji@ == emoji@,
        res.invite_code is None,
        res.created_at == created_at,
{
    StoredRoom {
        id: to_owned_string(id),
        name: to_owned_string(name),
        emoji: to_owned_string(emoji),
        invite_code: None,
        created_at,
    }
}

/// A channel record of a room, with a topic.
fn channel_record(id: &str, room_id: &str, name: &str, channel_type: &str, topic: &str, created_at: i64) -> (res:
    StoredChannel)
    ensures
        res.id@ == id@,
        res.server_id matches Some(r) && r@ == room_id@,
        res.name@ == name@,
        res.channel_type@ == channel_type@,
        res.topic matches Some(t) && t@ == topic@,
        res.created_at == created_at,
{
    StoredChannel {
        id: to_owned_string(id),
        server_id: Some(to_owned_string(room_id)),
        name: to_owned_string(name),
        channel_type: to_owned_string(channel_type),
        topic: Some(to_owned_string(topic)),
        created_at,
    }
}

/// The rooms a fresh store is seeded with: the lounge and the game room.
pub fn default_rooms(now_ms: u64) -> (res: Vec<StoredRoom>)
    requires
        time_ok(now_ms),
    ensures
        res@.len() == 2,
        res@[0].id@ == "r-lounge"@ && res@[0].name@ == "Гостиная"@ && res@[0].emoji@ == "🎮"@,
        res@[1].id@ == "r-gaming"@ && res@[1].name@ == "Игровая"@ && res@[1].emoji@ == "⚔️"@,
        forall|i: int| 0 <= i < 2 ==> (#[trigger] res@[i]).invite_code is None && res@[i].created_at == now_ms as i64 + i,
{
    let t = now_ms as i64;
    let mut v: Vec<StoredRoom> = Vec::new();
    v.push(room_record("r-lounge", "Гостиная", "🎮", t));
    v.push(room_record("r-gaming", "Игровая", "⚔️", t + 1));
    v
}

/// The channels a fresh store is seeded with: a text and a voice channel
/// in each default room.
pub fn default_channels(now_ms: u64) -> (res: Vec<StoredChannel>)
    requires
        time_ok(now_ms),
    ensures
        res@.len() == 4,
        res@[0].id@ == "c-general"@ && res@[0].name@ == "общий-чат"@ && res@[0].channel_type@ == "text"@
            && (res@[0].topic matches Some(t) && t@ == "Общение и новости"@),
        res@[1].id@ == "v-lounge"@ && res@[1].name@ == "Голосовой"@ && res@[1].channel_type@ == "voice"@
            && (res@[1].topic matches Some(t) && t@ == "Голосовой и видео-чат"@),
        res@[2].id@ == "c-gaming"@ && res@[2].name@ == "стратегия"@ && res@[2].channel_type@ == "text"@
            && (res@[2].topic matches Some(t) && t@ == "Обсуждение тактик"@),
        res@[3].id@ == "v-gaming-1"@ && res@[3].name@ == "Катка"@ && res@[3].channel_type@ == "voice"@
            && (res@[3].topic matches Some(t) && t@ == "Голосовой для игры"@),
        forall|i: int| 0 <= i < 2 ==> ((#[trigger] res@[i]).server_id matches Some(r) && r@ == "r-lounge"@),
        forall|i: int| 2 <= i < 4 ==> ((#[trigger] res@[i]).server_id matches Some(r) && r@ == "r-gaming"@),
        forall|i: int| 0 <= i < 4 ==> (#[trigger] res@[i]).created_at == now_ms as i64 + i,
{
    let t = now_ms as i64;
    let mut v: Vec<StoredChannel> = Vec::new();
    v.push(channel_record("c-general", "r-lounge", "общий-чат", "text", "Общение и новости", t));
    v.push(channel_record("v-lounge", "r-lounge", "Голосовой", "voice", "Голосовой и видео-чат", t + 1));
    v.push(channel_record("c-gaming", "r-gaming", "стратегия", "text", "Обсуждение тактик", t + 2));
    v.push(channel_record("v-gaming-1", "r-gaming", "Катка", "voice", "Голосовой для игры", t + 3));
    v
}

// ---------------------------------------------------------------------------
// Handling a datagram
// ---------------------------------------------------------------------------

/// The standard (padded) base64 text of `data`.
pub uninterp spec fn base64_standard_encoding(data: Seq<u8>) -> Seq<char>;

/// `base64::engine::general_purpose::STANDARD.encode`.
#[verifier::external_body]
fn base64_standard_encode(data: &[u8]) -> (res: String)
    ensures
        res@ == base64_standard_encoding(data@),
{
    <base64::engine::GeneralPurpose as base64::Engine>::encode(&base64::engine::general_purpose::STANDARD, data)
}

/// A datagram from another node, as the engine's decisions read it (the
/// samples of a voice frame are played by the application, and fields that
/// no decision reads are left out).
pub enum EngineEvent {
    /// A handshake: the sender's key and the name it gives itself.
    InviteExchange { public_key_hex: String, display_name: String },
    /// An invitation into a room.
    RoomInvite { room_id: String, room_name: String, room_emoji: String, inviter_id: String },
    /// Someone joined or left the voice call of a room.
    RoomVoiceState { room_id: String, user_id: String, is_joined: bool },
    /// A chat message of a channel.
    TextMessage {
        channel_id: String,
        message_id: String,
        author_id: String,
        content: String,
        timestamp_ms: i64,
        signature_hex: Option<String>,
    },
    /// A frame of a shared screen (JPEG).
    ScreenVideo { streamer_id: String, payload: Vec<u8> },
    /// A voice frame of a channel's call.
    VoiceAudio { channel_id: String, speaker_id: String },
    /// A latency probe.
    Ping { seq: u64, client_timestamp_ms: u64 },
    /// A gossiped table of routes.
    GossipTable { entries: Vec<PeerGossipEntry> },
    /// The heartbeat of an SFU leader.
    SfuHeartbeat { term: u64, leader_id: String, timestamp_ms: u64 },
    /// Anything else: only its sender is registered.
    Other,
}

/// What the application does about a datagram, in order.
pub enum EngineAction {
    /// Store (or update) a contact.
    SaveContact(ContactCard),
    /// Answer a handshake with this node's own, sent to the endpoint.
    SendInviteExchange { to: String },
    SaveRoom(StoredRoom),
    SaveChannel(StoredChannel),
    AddRoomMember { room_id: String, user_id: String, role: String },
    SaveMessage(StoredMessage),
    /// Add the message to its channel's replicated document.
    AppendToChannelDoc(StoredMessage),
    /// Show a shared-screen frame (a JPEG data URL) and who streams it.
    ShowScreenFrame { data_url: String, streamer_id: String },
    /// Play the voice frame: it belongs to the active call.
    PlayVoice,
    /// Send the datagram itself on to these endpoints.
    Forward { to: Vec<String> },
    /// Answer a probe.
    SendPong { to: String, seq: u64, client_timestamp_ms: u64, server_timestamp_ms: u64 },
}

/// The message a `TextMessage` datagram carries, with no attachments.
pub open spec fn carried_message(
    m: StoredMessage,
    channel_id: String,
    message_id: String,
    author_id: String,
    content: String,
    timestamp_ms: i64,
    signature_hex: Option<String>,
) -> bool {
    &&& m.id == message_id
    &&& m.channel_id == channel_id
    &&& m.author_id == author_id
    &&& m.content == content
    &&& m.attachments@.len() == 0
    &&& m.timestamp_ms == timestamp_ms
    &&& m.signature_hex == signature_hex
}

/// The contact recorded for a handshake from key `public_key_hex` at `src`.
pub open spec fn handshake_card(
    c: ContactCard,
    public_key_hex: String,
    display_name: String,
    src: Seq<char>,
) -> bool {
    &&& c.user_id@ == "bala:"@ + public_key_hex@
    &&& c.public_key_hex == public_key_hex
    &&& c.display_name == display_name
    &&& c.avatar_url is None
    &&& c.bio matches Some(b) && b@ == src
}

/// A media frame of `speaker` in `channel` is forwarded by this node: it is
/// the elected SFU host and the speaker is subscribed to the channel.
pub open spec fn forwards(election: SfuElectionManager, router: SfuRouter, channel: Seq<char>, speaker: Seq<char>) -> bool {
    &&& election.leads()
    &&& router.rooms().contains_key(channel)
    &&& router.rooms()[channel].contains(speaker)
}

/// A copy of a message.
fn copy_message(m: &StoredMessage) -> (res: StoredMessage)
    ensures
        carried_message(res, m.channel_id, m.id, m.author_id, m.content, m.timestamp_ms, m.signature_hex),
{
    StoredMessage {
        id: m.id.clone(),
        channel_id: m.channel_id.clone(),
        author_id: m.author_id.clone(),
        content: m.content.clone(),
        attachments: Vec::new(),
        timestamp_ms: m.timestamp_ms,
        signature_hex: match &m.signature_hex {
            Some(h) => Some(h.clone()),
            None => None,
        },
    }
}

/// Decides what a datagram from `sender_id` at endpoint `src` does. A
/// datagram from this node itself is ignored. Otherwise the sender is
/// registered at `src`, and then: a handshake replaces the stand-in peers at
/// `src` by the keyed peer, records it as a contact and is answered; a room
/// invitation stores the room, its channels and its two members; a voice
/// state updates the room's call; a chat message is stored and added to its
/// channel's document; a screen frame is shown; a voice frame is played when
/// its channel is the active call and, when this node is the SFU host, sent
/// on to the other subscribers whose endpoints are known; a ping is
/// answered; a gossip table is merged; a leader's heartbeat is taken in.
pub fn handle_datagram(
    book: &mut PeerBook,
    election: &mut SfuElectionManager,
    router: &SfuRouter,
    gossip: &mut GossipManager,
    active_voice_channel: &Option<String>,
    my_id: &str,
    sender_id: String,
    src: String,
    event: EngineEvent,
    now_ms: u64,
) -> (actions: Vec<EngineAction>)
    requires
        old(book).wf(),
        old(election).wf(),
        router.wf(),
        old(gossip).wf(),
        time_ok(now_ms),
    ensures
        final(book).wf(),
        final(election).wf(),
        final(gossip).wf(),
        final(gossip).me() == old(gossip).me(),
        sender_id@ == my_id@ ==> {
            &&& actions@.len() == 0
            &&& final(book).peers() == old(book).peers()
            &&& final(book).voice() == old(book).voice()
            &&& *final(election) == *old(election)
            &&& final(gossip).table() == old(gossip).table()
        },
        sender_id@ != my_id@ ==> {
            let peers = old(book).peers().insert(sender_id@, src);
            &&& (event is InviteExchange ==> handshake_peers(peers, final(book).peers(), event->public_key_hex@, src@))
            &&& (!(event is InviteExchange) ==> final(book).peers() == peers)
            &&& (event is RoomVoiceState ==> final(book).voice() == old(book).voice().insert(
                event->RoomVoiceState_room_id@,
                if event->is_joined {
                    old(book).in_call(event->RoomVoiceState_room_id@).insert(event->RoomVoiceState_user_id@)
                } else {
                    old(book).in_call(event->RoomVoiceState_room_id@).remove(event->RoomVoiceState_user_id@)
                },
            ))
            &&& (!(event is RoomVoiceState) ==> final(book).voice() == old(book).voice())
            &&& (event is GossipTable ==> final(gossip).table() == merge_all(old(gossip).table(), event->entries@, old(gossip).me()).0)
            &&& (!(event is GossipTable) ==> final(gossip).table() == old(gossip).table())
            &&& (!(event is SfuHeartbeat) ==> *final(election) == *old(election))
            &&& match event {
                EngineEvent::InviteExchange { public_key_hex, display_name } => {
                    &&& actions@.len() == 2
                    &&& actions@[0] matches EngineAction::SaveContact(c) && handshake_card(c, public_key_hex, display_name, src@)
                    &&& actions@[1] matches EngineAction::SendInviteExchange { to } && to@ == src@
                },
                EngineEvent::RoomInvite { room_id, room_name, room_emoji, inviter_id } => {
                    &&& actions@.len() == 5
                    &&& actions@[0] matches EngineAction::SaveRoom(r)
                    &&& actions@[1] matches EngineAction::SaveChannel(t)
                    &&& actions@[2] matches EngineAction::SaveChannel(v)
                    &&& invite_records(
                        (actions@[0]->SaveRoom_0, actions@[1]->SaveChannel_0, actions@[2]->SaveChannel_0),
                        room_id@,
                        room_name@,
                        room_emoji@,
                        now_ms,
                    )
                    &&& actions@[3] matches EngineAction::AddRoomMember { room_id: a, user_id: u, role: o }
                        && a@ == room_id@ && u@ == inviter_id@ && o@ == "owner"@
                    &&& actions@[4] matches EngineAction::AddRoomMember { room_id: a, user_id: u, role: o }
                        && a@ == room_id@ && u@ == my_id@ && o@ == "member"@
                },
                EngineEvent::RoomVoiceState { .. } => actions@.len() == 0,
                EngineEvent::TextMessage { channel_id, message_id, author_id, content, timestamp_ms, signature_hex } => {
                    &&& actions@.len() == 2
                    &&& actions@[0] matches EngineAction::SaveMessage(m)
                        && carried_message(m, channel_id, message_id, author_id, content, timestamp_ms, signature_hex)
                    &&& actions@[1] matches EngineAction::AppendToChannelDoc(m)
                        && carried_message(m, channel_id, message_id, author_id, content, timestamp_ms, signature_hex)
                },
                EngineEvent::ScreenVideo { streamer_id, payload } => {
                    &&& actions@.len() == 1
                    &&& actions@[0] matches EngineAction::ShowScreenFrame { data_url, streamer_id: s }
                        && data_url@ == "data:image/jpeg;base64,"@ + base64_standard_encoding(payload@) && s == streamer_id
                },
                EngineEvent::VoiceAudio { channel_id, speaker_id } => {
                    let play = active_voice_channel matches Some(a) && a@ == channel_id@;
                    let fwd = forwards(*old(election), *router, channel_id@, speaker_id@);
                    &&& actions@.len() == (if play { 1int } else { 0int }) + (if fwd { 1int } else { 0int })
                    &&& play ==> actions@[0] is PlayVoice
                    &&& fwd ==> (actions@.last() matches EngineAction::Forward { to } && exists|rs: Seq<String>|
                        distinct_names(rs) && names(rs) == router.rooms()[channel_id@].remove(speaker_id@)
                            && to@.map_values(|e: String| e@) == known_endpoints(peers, rs))
                },
                EngineEvent::Ping { seq, client_timestamp_ms } => {
                    &&& actions@.len() == 1
                    &&& actions@[0] matches EngineAction::SendPong { to, seq: q, client_timestamp_ms: c, server_timestamp_ms: t }
                        && to@ == src@ && q == seq && c == client_timestamp_ms && t == now_ms
                },
                EngineEvent::SfuHeartbeat { term, leader_id, timestamp_ms } => {
                    &&& actions@.len() == 0
                    &&& term >= old(election).term() ==> {
                        &&& final(election).term() == term
                        &&& final(election).leader() == Some(leader_id)
                        &&& final(election).last_heartbeat() == timestamp_ms
                    }
                    &&& term < old(election).term() ==> {
                        &&& final(election).term() == old(election).term()
                        &&& final(election).leader() == old(election).leader()
                        &&& final(election).last_heartbeat() == old(election).last_heartbeat()
                    }
                    &&& final(election).second() == old(election).second()
                    &&& final(election).peers() == old(election).peers()
                    &&& final(election).me() == old(election).me()
                },
                _ => actions@.len() == 0,
            }
        },
{
    let mut actions: Vec<EngineAction> = Vec::new();
    if str_eq(sender_id.as_str(), my_id) {
        return actions;
    }
    book.register(sender_id, src.clone());
    match event {
        EngineEvent::InviteExchange { public_key_hex, display_name } => {
            let peer_id = book.register_handshake(public_key_hex.as_str(), src.as_str());
            actions.push(
                EngineAction::SaveContact(
                    ContactCard {
                        user_id: peer_id,
                        public_key_hex,
                        display_name,
                        avatar_url: None,
                        bio: Some(src.clone()),
                    },
                ),
            );
            actions.push(EngineAction::SendInviteExchange { to: src });
        },
        EngineEvent::RoomInvite { room_id, room_name, room_emoji, inviter_id } => {
            let (room, text, voice) = room_invite_records(room_id.as_str(), room_name.as_str(), room_emoji.as_str(), now_ms);
            actions.push(EngineAction::SaveRoom(room));
            actions.push(EngineAction::SaveChannel(text));
            actions.push(EngineAction::SaveChannel(voice));
            actions.push(
                EngineAction::AddRoomMember {
                    room_id: room_id.clone(),
                    user_id: inviter_id,
                    role: to_owned_string("owner"),
                },
            );
            actions.push(
                EngineAction::AddRoomMember { room_id, user_id: to_owned_string(my_id), role: to_owned_string("member") },
            );
            proof {
                reveal_strlit("owner");
                reveal_strlit("member");
            }
        },
        EngineEvent::RoomVoiceState { room_id, user_id, is_joined } => {
            book.set_voice(room_id.as_str(), user_id.as_str(), is_joined);
        },
        EngineEvent::TextMessage { channel_id, message_id, author_id, content, timestamp_ms, signature_hex } => {
            let msg = StoredMessage {
                id: message_id,
                channel_id,
                author_id,
                content,
                attachments: Vec::new(),
                timestamp_ms,
                signature_hex,
            };
            let copy = copy_message(&msg);
            actions.push(EngineAction::SaveMessage(msg));
            actions.push(EngineAction::AppendToChannelDoc(copy));
        },
        EngineEvent::ScreenVideo { streamer_id, payload } => {
            let mut data_url = to_owned_string("data:image/jpeg;base64,");
            let encoded = base64_standard_encode(payload.as_slice());
            push_str(&mut data_url, encoded.as_str());
            actions.push(EngineAction::ShowScreenFrame { data_url, streamer_id });
        },
        EngineEvent::VoiceAudio { channel_id, speaker_id } => {
            let play = match active_voice_channel {
                Some(a) => str_eq(a.as_str(), channel_id.as_str()),
                None => false,
            };
            if play {
                actions.push(EngineAction::PlayVoice);
            }
            if election.is_current_node_sfu() {
                match router.route_media_packet(channel_id.as_str(), speaker_id.as_str()) {
                    Ok(recipients) => {
                        let to = book.endpoints_for(recipients.as_slice());
                        actions.push(EngineAction::Forward { to });
                    },
                    Err(_) => {},
                }
            }
        },
        EngineEvent::Ping { seq, client_timestamp_ms } => {
            actions.push(EngineAction::SendPong { to: src, seq, client_timestamp_ms, server_timestamp_ms: now_ms });
        },
        EngineEvent::GossipTable { entries } => {
            let _ = gossip.merge_gossip_table(entries);
        },
        EngineEvent::SfuHeartbeat { term, leader_id, timestamp_ms } => {
            election.handle_heartbeat(SfuHeartbeat { leader_id, term, timestamp_ms });
        },
        EngineEvent::Other => {},
    }
    actions
}

} // verus!
