//! Choosing the physical network interface that traffic should leave by,
//! so that VPN and virtual adapters are bypassed.

use vstd::prelude::*;
use crate::signaling::{to_lowercase, unicode_lowercase};
use crate::text::chars_of;

verus! {

/// What the system reports of a network adapter.
#[derive(Debug, Clone, PartialEq, Eq)]
pub struct NetworkAdapter {
    /// The interface type: 6 Ethernet, 71 802.11 Wi-Fi, 243 and 244
    /// mobile broadband.
    pub if_type: u32,
    /// The operational status: 1 when up.
    pub oper_status: i32,
    pub description: String,
    pub if_index: u32,
}

/// `needle` occurs in `hay`.
pub open spec fn occurs_in(needle: Seq<char>, hay: Seq<char>) -> bool {
    exists|i: int| 0 <= i && i + needle.len() <= hay.len() && #[trigger] hay.subrange(i, i + needle.len()) == needle
}

/// Whether `needle` occurs in `hay`.
pub fn contains_text(hay: &[char], needle: &str) -> (res: bool)
    ensures
        res == occurs_in(needle@, hay@),
{
    let n = chars_of(needle);
    let h = hay.len();
    if n.len() > h {
        return false;
    }
    let last = h - n.len();
    let mut i: usize = 0;
    while i <= last
        invariant
            h == hay@.len(),
            last == h - n@.len(),
            n@ == needle@,
            n@.len() <= hay@.len(),
            0 <= i <= last + 1,
            forall|j: int| 0 <= j < i ==> #[trigger] hay@.subrange(j, j + n@.len()) != n@,
        decreases hay@.len() - i,
    {
        let mut k: usize = 0;
        let mut same = true;
        while k < n.len()
            invariant
                h == hay@.len(),
                n@ == needle@,
                i + n@.len() <= hay@.len(),
                0 <= k <= n@.len(),
                same == (forall|m: int| 0 <= m < k ==> hay@[i + m] == n@[m]),
            decreases n@.len() - k,
        {
            if hay[i + k] != n[k] {
                same = false;
            }
            k = k + 1;
        }
        if same {
            assert(hay@.subrange(i as int, i + n@.len()) =~= n@);
            return true;
        }
        assert(hay@.subrange(i as int, i + n@.len()) != n@) by {
            let m = choose|m: int| 0 <= m < n@.len() && hay@[i + m] != n@[m];
            assert(hay@.subrange(i as int, i + n@.len())[m] == hay@[i + m]);
        }
        i = i + 1;
    }
    false
}

/// The words that mark a virtual or VPN adapter in its description.
pub open spec fn vpn_markers() -> Seq<Seq<char>> {
    seq!["tap"@, "tun"@, "wireguard"@, "wintun"@, "v2ray"@, "sing-box"@, "openvpn"@, "tailscale"@]
}

/// An adapter whose lowercased description names a VPN marker.
pub open spec fn looks_virtual(description: Seq<char>) -> bool {
    exists|j: int| 0 <= j < vpn_markers().len() && occurs_in(#[trigger] vpn_markers()[j], unicode_lowercase(description))
}

/// A wired, wireless or mobile adapter that is up and not a VPN.
pub open spec fn is_physical(a: NetworkAdapter) -> bool {
    &&& (a.if_type == 6 || a.if_type == 71 || a.if_type == 243 || a.if_type == 244)
    &&& a.oper_status == 1
    &&& !looks_virtual(a.description@)
}

/// Whether an adapter is physical, up and not a VPN.
pub fn is_physical_adapter(a: &NetworkAdapter) -> (res: bool)
    ensures
        res == is_physical(*a),
{
    let physical_type = a.if_type == 6 || a.if_type == 71 || a.if_type == 243 || a.if_type == 244;
    if !physical_type || a.oper_status != 1 {
        return false;
    }
    let lower = to_lowercase(a.description.as_str());
    let cs = chars_of(lower.as_str());
    let hits = [
        contains_text(cs.as_slice(), "tap"),
        contains_text(cs.as_slice(), "tun"),
        contains_text(cs.as_slice(), "wireguard"),
        contains_text(cs.as_slice(), "wintun"),
        contains_text(cs.as_slice(), "v2ray"),
        contains_text(cs.as_slice(), "sing-box"),
        contains_text(cs.as_slice(), "openvpn"),
        contains_text(cs.as_slice(), "tailscale"),
    ];
    let any = hits[0] || hits[1] || hits[2] || hits[3] || hits[4] || hits[5] || hits[6] || hits[7];
    proof {
        let m = vpn_markers();
        if any {
            let j = choose|j: int| 0 <= j < 8 && hits@[j];
            assert(occurs_in(m[j], unicode_lowercase(a.description@)));
        }
        if looks_virtual(a.description@) {
            let j = choose|j: int| 0 <= j < m.len() && occurs_in(#[trigger] m[j], unicode_lowercase(a.description@));
            assert(hits@[j]);
        }
    }
    !any
}

/// The index of the first physical adapter with a nonzero index.
pub open spec fn first_physical(adapters: Seq<NetworkAdapter>) -> Option<u32>
    decreases adapters.len(),
{
    if adapters.len() == 0 {
        None
    } else if is_physical(adapters[0]) && adapters[0].if_index > 0 {
        Some(adapters[0].if_index)
    } else {
        first_physical(adapters.drop_first())
    }
}

/// The physical interface to bind to, among the adapters the system
/// reports (on Windows, the IPv4 adapters that `GetAdaptersAddresses` lists):
/// the first physical adapter, in the system's order, with a nonzero index.
pub fn find_best_physical_interface_index(adapters: &[NetworkAdapter]) -> (res: Option<u32>)
    ensures
        res == first_physical(adapters@),
{
    let mut i: usize = 0;
    assert(adapters@.skip(0) =~= adapters@);
    while i < adapters.len()
        invariant
            0 <= i <= adapters@.len(),
            first_physical(adapters@) == first_physical(adapters@.skip(i as int)),
        decreases adapters@.len() - i,
    {
        assert(adapters@.skip(i as int).drop_first() =~= adapters@.skip(i + 1));
        if is_physical_adapter(&adapters[i]) && adapters[i].if_index > 0 {
            return Some(adapters[i].if_index);
        }
        i = i + 1;
    }
    None
}

} // verus!
