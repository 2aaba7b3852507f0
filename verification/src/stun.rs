//! RFC 5389 STUN Binding framing: building requests and reading the
//! reflexive address out of Binding Success responses.

use vstd::prelude::*;
use crate::addr::{Endpoint, IpAddress};

verus! {

broadcast use vstd::array::group_array_axioms;


/// Big-endian 16-bit value at `i`.
pub open spec fn be16(s: Seq<u8>, i: int) -> int {
    s[i] as int * 256 + s[i + 1] as int
}

/// The magic cookie 0x2112A442 as four network-order bytes.
pub open spec fn cookie() -> Seq<u8> {
    seq![0x21u8, 0x12u8, 0xA4u8, 0x42u8]
}

/// The 20-byte Binding Request: type 0x0001, length 0, the magic cookie,
/// then the 12-byte transaction id.
pub open spec fn binding_request_bytes(tid: Seq<u8>) -> Seq<u8> {
    seq![0x00u8, 0x01u8, 0x00u8, 0x00u8] + cookie() + tid
}

/// A Binding Success Response header (type 0x0101) carrying the magic cookie
/// and the given transaction id.
pub open spec fn success_header(buf: Seq<u8>, tid: Seq<u8>) -> bool {
    &&& buf.len() >= 20
    &&& buf[0] == 0x01u8 && buf[1] == 0x01u8
    &&& buf.subrange(4, 8) == cookie()
    &&& buf.subrange(8, 20) == tid
}

/// Where the attribute section ends: at the declared message length, cut to
/// the received bytes.
pub open spec fn attrs_end(buf: Seq<u8>) -> int {
    if 20 + be16(buf, 2) < buf.len() { 20 + be16(buf, 2) } else { buf.len() as int }
}

/// Attributes are padded to a multiple of four bytes.
pub open spec fn padded(len: int) -> int {
    len + (4 - len % 4) % 4
}

/// The port of an XOR-MAPPED-ADDRESS value starting at `v`.
pub open spec fn xor_port(buf: Seq<u8>, v: int) -> u16 {
    (((buf[v + 2] ^ 0x21u8) as int) * 256 + ((buf[v + 3] ^ 0x12u8) as int)) as u16
}

/// The port of a plain MAPPED-ADDRESS value starting at `v`.
pub open spec fn plain_port(buf: Seq<u8>, v: int) -> u16 {
    be16(buf, v + 2) as u16
}

/// The IPv4 address of an XOR-MAPPED-ADDRESS value starting at `v`.
pub open spec fn xor_v4(buf: Seq<u8>, v: int) -> IpAddress {
    IpAddress::V4([buf[v + 4] ^ 0x21u8, buf[v + 5] ^ 0x12u8, buf[v + 6] ^ 0xA4u8, buf[v + 7] ^ 0x42u8])
}

/// The IPv4 address of a plain MAPPED-ADDRESS value starting at `v`.
pub open spec fn plain_v4(buf: Seq<u8>, v: int) -> IpAddress {
    IpAddress::V4([buf[v + 4], buf[v + 5], buf[v + 6], buf[v + 7]])
}

/// The 16-byte array whose bytes are `s`.
pub open spec fn array16(s: Seq<u8>) -> [u8; 16] {
    choose|a: [u8; 16]| a@ == s
}

/// The IPv6 address of an XOR-MAPPED-ADDRESS value at `v`: the bytes XORed with
/// the cookie followed by the transaction id.
pub open spec fn xor_v6(buf: Seq<u8>, v: int, tid: Seq<u8>) -> IpAddress {
    IpAddress::V6(array16(Seq::new(16, |i: int| buf[v + 4 + i] ^ (cookie() + tid)[i])))
}

/// Walks the attributes from `offset` to `end`. The first XOR-MAPPED-ADDRESS
/// (IPv4, or IPv6 when long enough) answers at once; otherwise the last IPv4
/// MAPPED-ADDRESS seen is the answer. A truncated attribute ends the walk.
pub open spec fn scan_attrs(buf: Seq<u8>, tid: Seq<u8>, offset: int, end: int, found: Option<
    Endpoint,
>) -> Option<Endpoint>
    decreases end + 4 - offset,
{
    if offset + 4 > end {
        found
    } else {
        let t = be16(buf, offset);
        let l = be16(buf, offset + 2);
        let v = offset + 4;
        if v + l > end {
            found
        } else if t == 0x20 && l >= 8 && buf[v + 1] == 1u8 {
            Some(Endpoint { ip: xor_v4(buf, v), port: xor_port(buf, v) })
        } else if t == 0x20 && l >= 20 && buf[v + 1] == 2u8 {
            Some(Endpoint { ip: xor_v6(buf, v, tid), port: xor_port(buf, v) })
        } else if t == 0x01 && l >= 8 && buf[v + 1] == 1u8 {
            proof {
                assert(0 <= l % 4 < 4);
            }
            scan_attrs(
                buf,
                tid,
                v + padded(l),
                end,
                Some(Endpoint { ip: plain_v4(buf, v), port: plain_port(buf, v) }),
            )
        } else {
            proof {
                assert(0 <= l % 4 < 4);
            }
            scan_attrs(buf, tid, v + padded(l), end, found)
        }
    }
}

/// The reflexive address that a Binding Success Response reports, if any.
pub open spec fn spec_parse_binding_response(buf: Seq<u8>, tid: Seq<u8>) -> Option<Endpoint> {
    if success_header(buf, tid) {
        scan_attrs(buf, tid, 20, attrs_end(buf), None)
    } else {
        None
    }
}

/// The attribute at `offset` is complete within `end`: its four-byte header
/// and its value fit.
pub open spec fn attr_complete(buf: Seq<u8>, offset: int, end: int) -> bool {
    offset + 4 <= end && offset + 4 + be16(buf, offset + 2) <= end
}

/// The attribute at `offset` is an XOR-MAPPED-ADDRESS (type 0x0020) of a
/// family that is read: IPv4 with at least 8 value bytes, or IPv6 with at
/// least 20.
pub open spec fn is_xor_mapped(buf: Seq<u8>, offset: int) -> bool {
    &&& be16(buf, offset) == 0x20
    &&& ((be16(buf, offset + 2) >= 8 && buf[offset + 5] == 1u8) || (be16(buf, offset + 2) >= 20 && buf[offset + 5]
        == 2u8))
}

/// The attribute at `pos` is reached from `offset` by stepping over complete
/// attributes (each padded to four bytes), none of which is a read
/// XOR-MAPPED-ADDRESS.
pub open spec fn reached_past_non_xor(buf: Seq<u8>, offset: int, end: int, pos: int) -> bool
    decreases end + 4 - offset,
{
    if offset == pos {
        true
    } else if !attr_complete(buf, offset, end) || is_xor_mapped(buf, offset) {
        false
    } else {
        let l = be16(buf, offset + 2);
        proof {
            assert(0 <= l % 4 < 4);
        }
        reached_past_non_xor(buf, offset + 4 + padded(l), end, pos)
    }
}

proof fn lemma_scan_reaches_xor(buf: Seq<u8>, tid: Seq<u8>, offset: int, end: int, pos: int, found: Option<Endpoint>)
    requires
        reached_past_non_xor(buf, offset, end, pos),
        attr_complete(buf, pos, end),
        be16(buf, pos) == 0x20,
        be16(buf, pos + 2) >= 8,
        buf[pos + 5] == 1u8,
    ensures
        scan_attrs(buf, tid, offset, end, found) == Some(Endpoint { ip: xor_v4(buf, pos + 4), port: xor_port(buf, pos + 4) }),
    decreases end + 4 - offset,
{
    if offset != pos {
        let l = be16(buf, offset + 2);
        assert(0 <= l % 4 < 4);
        let v = offset + 4;
        let t = be16(buf, offset);
        if t == 0x01 && l >= 8 && buf[v + 1] == 1u8 {
            lemma_scan_reaches_xor(
                buf,
                tid,
                v + padded(l),
                end,
                pos,
                Some(Endpoint { ip: plain_v4(buf, v), port: plain_port(buf, v) }),
            );
        } else {
            lemma_scan_reaches_xor(buf, tid, v + padded(l), end, pos, found);
        }
    }
}

/// An XOR-MAPPED-ADDRESS wins: when the attributes of a Binding Success
/// Response lead, past complete attributes that are no XOR-MAPPED-ADDRESS
/// (plain MAPPED-ADDRESS ones included), to a complete IPv4
/// XOR-MAPPED-ADDRESS, the address reported is that one, decoded with the
/// magic cookie: its port XORed with 0x2112 and its address with 0x2112A442.
pub proof fn lemma_xor_mapped_wins(buf: Seq<u8>, tid: Seq<u8>, pos: int)
    requires
        success_header(buf, tid),
        reached_past_non_xor(buf, 20, attrs_end(buf), pos),
        attr_complete(buf, pos, attrs_end(buf)),
        be16(buf, pos) == 0x20,
        be16(buf, pos + 2) >= 8,
        buf[pos + 5] == 1u8,
    ensures
        spec_parse_binding_response(buf, tid) == Some(
            Endpoint {
                ip: IpAddress::V4(
                    [buf[pos + 8] ^ 0x21u8, buf[pos + 9] ^ 0x12u8, buf[pos + 10] ^ 0xA4u8, buf[pos + 11] ^ 0x42u8],
                ),
                port: (((buf[pos + 6] ^ 0x21u8) as int) * 256 + ((buf[pos + 7] ^ 0x12u8) as int)) as u16,
            },
        ),
{
    lemma_scan_reaches_xor(buf, tid, 20, attrs_end(buf), pos, None);
}

/// The attribute at `offset` is an IPv4 MAPPED-ADDRESS (type 0x0001, at
/// least 8 value bytes, family 1).
pub open spec fn is_mapped_v4(buf: Seq<u8>, offset: int) -> bool {
    be16(buf, offset) == 0x01 && be16(buf, offset + 2) >= 8 && buf[offset + 5] == 1u8
}

/// From `offset`, the attributes run out (or one is truncated) without a
/// read XOR-MAPPED-ADDRESS or an IPv4 MAPPED-ADDRESS.
pub open spec fn ends_without_address(buf: Seq<u8>, offset: int, end: int) -> bool
    decreases end + 4 - offset,
{
    if !attr_complete(buf, offset, end) {
        true
    } else if is_xor_mapped(buf, offset) || is_mapped_v4(buf, offset) {
        false
    } else {
        let l = be16(buf, offset + 2);
        proof {
            assert(0 <= l % 4 < 4);
        }
        ends_without_address(buf, offset + 4 + padded(l), end)
    }
}

proof fn lemma_scan_keeps_found(buf: Seq<u8>, tid: Seq<u8>, offset: int, end: int, found: Option<Endpoint>)
    requires
        ends_without_address(buf, offset, end),
    ensures
        scan_attrs(buf, tid, offset, end, found) == found,
    decreases end + 4 - offset,
{
    if attr_complete(buf, offset, end) {
        let l = be16(buf, offset + 2);
        assert(0 <= l % 4 < 4);
        lemma_scan_keeps_found(buf, tid, offset + 4 + padded(l), end, found);
    }
}

proof fn lemma_scan_last_mapped(buf: Seq<u8>, tid: Seq<u8>, offset: int, end: int, pos: int, found: Option<Endpoint>)
    requires
        reached_past_non_xor(buf, offset, end, pos),
        attr_complete(buf, pos, end),
        is_mapped_v4(buf, pos),
        ends_without_address(buf, pos + 4 + padded(be16(buf, pos + 2)), end),
    ensures
        scan_attrs(buf, tid, offset, end, found) == Some(Endpoint { ip: plain_v4(buf, pos + 4), port: plain_port(buf, pos + 4) }),
    decreases end + 4 - offset,
{
    let l = be16(buf, offset + 2);
    assert(0 <= l % 4 < 4);
    let v = offset + 4;
    if offset == pos {
        lemma_scan_keeps_found(buf, tid, v + padded(l), end, Some(Endpoint { ip: plain_v4(buf, v), port: plain_port(buf, v) }));
    } else if be16(buf, offset) == 0x01 && l >= 8 && buf[v + 1] == 1u8 {
        lemma_scan_last_mapped(buf, tid, v + padded(l), end, pos, Some(Endpoint { ip: plain_v4(buf, v), port: plain_port(buf, v) }));
    } else {
        lemma_scan_last_mapped(buf, tid, v + padded(l), end, pos, found);
    }
}

/// A plain MAPPED-ADDRESS is only the fallback: when the attributes carry no
/// read XOR-MAPPED-ADDRESS and the last IPv4 MAPPED-ADDRESS is at `pos`
/// (earlier ones are passed over), the address reported is that one, read
/// as it stands.
pub proof fn lemma_mapped_is_fallback(buf: Seq<u8>, tid: Seq<u8>, pos: int)
    requires
        success_header(buf, tid),
        reached_past_non_xor(buf, 20, attrs_end(buf), pos),
        attr_complete(buf, pos, attrs_end(buf)),
        is_mapped_v4(buf, pos),
        ends_without_address(buf, pos + 4 + padded(be16(buf, pos + 2)), attrs_end(buf)),
    ensures
        spec_parse_binding_response(buf, tid) == Some(
            Endpoint {
                ip: IpAddress::V4([buf[pos + 8], buf[pos + 9], buf[pos + 10], buf[pos + 11]]),
                port: (buf[pos + 6] as int * 256 + buf[pos + 7] as int) as u16,
            },
        ),
{
    lemma_scan_last_mapped(buf, tid, 20, attrs_end(buf), pos, None);
}

/// The shorter walk used by the desktop client: only an IPv4 XOR-MAPPED-ADDRESS
/// counts, and attributes are stepped over without padding.
pub open spec fn scan_xor_v4(buf: Seq<u8>, offset: int, end: int) -> Option<Endpoint>
    decreases end - offset,
{
    if offset + 4 > end {
        None
    } else {
        let t = be16(buf, offset);
        let l = be16(buf, offset + 2);
        let v = offset + 4;
        if v + l > end {
            None
        } else if t == 0x20 && l >= 8 && buf[v + 1] == 1u8 {
            Some(Endpoint { ip: xor_v4(buf, v), port: xor_port(buf, v) })
        } else {
            scan_xor_v4(buf, v + l, end)
        }
    }
}

/// What the desktop client reads out of a Binding Success Response.
pub open spec fn spec_parse_stun_response(buf: Seq<u8>, tid: Seq<u8>) -> Option<Endpoint> {
    if success_header(buf, tid) {
        scan_xor_v4(buf, 20, attrs_end(buf))
    } else {
        None
    }
}

proof fn lemma_array16(a: [u8; 16])
    ensures
        array16(a@) == a,
{
    let b = array16(a@);
    assert(b@ == a@);
    assert(b =~= a);
}

fn read_be16(buf: &[u8], i: usize) -> (res: usize)
    requires
        i + 1 < buf@.len(),
    ensures
        res == be16(buf@, i as int),
        res <= 65535,
{
    (buf[i] as usize) * 256 + (buf[i + 1] as usize)
}

fn header_matches(buf: &[u8], transaction_id: &[u8; 12]) -> (res: bool)
    requires
        buf@.len() >= 20,
    ensures
        res == (buf@.subrange(4, 8) == cookie() && buf@.subrange(8, 20) == transaction_id@),
{
    let cookie_ok = buf[4] == 0x21 && buf[5] == 0x12 && buf[6] == 0xA4 && buf[7] == 0x42;
    assert(cookie_ok == (buf@.subrange(4, 8) =~= cookie()));
    let mut i: usize = 0;
    let mut same = true;
    while i < 12
        invariant
            0 <= i <= 12,
            buf@.len() >= 20,
            same == (forall|j: int| 0 <= j < i ==> buf@[8 + j] == transaction_id@[j]),
        decreases 12 - i,
    {
        if buf[8 + i] != transaction_id[i] {
            same = false;
        }
        i = i + 1;
    }
    assert(same == (buf@.subrange(8, 20) =~= transaction_id@));
    cookie_ok && same
}

/// Creates an RFC 5389 STUN Binding Request message (20 bytes).
pub fn create_binding_request(transaction_id: &[u8; 12]) -> (res: [u8; 20])
    ensures
        res@ == binding_request_bytes(transaction_id@),
{
    let mut buf = [0u8; 20];
    buf[1] = 0x01;
    buf[4] = 0x21;
    buf[5] = 0x12;
    buf[6] = 0xA4;
    buf[7] = 0x42;
    let mut i: usize = 0;
    while i < 12
        invariant
            0 <= i <= 12,
            buf@.len() == 20,
            buf@[0] == 0u8 && buf@[1] == 1u8 && buf@[2] == 0u8 && buf@[3] == 0u8,
            buf@[4] == 0x21u8 && buf@[5] == 0x12u8 && buf@[6] == 0xA4u8 && buf@[7] == 0x42u8,
            forall|j: int| 0 <= j < i ==> buf@[8 + j] == transaction_id@[j],
        decreases 12 - i,
    {
        buf[8 + i] = transaction_id[i];
        i = i + 1;
    }
    assert(buf@ =~= binding_request_bytes(transaction_id@));
    buf
}

/// Parses an RFC 5389 Binding Success Response and extracts the public
/// reflexive address: the first XOR-MAPPED-ADDRESS, else the last IPv4
/// MAPPED-ADDRESS. Responses of another type, cookie or transaction yield
/// nothing.
pub fn parse_binding_response(buf: &[u8], transaction_id: &[u8; 12]) -> (res: Option<Endpoint>)
    ensures
        res == spec_parse_binding_response(buf@, transaction_id@),
        res is Some ==> success_header(buf@, transaction_id@),
{
    if buf.len() < 20 {
        return None;
    }
    if !(buf[0] == 0x01 && buf[1] == 0x01) {
        return None;
    }
    if !header_matches(buf, transaction_id) {
        return None;
    }
    let msg_len = read_be16(buf, 2);
    let end: usize = if 20 + msg_len < buf.len() { 20 + msg_len } else { buf.len() };
    let mut offset: usize = 20;
    let mut mapped: Option<Endpoint> = None;
    let ghost tid = transaction_id@;

    while offset + 4 <= end
        invariant
            20 <= offset <= end + 3,
            end <= buf@.len(),
            end <= 65555,
            end == attrs_end(buf@),
            success_header(buf@, tid),
            tid == transaction_id@,
            spec_parse_binding_response(buf@, tid) == scan_attrs(buf@, tid, offset as int, end as int, mapped),
        ensures
            spec_parse_binding_response(buf@, tid) == mapped,
        decreases end + 4 - offset,
    {
        let attr_type = read_be16(buf, offset);
        let attr_len = read_be16(buf, offset + 2);
        let v = offset + 4;
        if v + attr_len > end {
            break;
        }
        if attr_type == 0x0020 && attr_len >= 8 {
            let family = buf[v + 1];
            let port = (((buf[v + 2] ^ 0x21) as u16) * 256) + ((buf[v + 3] ^ 0x12) as u16);
            if family == 0x01 {
                let ip = [buf[v + 4] ^ 0x21, buf[v + 5] ^ 0x12, buf[v + 6] ^ 0xA4, buf[v + 7] ^ 0x42];
                let ep = Endpoint { ip: IpAddress::V4(ip), port };
                assert(ep == Endpoint { ip: xor_v4(buf@, v as int), port: xor_port(buf@, v as int) });
                return Some(ep);
            } else if family == 0x02 && attr_len >= 20 {
                let mut ip = [0u8; 16];
                let mut i: usize = 0;
                while i < 16
                    invariant
                        0 <= i <= 16,
                        v + 20 <= buf@.len(),
                        v <= 65555,
                        tid == transaction_id@,
                        tid.len() == 12,
                        forall|j: int|
                            0 <= j < i ==> ip@[j] == buf@[v + 4 + j] ^ (cookie() + tid)[j],
                    decreases 16 - i,
                {
                    let key = if i < 4 {
                        if i == 0 { 0x21u8 } else if i == 1 { 0x12u8 } else if i == 2 { 0xA4u8 } else { 0x42u8 }
                    } else {
                        transaction_id[i - 4]
                    };
                    assert(key == (cookie() + tid)[i as int]);
                    ip[i] = buf[v + 4 + i] ^ key;
                    i = i + 1;
                }
                proof {
                    assert(ip@ =~= Seq::new(16, |j: int| buf@[v + 4 + j] ^ (cookie() + tid)[j]));
                    lemma_array16(ip);
                }
                return Some(Endpoint { ip: IpAddress::V6(ip), port });
            }
        } else if attr_type == 0x0001 && attr_len >= 8 {
            let family = buf[v + 1];
            let port = read_be16(buf, v + 2) as u16;
            if family == 0x01 {
                let ip = [buf[v + 4], buf[v + 5], buf[v + 6], buf[v + 7]];
                mapped = Some(Endpoint { ip: IpAddress::V4(ip), port });
                assert(mapped == Some(Endpoint { ip: plain_v4(buf@, v as int), port: plain_port(buf@, v as int) }));
            }
        }
        let padding = (4 - (attr_len % 4)) % 4;
        offset = v + attr_len + padding;
    }
    mapped
}

/// Parses a Binding Success Response the way the desktop client does: only an
/// IPv4 XOR-MAPPED-ADDRESS is read, and attributes are stepped over without
/// padding.
pub fn parse_stun_response(buf: &[u8], tx_id: &[u8; 12]) -> (res: Option<Endpoint>)
    ensures
        res == spec_parse_stun_response(buf@, tx_id@),
        res is Some ==> success_header(buf@, tx_id@),
{
    if buf.len() < 20 {
        return None;
    }
    if !(buf[0] == 0x01 && buf[1] == 0x01) {
        return None;
    }
    if !header_matches(buf, tx_id) {
        return None;
    }
    let msg_len = read_be16(buf, 2);
    let end: usize = if 20 + msg_len < buf.len() { 20 + msg_len } else { buf.len() };
    let mut offset: usize = 20;

    while offset + 4 <= end
        invariant
            20 <= offset <= end,
            end <= buf@.len(),
            end <= 65555,
            end == attrs_end(buf@),
            success_header(buf@, tx_id@),
            spec_parse_stun_response(buf@, tx_id@) == scan_xor_v4(buf@, offset as int, end as int),
        decreases end + 4 - offset,
    {
        let attr_type = read_be16(buf, offset);
        let attr_len = read_be16(buf, offset + 2);
        let v = offset + 4;
        if v + attr_len > end {
            return None;
        }
        if attr_type == 0x0020 && attr_len >= 8 && buf[v + 1] == 0x01 {
            let port = (((buf[v + 2] ^ 0x21) as u16) * 256) + ((buf[v + 3] ^ 0x12) as u16);
            let ip = [buf[v + 4] ^ 0x21, buf[v + 5] ^ 0x12, buf[v + 6] ^ 0xA4, buf[v + 7] ^ 0x42];
            return Some(Endpoint { ip: IpAddress::V4(ip), port });
        }
        offset = v + attr_len;
    }
    None
}

} // verus!
