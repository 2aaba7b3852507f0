use balabol::addr::{Endpoint, IpAddress};
use balabol::stun::{create_binding_request, parse_binding_response, parse_stun_response};

fn response_with_xor_v4(tid: &[u8; 12], port: u16, ip: [u8; 4]) -> Vec<u8> {
    let mut resp = Vec::new();
    resp.extend_from_slice(&0x0101u16.to_be_bytes());
    resp.extend_from_slice(&12u16.to_be_bytes());
    resp.extend_from_slice(&0x2112A442u32.to_be_bytes());
    resp.extend_from_slice(tid);
    let x_port = port ^ 0x2112;
    let x_ip = u32::from_be_bytes(ip) ^ 0x2112A442;
    resp.extend_from_slice(&0x0020u16.to_be_bytes());
    resp.extend_from_slice(&8u16.to_be_bytes());
    resp.push(0);
    resp.push(1);
    resp.extend_from_slice(&x_port.to_be_bytes());
    resp.extend_from_slice(&x_ip.to_be_bytes());
    resp
}

#[test]
fn test_stun_request_format() {
    let tid = [1, 2, 3, 4, 5, 6, 7, 8, 9, 10, 11, 12];
    let req = create_binding_request(&tid);
    assert_eq!(req.len(), 20);
    assert_eq!(u16::from_be_bytes([req[0], req[1]]), 0x0001);
    assert_eq!(u16::from_be_bytes([req[2], req[3]]), 0x0000);
    assert_eq!(u32::from_be_bytes([req[4], req[5], req[6], req[7]]), 0x2112A442);
    assert_eq!(&req[8..20], &tid);
}

#[test]
fn test_stun_parse_xor_mapped_ipv4() {
    let tid = [1, 2, 3, 4, 5, 6, 7, 8, 9, 10, 11, 12];
    let resp = response_with_xor_v4(&tid, 42420, [85, 140, 20, 10]);
    let parsed = parse_binding_response(&resp, &tid).unwrap();
    assert_eq!(parsed.ip, IpAddress::V4([85, 140, 20, 10]));
    assert_eq!(parsed.port, 42420);
}

#[test]
fn stun_response_with_other_transaction_is_ignored() {
    let tid = [1, 2, 3, 4, 5, 6, 7, 8, 9, 10, 11, 12];
    let other = [9u8; 12];
    let resp = response_with_xor_v4(&tid, 42420, [85, 140, 20, 10]);
    assert!(parse_binding_response(&resp, &other).is_none());
    assert!(parse_stun_response(&resp, &other).is_none());
}

#[test]
fn stun_request_is_not_a_response() {
    let tid = [7u8; 12];
    let req = create_binding_request(&tid);
    assert!(parse_binding_response(&req, &tid).is_none());
    assert!(parse_stun_response(&req, &tid).is_none());
}

#[test]
fn stun_desktop_parser_reads_xor_mapped_ipv4() {
    let tid = [3u8; 12];
    let resp = response_with_xor_v4(&tid, 9987, [2, 27, 58, 7]);
    assert_eq!(parse_stun_response(&resp, &tid), Some(Endpoint::v4(2, 27, 58, 7, 9987)));
}

#[test]
fn stun_truncated_response_is_rejected() {
    let tid = [1u8; 12];
    let resp = response_with_xor_v4(&tid, 1000, [10, 0, 0, 1]);
    assert!(parse_binding_response(&resp[..19], &tid).is_none());
    assert!(parse_binding_response(&resp[..26], &tid).is_none());
}
