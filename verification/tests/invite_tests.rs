use balabol::addr::{Endpoint, IpAddress};
use balabol::invite::{
    answer_payload, create_answer_link, create_offer_link, link_token, offer_payload, resolve_answer, resolve_offer,
    AnswerData, LegacyInvite, OfferData,
};

fn endpoint_text(e: &Endpoint) -> String {
    match e.ip {
        IpAddress::V4(b) => format!("{}.{}.{}.{}:{}", b[0], b[1], b[2], b[3], e.port),
        IpAddress::V6(_) => panic!("only IPv4 here"),
    }
}

fn parse_endpoint(s: &str) -> Option<Endpoint> {
    let (ip, port) = s.rsplit_once(':')?;
    let parts: Vec<u8> = ip.split('.').map(|p| p.parse().ok()).collect::<Option<Vec<u8>>>()?;
    if parts.len() != 4 {
        return None;
    }
    Some(Endpoint::v4(parts[0], parts[1], parts[2], parts[3], port.parse().ok()?))
}

fn offer_json(name: &str, room: &str, candidates: &[Endpoint]) -> Vec<u8> {
    let list: Vec<String> = candidates.iter().map(|c| format!("\"{}\"", endpoint_text(c))).collect();
    format!("{{\"name\":\"{}\",\"room\":\"{}\",\"candidates\":[{}]}}", name, room, list.join(",")).into_bytes()
}

fn answer_json(name: &str, candidates: &[Endpoint]) -> Vec<u8> {
    let list: Vec<String> = candidates.iter().map(|c| format!("\"{}\"", endpoint_text(c))).collect();
    format!("{{\"name\":\"{}\",\"candidates\":[{}]}}", name, list.join(",")).into_bytes()
}

fn read_candidates(v: &serde_json::Value) -> Vec<Endpoint> {
    v["candidates"].as_array().unwrap().iter().filter_map(|c| parse_endpoint(c.as_str()?)).collect()
}

fn parse_offer_link(raw: &str) -> Result<OfferData, String> {
    let decoded = offer_payload(raw).and_then(|bytes| {
        let v: serde_json::Value = serde_json::from_slice(&bytes).ok()?;
        Some(OfferData {
            name: v["name"].as_str()?.to_string(),
            room: v["room"].as_str()?.to_string(),
            candidates: read_candidates(&v),
        })
    });
    resolve_offer(decoded, None, parse_endpoint(raw.trim()))
}

fn parse_answer_link(raw: &str) -> Result<AnswerData, String> {
    let decoded = answer_payload(raw).and_then(|bytes| {
        let v: serde_json::Value = serde_json::from_slice(&bytes).ok()?;
        Some(AnswerData { name: v["name"].as_str()?.to_string(), candidates: read_candidates(&v) })
    });
    resolve_answer(decoded, parse_endpoint(raw.trim()))
}

#[test]
fn test_offer_and_answer_roundtrip() {
    let candidates = vec![parse_endpoint("192.168.1.192:9987").unwrap(), parse_endpoint("2.27.58.7:46801").unwrap()];

    let offer_link = create_offer_link(&offer_json("HostPC", "Room1", &candidates));
    assert!(offer_link.starts_with("bala://offer/"));

    let offer = parse_offer_link(&offer_link).expect("Parse offer failed");
    assert_eq!(offer.name, "HostPC");
    assert_eq!(offer.room, "Room1");
    assert_eq!(offer.candidates.len(), 2);

    let answer_link = create_answer_link(&answer_json("LaptopClient", &candidates));
    assert!(answer_link.starts_with("bala://answer/"));

    let answer = parse_answer_link(&answer_link).expect("Parse answer failed");
    assert_eq!(answer.name, "LaptopClient");
    assert_eq!(answer.candidates.len(), 2);
}

#[test]
fn pasted_links_are_trimmed_and_unframed() {
    assert_eq!(link_token("  bala://offer/abc \n", "bala://offer/"), "abc");
    assert_eq!(link_token("bala://xyz", "bala://offer/"), "xyz");
    assert_eq!(link_token("plain", "bala://offer/"), "plain");
    let link = create_offer_link(b"{}");
    assert_eq!(offer_payload(&format!("  {}  ", link)), Some(b"{}".to_vec()));
    assert_eq!(offer_payload("bala://offer/!!!"), None);
}

#[test]
fn bare_address_and_errors() {
    let a = parse_endpoint("10.0.0.1:5000").unwrap();
    let o = resolve_offer(None, None, Some(a)).unwrap();
    assert_eq!(o.name, "Прямой узел");
    assert_eq!(o.room, "Комната");
    assert_eq!(o.candidates, vec![a]);
    assert_eq!(
        resolve_offer(None, None, None).unwrap_err(),
        "Неверный формат Offer. Вставьте ссылку вида bala://offer/..."
    );
    let ans = resolve_answer(Some(AnswerData { name: "n".into(), candidates: vec![] }), Some(a)).unwrap();
    assert_eq!(ans.name, "Узел-клиент");
    assert_eq!(
        resolve_answer(None, None).unwrap_err(),
        "Неверный формат Answer. Вставьте ссылку вида bala://answer/..."
    );
}

#[test]
fn legacy_invites_keep_distinct_addresses() {
    let a = parse_endpoint("192.168.0.2:1").unwrap();
    let b = parse_endpoint("5.6.7.8:2").unwrap();
    let legacy = |loc, pub_addr| LegacyInvite { name: "L".into(), room: "R".into(), loc, pub_addr };
    let o = resolve_offer(None, Some(legacy(Some(a), Some(a))), None).unwrap();
    assert_eq!(o.candidates, vec![a]);
    let o = resolve_offer(None, Some(legacy(Some(a), Some(b))), None).unwrap();
    assert_eq!(o.candidates, vec![a, b]);
    assert!(resolve_offer(None, Some(legacy(None, None)), None).is_err());
    let empty = OfferData { name: "x".into(), room: "y".into(), candidates: vec![] };
    let o = resolve_offer(Some(empty), Some(legacy(None, Some(b))), None).unwrap();
    assert_eq!(o.name, "L");
}
