use balabol::crdt::{CrdtChannelDoc, CrdtError};

fn message_json(id: &str, content: &str, timestamp_ms: i64) -> String {
    format!(
        "{{\"id\":\"{}\",\"channel_id\":\"c-1\",\"author_id\":\"bala:peerA\",\"content\":\"{}\",\"attachments\":[],\"timestamp_ms\":{},\"signature_hex\":null}}",
        id, content, timestamp_ms
    )
}

#[test]
fn test_crdt_sync_between_two_peers() {
    let mut peer_a = CrdtChannelDoc::new();
    let mut peer_b = CrdtChannelDoc::new();
    peer_a.append_json(&message_json("m-1", "Hello from Peer A", 100)).unwrap();

    let vv_b = peer_b.version();
    assert_eq!(vv_b, vec![0u8]);
    let delta = peer_a.export_updates_from(&vv_b).unwrap();
    peer_b.import_data(&delta).unwrap();

    let b_msgs = peer_b.message_texts();
    assert_eq!(b_msgs.len(), 1);
    assert!(b_msgs[0].contains("Hello from Peer A"));
    assert_eq!(b_msgs, peer_a.message_texts());
}

#[test]
fn snapshots_carry_the_whole_history() {
    let mut a = CrdtChannelDoc::new();
    a.append_json(&message_json("m-1", "one", 1)).unwrap();
    a.append_json(&message_json("m-2", "two", 2)).unwrap();
    let texts = a.message_texts();
    assert_eq!(texts.len(), 2);
    assert!(texts[0].contains("\"one\"") && texts[1].contains("\"two\""));
    let snapshot = a.export_snapshot().unwrap();
    let b = CrdtChannelDoc::from_snapshot(&snapshot).unwrap();
    assert_eq!(b.message_texts(), texts);
}

#[test]
fn bad_input_is_refused() {
    let mut a = CrdtChannelDoc::new();
    assert!(matches!(a.append_json("not json"), Err(CrdtError::Json(_))));
    assert!(a.message_texts().is_empty());
    assert!(matches!(CrdtChannelDoc::from_snapshot(&[1, 2, 3]), Err(CrdtError::Loro(_))));
    assert!(matches!(a.export_updates_from(&[0xff, 0xff]), Err(CrdtError::Loro(_))));
}

#[test]
fn peers_that_exchange_updates_converge() {
    let mut a = CrdtChannelDoc::new();
    let mut b = CrdtChannelDoc::new();
    a.append_json(&message_json("m-1", "from A", 1)).unwrap();
    b.append_json(&message_json("m-2", "from B", 2)).unwrap();
    let to_b = a.export_updates_from(&b.version()).unwrap();
    let to_a = b.export_updates_from(&a.version()).unwrap();
    a.import_data(&to_a).unwrap();
    b.import_data(&to_b).unwrap();
    assert_eq!(a.message_texts().len(), 2);
    assert_eq!(a.message_texts(), b.message_texts());
}
