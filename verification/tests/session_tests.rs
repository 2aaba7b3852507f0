use balabol::addr::{Endpoint, IpAddress};
use balabol::session::{
    expand_candidates_with_port_spray, hosting_addresses, outgoing_text, peer_left_status, punch_failure_message, ChatLog,
    ConnectionStatus, Packet, PunchClock, Session,
};

#[test]
fn test_p2p_room_code_and_chat_deduplication() {
    let mut chat = ChatLog::new();
    for _ in 0..3 {
        chat.receive(999, "Тестовое сообщение".into(), "Alice".into(), 1);
    }
    let msgs = chat.messages_vec();
    assert_eq!(msgs.len(), 1, "Duplicate UDP arrivals must be deduplicated to exactly 1 message!");
    assert_eq!(msgs[0].text, "Тестовое сообщение");
}

#[test]
fn own_messages_wait_for_acknowledgement() {
    let mut chat = ChatLog::new();
    let msg = chat.record_outgoing(0xFFFF_FFFF_FFFF_FFFF, "hi".into(), "Me".into(), 5);
    assert_eq!(msg.id, 0x7FFF_FFFF_FFFF_FFFF);
    assert!(msg.is_me);
    assert!(chat.has_seen(msg.id));
    assert!(chat.acknowledge(msg.id));
    assert!(!chat.acknowledge(msg.id));
    let zero = chat.record_outgoing(0x8000_0000_0000_0000, "x".into(), "Me".into(), 6);
    assert_eq!(zero.id, 1);
}

#[test]
fn ending_a_session_keeps_history_and_forgets_ids() {
    let mut chat = ChatLog::new();
    assert!(chat.receive(7, "first".into(), "Alice".into(), 1));
    chat.reset_ids();
    assert!(!chat.has_seen(7));
    assert_eq!(chat.messages_vec().len(), 1);
    assert!(chat.receive(7, "again".into(), "Alice".into(), 2));
    assert!(!chat.receive(7, "again".into(), "Alice".into(), 3));
    assert_eq!(chat.messages_vec().len(), 2);
}

#[test]
fn port_spray_adds_neighbouring_ports() {
    let c = vec![Endpoint::v4(2, 27, 58, 7, 46801), Endpoint::v4(127, 0, 0, 1, 5000)];
    let out = expand_candidates_with_port_spray(&c);
    assert_eq!(out[0], c[0]);
    assert!(out.contains(&Endpoint::v4(2, 27, 58, 7, 46802)));
    assert!(out.contains(&Endpoint::v4(127, 0, 0, 1, 5000)));
    let mut seen = Vec::new();
    for e in &out {
        assert!(!seen.contains(e));
        seen.push(*e);
    }
}

#[test]
fn session_answers_ping_and_acknowledges_text() {
    let peer = Endpoint::v4(10, 0, 0, 2, 4000);
    let mut s = Session::start(peer, vec![peer], "Me".into(), 1, "Peer".into(), "10.0.0.2:4000".into(), 100, 100, ChatLog::new());
    let r = s.on_packet(Packet::Ping { seq: 4, timestamp_ms: 77 }, 200);
    assert_eq!(r.replies, vec![Packet::Pong { seq: 4, timestamp_ms: 77 }]);
    let r = s.on_packet(Packet::TextMessage { id: 5, text: "t".into(), sender_name: "Peer".into(), timestamp_ms: 1 }, 300);
    assert_eq!(r.replies.len(), 3);
    assert!(r.replies.iter().all(|p| *p == Packet::TextAck { id: 5 }));
    assert_eq!(s.chat().messages_vec().len(), 1);
    let r = s.on_packet(Packet::Disconnect { reason: "bye".into() }, 400);
    assert_eq!(r.disconnected, Some("bye".to_string()));
    assert!(s.accepts_from(&peer));
    assert!(!s.accepts_from(&Endpoint::v4(10, 0, 0, 3, 4000)));
}

#[test]
fn session_ticks_ping_every_interval() {
    let peer = Endpoint::v4(10, 0, 0, 2, 4000);
    let mut s = Session::start(peer, vec![peer], "Me".into(), 1, "Peer".into(), "p".into(), 0, 0, ChatLog::new());
    assert!(s.on_tick(1000, 1000).ping.is_none());
    let t = s.on_tick(1500, 5000);
    assert_eq!(t.ping, Some(Packet::Ping { seq: 1, timestamp_ms: 5000 }));
    assert!(t.repunch);
}

#[test]
fn peer_left_message() {
    match peer_left_status("bye") {
        ConnectionStatus::Failed { error } => assert_eq!(error, "Собеседник отключился: bye"),
        _ => panic!("the status must be a failure"),
    }
}

#[test]
fn outgoing_text_is_trimmed_and_not_empty() {
    assert_eq!(outgoing_text("  hi \n").unwrap(), "hi");
    assert_eq!(outgoing_text(" \t ").unwrap_err(), "Сообщение не может быть пустым");
}

#[test]
fn hosting_advertises_first_and_first_public_candidate() {
    let lan = Endpoint::v4(192, 168, 1, 192, 9987);
    let lo = Endpoint::v4(127, 0, 0, 1, 9987);
    let public = Endpoint::v4(2, 27, 58, 7, 46801);
    assert_eq!(hosting_addresses(&[lan, lo, lan, public]), (Some(lan), Some(public)));
    assert_eq!(hosting_addresses(&[lan]), (Some(lan), None));
    assert_eq!(hosting_addresses(&[]), (None, None));
    let v6 = Endpoint { ip: IpAddress::V6([0u8; 16]), port: 1 };
    assert_eq!(hosting_addresses(&[lan, v6]).1, Some(v6));
}

#[test]
fn punching_paces_its_blasts_and_gives_up_after_twelve_seconds() {
    let mut c = PunchClock::new(1_000);
    let t = c.tick(1_000);
    assert!(t.blast && !t.expired);
    assert!(!c.tick(1_050).blast);
    assert!(c.tick(1_080).blast);
    assert!(!c.tick(1_100).blast);
    let end = c.tick(13_000);
    assert!(end.expired && !end.blast);
    assert_eq!(
        punch_failure_message("Bob"),
        "Не удалось пробить NAT с собеседником 'Bob' после 12 секунд встречных попыток. Проверьте соединение и попробуйте снова."
    );
}
