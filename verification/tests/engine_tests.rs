use balabol::engine::{
    default_channels, default_rooms, invite_code, new_channel_record, new_message_record, new_room_records,
    plan_add_friend, plan_direct_connect, room_invite_records, split_invite, voice_channel_id, PeerBook,
};
use balabol::engine::{cuttable_prefix, direct_text_acceptable, friend_text_acceptable};
use balabol::engine::{handle_datagram, EngineAction, EngineEvent};
use balabol::gossip::GossipManager;
use balabol::sfu::{SfuElectionManager, SfuHeartbeat, SfuRouter};
use balabol::storage::StoredRoomMember;

#[test]
fn test_invite_code_and_direct_connect() {
    let invite = invite_code("abcdef0123456789", "192.168.1.5:42420");
    assert!(invite.starts_with("bala://"));

    let plan = plan_direct_connect("bala://abcdef0123456789@192.168.1.100:42420");
    let mut book = PeerBook::new();
    book.register(plan.peer_id.clone(), plan.endpoint.clone());
    assert!(plan.peer_id.starts_with("bala:abcdef01"));
    assert_eq!(book.endpoint_of(&plan.peer_id).unwrap(), "192.168.1.100:42420");
}

#[test]
fn own_invite_code_names_this_node() {
    let code = invite_code("00aa", "1.2.3.4:5");
    assert_eq!(code, "bala://00aa@1.2.3.4:5");
    assert_eq!(split_invite(&code), ("00aa".to_string(), "1.2.3.4:5".to_string()));
}

#[test]
fn direct_connect_to_bare_endpoint_uses_stub_id() {
    let plan = plan_direct_connect("  10.0.0.7:42420 ");
    assert_eq!(plan.peer_id, "peer:10.0.0.7_42420");
    assert_eq!(plan.endpoint, "10.0.0.7:42420");
    assert_eq!(plan.contact.display_name, "10.0.0.7:42420");
    assert_eq!(plan.contact.bio.as_deref(), Some("10.0.0.7:42420"));
    let keyed = plan_direct_connect("bala://abcdef@1.1.1.1:1");
    assert_eq!(keyed.contact.display_name, "Балабол-abcd");
    let no_at = plan_direct_connect("bala://1.1.1.1:1");
    assert_eq!(no_at.peer_id, "peer:1.1.1.1_1");
}

#[test]
fn add_friend_plans() {
    let p = plan_add_friend("Bob", "bala://abcdef@1.1.1.1:1");
    assert_eq!(p.card.user_id, "bala:abcdef");
    assert_eq!(p.card.bio.as_deref(), Some("1.1.1.1:1"));
    assert_eq!(p.connect_code.as_deref(), Some("bala://abcdef@1.1.1.1:1"));
    let p = plan_add_friend("Bob", "bala:1234");
    assert_eq!(p.card.user_id, "bala:1234");
    assert!(p.card.bio.is_none() && p.connect_code.is_none());
    let p = plan_add_friend("Bob", "0123456789abcdef0123");
    assert_eq!(p.card.user_id, "bala:0123456789abcdef0123");
    let p = plan_add_friend("Bob", "bala://1.1.1.1:1");
    assert_eq!(p.card.user_id, "bala:bala://1.1.1.1:1");
    assert_eq!(p.connect_code.as_deref(), Some("bala://@1.1.1.1:1"));
}

#[test]
fn handshake_replaces_stub_of_same_endpoint() {
    let mut book = PeerBook::new();
    book.register("peer:1.1.1.1_1".into(), "1.1.1.1:1".into());
    book.register("peer:2.2.2.2_2".into(), "2.2.2.2:2".into());
    book.register("bala:other".into(), "1.1.1.1:1".into());
    let id = book.register_handshake("abc", "1.1.1.1:1");
    assert_eq!(id, "bala:abc");
    let mut ids = book.peer_ids();
    ids.sort();
    assert_eq!(ids, vec!["bala:abc".to_string(), "bala:other".to_string(), "peer:2.2.2.2_2".to_string()]);
    assert_eq!(book.endpoint_of("bala:abc").unwrap(), "1.1.1.1:1");
    let mut targets = book.broadcast_targets();
    targets.sort();
    assert_eq!(targets, vec!["1.1.1.1:1".to_string(), "1.1.1.1:1".to_string(), "2.2.2.2:2".to_string()]);
    let eps = book.endpoints_for(&["bala:abc".to_string(), "nobody".to_string(), "peer:2.2.2.2_2".to_string()]);
    assert_eq!(eps, vec!["1.1.1.1:1".to_string(), "2.2.2.2:2".to_string()]);
    book.forget("bala:abc");
    assert!(!book.is_connected("bala:abc"));
}

#[test]
fn voice_participants_follow_voice_states() {
    let mut book = PeerBook::new();
    book.set_voice("r1", "a", true);
    book.set_voice("r1", "b", true);
    book.set_voice("r1", "a", false);
    assert_eq!(book.voice_participants("r1"), vec!["b".to_string()]);
    book.leave_voice("r2", "b");
    assert!(book.voice_participants("r2").is_empty());
    book.leave_voice("r1", "b");
    assert!(!book.is_in_voice("r1", "b"));
}

#[test]
fn member_cards_show_names_presence_and_voice() {
    let mut book = PeerBook::new();
    book.register("bala:bob".into(), "1.1.1.1:1".into());
    book.set_voice("room", "bala:bob", true);
    let member = |u: &str, role: &str| StoredRoomMember { room_id: "room".into(), user_id: u.into(), role: role.into(), joined_at: 0 };
    let members = vec![member("bala:me", "owner"), member("bala:bob", "member"), member("bala:carol", "member")];
    let cards = book.member_cards("room", &members, "bala:me", &[None, Some("Bob".to_string()), None]);
    assert_eq!(cards[0].display_name, "Вы (Локальный узел)");
    assert!(cards[0].is_online && !cards[0].is_in_voice);
    assert_eq!(cards[1].display_name, "Bob");
    assert!(cards[1].is_online && cards[1].is_in_voice);
    assert_eq!(cards[2].display_name, "Участник-bala");
    assert!(!cards[2].is_online);
    assert_eq!(cards[2].role, "member");
}

#[test]
fn records_for_rooms_channels_and_messages() {
    let (room, text, voice) = new_room_records(1700000000123, "Friends", "🎲", "bala://k@e".to_string());
    assert_eq!(room.id, "r-1700000000123");
    assert_eq!(text.id, "c-1700000000123-txt");
    assert_eq!(voice.id, "c-1700000000123-vc");
    assert_eq!(voice.created_at, 1700000000124);
    assert_eq!(text.server_id.as_deref(), Some("r-1700000000123"));

    let (r, t, v) = room_invite_records("r-9", "Club", "🎮", 5);
    assert_eq!(r.id, "r-9");
    assert_eq!(t.id, "c-r-9");
    assert_eq!(t.topic.as_deref(), Some("Чат беседы Club"));
    assert_eq!(v.id, voice_channel_id("r-9"));
    assert_eq!(v.topic.as_deref(), Some("Голосовой канал Club"));

    let ch = new_channel_record(42, "Новая комната", "voice", None);
    assert_eq!(ch.id, "c-42");
    assert_eq!(ch.server_id.as_deref(), Some("r-lounge"));
    assert_eq!(ch.name, "Новая комната");

    let msg = new_message_record(7, "abcdef0123", "c-general", "bala:me".into(), "Hello from Balabol Core!", "sig".into());
    assert_eq!(msg.id, "m-7-abcdef");
    assert_eq!(msg.content, "Hello from Balabol Core!");
    assert!(msg.signature_hex.is_some());
}

#[test]
fn default_seed_data() {
    let rooms = default_rooms(10);
    let channels = default_channels(10);
    assert_eq!(rooms.len(), 2);
    assert_eq!(channels.len(), 4);
    for c in &channels {
        assert!(rooms.iter().any(|r| Some(r.id.clone()) == c.server_id));
    }
    assert_eq!(channels[0].id, "c-general");
}

#[test]
fn voice_frames_go_to_the_host_or_everyone() {
    let mut book = PeerBook::new();
    book.register("host".into(), "9.9.9.9:1".into());
    book.register("b".into(), "8.8.8.8:1".into());
    let host = "host".to_string();
    assert_eq!(book.voice_targets(Some(&host), false, "me", &["7.7.7.7:1".to_string()]), vec!["9.9.9.9:1".to_string()]);
    let mut all = book.voice_targets(Some(&host), true, "me", &["7.7.7.7:1".to_string(), "8.8.8.8:1".to_string()]);
    all.sort();
    assert_eq!(all, vec!["7.7.7.7:1".to_string(), "8.8.8.8:1".to_string(), "9.9.9.9:1".to_string()]);
    let unknown = "ghost".to_string();
    assert_eq!(book.voice_targets(Some(&unknown), false, "me", &[]).len(), 2);
}

#[test]
fn invitations_use_known_endpoint_or_contact_bio() {
    let mut book = PeerBook::new();
    book.register("f".into(), "1.1.1.1:1".into());
    assert_eq!(book.invite_target("f", Some("2.2.2.2:2".into())), Some("1.1.1.1:1".to_string()));
    assert_eq!(book.invite_target("g", Some("2.2.2.2:2".into())), Some("2.2.2.2:2".to_string()));
    assert_eq!(book.invite_target("g", None), None);
}

#[test]
fn texts_that_cannot_be_cut_are_recognised() {
    assert!(cuttable_prefix("abcdef", 4));
    assert!(cuttable_prefix("ab", 4));
    assert!(!cuttable_prefix("abcé", 4));
    assert!(direct_text_acceptable("bala://abcdef@1.1.1.1:1"));
    assert!(!direct_text_acceptable("bala://abcé@1.1.1.1:1"));
    assert!(friend_text_acceptable("bala:xyz"));
    assert!(!friend_text_acceptable("bala://ééééééé"));
}

struct Node {
    book: PeerBook,
    election: SfuElectionManager,
    router: SfuRouter,
    gossip: GossipManager,
    active: Option<String>,
}

impl Node {
    fn new() -> Self {
        Node {
            book: PeerBook::new(),
            election: SfuElectionManager::new("me".into()),
            router: SfuRouter::new(),
            gossip: GossipManager::new("me".into()),
            active: None,
        }
    }

    fn handle(&mut self, sender: &str, src: &str, event: EngineEvent) -> Vec<EngineAction> {
        handle_datagram(
            &mut self.book,
            &mut self.election,
            &self.router,
            &mut self.gossip,
            &self.active,
            "me",
            sender.into(),
            src.into(),
            event,
            5_000,
        )
    }
}

#[test]
fn own_datagrams_are_ignored() {
    let mut n = Node::new();
    let actions = n.handle("me", "1.2.3.4:5", EngineEvent::Ping { seq: 1, client_timestamp_ms: 2 });
    assert!(actions.is_empty());
    assert!(!n.book.is_connected("me"));
}

#[test]
fn pings_register_the_sender_and_are_answered() {
    let mut n = Node::new();
    let actions = n.handle("bob", "1.2.3.4:5", EngineEvent::Ping { seq: 7, client_timestamp_ms: 9 });
    assert_eq!(n.book.endpoint_of("bob").unwrap(), "1.2.3.4:5");
    assert_eq!(actions.len(), 1);
    match &actions[0] {
        EngineAction::SendPong { to, seq, client_timestamp_ms, server_timestamp_ms } => {
            assert_eq!((to.as_str(), *seq, *client_timestamp_ms, *server_timestamp_ms), ("1.2.3.4:5", 7, 9, 5_000));
        }
        _ => panic!("expected a pong"),
    }
}

#[test]
fn handshakes_replace_stand_ins_and_are_answered() {
    let mut n = Node::new();
    n.book.register("peer:1.2.3.4_5".into(), "1.2.3.4:5".into());
    let actions = n.handle(
        "bob",
        "1.2.3.4:5",
        EngineEvent::InviteExchange { public_key_hex: "abcd1234".into(), display_name: "Bob".into() },
    );
    assert!(!n.book.is_connected("peer:1.2.3.4_5"));
    assert_eq!(n.book.endpoint_of("bala:abcd1234").unwrap(), "1.2.3.4:5");
    assert_eq!(actions.len(), 2);
    match &actions[0] {
        EngineAction::SaveContact(c) => {
            assert_eq!(c.user_id, "bala:abcd1234");
            assert_eq!(c.display_name, "Bob");
            assert_eq!(c.bio.as_deref(), Some("1.2.3.4:5"));
        }
        _ => panic!("expected a contact"),
    }
    assert!(matches!(&actions[1], EngineAction::SendInviteExchange { to } if to == "1.2.3.4:5"));
}

#[test]
fn room_invitations_store_the_room_and_members() {
    let mut n = Node::new();
    let actions = n.handle(
        "bob",
        "1.2.3.4:5",
        EngineEvent::RoomInvite {
            room_id: "r-1".into(),
            room_name: "Club".into(),
            room_emoji: "🎮".into(),
            inviter_id: "bob".into(),
        },
    );
    assert_eq!(actions.len(), 5);
    assert!(matches!(&actions[0], EngineAction::SaveRoom(r) if r.id == "r-1" && r.created_at == 5_000));
    assert!(matches!(&actions[1], EngineAction::SaveChannel(c) if c.id == "c-r-1"));
    assert!(matches!(&actions[2], EngineAction::SaveChannel(c) if c.id == "v-r-1" && c.created_at == 5_001));
    assert!(matches!(&actions[3], EngineAction::AddRoomMember { user_id, role, .. } if user_id == "bob" && role == "owner"));
    assert!(matches!(&actions[4], EngineAction::AddRoomMember { user_id, role, .. } if user_id == "me" && role == "member"));
}

#[test]
fn chat_messages_are_stored_and_replicated() {
    let mut n = Node::new();
    let actions = n.handle(
        "bob",
        "1.2.3.4:5",
        EngineEvent::TextMessage {
            channel_id: "c-1".into(),
            message_id: "m-1".into(),
            author_id: "bob".into(),
            content: "hi".into(),
            timestamp_ms: 42,
            signature_hex: Some("ff".into()),
        },
    );
    assert_eq!(actions.len(), 2);
    for a in &actions {
        match a {
            EngineAction::SaveMessage(m) | EngineAction::AppendToChannelDoc(m) => {
                assert_eq!((m.id.as_str(), m.content.as_str(), m.timestamp_ms), ("m-1", "hi", 42));
                assert_eq!(m.signature_hex.as_deref(), Some("ff"));
            }
            _ => panic!("expected the message"),
        }
    }
}

#[test]
fn screen_frames_become_data_urls() {
    let mut n = Node::new();
    let actions = n.handle("bob", "1.2.3.4:5", EngineEvent::ScreenVideo { streamer_id: "bob".into(), payload: vec![1, 2, 3, 4] });
    assert!(matches!(&actions[0], EngineAction::ShowScreenFrame { data_url, streamer_id }
        if data_url == "data:image/jpeg;base64,AQIDBA==" && streamer_id == "bob"));
}

#[test]
fn voice_frames_are_played_and_forwarded_by_the_host() {
    let mut n = Node::new();
    n.active = Some("v-r-1".into());
    n.router.join_room("v-r-1", "bob");
    n.router.join_room("v-r-1", "carol");
    n.book.register("carol".into(), "5.6.7.8:9".into());
    let voice = || EngineEvent::VoiceAudio { channel_id: "v-r-1".into(), speaker_id: "bob".into() };
    let actions = n.handle("bob", "1.2.3.4:5", voice());
    assert_eq!(actions.len(), 1);
    assert!(matches!(&actions[0], EngineAction::PlayVoice));
    n.handle("x", "9.9.9.9:9", EngineEvent::SfuHeartbeat { term: 3, leader_id: "me".into(), timestamp_ms: 1 });
    assert!(n.election.is_current_node_sfu());
    let actions = n.handle("bob", "1.2.3.4:5", voice());
    assert_eq!(actions.len(), 2);
    assert!(matches!(&actions[1], EngineAction::Forward { to } if to == &vec!["5.6.7.8:9".to_string()]));
    let stale = SfuHeartbeat { leader_id: "x".into(), term: 2, timestamp_ms: 2 };
    n.handle("x", "9.9.9.9:9", EngineEvent::SfuHeartbeat { term: stale.term, leader_id: stale.leader_id, timestamp_ms: 2 });
    assert!(n.election.is_current_node_sfu());
}

#[test]
fn voice_states_update_the_call() {
    let mut n = Node::new();
    n.handle("bob", "1.2.3.4:5", EngineEvent::RoomVoiceState { room_id: "r-1".into(), user_id: "bob".into(), is_joined: true });
    assert_eq!(n.book.voice_participants("r-1"), vec!["bob".to_string()]);
    n.handle("bob", "1.2.3.4:5", EngineEvent::RoomVoiceState { room_id: "r-1".into(), user_id: "bob".into(), is_joined: false });
    assert!(n.book.voice_participants("r-1").is_empty());
}
