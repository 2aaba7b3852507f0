use balabol::gossip::{DiscoveredLanPeer, GossipManager, LanDiscovery, PeerGossipEntry};
use balabol::time::now_ms;

fn entry(user_id: &str, endpoint: &str, last_seen_ms: u64) -> PeerGossipEntry {
    PeerGossipEntry {
        user_id: user_id.to_string(),
        public_key_hex: "00".to_string(),
        endpoint: endpoint.to_string(),
        last_seen_ms,
        nat_type: "cone".to_string(),
    }
}

#[test]
fn test_lan_discovery_records_peers() {
    let mut discovery = LanDiscovery::new(
        "bala:my_node".to_string(),
        "My Device".to_string(),
        42420,
        "pub_hex_1".to_string(),
    );

    discovery.record_peer(DiscoveredLanPeer {
        user_id: "bala:friend_pc".to_string(),
        display_name: "Friend's Laptop".to_string(),
        endpoint: "192.168.1.105:42420".to_string(),
        public_key_hex: "pub_hex_2".to_string(),
        last_seen_ms: now_ms(),
    });

    let peers = discovery.get_active_peers();
    assert_eq!(peers.len(), 1);
    assert_eq!(peers[0].display_name, "Friend's Laptop");
}

#[test]
fn lan_discovery_ignores_itself_and_stale_peers() {
    let mut discovery = LanDiscovery::new("me".to_string(), "Me".to_string(), 1, "k".to_string());
    discovery.record_peer(DiscoveredLanPeer {
        user_id: "me".to_string(),
        display_name: "Me".to_string(),
        endpoint: "1.1.1.1:1".to_string(),
        public_key_hex: "k".to_string(),
        last_seen_ms: 50_000,
    });
    discovery.record_peer(DiscoveredLanPeer {
        user_id: "old".to_string(),
        display_name: "Old".to_string(),
        endpoint: "1.1.1.2:1".to_string(),
        public_key_hex: "k2".to_string(),
        last_seen_ms: 10_000,
    });
    assert_eq!(discovery.active_peers_at(15_000).len(), 1);
    assert_eq!(discovery.active_peers_at(25_000).len(), 0);
}

#[test]
fn lan_beacon_is_recorded_with_source_address() {
    let mut discovery = LanDiscovery::new("me".to_string(), "Me".to_string(), 1, "k".to_string());
    assert!(!discovery.on_beacon("OTHER", "p".to_string(), "P".to_string(), 42420, "kp".to_string(), "10.0.0.5", 100));
    assert!(!discovery.on_beacon("BALABOL_LAN_BEACON", "me".to_string(), "Me".to_string(), 42420, "k".to_string(), "10.0.0.5", 100));
    assert!(discovery.on_beacon("BALABOL_LAN_BEACON", "p".to_string(), "P".to_string(), 42420, "kp".to_string(), "10.0.0.5", 100));
    let peers = discovery.active_peers_at(100);
    assert_eq!(peers.len(), 1);
    assert_eq!(peers[0].endpoint, "10.0.0.5:42420");
}

#[test]
fn gossip_merge_keeps_freshest_route() {
    let mut gossip = GossipManager::new("me".to_string());
    gossip.update_peer(entry("a", "1.1.1.1:1", 100));
    let taken = gossip.merge_gossip_table(vec![
        entry("a", "2.2.2.2:2", 50),
        entry("a", "3.3.3.3:3", 200),
        entry("me", "4.4.4.4:4", 999),
        entry("b", "5.5.5.5:5", 1),
    ]);
    assert_eq!(taken, 2);
    assert_eq!(gossip.peer_count(), 2);
    let sample = gossip.sample_peers_for_gossip(10);
    let a = sample.iter().find(|e| e.user_id == "a").unwrap();
    assert_eq!(a.endpoint, "3.3.3.3:3");
    assert_eq!(gossip.sample_peers_for_gossip(1).len(), 1);
}

#[test]
fn merging_the_same_table_twice_takes_nothing_more() {
    let mut gossip = GossipManager::new("me".to_string());
    let table = vec![entry("a", "1.1.1.1:1", 10), entry("a", "2.2.2.2:2", 5), entry("b", "3.3.3.3:3", 7)];
    assert_eq!(gossip.merge_gossip_table(table.clone()), 2);
    assert_eq!(gossip.merge_gossip_table(table), 0);
    assert_eq!(gossip.peer_count(), 2);
}
