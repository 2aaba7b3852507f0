use balabol::sfu::{NatType, PeerScoreReport, SfuElectionManager, SfuHeartbeat, SfuRouter};

fn score(avg_rtt_ms: f32, jitter_ms: f32, packet_loss_pct: f32, nat_type: NatType) -> u32 {
    let nat_penalty = match nat_type {
        NatType::Open => 0.0,
        NatType::FullCone => 20.0,
        NatType::Restricted => 80.0,
        NatType::Symmetric => 10000.0,
    };
    (avg_rtt_ms + (jitter_ms * 2.5) + (packet_loss_pct * 50.0) + nat_penalty).to_bits()
}

fn report(user_id: &str, rtt: f32, jitter: f32, loss: f32, nat_type: NatType, last_ping_ms: u64) -> PeerScoreReport {
    PeerScoreReport { user_id: user_id.to_string(), score_bits: score(rtt, jitter, loss, nat_type), nat_type, last_ping_ms }
}

#[test]
fn test_sfu_election_picks_lowest_ping_and_open_nat() {
    let mut election = SfuElectionManager::new("bala:user1".to_string());
    election.update_peer_score(report("bala:peerA", 120.0, 5.0, 0.0, NatType::Open, 1000));
    election.update_peer_score(report("bala:peerB", 15.0, 2.0, 0.0, NatType::Open, 1000));
    election.update_peer_score(report("bala:peerC", 10.0, 1.0, 0.0, NatType::Symmetric, 1000));
    assert_eq!(election.current_leader().unwrap(), "bala:peerB");
    assert_eq!(election.runner_up().unwrap(), "bala:peerA");
}

#[test]
fn test_sfu_failover_when_heartbeat_stops_for_1_second() {
    let mut election = SfuElectionManager::new("bala:peerA".to_string());
    election.update_peer_score(report("bala:peerB", 10.0, 1.0, 0.0, NatType::Open, 1000));
    election.update_peer_score(report("bala:peerA", 25.0, 2.0, 0.0, NatType::Open, 1000));
    assert_eq!(election.current_leader().unwrap(), "bala:peerB");
    assert_eq!(election.runner_up().unwrap(), "bala:peerA");

    election.handle_heartbeat(SfuHeartbeat { leader_id: "bala:peerB".to_string(), term: 1, timestamp_ms: 1000 });
    assert!(election.check_heartbeat_timeout(1500).is_none());

    let failover = election.check_heartbeat_timeout(2100).expect("Must trigger failover");
    assert_eq!(failover.new_leader_id, "bala:peerA");
    assert_eq!(failover.previous_leader_id, "bala:peerB");
    assert_eq!(election.current_leader().unwrap(), "bala:peerA");
}

#[test]
fn test_sfu_router_packet_distribution() {
    let mut router = SfuRouter::new();
    router.join_room("room-gaming", "user1");
    router.join_room("room-gaming", "user2");
    router.join_room("room-gaming", "user3");

    let recipients = router.route_media_packet("room-gaming", "user1").unwrap();
    assert_eq!(recipients.len(), 2);
    assert!(recipients.contains(&"user2".to_string()));
    assert!(recipients.contains(&"user3".to_string()));
    assert!(!recipients.contains(&"user1".to_string()));
}

#[test]
fn test_multi_host_clustering() {
    let mut election = SfuElectionManager::new("bala:local".to_string());
    election.update_peer_score(report("host1", 12.0, 0.5, 0.0, NatType::Open, 1000));
    election.update_peer_score(report("host2", 15.0, 0.8, 0.0, NatType::Open, 1000));
    election.update_peer_score(report("clientA", 45.0, 3.0, 0.5, NatType::FullCone, 1000));
    election.update_peer_score(report("clientB", 80.0, 5.0, 1.0, NatType::Restricted, 1000));

    let hosts = election.elect_cluster_hosts(2);
    assert_eq!(hosts.len(), 2);
    assert_eq!(hosts[0], "host1");
    assert_eq!(hosts[1], "host2");

    let mut router = SfuRouter::new();
    router.join_room("room-clustered", "host1");
    router.join_room("room-clustered", "host2");
    router.join_room("room-clustered", "clientA");
    router.join_room("room-clustered", "clientB");

    let (local, trunks) = router.route_cluster_packet("room-clustered", "clientA", false, &hosts).unwrap();
    assert!(local.contains(&"clientB".to_string()));
    assert!(trunks.contains(&"host2".to_string()));
}

#[test]
fn router_rejects_unknown_room_and_stranger() {
    let mut router = SfuRouter::new();
    assert!(router.route_media_packet("nowhere", "u").is_err());
    router.join_room("r", "a");
    assert!(router.route_media_packet("r", "b").is_err());
    router.leave_room("r", "a");
    assert!(router.route_media_packet("r", "a").is_err());
}

#[test]
fn negative_score_sorts_first() {
    let mut election = SfuElectionManager::new("me".to_string());
    election.update_peer_score(PeerScoreReport { user_id: "a".into(), score_bits: 5.0f32.to_bits(), nat_type: NatType::Open, last_ping_ms: 0 });
    election.update_peer_score(PeerScoreReport { user_id: "b".into(), score_bits: (-1.0f32).to_bits(), nat_type: NatType::Open, last_ping_ms: 0 });
    assert_eq!(election.current_leader().unwrap(), "b");
    assert!(!election.is_current_node_sfu());
}

#[test]
fn joining_then_leaving_restores_the_room() {
    let mut router = SfuRouter::new();
    router.join_room("r", "a");
    router.join_room("r", "b");
    assert_eq!(router.route_media_packet("r", "a").unwrap(), vec!["b".to_string()]);
    router.leave_room("r", "b");
    assert!(router.route_media_packet("r", "a").unwrap().is_empty());
}
