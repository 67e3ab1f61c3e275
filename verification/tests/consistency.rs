use taco::consistency::classify;
use taco::consistency::mask_of;
use taco::consistency::ClusterConsistencyChecker;
use taco::consistency::PATTERN_LEADER_COORDINATOR;
use taco::consistency::PATTERN_LEADER_WORKER;
use taco::consistency::PATTERN_REPLICA_COORDINATOR;
use taco::consistency::PATTERN_REPLICA_WORKER;
use taco::server::Server;
use taco::settings::SettingsProvider;

fn checking() -> SettingsProvider {
    let mut settings = SettingsProvider::new();
    settings.set_key("check_cluster_consistency".to_string(), "true".to_string());
    settings
}

fn online(host: &str) -> Server {
    let mut server = Server::new(host);
    server.is_node_online = Some(true);
    server
}

#[test]
fn patterns_are_the_rows_of_the_truth_table() {
    assert_eq!(PATTERN_LEADER_COORDINATOR, 0b1_0100_0010);
    assert_eq!(PATTERN_REPLICA_COORDINATOR, 0b0_1010_0001);
    assert_eq!(PATTERN_LEADER_WORKER, 0b1_0001_0110);
    assert_eq!(PATTERN_REPLICA_WORKER, 0b0_1000_1001);
}

#[test]
fn each_pattern_matches_itself() {
    assert!(classify(0b1_0100_0010));
    assert!(classify(0b0_1010_0001));
    assert!(classify(0b1_0001_0110));
    assert!(classify(0b0_1000_1001));
}

#[test]
fn empty_mask_matches_nothing() {
    assert!(!classify(0));
}

#[test]
fn classifier_gives_one_verdict_for_one_mask() {
    for mask in 0u16..512 {
        assert_eq!(classify(mask), classify(mask));
    }
}

#[test]
fn other_bits_do_not_flip_a_match() {
    let patterns = [0b1_0100_0010u16, 0b0_1010_0001, 0b1_0001_0110, 0b0_1000_1001];
    for pattern in patterns {
        for extra in 0u16..512 {
            assert!(classify(pattern | extra));
        }
    }
}

#[test]
fn a_missing_bit_of_every_pattern_is_a_mismatch() {
    // postgres leader and agent primary, but no role of the distributed extension
    assert!(!classify(0b1_0000_0010));
    // postgres replica and agent replica alone
    assert!(!classify(0b0_1000_0001));
    // leader worker that is not an active worker
    assert!(!classify(0b1_0001_0010));
}

#[test]
fn mask_puts_the_flags_in_order() {
    let mut server = Server::new("h1");
    assert_eq!(mask_of(&server), 0);
    server.postgres_is_leader = Some(true);
    assert_eq!(mask_of(&server), 0b1_0000_0000);
    server.postgres_is_replica = Some(true);
    assert_eq!(mask_of(&server), 0b1_1000_0000);
    server.citus_is_leader_coordinator_node = Some(true);
    assert_eq!(mask_of(&server), 0b1_1100_0000);
    server.citus_is_replica_coordinator_node = Some(true);
    assert_eq!(mask_of(&server), 0b1_1110_0000);
    server.citus_is_leader_worker_node = Some(true);
    assert_eq!(mask_of(&server), 0b1_1111_0000);
    server.citus_is_replica_worker_node = Some(true);
    assert_eq!(mask_of(&server), 0b1_1111_1000);
    server.citus_is_active_worker_node = Some(true);
    assert_eq!(mask_of(&server), 0b1_1111_1100);
    server.patroni_is_primary = Some(true);
    assert_eq!(mask_of(&server), 0b1_1111_1110);
    server.patroni_is_replica = Some(true);
    assert_eq!(mask_of(&server), 0b1_1111_1111);
}

#[test]
fn unset_and_false_flags_contribute_nothing() {
    let mut server = Server::new("h1");
    server.postgres_is_leader = Some(false);
    server.patroni_is_primary = None;
    server.patroni_is_replica = Some(true);
    assert_eq!(mask_of(&server), 0b0_0000_0001);
}

#[test]
fn read_write_and_read_only_are_not_in_the_mask() {
    let mut server = Server::new("h1");
    server.patroni_is_read_write = Some(true);
    server.patroni_is_read_only = Some(true);
    server.citus_group_id = Some(3);
    assert_eq!(mask_of(&server), 0);
}

#[test]
fn offline_node_is_marked_inconsistent() {
    let mut server = Server::new("h1");
    server.is_node_online = Some(false);
    // every flag of a leader coordinator, and still not consistent
    server.postgres_is_leader = Some(true);
    server.citus_is_leader_coordinator_node = Some(true);
    server.patroni_is_primary = Some(true);
    assert!(!ClusterConsistencyChecker::check_server_consistency(&mut server));
    assert_eq!(server.is_node_consistent, Some(false));
}

#[test]
fn node_not_known_to_be_online_is_marked_inconsistent() {
    let mut server = Server::new("h1");
    server.postgres_is_leader = Some(true);
    server.citus_is_leader_coordinator_node = Some(true);
    server.patroni_is_primary = Some(true);
    assert!(!ClusterConsistencyChecker::check_server_consistency(&mut server));
    assert_eq!(server.is_node_consistent, Some(false));
}

#[test]
fn online_leader_coordinator_is_consistent() {
    let mut server = online("h1");
    server.postgres_is_leader = Some(true);
    server.citus_is_leader_coordinator_node = Some(true);
    server.patroni_is_primary = Some(true);
    assert!(ClusterConsistencyChecker::check_server_consistency(&mut server));
    assert_eq!(server.is_node_consistent, Some(true));
}

#[test]
fn online_replica_worker_is_consistent() {
    let mut server = online("h1");
    server.postgres_is_replica = Some(true);
    server.citus_is_replica_worker_node = Some(true);
    server.patroni_is_replica = Some(true);
    assert!(ClusterConsistencyChecker::check_server_consistency(&mut server));
    assert_eq!(server.is_node_consistent, Some(true));
}

#[test]
fn online_node_without_a_match_is_marked_inconsistent() {
    let mut server = online("h1");
    server.is_node_consistent = Some(true);
    server.postgres_is_leader = Some(true);
    assert!(!ClusterConsistencyChecker::check_server_consistency(&mut server));
    assert_eq!(server.is_node_consistent, Some(false));
}

#[test]
fn agent_primary_alone_is_not_consistent() {
    let mut server = online("h1");
    server.patroni_is_primary = Some(true);
    assert_eq!(mask_of(&server), 0b0_0000_0010);
    assert!(!ClusterConsistencyChecker::check_server_consistency(&mut server));
    assert_eq!(server.is_node_consistent, Some(false));
}

#[test]
fn classification_touches_nothing_but_the_mark() {
    let mut server = online("h1");
    server.port = Some(5432);
    server.db_name = Some("db".to_string());
    server.postgres_is_leader = Some(true);
    server.citus_group_id = Some(2);
    let mut expected = server.clone();
    ClusterConsistencyChecker::check_server_consistency(&mut server);
    expected.is_node_consistent = Some(false);
    assert_eq!(server, expected);
}

#[test]
fn standalone_single_node_is_consistent() {
    let settings = checking();
    let mut server = online("h1");
    server.postgres_is_leader = Some(false);
    server.postgres_is_replica = Some(false);
    let mut fleet = vec![server];
    let checker = ClusterConsistencyChecker::new(&settings);
    assert!(checker.check_cluster_consistency(&mut fleet));
    assert_eq!(fleet[0].is_node_consistent, Some(true));
    assert_eq!(fleet[0].is_node_online, Some(true));
}

#[test]
fn single_node_with_unset_roles_is_not_standalone() {
    let settings = checking();
    let mut fleet = vec![online("h1")];
    let checker = ClusterConsistencyChecker::new(&settings);
    assert!(!checker.check_cluster_consistency(&mut fleet));
    assert_eq!(fleet[0].is_node_consistent, Some(false));
}

#[test]
fn offline_single_node_is_not_consistent() {
    let settings = checking();
    let mut server = Server::new("h1");
    server.is_node_online = Some(false);
    server.postgres_is_leader = Some(false);
    server.postgres_is_replica = Some(false);
    let mut fleet = vec![server];
    let checker = ClusterConsistencyChecker::new(&settings);
    assert!(!checker.check_cluster_consistency(&mut fleet));
    assert_eq!(fleet[0].is_node_consistent, Some(false));
}

#[test]
fn two_nodes_with_both_roles_false_are_not_standalone() {
    let settings = checking();
    let mut a = online("h1");
    a.postgres_is_leader = Some(false);
    a.postgres_is_replica = Some(false);
    let mut b = online("h2");
    b.postgres_is_leader = Some(false);
    b.postgres_is_replica = Some(false);
    let mut fleet = vec![a, b];
    let checker = ClusterConsistencyChecker::new(&settings);
    assert!(!checker.check_cluster_consistency(&mut fleet));
    assert_eq!(fleet[0].is_node_consistent, Some(false));
    assert_eq!(fleet[1].is_node_consistent, Some(false));
}

#[test]
fn leader_and_replica_pair_without_distributed_roles() {
    let settings = checking();
    let mut h1 = online("h1");
    h1.postgres_is_leader = Some(true);
    h1.postgres_is_replica = Some(false);
    h1.patroni_is_primary = Some(true);
    h1.patroni_is_replica = Some(false);
    let mut h2 = online("h2");
    h2.postgres_is_leader = Some(false);
    h2.postgres_is_replica = Some(true);
    h2.patroni_is_primary = Some(false);
    h2.patroni_is_replica = Some(true);
    assert_eq!(mask_of(&h1), 0b1_0000_0010);
    assert_eq!(mask_of(&h2), 0b0_1000_0001);
    let mut fleet = vec![h1, h2];
    let checker = ClusterConsistencyChecker::new(&settings);
    assert!(!checker.check_cluster_consistency(&mut fleet));
    assert_eq!(fleet[0].is_node_consistent, Some(false));
    assert_eq!(fleet[1].is_node_consistent, Some(false));
}

#[test]
fn fleet_is_consistent_when_every_node_is() {
    let settings = checking();
    let mut coordinator = online("c1");
    coordinator.postgres_is_leader = Some(true);
    coordinator.citus_is_leader_coordinator_node = Some(true);
    coordinator.patroni_is_primary = Some(true);
    let mut worker = online("w1");
    worker.postgres_is_leader = Some(true);
    worker.citus_is_leader_worker_node = Some(true);
    worker.citus_is_active_worker_node = Some(true);
    worker.patroni_is_primary = Some(true);
    let mut fleet = vec![coordinator, worker];
    let checker = ClusterConsistencyChecker::new(&settings);
    assert!(checker.check_cluster_consistency(&mut fleet));
    assert_eq!(fleet[0].is_node_consistent, Some(true));
    assert_eq!(fleet[1].is_node_consistent, Some(true));
}

#[test]
fn one_inconsistent_node_makes_the_fleet_inconsistent() {
    let settings = checking();
    let mut coordinator = online("c1");
    coordinator.postgres_is_leader = Some(true);
    coordinator.citus_is_leader_coordinator_node = Some(true);
    coordinator.patroni_is_primary = Some(true);
    let mut worker = online("w1");
    worker.postgres_is_leader = Some(true);
    worker.citus_is_leader_worker_node = Some(true);
    worker.patroni_is_primary = Some(true);
    let mut fleet = vec![coordinator, worker];
    let checker = ClusterConsistencyChecker::new(&settings);
    assert!(!checker.check_cluster_consistency(&mut fleet));
    assert_eq!(fleet[0].is_node_consistent, Some(true));
    assert_eq!(fleet[1].is_node_consistent, Some(false));
}

#[test]
fn empty_fleet_is_consistent() {
    let settings = checking();
    let mut fleet: Vec<Server> = Vec::new();
    let checker = ClusterConsistencyChecker::new(&settings);
    assert!(checker.check_cluster_consistency(&mut fleet));
}

#[test]
fn check_switched_off_leaves_the_fleet_alone() {
    let settings = SettingsProvider::new();
    let mut server = online("h1");
    server.postgres_is_leader = Some(false);
    server.postgres_is_replica = Some(false);
    let mut fleet = vec![server.clone()];
    let checker = ClusterConsistencyChecker::new(&settings);
    assert!(!checker.check_cluster_consistency(&mut fleet));
    assert_eq!(fleet[0], server);
}

#[test]
fn check_set_to_false_leaves_the_fleet_alone() {
    let mut settings = SettingsProvider::new();
    settings.set_key("check_cluster_consistency".to_string(), "false".to_string());
    let mut fleet = vec![online("h1")];
    let checker = ClusterConsistencyChecker::new(&settings);
    assert!(!checker.check_cluster_consistency(&mut fleet));
    assert_eq!(fleet[0].is_node_consistent, None);
}
