use taco::groups::dynamic_group_named;
use taco::groups::group_name;
use taco::groups::group_selects;
use taco::groups::refresh_members;
use taco::groups::select_members;
use taco::groups::DynamicGroup;
use taco::groups::ServerProvider;
use taco::inventory::ServerGroup;
use taco::repl::error_message;
use taco::repl::resolve_group;
use taco::repl::DispatchError;
use taco::server::Server;

const DYNAMIC: [&str; 15] = [
    "all", "online", "cons", "pgl", "pgr", "clc", "crc", "clw", "crw", "caw", "pp", "pr", "prw",
    "haproxy_rw", "haproxy_r",
];

fn hosts(servers: &Vec<Server>) -> Vec<String> {
    servers.iter().map(|s| s.host.clone()).collect()
}

fn group(provider: &ServerProvider, name: &str) -> Vec<String> {
    hosts(&provider.get_servers_in_group(name).unwrap())
}

fn provider_with(groups: Vec<(&str, Vec<Server>)>) -> ServerProvider {
    ServerProvider::new(
        groups
            .into_iter()
            .map(|(name, servers)| ServerGroup { name: name.to_string(), servers })
            .collect(),
    )
}

#[test]
fn names_of_the_dynamic_groups() {
    assert_eq!(group_name(DynamicGroup::All), "all");
    assert_eq!(group_name(DynamicGroup::Online), "online");
    assert_eq!(group_name(DynamicGroup::Consistent), "cons");
    assert_eq!(group_name(DynamicGroup::PostgresLeader), "pgl");
    assert_eq!(group_name(DynamicGroup::PostgresReplica), "pgr");
    assert_eq!(group_name(DynamicGroup::LeaderCoordinator), "clc");
    assert_eq!(group_name(DynamicGroup::ReplicaCoordinator), "crc");
    assert_eq!(group_name(DynamicGroup::LeaderWorker), "clw");
    assert_eq!(group_name(DynamicGroup::ReplicaWorker), "crw");
    assert_eq!(group_name(DynamicGroup::ActiveWorker), "caw");
    assert_eq!(group_name(DynamicGroup::AgentPrimary), "pp");
    assert_eq!(group_name(DynamicGroup::AgentReplica), "pr");
    assert_eq!(group_name(DynamicGroup::AgentReadWrite), "prw");
    assert_eq!(group_name(DynamicGroup::ProxyReadWrite), "haproxy_rw");
    assert_eq!(group_name(DynamicGroup::ProxyRead), "haproxy_r");
}

#[test]
fn a_name_stands_for_its_group() {
    for name in DYNAMIC {
        let group = dynamic_group_named(name).unwrap();
        assert_eq!(group_name(group), name);
    }
    assert_eq!(dynamic_group_named("primary"), None);
    assert_eq!(dynamic_group_named("ALL"), None);
    assert_eq!(dynamic_group_named(""), None);
}

#[test]
fn unset_facts_select_nobody() {
    let server = Server::new("h1");
    assert!(group_selects(DynamicGroup::All, &server));
    assert!(!group_selects(DynamicGroup::Online, &server));
    assert!(!group_selects(DynamicGroup::Consistent, &server));
    assert!(!group_selects(DynamicGroup::PostgresLeader, &server));
    assert!(!group_selects(DynamicGroup::AgentReadWrite, &server));
    assert!(!group_selects(DynamicGroup::ProxyReadWrite, &server));
    assert!(!group_selects(DynamicGroup::ProxyRead, &server));
}

#[test]
fn members_keep_the_order_of_the_fleet() {
    let mut fleet = vec![Server::new("a"), Server::new("b"), Server::new("c"), Server::new("d")];
    fleet[3].is_node_online = Some(true);
    fleet[1].is_node_online = Some(true);
    fleet[0].is_node_online = Some(false);
    assert_eq!(hosts(&select_members(DynamicGroup::Online, &fleet)), vec!["b", "d"]);
    assert_eq!(hosts(&select_members(DynamicGroup::All, &fleet)), vec!["a", "b", "c", "d"]);
}

#[test]
fn standalone_fleet_groups() {
    let mut h1 = Server::new("h1");
    h1.is_node_online = Some(true);
    h1.is_node_consistent = Some(true);
    h1.postgres_is_leader = Some(false);
    h1.postgres_is_replica = Some(false);
    let mut provider = provider_with(vec![("all", vec![Server::new("h1")])]);
    provider.update_server_groups(vec![h1.clone()]);
    assert_eq!(provider.get_servers_in_group("all"), Some(vec![h1.clone()]));
    assert_eq!(provider.get_servers_in_group("online"), Some(vec![h1.clone()]));
    assert_eq!(provider.get_servers_in_group("cons"), Some(vec![h1.clone()]));
    for name in ["pgl", "pgr", "clc", "crc", "clw", "crw", "caw", "pp", "pr", "prw", "haproxy_rw",
        "haproxy_r"]
    {
        assert_eq!(provider.get_servers_in_group(name), Some(Vec::new()));
    }
}

#[test]
fn leader_and_replica_pair_groups() {
    let mut h1 = Server::new("h1");
    h1.is_node_online = Some(true);
    h1.is_node_consistent = Some(false);
    h1.postgres_is_leader = Some(true);
    h1.postgres_is_replica = Some(false);
    h1.patroni_is_primary = Some(true);
    h1.patroni_is_replica = Some(false);
    let mut h2 = Server::new("h2");
    h2.is_node_online = Some(true);
    h2.is_node_consistent = Some(false);
    h2.postgres_is_leader = Some(false);
    h2.postgres_is_replica = Some(true);
    h2.patroni_is_primary = Some(false);
    h2.patroni_is_replica = Some(true);
    let mut provider = ServerProvider::new(Vec::new());
    provider.update_server_groups(vec![h1, h2]);
    assert_eq!(group(&provider, "pgl"), vec!["h1"]);
    assert_eq!(group(&provider, "pgr"), vec!["h2"]);
    assert_eq!(group(&provider, "pp"), vec!["h1"]);
    assert_eq!(group(&provider, "pr"), vec!["h2"]);
    assert_eq!(group(&provider, "online"), vec!["h1", "h2"]);
    assert!(group(&provider, "cons").is_empty());
}

#[test]
fn offline_node_is_left_out_of_online_and_consistent() {
    let mut h1 = Server::new("h1");
    h1.is_node_online = Some(false);
    h1.is_node_consistent = Some(false);
    let mut h2 = Server::new("h2");
    h2.is_node_online = Some(true);
    h2.is_node_consistent = Some(true);
    let mut provider = ServerProvider::new(Vec::new());
    provider.update_server_groups(vec![h1, h2]);
    assert_eq!(group(&provider, "all"), vec!["h1", "h2"]);
    assert_eq!(group(&provider, "online"), vec!["h2"]);
    assert_eq!(group(&provider, "cons"), vec!["h2"]);
}

#[test]
fn every_role_has_its_group() {
    let mut fleet: Vec<Server> = Vec::new();
    for host in ["clc", "crc", "clw", "crw", "caw", "prw"] {
        fleet.push(Server::new(host));
    }
    fleet[0].citus_is_leader_coordinator_node = Some(true);
    fleet[1].citus_is_replica_coordinator_node = Some(true);
    fleet[2].citus_is_leader_worker_node = Some(true);
    fleet[3].citus_is_replica_worker_node = Some(true);
    fleet[4].citus_is_active_worker_node = Some(true);
    fleet[5].patroni_is_read_write = Some(true);
    let mut provider = ServerProvider::new(Vec::new());
    provider.update_server_groups(fleet);
    for name in ["clc", "crc", "clw", "crw", "caw", "prw"] {
        assert_eq!(group(&provider, name), vec![name]);
    }
}

#[test]
fn declared_groups_carry_the_latest_facts() {
    let mut provider = provider_with(vec![
        ("all", vec![Server::new("h1"), Server::new("h2")]),
        ("primary", vec![Server::new("h1")]),
        ("dr", vec![Server::new("h2"), Server::new("gone")]),
    ]);
    let mut h1 = Server::new("h1");
    h1.is_node_online = Some(true);
    h1.postgres_is_leader = Some(true);
    let mut h2 = Server::new("h2");
    h2.is_node_online = Some(false);
    provider.update_server_groups(vec![h1.clone(), h2.clone()]);
    assert_eq!(provider.get_servers_in_group("primary"), Some(vec![h1]));
    // a member that the fleet does not hold stays as it was
    assert_eq!(provider.get_servers_in_group("dr"), Some(vec![h2, Server::new("gone")]));
}

#[test]
fn refreshing_takes_the_last_snapshot_of_a_host() {
    let mut old = Server::new("h1");
    old.port = Some(1);
    let mut newer = Server::new("h1");
    newer.port = Some(2);
    let mut newest = Server::new("h1");
    newest.port = Some(3);
    let fresh = refresh_members(&vec![old], &vec![newer, Server::new("h2"), newest.clone()]);
    assert_eq!(fresh, vec![newest]);
}

#[test]
fn deriving_twice_changes_nothing() {
    let mut provider = provider_with(vec![
        ("all", vec![Server::new("h1"), Server::new("h2"), Server::new("h3")]),
        ("primary", vec![Server::new("h1"), Server::new("h3")]),
    ]);
    let mut fleet = vec![Server::new("h1"), Server::new("h2"), Server::new("h3")];
    fleet[0].is_node_online = Some(true);
    fleet[0].is_node_consistent = Some(true);
    fleet[0].postgres_is_leader = Some(true);
    fleet[1].is_node_online = Some(true);
    fleet[1].postgres_is_replica = Some(true);
    fleet[2].is_node_online = Some(false);
    provider.update_server_groups(fleet.clone());
    let mut once: Vec<Option<Vec<Server>>> = Vec::new();
    for name in DYNAMIC {
        once.push(provider.get_servers_in_group(name));
    }
    let once_primary = provider.get_servers_in_group("primary");
    provider.update_server_groups(fleet);
    for (i, name) in DYNAMIC.iter().enumerate() {
        assert_eq!(provider.get_servers_in_group(name), once[i]);
    }
    assert_eq!(provider.get_servers_in_group("primary"), once_primary);
    assert_eq!(provider.get_servers_in_group("secondary"), None);
}

#[test]
fn every_dynamic_group_lies_within_all() {
    let mut fleet: Vec<Server> = Vec::new();
    for i in 0..8 {
        let mut server = Server::new(&format!("h{}", i));
        server.is_node_online = Some(i % 2 == 0);
        server.is_node_consistent = Some(i % 3 == 0);
        server.postgres_is_leader = Some(i % 4 == 0);
        server.postgres_is_replica = Some(i % 4 == 1);
        server.citus_is_active_worker_node = Some(i > 4);
        server.patroni_is_primary = Some(i == 7);
        fleet.push(server);
    }
    let mut provider = ServerProvider::new(Vec::new());
    provider.update_server_groups(fleet.clone());
    let all = provider.get_servers_in_group("all").unwrap();
    assert_eq!(all, fleet);
    for name in DYNAMIC {
        for member in provider.get_servers_in_group(name).unwrap() {
            assert!(all.contains(&member));
        }
    }
}

#[test]
fn what_stood_under_a_dynamic_name_is_cleared() {
    let mut provider = provider_with(vec![
        ("pgl", vec![Server::new("stale")]),
        ("haproxy_rw", vec![Server::new("proxy")]),
    ]);
    provider.update_server_groups(vec![Server::new("h1")]);
    assert_eq!(provider.get_servers_in_group("pgl"), Some(Vec::new()));
    assert_eq!(provider.get_servers_in_group("haproxy_rw"), Some(Vec::new()));
    assert_eq!(provider.get_servers_in_group("haproxy_r"), Some(Vec::new()));
}

#[test]
fn of_two_groups_with_one_name_the_later_counts() {
    let provider = provider_with(vec![
        ("g", vec![Server::new("first")]),
        ("g", vec![Server::new("second")]),
    ]);
    assert_eq!(group(&provider, "g"), vec!["second"]);
}

#[test]
fn unknown_group_is_an_error() {
    let mut provider = ServerProvider::new(Vec::new());
    provider.update_server_groups(vec![Server::new("h1")]);
    assert_eq!(provider.get_servers_in_group("zzz"), None);
    assert_eq!(resolve_group(&provider, "zzz"), Err(DispatchError::UnknownGroup));
    assert_eq!(error_message(DispatchError::UnknownGroup), "unknown server group name");
    assert_eq!(resolve_group(&provider, "all"), Ok(vec![Server::new("h1")]));
}
