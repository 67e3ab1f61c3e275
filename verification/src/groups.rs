//! The fleet as the console sees it: the declared groups, and the dynamic
//! groups that are derived from the facts of the nodes.
use vstd::prelude::*;
use vstd::string::StringExecFns;
use crate::inventory::fleet_of;
use crate::inventory::ServerGroup;
use crate::server::server_views;
use crate::server::Server;
use crate::server::ServerView;
use crate::text::same_text;

verus! {

/// The groups that are derived from the facts of the nodes.
#[derive(Clone, Copy, Debug, PartialEq, Eq, Structural)]
pub enum DynamicGroup {
    All,
    Online,
    Consistent,
    PostgresLeader,
    PostgresReplica,
    LeaderCoordinator,
    ReplicaCoordinator,
    LeaderWorker,
    ReplicaWorker,
    ActiveWorker,
    AgentPrimary,
    AgentReplica,
    AgentReadWrite,
    ProxyReadWrite,
    ProxyRead,
}

/// The dynamic group that a name stands for, if it stands for one.
pub open spec fn dynamic_group(name: Seq<char>) -> Option<DynamicGroup> {
    if name == "all"@ {
        Some(DynamicGroup::All)
    } else if name == "online"@ {
        Some(DynamicGroup::Online)
    } else if name == "cons"@ {
        Some(DynamicGroup::Consistent)
    } else if name == "pgl"@ {
        Some(DynamicGroup::PostgresLeader)
    } else if name == "pgr"@ {
        Some(DynamicGroup::PostgresReplica)
    } else if name == "clc"@ {
        Some(DynamicGroup::LeaderCoordinator)
    } else if name == "crc"@ {
        Some(DynamicGroup::ReplicaCoordinator)
    } else if name == "clw"@ {
        Some(DynamicGroup::LeaderWorker)
    } else if name == "crw"@ {
        Some(DynamicGroup::ReplicaWorker)
    } else if name == "caw"@ {
        Some(DynamicGroup::ActiveWorker)
    } else if name == "pp"@ {
        Some(DynamicGroup::AgentPrimary)
    } else if name == "pr"@ {
        Some(DynamicGroup::AgentReplica)
    } else if name == "prw"@ {
        Some(DynamicGroup::AgentReadWrite)
    } else if name == "haproxy_rw"@ {
        Some(DynamicGroup::ProxyReadWrite)
    } else if name == "haproxy_r"@ {
        Some(DynamicGroup::ProxyRead)
    } else {
        None
    }
}

/// Whether a dynamic group takes a node in. A fact that is not known counts
/// as not holding; the two proxy groups are reserved and take nobody.
pub open spec fn selects(group: DynamicGroup, s: ServerView) -> bool {
    match group {
        DynamicGroup::All => true,
        DynamicGroup::Online => s.is_node_online == Some(true),
        DynamicGroup::Consistent => s.is_node_consistent == Some(true),
        DynamicGroup::PostgresLeader => s.postgres_is_leader == Some(true),
        DynamicGroup::PostgresReplica => s.postgres_is_replica == Some(true),
        DynamicGroup::LeaderCoordinator => s.citus_is_leader_coordinator_node == Some(true),
        DynamicGroup::ReplicaCoordinator => s.citus_is_replica_coordinator_node == Some(true),
        DynamicGroup::LeaderWorker => s.citus_is_leader_worker_node == Some(true),
        DynamicGroup::ReplicaWorker => s.citus_is_replica_worker_node == Some(true),
        DynamicGroup::ActiveWorker => s.citus_is_active_worker_node == Some(true),
        DynamicGroup::AgentPrimary => s.patroni_is_primary == Some(true),
        DynamicGroup::AgentReplica => s.patroni_is_replica == Some(true),
        DynamicGroup::AgentReadWrite => s.patroni_is_read_write == Some(true),
        DynamicGroup::ProxyReadWrite => false,
        DynamicGroup::ProxyRead => false,
    }
}

/// The test that a dynamic group puts to a node.
pub open spec fn selector(group: DynamicGroup) -> spec_fn(ServerView) -> bool {
    |s: ServerView| selects(group, s)
}

/// The members of a dynamic group: the nodes of the fleet that the group
/// takes in, in the order of the fleet.
pub open spec fn members(group: DynamicGroup, fleet: Seq<ServerView>) -> Seq<ServerView> {
    fleet.filter(selector(group))
}

/// The newest snapshot of a node: the last node of the fleet with the same
/// host, or the node as it is where the fleet has none.
pub open spec fn latest(fleet: Seq<ServerView>, member: ServerView) -> ServerView
    decreases fleet.len(),
{
    if fleet.len() == 0 {
        member
    } else if fleet.last().host == member.host {
        fleet.last()
    } else {
        latest(fleet.drop_last(), member)
    }
}

/// The members of a declared group with the newest snapshot of each.
pub open spec fn refreshed(group: Seq<ServerView>, fleet: Seq<ServerView>) -> Seq<ServerView> {
    Seq::new(group.len(), |i: int| latest(fleet, group[i]))
}

/// The groups after the dynamic groups were derived from `fleet`: under
/// each dynamic name the members of that group, whatever stood there
/// before; under every other name that was present the same members,
/// refreshed.
pub open spec fn regrouped(
    groups: Map<Seq<char>, Seq<ServerView>>,
    fleet: Seq<ServerView>,
) -> Map<Seq<char>, Seq<ServerView>> {
    Map::new(
        |name: Seq<char>| dynamic_group(name) is Some || groups.contains_key(name),
        |name: Seq<char>|
            match dynamic_group(name) {
                Some(group) => members(group, fleet),
                None => refreshed(groups[name], fleet),
            },
    )
}

/// The declared groups alone, refreshed.
pub open spec fn declared_part(
    groups: Map<Seq<char>, Seq<ServerView>>,
    fleet: Seq<ServerView>,
) -> Map<Seq<char>, Seq<ServerView>> {
    Map::new(
        |name: Seq<char>| dynamic_group(name) is None && groups.contains_key(name),
        |name: Seq<char>| refreshed(groups[name], fleet),
    )
}

/// The newest snapshot of a node has the node's host.
pub proof fn lemma_latest_keeps_host(fleet: Seq<ServerView>, member: ServerView)
    ensures
        latest(fleet, member).host == member.host,
    decreases fleet.len(),
{
    if fleet.len() > 0 && fleet.last().host != member.host {
        lemma_latest_keeps_host(fleet.drop_last(), member);
    }
}

/// The newest snapshot of a newest snapshot is that snapshot.
pub proof fn lemma_latest_twice(fleet: Seq<ServerView>, member: ServerView)
    ensures
        latest(fleet, latest(fleet, member)) == latest(fleet, member),
    decreases fleet.len(),
{
    if fleet.len() > 0 && fleet.last().host != member.host {
        lemma_latest_keeps_host(fleet.drop_last(), member);
        lemma_latest_twice(fleet.drop_last(), member);
    }
}

/// The name of a dynamic group.
pub fn group_name(group: DynamicGroup) -> (name: &'static str)
    ensures
        name@ == group_text(group),
        dynamic_group(name@) == Some(group),
{
    proof {
        lemma_names_distinct();
        assert(dynamic_group(group_text(group)) == Some(group));
    }
    match group {
        DynamicGroup::All => "all",
        DynamicGroup::Online => "online",
        DynamicGroup::Consistent => "cons",
        DynamicGroup::PostgresLeader => "pgl",
        DynamicGroup::PostgresReplica => "pgr",
        DynamicGroup::LeaderCoordinator => "clc",
        DynamicGroup::ReplicaCoordinator => "crc",
        DynamicGroup::LeaderWorker => "clw",
        DynamicGroup::ReplicaWorker => "crw",
        DynamicGroup::ActiveWorker => "caw",
        DynamicGroup::AgentPrimary => "pp",
        DynamicGroup::AgentReplica => "pr",
        DynamicGroup::AgentReadWrite => "prw",
        DynamicGroup::ProxyReadWrite => "haproxy_rw",
        DynamicGroup::ProxyRead => "haproxy_r",
    }
}

/// Makes the characters of the fifteen names known.
proof fn reveal_names()
    ensures
        "all"@.len() == 3,
        "all"@[0] == 'a',
        "all"@[1] == 'l',
        "all"@[2] == 'l',
        "online"@.len() == 6,
        "online"@[0] == 'o',
        "online"@[1] == 'n',
        "online"@[2] == 'l',
        "online"@[3] == 'i',
        "online"@[4] == 'n',
        "online"@[5] == 'e',
        "cons"@.len() == 4,
        "cons"@[0] == 'c',
        "cons"@[1] == 'o',
        "cons"@[2] == 'n',
        "cons"@[3] == 's',
        "pgl"@.len() == 3,
        "pgl"@[0] == 'p',
        "pgl"@[1] == 'g',
        "pgl"@[2] == 'l',
        "pgr"@.len() == 3,
        "pgr"@[0] == 'p',
        "pgr"@[1] == 'g',
        "pgr"@[2] == 'r',
        "clc"@.len() == 3,
        "clc"@[0] == 'c',
        "clc"@[1] == 'l',
        "clc"@[2] == 'c',
        "crc"@.len() == 3,
        "crc"@[0] == 'c',
        "crc"@[1] == 'r',
        "crc"@[2] == 'c',
        "clw"@.len() == 3,
        "clw"@[0] == 'c',
        "clw"@[1] == 'l',
        "clw"@[2] == 'w',
        "crw"@.len() == 3,
        "crw"@[0] == 'c',
        "crw"@[1] == 'r',
        "crw"@[2] == 'w',
        "caw"@.len() == 3,
        "caw"@[0] == 'c',
        "caw"@[1] == 'a',
        "caw"@[2] == 'w',
        "pp"@.len() == 2,
        "pp"@[0] == 'p',
        "pp"@[1] == 'p',
        "pr"@.len() == 2,
        "pr"@[0] == 'p',
        "pr"@[1] == 'r',
        "prw"@.len() == 3,
        "prw"@[0] == 'p',
        "prw"@[1] == 'r',
        "prw"@[2] == 'w',
        "haproxy_rw"@.len() == 10,
        "haproxy_rw"@[0] == 'h',
        "haproxy_rw"@[1] == 'a',
        "haproxy_rw"@[2] == 'p',
        "haproxy_rw"@[3] == 'r',
        "haproxy_rw"@[4] == 'o',
        "haproxy_rw"@[5] == 'x',
        "haproxy_rw"@[6] == 'y',
        "haproxy_rw"@[7] == '_',
        "haproxy_rw"@[8] == 'r',
        "haproxy_rw"@[9] == 'w',
        "haproxy_r"@.len() == 9,
        "haproxy_r"@[0] == 'h',
        "haproxy_r"@[1] == 'a',
        "haproxy_r"@[2] == 'p',
        "haproxy_r"@[3] == 'r',
        "haproxy_r"@[4] == 'o',
        "haproxy_r"@[5] == 'x',
        "haproxy_r"@[6] == 'y',
        "haproxy_r"@[7] == '_',
        "haproxy_r"@[8] == 'r',
{
    reveal_strlit("all");
    reveal_strlit("online");
    reveal_strlit("cons");
    reveal_strlit("pgl");
    reveal_strlit("pgr");
    reveal_strlit("clc");
    reveal_strlit("crc");
    reveal_strlit("clw");
    reveal_strlit("crw");
    reveal_strlit("caw");
    reveal_strlit("pp");
    reveal_strlit("pr");
    reveal_strlit("prw");
    reveal_strlit("haproxy_rw");
    reveal_strlit("haproxy_r");
}

/// Each dynamic group is the one that its name stands for: no two of the
/// fifteen names are the same.
pub proof fn lemma_names_distinct()
    ensures
        forall|group: DynamicGroup| #[trigger] dynamic_group(group_text(group)) == Some(group),
{
    reveal_names();
}

/// The dynamic group that a name stands for, if it stands for one.
pub fn dynamic_group_named(name: &str) -> (group: Option<DynamicGroup>)
    ensures
        group == dynamic_group(name@),
{
    if same_text(name, "all") {
        Some(DynamicGroup::All)
    } else if same_text(name, "online") {
        Some(DynamicGroup::Online)
    } else if same_text(name, "cons") {
        Some(DynamicGroup::Consistent)
    } else if same_text(name, "pgl") {
        Some(DynamicGroup::PostgresLeader)
    } else if same_text(name, "pgr") {
        Some(DynamicGroup::PostgresReplica)
    } else if same_text(name, "clc") {
        Some(DynamicGroup::LeaderCoordinator)
    } else if same_text(name, "crc") {
        Some(DynamicGroup::ReplicaCoordinator)
    } else if same_text(name, "clw") {
        Some(DynamicGroup::LeaderWorker)
    } else if same_text(name, "crw") {
        Some(DynamicGroup::ReplicaWorker)
    } else if same_text(name, "caw") {
        Some(DynamicGroup::ActiveWorker)
    } else if same_text(name, "pp") {
        Some(DynamicGroup::AgentPrimary)
    } else if same_text(name, "pr") {
        Some(DynamicGroup::AgentReplica)
    } else if same_text(name, "prw") {
        Some(DynamicGroup::AgentReadWrite)
    } else if same_text(name, "haproxy_rw") {
        Some(DynamicGroup::ProxyReadWrite)
    } else if same_text(name, "haproxy_r") {
        Some(DynamicGroup::ProxyRead)
    } else {
        None
    }
}

fn is_true(fact: Option<bool>) -> (b: bool)
    ensures
        b == (fact == Some(true)),
{
    match fact {
        Some(true) => true,
        _ => false,
    }
}

/// Whether a dynamic group takes a node in.
pub fn group_selects(group: DynamicGroup, server: &Server) -> (b: bool)
    ensures
        b == selects(group, server@),
{
    match group {
        DynamicGroup::All => true,
        DynamicGroup::Online => is_true(server.is_node_online),
        DynamicGroup::Consistent => is_true(server.is_node_consistent),
        DynamicGroup::PostgresLeader => is_true(server.postgres_is_leader),
        DynamicGroup::PostgresReplica => is_true(server.postgres_is_replica),
        DynamicGroup::LeaderCoordinator => is_true(server.citus_is_leader_coordinator_node),
        DynamicGroup::ReplicaCoordinator => is_true(server.citus_is_replica_coordinator_node),
        DynamicGroup::LeaderWorker => is_true(server.citus_is_leader_worker_node),
        DynamicGroup::ReplicaWorker => is_true(server.citus_is_replica_worker_node),
        DynamicGroup::ActiveWorker => is_true(server.citus_is_active_worker_node),
        DynamicGroup::AgentPrimary => is_true(server.patroni_is_primary),
        DynamicGroup::AgentReplica => is_true(server.patroni_is_replica),
        DynamicGroup::AgentReadWrite => is_true(server.patroni_is_read_write),
        DynamicGroup::ProxyReadWrite => false,
        DynamicGroup::ProxyRead => false,
    }
}

/// The members of a dynamic group among the nodes of the fleet.
pub fn select_members(group: DynamicGroup, fleet: &Vec<Server>) -> (chosen: Vec<Server>)
    ensures
        server_views(chosen@) == members(group, server_views(fleet@)),
{
    let ghost all = server_views(fleet@);
    let mut chosen: Vec<Server> = Vec::new();
    let mut i: usize = 0;
    proof {
        reveal(Seq::filter);
        assert(all.take(0) =~= Seq::<ServerView>::empty());
        assert(server_views(chosen@) =~= all.take(0).filter(selector(group)));
    }
    while i < fleet.len()
        invariant
            i <= fleet.len(),
            all == server_views(fleet@),
            server_views(chosen@) == all.take(i as int).filter(selector(group)),
        decreases fleet.len() - i,
    {
        let ghost before = server_views(chosen@);
        proof {
            reveal(Seq::filter);
            let upto = all.take(i + 1);
            assert(upto.drop_last() =~= all.take(i as int));
            assert(upto.last() == fleet@[i as int]@);
        }
        if group_selects(group, &fleet[i]) {
            chosen.push(fleet[i].clone());
            assert(server_views(chosen@) =~= before.push(fleet@[i as int]@));
        }
        i += 1;
    }
    assert(all.take(fleet.len() as int) =~= all);
    chosen
}

fn find_latest<'a>(fleet: &'a Vec<Server>, host: &str) -> (found: Option<&'a Server>)
    ensures
        forall|member: ServerView|
            member.host == host@ ==> #[trigger] latest(server_views(fleet@), member) == match found {
                Some(s) => s@,
                None => member,
            },
{
    let ghost all = server_views(fleet@);
    let mut k: usize = fleet.len();
    assert(all.take(k as int) =~= all);
    while k > 0
        invariant
            k <= fleet.len(),
            all == server_views(fleet@),
            forall|member: ServerView|
                member.host == host@ ==> #[trigger] latest(all, member) == latest(
                    all.take(k as int),
                    member,
                ),
        decreases k,
    {
        proof {
            let upto = all.take(k as int);
            assert(upto.drop_last() =~= all.take(k - 1));
            assert(upto.last() == fleet@[k - 1]@);
        }
        if same_text(fleet[k - 1].host.as_str(), host) {
            return Some(&fleet[k - 1]);
        }
        k -= 1;
    }
    None
}

/// The members of a declared group with the newest snapshot of each.
pub fn refresh_members(group: &Vec<Server>, fleet: &Vec<Server>) -> (fresh: Vec<Server>)
    ensures
        server_views(fresh@) == refreshed(server_views(group@), server_views(fleet@)),
{
    let mut fresh: Vec<Server> = Vec::new();
    let mut i: usize = 0;
    while i < group.len()
        invariant
            i <= group.len(),
            fresh.len() == i,
            forall|j: int|
                0 <= j < i ==> (#[trigger] fresh@[j])@ == latest(
                    server_views(fleet@),
                    group@[j]@,
                ),
        decreases group.len() - i,
    {
        let member = &group[i];
        let newest = match find_latest(fleet, member.host.as_str()) {
            Some(s) => s.clone(),
            None => member.clone(),
        };
        assert(newest@ == latest(server_views(fleet@), member@));
        fresh.push(newest);
        i += 1;
    }
    assert(server_views(fresh@) =~= refreshed(server_views(group@), server_views(fleet@)));
    fresh
}

/// The groups of the fleet, declared and dynamic, by name.
pub struct ServerProvider {
    server_groups: Vec<ServerGroup>,
}

impl View for ServerProvider {
    type V = Map<Seq<char>, Seq<ServerView>>;

    closed spec fn view(&self) -> Map<Seq<char>, Seq<ServerView>> {
        fleet_of(self.server_groups@)
    }
}

impl ServerProvider {
    /// The fleet that the given groups stand for. Of two groups with one
    /// name the later one counts.
    pub fn new(server_groups: Vec<ServerGroup>) -> (provider: Self)
        ensures
            provider@ == fleet_of(server_groups@),
    {
        Self { server_groups }
    }

    /// The nodes of the group with the given name, or `None` where the
    /// fleet has no group of that name.
    pub fn get_servers_in_group(&self, server_group_name: &str) -> (servers: Option<Vec<Server>>)
        ensures
            match servers {
                Some(found) => self@.contains_key(server_group_name@) && server_views(found@)
                    == self@[server_group_name@],
                None => !self@.contains_key(server_group_name@),
            },
    {
        let ghost groups = self.server_groups@;
        let mut k: usize = self.server_groups.len();
        assert(groups.take(k as int) =~= groups);
        while k > 0
            invariant
                k <= self.server_groups.len(),
                groups == self.server_groups@,
                fleet_of(groups).contains_key(server_group_name@) == fleet_of(
                    groups.take(k as int),
                ).contains_key(server_group_name@),
                fleet_of(groups).contains_key(server_group_name@) ==> fleet_of(
                    groups,
                )[server_group_name@] == fleet_of(groups.take(k as int))[server_group_name@],
            decreases k,
        {
            proof {
                let upto = groups.take(k as int);
                assert(upto.drop_last() =~= groups.take(k - 1));
                assert(upto.last() == groups[k - 1]);
            }
            if same_text(self.server_groups[k - 1].name.as_str(), server_group_name) {
                let found = self.server_groups[k - 1].servers.clone();
                assert(server_views(found@) =~= server_views(groups[k - 1].servers@));
                return Some(found);
            }
            k -= 1;
        }
        None
    }

    fn add_dynamic_group(&mut self, group: DynamicGroup, fleet: &Vec<Server>)
        ensures
            final(self)@ == old(self)@.insert(
                group_text(group),
                members(group, server_views(fleet@)),
            ),
    {
        let name = String::from_str(group_name(group));
        let servers = select_members(group, fleet);
        let ghost before = self.server_groups@;
        self.server_groups.push(ServerGroup { name, servers });
        proof {
            assert(self.server_groups@.drop_last() =~= before);
        }
    }

    /// Derives the dynamic groups from the fleet as it was probed and
    /// classified, and refreshes the declared groups: every member of a
    /// declared group is replaced by the newest snapshot of the node with
    /// its host. What stood under a dynamic name before is cleared.
    pub fn update_server_groups(&mut self, main_server_group: Vec<Server>)
        ensures
            final(self)@ == regrouped(old(self)@, server_views(main_server_group@)),
    {
        let ghost fleet = server_views(main_server_group@);
        let ghost before = self.server_groups@;
        let mut kept: Vec<ServerGroup> = Vec::new();
        let mut i: usize = 0;
        proof {
            assert(before.take(0) =~= Seq::<ServerGroup>::empty());
            assert(fleet_of(kept@) =~= declared_part(fleet_of(before.take(0)), fleet));
        }
        while i < self.server_groups.len()
            invariant
                i <= self.server_groups.len(),
                before == self.server_groups@,
                fleet == server_views(main_server_group@),
                fleet_of(kept@) == declared_part(fleet_of(before.take(i as int)), fleet),
            decreases self.server_groups.len() - i,
        {
            let group = &self.server_groups[i];
            proof {
                let upto = before.take(i + 1);
                assert(upto.drop_last() =~= before.take(i as int));
                assert(upto.last() == before[i as int]);
            }
            if dynamic_group_named(group.name.as_str()).is_none() {
                let servers = refresh_members(&group.servers, &main_server_group);
                let ghost done = kept@;
                kept.push(ServerGroup { name: group.name.clone(), servers });
                proof {
                    assert(kept@.drop_last() =~= done);
                    assert(fleet_of(kept@) =~= declared_part(
                        fleet_of(before.take(i + 1)),
                        fleet,
                    ));
                }
            } else {
                assert(declared_part(fleet_of(before.take(i + 1)), fleet) =~= declared_part(
                    fleet_of(before.take(i as int)),
                    fleet,
                ));
            }
            i += 1;
        }
        assert(before.take(before.len() as int) =~= before);
        self.server_groups = kept;
        self.add_dynamic_group(DynamicGroup::All, &main_server_group);
        self.add_dynamic_group(DynamicGroup::Online, &main_server_group);
        self.add_dynamic_group(DynamicGroup::Consistent, &main_server_group);
        self.add_dynamic_group(DynamicGroup::PostgresLeader, &main_server_group);
        self.add_dynamic_group(DynamicGroup::PostgresReplica, &main_server_group);
        self.add_dynamic_group(DynamicGroup::LeaderCoordinator, &main_server_group);
        self.add_dynamic_group(DynamicGroup::ReplicaCoordinator, &main_server_group);
        self.add_dynamic_group(DynamicGroup::LeaderWorker, &main_server_group);
        self.add_dynamic_group(DynamicGroup::ReplicaWorker, &main_server_group);
        self.add_dynamic_group(DynamicGroup::ActiveWorker, &main_server_group);
        self.add_dynamic_group(DynamicGroup::AgentPrimary, &main_server_group);
        self.add_dynamic_group(DynamicGroup::AgentReplica, &main_server_group);
        self.add_dynamic_group(DynamicGroup::AgentReadWrite, &main_server_group);
        self.add_dynamic_group(DynamicGroup::ProxyReadWrite, &main_server_group);
        self.add_dynamic_group(DynamicGroup::ProxyRead, &main_server_group);
        proof {
            lemma_names_distinct();
            assert(self@ =~= regrouped(fleet_of(before), fleet));
        }
    }
}

/// The name of a dynamic group, as characters.
pub open spec fn group_text(group: DynamicGroup) -> Seq<char> {
    match group {
        DynamicGroup::All => "all"@,
        DynamicGroup::Online => "online"@,
        DynamicGroup::Consistent => "cons"@,
        DynamicGroup::PostgresLeader => "pgl"@,
        DynamicGroup::PostgresReplica => "pgr"@,
        DynamicGroup::LeaderCoordinator => "clc"@,
        DynamicGroup::ReplicaCoordinator => "crc"@,
        DynamicGroup::LeaderWorker => "clw"@,
        DynamicGroup::ReplicaWorker => "crw"@,
        DynamicGroup::ActiveWorker => "caw"@,
        DynamicGroup::AgentPrimary => "pp"@,
        DynamicGroup::AgentReplica => "pr"@,
        DynamicGroup::AgentReadWrite => "prw"@,
        DynamicGroup::ProxyReadWrite => "haproxy_rw"@,
        DynamicGroup::ProxyRead => "haproxy_r"@,
    }
}

/// Deriving the groups a second time from the same fleet changes nothing.
pub proof fn law_regrouping_is_idempotent(
    groups: Map<Seq<char>, Seq<ServerView>>,
    fleet: Seq<ServerView>,
)
    ensures
        regrouped(regrouped(groups, fleet), fleet) == regrouped(groups, fleet),
{
    let once = regrouped(groups, fleet);
    let twice = regrouped(once, fleet);
    assert forall|name: Seq<char>| once.contains_key(name) implies #[trigger] twice[name]
        == once[name] by {
        if dynamic_group(name) is None {
            let declared = groups[name];
            assert forall|i: int| 0 <= i < declared.len() implies latest(
                fleet,
                #[trigger] refreshed(declared, fleet)[i],
            ) == latest(fleet, declared[i]) by {
                lemma_latest_twice(fleet, declared[i]);
            }
            assert(refreshed(refreshed(declared, fleet), fleet) =~= refreshed(declared, fleet));
        }
    }
    assert(twice =~= once);
}

/// Every member of a dynamic group is a node of the fleet: each dynamic
/// group is a part of the group `all`, and `all` is the fleet.
pub proof fn law_dynamic_groups_within_all(
    groups: Map<Seq<char>, Seq<ServerView>>,
    fleet: Seq<ServerView>,
    group: DynamicGroup,
    node: ServerView,
)
    requires
        regrouped(groups, fleet)[group_text(group)].contains(node),
    ensures
        regrouped(groups, fleet)["all"@] == fleet,
        regrouped(groups, fleet)["all"@].contains(node),
{
    lemma_names_distinct();
    lemma_all_is_the_fleet(fleet);
    assert(dynamic_group(group_text(group)) == Some(group));
    assert(dynamic_group(group_text(DynamicGroup::All)) == Some(DynamicGroup::All));
    fleet.lemma_filter_contains_rev(selector(group), node);
}

/// The group `all` takes every node in.
pub proof fn lemma_all_is_the_fleet(fleet: Seq<ServerView>)
    ensures
        members(DynamicGroup::All, fleet) == fleet,
    decreases fleet.len(),
{
    reveal(Seq::filter);
    if fleet.len() > 0 {
        lemma_all_is_the_fleet(fleet.drop_last());
        assert(fleet.drop_last().push(fleet.last()) =~= fleet);
    }
}

} // verus!
