//! The declared inventory: deployments, environments, clusters, groups of
//! servers, and the fleet that the selected cluster comes to.
use vstd::prelude::*;
use crate::server::materialised;
use crate::server::same_server;
use crate::server::server_views;
use crate::server::Server;
use crate::server::ServerView;
use crate::text::same_text;
use crate::text::text_view;

verus! {

/// A named list of servers.
#[derive(Debug, PartialEq, Eq)]
pub struct ServerGroup {
    pub name: String,
    pub servers: Vec<Server>,
}

impl Clone for ServerGroup {
    fn clone(&self) -> (copy: Self)
        ensures
            copy.name@ == self.name@,
            server_views(copy.servers@) == server_views(self.servers@),
    {
        let servers = self.servers.clone();
        assert(server_views(servers@) =~= server_views(self.servers@));
        ServerGroup { name: self.name.clone(), servers }
    }
}

/// The fleet that a list of groups stands for: a mapping from the name of a
/// group to its nodes in order. Of two groups with one name the later one
/// counts.
pub open spec fn fleet_of(groups: Seq<ServerGroup>) -> Map<Seq<char>, Seq<ServerView>>
    decreases groups.len(),
{
    if groups.len() == 0 {
        Map::empty()
    } else {
        fleet_of(groups.drop_last()).insert(
            groups.last().name@,
            server_views(groups.last().servers@),
        )
    }
}


/// A cluster as the inventory declares it: the defaults for the connection
/// attributes of its servers, the database of the distributed extension,
/// and its groups of servers.
#[derive(Debug, PartialEq, Eq)]
pub struct Cluster {
    pub name: String,
    pub default_port: Option<i32>,
    pub default_db_name: Option<String>,
    pub default_user: Option<String>,
    pub default_password: Option<String>,
    pub default_connect_timeout_sec: Option<i32>,
    pub citus_db_name: Option<String>,
    pub server_groups: Vec<ServerGroup>,
}

/// An environment: clusters, one of which is the default.
#[derive(Debug, PartialEq, Eq)]
pub struct Environment {
    pub name: String,
    pub default_cluster_name: String,
    pub clusters: Vec<Cluster>,
}

/// A deployment: environments, one of which is the default.
#[derive(Debug, PartialEq, Eq)]
pub struct Deployment {
    pub name: String,
    pub default_environment_name: String,
    pub environments: Vec<Environment>,
}

/// The values of every group of a list.
pub open spec fn group_views(groups: Seq<ServerGroup>) -> Seq<Seq<ServerView>> {
    Seq::new(groups.len(), |i: int| server_views(groups[i].servers@))
}

/// The names of the groups of a list.
pub open spec fn group_names(groups: Seq<ServerGroup>) -> Seq<Seq<char>> {
    Seq::new(groups.len(), |i: int| groups[i].name@)
}

impl Cluster {
    /// A cluster without a name, defaults or groups.
    pub fn new() -> (cluster: Self)
        ensures
            cluster.name@ == Seq::<char>::empty(),
            cluster.default_port is None,
            cluster.default_db_name is None,
            cluster.default_user is None,
            cluster.default_password is None,
            cluster.default_connect_timeout_sec is None,
            cluster.citus_db_name is None,
            cluster.server_groups@ == Seq::<ServerGroup>::empty(),
    {
        Self {
            name: String::new(),
            default_port: None,
            default_db_name: None,
            default_user: None,
            default_password: None,
            default_connect_timeout_sec: None,
            citus_db_name: None,
            server_groups: Vec::new(),
        }
    }

    /// A copy of another cluster.
    pub fn from(other: &Cluster) -> (cluster: Self)
        ensures
            cluster.name@ == other.name@,
            cluster.default_port == other.default_port,
            text_view(cluster.default_db_name) == text_view(other.default_db_name),
            text_view(cluster.default_user) == text_view(other.default_user),
            text_view(cluster.default_password) == text_view(other.default_password),
            cluster.default_connect_timeout_sec == other.default_connect_timeout_sec,
            text_view(cluster.citus_db_name) == text_view(other.citus_db_name),
            group_names(cluster.server_groups@) == group_names(other.server_groups@),
            group_views(cluster.server_groups@) == group_views(other.server_groups@),
    {
        let mut groups: Vec<ServerGroup> = Vec::new();
        let mut i: usize = 0;
        while i < other.server_groups.len()
            invariant
                i <= other.server_groups.len(),
                groups.len() == i,
                forall|j: int|
                    0 <= j < i ==> (#[trigger] groups@[j]).name@ == other.server_groups@[j].name@
                        && server_views(groups@[j].servers@) == server_views(
                        other.server_groups@[j].servers@,
                    ),
            decreases other.server_groups.len() - i,
        {
            groups.push(other.server_groups[i].clone());
            i += 1;
        }
        assert(group_names(groups@) =~= group_names(other.server_groups@));
        assert(group_views(groups@) =~= group_views(other.server_groups@));
        Self {
            name: other.name.clone(),
            default_port: other.default_port,
            default_db_name: other.default_db_name.clone(),
            default_user: other.default_user.clone(),
            default_password: other.default_password.clone(),
            default_connect_timeout_sec: other.default_connect_timeout_sec,
            citus_db_name: other.citus_db_name.clone(),
            server_groups: groups,
        }
    }
}

/// A declared server as the cluster materialises it.
pub open spec fn materialised_in(cluster: Cluster, declared: ServerView) -> ServerView {
    materialised(
        declared,
        cluster.default_port,
        text_view(cluster.default_db_name),
        text_view(cluster.default_user),
        text_view(cluster.default_password),
        cluster.default_connect_timeout_sec,
    )
}

/// The servers of a declared group as the cluster materialises them.
pub open spec fn materialised_group(cluster: Cluster, declared: Seq<ServerView>) -> Seq<
    ServerView,
> {
    Seq::new(declared.len(), |i: int| materialised_in(cluster, declared[i]))
}

/// The position of the first environment with the given name, or the
/// number of environments where none has it.
pub open spec fn environment_position(environments: Seq<Environment>, name: Seq<char>) -> int
    decreases environments.len(),
{
    if environments.len() == 0 || environments[0].name@ == name {
        0
    } else {
        1 + environment_position(environments.drop_first(), name)
    }
}

/// The position of the first cluster with the given name, or the number of
/// clusters where none has it.
pub open spec fn cluster_position(clusters: Seq<Cluster>, name: Seq<char>) -> int
    decreases clusters.len(),
{
    if clusters.len() == 0 || clusters[0].name@ == name {
        0
    } else {
        1 + cluster_position(clusters.drop_first(), name)
    }
}

proof fn lemma_environment_position_at(environments: Seq<Environment>, name: Seq<char>, k: int)
    requires
        0 <= k <= environments.len(),
        forall|j: int| 0 <= j < k ==> (#[trigger] environments[j]).name@ != name,
        k == environments.len() || environments[k].name@ == name,
    ensures
        environment_position(environments, name) == k,
    decreases k,
{
    if k > 0 {
        let rest = environments.drop_first();
        assert forall|j: int| 0 <= j < k - 1 implies (#[trigger] rest[j]).name@ != name by {
            assert(rest[j] == environments[j + 1]);
        }
        lemma_environment_position_at(rest, name, k - 1);
    }
}

proof fn lemma_cluster_position_at(clusters: Seq<Cluster>, name: Seq<char>, k: int)
    requires
        0 <= k <= clusters.len(),
        forall|j: int| 0 <= j < k ==> (#[trigger] clusters[j]).name@ != name,
        k == clusters.len() || clusters[k].name@ == name,
    ensures
        cluster_position(clusters, name) == k,
    decreases k,
{
    if k > 0 {
        let rest = clusters.drop_first();
        assert forall|j: int| 0 <= j < k - 1 implies (#[trigger] rest[j]).name@ != name by {
            assert(rest[j] == clusters[j + 1]);
        }
        lemma_cluster_position_at(rest, name, k - 1);
    }
}

/// Whether a later group of the list has the name of group `i`, so that
/// group `i` does not count.
pub open spec fn shadowed(groups: Seq<ServerGroup>, i: int) -> bool {
    exists|j: int| i < j < groups.len() && (#[trigger] groups[j]).name@ == groups[i].name@
}

/// The nodes of the groups that count among the first `upto` groups, group
/// after group.
pub open spec fn counted_nodes(groups: Seq<ServerGroup>, upto: int) -> Seq<ServerView>
    decreases upto,
{
    if upto <= 0 {
        Seq::empty()
    } else if shadowed(groups, upto - 1) {
        counted_nodes(groups, upto - 1)
    } else {
        counted_nodes(groups, upto - 1) + server_views(groups[upto - 1].servers@)
    }
}

/// The nodes without repetition: of equal nodes the first stays, and what
/// stays keeps its order.
pub open spec fn distinct(nodes: Seq<ServerView>) -> Seq<ServerView>
    decreases nodes.len(),
{
    if nodes.len() == 0 {
        Seq::empty()
    } else {
        let before = distinct(nodes.drop_last());
        if before.contains(nodes.last()) {
            before
        } else {
            before.push(nodes.last())
        }
    }
}

/// Why the inventory yields no fleet.
#[derive(Clone, Copy, Debug, PartialEq, Eq, Structural)]
pub enum InventoryError {
    /// No deployment was loaded.
    NoDeployment,
    /// No environment has the name of the default environment.
    NoDefaultEnvironment,
    /// No cluster has the name of the default cluster.
    NoDefaultCluster,
}

/// Holds the inventory of a deployment and materialises its fleet.
pub struct InventoryManager<'a> {
    inventory_file_name: &'a String,
    deployment: Option<Deployment>,
}

/// The default cluster of the default environment of a deployment, or why
/// there is none.
pub open spec fn selected_cluster(deployment: Option<Deployment>) -> Result<
    Cluster,
    InventoryError,
> {
    match deployment {
        None => Err(InventoryError::NoDeployment),
        Some(d) => {
            let e = environment_position(d.environments@, d.default_environment_name@);
            if e >= d.environments.len() {
                Err(InventoryError::NoDefaultEnvironment)
            } else {
                let environment = d.environments@[e];
                let c = cluster_position(environment.clusters@, environment.default_cluster_name@);
                if c >= environment.clusters.len() {
                    Err(InventoryError::NoDefaultCluster)
                } else {
                    Ok(environment.clusters@[c])
                }
            }
        },
    }
}

/// Whether a list of groups is the fleet of a cluster: one group for each
/// declared group, in the declared order and with its servers materialised,
/// and behind them the group `all` with every node of the groups that
/// count, without repetition.
pub open spec fn is_fleet_of(fleet: Seq<ServerGroup>, cluster: Cluster) -> bool {
    let declared = cluster.server_groups@;
    &&& fleet.len() == declared.len() + 1
    &&& forall|i: int|
        0 <= i < declared.len() ==> (#[trigger] fleet[i]).name@ == declared[i].name@
            && server_views(fleet[i].servers@) == materialised_group(
            cluster,
            server_views(declared[i].servers@),
        )
    &&& fleet.last().name@ == "all"@
    &&& server_views(fleet.last().servers@) == distinct(
        counted_nodes(fleet.drop_last(), declared.len() as int),
    )
}

impl<'a> InventoryManager<'a> {
    /// A manager for the inventory in the named file, with nothing loaded.
    pub fn new(inventory_file_name: &'a String) -> (manager: Self)
        ensures
            manager.file_name() == inventory_file_name@,
            manager.deployment() is None,
    {
        Self { inventory_file_name, deployment: None }
    }

    /// The name of the inventory file.
    pub closed spec fn file_name(&self) -> Seq<char> {
        self.inventory_file_name@
    }

    /// The deployment that was loaded, if any.
    pub closed spec fn deployment(&self) -> Option<Deployment> {
        self.deployment
    }

    /// The name of the inventory file.
    pub fn inventory_file_name(&self) -> (name: &'a String)
        ensures
            name@ == self.file_name(),
    {
        self.inventory_file_name
    }

    /// Takes a deployment as the loaded inventory.
    pub fn set_deployment(&mut self, deployment: Deployment)
        ensures
            final(self).deployment() == Some(deployment),
            final(self).file_name() == old(self).file_name(),
    {
        self.deployment = Some(deployment);
    }

    /// The environment whose name is the deployment's default.
    pub fn get_default_environment(&self) -> (r: Result<&Environment, InventoryError>)
        ensures
            match r {
                Ok(environment) => self.deployment() matches Some(d) && environment_position(
                    d.environments@,
                    d.default_environment_name@,
                ) < d.environments.len() && *environment == d.environments@[environment_position(
                    d.environments@,
                    d.default_environment_name@,
                )],
                Err(e) => match self.deployment() {
                    None => e == InventoryError::NoDeployment,
                    Some(d) => e == InventoryError::NoDefaultEnvironment && environment_position(
                        d.environments@,
                        d.default_environment_name@,
                    ) >= d.environments.len(),
                },
            },
    {
        match &self.deployment {
            None => Err(InventoryError::NoDeployment),
            Some(d) => {
                let mut k: usize = 0;
                while k < d.environments.len() && !same_text(
                    d.environments[k].name.as_str(),
                    d.default_environment_name.as_str(),
                )
                    invariant
                        k <= d.environments.len(),
                        forall|j: int|
                            0 <= j < k ==> (#[trigger] d.environments@[j]).name@
                                != d.default_environment_name@,
                    decreases d.environments.len() - k,
                {
                    k += 1;
                }
                proof {
                    lemma_environment_position_at(
                        d.environments@,
                        d.default_environment_name@,
                        k as int,
                    );
                }
                if k < d.environments.len() {
                    Ok(&d.environments[k])
                } else {
                    Err(InventoryError::NoDefaultEnvironment)
                }
            },
        }
    }

    /// The cluster of an environment whose name is the environment's
    /// default.
    pub fn get_default_cluster<'b>(&self, environment: &'b Environment) -> (r: Result<
        &'b Cluster,
        InventoryError,
    >)
        ensures
            match r {
                Ok(cluster) => cluster_position(
                    environment.clusters@,
                    environment.default_cluster_name@,
                ) < environment.clusters.len() && *cluster == environment.clusters@[cluster_position(
                    environment.clusters@,
                    environment.default_cluster_name@,
                )],
                Err(e) => e == InventoryError::NoDefaultCluster && cluster_position(
                    environment.clusters@,
                    environment.default_cluster_name@,
                ) >= environment.clusters.len(),
            },
    {
        let mut k: usize = 0;
        while k < environment.clusters.len() && !same_text(
            environment.clusters[k].name.as_str(),
            environment.default_cluster_name.as_str(),
        )
            invariant
                k <= environment.clusters.len(),
                forall|j: int|
                    0 <= j < k ==> (#[trigger] environment.clusters@[j]).name@
                        != environment.default_cluster_name@,
            decreases environment.clusters.len() - k,
        {
            k += 1;
        }
        proof {
            lemma_cluster_position_at(
                environment.clusters@,
                environment.default_cluster_name@,
                k as int,
            );
        }
        if k < environment.clusters.len() {
            Ok(&environment.clusters[k])
        } else {
            Err(InventoryError::NoDefaultCluster)
        }
    }

    /// The fleet of the default cluster of the default environment, with
    /// the name of the database of the distributed extension, or `None`
    /// where the inventory selects no cluster.
    pub fn get_static_server_groups(&self) -> (r: Option<(Vec<ServerGroup>, Option<String>)>)
        ensures
            match r {
                Some((fleet, dist_db_name)) => selected_cluster(self.deployment()) matches Ok(
                    cluster,
                ) && is_fleet_of(fleet@, cluster) && text_view(dist_db_name) == text_view(
                    cluster.citus_db_name,
                ),
                None => selected_cluster(self.deployment()) is Err,
            },
    {
        let environment = match self.get_default_environment() {
            Ok(e) => e,
            Err(_) => {
                return None;
            },
        };
        let cluster = match self.get_default_cluster(environment) {
            Ok(c) => c,
            Err(_) => {
                return None;
            },
        };
        let mut fleet = materialise_groups(cluster);
        let all = collect_distinct(&fleet);
        let ghost declared = fleet@;
        fleet.push(ServerGroup { name: "all".to_owned(), servers: all });
        proof {
            assert(fleet@.drop_last() =~= declared);
        }
        Some((fleet, cluster.citus_db_name.clone()))
    }
}

/// The declared groups of a cluster with their servers materialised.
pub fn materialise_groups(cluster: &Cluster) -> (fleet: Vec<ServerGroup>)
    ensures
        fleet.len() == cluster.server_groups.len(),
        forall|i: int|
            0 <= i < fleet.len() ==> (#[trigger] fleet@[i]).name@ == cluster.server_groups@[i].name@
                && server_views(fleet@[i].servers@) == materialised_group(
                *cluster,
                server_views(cluster.server_groups@[i].servers@),
            ),
{
    let mut fleet: Vec<ServerGroup> = Vec::new();
    let mut i: usize = 0;
    while i < cluster.server_groups.len()
        invariant
            i <= cluster.server_groups.len(),
            fleet.len() == i,
            forall|j: int|
                0 <= j < i ==> (#[trigger] fleet@[j]).name@ == cluster.server_groups@[j].name@
                    && server_views(fleet@[j].servers@) == materialised_group(
                    *cluster,
                    server_views(cluster.server_groups@[j].servers@),
                ),
        decreases cluster.server_groups.len() - i,
    {
        let declared = &cluster.server_groups[i];
        let mut servers: Vec<Server> = Vec::new();
        let mut k: usize = 0;
        while k < declared.servers.len()
            invariant
                k <= declared.servers.len(),
                servers.len() == k,
                forall|j: int|
                    0 <= j < k ==> (#[trigger] servers@[j])@ == materialised_in(
                        *cluster,
                        declared.servers@[j]@,
                    ),
            decreases declared.servers.len() - k,
        {
            servers.push(
                Server::from(
                    &declared.servers[k],
                    (
                        &cluster.default_port,
                        &cluster.default_db_name,
                        &cluster.default_user,
                        &cluster.default_password,
                        &cluster.default_connect_timeout_sec,
                    ),
                ),
            );
            k += 1;
        }
        assert(server_views(servers@) =~= materialised_group(
            *cluster,
            server_views(declared.servers@),
        ));
        fleet.push(ServerGroup { name: declared.name.clone(), servers });
        i += 1;
    }
    fleet
}

fn is_shadowed(groups: &Vec<ServerGroup>, i: usize) -> (b: bool)
    requires
        i < groups.len(),
    ensures
        b == shadowed(groups@, i as int),
{
    let mut j: usize = i + 1;
    while j < groups.len()
        invariant
            i < j <= groups.len(),
            forall|k: int| i < k < j ==> (#[trigger] groups@[k]).name@ != groups@[i as int].name@,
        decreases groups.len() - j,
    {
        if same_text(groups[j].name.as_str(), groups[i].name.as_str()) {
            return true;
        }
        j += 1;
    }
    false
}

fn holds_server(nodes: &Vec<Server>, server: &Server) -> (b: bool)
    ensures
        b == server_views(nodes@).contains(server@),
{
    let mut k: usize = 0;
    while k < nodes.len()
        invariant
            k <= nodes.len(),
            forall|j: int| 0 <= j < k ==> (#[trigger] server_views(nodes@)[j]) != server@,
        decreases nodes.len() - k,
    {
        if same_server(&nodes[k], server) {
            assert(server_views(nodes@)[k as int] == server@);
            return true;
        }
        k += 1;
    }
    false
}

/// Every node of the groups that count, without repetition.
pub fn collect_distinct(groups: &Vec<ServerGroup>) -> (nodes: Vec<Server>)
    ensures
        server_views(nodes@) == distinct(counted_nodes(groups@, groups.len() as int)),
{
    let mut nodes: Vec<Server> = Vec::new();
    let mut i: usize = 0;
    assert(server_views(nodes@) =~= distinct(counted_nodes(groups@, 0)));
    while i < groups.len()
        invariant
            i <= groups.len(),
            server_views(nodes@) == distinct(counted_nodes(groups@, i as int)),
        decreases groups.len() - i,
    {
        if !is_shadowed(groups, i) {
            let members = &groups[i].servers;
            let ghost base = counted_nodes(groups@, i as int);
            let ghost added = server_views(members@);
            let mut k: usize = 0;
            assert(base + added.take(0) =~= base);
            while k < members.len()
                invariant
                    k <= members.len(),
                    added == server_views(members@),
                    server_views(nodes@) == distinct(base + added.take(k as int)),
                decreases members.len() - k,
            {
                proof {
                    let upto = base + added.take(k + 1);
                    assert(upto.drop_last() =~= base + added.take(k as int));
                    assert(upto.last() == members@[k as int]@);
                }
                if !holds_server(&nodes, &members[k]) {
                    let ghost before = server_views(nodes@);
                    nodes.push(members[k].clone());
                    assert(server_views(nodes@) =~= before.push(members@[k as int]@));
                }
                k += 1;
            }
            assert(added.take(members.len() as int) =~= added);
        }
        i += 1;
    }
    nodes
}

} // verus!
