//! What the probes found out, and how it is written into the nodes of the
//! fleet. The probes themselves run elsewhere; this module decides what to
//! probe and applies the answers.
use vstd::prelude::*;
use vstd::string::StringExecFns;
use crate::server::connection_text;
use crate::server::server_views;
use crate::server::Server;
use crate::server::ServerView;
use crate::settings::toggle_at;
use crate::settings::SettingsProvider;
use crate::text::same_text;
use crate::text::text_view;

verus! {

/// What the availability agent of one node answered, endpoint by endpoint.
#[derive(Clone, Copy, Debug, PartialEq, Eq, Structural)]
pub struct PatroniFactsCollectorResult {
    pub healthy: Option<bool>,
    pub is_primary: Option<bool>,
    pub is_replica: Option<bool>,
    pub replica_has_no_lag: Option<bool>,
    pub is_read_write: Option<bool>,
    pub is_read_only: Option<bool>,
    pub is_standby_leader: Option<bool>,
    pub is_sync_standby: Option<bool>,
    pub is_async_standby: Option<bool>,
}

/// The status codes that the availability agent of one node answered with,
/// endpoint by endpoint.
#[derive(Clone, Copy, Debug, PartialEq, Eq, Structural)]
pub struct PatroniStatusCodes {
    pub health: u16,
    pub primary: u16,
    pub replica: u16,
    pub replica_lag: u16,
    pub read_write: u16,
    pub read_only: u16,
    pub standby_leader: u16,
    pub synchronous: u16,
    pub asynchronous: u16,
}

/// Whether a status code says yes: only `200` does.
pub open spec fn status_says_yes(code: u16) -> bool {
    code == 200
}

/// The facts that a set of status codes stands for.
pub open spec fn facts_of_codes(codes: PatroniStatusCodes) -> PatroniFactsCollectorResult {
    PatroniFactsCollectorResult {
        healthy: Some(status_says_yes(codes.health)),
        is_primary: Some(status_says_yes(codes.primary)),
        is_replica: Some(status_says_yes(codes.replica)),
        replica_has_no_lag: Some(status_says_yes(codes.replica_lag)),
        is_read_write: Some(status_says_yes(codes.read_write)),
        is_read_only: Some(status_says_yes(codes.read_only)),
        is_standby_leader: Some(status_says_yes(codes.standby_leader)),
        is_sync_standby: Some(status_says_yes(codes.synchronous)),
        is_async_standby: Some(status_says_yes(codes.asynchronous)),
    }
}

impl PatroniFactsCollectorResult {
    /// Reads the answers of the agent: status `200` is a yes, every other
    /// status a no.
    pub fn from_status_codes(codes: &PatroniStatusCodes) -> (facts: Self)
        ensures
            facts == facts_of_codes(*codes),
    {
        PatroniFactsCollectorResult {
            healthy: Some(codes.health == 200),
            is_primary: Some(codes.primary == 200),
            is_replica: Some(codes.replica == 200),
            replica_has_no_lag: Some(codes.replica_lag == 200),
            is_read_write: Some(codes.read_write == 200),
            is_read_only: Some(codes.read_only == 200),
            is_standby_leader: Some(codes.standby_leader == 200),
            is_sync_standby: Some(codes.synchronous == 200),
            is_async_standby: Some(codes.asynchronous == 200),
        }
    }
}

/// The endpoints of the availability agent.
#[derive(Clone, Copy, Debug, PartialEq, Eq, Structural)]
pub enum PatroniEndpoint {
    Health,
    Primary,
    Replica,
    ReadWrite,
    ReadOnly,
    StandbyLeader,
    Synchronous,
    Asynchronous,
    Cluster,
}

/// The path of an endpoint.
pub open spec fn endpoint_path(endpoint: PatroniEndpoint) -> Seq<char> {
    match endpoint {
        PatroniEndpoint::Health => "health"@,
        PatroniEndpoint::Primary => "primary"@,
        PatroniEndpoint::Replica => "replica"@,
        PatroniEndpoint::ReadWrite => "read-write"@,
        PatroniEndpoint::ReadOnly => "read-only"@,
        PatroniEndpoint::StandbyLeader => "standby-leader"@,
        PatroniEndpoint::Synchronous => "synchronous"@,
        PatroniEndpoint::Asynchronous => "asynchronous"@,
        PatroniEndpoint::Cluster => "cluster"@,
    }
}

/// The address of an endpoint of the agent that watches `host`.
pub open spec fn endpoint_address(host: Seq<char>, endpoint: PatroniEndpoint) -> Seq<char> {
    "http://"@ + host + ":8008/"@ + endpoint_path(endpoint)
}

/// The address of an endpoint of the agent that watches `host`.
pub fn endpoint_url(host: &str, endpoint: PatroniEndpoint) -> (url: String)
    ensures
        url@ == endpoint_address(host@, endpoint),
{
    let mut url = String::from_str("http://");
    url.append(host);
    url.append(":8008/");
    match endpoint {
        PatroniEndpoint::Health => url.append("health"),
        PatroniEndpoint::Primary => url.append("primary"),
        PatroniEndpoint::Replica => url.append("replica"),
        PatroniEndpoint::ReadWrite => url.append("read-write"),
        PatroniEndpoint::ReadOnly => url.append("read-only"),
        PatroniEndpoint::StandbyLeader => url.append("standby-leader"),
        PatroniEndpoint::Synchronous => url.append("synchronous"),
        PatroniEndpoint::Asynchronous => url.append("asynchronous"),
        PatroniEndpoint::Cluster => url.append("cluster"),
    }
    url
}

/// The address that asks the agent whether the replica lags by at most
/// `max_lag`.
pub fn replica_lag_url(host: &str, max_lag: &str) -> (url: String)
    ensures
        url@ == endpoint_address(host@, PatroniEndpoint::Replica) + "?lag="@ + max_lag@,
{
    let mut url = endpoint_url(host, PatroniEndpoint::Replica);
    url.append("?lag=");
    url.append(max_lag);
    url
}

/// One row of the worker-discovery function of the distributed extension.
#[derive(Debug, PartialEq, Eq)]
pub struct ActiveWorkerNodesResult {
    pub node_name: Option<String>,
    pub node_port: Option<i32>,
}

/// One row of the node catalogue of the distributed extension.
#[derive(Debug, PartialEq, Eq)]
pub struct PgDistNodeInfoResult {
    pub nodeid: Option<i32>,
    pub groupid: Option<i32>,
    pub nodename: Option<String>,
    pub nodeport: Option<i32>,
    pub noderack: Option<String>,
    pub hasmetadata: Option<bool>,
    pub isactive: Option<bool>,
    pub noderole: Option<String>,
    pub nodecluster: Option<String>,
    pub metadatasynced: Option<bool>,
    pub shouldhaveshards: Option<bool>,
}

/// What the two postgres probes of one node came to: for each the number of
/// rows that its system view held, or `None` where connecting or querying
/// failed.
#[derive(Clone, Copy, Debug, PartialEq, Eq, Structural)]
pub struct PostgresProbe {
    pub replication_rows: Option<usize>,
    pub wal_receiver_rows: Option<usize>,
}

/// What probing one node came to. A family that was not probed, and an
/// agent that could not be reached, are `None`.
#[derive(Clone, Copy, Debug, PartialEq, Eq, Structural)]
pub struct NodeProbe {
    pub postgres: Option<PostgresProbe>,
    pub patroni: Option<PatroniFactsCollectorResult>,
}

/// A node after its postgres probes. The replication view decides whether
/// the node is online, and a leader where it holds a row; the receiver view
/// decides whether the node is a replica. A probe that failed leaves its
/// role fact as it was.
pub open spec fn with_postgres_probe(s: ServerView, probe: PostgresProbe) -> ServerView {
    let after_replication = match probe.replication_rows {
        Some(n) => ServerView { postgres_is_leader: Some(n > 0), is_node_online: Some(true), ..s },
        None => ServerView { is_node_online: Some(false), ..s },
    };
    match probe.wal_receiver_rows {
        Some(n) => ServerView { postgres_is_replica: Some(n > 0), ..after_replication },
        None => after_replication,
    }
}

/// A node after the answers of its agent.
pub open spec fn with_patroni_probe(s: ServerView, facts: PatroniFactsCollectorResult) -> ServerView {
    ServerView {
        patroni_is_primary: facts.is_primary,
        patroni_is_replica: facts.is_replica,
        patroni_is_read_write: facts.is_read_write,
        patroni_is_read_only: facts.is_read_only,
        ..s
    }
}

/// A node after both families of probes.
pub open spec fn with_node_probe(s: ServerView, probe: NodeProbe) -> ServerView {
    let after_postgres = match probe.postgres {
        Some(p) => with_postgres_probe(s, p),
        None => s,
    };
    match probe.patroni {
        Some(facts) => with_patroni_probe(after_postgres, facts),
        None => after_postgres,
    }
}

/// The position of the first node that is known to be online, or the
/// length of the fleet where there is none.
pub open spec fn first_online(fleet: Seq<ServerView>) -> int
    decreases fleet.len(),
{
    if fleet.len() == 0 || fleet[0].is_node_online == Some(true) {
        0
    } else {
        1 + first_online(fleet.drop_first())
    }
}

/// Where no node before `k` is online and either the fleet ends at `k` or
/// the node at `k` is online, `k` is the first online node.
pub proof fn lemma_first_online_at(fleet: Seq<ServerView>, k: int)
    requires
        0 <= k <= fleet.len(),
        forall|j: int| 0 <= j < k ==> (#[trigger] fleet[j]).is_node_online != Some(true),
        k == fleet.len() || fleet[k].is_node_online == Some(true),
    ensures
        first_online(fleet) == k,
    decreases k,
{
    if k > 0 {
        let rest = fleet.drop_first();
        assert forall|j: int| 0 <= j < k - 1 implies (#[trigger] rest[j]).is_node_online != Some(
            true,
        ) by {
            assert(rest[j] == fleet[j + 1]);
        }
        lemma_first_online_at(rest, k - 1);
    }
}

/// Whether a row of the worker-discovery function names `host`.
pub open spec fn names_host(row: ActiveWorkerNodesResult, host: Seq<char>) -> bool {
    text_view(row.node_name) == Some(host)
}

/// Whether `host` is among the active workers.
pub open spec fn is_active_worker(workers: Seq<ActiveWorkerNodesResult>, host: Seq<char>) -> bool {
    exists|k: int| 0 <= k < workers.len() && names_host(#[trigger] workers[k], host)
}

/// A node after the answer of the worker-discovery function.
pub open spec fn with_active_workers(
    s: ServerView,
    workers: Seq<ActiveWorkerNodesResult>,
) -> ServerView {
    ServerView { citus_is_active_worker_node: Some(is_active_worker(workers, s.host)), ..s }
}

/// The row of the node catalogue that speaks of `host`: the last one that
/// names it.
pub open spec fn catalogue_row(rows: Seq<PgDistNodeInfoResult>, host: Seq<char>) -> Option<
    PgDistNodeInfoResult,
>
    decreases rows.len(),
{
    if rows.len() == 0 {
        None
    } else if text_view(rows.last().nodename) == Some(host) {
        Some(rows.last())
    } else {
        catalogue_row(rows.drop_last(), host)
    }
}

/// The four role flags of the distributed extension, in the order leader
/// coordinator, replica coordinator, leader worker, replica worker.
pub ghost struct RoleFlags {
    pub leader_coordinator: bool,
    pub replica_coordinator: bool,
    pub leader_worker: bool,
    pub replica_worker: bool,
}

/// The role flags of a node by its group and role: group `0` is the
/// coordinator group, every other group a worker group; `primary` leads,
/// `secondary` follows. Any other role says nothing.
pub open spec fn role_flags(group: i32, role: Seq<char>) -> Option<RoleFlags> {
    if role == "primary"@ {
        Some(
            RoleFlags {
                leader_coordinator: group == 0,
                replica_coordinator: false,
                leader_worker: group != 0,
                replica_worker: false,
            },
        )
    } else if role == "secondary"@ {
        Some(
            RoleFlags {
                leader_coordinator: false,
                replica_coordinator: group == 0,
                leader_worker: false,
                replica_worker: group != 0,
            },
        )
    } else {
        None
    }
}

/// A node after its row of the node catalogue: where the row gives both a
/// group and a role, the group is recorded, and for a known role exactly one
/// of the four role flags is set to true and the other three to false.
pub open spec fn with_catalogue_row(s: ServerView, row: Option<PgDistNodeInfoResult>) -> ServerView {
    match row {
        Some(r) => if r.groupid is Some && r.noderole is Some {
            let grouped = ServerView { citus_group_id: r.groupid, ..s };
            match role_flags(r.groupid->0, r.noderole->0@) {
                Some(flags) => ServerView {
                    citus_is_leader_coordinator_node: Some(flags.leader_coordinator),
                    citus_is_replica_coordinator_node: Some(flags.replica_coordinator),
                    citus_is_leader_worker_node: Some(flags.leader_worker),
                    citus_is_replica_worker_node: Some(flags.replica_worker),
                    ..grouped
                },
                None => grouped,
            }
        } else {
            s
        },
        None => s,
    }
}

/// A node after the node catalogue.
pub open spec fn with_catalogue(s: ServerView, rows: Seq<PgDistNodeInfoResult>) -> ServerView {
    with_catalogue_row(s, catalogue_row(rows, s.host))
}

/// The connection string for the probe of the distributed extension: that
/// of the node, with the extension's database in place of the node's own.
pub open spec fn distributed_connection(s: ServerView, dist_db_name: Seq<char>) -> Seq<char> {
    connection_text(ServerView { db_name: Some(dist_db_name), ..s })
}

/// Which families of probes are to run on every node.
#[derive(Clone, Copy, Debug, PartialEq, Eq, Structural)]
pub struct ProbePlan {
    pub postgres: bool,
    pub patroni: bool,
}

/// Collects the facts of a fleet, as far as the toggles ask for them.
pub struct FactsCollector<'a> {
    settings: &'a SettingsProvider,
}

impl<'a> FactsCollector<'a> {
    pub fn new(settings: &'a SettingsProvider) -> (collector: Self)
        ensures
            collector.settings() == settings@,
    {
        FactsCollector { settings }
    }

    /// The toggles that the collector reads.
    pub closed spec fn settings(&self) -> Map<Seq<char>, Seq<char>> {
        self.settings@
    }

    /// Whether a family of facts is collected: its toggle is set to `true`.
    pub open spec fn collects(&self, toggle: Seq<char>) -> bool {
        toggle_at(self.settings(), toggle) == Some(true)
    }

    fn is_on(&self, toggle: &str) -> (on: bool)
        ensures
            on == self.collects(toggle@),
    {
        match self.settings.toggle(toggle) {
            Some(true) => true,
            _ => false,
        }
    }

    /// The probes to run on every node.
    pub fn node_probes(&self) -> (plan: ProbePlan)
        ensures
            plan.postgres == self.collects("collect_postgres_facts"@),
            plan.patroni == self.collects("collect_patroni_facts"@),
    {
        ProbePlan {
            postgres: self.is_on("collect_postgres_facts"),
            patroni: self.is_on("collect_patroni_facts"),
        }
    }

    /// Writes the answers of its postgres probes into a node.
    pub fn apply_postgres_probe(server: &mut Server, probe: &PostgresProbe)
        ensures
            final(server)@ == with_postgres_probe(old(server)@, *probe),
    {
        match probe.replication_rows {
            Some(n) => {
                server.postgres_is_leader = Some(n > 0);
                server.is_node_online = Some(true);
            },
            None => {
                server.is_node_online = Some(false);
            },
        }
        match probe.wal_receiver_rows {
            Some(n) => {
                server.postgres_is_replica = Some(n > 0);
            },
            None => {},
        }
    }

    /// Writes the answers of its agent into a node.
    pub fn apply_patroni_probe(server: &mut Server, facts: &PatroniFactsCollectorResult)
        ensures
            final(server)@ == with_patroni_probe(old(server)@, *facts),
    {
        server.patroni_is_primary = facts.is_primary;
        server.patroni_is_replica = facts.is_replica;
        server.patroni_is_read_write = facts.is_read_write;
        server.patroni_is_read_only = facts.is_read_only;
    }

    /// Writes what probing came to into the nodes, one probe for each node
    /// in the order of the fleet. A node without a probe stays as it is.
    pub fn apply_node_probes(servers: &mut Vec<Server>, probes: &Vec<NodeProbe>)
        ensures
            final(servers).len() == old(servers).len(),
            forall|i: int|
                0 <= i < old(servers).len() ==> (#[trigger] final(servers)@[i])@ == if i
                    < probes.len() {
                    with_node_probe(old(servers)@[i]@, probes@[i])
                } else {
                    old(servers)@[i]@
                },
    {
        let ghost before = server_views(servers@);
        let mut i: usize = 0;
        while i < servers.len() && i < probes.len()
            invariant
                i <= servers.len(),
                i <= probes.len(),
                servers.len() == before.len(),
                forall|j: int|
                    0 <= j < i ==> (#[trigger] servers@[j])@ == with_node_probe(
                        before[j],
                        probes@[j],
                    ),
                forall|j: int| i <= j < servers.len() ==> (#[trigger] servers@[j])@ == before[j],
            decreases servers.len() - i,
        {
            let probe = probes[i];
            match probe.postgres {
                Some(p) => Self::apply_postgres_probe(&mut servers[i], &p),
                None => {},
            }
            match probe.patroni {
                Some(facts) => Self::apply_patroni_probe(&mut servers[i], &facts),
                None => {},
            }
            i += 1;
        }
        proof {
            assert forall|j: int| 0 <= j < old(servers).len() implies (#[trigger] servers@[j])@
                == if j < probes.len() {
                with_node_probe(old(servers)@[j]@, probes@[j])
            } else {
                old(servers)@[j]@
            } by {
                assert(before[j] == old(servers)@[j]@);
            }
        }
    }

    /// The first node that is known to be online.
    pub fn first_online_node(servers: &Vec<Server>) -> (found: Option<usize>)
        ensures
            match found {
                Some(k) => k < servers.len() && k == first_online(server_views(servers@)),
                None => first_online(server_views(servers@)) == servers.len(),
            },
    {
        let mut k: usize = 0;
        while k < servers.len() && !matches!(servers[k].is_node_online, Some(true))
            invariant
                k <= servers.len(),
                forall|j: int|
                    0 <= j < k ==> (#[trigger] server_views(servers@)[j]).is_node_online != Some(
                        true,
                    ),
            decreases servers.len() - k,
        {
            k += 1;
        }
        proof {
            lemma_first_online_at(server_views(servers@), k as int);
        }
        if k < servers.len() {
            Some(k)
        } else {
            None
        }
    }

    /// Where the probe of the distributed extension is to connect, if it
    /// is to run at all: to the first node that is known to be online, with
    /// the extension's database in place of the node's own. The probe is
    /// skipped where its toggle is not set to `true`, where no node is
    /// online, and where the inventory names no database for the extension.
    /// The nodes themselves are not touched.
    pub fn distributed_probe(&self, servers: &Vec<Server>, citus_db_name: &Option<String>) -> (target:
        Option<String>)
        ensures
            text_view(target) == if self.collects("collect_citus_facts"@) && first_online(
                server_views(servers@),
            ) < servers.len() && citus_db_name is Some {
                Some(
                    distributed_connection(
                        servers@[first_online(server_views(servers@))]@,
                        citus_db_name->0@,
                    ),
                )
            } else {
                None
            },
    {
        if !self.is_on("collect_citus_facts") {
            return None;
        }
        match (Self::first_online_node(servers), citus_db_name) {
            (Some(k), Some(db_name)) => {
                let mut probed = servers[k].clone();
                probed.set_db_name(db_name.clone());
                Some(probed.connection_string())
            },
            _ => None,
        }
    }

    fn among_workers(workers: &Vec<ActiveWorkerNodesResult>, host: &str) -> (found: bool)
        ensures
            found == is_active_worker(workers@, host@),
    {
        let mut k: usize = 0;
        while k < workers.len()
            invariant
                k <= workers.len(),
                forall|j: int| 0 <= j < k ==> !names_host(#[trigger] workers@[j], host@),
            decreases workers.len() - k,
        {
            match &workers[k].node_name {
                Some(name) => {
                    if same_text(name.as_str(), host) {
                        return true;
                    }
                },
                None => {},
            }
            k += 1;
        }
        false
    }

    /// Marks every node as an active worker or not: a node is one where the
    /// worker-discovery function names its host.
    pub fn apply_active_workers(servers: &mut Vec<Server>, workers: &Vec<ActiveWorkerNodesResult>)
        ensures
            final(servers).len() == old(servers).len(),
            forall|i: int|
                0 <= i < old(servers).len() ==> (#[trigger] final(servers)@[i])@
                    == with_active_workers(old(servers)@[i]@, workers@),
    {
        let ghost before = server_views(servers@);
        let mut i: usize = 0;
        while i < servers.len()
            invariant
                i <= servers.len(),
                servers.len() == before.len(),
                forall|j: int|
                    0 <= j < i ==> (#[trigger] servers@[j])@ == with_active_workers(
                        before[j],
                        workers@,
                    ),
                forall|j: int| i <= j < servers.len() ==> (#[trigger] servers@[j])@ == before[j],
            decreases servers.len() - i,
        {
            let active = Self::among_workers(workers, servers[i].host.as_str());
            servers[i].citus_is_active_worker_node = Some(active);
            i += 1;
        }
    }

    fn find_catalogue_row<'b>(rows: &'b Vec<PgDistNodeInfoResult>, host: &str) -> (found: Option<
        &'b PgDistNodeInfoResult,
    >)
        ensures
            match found {
                Some(row) => catalogue_row(rows@, host@) == Some(*row),
                None => catalogue_row(rows@, host@) is None,
            },
    {
        let mut k: usize = rows.len();
        assert(rows@.take(k as int) =~= rows@);
        while k > 0
            invariant
                k <= rows.len(),
                catalogue_row(rows@, host@) == catalogue_row(rows@.take(k as int), host@),
            decreases k,
        {
            let ghost upto = rows@.take(k as int);
            proof {
                assert(upto.drop_last() =~= rows@.take(k - 1));
                assert(upto.last() == rows@[k - 1]);
            }
            match &rows[k - 1].nodename {
                Some(name) => {
                    if same_text(name.as_str(), host) {
                        return Some(&rows[k - 1]);
                    }
                },
                None => {},
            }
            k -= 1;
        }
        None
    }

    fn apply_catalogue_row(server: &mut Server, row: &PgDistNodeInfoResult)
        ensures
            final(server)@ == with_catalogue_row(old(server)@, Some(*row)),
    {
        match (row.groupid, &row.noderole) {
            (Some(group), Some(role)) => {
                server.citus_group_id = Some(group);
                let primary = same_text(role.as_str(), "primary");
                let secondary = same_text(role.as_str(), "secondary");
                if primary {
                    server.citus_is_leader_coordinator_node = Some(group == 0);
                    server.citus_is_replica_coordinator_node = Some(false);
                    server.citus_is_leader_worker_node = Some(group != 0);
                    server.citus_is_replica_worker_node = Some(false);
                } else if secondary {
                    server.citus_is_leader_coordinator_node = Some(false);
                    server.citus_is_replica_coordinator_node = Some(group == 0);
                    server.citus_is_leader_worker_node = Some(false);
                    server.citus_is_replica_worker_node = Some(group != 0);
                }
            },
            _ => {},
        }
    }

    /// Writes the node catalogue into the nodes: each node that the
    /// catalogue names gets its group and its role flags.
    pub fn apply_node_info(servers: &mut Vec<Server>, rows: &Vec<PgDistNodeInfoResult>)
        ensures
            final(servers).len() == old(servers).len(),
            forall|i: int|
                0 <= i < old(servers).len() ==> (#[trigger] final(servers)@[i])@ == with_catalogue(
                    old(servers)@[i]@,
                    rows@,
                ),
    {
        let ghost before = server_views(servers@);
        let mut i: usize = 0;
        while i < servers.len()
            invariant
                i <= servers.len(),
                servers.len() == before.len(),
                forall|j: int|
                    0 <= j < i ==> (#[trigger] servers@[j])@ == with_catalogue(before[j], rows@),
                forall|j: int| i <= j < servers.len() ==> (#[trigger] servers@[j])@ == before[j],
            decreases servers.len() - i,
        {
            match Self::find_catalogue_row(rows, servers[i].host.as_str()) {
                Some(row) => Self::apply_catalogue_row(&mut servers[i], row),
                None => {},
            }
            i += 1;
        }
    }
}

/// Where the worker-discovery function names nobody, no node is an active
/// worker, declared worker or not: each is marked as not active.
pub proof fn law_no_active_workers(s: ServerView)
    ensures
        with_active_workers(s, Seq::<ActiveWorkerNodesResult>::empty()).citus_is_active_worker_node
            == Some(false),
{
}

/// A row of the node catalogue with a known role sets exactly one of the
/// four role flags.
pub proof fn law_one_role_flag(group: i32, role: Seq<char>)
    requires
        role_flags(group, role) is Some,
    ensures
        ({
            let f = role_flags(group, role)->0;
            (if f.leader_coordinator { 1int } else { 0 }) + (if f.replica_coordinator { 1int } else { 0 })
                + (if f.leader_worker { 1int } else { 0 }) + (if f.replica_worker { 1int } else { 0 }) == 1
        }),
{
}

/// Holds the connection string for the probes of the distributed extension.
pub struct CitusFactsCollector<'a> {
    connection_string: &'a str,
}

impl<'a> CitusFactsCollector<'a> {
    pub fn new(connection_string: &'a str) -> (collector: Self)
        ensures
            collector.connection_string() == connection_string@,
    {
        CitusFactsCollector { connection_string }
    }

    /// The connection string that the probes use.
    pub closed spec fn connection_string(&self) -> Seq<char> {
        self.connection_string@
    }

    /// The connection string that the probes use.
    pub fn target(&self) -> (text: &'a str)
        ensures
            text@ == self.connection_string(),
    {
        self.connection_string
    }
}

/// Holds the connection string for the postgres probes of one node.
pub struct PostgresFactsCollector<'a> {
    connection_string: &'a str,
}

impl<'a> PostgresFactsCollector<'a> {
    pub fn new(connection_string: &'a str) -> (collector: Self)
        ensures
            collector.connection_string() == connection_string@,
    {
        PostgresFactsCollector { connection_string }
    }

    /// The connection string that the probes use.
    pub closed spec fn connection_string(&self) -> Seq<char> {
        self.connection_string@
    }

    /// The connection string that the probes use.
    pub fn target(&self) -> (text: &'a str)
        ensures
            text@ == self.connection_string(),
    {
        self.connection_string
    }
}

} // verus!
