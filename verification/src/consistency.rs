//! The role of a node as a mask of bits, and whether the roles that were
//! found agree with one of the role combinations that a healthy node has.
use vstd::prelude::*;
use crate::server::server_views;
use crate::server::Server;
use crate::server::ServerView;
use crate::settings::toggle_at;
use crate::settings::SettingsProvider;

verus! {

/// The bit of the postgres replication leader.
pub const POSTGRES_LEADER: u16 = 0x100;

/// The bit of the postgres replication replica.
pub const POSTGRES_REPLICA: u16 = 0x080;

/// The bit of the leader coordinator of the distributed extension.
pub const LEADER_COORDINATOR: u16 = 0x040;

/// The bit of the replica coordinator of the distributed extension.
pub const REPLICA_COORDINATOR: u16 = 0x020;

/// The bit of the leader worker of the distributed extension.
pub const LEADER_WORKER: u16 = 0x010;

/// The bit of the replica worker of the distributed extension.
pub const REPLICA_WORKER: u16 = 0x008;

/// The bit of the active worker of the distributed extension.
pub const ACTIVE_WORKER: u16 = 0x004;

/// The bit of the primary of the availability agent.
pub const AGENT_PRIMARY: u16 = 0x002;

/// The bit of the replica of the availability agent.
pub const AGENT_REPLICA: u16 = 0x001;

/// What a leader coordinator shows: postgres leader, leader coordinator,
/// agent primary.
pub const PATTERN_LEADER_COORDINATOR: u16 = 0x142;

/// What a replica coordinator shows: postgres replica, replica coordinator,
/// agent replica.
pub const PATTERN_REPLICA_COORDINATOR: u16 = 0x0A1;

/// What a leader worker shows: postgres leader, leader worker, active
/// worker, agent primary.
pub const PATTERN_LEADER_WORKER: u16 = 0x116;

/// What a replica worker shows: postgres replica, replica worker, agent
/// replica.
pub const PATTERN_REPLICA_WORKER: u16 = 0x089;

/// The bit that a fact contributes: `bit` where the fact is known to hold,
/// nothing where it is known not to hold or is not known.
pub open spec fn bit_of(fact: Option<bool>, bit: u16) -> u16 {
    if fact == Some(true) {
        bit
    } else {
        0
    }
}

/// The role mask of a node: nine bits, from the most significant postgres
/// leader, postgres replica, leader coordinator, replica coordinator, leader
/// worker, replica worker, active worker, agent primary, agent replica.
pub open spec fn role_mask(s: ServerView) -> u16 {
    bit_of(s.postgres_is_leader, POSTGRES_LEADER) | bit_of(s.postgres_is_replica, POSTGRES_REPLICA)
        | bit_of(s.citus_is_leader_coordinator_node, LEADER_COORDINATOR) | bit_of(
        s.citus_is_replica_coordinator_node,
        REPLICA_COORDINATOR,
    ) | bit_of(s.citus_is_leader_worker_node, LEADER_WORKER) | bit_of(
        s.citus_is_replica_worker_node,
        REPLICA_WORKER,
    ) | bit_of(s.citus_is_active_worker_node, ACTIVE_WORKER) | bit_of(
        s.patroni_is_primary,
        AGENT_PRIMARY,
    ) | bit_of(s.patroni_is_replica, AGENT_REPLICA)
}

/// Whether `pattern` is one of the four role combinations.
pub open spec fn is_pattern(pattern: u16) -> bool {
    pattern == PATTERN_LEADER_COORDINATOR || pattern == PATTERN_REPLICA_COORDINATOR || pattern
        == PATTERN_LEADER_WORKER || pattern == PATTERN_REPLICA_WORKER
}

/// Whether a mask shows every bit of a pattern.
pub open spec fn shows(mask: u16, pattern: u16) -> bool {
    mask & pattern == pattern
}

/// Whether a mask shows every bit of at least one role combination.
pub open spec fn mask_matches(mask: u16) -> bool {
    shows(mask, PATTERN_LEADER_COORDINATOR) || shows(mask, PATTERN_REPLICA_COORDINATOR) || shows(
        mask,
        PATTERN_LEADER_WORKER,
    ) || shows(mask, PATTERN_REPLICA_WORKER)
}

/// Whether a node is consistent: it is known to be online and its role mask
/// matches. A node that is offline, or not known to be online, is not.
pub open spec fn node_consistent(s: ServerView) -> bool {
    s.is_node_online == Some(true) && mask_matches(role_mask(s))
}

/// A node after classification: marked consistent or not, nothing else
/// changed.
pub open spec fn classified(s: ServerView) -> ServerView {
    ServerView { is_node_consistent: Some(node_consistent(s)), ..s }
}

/// Whether the fleet is one standalone database: a single node that is
/// online and was found to be neither replication leader nor replica.
pub open spec fn is_standalone(fleet: Seq<ServerView>) -> bool {
    &&& fleet.len() == 1
    &&& fleet[0].is_node_online == Some(true)
    &&& fleet[0].postgres_is_leader == Some(false)
    &&& fleet[0].postgres_is_replica == Some(false)
}

/// The fleet after the consistency check: untouched where the check is
/// switched off, a standalone database marked consistent, every node of any
/// other fleet classified by its role mask.
pub open spec fn fleet_classified(fleet: Seq<ServerView>, enabled: bool) -> Seq<ServerView> {
    if !enabled {
        fleet
    } else if is_standalone(fleet) {
        seq![ServerView { is_node_consistent: Some(true), ..fleet[0] }]
    } else {
        Seq::new(fleet.len(), |i: int| classified(fleet[i]))
    }
}

/// The verdict on the fleet: consistent where the check is switched on and
/// the fleet is a standalone database or every node of it is consistent.
pub open spec fn fleet_consistent(fleet: Seq<ServerView>, enabled: bool) -> bool {
    enabled && (is_standalone(fleet) || forall|i: int|
        0 <= i < fleet.len() ==> node_consistent(#[trigger] fleet[i]))
}

fn bit(fact: Option<bool>, weight: u16) -> (b: u16)
    ensures
        b == bit_of(fact, weight),
{
    match fact {
        Some(true) => weight,
        _ => 0,
    }
}

/// The role mask of a node.
pub fn mask_of(server: &Server) -> (mask: u16)
    ensures
        mask == role_mask(server@),
{
    bit(server.postgres_is_leader, POSTGRES_LEADER) | bit(
        server.postgres_is_replica,
        POSTGRES_REPLICA,
    ) | bit(server.citus_is_leader_coordinator_node, LEADER_COORDINATOR) | bit(
        server.citus_is_replica_coordinator_node,
        REPLICA_COORDINATOR,
    ) | bit(server.citus_is_leader_worker_node, LEADER_WORKER) | bit(
        server.citus_is_replica_worker_node,
        REPLICA_WORKER,
    ) | bit(server.citus_is_active_worker_node, ACTIVE_WORKER) | bit(
        server.patroni_is_primary,
        AGENT_PRIMARY,
    ) | bit(server.patroni_is_replica, AGENT_REPLICA)
}

/// Whether a role mask matches one of the four role combinations.
pub fn classify(mask: u16) -> (consistent: bool)
    ensures
        consistent == mask_matches(mask),
{
    mask & PATTERN_LEADER_COORDINATOR == PATTERN_LEADER_COORDINATOR || mask
        & PATTERN_REPLICA_COORDINATOR == PATTERN_REPLICA_COORDINATOR || mask & PATTERN_LEADER_WORKER
        == PATTERN_LEADER_WORKER || mask & PATTERN_REPLICA_WORKER == PATTERN_REPLICA_WORKER
}

/// Checks the consistency of a fleet against the role combinations.
pub struct ClusterConsistencyChecker<'a> {
    settings: &'a SettingsProvider,
}

impl<'a> ClusterConsistencyChecker<'a> {
    pub fn new(settings: &'a SettingsProvider) -> (checker: Self)
        ensures
            checker.settings() == settings@,
    {
        Self { settings }
    }

    /// The toggles that the checker reads.
    pub closed spec fn settings(&self) -> Map<Seq<char>, Seq<char>> {
        self.settings@
    }

    /// Whether the check is switched on: the toggle
    /// `check_cluster_consistency` is set to `true`.
    pub open spec fn enabled(&self) -> bool {
        toggle_at(self.settings(), "check_cluster_consistency"@) == Some(true)
    }

    /// Classifies one node and marks it: consistent where it is online and
    /// its role mask matches, else not consistent.
    pub fn check_server_consistency(server: &mut Server) -> (consistent: bool)
        ensures
            consistent == node_consistent(old(server)@),
            final(server)@ == classified(old(server)@),
    {
        let online = match server.is_node_online {
            Some(true) => true,
            _ => false,
        };
        let consistent = online && classify(mask_of(server));
        server.is_node_consistent = Some(consistent);
        consistent
    }

    /// Checks the whole fleet, marks its nodes and returns the verdict.
    pub fn check_cluster_consistency(&self, servers: &mut Vec<Server>) -> (consistent: bool)
        ensures
            consistent == fleet_consistent(server_views(old(servers)@), self.enabled()),
            server_views(final(servers)@) == fleet_classified(
                server_views(old(servers)@),
                self.enabled(),
            ),
    {
        let enabled = match self.settings.toggle("check_cluster_consistency") {
            Some(true) => true,
            _ => false,
        };
        if !enabled {
            return false;
        }
        let ghost before = server_views(servers@);
        if servers.len() == 1 {
            let standalone = match (
                servers[0].is_node_online,
                servers[0].postgres_is_leader,
                servers[0].postgres_is_replica,
            ) {
                (Some(true), Some(false), Some(false)) => true,
                _ => false,
            };
            if standalone {
                servers[0].is_node_consistent = Some(true);
                assert(server_views(servers@) =~= fleet_classified(before, true));
                return true;
            }
        }
        let mut all = true;
        let mut i: usize = 0;
        while i < servers.len()
            invariant
                i <= servers.len(),
                servers.len() == before.len(),
                forall|j: int| 0 <= j < i ==> (#[trigger] servers@[j])@ == classified(before[j]),
                forall|j: int| i <= j < servers.len() ==> (#[trigger] servers@[j])@ == before[j],
                all == forall|j: int| 0 <= j < i ==> node_consistent(#[trigger] before[j]),
            decreases servers.len() - i,
        {
            let consistent = Self::check_server_consistency(&mut servers[i]);
            all = all && consistent;
            i += 1;
        }
        assert(server_views(servers@) =~= fleet_classified(before, true));
        all
    }
}

/// A node that is offline is never consistent, whatever else is known of it.
pub proof fn law_offline_is_inconsistent(s: ServerView)
    requires
        s.is_node_online == Some(false),
    ensures
        !node_consistent(s),
        classified(s).is_node_consistent == Some(false),
{
}

/// The verdict on a node that is online depends on its role mask alone: two
/// nodes with the same mask get the same verdict.
pub proof fn law_verdict_depends_on_mask(a: ServerView, b: ServerView)
    requires
        a.is_node_online == b.is_node_online,
        role_mask(a) == role_mask(b),
    ensures
        node_consistent(a) == node_consistent(b),
        classified(a).is_node_consistent == classified(b).is_node_consistent,
{
}

/// The verdict on a mask depends on the bits of a matched pattern alone: a
/// mask that shows a role combination keeps matching however its other bits
/// are changed.
pub proof fn law_other_bits_are_irrelevant(mask: u16, changed: u16, pattern: u16)
    requires
        is_pattern(pattern),
        shows(mask, pattern),
        changed & pattern == mask & pattern,
    ensures
        mask_matches(mask),
        mask_matches(changed),
{
}

/// Setting further bits never takes a match away.
pub proof fn law_more_bits_keep_match(mask: u16, more: u16)
    requires
        mask_matches(mask),
    ensures
        mask_matches(mask | more),
{
    assert(forall|p: u16| mask & p == p ==> (mask | more) & p == p) by (bit_vector);
}

/// A fleet of one node that is online and neither replication leader nor
/// replica is consistent, and its node is marked so.
pub proof fn law_standalone_is_consistent(s: ServerView)
    requires
        s.is_node_online == Some(true),
        s.postgres_is_leader == Some(false),
        s.postgres_is_replica == Some(false),
    ensures
        fleet_consistent(seq![s], true),
        fleet_classified(seq![s], true)[0].is_node_consistent == Some(true),
{
}

/// A node of which only the agent's primary flag is set is not consistent:
/// every role combination asks for a postgres role as well.
pub proof fn law_agent_primary_alone_is_inconsistent(s: ServerView)
    requires
        s.patroni_is_primary == Some(true),
        s.postgres_is_leader != Some(true),
        s.postgres_is_replica != Some(true),
        s.citus_is_leader_coordinator_node != Some(true),
        s.citus_is_replica_coordinator_node != Some(true),
        s.citus_is_leader_worker_node != Some(true),
        s.citus_is_replica_worker_node != Some(true),
        s.citus_is_active_worker_node != Some(true),
        s.patroni_is_replica != Some(true),
    ensures
        role_mask(s) == AGENT_PRIMARY,
        !node_consistent(s),
{
    assert(0u16 | 0u16 | 0u16 | 0u16 | 0u16 | 0u16 | 0u16 | 0x002u16 | 0u16 == 0x002u16)
        by (bit_vector);
    assert(0x002u16 & 0x142u16 != 0x142u16) by (bit_vector);
    assert(0x002u16 & 0x0A1u16 != 0x0A1u16) by (bit_vector);
    assert(0x002u16 & 0x116u16 != 0x116u16) by (bit_vector);
    assert(0x002u16 & 0x089u16 != 0x089u16) by (bit_vector);
}

} // verus!
