//! A node of the fleet: how to reach it, and what has been found out about it.
use vstd::prelude::*;
use vstd::string::StringExecFns;
use crate::decimal::decimal;
use crate::decimal::append_decimal;
use crate::text::text_view;

verus! {

/// A connectable database endpoint.
///
/// The connection attributes are declared; a missing one is filled in from
/// the cluster's defaults by [`Server::from`]. The facts are discovered; a
/// fact that was never probed is `None`, which is not the same as `false`.
#[derive(Debug, PartialEq, Eq, Hash)]
pub struct Server {
    pub host: String,
    pub port: Option<i32>,
    pub db_name: Option<String>,
    pub user: Option<String>,
    pub password: Option<String>,
    pub connect_timeout_sec: Option<i32>,
    pub is_node_online: Option<bool>,
    pub is_node_consistent: Option<bool>,
    pub postgres_is_leader: Option<bool>,
    pub postgres_is_replica: Option<bool>,
    pub citus_is_leader_coordinator_node: Option<bool>,
    pub citus_is_replica_coordinator_node: Option<bool>,
    pub citus_is_leader_worker_node: Option<bool>,
    pub citus_is_replica_worker_node: Option<bool>,
    pub citus_is_active_worker_node: Option<bool>,
    pub citus_group_id: Option<i32>,
    pub patroni_is_primary: Option<bool>,
    pub patroni_is_replica: Option<bool>,
    pub patroni_is_read_write: Option<bool>,
    pub patroni_is_read_only: Option<bool>,
}

/// The mathematical value of a [`Server`]: the same fields, with each text
/// as a sequence of characters.
pub ghost struct ServerView {
    pub host: Seq<char>,
    pub port: Option<i32>,
    pub db_name: Option<Seq<char>>,
    pub user: Option<Seq<char>>,
    pub password: Option<Seq<char>>,
    pub connect_timeout_sec: Option<i32>,
    pub is_node_online: Option<bool>,
    pub is_node_consistent: Option<bool>,
    pub postgres_is_leader: Option<bool>,
    pub postgres_is_replica: Option<bool>,
    pub citus_is_leader_coordinator_node: Option<bool>,
    pub citus_is_replica_coordinator_node: Option<bool>,
    pub citus_is_leader_worker_node: Option<bool>,
    pub citus_is_replica_worker_node: Option<bool>,
    pub citus_is_active_worker_node: Option<bool>,
    pub citus_group_id: Option<i32>,
    pub patroni_is_primary: Option<bool>,
    pub patroni_is_replica: Option<bool>,
    pub patroni_is_read_write: Option<bool>,
    pub patroni_is_read_only: Option<bool>,
}

impl View for Server {
    type V = ServerView;

    open spec fn view(&self) -> ServerView {
        ServerView {
            host: self.host@,
            port: self.port,
            db_name: text_view(self.db_name),
            user: text_view(self.user),
            password: text_view(self.password),
            connect_timeout_sec: self.connect_timeout_sec,
            is_node_online: self.is_node_online,
            is_node_consistent: self.is_node_consistent,
            postgres_is_leader: self.postgres_is_leader,
            postgres_is_replica: self.postgres_is_replica,
            citus_is_leader_coordinator_node: self.citus_is_leader_coordinator_node,
            citus_is_replica_coordinator_node: self.citus_is_replica_coordinator_node,
            citus_is_leader_worker_node: self.citus_is_leader_worker_node,
            citus_is_replica_worker_node: self.citus_is_replica_worker_node,
            citus_is_active_worker_node: self.citus_is_active_worker_node,
            citus_group_id: self.citus_group_id,
            patroni_is_primary: self.patroni_is_primary,
            patroni_is_replica: self.patroni_is_replica,
            patroni_is_read_write: self.patroni_is_read_write,
            patroni_is_read_only: self.patroni_is_read_only,
        }
    }
}

/// The values of a list of servers.
pub open spec fn server_views(servers: Seq<Server>) -> Seq<ServerView> {
    Seq::new(servers.len(), |i: int| servers[i]@)
}

impl Clone for Server {
    fn clone(&self) -> (copy: Self)
        ensures
            copy == *self,
    {
        Server {
            host: self.host.clone(),
            port: self.port,
            db_name: self.db_name.clone(),
            user: self.user.clone(),
            password: self.password.clone(),
            connect_timeout_sec: self.connect_timeout_sec,
            is_node_online: self.is_node_online,
            is_node_consistent: self.is_node_consistent,
            postgres_is_leader: self.postgres_is_leader,
            postgres_is_replica: self.postgres_is_replica,
            citus_is_leader_coordinator_node: self.citus_is_leader_coordinator_node,
            citus_is_replica_coordinator_node: self.citus_is_replica_coordinator_node,
            citus_is_leader_worker_node: self.citus_is_leader_worker_node,
            citus_is_replica_worker_node: self.citus_is_replica_worker_node,
            citus_is_active_worker_node: self.citus_is_active_worker_node,
            citus_group_id: self.citus_group_id,
            patroni_is_primary: self.patroni_is_primary,
            patroni_is_replica: self.patroni_is_replica,
            patroni_is_read_write: self.patroni_is_read_write,
            patroni_is_read_only: self.patroni_is_read_only,
        }
    }
}

/// The declared value if there is one, else the default.
pub open spec fn or_default<T>(declared: Option<T>, default: Option<T>) -> Option<T> {
    if declared is Some {
        declared
    } else {
        default
    }
}

/// A server of which nothing has been found out yet.
pub open spec fn unprobed(
    host: Seq<char>,
    port: Option<i32>,
    db_name: Option<Seq<char>>,
    user: Option<Seq<char>>,
    password: Option<Seq<char>>,
    connect_timeout_sec: Option<i32>,
) -> ServerView {
    ServerView {
        host,
        port,
        db_name,
        user,
        password,
        connect_timeout_sec,
        is_node_online: None,
        is_node_consistent: None,
        postgres_is_leader: None,
        postgres_is_replica: None,
        citus_is_leader_coordinator_node: None,
        citus_is_replica_coordinator_node: None,
        citus_is_leader_worker_node: None,
        citus_is_replica_worker_node: None,
        citus_is_active_worker_node: None,
        citus_group_id: None,
        patroni_is_primary: None,
        patroni_is_replica: None,
        patroni_is_read_write: None,
        patroni_is_read_only: None,
    }
}

/// A freshly materialised server: the declared host, each connection
/// attribute declared or else inherited, and no fact known yet.
pub open spec fn materialised(
    declared: ServerView,
    port: Option<i32>,
    db_name: Option<Seq<char>>,
    user: Option<Seq<char>>,
    password: Option<Seq<char>>,
    connect_timeout_sec: Option<i32>,
) -> ServerView {
    unprobed(
        declared.host,
        or_default(declared.port, port),
        or_default(declared.db_name, db_name),
        or_default(declared.user, user),
        or_default(declared.password, password),
        or_default(declared.connect_timeout_sec, connect_timeout_sec),
    )
}

/// The text used where a connection attribute is missing altogether.
pub open spec fn text_or(t: Option<Seq<char>>, fallback: Seq<char>) -> Seq<char> {
    match t {
        Some(s) => s,
        None => fallback,
    }
}

/// The number used where a connection attribute is missing altogether.
pub open spec fn number_or_zero(n: Option<i32>) -> int {
    match n {
        Some(v) => v as int,
        None => 0,
    }
}

/// The connection string of a server, in the keyword/value form that the
/// database driver reads.
pub open spec fn connection_text(s: ServerView) -> Seq<char> {
    "host="@ + s.host + " port="@ + decimal(number_or_zero(s.port)) + " dbname="@ + text_or(
        s.db_name,
        "default_dbname"@,
    ) + " user="@ + text_or(s.user, "default_user"@) + " password="@ + text_or(
        s.password,
        "default_password"@,
    ) + " connect_timeout="@ + decimal(number_or_zero(s.connect_timeout_sec))
        + " application_name=taco"@
}

fn same_optional_text(a: &Option<String>, b: &Option<String>) -> (same: bool)
    ensures
        same == (text_view(*a) == text_view(*b)),
{
    match (a, b) {
        (Some(x), Some(y)) => crate::text::same_text(x.as_str(), y.as_str()),
        (None, None) => true,
        _ => false,
    }
}

fn same_number(a: Option<i32>, b: Option<i32>) -> (same: bool)
    ensures
        same == (a == b),
{
    match (a, b) {
        (Some(x), Some(y)) => x == y,
        (None, None) => true,
        _ => false,
    }
}

fn same_fact(a: Option<bool>, b: Option<bool>) -> (same: bool)
    ensures
        same == (a == b),
{
    match (a, b) {
        (Some(x), Some(y)) => x == y,
        (None, None) => true,
        _ => false,
    }
}

/// Whether two servers have the same value: the same host, connection
/// attributes and facts.
pub fn same_server(a: &Server, b: &Server) -> (same: bool)
    ensures
        same == (a@ == b@),
{
    crate::text::same_text(a.host.as_str(), b.host.as_str()) && same_number(a.port, b.port)
        && same_optional_text(&a.db_name, &b.db_name) && same_optional_text(&a.user, &b.user)
        && same_optional_text(&a.password, &b.password) && same_number(
        a.connect_timeout_sec,
        b.connect_timeout_sec,
    ) && same_fact(a.is_node_online, b.is_node_online) && same_fact(
        a.is_node_consistent,
        b.is_node_consistent,
    ) && same_fact(a.postgres_is_leader, b.postgres_is_leader) && same_fact(
        a.postgres_is_replica,
        b.postgres_is_replica,
    ) && same_fact(a.citus_is_leader_coordinator_node, b.citus_is_leader_coordinator_node)
        && same_fact(a.citus_is_replica_coordinator_node, b.citus_is_replica_coordinator_node)
        && same_fact(a.citus_is_leader_worker_node, b.citus_is_leader_worker_node) && same_fact(
        a.citus_is_replica_worker_node,
        b.citus_is_replica_worker_node,
    ) && same_fact(a.citus_is_active_worker_node, b.citus_is_active_worker_node) && same_number(
        a.citus_group_id,
        b.citus_group_id,
    ) && same_fact(a.patroni_is_primary, b.patroni_is_primary) && same_fact(
        a.patroni_is_replica,
        b.patroni_is_replica,
    ) && same_fact(a.patroni_is_read_write, b.patroni_is_read_write) && same_fact(
        a.patroni_is_read_only,
        b.patroni_is_read_only,
    )
}

fn pick_text(declared: &Option<String>, default: &Option<String>) -> (r: Option<String>)
    ensures
        text_view(r) == or_default(text_view(*declared), text_view(*default)),
{
    match declared {
        Some(s) => Some(s.clone()),
        None => default.clone(),
    }
}

fn pick_number(declared: &Option<i32>, default: &Option<i32>) -> (r: Option<i32>)
    ensures
        r == or_default(*declared, *default),
{
    match declared {
        Some(n) => Some(*n),
        None => *default,
    }
}

impl Server {
    /// A server with the given host and nothing else declared or known.
    pub fn new(host: &str) -> (server: Self)
        ensures
            server@ == unprobed(host@, None, None, None, None, None),
    {
        Server {
            host: String::from_str(host),
            port: None,
            db_name: None,
            user: None,
            password: None,
            connect_timeout_sec: None,
            is_node_online: None,
            is_node_consistent: None,
            postgres_is_leader: None,
            postgres_is_replica: None,
            citus_is_leader_coordinator_node: None,
            citus_is_replica_coordinator_node: None,
            citus_is_leader_worker_node: None,
            citus_is_replica_worker_node: None,
            citus_is_active_worker_node: None,
            citus_group_id: None,
            patroni_is_primary: None,
            patroni_is_replica: None,
            patroni_is_read_write: None,
            patroni_is_read_only: None,
        }
    }

    /// Materialises a declared server: each connection attribute that the
    /// declaration leaves out is taken from `defaults` (port, database name,
    /// user, password, connect timeout), and every fact starts unknown.
    pub fn from(
        from: &Server,
        defaults: (&Option<i32>, &Option<String>, &Option<String>, &Option<String>, &Option<i32>),
    ) -> (server: Self)
        ensures
            server@ == materialised(
                from@,
                *defaults.0,
                text_view(*defaults.1),
                text_view(*defaults.2),
                text_view(*defaults.3),
                *defaults.4,
            ),
    {
        let (port, db_name, user, password, connect_timeout_sec) = defaults;
        Server {
            host: from.host.clone(),
            port: pick_number(&from.port, port),
            db_name: pick_text(&from.db_name, db_name),
            user: pick_text(&from.user, user),
            password: pick_text(&from.password, password),
            connect_timeout_sec: pick_number(&from.connect_timeout_sec, connect_timeout_sec),
            is_node_online: None,
            is_node_consistent: None,
            postgres_is_leader: None,
            postgres_is_replica: None,
            citus_is_leader_coordinator_node: None,
            citus_is_replica_coordinator_node: None,
            citus_is_leader_worker_node: None,
            citus_is_replica_worker_node: None,
            citus_is_active_worker_node: None,
            citus_group_id: None,
            patroni_is_primary: None,
            patroni_is_replica: None,
            patroni_is_read_write: None,
            patroni_is_read_only: None,
        }
    }

    /// Points the server at another database; nothing else changes.
    pub fn set_db_name(&mut self, db_name: String)
        ensures
            final(self)@ == (ServerView { db_name: Some(db_name@), ..old(self)@ }),
    {
        self.db_name = Some(db_name);
    }

    /// The connection string of this server.
    pub fn connection_string(&self) -> (text: String)
        ensures
            text@ == connection_text(self@),
    {
        let mut text = String::from_str("host=");
        text.append(self.host.as_str());
        text.append(" port=");
        let port: i32 = match self.port {
            Some(p) => p,
            None => 0,
        };
        append_decimal(&mut text, port as i128);
        text.append(" dbname=");
        match &self.db_name {
            Some(d) => text.append(d.as_str()),
            None => text.append("default_dbname"),
        }
        text.append(" user=");
        match &self.user {
            Some(u) => text.append(u.as_str()),
            None => text.append("default_user"),
        }
        text.append(" password=");
        match &self.password {
            Some(p) => text.append(p.as_str()),
            None => text.append("default_password"),
        }
        text.append(" connect_timeout=");
        let timeout: i32 = match self.connect_timeout_sec {
            Some(t) => t,
            None => 0,
        };
        append_decimal(&mut text, timeout as i128);
        text.append(" application_name=taco");
        text
    }
}

} // verus!
