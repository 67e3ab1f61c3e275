//! The overview of the fleet: one row for each node, ordered by group and
//! host, with a mark for every fact that holds.
use vstd::prelude::*;
use vstd::string::StringExecFns;
use crate::decimal::decimal;
use crate::decimal::decimal_string;
use crate::formats::draw_table;
use crate::formats::drawing_of;
use crate::formats::Drawing;
use crate::order::lemma_text_order_total;
use crate::order::lemma_text_order_transitive;
use crate::order::text_less;
use crate::order::text_lt;
use crate::server::server_views;
use crate::server::Server;
use crate::server::ServerView;
use crate::text::chars_of;
use crate::text::grid;
use crate::text::texts;

verus! {

/// Whether one group number comes before another: a node without a group
/// comes before every node with one.
pub open spec fn group_lt(a: Option<i32>, b: Option<i32>) -> bool {
    match (a, b) {
        (None, Some(_)) => true,
        (Some(x), Some(y)) => x < y,
        _ => false,
    }
}

/// Whether one node comes before another in the overview: by group, and
/// within a group by host.
pub open spec fn node_lt(a: ServerView, b: ServerView) -> bool {
    group_lt(a.citus_group_id, b.citus_group_id) || (a.citus_group_id == b.citus_group_id
        && text_lt(a.host, b.host))
}

/// Where a node goes in an ordered list: in front of the first node that it
/// comes before, behind every other.
pub open spec fn slot(ordered: Seq<ServerView>, node: ServerView) -> int
    decreases ordered.len(),
{
    if ordered.len() == 0 || node_lt(node, ordered[0]) {
        0
    } else {
        1 + slot(ordered.drop_first(), node)
    }
}

/// The first `upto` nodes in the order of the overview. Nodes that neither
/// come before the other keep the order in which they stood.
pub open spec fn ordered_nodes(nodes: Seq<ServerView>, upto: int) -> Seq<ServerView>
    decreases upto,
{
    if upto <= 0 {
        Seq::empty()
    } else {
        let before = ordered_nodes(nodes, upto - 1);
        before.insert(slot(before, nodes[upto - 1]), nodes[upto - 1])
    }
}

/// Whether no node of a list comes before a node in front of it.
pub open spec fn ascending(nodes: Seq<ServerView>) -> bool {
    forall|i: int, j: int| 0 <= i < j < nodes.len() ==> !node_lt(#[trigger] nodes[j], #[trigger] nodes[i])
}

/// The slot lies within the list or just behind it; the node comes before
/// what stands at the slot, and before nothing in front of the slot.
pub proof fn lemma_slot(ordered: Seq<ServerView>, node: ServerView)
    ensures
        0 <= slot(ordered, node) <= ordered.len(),
        slot(ordered, node) < ordered.len() ==> node_lt(node, ordered[slot(ordered, node)]),
        forall|j: int| 0 <= j < slot(ordered, node) ==> !node_lt(node, #[trigger] ordered[j]),
    decreases ordered.len(),
{
    if ordered.len() > 0 && !node_lt(node, ordered[0]) {
        let rest = ordered.drop_first();
        lemma_slot(rest, node);
        assert forall|j: int| 0 <= j < slot(ordered, node) implies !node_lt(
            node,
            #[trigger] ordered[j],
        ) by {
            if j > 0 {
                assert(ordered[j] == rest[j - 1]);
            }
        }
    }
}

/// What comes before a node that comes before a third comes before the
/// third, and no two nodes come before each other.
pub proof fn lemma_node_order(a: ServerView, b: ServerView, c: ServerView)
    ensures
        node_lt(a, b) && node_lt(b, c) ==> node_lt(a, c),
        !(node_lt(a, b) && node_lt(b, a)),
{
    lemma_text_order_total(a.host, b.host);
    if text_lt(a.host, b.host) && text_lt(b.host, c.host) {
        lemma_text_order_transitive(a.host, b.host, c.host);
    }
}

/// The overview is in ascending order.
pub proof fn law_overview_ascends(nodes: Seq<ServerView>, upto: int)
    requires
        0 <= upto <= nodes.len(),
    ensures
        ascending(ordered_nodes(nodes, upto)),
        ordered_nodes(nodes, upto).len() == upto,
    decreases upto,
{
    if upto > 0 {
        law_overview_ascends(nodes, upto - 1);
        let before = ordered_nodes(nodes, upto - 1);
        let node = nodes[upto - 1];
        let p = slot(before, node);
        lemma_slot(before, node);
        let after = before.insert(p, node);
        assert forall|i: int, j: int| 0 <= i < j < after.len() implies !node_lt(
            #[trigger] after[j],
            #[trigger] after[i],
        ) by {
            if j < p {
                assert(after[i] == before[i] && after[j] == before[j]);
            } else if j == p {
                assert(after[i] == before[i]);
            } else if i < p {
                assert(after[i] == before[i] && after[j] == before[j - 1]);
            } else if i == p {
                assert(after[j] == before[j - 1]);
                // the node comes before what stands at `p`, and nothing behind `p`
                // comes before that
                lemma_node_order(before[j - 1], node, before[p]);
                lemma_node_order(node, before[p], node);
                if j - 1 > p {
                    assert(!node_lt(before[j - 1], before[p]));
                }
            } else {
                assert(after[i] == before[i - 1] && after[j] == before[j - 1]);
            }
        }
    }
}

/// The mark of a fact: an asterisk where the fact is known to hold.
pub open spec fn mark(fact: Option<bool>) -> Seq<char> {
    if fact == Some(true) {
        "*"@
    } else {
        " "@
    }
}

/// The text of a group number: nothing where the node has none.
pub open spec fn group_label(group: Option<i32>) -> Seq<char> {
    match group {
        Some(n) => decimal(n as int),
        None => Seq::empty(),
    }
}

/// The headers of the overview.
pub open spec fn overview_header() -> Seq<Seq<char>> {
    seq![
        "group"@,
        "host"@,
        "online"@,
        "ct"@,
        "pg leader"@,
        "pg replica"@,
        "ct l coord"@,
        "ct r coord"@,
        "ct l wk"@,
        "ct r wk"@,
        "pt primary"@,
        "pt replica"@,
    ]
}

/// The row of one node.
pub open spec fn overview_row(s: ServerView) -> Seq<Seq<char>> {
    seq![
        group_label(s.citus_group_id),
        s.host,
        mark(s.is_node_online),
        mark(s.is_node_consistent),
        mark(s.postgres_is_leader),
        mark(s.postgres_is_replica),
        mark(s.citus_is_leader_coordinator_node),
        mark(s.citus_is_replica_coordinator_node),
        mark(s.citus_is_leader_worker_node),
        mark(s.citus_is_replica_worker_node),
        mark(s.patroni_is_primary),
        mark(s.patroni_is_replica),
    ]
}

/// The cells of the overview: the headers, then the row of each node in
/// the order given.
pub open spec fn overview_cells(nodes: Seq<ServerView>) -> Seq<Seq<Seq<char>>> {
    seq![overview_header()] + Seq::new(nodes.len(), |i: int| overview_row(nodes[i]))
}

/// Whether one node comes before another in the overview.
pub fn comes_before(a: &Server, b: &Server) -> (before: bool)
    ensures
        before == node_lt(a@, b@),
{
    match (a.citus_group_id, b.citus_group_id) {
        (None, Some(_)) => true,
        (Some(x), Some(y)) => {
            if x < y {
                true
            } else if x == y {
                text_less(&chars_of(a.host.as_str()), &chars_of(b.host.as_str()))
            } else {
                false
            }
        },
        (None, None) => text_less(&chars_of(a.host.as_str()), &chars_of(b.host.as_str())),
        (Some(_), None) => false,
    }
}

/// The nodes in the order of the overview.
pub fn sort_servers(servers: &Vec<Server>) -> (ordered: Vec<Server>)
    ensures
        server_views(ordered@) == ordered_nodes(server_views(servers@), servers.len() as int),
        ordered.len() == servers.len(),
{
    let ghost all = server_views(servers@);
    let mut ordered: Vec<Server> = Vec::new();
    let mut i: usize = 0;
    assert(server_views(ordered@) =~= ordered_nodes(all, 0));
    while i < servers.len()
        invariant
            i <= servers.len(),
            all == server_views(servers@),
            ordered.len() == i,
            server_views(ordered@) == ordered_nodes(all, i as int),
        decreases servers.len() - i,
    {
        let ghost before = server_views(ordered@);
        let node = &servers[i];
        let mut p: usize = 0;
        assert(before.subrange(0, before.len() as int) =~= before);
        while p < ordered.len() && !comes_before(node, &ordered[p])
            invariant
                p <= ordered.len(),
                before == server_views(ordered@),
                slot(before, node@) == p + slot(
                    before.subrange(p as int, before.len() as int),
                    node@,
                ),
            decreases ordered.len() - p,
        {
            proof {
                let rest = before.subrange(p as int, before.len() as int);
                assert(rest[0] == ordered@[p as int]@);
                assert(rest.drop_first() =~= before.subrange(p + 1, before.len() as int));
            }
            p += 1;
        }
        proof {
            let rest = before.subrange(p as int, before.len() as int);
            if p < ordered.len() {
                assert(rest[0] == ordered@[p as int]@);
            }
            assert(slot(before, node@) == p);
        }
        ordered.insert(p, node.clone());
        assert(server_views(ordered@) =~= before.insert(p as int, node@));
        i += 1;
    }
    ordered
}

fn mark_of(fact: Option<bool>) -> (text: String)
    ensures
        text@ == mark(fact),
{
    match fact {
        Some(true) => String::from_str("*"),
        _ => String::from_str(" "),
    }
}

fn header_row() -> (row: Vec<String>)
    ensures
        texts(row@) == overview_header(),
{
    let mut row: Vec<String> = Vec::new();
    row.push(String::from_str("group"));
    row.push(String::from_str("host"));
    row.push(String::from_str("online"));
    row.push(String::from_str("ct"));
    row.push(String::from_str("pg leader"));
    row.push(String::from_str("pg replica"));
    row.push(String::from_str("ct l coord"));
    row.push(String::from_str("ct r coord"));
    row.push(String::from_str("ct l wk"));
    row.push(String::from_str("ct r wk"));
    row.push(String::from_str("pt primary"));
    row.push(String::from_str("pt replica"));
    assert(texts(row@) =~= overview_header());
    row
}

fn node_row(server: &Server) -> (row: Vec<String>)
    ensures
        texts(row@) == overview_row(server@),
{
    let mut row: Vec<String> = Vec::new();
    row.push(
        match server.citus_group_id {
            Some(n) => decimal_string(n as i128),
            None => String::new(),
        },
    );
    row.push(server.host.clone());
    row.push(mark_of(server.is_node_online));
    row.push(mark_of(server.is_node_consistent));
    row.push(mark_of(server.postgres_is_leader));
    row.push(mark_of(server.postgres_is_replica));
    row.push(mark_of(server.citus_is_leader_coordinator_node));
    row.push(mark_of(server.citus_is_replica_coordinator_node));
    row.push(mark_of(server.citus_is_leader_worker_node));
    row.push(mark_of(server.citus_is_replica_worker_node));
    row.push(mark_of(server.patroni_is_primary));
    row.push(mark_of(server.patroni_is_replica));
    assert(texts(row@) =~= overview_row(server@));
    row
}

/// The overview of the fleet, the nodes in ascending order: a drawn table,
/// or its cells where the table drawer cannot measure a host.
pub fn servers_table(servers: &Vec<Server>) -> (drawing: Drawing)
    ensures
        drawing@ == drawing_of(
            overview_cells(ordered_nodes(server_views(servers@), servers.len() as int)),
        ),
{
    let ordered = sort_servers(servers);
    let ghost nodes = server_views(ordered@);
    let mut rows: Vec<Vec<String>> = Vec::new();
    rows.push(header_row());
    let mut i: usize = 0;
    while i < ordered.len()
        invariant
            i <= ordered.len(),
            nodes == server_views(ordered@),
            rows.len() == i + 1,
            texts(rows@[0]@) == overview_header(),
            forall|j: int| 0 <= j < i ==> texts((#[trigger] rows@[j + 1])@) == overview_row(nodes[j]),
        decreases ordered.len() - i,
    {
        rows.push(node_row(&ordered[i]));
        i += 1;
    }
    proof {
        assert(grid(rows@) =~= overview_cells(nodes)) by {
            assert forall|a: int| 0 <= a < rows.len() implies grid(rows@)[a] == overview_cells(
                nodes,
            )[a] by {
                if a > 0 {
                    assert(texts(rows@[(a - 1) + 1]@) == overview_row(nodes[a - 1]));
                }
            }
        }
    }
    draw_table(rows)
}

} // verus!
