//! Dissemination of routes to neighbors.

use std::sync::Arc;

use vstd::prelude::*;

use crate::bgp::af::AddressFamily;
use crate::bgp::attribute::{AttrValue, Attrs, AttrsView};
use crate::bgp::configuration::Neighbor;
use crate::bgp::events::{
    add_counters, adj_rib_of, all_valid, attrs_of_routes, attrs_of_routes_has, attrs_of_routes_len,
    attrs_of_routes_push, counted, export_policies_known, get_apply_policy, get_policies, known_routes,
    policies_named, rib_ready, route_for, routes_for, with_adj_rib, with_routes, PolicyApplyMsg, Shared,
};
use crate::bgp::intern::{
    all_shared, got_all, got_more, got_none, interned_keys_identify, interning_shares, keeps_shared, keys_identify,
    spends, spends_less, AttrSetsCxt, RouteAttrs, RouteAttrsKey,
};
use crate::bgp::neighbor::{NeighborUpdateQueue, ReachQueue, Session, State};
use crate::bgp::order::{attrs_before, attrs_code, attrs_lt, attrs_order_total, attrs_order_transitive};
use crate::bgp::policy::{
    PolicyGroup, PolicyResult, PolicyType, RoutePolicyInfo, RoutePolicyView, POLICY_APPLY_BATCH_SIZE_MAX,
};
use crate::bgp::rib::{
    attrs_export_update, attrs_tx_update, exported, transmitted, AdjRib, BestRoute, Rib, Route, RouteOrigin,
    RoutingTable,
    TableView,
};
use crate::bgp::types::{Instant, PeerIndex, RouteType};
use crate::collections::{lex_irreflexive, views, views_insert, Key, OrdSet, Table};
use crate::ip::{IpAddr, IpNetwork};
use crate::sync::share;

verus! {

// ===== update queues =====

/// Whether queued prefixes stand in the order of their attributes, which are
/// distinct.
pub open spec fn queue_wf(queue: NeighborUpdateQueue) -> bool {
    reach_ordered(queue.reach@)
}

pub open spec fn reach_ordered(reach: Seq<ReachQueue>) -> bool {
    forall|i: int, j: int|
        0 <= i < j < reach.len() ==> attrs_before((#[trigger] reach[i]).attrs@, (#[trigger] reach[j]).attrs@)
}

proof fn ordered_distinct(reach: Seq<ReachQueue>)
    requires
        reach_ordered(reach),
    ensures
        forall|i: int, j: int|
            0 <= i < j < reach.len() ==> (#[trigger] reach[i]).attrs@ != (#[trigger] reach[j]).attrs@,
{
    assert forall|i: int, j: int| 0 <= i < j < reach.len() implies (#[trigger] reach[i]).attrs@ != (
    #[trigger] reach[j]).attrs@ by {
        lex_irreflexive(attrs_code(reach[i].attrs@));
    }
}

/// Finds the place of attributes in a queue, and says whether prefixes with them
/// are queued there.
fn place_of(reach: &Vec<ReachQueue>, attrs: &Attrs) -> (r: (usize, bool))
    requires
        reach_ordered(reach@),
    ensures
        r.0 <= reach@.len(),
        r.1 ==> r.0 < reach@.len() && reach@[r.0 as int].attrs@ == attrs@,
        !r.1 ==> {
            &&& forall|j: int| 0 <= j < r.0 ==> attrs_before((#[trigger] reach@[j]).attrs@, attrs@)
            &&& forall|j: int| r.0 <= j < reach@.len() ==> attrs_before(attrs@, (#[trigger] reach@[j]).attrs@)
        },
{
    let mut i: usize = 0;
    while i < reach.len()
        invariant
            i <= reach@.len(),
            reach_ordered(reach@),
            forall|j: int| 0 <= j < i ==> attrs_before((#[trigger] reach@[j]).attrs@, attrs@),
        decreases reach@.len() - i,
    {
        if reach[i].attrs.same(attrs) {
            return (i, true);
        }
        if attrs_lt(attrs, &reach[i].attrs) {
            proof {
                assert forall|j: int| i <= j < reach@.len() implies attrs_before(
                    attrs@,
                    (#[trigger] reach@[j]).attrs@,
                ) by {
                    if i < j {
                        attrs_order_transitive(attrs@, reach@[i as int].attrs@, reach@[j].attrs@);
                    }
                }
            }
            return (i, false);
        }
        proof {
            attrs_order_total(attrs@, reach@[i as int].attrs@);
        }
        i += 1;
    }
    (i, false)
}

/// Where prefixes with the given attributes are queued.
pub open spec fn queued_at(reach: Seq<ReachQueue>, attrs: AttrsView, i: int) -> bool {
    0 <= i < reach.len() && reach[i].attrs@ == attrs
}

/// Whether prefixes with the given attributes are queued.
pub open spec fn is_queued(reach: Seq<ReachQueue>, attrs: AttrsView) -> bool {
    exists|i: int| #[trigger] queued_at(reach, attrs, i)
}

#[verifier::ext_equal]
pub struct QueueView {
    pub reach: Map<AttrsView, Set<IpNetwork>>,
    pub unreach: Set<IpNetwork>,
}

impl View for NeighborUpdateQueue {
    type V = QueueView;

    open spec fn view(&self) -> QueueView {
        QueueView {
            reach: Map::new(
                |a: AttrsView| is_queued(self.reach@, a),
                |a: AttrsView| self.reach@[choose|i: int| #[trigger] queued_at(self.reach@, a, i)].prefixes@,
            ),
            unreach: self.unreach@,
        }
    }
}

/// The queue after prefixes were added that are to be advertised.
pub open spec fn with_reach(queue: QueueView, attrs: AttrsView, prefixes: Seq<IpNetwork>) -> QueueView {
    let old_prefixes = if queue.reach.contains_key(attrs) {
        queue.reach[attrs]
    } else {
        Set::empty()
    };
    QueueView { reach: queue.reach.insert(attrs, old_prefixes.union(prefixes.to_set())), ..queue }
}

fn add_prefixes(set: &mut OrdSet<IpNetwork>, prefixes: &Vec<IpNetwork>)
    ensures
        final(set)@ == old(set)@.union(prefixes@.to_set()),
{
    let mut i: usize = 0;
    assert(set@ =~= set@.union(prefixes@.take(0).to_set()));
    while i < prefixes.len()
        invariant
            i <= prefixes@.len(),
            set@ == old(set)@.union(prefixes@.take(i as int).to_set()),
        decreases prefixes@.len() - i,
    {
        set.insert(prefixes[i]);
        proof {
            let done = prefixes@.take(i as int);
            let next = prefixes@.take(i + 1);
            assert(next =~= done.push(prefixes@[i as int]));
            assert forall|x: IpNetwork| next.contains(x) == (done.contains(x) || x == prefixes@[i as int]) by {
                if next.contains(x) {
                    let k = choose|k: int| 0 <= k < next.len() && next[k] == x;
                    if k < i {
                        assert(done[k] == x);
                    }
                }
                if done.contains(x) {
                    let k = choose|k: int| 0 <= k < done.len() && done[k] == x;
                    assert(next[k] == x);
                }
                assert(next[i as int] == prefixes@[i as int]);
            }
            assert(set@ =~= old(set)@.union(next.to_set()));
        }
        i += 1;
    }
    assert(prefixes@.take(i as int) =~= prefixes@);
}

/// Queues prefixes that are to be advertised with the given attributes.
pub fn queue_reach(queue: &mut NeighborUpdateQueue, attrs: Attrs, prefixes: &Vec<IpNetwork>)
    requires
        queue_wf(*old(queue)),
    ensures
        queue_wf(*final(queue)),
        final(queue)@ == with_reach(old(queue)@, attrs@, prefixes@),
{
    let ghost q0 = *queue;
    let ghost a = queue.reach@;
    proof {
        ordered_distinct(a);
    }
    let (i, found) = place_of(&queue.reach, &attrs);
    if found {
        add_prefixes(&mut queue.reach[i].prefixes, prefixes);
        proof {
            let b = queue.reach@;
            assert(b.len() == a.len());
            assert forall|j: int| 0 <= j < b.len() implies (#[trigger] b[j]).attrs@ == a[j].attrs@ && (j != i ==> b[j]
                == a[j]) by {}
            assert(reach_ordered(b)) by {
                assert forall|x: int, y: int| 0 <= x < y < b.len() implies attrs_before(
                    (#[trigger] b[x]).attrs@,
                    (#[trigger] b[y]).attrs@,
                ) by {
                    assert(attrs_before(a[x].attrs@, a[y].attrs@));
                }
            }
            assert(queued_at(a, attrs@, i as int));
            same_keys(a, b, i as int);
            assert(queue@ =~= with_reach(q0@, attrs@, prefixes@));
        }
        return;
    }
    let mut set: OrdSet<IpNetwork> = OrdSet::new();
    add_prefixes(&mut set, prefixes);
    let entry = ReachQueue { attrs, prefixes: set };
    let ghost e = entry;
    queue.reach.insert(i, entry);
    proof {
        let b = queue.reach@;
        assert(b =~= a.insert(i as int, e));
        lex_irreflexive(attrs_code(e.attrs@));
        assert forall|j: int| 0 <= j < a.len() implies (#[trigger] a[j]).attrs@ != e.attrs@ by {}
        assert forall|j: int| 0 <= j < i implies #[trigger] b[j] == a[j] by {}
        assert forall|j: int| i < j < b.len() implies #[trigger] b[j] == a[j - 1] by {}
        assert(reach_ordered(b)) by {
            assert forall|x: int, y: int| 0 <= x < y < b.len() implies attrs_before(
                (#[trigger] b[x]).attrs@,
                (#[trigger] b[y]).attrs@,
            ) by {
                let m = if x < i {
                    x
                } else {
                    x - 1
                };
                let n = if y < i {
                    y
                } else {
                    y - 1
                };
                if x != i && y != i {
                    assert(b[x] == a[m] && b[y] == a[n]);
                } else if x == i {
                    assert(b[y] == a[n]);
                } else {
                    assert(b[x] == a[m]);
                }
            }
        }
        ordered_distinct(b);
        assert forall|x: AttrsView| #[trigger] queue@.reach.contains_key(x) == (q0@.reach.contains_key(x) || x
            == e.attrs@) by {
            if q0@.reach.contains_key(x) {
                let j = choose|j: int| #[trigger] queued_at(a, x, j);
                let k = if j < i {
                    j
                } else {
                    j + 1
                };
                assert(a[j] == b[k]);
                assert(queued_at(b, x, k));
            }
            if x == e.attrs@ {
                assert(queued_at(b, x, i as int));
            }
            if queue@.reach.contains_key(x) {
                let j = choose|j: int| #[trigger] queued_at(b, x, j);
                if j != i {
                    assert(queued_at(
                        a,
                        x,
                        if j < i {
                            j
                        } else {
                            j - 1
                        },
                    ));
                }
            }
        }
        assert forall|x: AttrsView| #[trigger] queue@.reach.contains_key(x) implies queue@.reach[x] == with_reach(
            q0@,
            e.attrs@,
            prefixes@,
        ).reach[x] by {
            let j = choose|j: int| #[trigger] queued_at(b, x, j);
            assert(queued_at(b, x, j));
            if x == e.attrs@ {
                assert(queued_at(b, x, i as int));
                assert(j == i);
                assert(!q0@.reach.contains_key(x)) by {
                    if q0@.reach.contains_key(x) {
                        let m = choose|m: int| #[trigger] queued_at(a, x, m);
                        assert(a[m].attrs@ != e.attrs@);
                    }
                }
            } else {
                let m = choose|m: int| #[trigger] queued_at(a, x, m);
                let k = if j < i {
                    j
                } else {
                    j - 1
                };
                assert(b[j] == a[k]);
                assert(queued_at(a, x, k));
                assert(queued_at(a, x, m));
                assert(m == k);
            }
        }
        assert(queue@ =~= with_reach(q0@, e.attrs@, prefixes@));
    }
}

/// Changing the prefixes of one entry changes those of its attributes only.
proof fn same_keys(a: Seq<ReachQueue>, b: Seq<ReachQueue>, n: int)
    requires
        a.len() == b.len(),
        0 <= n < a.len(),
        forall|i: int, j: int| 0 <= i < j < a.len() ==> (#[trigger] a[i]).attrs@ != (#[trigger] a[j]).attrs@,
        forall|j: int| 0 <= j < b.len() ==> (#[trigger] b[j]).attrs@ == a[j].attrs@,
        forall|j: int| 0 <= j < b.len() && j != n ==> #[trigger] b[j] == a[j],
    ensures
        forall|x: AttrsView| #[trigger] is_queued(b, x) == is_queued(a, x),
        forall|x: AttrsView, i: int, j: int| #[trigger] queued_at(a, x, i) && #[trigger] queued_at(b, x, j) ==> i == j,
        forall|x: AttrsView, i: int, j: int| #[trigger] queued_at(a, x, i) && #[trigger] queued_at(a, x, j) ==> i == j,
        forall|x: AttrsView, i: int, j: int| #[trigger] queued_at(b, x, i) && #[trigger] queued_at(b, x, j) ==> i == j,
        forall|x: AttrsView, i: int| #[trigger] queued_at(b, x, i) == queued_at(a, x, i),
{
    assert forall|x: AttrsView, i: int| #[trigger] queued_at(b, x, i) == queued_at(a, x, i) by {
        if 0 <= i < b.len() {
            assert(b[i].attrs@ == a[i].attrs@);
        }
    }
    assert forall|x: AttrsView| #[trigger] is_queued(b, x) == is_queued(a, x) by {
        if is_queued(a, x) {
            let i = choose|i: int| #[trigger] queued_at(a, x, i);
            assert(queued_at(b, x, i));
        }
        if is_queued(b, x) {
            let i = choose|i: int| #[trigger] queued_at(b, x, i);
            assert(queued_at(a, x, i));
        }
    }
}

// ===== neighbor policy export result =====

/// Whether two routes carry the same sets of attributes.
pub open spec fn same_attrs(a: Route, b: Route) -> bool {
    a.attrs.spec_key() == b.attrs.spec_key() && a.attrs.attrs() == b.attrs.attrs()
}

/// Routing table and the prefixes to advertise.
pub struct Advertising {
    pub table: TableView,
    pub advertise: Seq<IpNetwork>,
}

/// What becomes of a prefix whose route export policies have accepted. If the
/// route is gone, the result is ignored; if it has not changed, the prefix is
/// not advertised again.
pub open spec fn accept_one(a: Advertising, index: PeerIndex, prefix: IpNetwork, route: Route) -> Advertising {
    let k = prefix.masked();
    match known_routes(a.table, index, k) {
        None => a,
        Some(adj_rib) => if adj_rib.spec_out_post() matches Some(old_route) && same_attrs(old_route, route) {
            a
        } else {
            Advertising {
                table: with_routes(a.table, index, k, adj_rib.with_out_post(Some(route))),
                advertise: if adj_rib.adj_out is Some {
                    a.advertise.push(prefix)
                } else {
                    a.advertise
                },
            }
        },
    }
}

pub open spec fn accept_all(t: TableView, index: PeerIndex, prefixes: Seq<IpNetwork>, route: Route) -> Advertising
    decreases prefixes.len(),
{
    if prefixes.len() == 0 {
        Advertising { table: t, advertise: Seq::empty() }
    } else {
        accept_one(accept_all(t, index, prefixes.drop_last(), route), index, prefixes.last(), route)
    }
}

/// A routing table and the updates that wait for a neighbor.
pub struct Outgoing {
    pub table: TableView,
    pub queue: QueueView,
}

/// What becomes of a prefix whose route export policies have rejected.
pub open spec fn reject_one(o: Outgoing, index: PeerIndex, prefix: IpNetwork) -> Outgoing {
    let k = prefix.masked();
    match known_routes(o.table, index, k) {
        None => o,
        Some(adj_rib) => Outgoing {
            table: with_routes(o.table, index, k, adj_rib.with_out_post(None)),
            queue: if adj_rib.spec_out_post() is Some {
                QueueView { unreach: o.queue.unreach.insert(prefix), ..o.queue }
            } else {
                o.queue
            },
        },
    }
}

pub open spec fn reject_all(o: Outgoing, index: PeerIndex, prefixes: Seq<IpNetwork>) -> Outgoing
    decreases prefixes.len(),
{
    if prefixes.len() == 0 {
        o
    } else {
        reject_one(reject_all(o, index, prefixes.drop_last()), index, prefixes.last())
    }
}

/// What becomes of a group of prefixes on which export policies have decided.
pub open spec fn export_group(
    o: Outgoing,
    nbr: Session,
    group: PolicyGroup,
    route: Option<Route>,
    local_asn: u32,
) -> Outgoing {
    match (group.result, route) {
        (PolicyResult::Accept(rpinfo), Some(route)) => {
            let a = accept_all(o.table, nbr.index, group.prefixes@, route);
            Outgoing {
                table: a.table,
                queue: if a.advertise.len() > 0 {
                    with_reach(o.queue, transmitted(rpinfo@.attrs, nbr, local_asn), a.advertise)
                } else {
                    o.queue
                },
            }
        },
        _ => reject_all(o, nbr.index, group.prefixes@),
    }
}

pub open spec fn export_groups(
    o: Outgoing,
    nbr: Session,
    groups: Seq<PolicyGroup>,
    routes: Seq<Option<Route>>,
    local_asn: u32,
) -> Outgoing
    decreases groups.len(),
{
    if groups.len() == 0 {
        Outgoing {
            table: TableView { prefix_counters: counted(o.table.prefix_counters, nbr.index), ..o.table },
            ..o
        }
    } else {
        export_group(
            export_groups(o, nbr, groups.drop_last(), routes, local_asn),
            nbr,
            groups.last(),
            routes[groups.len() - 1],
            local_asn,
        )
    }
}

fn accept_prefix(
    table: &mut RoutingTable,
    index: PeerIndex,
    prefix: &IpNetwork,
    route: &Route,
    advertise: &mut Vec<IpNetwork>,
)
    requires
        prefix.valid(),
    ensures
        (Advertising { table: final(table)@, advertise: final(advertise)@ }) == accept_one(
            Advertising { table: old(table)@, advertise: old(advertise)@ },
            index,
            *prefix,
            *route,
        ),
{
    let ghost t0 = *table;
    let ghost k = prefix.masked();
    let ghost before = table.prefixes@;
    let dest = match table.prefixes.get_mut(prefix) {
        Some(dest) => dest,
        None => {
            return;
        },
    };
    let ghost d0 = *dest;
    let ghost ribs = dest.adj_rib@;
    let adj_rib = match dest.adj_rib.get_mut(&index) {
        Some(adj_rib) => adj_rib,
        None => {
            proof {
                views_insert(before, k, *dest);
                assert(views(before).insert(k, d0@) =~= views(before));
            }
            return;
        },
    };

    // Check if the Adj-RIB-Out was updated.
    let update = match adj_rib.out_post() {
        Some(old_route) => !old_route.attrs.same(&route.attrs),
        None => true,
    };
    if !update {
        proof {
            assert(ribs.insert(index, *adj_rib) =~= ribs);
            views_insert(before, k, *dest);
            assert(views(before).insert(k, d0@) =~= views(before));
        }
        return;
    }

    // Update post-policy Adj-RIB-Out routes.
    let stored = adj_rib.update_out_post(Route::new(share(&route.attrs), route.last_modified));
    proof {
        views_insert(before, k, *dest);
    }
    if stored {
        advertise.push(*prefix);
    }
}

fn reject_prefix(table: &mut RoutingTable, queue: &mut NeighborUpdateQueue, index: PeerIndex, prefix: &IpNetwork)
    requires
        prefix.valid(),
    ensures
        (Outgoing { table: final(table)@, queue: final(queue)@ }) == reject_one(
            Outgoing { table: old(table)@, queue: old(queue)@ },
            index,
            *prefix,
        ),
        final(queue).reach == old(queue).reach,
{
    let ghost k = prefix.masked();
    let ghost before = table.prefixes@;
    let dest = match table.prefixes.get_mut(prefix) {
        Some(dest) => dest,
        None => {
            return;
        },
    };
    let ghost d0 = *dest;
    let adj_rib = match dest.adj_rib.get_mut(&index) {
        Some(adj_rib) => adj_rib,
        None => {
            proof {
                views_insert(before, k, *dest);
                assert(views(before).insert(k, d0@) =~= views(before));
            }
            return;
        },
    };

    // Update post-policy Adj-RIB-Out routes.
    let removed = adj_rib.remove_out_post();
    proof {
        views_insert(before, k, *dest);
    }
    if removed.is_some() {
        // Update neighbor's Tx queue.
        queue.unreach.insert(*prefix);
    }
}

fn accept_group(
    table: &mut RoutingTable,
    index: PeerIndex,
    prefixes: &Vec<IpNetwork>,
    route: &Route,
) -> (advertise: Vec<IpNetwork>)
    requires
        all_valid(prefixes@),
    ensures
        (Advertising { table: final(table)@, advertise: advertise@ }) == accept_all(
            old(table)@,
            index,
            prefixes@,
            *route,
        ),
{
    let mut advertise: Vec<IpNetwork> = Vec::new();
    let mut i: usize = 0;
    assert(prefixes@.take(0) =~= Seq::empty());
    while i < prefixes.len()
        invariant
            i <= prefixes@.len(),
            all_valid(prefixes@),
            (Advertising { table: table@, advertise: advertise@ }) == accept_all(
                old(table)@,
                index,
                prefixes@.take(i as int),
                *route,
            ),
        decreases prefixes@.len() - i,
    {
        accept_prefix(table, index, &prefixes[i], route, &mut advertise);
        proof {
            let next = prefixes@.take(i + 1);
            assert(next.drop_last() =~= prefixes@.take(i as int));
            assert(next.last() == prefixes@[i as int]);
        }
        i += 1;
    }
    assert(prefixes@.take(i as int) =~= prefixes@);
    advertise
}

fn reject_group(
    table: &mut RoutingTable,
    queue: &mut NeighborUpdateQueue,
    index: PeerIndex,
    prefixes: &Vec<IpNetwork>,
)
    requires
        all_valid(prefixes@),
    ensures
        (Outgoing { table: final(table)@, queue: final(queue)@ }) == reject_all(
            Outgoing { table: old(table)@, queue: old(queue)@ },
            index,
            prefixes@,
        ),
        final(queue).reach == old(queue).reach,
{
    let ghost start = Outgoing { table: table@, queue: queue@ };
    let mut i: usize = 0;
    assert(prefixes@.take(0) =~= Seq::empty());
    while i < prefixes.len()
        invariant
            i <= prefixes@.len(),
            all_valid(prefixes@),
            queue.reach == old(queue).reach,
            (Outgoing { table: table@, queue: queue@ }) == reject_all(start, index, prefixes@.take(i as int)),
        decreases prefixes@.len() - i,
    {
        reject_prefix(table, queue, index, &prefixes[i]);
        proof {
            let next = prefixes@.take(i + 1);
            assert(next.drop_last() =~= prefixes@.take(i as int));
            assert(next.last() == prefixes@[i as int]);
        }
        i += 1;
    }
    assert(prefixes@.take(i as int) =~= prefixes@);
}

/// Whether the prefixes of groups are networks.
pub open spec fn groups_valid(groups: Seq<PolicyGroup>) -> bool {
    forall|i: int| 0 <= i < groups.len() ==> all_valid((#[trigger] groups[i]).prefixes@)
}

/// What the results of export policies come to.
pub open spec fn exported_groups<A: AddressFamily>(
    rib: Rib,
    old_rib: Rib,
    queue: QueueView,
    old_queue: QueueView,
    nbr: Session,
    groups: Seq<PolicyGroup>,
    routes: Seq<Option<Route>>,
    local_asn: u32,
) -> bool {
    &&& (Outgoing { table: A::table_of(rib.tables)@, queue }) == export_groups(
        Outgoing { table: A::table_of(old_rib.tables)@, queue: old_queue },
        nbr,
        groups,
        routes,
        local_asn,
    )
    &&& rib.tables == A::with_table(old_rib.tables, A::table_of(rib.tables))
    &&& got_all(old_rib.attr_sets, rib.attr_sets, attrs_of_routes(routes))
}

/// Processes the results of the export policies of a neighbor. Says whether
/// the session is up; if so, the UPDATE messages that are then queued are to be
/// sent.
pub fn process_nbr_policy_export<A: AddressFamily>(
    nbr: Option<&Session>,
    rib: &mut Rib,
    queue: &mut NeighborUpdateQueue,
    routes: &Vec<PolicyGroup>,
    local_asn: u32,
    now: Instant,
) -> (send: bool)
    requires
        groups_valid(routes@),
        rib_ready(*old(rib), routes@.len()),
        queue_wf(*old(queue)),
    ensures
        send == (nbr matches Some(n) && n.state == State::Established),
        !send ==> *final(rib) == *old(rib) && *final(queue) == *old(queue),
        send ==> exists|list: Seq<Option<Route>>|
            {
                &&& routes_for(list, routes@, now)
                &&& #[trigger] exported_groups::<A>(
                    *final(rib),
                    *old(rib),
                    final(queue)@,
                    old(queue)@,
                    *nbr->0,
                    routes@,
                    list,
                    local_asn,
                )
                &&& all_shared(final(rib).attr_sets, attrs_of_routes(list))
            },
        final(rib).attr_sets.wf(),
        keeps_shared(old(rib).attr_sets, final(rib).attr_sets),
        spends(old(rib).attr_sets, final(rib).attr_sets, routes@.len()),
        queue_wf(*final(queue)),
{
    // Lookup neighbor.
    let nbr = match nbr {
        Some(nbr) => nbr,
        None => {
            return false;
        },
    };
    match nbr.state {
        State::Established => {},
        _ => {
            return false;
        },
    }
    let index = nbr.index;
    let ghost rib0 = *rib;
    let ghost start = Outgoing { table: A::table_of(rib0.tables)@, queue: queue@ };
    let table = A::table(&mut rib.tables);
    add_counters(&mut table.prefix_counters, index);
    let ghost mut list: Seq<Option<Route>> = Seq::empty();
    let mut i: usize = 0;
    proof {
        A::table_replaced(rib0.tables, *table);
        assert(routes@.take(0) =~= Seq::empty());
        got_none(rib0.attr_sets);
    }
    while i < routes.len()
        invariant
            i <= routes@.len(),
            index == nbr.index,
            groups_valid(routes@),
            rib_ready(*rib, (routes@.len() - i) as nat),
            queue_wf(*queue),
            routes_for(list, routes@.take(i as int), now),
            got_all(rib0.attr_sets, rib.attr_sets, attrs_of_routes(list)),
            start.queue == old(queue)@,
            start.table == A::table_of(rib0.tables)@,
            (Outgoing { table: A::table_of(rib.tables)@, queue: queue@ }) == export_groups(
                start,
                *nbr,
                routes@.take(i as int),
                list,
                local_asn,
            ),
            rib.tables == A::with_table(rib0.tables, A::table_of(rib.tables)),
        decreases routes@.len() - i,
    {
        let ghost done = routes@.take(i as int);
        let ghost next = routes@.take(i + 1);
        let ghost rib1 = *rib;
        proof {
            assert(next.drop_last() =~= done);
            assert(next.last() == routes@[i as int]);
            assert(rib_ready(*rib, (routes@.len() - i) as nat));
        }
        let group = &routes[i];
        let ghost mut route: Option<Route> = None;
        match &group.result {
            PolicyResult::Accept(rpinfo) => {
                // Intern the attribute sets once for all prefixes sharing the
                // same policy result.
                let route_attrs = rib.attr_sets.get_route_attr_sets(&rpinfo.attrs);
                let r = Route::new(route_attrs, now);
                proof {
                    route = Some(r);
                }

                // Update route's attributes before transmission.
                let mut attrs = rpinfo.attrs.dup();
                attrs_tx_update(&mut attrs, nbr, local_asn);
                let table = A::table(&mut rib.tables);
                let advertise = accept_group(table, index, &group.prefixes, &r);
                proof {
                    A::table_replaced(rib1.tables, *table);
                    A::table_replaced_twice(rib0.tables, A::table_of(rib1.tables), *table);
                }

                // Update neighbor's Tx queue.
                if advertise.len() > 0 {
                    queue_reach(queue, attrs, &advertise);
                }
            },
            PolicyResult::Reject => {
                let table = A::table(&mut rib.tables);
                reject_group(table, queue, index, &group.prefixes);
                proof {
                    A::table_replaced(rib1.tables, *table);
                    A::table_replaced_twice(rib0.tables, A::table_of(rib1.tables), *table);
                }
            },
        }
        proof {
            let old_list = list;
            list = list.push(route);
            attrs_of_routes_push(old_list, route);
            if route is Some {
                got_more(
                    rib0.attr_sets,
                    rib1.attr_sets,
                    rib.attr_sets,
                    attrs_of_routes(old_list),
                    route->0.attrs,
                );
            }
            export_groups_prefix(start, *nbr, done, old_list, list, local_asn);
            assert forall|k: int| 0 <= k < next.len() implies route_for(list[k], (#[trigger] next[k]).result, now) by {
                if k < i {
                    assert(done[k] == next[k]);
                    assert(list[k] == old_list[k]);
                }
            }
        }
        i += 1;
    }
    proof {
        assert(routes@.take(i as int) =~= routes@);
        attrs_of_routes_len(list);
        interning_shares(rib0.attr_sets, rib.attr_sets, attrs_of_routes(list));
        spends_less(rib0.attr_sets, rib.attr_sets, attrs_of_routes(list).len(), routes@.len());
        assert(exported_groups::<A>(*rib, rib0, queue@, old(queue)@, *nbr, routes@, list, local_asn));
    }
    true
}

/// Only the routes of the groups themselves matter.
proof fn export_groups_prefix(
    o: Outgoing,
    nbr: Session,
    groups: Seq<PolicyGroup>,
    a: Seq<Option<Route>>,
    b: Seq<Option<Route>>,
    local_asn: u32,
)
    requires
        a.len() >= groups.len(),
        b.len() >= groups.len(),
        forall|i: int| 0 <= i < groups.len() ==> a[i] == b[i],
    ensures
        export_groups(o, nbr, groups, a, local_asn) == export_groups(o, nbr, groups, b, local_asn),
    decreases groups.len(),
{
    if groups.len() > 0 {
        export_groups_prefix(o, nbr, groups.drop_last(), a, b, local_asn);
    }
}

// ===== withdrawal =====

/// What becomes of a prefix that is withdrawn from a neighbor. It is told so
/// only if the prefix was advertised to it.
pub open spec fn withdrawn_one(o: Outgoing, index: PeerIndex, prefix: IpNetwork) -> Outgoing {
    let k = prefix.masked();
    match known_routes(o.table, index, k) {
        None => o,
        Some(adj_rib) => Outgoing {
            table: with_routes(o.table, index, k, AdjRib { adj_out: None, ..adj_rib }),
            queue: if adj_rib.spec_out_post() is Some {
                QueueView { unreach: o.queue.unreach.insert(prefix), ..o.queue }
            } else {
                o.queue
            },
        },
    }
}

pub open spec fn withdrawn(o: Outgoing, index: PeerIndex, prefixes: Seq<IpNetwork>) -> Outgoing
    decreases prefixes.len(),
{
    if prefixes.len() == 0 {
        Outgoing {
            table: TableView { prefix_counters: counted(o.table.prefix_counters, index), ..o.table },
            ..o
        }
    } else {
        withdrawn_one(withdrawn(o, index, prefixes.drop_last()), index, prefixes.last())
    }
}

/// Withdraws prefixes from a neighbor.
pub fn withdraw_routes(
    nbr: &Session,
    table: &mut RoutingTable,
    queue: &mut NeighborUpdateQueue,
    routes: &Vec<IpNetwork>,
)
    requires
        all_valid(routes@),
    ensures
        (Outgoing { table: final(table)@, queue: final(queue)@ }) == withdrawn(
            Outgoing { table: old(table)@, queue: old(queue)@ },
            nbr.index,
            routes@,
        ),
        final(queue).reach == old(queue).reach,
        final(table)@.prefixes.dom() == old(table)@.prefixes.dom(),
{
    let index = nbr.index;
    let ghost start = Outgoing { table: table@, queue: queue@ };

    // Update Adj-RIB-Out.
    add_counters(&mut table.prefix_counters, index);
    let mut i: usize = 0;
    assert(routes@.take(0) =~= Seq::empty());
    while i < routes.len()
        invariant
            i <= routes@.len(),
            all_valid(routes@),
            queue.reach == old(queue).reach,
            table@.prefixes.dom() == old(table)@.prefixes.dom(),
            (Outgoing { table: table@, queue: queue@ }) == withdrawn(start, index, routes@.take(i as int)),
        decreases routes@.len() - i,
    {
        let prefix = routes[i];
        let ghost k = prefix.masked();
        let ghost before = table.prefixes@;
        let ghost t1 = table@;
        proof {
            let next = routes@.take(i + 1);
            assert(next.drop_last() =~= routes@.take(i as int));
            assert(next.last() == prefix);
        }
        i += 1;
        let dest = match table.prefixes.get_mut(&prefix) {
            Some(dest) => dest,
            None => {
                continue;
            },
        };
        let ghost d0 = *dest;
        let adj_rib = match dest.adj_rib.get_mut(&index) {
            Some(adj_rib) => adj_rib,
            None => {
                proof {
                    views_insert(before, k, *dest);
                    assert(views(before).insert(k, d0@) =~= views(before));
                }
                continue;
            },
        };
        let advertised = adj_rib.remove_out();
        proof {
            views_insert(before, k, *dest);
            assert(views(before).insert(k, dest@).dom() =~= views(before).dom());
        }
        if advertised {
            queue.unreach.insert(prefix);
        }
    }
    assert(routes@.take(i as int) =~= routes@);
}

// ===== advertisement =====

/// Routes that are handed to the export policies together.
#[derive(Clone, Copy, Debug, PartialEq, Eq, Structural)]
pub struct ExportKey {
    pub origin: RouteOrigin,
    pub route_type: RouteType,
    pub attrs: RouteAttrsKey,
}

impl View for ExportKey {
    type V = ExportKey;

    open spec fn view(&self) -> ExportKey {
        *self
    }
}

/// An optional number as two numbers: none comes first.
pub open spec fn opt_parts(o: Option<u64>) -> (u128, u128) {
    match o {
        None => (0, 0),
        Some(n) => (1, n as u128),
    }
}

fn to_opt_parts(o: &Option<u64>) -> (r: (u128, u128))
    ensures
        r == opt_parts(*o),
{
    match o {
        None => (0, 0),
        Some(n) => (1, *n as u128),
    }
}

impl Key for ExportKey {
    open spec fn code(v: ExportKey) -> Seq<u128> {
        seq![
            v.origin.parts().0,
            v.origin.parts().1,
            v.origin.parts().2,
            v.origin.parts().3,
            v.route_type.rank(),
            v.attrs.base as u128,
            opt_parts(v.attrs.comm).0,
            opt_parts(v.attrs.comm).1,
            opt_parts(v.attrs.ext_comm).0,
            opt_parts(v.attrs.ext_comm).1,
            opt_parts(v.attrs.extv6_comm).0,
            opt_parts(v.attrs.extv6_comm).1,
            opt_parts(v.attrs.large_comm).0,
            opt_parts(v.attrs.large_comm).1,
            opt_parts(v.attrs.unknown).0,
            opt_parts(v.attrs.unknown).1,
        ]
    }

    proof fn code_injective(a: ExportKey, b: ExportKey) {
        let (x, y) = (Self::code(a), Self::code(b));
        assert(x[0] == a.origin.parts().0 && y[0] == b.origin.parts().0);
        assert(x[1] == a.origin.parts().1 && y[1] == b.origin.parts().1);
        assert(x[2] == a.origin.parts().2 && y[2] == b.origin.parts().2);
        assert(x[3] == a.origin.parts().3 && y[3] == b.origin.parts().3);
        assert(x[4] == a.route_type.rank() && y[4] == b.route_type.rank());
        assert(x[5] == a.attrs.base as u128 && y[5] == b.attrs.base as u128);
        assert(x[6] == opt_parts(a.attrs.comm).0 && y[6] == opt_parts(b.attrs.comm).0);
        assert(x[7] == opt_parts(a.attrs.comm).1 && y[7] == opt_parts(b.attrs.comm).1);
        assert(x[8] == opt_parts(a.attrs.ext_comm).0 && y[8] == opt_parts(b.attrs.ext_comm).0);
        assert(x[9] == opt_parts(a.attrs.ext_comm).1 && y[9] == opt_parts(b.attrs.ext_comm).1);
        assert(x[10] == opt_parts(a.attrs.extv6_comm).0 && y[10] == opt_parts(b.attrs.extv6_comm).0);
        assert(x[11] == opt_parts(a.attrs.extv6_comm).1 && y[11] == opt_parts(b.attrs.extv6_comm).1);
        assert(x[12] == opt_parts(a.attrs.large_comm).0 && y[12] == opt_parts(b.attrs.large_comm).0);
        assert(x[13] == opt_parts(a.attrs.large_comm).1 && y[13] == opt_parts(b.attrs.large_comm).1);
        assert(x[14] == opt_parts(a.attrs.unknown).0 && y[14] == opt_parts(b.attrs.unknown).0);
        assert(x[15] == opt_parts(a.attrs.unknown).1 && y[15] == opt_parts(b.attrs.unknown).1);
        RouteOrigin::parts_injective(a.origin, b.origin);
    }

    fn to_code(&self) -> Vec<u128> {
        let origin = self.origin.to_parts();
        let comm = to_opt_parts(&self.attrs.comm);
        let ext_comm = to_opt_parts(&self.attrs.ext_comm);
        let extv6_comm = to_opt_parts(&self.attrs.extv6_comm);
        let large_comm = to_opt_parts(&self.attrs.large_comm);
        let unknown = to_opt_parts(&self.attrs.unknown);
        vec![
            origin.0,
            origin.1,
            origin.2,
            origin.3,
            self.route_type.to_rank(),
            self.attrs.base as u128,
            comm.0,
            comm.1,
            ext_comm.0,
            ext_comm.1,
            extv6_comm.0,
            extv6_comm.1,
            large_comm.0,
            large_comm.1,
            unknown.0,
            unknown.1,
        ]
    }

    fn copy_key(&self) -> ExportKey {
        *self
    }
}

/// A best route and the network that it leads to.
pub struct Offer {
    pub prefix: IpNetwork,
    pub route: BestRoute,
}

/// Whether the given attributes are those that an offer is exported with.
pub open spec fn offer_attrs<A: AddressFamily>(attrs: Arc<RouteAttrs>, offer: Offer, nbr: Session) -> bool {
    attrs.attrs() == exported::<A>(offer.route.attrs.attrs(), nbr, offer.route.origin.local())
}

pub open spec fn export_key(offer: Offer, attrs: Arc<RouteAttrs>) -> ExportKey {
    ExportKey { origin: offer.route.origin, route_type: offer.route.route_type, attrs: attrs.spec_key() }
}

/// The table after an offer was stored as a pre-policy route of a neighbor.
pub open spec fn offer_one(t: TableView, index: PeerIndex, offer: Offer, attrs: Arc<RouteAttrs>) -> TableView {
    let k = offer.prefix.masked();
    let dest = t.prefixes[k];
    let route = Route { attrs, last_modified: offer.route.last_modified };
    with_routes(t, index, k, adj_rib_of(dest, index).with_out_pre(route))
}

pub open spec fn offer_all(t: TableView, index: PeerIndex, offers: Seq<Offer>, attrs: Seq<Arc<RouteAttrs>>) -> TableView
    decreases offers.len(),
{
    if offers.len() == 0 {
        t
    } else {
        offer_one(
            offer_all(t, index, offers.drop_last(), attrs),
            index,
            offers.last(),
            attrs[offers.len() - 1],
        )
    }
}

/// The prefixes of the offers of one group, in order.
pub open spec fn offered(offers: Seq<Offer>, attrs: Seq<Arc<RouteAttrs>>, key: ExportKey) -> Seq<IpNetwork>
    decreases offers.len(),
{
    if offers.len() == 0 {
        Seq::empty()
    } else {
        let rest = offered(offers.drop_last(), attrs, key);
        if export_key(offers.last(), attrs[offers.len() - 1]) == key {
            rest.push(offers.last().prefix)
        } else {
            rest
        }
    }
}

/// A sequence in batches of at most a given size.
pub open spec fn batched(s: Seq<IpNetwork>, size: nat) -> Seq<Seq<IpNetwork>>
    decreases s.len(),
    when size > 0
{
    if s.len() == 0 {
        Seq::empty()
    } else if s.len() <= size {
        seq![s]
    } else {
        seq![s.take(size as int)] + batched(s.skip(size as int), size)
    }
}

/// What export policies are to be applied with.
pub struct ExportRequest {
    pub nbr_addr: IpAddr,
    pub key: ExportKey,
    pub attrs: AttrsView,
    pub prefixes: Seq<IpNetwork>,
}

/// Whether a message asks to apply the export policies of a neighbor.
pub open spec fn export_request<A: AddressFamily>(
    msg: PolicyApplyMsg,
    nbr: Neighbor,
    shared: Shared,
    request: ExportRequest,
) -> bool {
    let cfg = crate::bgp::events::apply_policy_of(nbr.config@, A::family());
    &&& msg.policy_type == PolicyType::Export
    &&& msg.nbr_addr == request.nbr_addr
    &&& msg.afi_safi == A::family()
    &&& msg.route@ == (RoutePolicyView {
        origin: request.key.origin,
        route_type: request.key.route_type,
        tag: None,
        opaque_attrs: None,
        igp_metric: None,
        attrs: request.attrs,
    })
    &&& msg.prefixes@ == request.prefixes
    &&& exists|names: OrdSet<String>| names@ == cfg.export_policy && #[trigger] policies_named(
        msg.policies@,
        names,
        shared,
    )
    &&& msg.match_sets == shared.match_sets
    &&& msg.default_policy == cfg.default_export_policy
}

/// The requests for one group: one for each batch of its prefixes.
pub open spec fn group_requests(
    nbr_addr: IpAddr,
    key: ExportKey,
    attrs: AttrsView,
    prefixes: Seq<IpNetwork>,
) -> Seq<ExportRequest> {
    batched(prefixes, POLICY_APPLY_BATCH_SIZE_MAX as nat).map_values(
        |b: Seq<IpNetwork>| ExportRequest { nbr_addr, key, attrs, prefixes: b },
    )
}

/// The attributes of the first offer of a group.
pub open spec fn group_attrs(offers: Seq<Offer>, attrs: Seq<Arc<RouteAttrs>>, key: ExportKey) -> AttrsView
    decreases offers.len(),
{
    if offers.len() == 0 {
        attrs[0].attrs()
    } else if offered(offers.drop_last(), attrs, key).len() > 0 {
        group_attrs(offers.drop_last(), attrs, key)
    } else {
        attrs[offers.len() - 1].attrs()
    }
}

/// The requests for all groups, in the order of their keys.
pub open spec fn all_requests(
    nbr_addr: IpAddr,
    keys: Seq<ExportKey>,
    offers: Seq<Offer>,
    attrs: Seq<Arc<RouteAttrs>>,
) -> Seq<ExportRequest>
    decreases keys.len(),
{
    if keys.len() == 0 {
        Seq::empty()
    } else {
        all_requests(nbr_addr, keys.drop_last(), offers, attrs) + group_requests(
            nbr_addr,
            keys.last(),
            group_attrs(offers, attrs, keys.last()),
            offered(offers, attrs, keys.last()),
        )
    }
}

/// Whether keys are those of the groups of offers, in ascending order.
pub open spec fn group_keys(keys: Seq<ExportKey>, offers: Seq<Offer>, attrs: Seq<Arc<RouteAttrs>>) -> bool {
    &&& forall|i: int, j: int|
        0 <= i < j < keys.len() ==> crate::collections::lex_lt(
            #[trigger] ExportKey::code(keys[i]),
            #[trigger] ExportKey::code(keys[j]),
        )
    &&& forall|k: ExportKey| #[trigger] keys.contains(k) == (offered(offers, attrs, k).len() > 0)
}

/// Prefixes with what the export policies see of their routes.
pub struct ExportGroup {
    pub rpinfo: RoutePolicyInfo,
    pub prefixes: Vec<IpNetwork>,
}

fn store_offer(table: &mut RoutingTable, index: PeerIndex, offer: &Offer, attrs: &Arc<RouteAttrs>)
    requires
        offer.prefix.valid(),
        old(table)@.prefixes.contains_key(offer.prefix.masked()),
    ensures
        final(table)@ == offer_one(old(table)@, index, *offer, *attrs),
        final(table)@.prefixes.dom() == old(table)@.prefixes.dom(),
{
    let ghost t0 = *table;
    let ghost k = offer.prefix.masked();
    let ghost before = table.prefixes@;
    let route = Route { attrs: share(attrs), last_modified: offer.route.last_modified };
    if let Some(dest) = table.prefixes.get_mut(&offer.prefix) {
        let ghost d0 = *dest;
        if !dest.adj_rib.contains_key(&index) {
            dest.adj_rib.insert(index, AdjRib::default());
        }
        if let Some(adj_rib) = dest.adj_rib.get_mut(&index) {
            adj_rib.update_out_pre(route);
        }
        proof {
            let want = with_adj_rib(d0@, index, adj_rib_of(d0@, index).with_out_pre(route));
            assert(dest@.adj_rib =~= want.adj_rib);
            assert(dest@ == want);
            views_insert(before, k, *dest);
            assert(views(before).insert(k, dest@).dom() =~= views(before).dom());
        }
    }
}

/// Whether the groups collected so far are those of the offers.
pub open spec fn groups_collected(
    groups: Map<ExportKey, ExportGroup>,
    offers: Seq<Offer>,
    attrs: Seq<Arc<RouteAttrs>>,
) -> bool {
    forall|k: ExportKey|
        #![trigger groups.contains_key(k)]
        #![trigger groups[k]]
        {
            &&& groups.contains_key(k) == (offered(offers, attrs, k).len() > 0)
            &&& groups.contains_key(k) ==> {
                &&& groups[k].prefixes@ == offered(offers, attrs, k)
                &&& groups[k].rpinfo@ == (RoutePolicyView {
                    origin: k.origin,
                    route_type: k.route_type,
                    tag: None,
                    opaque_attrs: None,
                    igp_metric: None,
                    attrs: group_attrs(offers, attrs, k),
                })
            }
        }
}

fn add_to_group(
    groups: &mut Table<ExportKey, ExportGroup>,
    offer: &Offer,
    attrs: &Arc<RouteAttrs>,
    Ghost(offers): Ghost<Seq<Offer>>,
    Ghost(all): Ghost<Seq<Arc<RouteAttrs>>>,
)
    requires
        groups_collected(old(groups)@, offers, all),
        all.len() == offers.len(),
    ensures
        groups_collected(final(groups)@, offers.push(*offer), all.push(*attrs)),
{
    let key = ExportKey { origin: offer.route.origin, route_type: offer.route.route_type, attrs: attrs.key() };
    let ghost g0 = groups@;
    let ghost next = offers.push(*offer);
    let ghost next_all = all.push(*attrs);
    if !groups.contains_key(&key) {
        let rpinfo = RoutePolicyInfo::new(
            offer.route.origin,
            offer.route.route_type,
            None,
            None,
            None,
            attrs.get(),
        );
        groups.insert(key, ExportGroup { rpinfo, prefixes: Vec::new() });
    }
    let ghost mid = groups@;
    if let Some(group) = groups.get_mut(&key) {
        group.prefixes.push(offer.prefix);
    }
    proof {
        assert(next.drop_last() =~= offers);
        assert forall|k: ExportKey|
            #![trigger groups@.contains_key(k)]
            #![trigger groups@[k]]
            {
                &&& groups@.contains_key(k) == (offered(next, next_all, k).len() > 0)
                &&& groups@.contains_key(k) ==> {
                    &&& groups@[k].prefixes@ == offered(next, next_all, k)
                    &&& groups@[k].rpinfo@ == (RoutePolicyView {
                        origin: k.origin,
                        route_type: k.route_type,
                        tag: None,
                        opaque_attrs: None,
                        igp_metric: None,
                        attrs: group_attrs(next, next_all, k),
                    })
                }
            } by {
            offered_prefix(offers, all, next_all, k);
            assert(g0.contains_key(k) == (offered(offers, all, k).len() > 0));
        }
    }
}

/// Only the attributes of the offers themselves matter.
proof fn offered_prefix(offers: Seq<Offer>, a: Seq<Arc<RouteAttrs>>, b: Seq<Arc<RouteAttrs>>, key: ExportKey)
    requires
        a.len() >= offers.len(),
        b.len() >= offers.len(),
        forall|i: int| 0 <= i < offers.len() ==> a[i] == b[i],
    ensures
        offered(offers, a, key) == offered(offers, b, key),
        offers.len() > 0 ==> group_attrs(offers, a, key) == group_attrs(offers, b, key),
    decreases offers.len(),
{
    if offers.len() > 0 {
        offered_prefix(offers.drop_last(), a, b, key);
    }
}

proof fn offer_all_prefix(
    t: TableView,
    index: PeerIndex,
    offers: Seq<Offer>,
    a: Seq<Arc<RouteAttrs>>,
    b: Seq<Arc<RouteAttrs>>,
)
    requires
        a.len() >= offers.len(),
        b.len() >= offers.len(),
        forall|i: int| 0 <= i < offers.len() ==> a[i] == b[i],
    ensures
        offer_all(t, index, offers, a) == offer_all(t, index, offers, b),
    decreases offers.len(),
{
    if offers.len() > 0 {
        offer_all_prefix(t, index, offers.drop_last(), a, b);
    }
}

/// Whether messages are the requested ones.
pub open spec fn requests_made<A: AddressFamily>(
    msgs: Seq<PolicyApplyMsg>,
    nbr: Neighbor,
    shared: Shared,
    requests: Seq<ExportRequest>,
) -> bool {
    &&& msgs.len() == requests.len()
    &&& forall|i: int| 0 <= i < msgs.len() ==> export_request::<A>(#[trigger] msgs[i], nbr, shared, requests[i])
}

/// Appends the requests for one group.
fn push_requests<A: AddressFamily>(
    msgs: &mut Vec<PolicyApplyMsg>,
    nbr: &Neighbor,
    shared: &Shared,
    key: ExportKey,
    group: &ExportGroup,
    Ghost(requests): Ghost<Seq<ExportRequest>>,
)
    requires
        export_policies_known(nbr.config@, A::family(), *shared),
        requests_made::<A>(old(msgs)@, *nbr, *shared, requests),
        group.rpinfo@ == (RoutePolicyView {
            origin: key.origin,
            route_type: key.route_type,
            tag: None,
            opaque_attrs: None,
            igp_metric: None,
            attrs: group.rpinfo@.attrs,
        }),
    ensures
        requests_made::<A>(
            final(msgs)@,
            *nbr,
            *shared,
            requests + group_requests(nbr.session.remote_addr, key, group.rpinfo@.attrs, group.prefixes@),
        ),
{
    let ghost size = POLICY_APPLY_BATCH_SIZE_MAX as nat;
    let ghost nbr_addr = nbr.session.remote_addr;
    let ghost attrs = group.rpinfo@.attrs;
    let ghost all = group_requests(nbr_addr, key, attrs, group.prefixes@);
    let ghost mut made = requests;
    let n = group.prefixes.len();
    let mut start: usize = 0;
    proof {
        assert(group.prefixes@.skip(0) =~= group.prefixes@);
        assert(made + all =~= requests + all);
    }
    while start < n
        invariant
            start <= n,
            n == group.prefixes@.len(),
            size == POLICY_APPLY_BATCH_SIZE_MAX,
            nbr_addr == nbr.session.remote_addr,
            attrs == group.rpinfo@.attrs,
            group.rpinfo@ == (RoutePolicyView {
                origin: key.origin,
                route_type: key.route_type,
                tag: None,
                opaque_attrs: None,
                igp_metric: None,
                attrs: group.rpinfo@.attrs,
            }),
            export_policies_known(nbr.config@, A::family(), *shared),
            requests_made::<A>(msgs@, *nbr, *shared, made),
            made + group_requests(nbr_addr, key, attrs, group.prefixes@.skip(start as int)) =~= requests + all,
        decreases n - start,
    {
        let ghost rest = group.prefixes@.skip(start as int);
        let end: usize = if n - start <= POLICY_APPLY_BATCH_SIZE_MAX {
            n
        } else {
            start + POLICY_APPLY_BATCH_SIZE_MAX
        };
        let prefixes = copy_range(&group.prefixes, start, end);
        let apply_policy_cfg = get_apply_policy(&nbr.config, A::afi_safi());
        assert(apply_policy_cfg@.export_policy == apply_policy_cfg.export_policy@);
        let msg = PolicyApplyMsg {
            policy_type: PolicyType::Export,
            nbr_addr: nbr.session.remote_addr,
            afi_safi: A::afi_safi(),
            route: group.rpinfo.dup(),
            prefixes,
            policies: get_policies(&apply_policy_cfg.export_policy, shared),
            match_sets: share(&shared.match_sets),
            default_policy: apply_policy_cfg.default_export_policy,
        };
        proof {
            let batch = msg.prefixes@;
            let request = ExportRequest { nbr_addr, key, attrs, prefixes: batch };
            assert(policies_named(msg.policies@, apply_policy_cfg.export_policy, *shared));
            assert(export_request::<A>(msg, *nbr, *shared, request));
            let later = group.prefixes@.skip(end as int);
            if rest.len() <= size {
                assert(batch =~= rest);
                assert(later =~= Seq::empty());
            } else {
                assert(batch =~= rest.take(size as int));
                assert(later =~= rest.skip(size as int));
            }
            assert(group_requests(nbr_addr, key, attrs, rest) =~= seq![request] + group_requests(
                nbr_addr,
                key,
                attrs,
                later,
            ));
            made = made.push(request);
            assert(made + group_requests(nbr_addr, key, attrs, later) =~= requests + all);
        }
        msgs.push(msg);
        start = end;
    }
    proof {
        assert(group.prefixes@.skip(start as int) =~= Seq::empty());
        assert(group_requests(nbr_addr, key, attrs, Seq::empty()) =~= Seq::empty());
        assert(made =~= requests + all);
    }
}

fn copy_range(nets: &Vec<IpNetwork>, start: usize, end: usize) -> (r: Vec<IpNetwork>)
    requires
        start <= end <= nets@.len(),
    ensures
        r@ == nets@.subrange(start as int, end as int),
{
    let mut r: Vec<IpNetwork> = Vec::new();
    let mut i: usize = start;
    assert(r@ =~= nets@.subrange(start as int, start as int));
    while i < end
        invariant
            start <= i <= end <= nets@.len(),
            r@ == nets@.subrange(start as int, i as int),
        decreases end - i,
    {
        r.push(nets[i]);
        i += 1;
        assert(r@ =~= nets@.subrange(start as int, i as int));
    }
    r
}

/// What offering best routes to a neighbor comes to: their attributes are
/// interned, they become its pre-policy routes, and export policies are to be
/// applied to them.
pub open spec fn advertised<A: AddressFamily>(
    table: TableView,
    old_table: TableView,
    nbr: Neighbor,
    offers: Seq<Offer>,
    shared: Shared,
    msgs: Seq<PolicyApplyMsg>,
    old_sets: AttrSetsCxt,
    sets: AttrSetsCxt,
    attrs: Seq<Arc<RouteAttrs>>,
    keys: Seq<ExportKey>,
) -> bool {
    &&& attrs.len() == offers.len()
    &&& got_all(old_sets, sets, attrs)
    &&& forall|i: int| 0 <= i < offers.len() ==> offer_attrs::<A>(#[trigger] attrs[i], offers[i], nbr.session)
    &&& table == offer_all(old_table, nbr.session.index, offers, attrs)
    &&& group_keys(keys, offers, attrs)
    &&& requests_made::<A>(msgs, nbr, shared, all_requests(nbr.session.remote_addr, keys, offers, attrs))
}

/// Advertises best routes to a neighbor. Returns the requests to apply its
/// export policies: routes that share origin, type and attributes are grouped,
/// and large groups are split into batches of a fixed size.
pub fn advertise_routes<A: AddressFamily>(
    nbr: &Neighbor,
    table: &mut RoutingTable,
    routes: &Vec<Offer>,
    attr_sets: &mut AttrSetsCxt,
    shared: &Shared,
) -> (msgs: Vec<PolicyApplyMsg>)
    requires
        nbr.session.conn_info is Some,
        export_policies_known(nbr.config@, A::family(), *shared),
        forall|i: int|
            #![trigger routes@[i]]
            0 <= i < routes@.len() ==> routes@[i].prefix.valid() && old(table)@.prefixes.contains_key(
                routes@[i].prefix.masked(),
            ),
        old(attr_sets).wf(),
        old(attr_sets).room(routes@.len()),
    ensures
        exists|attrs: Seq<Arc<RouteAttrs>>, keys: Seq<ExportKey>|
            {
                &&& #[trigger] advertised::<A>(
                    final(table)@,
                    old(table)@,
                    *nbr,
                    routes@,
                    *shared,
                    msgs@,
                    *old(attr_sets),
                    *final(attr_sets),
                    attrs,
                    keys,
                )
                &&& all_shared(*final(attr_sets), attrs)
            },
        final(table)@.prefixes.dom() == old(table)@.prefixes.dom(),
        final(attr_sets).wf(),
        keeps_shared(*old(attr_sets), *final(attr_sets)),
        spends(*old(attr_sets), *final(attr_sets), routes@.len()),
{
    // Update pre-policy Adj-RIB-Out routes, grouping prefixes whose routes
    // share the same origin, type and interned attribute set so a single
    // route policy info is carried per distinct set.
    let index = nbr.session.index;
    let mut groups: Table<ExportKey, ExportGroup> = Table::new();
    let ghost mut attrs: Seq<Arc<RouteAttrs>> = Seq::empty();
    let mut i: usize = 0;
    proof {
        assert(routes@.take(0) =~= Seq::empty());
        got_none(*attr_sets);
    }
    while i < routes.len()
        invariant
            i <= routes@.len(),
            nbr.session.conn_info is Some,
            index == nbr.session.index,
            forall|i: int|
                #![trigger routes@[i]]
                0 <= i < routes@.len() ==> routes@[i].prefix.valid() && old(table)@.prefixes.contains_key(
                    routes@[i].prefix.masked(),
                ),
            attr_sets.wf(),
            attr_sets.room((routes@.len() - i) as nat),
            got_all(*old(attr_sets), *attr_sets, attrs),
            attrs.len() == i,
            forall|k: int| 0 <= k < i ==> offer_attrs::<A>(#[trigger] attrs[k], routes@[k], nbr.session),
            table@ == offer_all(old(table)@, index, routes@.take(i as int), attrs),
            table@.prefixes.dom() == old(table)@.prefixes.dom(),
            groups_collected(groups@, routes@.take(i as int), attrs),
        decreases routes@.len() - i,
    {
        let offer = &routes[i];
        let ghost done = routes@.take(i as int);
        let ghost sets0 = *attr_sets;
        assert(routes@[i as int] == *offer);

        // Update route's attributes before the export policies are applied.
        let mut a = offer.route.attrs.get();
        attrs_export_update::<A>(&mut a, &nbr.session, offer.route.origin.is_local());
        assert(attr_sets.room((routes@.len() - i) as nat));
        let route_attrs = attr_sets.get_route_attr_sets(&a);

        // Store the route in the neighbor's pre-policy Adj-RIB-Out.
        store_offer(table, index, offer, &route_attrs);

        // Add the prefix to the group matching the route's attribute set.
        add_to_group(&mut groups, offer, &route_attrs, Ghost(done), Ghost(attrs));
        proof {
            let next = routes@.take(i + 1);
            let old_attrs = attrs;
            attrs = attrs.push(route_attrs);
            assert(next =~= done.push(*offer));
            assert(next.drop_last() =~= done);
            offer_all_prefix(old(table)@, index, done, old_attrs, attrs);
            got_more(*old(attr_sets), sets0, *attr_sets, old_attrs, route_attrs);
            assert forall|k: int| 0 <= k < i + 1 implies offer_attrs::<A>(
                #[trigger] attrs[k],
                routes@[k],
                nbr.session,
            ) by {
                if k < i {
                    assert(attrs[k] == old_attrs[k]);
                }
            }
        }
        i += 1;
    }
    assert(routes@.take(i as int) =~= routes@);

    // Enqueue export policy application, one message per group. Large groups
    // are split into fixed-size batches so their processing is spread across
    // all policy tasks.
    let mut msgs: Vec<PolicyApplyMsg> = Vec::new();
    let n = groups.len();
    let ghost keys = groups.keys();
    let ghost nbr_addr = nbr.session.remote_addr;
    let mut j: usize = 0;
    assert(keys.take(0) =~= Seq::empty());
    while j < n
        invariant
            j <= n,
            n == keys.len(),
            keys == groups.keys(),
            groups.keys_sorted(),
            nbr_addr == nbr.session.remote_addr,
            export_policies_known(nbr.config@, A::family(), *shared),
            groups_collected(groups@, routes@, attrs),
            requests_made::<A>(msgs@, *nbr, *shared, all_requests(nbr_addr, keys.take(j as int), routes@, attrs)),
        decreases n - j,
    {
        let key = *groups.key_at(j);
        let group = groups.value_at(j);
        proof {
            assert(key == keys[j as int]);
            assert(keys.to_set().contains(key));
            assert(groups@.contains_key(key));
            assert(keys.take(j + 1).drop_last() =~= keys.take(j as int));
        }
        push_requests::<A>(
            &mut msgs,
            nbr,
            shared,
            key,
            group,
            Ghost(all_requests(nbr_addr, keys.take(j as int), routes@, attrs)),
        );
        j += 1;
    }
    proof {
        assert(keys.take(j as int) =~= keys);
        assert forall|k: ExportKey| #[trigger] keys.contains(k) == (offered(routes@, attrs, k).len() > 0) by {
            assert(keys.to_set().contains(k) == groups@.contains_key(k));
        }
        interning_shares(*old(attr_sets), *attr_sets, attrs);
        assert(advertised::<A>(
            table@,
            old(table)@,
            *nbr,
            routes@,
            *shared,
            msgs@,
            *old(attr_sets),
            *attr_sets,
            attrs,
            keys,
        ));
    }
    msgs
}

// ===== laws =====

/// Whether an offer belongs to a group.
pub open spec fn in_group(offers: Seq<Offer>, attrs: Seq<Arc<RouteAttrs>>, key: ExportKey, i: int) -> bool {
    0 <= i < offers.len() && export_key(offers[i], attrs[i]) == key
}

proof fn offered_member(offers: Seq<Offer>, attrs: Seq<Arc<RouteAttrs>>, key: ExportKey, x: int)
    requires
        0 <= x < offered(offers, attrs, key).len(),
    ensures
        exists|i: int|
            #[trigger] in_group(offers, attrs, key, i) && offers[i].prefix == offered(offers, attrs, key)[x],
    decreases offers.len(),
{
    let front = offers.drop_last();
    if x < offered(front, attrs, key).len() {
        offered_member(front, attrs, key, x);
        let i = choose|i: int|
            #[trigger] in_group(front, attrs, key, i) && front[i].prefix == offered(front, attrs, key)[x];
        assert(in_group(offers, attrs, key, i));
    } else {
        assert(in_group(offers, attrs, key, offers.len() - 1));
    }
}

proof fn offered_has(offers: Seq<Offer>, attrs: Seq<Arc<RouteAttrs>>, key: ExportKey, i: int)
    requires
        in_group(offers, attrs, key, i),
    ensures
        offered(offers, attrs, key).contains(offers[i].prefix),
    decreases offers.len(),
{
    let front = offered(offers.drop_last(), attrs, key);
    let all = offered(offers, attrs, key);
    if i < offers.len() - 1 {
        offered_has(offers.drop_last(), attrs, key, i);
        let x = choose|x: int| 0 <= x < front.len() && front[x] == offers[i].prefix;
        assert(all[x] == offers[i].prefix);
    } else {
        assert(all[front.len() as int] == offers[i].prefix);
    }
}

proof fn group_attrs_member(offers: Seq<Offer>, attrs: Seq<Arc<RouteAttrs>>, key: ExportKey)
    requires
        offered(offers, attrs, key).len() > 0,
    ensures
        exists|i: int|
            #[trigger] in_group(offers, attrs, key, i) && group_attrs(offers, attrs, key) == attrs[i].attrs(),
    decreases offers.len(),
{
    let front = offers.drop_last();
    if offered(front, attrs, key).len() > 0 {
        group_attrs_member(front, attrs, key);
        let i = choose|i: int|
            #[trigger] in_group(front, attrs, key, i) && group_attrs(front, attrs, key) == attrs[i].attrs();
        assert(in_group(offers, attrs, key, i));
    } else {
        assert(in_group(offers, attrs, key, offers.len() - 1));
    }
}

proof fn batch_member(s: Seq<IpNetwork>, size: nat, b: int, x: int)
    requires
        size > 0,
        0 <= b < batched(s, size).len(),
        0 <= x < batched(s, size)[b].len(),
    ensures
        s.contains(batched(s, size)[b][x]),
    decreases s.len(),
{
    if s.len() <= size {
        assert(s[x] == batched(s, size)[b][x]);
    } else if b == 0 {
        assert(s[x] == batched(s, size)[b][x]);
    } else {
        let rest = s.skip(size as int);
        assert(batched(s, size)[b] == batched(rest, size)[b - 1]);
        batch_member(rest, size, b - 1, x);
        let y = rest.index_of(batched(rest, size)[b - 1][x]);
        assert(s[size + y] == rest[y]);
    }
}

/// Whether a batch holds a value.
spec fn batch_holds(s: Seq<IpNetwork>, size: nat, b: int, p: IpNetwork) -> bool {
    0 <= b < batched(s, size).len() && batched(s, size)[b].contains(p)
}

proof fn batch_has(s: Seq<IpNetwork>, size: nat, p: IpNetwork)
    requires
        size > 0,
        s.contains(p),
    ensures
        exists|b: int| #[trigger] batch_holds(s, size, b, p),
    decreases s.len(),
{
    let y = s.index_of(p);
    if s.len() <= size {
        assert(batched(s, size)[0] == s);
        assert(batch_holds(s, size, 0, p));
    } else if y < size {
        assert(batched(s, size)[0][y] == p);
        assert(batch_holds(s, size, 0, p));
    } else {
        let rest = s.skip(size as int);
        assert(rest[y - size] == p);
        batch_has(rest, size, p);
        let b = choose|b: int| #[trigger] batch_holds(rest, size, b, p);
        assert(batched(s, size)[b + 1] == batched(rest, size)[b]);
        assert(batch_holds(s, size, b + 1, p));
    }
}

proof fn request_member(
    nbr_addr: IpAddr,
    keys: Seq<ExportKey>,
    offers: Seq<Offer>,
    attrs: Seq<Arc<RouteAttrs>>,
    m: int,
)
    requires
        0 <= m < all_requests(nbr_addr, keys, offers, attrs).len(),
    ensures
        ({
            let r = all_requests(nbr_addr, keys, offers, attrs)[m];
            &&& keys.contains(r.key)
            &&& r.attrs == group_attrs(offers, attrs, r.key)
            &&& forall|x: int|
                0 <= x < r.prefixes.len() ==> offered(offers, attrs, r.key).contains(#[trigger] r.prefixes[x])
        }),
    decreases keys.len(),
{
    let front = all_requests(nbr_addr, keys.drop_last(), offers, attrs);
    let r = all_requests(nbr_addr, keys, offers, attrs)[m];
    if m < front.len() {
        request_member(nbr_addr, keys.drop_last(), offers, attrs, m);
        let i = keys.drop_last().index_of(r.key);
        assert(keys[i] == r.key);
    } else {
        let key = keys.last();
        let nets = offered(offers, attrs, key);
        let size = POLICY_APPLY_BATCH_SIZE_MAX as nat;
        assert(keys[keys.len() - 1] == key);
        assert(r.prefixes == batched(nets, size)[m - front.len()]);
        assert forall|x: int| 0 <= x < r.prefixes.len() implies nets.contains(#[trigger] r.prefixes[x]) by {
            batch_member(nets, size, m - front.len(), x);
        }
    }
}

/// Whether a request is about a prefix of a group.
spec fn requests_prefix(requests: Seq<ExportRequest>, m: int, key: ExportKey, p: IpNetwork) -> bool {
    0 <= m < requests.len() && requests[m].key == key && requests[m].prefixes.contains(p)
}

proof fn request_has(
    nbr_addr: IpAddr,
    keys: Seq<ExportKey>,
    offers: Seq<Offer>,
    attrs: Seq<Arc<RouteAttrs>>,
    key: ExportKey,
    p: IpNetwork,
)
    requires
        keys.contains(key),
        offered(offers, attrs, key).contains(p),
    ensures
        exists|m: int| #[trigger] requests_prefix(all_requests(nbr_addr, keys, offers, attrs), m, key, p),
    decreases keys.len(),
{
    let all = all_requests(nbr_addr, keys, offers, attrs);
    let front = all_requests(nbr_addr, keys.drop_last(), offers, attrs);
    if keys.last() == key {
        let nets = offered(offers, attrs, key);
        let size = POLICY_APPLY_BATCH_SIZE_MAX as nat;
        batch_has(nets, size, p);
        let b = choose|b: int| #[trigger] batch_holds(nets, size, b, p);
        assert(all[front.len() + b].prefixes == batched(nets, size)[b]);
        assert(requests_prefix(all, front.len() + b, key, p));
    } else {
        let i = keys.index_of(key);
        assert(keys.drop_last()[i] == key);
        request_has(nbr_addr, keys.drop_last(), offers, attrs, key, p);
        let m = choose|m: int| #[trigger] requests_prefix(front, m, key, p);
        assert(all[m] == front[m]);
        assert(requests_prefix(all, m, key, p));
    }
}

/// What the export policies of a neighbor are to see of an offer.
pub open spec fn offer_info<A: AddressFamily>(offer: Offer, nbr: Session) -> RoutePolicyView {
    RoutePolicyView {
        origin: offer.route.origin,
        route_type: offer.route.route_type,
        tag: None,
        opaque_attrs: None,
        igp_metric: None,
        attrs: exported::<A>(offer.route.attrs.attrs(), nbr, offer.route.origin.local()),
    }
}

/// Whether a request is about an offer: its prefix is among those of the request,
/// which carries what the export policies are to see of the offer.
pub open spec fn asks_about<A: AddressFamily>(msg: PolicyApplyMsg, offer: Offer, nbr: Session) -> bool {
    msg.prefixes@.contains(offer.prefix) && msg.route@ == offer_info::<A>(offer, nbr)
}

/// Two offers are handed to the export policies together exactly if they have the
/// same origin, type and exported attributes.
pub proof fn groups_follow_attributes<A: AddressFamily>(
    table: TableView,
    old_table: TableView,
    nbr: Neighbor,
    offers: Seq<Offer>,
    shared: Shared,
    msgs: Seq<PolicyApplyMsg>,
    old_sets: AttrSetsCxt,
    sets: AttrSetsCxt,
    attrs: Seq<Arc<RouteAttrs>>,
    keys: Seq<ExportKey>,
    i: int,
    j: int,
)
    requires
        old_sets.wf(),
        advertised::<A>(table, old_table, nbr, offers, shared, msgs, old_sets, sets, attrs, keys),
        0 <= i < offers.len(),
        0 <= j < offers.len(),
    ensures
        export_key(offers[i], attrs[i]) == export_key(offers[j], attrs[j]) <==> offer_info::<A>(
            offers[i],
            nbr.session,
        ) == offer_info::<A>(offers[j], nbr.session),
{
    assert(offer_attrs::<A>(attrs[i], offers[i], nbr.session));
    assert(offer_attrs::<A>(attrs[j], offers[j], nbr.session));
    interned_keys_identify(old_sets, sets, attrs, i, j);
}

/// Every prefix of every request is that of an offer whose own origin, type and
/// exported attributes the request carries.
pub proof fn requests_carry_own_attributes<A: AddressFamily>(
    table: TableView,
    old_table: TableView,
    nbr: Neighbor,
    offers: Seq<Offer>,
    shared: Shared,
    msgs: Seq<PolicyApplyMsg>,
    old_sets: AttrSetsCxt,
    sets: AttrSetsCxt,
    attrs: Seq<Arc<RouteAttrs>>,
    keys: Seq<ExportKey>,
    m: int,
    x: int,
)
    requires
        old_sets.wf(),
        advertised::<A>(table, old_table, nbr, offers, shared, msgs, old_sets, sets, attrs, keys),
        0 <= m < msgs.len(),
        0 <= x < msgs[m].prefixes@.len(),
    ensures
        exists|i: int|
            #![trigger offers[i]]
            0 <= i < offers.len() && offers[i].prefix == msgs[m].prefixes@[x] && asks_about::<A>(
                msgs[m],
                offers[i],
                nbr.session,
            ),
{
    let requests = all_requests(nbr.session.remote_addr, keys, offers, attrs);
    let r = requests[m];
    assert(export_request::<A>(msgs[m], nbr, shared, r));
    request_member(nbr.session.remote_addr, keys, offers, attrs, m);
    let nets = offered(offers, attrs, r.key);
    assert(nets.contains(r.prefixes[x]));
    let y = nets.index_of(r.prefixes[x]);
    offered_member(offers, attrs, r.key, y);
    let i = choose|i: int| #[trigger] in_group(offers, attrs, r.key, i) && offers[i].prefix == nets[y];
    group_attrs_member(offers, attrs, r.key);
    let k = choose|k: int|
        #[trigger] in_group(offers, attrs, r.key, k) && group_attrs(offers, attrs, r.key) == attrs[k].attrs();
    assert(offer_attrs::<A>(attrs[i], offers[i], nbr.session));
    interned_keys_identify(old_sets, sets, attrs, i, k);
    assert(msgs[m].prefixes@[x] == offers[i].prefix);
    assert(asks_about::<A>(msgs[m], offers[i], nbr.session));
}

/// Every offer is asked about.
pub proof fn offers_are_asked_about<A: AddressFamily>(
    table: TableView,
    old_table: TableView,
    nbr: Neighbor,
    offers: Seq<Offer>,
    shared: Shared,
    msgs: Seq<PolicyApplyMsg>,
    old_sets: AttrSetsCxt,
    sets: AttrSetsCxt,
    attrs: Seq<Arc<RouteAttrs>>,
    keys: Seq<ExportKey>,
    i: int,
)
    requires
        old_sets.wf(),
        advertised::<A>(table, old_table, nbr, offers, shared, msgs, old_sets, sets, attrs, keys),
        0 <= i < offers.len(),
    ensures
        exists|m: int| #![trigger msgs[m]] 0 <= m < msgs.len() && asks_about::<A>(msgs[m], offers[i], nbr.session),
{
    let requests = all_requests(nbr.session.remote_addr, keys, offers, attrs);
    let key = export_key(offers[i], attrs[i]);
    assert(in_group(offers, attrs, key, i));
    offered_has(offers, attrs, key, i);
    assert(keys.contains(key));
    request_has(nbr.session.remote_addr, keys, offers, attrs, key, offers[i].prefix);
    let m = choose|m: int| #[trigger] requests_prefix(requests, m, key, offers[i].prefix);
    assert(export_request::<A>(msgs[m], nbr, shared, requests[m]));
    request_member(nbr.session.remote_addr, keys, offers, attrs, m);
    group_attrs_member(offers, attrs, key);
    let k = choose|k: int|
        #[trigger] in_group(offers, attrs, key, k) && group_attrs(offers, attrs, key) == attrs[k].attrs();
    assert(offer_attrs::<A>(attrs[i], offers[i], nbr.session));
    interned_keys_identify(old_sets, sets, attrs, i, k);
    assert(asks_about::<A>(msgs[m], offers[i], nbr.session));
}

/// Whether a route is the one that a neighbor was sent for a network.
pub open spec fn was_sent(t: TableView, index: PeerIndex, k: IpNetwork, route: Route) -> bool {
    known_routes(t, index, k) matches Some(adj_rib) && adj_rib.spec_out_post() == Some(route)
}

/// Whether a prefix waits to be advertised with the given attributes.
pub open spec fn waits_with(queue: QueueView, attrs: AttrsView, prefix: IpNetwork) -> bool {
    queue.reach.contains_key(attrs) && queue.reach[attrs].contains(prefix)
}

/// Whether the same updates of a network wait in two queues.
pub open spec fn same_updates(a: QueueView, b: QueueView, k: IpNetwork) -> bool {
    &&& forall|p: IpNetwork| p.masked() == k ==> #[trigger] a.unreach.contains(p) == b.unreach.contains(p)
    &&& forall|p: IpNetwork, attrs: AttrsView|
        p.masked() == k ==> #[trigger] waits_with(a, attrs, p) == waits_with(b, attrs, p)
}

proof fn same_updates_still(a: QueueView, b: QueueView, c: QueueView, k: IpNetwork)
    requires
        same_updates(a, b, k),
        same_updates(b, c, k),
    ensures
        same_updates(a, c, k),
{
    assert forall|p: IpNetwork| p.masked() == k implies #[trigger] a.unreach.contains(p) == c.unreach.contains(p) by {
        assert(b.unreach.contains(p) == c.unreach.contains(p));
    }
    assert forall|p: IpNetwork, attrs: AttrsView| p.masked() == k implies #[trigger] waits_with(a, attrs, p)
        == waits_with(c, attrs, p) by {
        assert(waits_with(b, attrs, p) == waits_with(c, attrs, p));
    }
}

/// Whether prefixes are about a network.
pub open spec fn concerns(prefixes: Seq<IpNetwork>, k: IpNetwork) -> bool {
    exists|x: int| 0 <= x < prefixes.len() && (#[trigger] prefixes[x]).masked() == k
}

/// Whether there is a route with the same sets of attributes as one that was
/// sent.
spec fn same_route(route: Option<Route>, sent: Route) -> bool {
    route matches Some(route) && same_attrs(sent, route)
}

/// Whether export policies accept a route with the attributes that it was sent
/// with.
pub open spec fn accepts_again(result: PolicyResult<RoutePolicyInfo>, sent: Route) -> bool {
    result matches PolicyResult::Accept(rpinfo) && rpinfo@.attrs == sent.attrs.attrs()
}

proof fn accept_all_quiet(
    t: TableView,
    index: PeerIndex,
    prefixes: Seq<IpNetwork>,
    route: Route,
    k: IpNetwork,
    sent: Route,
)
    requires
        was_sent(t, index, k, sent),
        concerns(prefixes, k) ==> same_attrs(sent, route),
    ensures
        was_sent(accept_all(t, index, prefixes, route).table, index, k, sent),
        forall|y: int|
            0 <= y < accept_all(t, index, prefixes, route).advertise.len() ==> (#[trigger] accept_all(
                t,
                index,
                prefixes,
                route,
            ).advertise[y]).masked() != k,
    decreases prefixes.len(),
{
    if prefixes.len() > 0 {
        let front = prefixes.drop_last();
        if concerns(front, k) {
            let x = choose|x: int| 0 <= x < front.len() && (#[trigger] front[x]).masked() == k;
            assert(prefixes[x].masked() == k);
        }
        accept_all_quiet(t, index, front, route, k, sent);
        if prefixes.last().masked() == k {
            assert(prefixes[prefixes.len() - 1].masked() == k);
            assert(concerns(prefixes, k));
        }
        let a = accept_all(t, index, front, route);
        let b = accept_all(t, index, prefixes, route);
        assert forall|y: int| 0 <= y < b.advertise.len() implies (#[trigger] b.advertise[y]).masked() != k by {
            if y < a.advertise.len() {
                assert(a.advertise[y].masked() != k);
            }
        }
    }
}

proof fn reject_all_quiet(o: Outgoing, index: PeerIndex, prefixes: Seq<IpNetwork>, k: IpNetwork, sent: Route)
    requires
        was_sent(o.table, index, k, sent),
        !concerns(prefixes, k),
    ensures
        was_sent(reject_all(o, index, prefixes).table, index, k, sent),
        same_updates(reject_all(o, index, prefixes).queue, o.queue, k),
    decreases prefixes.len(),
{
    if prefixes.len() > 0 {
        let front = prefixes.drop_last();
        if concerns(front, k) {
            let x = choose|x: int| 0 <= x < front.len() && (#[trigger] front[x]).masked() == k;
            assert(prefixes[x].masked() == k);
        }
        reject_all_quiet(o, index, front, k, sent);
        assert(prefixes[prefixes.len() - 1].masked() != k);
        let mid = reject_all(o, index, front).queue;
        let end = reject_all(o, index, prefixes).queue;
        assert(end.reach == mid.reach);
        same_updates_still(end, mid, o.queue, k);
    }
}

proof fn groups_quiet(
    o: Outgoing,
    nbr: Session,
    groups: Seq<PolicyGroup>,
    routes: Seq<Option<Route>>,
    local_asn: u32,
    k: IpNetwork,
    sent: Route,
)
    requires
        was_sent(o.table, nbr.index, k, sent),
        routes.len() >= groups.len(),
        forall|i: int|
            #![trigger groups[i]]
            0 <= i < groups.len() ==> (groups[i].result is Accept <==> routes[i] is Some),
        forall|i: int|
            #![trigger groups[i]]
            0 <= i < groups.len() && concerns(groups[i].prefixes@, k) ==> same_route(routes[i], sent),
    ensures
        was_sent(export_groups(o, nbr, groups, routes, local_asn).table, nbr.index, k, sent),
        same_updates(export_groups(o, nbr, groups, routes, local_asn).queue, o.queue, k),
    decreases groups.len(),
{
    if groups.len() > 0 {
        let front = groups.drop_last();
        assert forall|i: int| #![trigger front[i]] 0 <= i < front.len() implies (front[i].result is Accept
            <==> routes[i] is Some) && (concerns(front[i].prefixes@, k) ==> same_route(routes[i], sent)) by {
            assert(groups[i] == front[i]);
        }
        groups_quiet(o, nbr, front, routes, local_asn, k, sent);
        let mid = export_groups(o, nbr, front, routes, local_asn);
        let i = groups.len() - 1;
        let group = groups[i];
        match routes[i] {
            Some(route) => {
                accept_all_quiet(mid.table, nbr.index, group.prefixes@, route, k, sent);
                let a = accept_all(mid.table, nbr.index, group.prefixes@, route);
                assert forall|p: IpNetwork| #[trigger] p.masked() == k implies !a.advertise.to_set().contains(p) by {
                    if a.advertise.contains(p) {
                        let y = a.advertise.index_of(p);
                        assert(a.advertise[y].masked() != k);
                    }
                }
            },
            None => {
                reject_all_quiet(mid, nbr.index, group.prefixes@, k, sent);
            },
        }
        same_updates_still(export_groups(o, nbr, groups, routes, local_asn).queue, mid.queue, o.queue, k);
    }
}

/// A network whose route was sent before, and which the export policies accept
/// with the attributes that it was sent with, is not advertised again: the same
/// updates of it wait as before, and the route that was sent stays.
pub proof fn unchanged_routes_are_not_advertised<A: AddressFamily>(
    rib: Rib,
    old_rib: Rib,
    queue: QueueView,
    old_queue: QueueView,
    nbr: Session,
    groups: Seq<PolicyGroup>,
    routes: Seq<Option<Route>>,
    local_asn: u32,
    now: Instant,
    k: IpNetwork,
    sent: Route,
)
    requires
        old_rib.attr_sets.wf(),
        routes_for(routes, groups, now),
        exported_groups::<A>(rib, old_rib, queue, old_queue, nbr, groups, routes, local_asn),
        was_sent(A::table_of(old_rib.tables)@, nbr.index, k, sent),
        old_rib.attr_sets.shares(sent.attrs),
        forall|i: int|
            #![trigger groups[i]]
            0 <= i < groups.len() && concerns(groups[i].prefixes@, k) ==> accepts_again(groups[i].result, sent),
    ensures
        was_sent(A::table_of(rib.tables)@, nbr.index, k, sent),
        same_updates(queue, old_queue, k),
{
    let sets = rib.attr_sets;
    let all = attrs_of_routes(routes);
    interning_shares(old_rib.attr_sets, sets, all);
    assert(sets.shares(sent.attrs));
    assert forall|i: int| #![trigger groups[i]] 0 <= i < groups.len() implies (groups[i].result is Accept <==> routes[i]
        is Some) && (concerns(groups[i].prefixes@, k) ==> same_route(routes[i], sent)) by {
        assert(route_for(routes[i], groups[i].result, now));
        if concerns(groups[i].prefixes@, k) {
            attrs_of_routes_has(routes, i);
            let y = all.index_of(routes[i]->0.attrs);
            assert(sets.shares(all[y]));
            keys_identify(sets, sent.attrs, routes[i]->0.attrs);
        }
    }
    groups_quiet(
        Outgoing { table: A::table_of(old_rib.tables)@, queue: old_queue },
        nbr,
        groups,
        routes,
        local_asn,
        k,
        sent,
    );
}

} // verus!
