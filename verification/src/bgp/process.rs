//! The Decision Process as a whole.

use std::sync::Arc;

use vstd::prelude::*;

use crate::bgp::af::{AddressFamily, Ipv4Unicast, Ipv6Unicast};
use crate::bgp::configuration::{InstanceCfg, Neighbor};
use crate::bgp::decision::{
    after_withdrawal, dest_ready, disseminate, disseminated, multipath_of, offers_for, offers_stored, prunable,
    prune_prefixes, receives, select_routes, selection_of, selection_run, was_queued, withdrawals_for, Selection,
    SelectionCxt,
};
use crate::bgp::events::{all_valid, export_policies_known, PolicyApplyMsg, Shared};
use crate::bgp::export::{
    advertised, asks_about, offers_are_asked_about, requests_carry_own_attributes, ExportKey, Offer, Outgoing,
    QueueView,
};
use crate::bgp::intern::{interning_shares, keeps_shared, spends, swept, AttrSetsCxt, Counts, RouteAttrs};
use crate::bgp::neighbor::{NeighborUpdateQueue, Session};
use crate::bgp::rib::{BestRoute, IbusMsg, Rib, RoutingTable, TableView};
use crate::collections::{views, Table};
use crate::ip::{IpAddr, IpNetwork};

verus! {

// ===== dissemination to all neighbors =====

/// What the dissemination went through: the routing table and the interned
/// attributes before the first neighbor and after each, what the distribution
/// filter of each neighbor said of the best routes, and the requests made for
/// each.
pub struct Rounds {
    pub tables: Seq<TableView>,
    pub sets: Seq<AttrSetsCxt>,
    pub verdicts: Seq<Seq<bool>>,
    pub requests: Seq<Seq<PolicyApplyMsg>>,
}

/// All requests, one neighbor after the other.
pub open spec fn joined(requests: Seq<Seq<PolicyApplyMsg>>) -> Seq<PolicyApplyMsg>
    decreases requests.len(),
{
    if requests.len() == 0 {
        Seq::empty()
    } else {
        joined(requests.drop_last()) + requests.last()
    }
}

/// What waits for each neighbor.
pub open spec fn queue_views(queues: Seq<NeighborUpdateQueue>) -> Seq<QueueView> {
    Seq::new(queues.len(), |j: int| queues[j]@)
}

/// The neighbors in the order of their addresses.
pub open spec fn in_order(neighbors: Table<IpAddr, Neighbor>) -> Seq<Neighbor> {
    Seq::new(neighbors.keys().len(), |j: int| neighbors@[neighbors.keys()[j]])
}

/// What the dissemination to one neighbor comes to.
pub open spec fn round<A: AddressFamily>(
    nbr: Neighbor,
    before: Outgoing,
    after: Outgoing,
    reach: Seq<Offer>,
    unreach: Seq<IpNetwork>,
    verdicts: Seq<bool>,
    shared: Shared,
    msgs: Seq<PolicyApplyMsg>,
    old_sets: AttrSetsCxt,
    sets: AttrSetsCxt,
) -> bool {
    if receives::<A>(nbr) {
        let mid = after_withdrawal(before, nbr.session.index, withdrawals_for(reach, unreach, verdicts));
        &&& after.queue == mid.queue
        &&& disseminated::<A>(after.table, mid, nbr, offers_for(reach, verdicts), shared, msgs, old_sets, sets)
    } else {
        after == before && msgs.len() == 0 && sets == old_sets
    }
}

/// Whether these are the verdicts of the distribution filter of a neighbor, if
/// it is asked.
pub open spec fn judged<A: AddressFamily, F: Fn(&Neighbor, &BestRoute) -> bool>(
    filter: F,
    nbr: Neighbor,
    reach: Seq<Offer>,
    verdicts: Seq<bool>,
) -> bool {
    receives::<A>(nbr) ==> verdicts.len() == reach.len() && forall|i: int|
        0 <= i < reach.len() ==> call_ensures(filter, (&nbr, &reach[i].route), #[trigger] verdicts[i])
}

/// Whether the dissemination went through the neighbors in order.
pub open spec fn rounds_run<A: AddressFamily, F: Fn(&Neighbor, &BestRoute) -> bool>(
    filter: F,
    nbrs: Seq<Neighbor>,
    queues: Seq<QueueView>,
    next_queues: Seq<QueueView>,
    reach: Seq<Offer>,
    unreach: Seq<IpNetwork>,
    shared: Shared,
    r: Rounds,
) -> bool {
    &&& r.tables.len() == nbrs.len() + 1
    &&& r.sets.len() == nbrs.len() + 1
    &&& r.verdicts.len() == nbrs.len()
    &&& r.requests.len() == nbrs.len()
    &&& forall|j: int|
        #![trigger nbrs[j]]
        0 <= j < nbrs.len() ==> judged::<A, F>(filter, nbrs[j], reach, r.verdicts[j]) && round::<A>(
            nbrs[j],
            Outgoing { table: r.tables[j], queue: queues[j] },
            Outgoing { table: r.tables[j + 1], queue: next_queues[j] },
            reach,
            unreach,
            r.verdicts[j],
            shared,
            r.requests[j],
            r.sets[j],
            r.sets[j + 1],
        )
}

/// Asks the distribution filter of a neighbor about each best route.
fn judge<A: AddressFamily, F: Fn(&Neighbor, &BestRoute) -> bool>(
    filter: &F,
    nbr: &Neighbor,
    reach: &Vec<Offer>,
) -> (verdicts: Vec<bool>)
    requires
        forall|n: &Neighbor, r: &BestRoute| call_requires(*filter, (n, r)),
    ensures
        judged::<A, F>(*filter, *nbr, reach@, verdicts@),
        verdicts@.len() == reach@.len(),
{
    let mut verdicts: Vec<bool> = Vec::new();
    let mut i: usize = 0;
    while i < reach.len()
        invariant
            i <= reach@.len(),
            verdicts@.len() == i,
            forall|n: &Neighbor, r: &BestRoute| call_requires(*filter, (n, r)),
            forall|k: int| 0 <= k < i ==> call_ensures(*filter, (nbr, &reach@[k].route), #[trigger] verdicts@[k]),
        decreases reach@.len() - i,
    {
        let offer = &reach[i];
        let verdict = filter(nbr, &offer.route);
        verdicts.push(verdict);
        i = i + 1;
    }
    verdicts
}

/// Whether routes can be disseminated to a neighbor that receives any.
pub open spec fn can_receive<A: AddressFamily>(nbr: Neighbor, shared: Shared) -> bool {
    receives::<A>(nbr) ==> nbr.session.conn_info is Some && export_policies_known(nbr.config@, A::family(), shared)
}

proof fn spends_more(a: AttrSetsCxt, b: AttrSetsCxt, c: AttrSetsCxt, j: nat, q: nat)
    requires
        spends(a, b, j * q),
        spends(b, c, q),
    ensures
        spends(a, c, (j + 1) * q),
{
    assert((j + 1) * q == j * q + q) by (nonlinear_arith);
    assert forall|n: nat| n >= (j + 1) * q && #[trigger] a.room(n) implies c.room((n - (j + 1) * q) as nat) by {
        assert(b.room((n - j * q) as nat));
        assert(c.room((n - j * q - q) as nat));
    }
}

proof fn room_left(a: AttrSetsCxt, b: AttrSetsCxt, k: nat, q: nat, r: nat)
    requires
        k > 0,
        r <= q,
        a.room(k * q),
        forall|n: nat| n >= r && #[trigger] a.room(n) ==> b.room((n - r) as nat),
    ensures
        b.room(((k - 1) as nat) * q),
{
    assert(k * q == (k - 1) * q + q) by (nonlinear_arith);
    assert(b.room((k * q - r) as nat));
    assert(((k - 1) as nat) * q <= k * q - r);
}

/// Phase 3: Route Dissemination.
///
/// Disseminates routes to all neighbors, in the order of their addresses.
/// Returns the requests to apply export policies.
#[verifier::rlimit(100)]
fn disseminate_all<A: AddressFamily, F: Fn(&Neighbor, &BestRoute) -> bool>(
    neighbors: &Table<IpAddr, Neighbor>,
    queues: &mut Vec<NeighborUpdateQueue>,
    table: &mut RoutingTable,
    attr_sets: &mut AttrSetsCxt,
    shared: &Shared,
    reach: &Vec<Offer>,
    unreach: &Vec<IpNetwork>,
    filter: &F,
) -> (msgs: Vec<PolicyApplyMsg>)
    requires
        old(queues)@.len() == neighbors.keys().len(),
        forall|j: int| 0 <= j < in_order(*neighbors).len() ==> can_receive::<A>(
            #[trigger] in_order(*neighbors)[j],
            *shared,
        ),
        offers_stored(reach@, old(table)@.prefixes.dom()),
        all_valid(unreach@),
        old(attr_sets).wf(),
        old(attr_sets).room(neighbors.keys().len() * reach@.len()),
        forall|n: &Neighbor, r: &BestRoute| call_requires(*filter, (n, r)),
    ensures
        exists|r: Rounds|
            {
                &&& #[trigger] rounds_run::<A, F>(
                    *filter,
                    in_order(*neighbors),
                    queue_views(old(queues)@),
                    queue_views(final(queues)@),
                    reach@,
                    unreach@,
                    *shared,
                    r,
                )
                &&& r.tables[0] == old(table)@
                &&& r.tables.last() == final(table)@
                &&& r.sets[0] == *old(attr_sets)
                &&& r.sets.last() == *final(attr_sets)
                &&& msgs@ == joined(r.requests)
            },
        final(queues)@.len() == old(queues)@.len(),
        final(table)@.prefixes.dom() == old(table)@.prefixes.dom(),
        final(attr_sets).wf(),
        keeps_shared(*old(attr_sets), *final(attr_sets)),
        spends(*old(attr_sets), *final(attr_sets), neighbors.keys().len() * reach@.len()),
{
    let mut msgs: Vec<PolicyApplyMsg> = Vec::new();
    let ghost nbrs = in_order(*neighbors);
    let ghost q0 = queue_views(queues@);
    let ghost size = reach@.len();
    let ghost dom = table@.prefixes.dom();
    let ghost mut run = Rounds {
        tables: seq![table@],
        sets: seq![*attr_sets],
        verdicts: Seq::empty(),
        requests: Seq::empty(),
    };
    let n: usize = neighbors.len();
    let mut j: usize = 0;
    while j < n
        invariant
            j <= n,
            n == nbrs.len(),
            nbrs == in_order(*neighbors),
            n == neighbors.keys().len(),
            queues@.len() == n,
            q0.len() == n,
            size == reach@.len(),
            dom == table@.prefixes.dom(),
            forall|k: int| 0 <= k < nbrs.len() ==> can_receive::<A>(#[trigger] nbrs[k], *shared),
            offers_stored(reach@, dom),
            all_valid(unreach@),
            attr_sets.wf(),
            attr_sets.room(((n - j) as nat) * size),
            spends(*old(attr_sets), *attr_sets, (j as nat) * size),
            keeps_shared(*old(attr_sets), *attr_sets),
            run.sets.len() == j + 1,
            run.sets.last() == *attr_sets,
            run.sets[0] == *old(attr_sets),
            forall|n: &Neighbor, r: &BestRoute| call_requires(*filter, (n, r)),
            run.tables.len() == j + 1,
            run.tables.last() == table@,
            run.tables[0] == old(table)@,
            rounds_run::<A, F>(
                *filter,
                nbrs.take(j as int),
                q0,
                queue_views(queues@),
                reach@,
                unreach@,
                *shared,
                run,
            ),
            forall|k: int| j <= k < n ==> queues@[k]@ == #[trigger] q0[k],
            msgs@ == joined(run.requests),
        decreases n - j,
    {
        let nbr = neighbors.value_at(j);
        assert(*nbr == nbrs[j as int]);
        let ghost sets = *attr_sets;
        let ghost before = *table;
        let ghost queues0 = queues@;
        let verdicts = judge::<A, F>(filter, nbr, reach);
        proof {
            assert(((n - j) as nat) * size >= size) by (nonlinear_arith)
                requires
                    n - j >= 1,
            ;
            assert(attr_sets.room(size));
        }
        let queue = &mut queues[j];
        let mut more = disseminate::<A>(nbr, queue, table, attr_sets, shared, reach, unreach, &verdicts);
        let ghost requests = more@;
        msgs.append(&mut more);
        proof {
            let prev = run;
            run = Rounds {
                tables: prev.tables.push(table@),
                sets: prev.sets.push(*attr_sets),
                verdicts: prev.verdicts.push(verdicts@),
                requests: prev.requests.push(requests),
            };
            assert(run.requests.drop_last() =~= prev.requests);
            room_left(sets, *attr_sets, (n - j) as nat, size, size);
            spends_more(*old(attr_sets), sets, *attr_sets, j as nat, size);
            assert(nbrs.take(j + 1) =~= nbrs.take(j as int).push(*nbr));
            let views = queue_views(queues@);
            assert forall|k: int| #![trigger nbrs.take(j + 1)[k]] 0 <= k < j + 1 implies judged::<A, F>(
                *filter,
                nbrs.take(j + 1)[k],
                reach@,
                run.verdicts[k],
            ) && round::<A>(
                nbrs.take(j + 1)[k],
                Outgoing { table: run.tables[k], queue: q0[k] },
                Outgoing { table: run.tables[k + 1], queue: views[k] },
                reach@,
                unreach@,
                run.verdicts[k],
                *shared,
                run.requests[k],
                run.sets[k],
                run.sets[k + 1],
            ) by {
                if k < j {
                    assert(nbrs.take(j as int)[k] == nbrs.take(j + 1)[k]);
                    assert(views[k] == queue_views(queues0)[k]);
                    assert(run.tables[k] == prev.tables[k] && run.tables[k + 1] == prev.tables[k + 1]);
                    assert(run.sets[k] == prev.sets[k] && run.sets[k + 1] == prev.sets[k + 1]);
                    assert(run.verdicts[k] == prev.verdicts[k] && run.requests[k] == prev.requests[k]);
                } else {
                    assert(queues0[k]@ == q0[k]);
                }
            }
        }
        j = j + 1;
    }
    assert(nbrs.take(j as int) =~= nbrs);
    msgs
}

// ===== the process for one address family =====

/// What the selection of routes of an address family depends on besides the
/// table.
pub open spec fn selection_cxt<A: AddressFamily>(
    config: InstanceCfg,
    neighbors: Table<IpAddr, Neighbor>,
    table: RoutingTable,
) -> SelectionCxt {
    SelectionCxt {
        asn: config.asn,
        cfg: selection_of(config@, A::family()),
        mpath: multipath_of(config@, A::family()),
        distance: config.distance,
        nht: table.nht@,
        neighbors: neighbors@,
    }
}

/// Whether the best routes of all queued prefixes can be selected.
pub open spec fn table_ready<A: AddressFamily>(
    config: InstanceCfg,
    neighbors: Table<IpAddr, Neighbor>,
    table: RoutingTable,
) -> bool {
    forall|p: IpNetwork| #[trigger]
        table.queued_prefixes@.contains(p) ==> p.valid() && (table.prefixes@.contains_key(p.masked())
            ==> dest_ready::<A>(table.prefixes@[p.masked()], selection_cxt::<A>(config, neighbors, table)))
}

/// Whether the table differs from the one before in that queued prefixes that no
/// longer hold any data are gone.
pub open spec fn pruned(table: TableView, before: TableView, queued: Seq<IpNetwork>) -> bool {
    &&& forall|k: IpNetwork| #[trigger]
        table.prefixes.contains_key(k) == (before.prefixes.contains_key(k) && !(was_queued(queued, k) && prunable(
            before.prefixes[k],
        )))
    &&& forall|k: IpNetwork| #[trigger] table.prefixes.contains_key(k) ==> table.prefixes[k] == before.prefixes[k]
    &&& table.queued_prefixes == before.queued_prefixes
    &&& table.nht == before.nht
    &&& table.prefix_counters == before.prefix_counters
}

/// What the process for one address family went through.
pub struct Process {
    pub selection: Seq<Selection>,
    pub rounds: Rounds,
}

/// The routing table between selection and dissemination.
pub open spec fn table_selected(table: RoutingTable, s: Selection) -> TableView {
    TableView {
        prefixes: views(s.prefixes),
        queued_prefixes: Set::empty(),
        nht: views(table.nht@),
        prefix_counters: s.counters,
    }
}

/// Whether the process selected the best route of every queued prefix,
/// disseminated what has changed to all neighbors, and removed what no longer
/// holds any data.
pub open spec fn processed<A: AddressFamily, F: Fn(&Neighbor, &BestRoute) -> bool>(
    config: InstanceCfg,
    neighbors: Table<IpAddr, Neighbor>,
    shared: Shared,
    filter: F,
    old_table: RoutingTable,
    table: TableView,
    old_queues: Seq<NeighborUpdateQueue>,
    queues: Seq<NeighborUpdateQueue>,
    old_ibus: Seq<IbusMsg>,
    ibus: Seq<IbusMsg>,
    msgs: Seq<PolicyApplyMsg>,
    old_sets: AttrSetsCxt,
    sets: AttrSetsCxt,
    p: Process,
) -> bool {
    let queued = old_table.queued_prefixes.items();
    let last = p.selection.last();
    &&& selection_run::<A>(selection_cxt::<A>(config, neighbors, old_table), queued, p.selection)
    &&& p.selection[0] == (Selection {
        prefixes: old_table.prefixes@,
        counters: old_table.prefix_counters@,
        ibus: old_ibus,
        reach: Seq::empty(),
        unreach: Seq::empty(),
    })
    &&& ibus == last.ibus
    &&& rounds_run::<A, F>(
        filter,
        in_order(neighbors),
        queue_views(old_queues),
        queue_views(queues),
        last.reach,
        last.unreach,
        shared,
        p.rounds,
    )
    &&& p.rounds.tables[0] == table_selected(old_table, last)
    &&& p.rounds.sets[0] == old_sets
    &&& p.rounds.sets.last() == sets
    &&& msgs == joined(p.rounds.requests)
    &&& pruned(table, p.rounds.tables.last(), queued)
}

/// Runs the Decision Process for an address family. `queues` are the updates
/// waiting for each neighbor, in the order of their addresses, and `filter` is
/// the distribution filter. Returns the requests to apply export policies; the
/// UPDATE messages that are then queued are to be sent.
pub fn decision_process_af<A: AddressFamily, F: Fn(&Neighbor, &BestRoute) -> bool>(
    config: &InstanceCfg,
    neighbors: &Table<IpAddr, Neighbor>,
    queues: &mut Vec<NeighborUpdateQueue>,
    table: &mut RoutingTable,
    attr_sets: &mut AttrSetsCxt,
    shared: &Shared,
    filter: &F,
    ibus: &mut Vec<IbusMsg>,
) -> (msgs: Vec<PolicyApplyMsg>)
    requires
        table_ready::<A>(*config, *neighbors, *old(table)),
        old(queues)@.len() == neighbors.keys().len(),
        forall|j: int| 0 <= j < in_order(*neighbors).len() ==> can_receive::<A>(
            #[trigger] in_order(*neighbors)[j],
            *shared,
        ),
        old(attr_sets).wf(),
        old(attr_sets).room(neighbors.keys().len() * old(table).queued_prefixes.items().len()),
        forall|n: &Neighbor, r: &BestRoute| call_requires(*filter, (n, r)),
    ensures
        exists|p: Process|
            #[trigger] processed::<A, F>(
                *config,
                *neighbors,
                *shared,
                *filter,
                *old(table),
                final(table)@,
                old(queues)@,
                final(queues)@,
                old(ibus)@,
                final(ibus)@,
                msgs@,
                *old(attr_sets),
                *final(attr_sets),
                p,
            ),
        final(queues)@.len() == old(queues)@.len(),
        final(attr_sets).wf(),
        keeps_shared(*old(attr_sets), *final(attr_sets)),
        spends(
            *old(attr_sets),
            *final(attr_sets),
            neighbors.keys().len() * old(table).queued_prefixes.items().len(),
        ),
{
    let ghost t0 = *table;
    let ghost sets0 = *attr_sets;
    let ghost ibus0 = ibus@;
    let ghost n = neighbors.keys().len();
    let ghost q = table.queued_prefixes.items().len();
    let ghost cxt = selection_cxt::<A>(*config, *neighbors, t0);
    let d = select_routes::<A>(config, neighbors, table, ibus);
    let ghost selection = choose|run: Seq<Selection>|
        {
            &&& #[trigger] selection_run::<A>(cxt, t0.queued_prefixes.items(), run)
            &&& run[0] == (Selection {
                prefixes: t0.prefixes@,
                counters: t0.prefix_counters@,
                ibus: ibus0,
                reach: Seq::empty(),
                unreach: Seq::empty(),
            })
            &&& run.last() == (Selection {
                prefixes: table.prefixes@,
                counters: table.prefix_counters@,
                ibus: ibus@,
                reach: d.reach@,
                unreach: d.unreach@,
            })
        };
    let ghost t1 = *table;
    let ghost k = d.reach@.len();
    proof {
        assert(n * k <= n * q) by (nonlinear_arith)
            requires
                k <= q,
        ;
        assert(attr_sets.room(n * k));
        assert(t1@ =~= table_selected(t0, selection.last()));
    }
    let msgs = disseminate_all::<A, F>(
        neighbors,
        queues,
        table,
        attr_sets,
        shared,
        &d.reach,
        &d.unreach,
        filter,
    );
    let ghost rounds = choose|r: Rounds|
        {
            &&& #[trigger] rounds_run::<A, F>(
                *filter,
                in_order(*neighbors),
                queue_views(old(queues)@),
                queue_views(queues@),
                d.reach@,
                d.unreach@,
                *shared,
                r,
            )
            &&& r.tables[0] == t1@
            &&& r.tables.last() == table@
            &&& r.sets[0] == sets0
            &&& r.sets.last() == *attr_sets
            &&& msgs@ == joined(r.requests)
        };

    // Remove routing table entries that no longer hold any data.
    prune_prefixes(table, &d.queued);
    proof {
        assert(processed::<A, F>(
            *config,
            *neighbors,
            *shared,
            *filter,
            t0,
            table@,
            old(queues)@,
            queues@,
            ibus0,
            ibus@,
            msgs@,
            sets0,
            *attr_sets,
            Process { selection, rounds },
        ));
        assert forall|m: nat| m >= n * q && #[trigger] sets0.room(m) implies attr_sets.room((m - n * q) as nat) by {
            assert(attr_sets.room((m - n * k) as nat));
        }
    }
    msgs
}

// ===== the process =====

/// Updates waiting for each neighbor, in the order of their addresses.
pub struct Queues {
    pub ipv4_unicast: Vec<NeighborUpdateQueue>,
    pub ipv6_unicast: Vec<NeighborUpdateQueue>,
}

/// Requests to apply export policies.
pub struct Requests {
    pub ipv4_unicast: Vec<PolicyApplyMsg>,
    pub ipv6_unicast: Vec<PolicyApplyMsg>,
}

/// What the process went through: for each address family, the messages to the
/// routing table manager and the interned attributes in between, and the
/// interned attributes before the sweep.
pub struct Processes {
    pub ipv4_unicast: Process,
    pub ipv6_unicast: Process,
    pub ibus: Seq<IbusMsg>,
    pub sets: AttrSetsCxt,
    pub unswept: AttrSetsCxt,
}

/// Whether the process ran for all address families, one after the other, and
/// the interned attributes that are no longer in use were released then.
pub open spec fn all_processed<F: Fn(&Neighbor, &BestRoute) -> bool>(
    config: InstanceCfg,
    neighbors: Table<IpAddr, Neighbor>,
    shared: Shared,
    filter: F,
    old_rib: Rib,
    rib: Rib,
    old_queues: Queues,
    queues: Queues,
    old_ibus: Seq<IbusMsg>,
    ibus: Seq<IbusMsg>,
    msgs4: Seq<PolicyApplyMsg>,
    msgs6: Seq<PolicyApplyMsg>,
    p: Processes,
) -> bool {
    &&& processed::<Ipv4Unicast, F>(
        config,
        neighbors,
        shared,
        filter,
        old_rib.tables.ipv4_unicast,
        rib.tables.ipv4_unicast@,
        old_queues.ipv4_unicast@,
        queues.ipv4_unicast@,
        old_ibus,
        p.ibus,
        msgs4,
        old_rib.attr_sets,
        p.sets,
        p.ipv4_unicast,
    )
    &&& processed::<Ipv6Unicast, F>(
        config,
        neighbors,
        shared,
        filter,
        old_rib.tables.ipv6_unicast,
        rib.tables.ipv6_unicast@,
        old_queues.ipv6_unicast@,
        queues.ipv6_unicast@,
        p.ibus,
        ibus,
        msgs6,
        p.sets,
        p.unswept,
        p.ipv6_unicast,
    )
    &&& p.unswept.wf()
    &&& keeps_shared(old_rib.attr_sets, p.unswept)
    &&& exists|counts: Counts| #[trigger] swept(p.unswept, rib.attr_sets, counts)
}

/// Runs the Decision Process for all address families, IPv4 before IPv6. Returns
/// the requests to apply export policies.
pub fn decision_process<F: Fn(&Neighbor, &BestRoute) -> bool>(
    config: &InstanceCfg,
    neighbors: &Table<IpAddr, Neighbor>,
    queues: &mut Queues,
    rib: &mut Rib,
    shared: &Shared,
    filter: &F,
    ibus: &mut Vec<IbusMsg>,
) -> (msgs: Requests)
    requires
        table_ready::<Ipv4Unicast>(*config, *neighbors, old(rib).tables.ipv4_unicast),
        table_ready::<Ipv6Unicast>(*config, *neighbors, old(rib).tables.ipv6_unicast),
        old(queues).ipv4_unicast@.len() == neighbors.keys().len(),
        old(queues).ipv6_unicast@.len() == neighbors.keys().len(),
        forall|j: int|
            0 <= j < in_order(*neighbors).len() ==> can_receive::<Ipv4Unicast>(
                #[trigger] in_order(*neighbors)[j],
                *shared,
            ) && can_receive::<Ipv6Unicast>(in_order(*neighbors)[j], *shared),
        old(rib).attr_sets.wf(),
        old(rib).attr_sets.room(
            neighbors.keys().len() * old(rib).tables.ipv4_unicast.queued_prefixes.items().len()
                + neighbors.keys().len() * old(rib).tables.ipv6_unicast.queued_prefixes.items().len(),
        ),
        forall|n: &Neighbor, r: &BestRoute| call_requires(*filter, (n, r)),
    ensures
        exists|p: Processes|
            #[trigger] all_processed::<F>(
                *config,
                *neighbors,
                *shared,
                *filter,
                *old(rib),
                *final(rib),
                *old(queues),
                *final(queues),
                old(ibus)@,
                final(ibus)@,
                msgs.ipv4_unicast@,
                msgs.ipv6_unicast@,
                p,
            ),
        final(rib).attr_sets.wf(),
        spends(
            old(rib).attr_sets,
            final(rib).attr_sets,
            neighbors.keys().len() * old(rib).tables.ipv4_unicast.queued_prefixes.items().len()
                + neighbors.keys().len() * old(rib).tables.ipv6_unicast.queued_prefixes.items().len(),
        ),
{
    let ghost sets0 = rib.attr_sets;
    let ghost a = neighbors.keys().len() * rib.tables.ipv4_unicast.queued_prefixes.items().len();
    let ghost b = neighbors.keys().len() * rib.tables.ipv6_unicast.queued_prefixes.items().len();
    let msgs4 = decision_process_af::<Ipv4Unicast, F>(
        config,
        neighbors,
        &mut queues.ipv4_unicast,
        &mut rib.tables.ipv4_unicast,
        &mut rib.attr_sets,
        shared,
        filter,
        ibus,
    );
    let ghost mid = ibus@;
    let ghost sets = rib.attr_sets;
    proof {
        assert(sets.room((a + b - a) as nat));
    }
    let msgs6 = decision_process_af::<Ipv6Unicast, F>(
        config,
        neighbors,
        &mut queues.ipv6_unicast,
        &mut rib.tables.ipv6_unicast,
        &mut rib.attr_sets,
        shared,
        filter,
        ibus,
    );

    // Release interned attribute sets no longer referenced by any route.
    let ghost unswept = rib.attr_sets;
    rib.attr_sets.sweep();
    let msgs = Requests { ipv4_unicast: msgs4, ipv6_unicast: msgs6 };
    proof {
        let p = choose|p: Process|
            #[trigger] processed::<Ipv4Unicast, F>(
                *config,
                *neighbors,
                *shared,
                *filter,
                old(rib).tables.ipv4_unicast,
                rib.tables.ipv4_unicast@,
                old(queues).ipv4_unicast@,
                queues.ipv4_unicast@,
                old(ibus)@,
                mid,
                msgs.ipv4_unicast@,
                sets0,
                sets,
                p,
            );
        let q = choose|q: Process|
            #[trigger] processed::<Ipv6Unicast, F>(
                *config,
                *neighbors,
                *shared,
                *filter,
                old(rib).tables.ipv6_unicast,
                rib.tables.ipv6_unicast@,
                old(queues).ipv6_unicast@,
                queues.ipv6_unicast@,
                mid,
                ibus@,
                msgs.ipv6_unicast@,
                sets,
                unswept,
                q,
            );
        assert forall|n: nat| n >= a + b && #[trigger] sets0.room(n) implies rib.attr_sets.room(
            (n - (a + b)) as nat,
        ) by {
            assert(sets.room((n - a) as nat));
            assert(unswept.room((n - a - b) as nat));
        }
        assert(all_processed::<F>(
            *config,
            *neighbors,
            *shared,
            *filter,
            *old(rib),
            *rib,
            *old(queues),
            *queues,
            old(ibus)@,
            ibus@,
            msgs.ipv4_unicast@,
            msgs.ipv6_unicast@,
            Processes { ipv4_unicast: p, ipv6_unicast: q, ibus: mid, sets, unswept },
        ));
    }
    msgs
}

// ===== laws =====

/// The first tables and requests of rounds that have nothing to disseminate.
proof fn quiet_rounds<A: AddressFamily, F: Fn(&Neighbor, &BestRoute) -> bool>(
    filter: F,
    nbrs: Seq<Neighbor>,
    queues: Seq<QueueView>,
    next_queues: Seq<QueueView>,
    shared: Shared,
    r: Rounds,
    j: nat,
)
    requires
        rounds_run::<A, F>(filter, nbrs, queues, next_queues, Seq::empty(), Seq::empty(), shared, r),
        j <= nbrs.len(),
    ensures
        r.tables[j as int] == r.tables[0],
        r.sets[j as int] == r.sets[0],
        joined(r.requests.take(j as int)) == Seq::<PolicyApplyMsg>::empty(),
        forall|k: int| 0 <= k < j ==> next_queues[k] == #[trigger] queues[k],
    decreases j,
{
    if j > 0 {
        let k = j - 1;
        quiet_rounds::<A, F>(filter, nbrs, queues, next_queues, shared, r, k as nat);
        assert(r.requests.take(j as int).drop_last() =~= r.requests.take(k));
        assert(judged::<A, F>(filter, nbrs[k], Seq::empty(), r.verdicts[k]));
        assert(offers_for(Seq::empty(), r.verdicts[k]).len() == 0);
        assert(withdrawals_for(Seq::empty(), Seq::empty(), r.verdicts[k]).len() == 0);
        assert(r.requests[k].len() == 0);
        assert(joined(r.requests.take(j as int)) =~= Seq::<PolicyApplyMsg>::empty());
    } else {
        assert(r.requests.take(0) =~= Seq::empty());
    }
}

/// Without queued prefixes the process does nothing: no message is sent, no
/// policy is applied, nothing is interned, and no update waits for any neighbor
/// that did not wait before.
pub proof fn nothing_queued_nothing_done<A: AddressFamily, F: Fn(&Neighbor, &BestRoute) -> bool>(
    config: InstanceCfg,
    neighbors: Table<IpAddr, Neighbor>,
    shared: Shared,
    filter: F,
    old_table: RoutingTable,
    table: TableView,
    old_queues: Seq<NeighborUpdateQueue>,
    queues: Seq<NeighborUpdateQueue>,
    old_ibus: Seq<IbusMsg>,
    ibus: Seq<IbusMsg>,
    msgs: Seq<PolicyApplyMsg>,
    old_sets: AttrSetsCxt,
    sets: AttrSetsCxt,
    p: Process,
)
    requires
        processed::<A, F>(
            config,
            neighbors,
            shared,
            filter,
            old_table,
            table,
            old_queues,
            queues,
            old_ibus,
            ibus,
            msgs,
            old_sets,
            sets,
            p,
        ),
        old_table.queued_prefixes.items().len() == 0,
        old_queues.len() == neighbors.keys().len(),
        queues.len() == neighbors.keys().len(),
    ensures
        msgs.len() == 0,
        ibus == old_ibus,
        queue_views(queues) == queue_views(old_queues),
        sets == old_sets,
        table.prefixes == views(old_table.prefixes@),
{
    let n = in_order(neighbors).len();
    assert(p.selection.last() == p.selection[0]);
    quiet_rounds::<A, F>(
        filter,
        in_order(neighbors),
        queue_views(old_queues),
        queue_views(queues),
        shared,
        p.rounds,
        n,
    );
    assert(p.rounds.requests.take(n as int) =~= p.rounds.requests);
    assert(queue_views(queues) =~= queue_views(old_queues)) by {
        assert forall|k: int| 0 <= k < queue_views(queues).len() implies queue_views(queues)[k] == queue_views(
            old_queues,
        )[k] by {
            assert(queue_views(old_queues)[k] == queue_views(old_queues)[k]);
        }
    }
    let before = p.rounds.tables.last();
    assert(before == p.rounds.tables[n as int]);
    assert forall|k: IpNetwork| !was_queued(old_table.queued_prefixes.items(), k) by {}
    assert(table.prefixes =~= before.prefixes);
}

/// The interned attributes are well-formed all along.
proof fn rounds_sets_wf<A: AddressFamily, F: Fn(&Neighbor, &BestRoute) -> bool>(
    filter: F,
    nbrs: Seq<Neighbor>,
    queues: Seq<QueueView>,
    next_queues: Seq<QueueView>,
    reach: Seq<Offer>,
    unreach: Seq<IpNetwork>,
    shared: Shared,
    r: Rounds,
    j: nat,
)
    requires
        rounds_run::<A, F>(filter, nbrs, queues, next_queues, reach, unreach, shared, r),
        r.sets[0].wf(),
        j <= nbrs.len(),
    ensures
        r.sets[j as int].wf(),
    decreases j,
{
    if j > 0 {
        let k = j - 1;
        rounds_sets_wf::<A, F>(filter, nbrs, queues, next_queues, reach, unreach, shared, r, k as nat);
        let nbr = nbrs[k];
        let offers = offers_for(reach, r.verdicts[k]);
        if receives::<A>(nbr) && offers.len() > 0 {
            let mid = after_withdrawal(
                Outgoing { table: r.tables[k], queue: queues[k] },
                nbr.session.index,
                withdrawals_for(reach, unreach, r.verdicts[k]),
            );
            let (attrs, keys) = choose|attrs: Seq<Arc<RouteAttrs>>, keys: Seq<ExportKey>|
                #[trigger] advertised::<A>(
                    r.tables[k + 1],
                    mid.table,
                    nbr,
                    offers,
                    shared,
                    r.requests[k],
                    r.sets[k],
                    r.sets[k + 1],
                    attrs,
                    keys,
                );
            interning_shares(r.sets[k], r.sets[k + 1], attrs);
        }
    }
}

/// Whether requests are about exactly the given offers to a neighbor: every
/// prefix of every request is that of an offer whose own origin, type and
/// exported attributes the request carries, and every offer is asked about.
pub open spec fn asked_about<A: AddressFamily>(msgs: Seq<PolicyApplyMsg>, offers: Seq<Offer>, nbr: Session) -> bool {
    &&& forall|m: int, x: int|
        #![trigger msgs[m].prefixes@[x]]
        0 <= m < msgs.len() && 0 <= x < msgs[m].prefixes@.len() ==> exists|i: int|
            #![trigger offers[i]]
            0 <= i < offers.len() && offers[i].prefix == msgs[m].prefixes@[x] && asks_about::<A>(
                msgs[m],
                offers[i],
                nbr,
            )
    &&& forall|i: int|
        #![trigger offers[i]]
        0 <= i < offers.len() ==> exists|m: int|
            #![trigger msgs[m]]
            0 <= m < msgs.len() && asks_about::<A>(msgs[m], offers[i], nbr)
}

/// The process asks to apply the export policies of each neighbor that receives
/// routes to exactly the best routes that its distribution filter lets through,
/// each with its own exported attributes.
pub proof fn policies_see_own_attributes<A: AddressFamily, F: Fn(&Neighbor, &BestRoute) -> bool>(
    config: InstanceCfg,
    neighbors: Table<IpAddr, Neighbor>,
    shared: Shared,
    filter: F,
    old_table: RoutingTable,
    table: TableView,
    old_queues: Seq<NeighborUpdateQueue>,
    queues: Seq<NeighborUpdateQueue>,
    old_ibus: Seq<IbusMsg>,
    ibus: Seq<IbusMsg>,
    msgs: Seq<PolicyApplyMsg>,
    old_sets: AttrSetsCxt,
    sets: AttrSetsCxt,
    p: Process,
    j: int,
)
    requires
        old_sets.wf(),
        processed::<A, F>(
            config,
            neighbors,
            shared,
            filter,
            old_table,
            table,
            old_queues,
            queues,
            old_ibus,
            ibus,
            msgs,
            old_sets,
            sets,
            p,
        ),
        0 <= j < in_order(neighbors).len(),
        receives::<A>(in_order(neighbors)[j]),
    ensures
        asked_about::<A>(
            p.rounds.requests[j],
            offers_for(p.selection.last().reach, p.rounds.verdicts[j]),
            in_order(neighbors)[j].session,
        ),
{
    let r = p.rounds;
    let reach = p.selection.last().reach;
    let unreach = p.selection.last().unreach;
    let nbr = in_order(neighbors)[j];
    let offers = offers_for(reach, r.verdicts[j]);
    rounds_sets_wf::<A, F>(
        filter,
        in_order(neighbors),
        queue_views(old_queues),
        queue_views(queues),
        reach,
        unreach,
        shared,
        r,
        j as nat,
    );
    if offers.len() > 0 {
        let t = after_withdrawal(
            Outgoing { table: r.tables[j], queue: queue_views(old_queues)[j] },
            nbr.session.index,
            withdrawals_for(reach, unreach, r.verdicts[j]),
        ).table;
        let (attrs, keys) = choose|attrs: Seq<Arc<RouteAttrs>>, keys: Seq<ExportKey>|
            #[trigger] advertised::<A>(
                r.tables[j + 1],
                t,
                nbr,
                offers,
                shared,
                r.requests[j],
                r.sets[j],
                r.sets[j + 1],
                attrs,
                keys,
            );
        assert forall|m: int, x: int|
            #![trigger r.requests[j][m].prefixes@[x]]
            0 <= m < r.requests[j].len() && 0 <= x < r.requests[j][m].prefixes@.len() implies exists|i: int|
            #![trigger offers[i]]
            0 <= i < offers.len() && offers[i].prefix == r.requests[j][m].prefixes@[x] && asks_about::<A>(
                r.requests[j][m],
                offers[i],
                nbr.session,
            ) by {
            requests_carry_own_attributes::<A>(
                r.tables[j + 1],
                t,
                nbr,
                offers,
                shared,
                r.requests[j],
                r.sets[j],
                r.sets[j + 1],
                attrs,
                keys,
                m,
                x,
            );
        }
        assert forall|i: int| #![trigger offers[i]] 0 <= i < offers.len() implies exists|m: int|
            #![trigger r.requests[j][m]]
            0 <= m < r.requests[j].len() && asks_about::<A>(r.requests[j][m], offers[i], nbr.session) by {
            offers_are_asked_about::<A>(
                r.tables[j + 1],
                t,
                nbr,
                offers,
                shared,
                r.requests[j],
                r.sets[j],
                r.sets[j + 1],
                attrs,
                keys,
                i,
            );
        }
    }
}

} // verus!
