//! The Decision Process over a whole routing table.

use std::sync::Arc;

use vstd::prelude::*;

use crate::bgp::af::{copy_nets, AddressFamily};
use crate::bgp::configuration::{InstanceCfg, InstanceCfgView, Neighbor};
use crate::bgp::events::{all_valid, export_policies_known, rib_ready, PolicyApplyMsg, Shared};
use crate::bgp::export::{advertise_routes, advertised, withdraw_routes, withdrawn, ExportKey, Offer, Outgoing};
use crate::bgp::intern::{
    got, interning_keeps_shared, keeps_shared, spends, spends_less, AttrSetsCxt, RouteAttrs,
};
use crate::bgp::neighbor::{NeighborUpdateQueue, State};
use crate::bgp::policy::{PolicyResult, RoutePolicyInfo};
use crate::bgp::rib::{
    assessed, best_path, decidable, loc_rib_update, loc_rib_updated, nexthops_known, nexthops_of, same_scan,
    scan, scan_sound, selected, slot, slot_count, told_apart, BestRoute, Destination, DestinationView,
    IbusMsg, LocalRoute, NhtEntry, PrefixCounters, Redistribute, Rib, RouteOrigin, RoutingTable,
    SelectionState, TableView,
};
use crate::bgp::types::{
    AfiSafi, DistanceCfg, Instant, MultipathCfg, PeerIndex, RouteSelectionCfg, RouteType,
};
use crate::collections::{views, views_insert, OrdSet, Table};
use crate::ip::{IpAddr, IpNetwork};

verus! {

// ===== configuration =====

/// How routes of an address family are selected.
pub open spec fn selection_of(config: InstanceCfgView, afi_safi: AfiSafi) -> RouteSelectionCfg {
    if config.afi_safi.contains_key(afi_safi) {
        config.afi_safi[afi_safi].route_selection
    } else {
        config.route_selection
    }
}

/// How multiple paths of an address family are used.
pub open spec fn multipath_of(config: InstanceCfgView, afi_safi: AfiSafi) -> MultipathCfg {
    if config.afi_safi.contains_key(afi_safi) {
        config.afi_safi[afi_safi].multipath
    } else {
        config.multipath
    }
}

fn get_selection(config: &InstanceCfg, afi_safi: AfiSafi) -> (r: RouteSelectionCfg)
    ensures
        r == selection_of(config@, afi_safi),
{
    match config.afi_safi.get(&afi_safi) {
        Some(cfg) => cfg.route_selection,
        None => config.route_selection,
    }
}

fn get_multipath(config: &InstanceCfg, afi_safi: AfiSafi) -> (r: MultipathCfg)
    ensures
        r == multipath_of(config@, afi_safi),
{
    match config.afi_safi.get(&afi_safi) {
        Some(cfg) => cfg.multipath,
        None => config.multipath,
    }
}

// ===== route selection =====

/// What the route selection works on, and what it has found so far.
pub struct Selection {
    pub prefixes: Map<IpNetwork, Destination>,
    pub counters: Map<PeerIndex, PrefixCounters>,
    pub ibus: Seq<IbusMsg>,
    pub reach: Seq<Offer>,
    pub unreach: Seq<IpNetwork>,
}

/// The origin of the route in the Loc-RIB.
pub open spec fn local_origin(local: Option<Arc<LocalRoute>>) -> Option<RouteOrigin> {
    match local {
        Some(l) => Some(l.origin),
        None => None,
    }
}

/// The neighbor that a route was learned from, if it still exists.
pub open spec fn learned_from(origin: Option<RouteOrigin>, neighbors: Map<IpAddr, Neighbor>) -> Option<PeerIndex> {
    match origin {
        Some(RouteOrigin::Neighbor { remote_addr, .. }) => if neighbors.contains_key(remote_addr) {
            Some(neighbors[remote_addr].session.index)
        } else {
            None
        },
        _ => None,
    }
}

/// The counters with one installed prefix less for a neighbor.
pub open spec fn count_dropped(counters: Map<PeerIndex, PrefixCounters>, index: Option<PeerIndex>) -> Map<
    PeerIndex,
    PrefixCounters,
> {
    match index {
        Some(i) => if counters.contains_key(i) {
            counters.insert(
                i,
                PrefixCounters {
                    installed: if counters[i].installed > 0 {
                        (counters[i].installed - 1) as u32
                    } else {
                        0
                    },
                },
            )
        } else {
            counters
        },
        None => counters,
    }
}

/// The counters with one more installed prefix for a neighbor.
pub open spec fn count_added(counters: Map<PeerIndex, PrefixCounters>, index: Option<PeerIndex>) -> Map<
    PeerIndex,
    PrefixCounters,
> {
    match index {
        Some(i) => {
            let n = if counters.contains_key(i) {
                counters[i].installed
            } else {
                0
            };
            counters.insert(
                i,
                PrefixCounters {
                    installed: if n < u32::MAX {
                        (n + 1) as u32
                    } else {
                        u32::MAX
                    },
                },
            )
        },
        None => counters,
    }
}

/// The counters after the origin of the route in the Loc-RIB may have changed.
pub open spec fn recounted(
    counters: Map<PeerIndex, PrefixCounters>,
    old_origin: Option<RouteOrigin>,
    new_origin: Option<RouteOrigin>,
    neighbors: Map<IpAddr, Neighbor>,
) -> Map<PeerIndex, PrefixCounters> {
    if old_origin == new_origin {
        counters
    } else {
        count_added(count_dropped(counters, learned_from(old_origin, neighbors)), learned_from(new_origin, neighbors))
    }
}

fn same_origin(a: &Option<RouteOrigin>, b: &Option<RouteOrigin>) -> (r: bool)
    ensures
        r == (*a == *b),
{
    match (a, b) {
        (Some(a), Some(b)) => *a == *b,
        (None, None) => true,
        _ => false,
    }
}

fn get_origin(local: &Option<Arc<LocalRoute>>) -> (r: Option<RouteOrigin>)
    ensures
        r == local_origin(*local),
{
    match local {
        Some(l) => Some(l.origin),
        None => None,
    }
}

fn find_peer(origin: &Option<RouteOrigin>, neighbors: &Table<IpAddr, Neighbor>) -> (r: Option<PeerIndex>)
    ensures
        r == learned_from(*origin, neighbors@),
{
    match origin {
        Some(RouteOrigin::Neighbor { identifier: _, remote_addr }) => match neighbors.get(remote_addr) {
            Some(nbr) => Some(nbr.session.index),
            None => None,
        },
        _ => None,
    }
}

fn recount(
    counters: &mut Table<PeerIndex, PrefixCounters>,
    old_origin: &Option<RouteOrigin>,
    new_origin: &Option<RouteOrigin>,
    neighbors: &Table<IpAddr, Neighbor>,
)
    ensures
        final(counters)@ == recounted(old(counters)@, *old_origin, *new_origin, neighbors@),
{
    if same_origin(old_origin, new_origin) {
        return;
    }
    if let Some(index) = find_peer(old_origin, neighbors) {
        if let Some(c) = counters.get_mut(&index) {
            c.installed = if c.installed > 0 {
                c.installed - 1
            } else {
                0
            };
        }
    }
    if let Some(index) = find_peer(new_origin, neighbors) {
        let installed: u32 = match counters.get(&index) {
            Some(c) => c.installed,
            None => 0,
        };
        let installed = if installed < u32::MAX {
            installed + 1
        } else {
            u32::MAX
        };
        counters.insert(index, PrefixCounters { installed });
    }
}

/// The best route that a scan has found.
pub open spec fn best_of<A: AddressFamily>(
    dest: Destination,
    asn: u32,
    nht: Map<IpAddr, NhtEntry>,
    cfg: RouteSelectionCfg,
) -> Option<BestRoute> {
    let s = scan::<A>(dest, asn, nht, cfg, slot_count(dest));
    match s.best {
        Some(b) => Some((slot(dest, b)->0).best(s.states[b].igp_cost)),
        None => None,
    }
}

/// What becomes of the Loc-RIB entry of a destination.
pub open spec fn loc_rib_step<A: AddressFamily>(
    prefix: IpNetwork,
    dest: Destination,
    old_dest: Destination,
    best: Option<BestRoute>,
    cfg: RouteSelectionCfg,
    mpath: MultipathCfg,
    distance: DistanceCfg,
    ibus: Seq<IbusMsg>,
    old_ibus: Seq<IbusMsg>,
    changed: bool,
) -> bool {
    match best {
        Some(b) => exists|nexthops: Option<Seq<IpAddr>>|
            #[trigger] nexthops_of::<A>(nexthops, old_dest, b, cfg, mpath) && loc_rib_updated(
                prefix,
                dest,
                old_dest,
                b,
                nexthops,
                distance,
                ibus,
                old_ibus,
                changed,
            ),
        None => {
            &&& changed == old_dest.local is Some
            &&& dest == (Destination { local: None, ..old_dest })
            &&& ibus == if old_dest.local matches Some(l) && !l.origin.local() {
                old_ibus.push(IbusMsg::RouteUninstall { prefix })
            } else {
                old_ibus
            }
        },
    }
}

/// What the selection depends on besides the table.
pub struct SelectionCxt {
    pub asn: u32,
    pub cfg: RouteSelectionCfg,
    pub mpath: MultipathCfg,
    pub distance: DistanceCfg,
    pub nht: Map<IpAddr, NhtEntry>,
    pub neighbors: Map<IpAddr, Neighbor>,
}

/// Whether the best route of a destination was selected and entered into the
/// Loc-RIB, through an intermediate state of the destination.
pub open spec fn dest_selected<A: AddressFamily>(
    cxt: SelectionCxt,
    prefix: IpNetwork,
    next: Selection,
    prev: Selection,
    mid: Destination,
    changed: bool,
) -> bool {
    let k = prefix.masked();
    let d0 = prev.prefixes[k];
    let d1 = next.prefixes[k];
    let best = best_of::<A>(d0, cxt.asn, cxt.nht, cxt.cfg);
    &&& selected(
        mid,
        d0,
        scan::<A>(d0, cxt.asn, cxt.nht, cxt.cfg, slot_count(d0)).states,
        slot_count(d0) as int,
    )
    &&& loc_rib_step::<A>(prefix, d1, mid, best, cxt.cfg, cxt.mpath, cxt.distance, next.ibus, prev.ibus, changed)
    &&& next.prefixes == prev.prefixes.insert(k, d1)
    &&& next.counters == recounted(prev.counters, local_origin(d0.local), local_origin(d1.local), cxt.neighbors)
    &&& next.reach == if changed && best is Some {
        prev.reach.push(Offer { prefix, route: best->0 })
    } else {
        prev.reach
    }
    &&& next.unreach == if changed && best is None {
        prev.unreach.push(prefix)
    } else {
        prev.unreach
    }
}

/// What the selection does about one queued prefix.
pub open spec fn prefix_selected<A: AddressFamily>(
    cxt: SelectionCxt,
    prefix: IpNetwork,
    next: Selection,
    prev: Selection,
) -> bool {
    if prev.prefixes.contains_key(prefix.masked()) {
        exists|mid: Destination, changed: bool| #[trigger] dest_selected::<A>(cxt, prefix, next, prev, mid, changed)
    } else {
        next == prev
    }
}

/// Whether a run of the selection went through the queued prefixes.
pub open spec fn selection_run<A: AddressFamily>(
    cxt: SelectionCxt,
    queued: Seq<IpNetwork>,
    run: Seq<Selection>,
) -> bool {
    &&& run.len() == queued.len() + 1
    &&& forall|i: int|
        #![trigger queued[i]]
        0 <= i < queued.len() ==> prefix_selected::<A>(cxt, queued[i], run[i + 1], run[i])
}

/// Whether the routes of a destination can be told apart, and their next hops
/// are known where more than one may be used.
pub open spec fn dest_ready<A: AddressFamily>(dest: Destination, cxt: SelectionCxt) -> bool {
    &&& decidable::<A>(dest, cxt.asn, cxt.nht, cxt.cfg)
    &&& cxt.mpath.enabled ==> nexthops_known(dest)
    &&& dest.adj_rib.keys().len() < usize::MAX
}

/// Selecting a route leaves the routes of a destination as they were, but for
/// their selection states.
proof fn selected_ready<A: AddressFamily>(d1: Destination, mid: Destination, d0: Destination, cxt: SelectionCxt)
    requires
        dest_ready::<A>(d0, cxt),
        selected(
            mid,
            d0,
            scan::<A>(d0, cxt.asn, cxt.nht, cxt.cfg, slot_count(d0)).states,
            slot_count(d0) as int,
        ),
        d1.adj_rib == mid.adj_rib,
        d1.redistribute == mid.redistribute,
    ensures
        dest_ready::<A>(mid, cxt),
        dest_ready::<A>(d1, cxt),
{
    let states = scan::<A>(d0, cxt.asn, cxt.nht, cxt.cfg, slot_count(d0)).states;
    scan_sound::<A>(d0, cxt.asn, cxt.nht, cxt.cfg, slot_count(d0));
    let keys = d0.adj_rib.keys();
    assert forall|i: int| #![trigger slot(mid, i)]
        slot(mid, i) is Some == slot(d0, i) is Some && (slot(d0, i) matches Some(c) ==> {
            &&& slot(mid, i)->0 == crate::bgp::rib::Candidate { selection: states[i], ..c }
            &&& assessed::<A>(slot(mid, i)->0, cxt.asn, cxt.nht) == assessed::<A>(c, cxt.asn, cxt.nht)
        }) by {
        if 0 <= i < keys.len() {
            assert(mid.adj_rib@[keys[i]] == d0.adj_rib@[keys[i]].with_selection(states[i]));
            if slot(d0, i) is Some {
                assert(states[i].igp_cost == assessed::<A>(slot(d0, i)->0, cxt.asn, cxt.nht).igp_cost);
            }
        } else if i == keys.len() && slot(d0, i) is Some {
            assert(states[i].igp_cost == assessed::<A>(slot(d0, i)->0, cxt.asn, cxt.nht).igp_cost);
        }
    }
    assert forall|i: int| #![trigger slot(d1, i)] slot(d1, i) == slot(mid, i) by {}
    assert forall|i: int| 0 <= i < slot_count(mid) implies #[trigger] told_apart::<A>(
        mid,
        cxt.asn,
        cxt.nht,
        cxt.cfg,
        i,
    ) by {
        same_scan::<A>(mid, d0, cxt.asn, cxt.nht, cxt.cfg, i as nat);
        scan_sound::<A>(d0, cxt.asn, cxt.nht, cxt.cfg, i as nat);
        assert(told_apart::<A>(d0, cxt.asn, cxt.nht, cxt.cfg, i));
        let r = scan::<A>(d0, cxt.asn, cxt.nht, cxt.cfg, i as nat);
        if r.best is Some {
            assert(slot(mid, r.best->0) is Some);
        }
    }
    assert(decidable::<A>(mid, cxt.asn, cxt.nht, cxt.cfg));
    assert forall|i: int| 0 <= i < slot_count(d1) implies #[trigger] told_apart::<A>(
        d1,
        cxt.asn,
        cxt.nht,
        cxt.cfg,
        i,
    ) by {
        same_scan::<A>(d1, mid, cxt.asn, cxt.nht, cxt.cfg, i as nat);
        assert(told_apart::<A>(mid, cxt.asn, cxt.nht, cxt.cfg, i));
        let r = scan::<A>(mid, cxt.asn, cxt.nht, cxt.cfg, i as nat);
        assert(slot(d1, i) == slot(mid, i));
        if r.best is Some {
            assert(slot(d1, r.best->0) == slot(mid, r.best->0));
        }
    }
}

/// Routes to disseminate, and prefixes that have become unreachable.
pub struct Dissemination {
    pub reach: Vec<Offer>,
    pub unreach: Vec<IpNetwork>,
    /// The prefixes that were queued.
    pub queued: OrdSet<IpNetwork>,
}

/// Whether the routing table has the prefixes of all offers.
pub open spec fn offers_stored(reach: Seq<Offer>, dom: Set<IpNetwork>) -> bool {
    forall|i: int|
        #![trigger reach[i]]
        0 <= i < reach.len() ==> reach[i].prefix.valid() && dom.contains(reach[i].prefix.masked())
}

/// Selects the best route of one queued prefix.
fn select_one<A: AddressFamily>(
    table: &mut RoutingTable,
    prefix: IpNetwork,
    asn: u32,
    cfg: &RouteSelectionCfg,
    mpath: &MultipathCfg,
    distance: &DistanceCfg,
    neighbors: &Table<IpAddr, Neighbor>,
    ibus: &mut Vec<IbusMsg>,
    reach: &mut Vec<Offer>,
    unreach: &mut Vec<IpNetwork>,
)
    requires
        prefix.valid(),
        old(table).prefixes@.contains_key(prefix.masked()) ==> dest_ready::<A>(
            old(table).prefixes@[prefix.masked()],
            SelectionCxt {
                asn,
                cfg: *cfg,
                mpath: *mpath,
                distance: *distance,
                nht: old(table).nht@,
                neighbors: neighbors@,
            },
        ),
    ensures
        ({
            let cxt = SelectionCxt {
                asn,
                cfg: *cfg,
                mpath: *mpath,
                distance: *distance,
                nht: old(table).nht@,
                neighbors: neighbors@,
            };
            let prev = Selection {
                prefixes: old(table).prefixes@,
                counters: old(table).prefix_counters@,
                ibus: old(ibus)@,
                reach: old(reach)@,
                unreach: old(unreach)@,
            };
            let next = Selection {
                prefixes: final(table).prefixes@,
                counters: final(table).prefix_counters@,
                ibus: final(ibus)@,
                reach: final(reach)@,
                unreach: final(unreach)@,
            };
            let k = prefix.masked();
            &&& prefix_selected::<A>(cxt, prefix, next, prev)
            &&& next.prefixes.dom() == prev.prefixes.dom()
            &&& prev.prefixes.contains_key(k) ==> dest_ready::<A>(next.prefixes[k], cxt)
            &&& forall|n: IpNetwork|
                n != k && prev.prefixes.contains_key(n) ==> #[trigger] next.prefixes[n] == prev.prefixes[n]
        }),
        final(table).nht == old(table).nht,
        final(table).queued_prefixes == old(table).queued_prefixes,
{
    let ghost cxt = SelectionCxt {
        asn,
        cfg: *cfg,
        mpath: *mpath,
        distance: *distance,
        nht: table.nht@,
        neighbors: neighbors@,
    };
    let ghost prev = Selection {
        prefixes: table.prefixes@,
        counters: table.prefix_counters@,
        ibus: ibus@,
        reach: reach@,
        unreach: unreach@,
    };
    let ghost k = prefix.masked();
    let dest = match table.prefixes.get_mut(&prefix) {
        Some(dest) => dest,
        None => {
            return;
        },
    };
    let ghost d0 = *dest;

    // Perform best-path selection for the destination.
    proof {
        scan_sound::<A>(d0, asn, cxt.nht, *cfg, slot_count(d0));
    }
    let best_route = best_path::<A>(dest, asn, &table.nht, cfg);
    let ghost mid = *dest;
    let ghost best = best_route;
    assert(best == best_of::<A>(d0, asn, cxt.nht, *cfg));
    proof {
        selected_ready::<A>(mid, mid, d0, cxt);
    }

    // Update the Loc-RIB with the best path.
    let old_origin = get_origin(&dest.local);
    let copy = match &best_route {
        Some(route) => Some(route.copy()),
        None => None,
    };
    let changed = loc_rib_update::<A>(prefix, dest, copy, cfg, mpath, distance, ibus);
    let ghost d1 = *dest;
    proof {
        assert(loc_rib_step::<A>(prefix, d1, mid, best, *cfg, *mpath, *distance, ibus@, prev.ibus, changed));
        selected_ready::<A>(d1, mid, d0, cxt);
    }

    // Update the per-peer installed prefix counters if the origin of the
    // Loc-RIB route has changed.
    let new_origin = get_origin(&dest.local);
    recount(&mut table.prefix_counters, &old_origin, &new_origin, neighbors);

    // Group best routes and unfeasible routes separately. Skip route
    // dissemination if the Loc-RIB entry hasn't changed.
    if changed {
        match best_route {
            Some(route) => {
                reach.push(Offer { prefix, route });
            },
            None => {
                unreach.push(prefix);
            },
        }
    }
    proof {
        let next = Selection {
            prefixes: table.prefixes@,
            counters: table.prefix_counters@,
            ibus: ibus@,
            reach: reach@,
            unreach: unreach@,
        };
        assert(next.prefixes[k] == d1);
        assert(dest_selected::<A>(cxt, prefix, next, prev, mid, changed));
        assert(next.prefixes.dom() =~= prev.prefixes.dom());
    }
}

/// Phase 2: Route Selection.
///
/// Selects the best route of every queued prefix, and empties the queue.
/// Returns what is to be disseminated.
pub fn select_routes<A: AddressFamily>(
    config: &InstanceCfg,
    neighbors: &Table<IpAddr, Neighbor>,
    table: &mut RoutingTable,
    ibus: &mut Vec<IbusMsg>,
) -> (d: Dissemination)
    requires
        ({
            let cxt = SelectionCxt {
                asn: config.asn,
                cfg: selection_of(config@, A::family()),
                mpath: multipath_of(config@, A::family()),
                distance: config.distance,
                nht: old(table).nht@,
                neighbors: neighbors@,
            };
            forall|p: IpNetwork| #[trigger]
                old(table).queued_prefixes@.contains(p) ==> p.valid() && (old(table).prefixes@.contains_key(
                    p.masked(),
                ) ==> dest_ready::<A>(old(table).prefixes@[p.masked()], cxt))
        }),
    ensures
        ({
            let cxt = SelectionCxt {
                asn: config.asn,
                cfg: selection_of(config@, A::family()),
                mpath: multipath_of(config@, A::family()),
                distance: config.distance,
                nht: old(table).nht@,
                neighbors: neighbors@,
            };
            exists|run: Seq<Selection>|
                {
                    &&& #[trigger] selection_run::<A>(cxt, old(table).queued_prefixes.items(), run)
                    &&& run[0] == (Selection {
                        prefixes: old(table).prefixes@,
                        counters: old(table).prefix_counters@,
                        ibus: old(ibus)@,
                        reach: Seq::empty(),
                        unreach: Seq::empty(),
                    })
                    &&& run.last() == (Selection {
                        prefixes: final(table).prefixes@,
                        counters: final(table).prefix_counters@,
                        ibus: final(ibus)@,
                        reach: d.reach@,
                        unreach: d.unreach@,
                    })
                }
        }),
        d.queued@ == old(table).queued_prefixes@,
        d.queued.items() == old(table).queued_prefixes.items(),
        d.reach@.len() <= old(table).queued_prefixes.items().len(),
        offers_stored(d.reach@, final(table)@.prefixes.dom()),
        all_valid(d.unreach@),
        final(table).queued_prefixes@ == Set::<IpNetwork>::empty(),
        final(table).nht == old(table).nht,
        final(table).prefixes@.dom() == old(table).prefixes@.dom(),
{
    let ghost t0 = *table;
    let ghost ibus0 = ibus@;

    // Get route selection configuration for the address family.
    let cfg = get_selection(config, A::afi_safi());

    // Get multipath configuration for the address family.
    let mpath = get_multipath(config, A::afi_safi());
    let asn = config.asn;
    let distance = config.distance;
    let ghost cxt = SelectionCxt { asn, cfg, mpath, distance, nht: t0.nht@, neighbors: neighbors@ };

    // Process each queued destination in the RIB.
    let mut queued: OrdSet<IpNetwork> = OrdSet::new();
    std::mem::swap(&mut queued, &mut table.queued_prefixes);
    let mut reach: Vec<Offer> = Vec::new();
    let mut unreach: Vec<IpNetwork> = Vec::new();
    let n = queued.len();
    let ghost items = queued.items();
    let ghost first = Selection {
        prefixes: table.prefixes@,
        counters: table.prefix_counters@,
        ibus: ibus@,
        reach: reach@,
        unreach: unreach@,
    };
    let ghost mut run: Seq<Selection> = seq![first];
    let mut i: usize = 0;
    while i < n
        invariant
            i <= n,
            n == items.len(),
            items == queued.items(),
            items == t0.queued_prefixes.items(),
            queued@ == t0.queued_prefixes@,
            queued.items_sorted(),
            cxt == (SelectionCxt { asn, cfg, mpath, distance, nht: t0.nht@, neighbors: neighbors@ }),
            table.nht == t0.nht,
            table.queued_prefixes@ == Set::<IpNetwork>::empty(),
            table.prefixes@.dom() == t0.prefixes@.dom(),
            forall|p: IpNetwork| #[trigger]
                queued@.contains(p) ==> p.valid() && (table.prefixes@.contains_key(p.masked()) ==> dest_ready::<A>(
                    table.prefixes@[p.masked()],
                    cxt,
                )),
            reach@.len() <= i,
            offers_stored(reach@, t0.prefixes@.dom()),
            all_valid(unreach@),
            selection_run::<A>(cxt, items.take(i as int), run),
            run[0] == first,
            run.last() == (Selection {
                prefixes: table.prefixes@,
                counters: table.prefix_counters@,
                ibus: ibus@,
                reach: reach@,
                unreach: unreach@,
            }),
        decreases n - i,
    {
        let prefix = *queued.at(i);
        let ghost before = table.prefixes@;
        proof {
            assert(items.to_set().contains(items[i as int]));
            assert(queued@.contains(prefix));
        }
        select_one::<A>(
            table,
            prefix,
            asn,
            &cfg,
            &mpath,
            &distance,
            neighbors,
            ibus,
            &mut reach,
            &mut unreach,
        );
        proof {
            let next = Selection {
                prefixes: table.prefixes@,
                counters: table.prefix_counters@,
                ibus: ibus@,
                reach: reach@,
                unreach: unreach@,
            };
            let prev_run = run;
            let prev = run.last();
            if prev.prefixes.contains_key(prefix.masked()) {
                let (mid, changed) = choose|mid: Destination, changed: bool|
                    #[trigger] dest_selected::<A>(cxt, prefix, next, prev, mid, changed);
                assert(dest_selected::<A>(cxt, prefix, next, prev, mid, changed));
            }
            run = run.push(next);
            assert forall|j: int|
                #![trigger items.take(i + 1)[j]]
                0 <= j < i + 1 implies prefix_selected::<A>(cxt, items.take(i + 1)[j], run[j + 1], run[j]) by {
                if j < i {
                    assert(items.take(i as int)[j] == items.take(i + 1)[j]);
                    assert(run[j + 1] == prev_run[j + 1] && run[j] == prev_run[j]);
                }
            }
            assert forall|p: IpNetwork| #[trigger] queued@.contains(p) implies p.valid() && (table.prefixes@.contains_key(
                p.masked(),
            ) ==> dest_ready::<A>(table.prefixes@[p.masked()], cxt)) by {
                if p.masked() != prefix.masked() && table.prefixes@.contains_key(p.masked()) {
                    assert(before.contains_key(p.masked()));
                    assert(table.prefixes@[p.masked()] == before[p.masked()]);
                }
            }
        }
        i += 1;
    }
    proof {
        assert(items.take(i as int) =~= items);
        assert(selection_run::<A>(cxt, t0.queued_prefixes.items(), run));
    }
    Dissemination { reach, unreach, queued }
}

// ===== route dissemination =====

/// The offers that a neighbor may get.
pub open spec fn offers_for(reach: Seq<Offer>, verdicts: Seq<bool>) -> Seq<Offer>
    decreases reach.len(),
{
    if reach.len() == 0 {
        Seq::empty()
    } else {
        let rest = offers_for(reach.drop_last(), verdicts);
        if verdicts[reach.len() - 1] {
            rest.push(reach.last())
        } else {
            rest
        }
    }
}

/// The prefixes to withdraw from a neighbor: besides those that have become
/// unreachable, those whose routes it may not get, so that previous
/// advertisements are withdrawn.
pub open spec fn withdrawals_for(reach: Seq<Offer>, unreach: Seq<IpNetwork>, verdicts: Seq<bool>) -> Seq<IpNetwork>
    decreases reach.len(),
{
    if reach.len() == 0 {
        unreach
    } else {
        let rest = withdrawals_for(reach.drop_last(), unreach, verdicts);
        if verdicts[reach.len() - 1] {
            rest
        } else {
            rest.push(reach.last().prefix)
        }
    }
}

/// Every best route is either offered to a neighbor or withdrawn from it.
pub proof fn offered_or_withdrawn(reach: Seq<Offer>, unreach: Seq<IpNetwork>, verdicts: Seq<bool>)
    ensures
        offers_for(reach, verdicts).len() + withdrawals_for(reach, unreach, verdicts).len() == reach.len()
            + unreach.len(),
    decreases reach.len(),
{
    if reach.len() > 0 {
        offered_or_withdrawn(reach.drop_last(), unreach, verdicts);
    }
}

/// Sorts out what a neighbor may get, given the verdict on each best route.
fn sort_out(reach: &Vec<Offer>, unreach: &Vec<IpNetwork>, verdicts: &Vec<bool>) -> (r: (Vec<Offer>, Vec<IpNetwork>))
    requires
        verdicts@.len() == reach@.len(),
    ensures
        r.0@ == offers_for(reach@, verdicts@),
        r.1@ == withdrawals_for(reach@, unreach@, verdicts@),
{
    let mut nbr_unreach = copy_nets(unreach);
    let mut nbr_reach: Vec<Offer> = Vec::new();
    let mut i: usize = 0;
    assert(reach@.take(0) =~= Seq::empty());
    while i < reach.len()
        invariant
            i <= reach@.len(),
            verdicts@.len() == reach@.len(),
            nbr_reach@ == offers_for(reach@.take(i as int), verdicts@),
            nbr_unreach@ == withdrawals_for(reach@.take(i as int), unreach@, verdicts@),
        decreases reach@.len() - i,
    {
        let offer = &reach[i];
        if verdicts[i] {
            nbr_reach.push(Offer { prefix: offer.prefix, route: offer.route.copy() });
        } else {
            nbr_unreach.push(offer.prefix);
        }
        proof {
            let next = reach@.take(i + 1);
            assert(next.drop_last() =~= reach@.take(i as int));
            assert(next.last() == reach@[i as int]);
        }
        i += 1;
    }
    assert(reach@.take(i as int) =~= reach@);
    (nbr_reach, nbr_unreach)
}

/// Whether routes are disseminated to a neighbor at all.
pub open spec fn receives<A: AddressFamily>(nbr: Neighbor) -> bool {
    nbr.session.state == State::Established && nbr.session.af_enabled(A::family())
}

/// A routing table and the updates that wait for a neighbor, after prefixes
/// were withdrawn from it, if there are any.
pub open spec fn after_withdrawal(o: Outgoing, index: PeerIndex, prefixes: Seq<IpNetwork>) -> Outgoing {
    if prefixes.len() == 0 {
        o
    } else {
        withdrawn(o, index, prefixes)
    }
}

/// What the dissemination to a neighbor comes to.
pub open spec fn disseminated<A: AddressFamily>(
    table: TableView,
    mid: Outgoing,
    nbr: Neighbor,
    offers: Seq<Offer>,
    shared: Shared,
    msgs: Seq<PolicyApplyMsg>,
    old_sets: AttrSetsCxt,
    sets: AttrSetsCxt,
) -> bool {
    if offers.len() == 0 {
        table == mid.table && msgs.len() == 0 && sets == old_sets
    } else {
        exists|attrs: Seq<Arc<RouteAttrs>>, keys: Seq<ExportKey>|
            #[trigger] advertised::<A>(table, mid.table, nbr, offers, shared, msgs, old_sets, sets, attrs, keys)
    }
}

proof fn offers_known(reach: Seq<Offer>, verdicts: Seq<bool>, dom: Set<IpNetwork>)
    requires
        forall|i: int|
            #![trigger reach[i]]
            0 <= i < reach.len() ==> reach[i].prefix.valid() && dom.contains(reach[i].prefix.masked()),
    ensures
        offers_for(reach, verdicts).len() <= reach.len(),
        forall|i: int|
            #![trigger offers_for(reach, verdicts)[i]]
            0 <= i < offers_for(reach, verdicts).len() ==> {
                let o = offers_for(reach, verdicts)[i];
                o.prefix.valid() && dom.contains(o.prefix.masked())
            },
    decreases reach.len(),
{
    if reach.len() > 0 {
        let prev = reach.drop_last();
        assert forall|i: int| #![trigger prev[i]] 0 <= i < prev.len() implies prev[i].prefix.valid() && dom.contains(
            prev[i].prefix.masked(),
        ) by {
            assert(reach[i] == prev[i]);
        }
        offers_known(prev, verdicts, dom);
        assert(reach[reach.len() - 1] == reach.last());
        assert forall|i: int|
            #![trigger offers_for(reach, verdicts)[i]]
            0 <= i < offers_for(reach, verdicts).len() implies ({
            let o = offers_for(reach, verdicts)[i];
            o.prefix.valid() && dom.contains(o.prefix.masked())
        }) by {
            if i < offers_for(prev, verdicts).len() {
                assert(offers_for(reach, verdicts)[i] == offers_for(prev, verdicts)[i]);
            }
        }
    }
}

proof fn withdrawals_valid(reach: Seq<Offer>, unreach: Seq<IpNetwork>, verdicts: Seq<bool>)
    requires
        forall|i: int| #![trigger reach[i]] 0 <= i < reach.len() ==> reach[i].prefix.valid(),
        all_valid(unreach),
    ensures
        all_valid(withdrawals_for(reach, unreach, verdicts)),
    decreases reach.len(),
{
    if reach.len() > 0 {
        let prev = reach.drop_last();
        assert forall|i: int| #![trigger prev[i]] 0 <= i < prev.len() implies prev[i].prefix.valid() by {
            assert(reach[i] == prev[i]);
        }
        withdrawals_valid(prev, unreach, verdicts);
        assert(reach[reach.len() - 1] == reach.last());
    }
}

/// Disseminates routes to a neighbor, given the verdict of its distribution
/// filter on each of them. Returns the requests to apply its export policies;
/// the UPDATE messages that are then queued are to be sent.
pub fn disseminate<A: AddressFamily>(
    nbr: &Neighbor,
    queue: &mut NeighborUpdateQueue,
    table: &mut RoutingTable,
    attr_sets: &mut AttrSetsCxt,
    shared: &Shared,
    reach: &Vec<Offer>,
    unreach: &Vec<IpNetwork>,
    verdicts: &Vec<bool>,
) -> (msgs: Vec<PolicyApplyMsg>)
    requires
        verdicts@.len() == reach@.len(),
        receives::<A>(*nbr) ==> nbr.session.conn_info is Some && export_policies_known(nbr.config@, A::family(), *shared),
        offers_stored(reach@, old(table)@.prefixes.dom()),
        all_valid(unreach@),
        old(attr_sets).wf(),
        old(attr_sets).room(reach@.len()),
    ensures
        !receives::<A>(*nbr) ==> final(table)@ == old(table)@ && final(queue)@ == old(queue)@ && msgs@.len() == 0
            && *final(attr_sets) == *old(attr_sets),
        receives::<A>(*nbr) ==> {
            let mid = after_withdrawal(
                Outgoing { table: old(table)@, queue: old(queue)@ },
                nbr.session.index,
                withdrawals_for(reach@, unreach@, verdicts@),
            );
            &&& final(queue)@ == mid.queue
            &&& disseminated::<A>(
                final(table)@,
                mid,
                *nbr,
                offers_for(reach@, verdicts@),
                *shared,
                msgs@,
                *old(attr_sets),
                *final(attr_sets),
            )
        },
        final(queue).reach == old(queue).reach,
        final(table)@.prefixes.dom() == old(table)@.prefixes.dom(),
        final(attr_sets).wf(),
        keeps_shared(*old(attr_sets), *final(attr_sets)),
        spends(*old(attr_sets), *final(attr_sets), reach@.len()),
{
    let ghost sets0 = *attr_sets;
    let mut msgs: Vec<PolicyApplyMsg> = Vec::new();
    match nbr.session.state {
        State::Established => {},
        _ => {
            return msgs;
        },
    }

    // Skip neighbors that haven't this address-family enabled.
    if !nbr.session.is_af_enabled(A::afi_safi()) {
        return msgs;
    }

    // Evaluate routes eligible for distribution to this neighbor.
    let ghost t0 = table@;
    proof {
        offers_known(reach@, verdicts@, t0.prefixes.dom());
        withdrawals_valid(reach@, unreach@, verdicts@);
        assert(attr_sets.room(offers_for(reach@, verdicts@).len()));
    }
    let (nbr_reach, nbr_unreach) = sort_out(reach, unreach, verdicts);

    // Withdraw unfeasible routes immediately.
    if nbr_unreach.len() > 0 {
        withdraw_routes(&nbr.session, table, queue, &nbr_unreach);
    }

    let ghost mid = Outgoing { table: table@, queue: queue@ };
    assert(mid == after_withdrawal(
        Outgoing { table: t0, queue: old(queue)@ },
        nbr.session.index,
        withdrawals_for(reach@, unreach@, verdicts@),
    ));

    // Advertise best routes.
    if nbr_reach.len() > 0 {
        msgs = advertise_routes::<A>(nbr, table, &nbr_reach, attr_sets, shared);
        proof {
            spends_less(sets0, *attr_sets, nbr_reach@.len(), reach@.len());
            let (attrs, keys) = choose|attrs: Seq<Arc<RouteAttrs>>, keys: Seq<ExportKey>|
                #[trigger] advertised::<A>(
                    table@,
                    mid.table,
                    *nbr,
                    nbr_reach@,
                    *shared,
                    msgs@,
                    sets0,
                    *attr_sets,
                    attrs,
                    keys,
                );
            assert(advertised::<A>(
                table@,
                mid.table,
                *nbr,
                offers_for(reach@, verdicts@),
                *shared,
                msgs@,
                sets0,
                *attr_sets,
                attrs,
                keys,
            ));
        }
    }
    assert(disseminated::<A>(
        table@,
        mid,
        *nbr,
        offers_for(reach@, verdicts@),
        *shared,
        msgs@,
        sets0,
        *attr_sets,
    ));
    msgs
}

// ===== removal of empty entries =====

/// Whether a destination no longer holds any data.
pub open spec fn prunable(dest: DestinationView) -> bool {
    &&& dest.local is None
    &&& dest.redistribute is None
    &&& forall|i: PeerIndex| #[trigger]
        dest.adj_rib.contains_key(i) ==> dest.adj_rib[i].adj_in is None && dest.adj_rib[i].adj_out is None
}

fn is_prunable(dest: &Destination) -> (r: bool)
    ensures
        r == prunable(dest@),
{
    if dest.local.is_some() || dest.redistribute.is_some() {
        return false;
    }
    let n = dest.adj_rib.len();
    let ghost keys = dest.adj_rib.keys();
    let mut i: usize = 0;
    while i < n
        invariant
            i <= n,
            n == keys.len(),
            keys == dest.adj_rib.keys(),
            dest.adj_rib.keys_sorted(),
            forall|j: int|
                #![trigger keys[j]]
                0 <= j < i ==> dest.adj_rib@[keys[j]].adj_in is None && dest.adj_rib@[keys[j]].adj_out is None,
        decreases n - i,
    {
        if !dest.adj_rib.value_at(i).is_empty() {
            proof {
                assert(keys.to_set().contains(keys[i as int]));
                assert(dest.adj_rib@.contains_key(keys[i as int]));
            }
            return false;
        }
        i += 1;
    }
    proof {
        assert forall|k: PeerIndex| #[trigger] dest.adj_rib@.contains_key(k) implies dest.adj_rib@[k].adj_in is None
            && dest.adj_rib@[k].adj_out is None by {
            assert(keys.to_set().contains(k));
            let j = choose|j: int| 0 <= j < keys.len() && keys[j] == k;
            assert(dest.adj_rib@[keys[j]].adj_in is None);
        }
    }
    true
}

/// Whether a queued prefix stands for a network.
pub open spec fn was_queued(queued: Seq<IpNetwork>, k: IpNetwork) -> bool {
    exists|i: int| 0 <= i < queued.len() && (#[trigger] queued[i]).masked() == k
}

/// Removes routing table entries that no longer hold any data.
pub fn prune_prefixes(table: &mut RoutingTable, queued: &OrdSet<IpNetwork>)
    requires
        forall|p: IpNetwork| #[trigger] queued@.contains(p) ==> p.valid(),
    ensures
        forall|k: IpNetwork| #[trigger]
            final(table)@.prefixes.contains_key(k) == (old(table)@.prefixes.contains_key(k) && !(was_queued(
                queued.items(),
                k,
            ) && prunable(old(table)@.prefixes[k]))),
        forall|k: IpNetwork| #[trigger]
            final(table)@.prefixes.contains_key(k) ==> final(table)@.prefixes[k] == old(table)@.prefixes[k],
        final(table).queued_prefixes == old(table).queued_prefixes,
        final(table).nht == old(table).nht,
        final(table).prefix_counters == old(table).prefix_counters,
{
    let ghost t0 = table@;
    let n = queued.len();
    let ghost items = queued.items();
    let mut i: usize = 0;
    while i < n
        invariant
            i <= n,
            n == items.len(),
            items == queued.items(),
            queued.items_sorted(),
            t0 == old(table)@,
            forall|p: IpNetwork| #[trigger] queued@.contains(p) ==> p.valid(),
            forall|k: IpNetwork| #[trigger]
                table@.prefixes.contains_key(k) == (t0.prefixes.contains_key(k) && !(was_queued(
                    items.take(i as int),
                    k,
                ) && prunable(t0.prefixes[k]))),
            forall|k: IpNetwork| #[trigger]
                table@.prefixes.contains_key(k) ==> table@.prefixes[k] == t0.prefixes[k],
            table.queued_prefixes == old(table).queued_prefixes,
            table.nht == old(table).nht,
            table.prefix_counters == old(table).prefix_counters,
        decreases n - i,
    {
        let prefix = *queued.at(i);
        proof {
            assert(items.to_set().contains(items[i as int]));
            assert(queued@.contains(prefix));
        }
        let ghost before = table@.prefixes;
        let remove = match table.prefixes.get(&prefix) {
            Some(dest) => is_prunable(dest),
            None => false,
        };
        if remove {
            table.prefixes.remove(&prefix);
        }
        proof {
            let k0 = prefix.masked();
            let done = items.take(i as int);
            let next = items.take(i + 1);
            assert forall|k: IpNetwork| was_queued(next, k) == (was_queued(done, k) || k == k0) by {
                if was_queued(done, k) {
                    let j = choose|j: int| 0 <= j < done.len() && (#[trigger] done[j]).masked() == k;
                    assert(next[j] == done[j]);
                }
                if k == k0 {
                    assert(next[i as int] == prefix);
                }
                if was_queued(next, k) {
                    let j = choose|j: int| 0 <= j < next.len() && (#[trigger] next[j]).masked() == k;
                    if j < i {
                        assert(done[j] == next[j]);
                    }
                }
            }
            assert forall|k: IpNetwork| #[trigger] table@.prefixes.contains_key(k) == (t0.prefixes.contains_key(k) && !(
            was_queued(next, k) && prunable(t0.prefixes[k]))) by {
                assert(before.contains_key(k) == (t0.prefixes.contains_key(k) && !(was_queued(done, k) && prunable(
                    t0.prefixes[k],
                ))));
            }
            assert forall|k: IpNetwork| #[trigger] table@.prefixes.contains_key(k) implies table@.prefixes[k]
                == t0.prefixes[k] by {
                assert(before.contains_key(k));
            }
        }
        i += 1;
    }
    assert(items.take(i as int) =~= items);
}

// ===== redistribute policy import result =====

/// Whether a destination is as before but for the redistributed route, whose
/// attributes are interned.
pub open spec fn redistributed(
    dest: DestinationView,
    old_dest: DestinationView,
    rpinfo: RoutePolicyInfo,
    now: Instant,
    old_sets: AttrSetsCxt,
    sets: AttrSetsCxt,
) -> bool {
    &&& dest.local == old_dest.local
    &&& dest.adj_rib == old_dest.adj_rib
    &&& dest.redistribute matches Some(r) && {
        &&& r.origin == rpinfo.origin
        &&& r.route_type == RouteType::Internal
        &&& got(old_sets, sets, rpinfo@.attrs, r.attrs)
        &&& r.last_modified == now
        &&& r.selection == crate::bgp::events::fresh()
    }
}

/// Processes the result of the redistribution policies on a route. The
/// Decision Process is to be scheduled afterwards.
pub fn process_redistribute_policy_import<A: AddressFamily>(
    rib: &mut Rib,
    prefix: IpNetwork,
    result: PolicyResult<RoutePolicyInfo>,
    now: Instant,
)
    requires
        prefix.valid(),
        rib_ready(*old(rib), 1),
    ensures
        ({
            let t0 = A::table_of(old(rib).tables)@;
            let t = A::table_of(final(rib).tables)@;
            let k = prefix.masked();
            &&& t.queued_prefixes == t0.queued_prefixes.insert(prefix)
            &&& t.nht == t0.nht
            &&& t.prefix_counters == t0.prefix_counters
            &&& match result {
                // Update redistributed route in the RIB.
                PolicyResult::Accept(rpinfo) => {
                    &&& t.prefixes == t0.prefixes.insert(k, t.prefixes[k])
                    &&& redistributed(
                        t.prefixes[k],
                        crate::bgp::events::dest_of(t0.prefixes, k),
                        rpinfo,
                        now,
                        old(rib).attr_sets,
                        final(rib).attr_sets,
                    )
                },
                // Remove redistributed route from the RIB.
                PolicyResult::Reject => {
                    &&& t.prefixes == if t0.prefixes.contains_key(k) {
                        t0.prefixes.insert(k, DestinationView { redistribute: None, ..t0.prefixes[k] })
                    } else {
                        t0.prefixes
                    }
                    &&& final(rib).attr_sets == old(rib).attr_sets
                },
            }
            &&& final(rib).tables == A::with_table(old(rib).tables, A::table_of(final(rib).tables))
        }),
        final(rib).attr_sets.wf(),
        keeps_shared(old(rib).attr_sets, final(rib).attr_sets),
        spends(old(rib).attr_sets, final(rib).attr_sets, 1),
{
    let ghost rib0 = *rib;
    let ghost k = prefix.masked();
    match result {
        PolicyResult::Accept(rpinfo) => {
            let route_attrs = rib.attr_sets.get_route_attr_sets(&rpinfo.attrs);
            proof {
                assert forall|r: Arc<RouteAttrs>| #[trigger] rib0.attr_sets.shares(r) implies rib.attr_sets.shares(
                    r,
                ) by {
                    interning_keeps_shared(rib0.attr_sets, rib.attr_sets, rpinfo@.attrs, route_attrs, r);
                }
            }
            let table = A::table(&mut rib.tables);
            let ghost before = table.prefixes@;

            // Get prefix RIB entry.
            if !table.prefixes.contains_key(&prefix) {
                table.prefixes.insert(&prefix, Destination::default());
            }
            let ghost mid = table.prefixes@;

            // Update redistributed route in the RIB.
            if let Some(dest) = table.prefixes.get_mut(&prefix) {
                let ghost d0 = *dest;
                dest.redistribute = Some(
                    Redistribute {
                        origin: rpinfo.origin,
                        route_type: RouteType::Internal,
                        attrs: route_attrs,
                        last_modified: now,
                        selection: SelectionState::default(),
                    },
                );
                proof {
                    views_insert(mid, k, *dest);
                    assert(views(mid).insert(k, dest@) =~= views(before).insert(k, dest@));
                }
            }

            // Enqueue prefix for the BGP Decision Process.
            table.queued_prefixes.insert(prefix);
            proof {
                A::table_replaced(rib0.tables, *table);
            }
        },
        PolicyResult::Reject => {
            let table = A::table(&mut rib.tables);
            let ghost before = table.prefixes@;
            if let Some(dest) = table.prefixes.get_mut(&prefix) {
                dest.redistribute = None;
                proof {
                    views_insert(before, k, *dest);
                }
            }
            table.queued_prefixes.insert(prefix);
            proof {
                A::table_replaced(rib0.tables, *table);
            }
        },
    }
}

} // verus!
