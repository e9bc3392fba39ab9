use std::sync::Arc;

use holo::bgp::af::{nlri_chunks, nlri_len, Ipv4Unicast};
use holo::bgp::attribute::{AsPath, AsPathSegment, AsPathSegmentType, Attrs, BaseAttrs, CommList, Origin};
use holo::bgp::configuration::{
    apply_instance, process_event, ConfigChange, Defaults, Event, GlobalAfiSafiChange, Instance, InstanceCfg,
    Neighbor, NeighborChange, NeighborEntryChange,
};
use holo::bgp::decision::{prune_prefixes, select_routes};
use holo::bgp::events::{
    process_nbr_route_refresh, process_nbr_timer, process_tcp_accept, process_tcp_connect, update_steps, ConnAction,
    NlriStep, Shared,
};
use holo::bgp::intern::{AttrSets, AttrSetsCxt, RouteAttrs};
use holo::bgp::neighbor::{NeighborUpdateQueue, Session, State, UnreachNlri, ReachNlri, UpdateMsg};
use holo::bgp::policy::{
    action_set_comm, BgpMatchSets, BgpSetCommMethod, BgpSetCommOptions, DefaultPolicyType, MatchSets, PolicyType,
};
use holo::bgp::process::{decision_process, decision_process_af, Queues};
use holo::bgp::rib::{
    attrs_tx_update, best_path, nexthop_track, nexthop_untrack, AdjRib, BestRoute, Destination, IbusMsg, Redistribute, Route,
    Rib, RouteCompare, RouteOrigin, RouteRef, RouteRejectReason, RoutingTable, RoutingTables, SelectionState,
};
use holo::bgp::types::{
    AfiSafi, DistanceCfg, MultipathCfg, PeerType, RouteSelectionCfg, RouteType, TcpConnInfo,
};
use holo::collections::{OrdSet, Table};
use holo::ip::{AddressFamily, IpAddr, IpNetwork};
use holo::northbound::error::ApplyError;
use holo::northbound::trace::TraceOptionPacketType;
use holo::prefix_table::PrefixTable;
use holo::protocol::Protocol;

fn v4(a: u8, b: u8, c: u8, d: u8) -> IpAddr {
    IpAddr::V4(u32::from_be_bytes([a, b, c, d]))
}

fn net(a: u8, b: u8, c: u8, plen: u8) -> IpNetwork {
    IpNetwork { addr: v4(a, b, c, 0), plen }
}

fn bgp_defaults() -> Defaults {
    Defaults {
        reject_as_sets: false,
        distance: DistanceCfg { external: 20, internal: 200 },
        multipath: MultipathCfg {
            enabled: false,
            ebgp_allow_multiple_as: false,
            ebgp_max_paths: 1,
            ibgp_max_paths: 1,
        },
        policy: DefaultPolicyType::RejectRoute,
        nbr_enabled: true,
        log_neighbor_state_changes: true,
        connect_retry_interval: 30,
        holdtime: 90,
        ebgp_multihop_enabled: false,
        passive_mode: false,
        secure_session_enabled: false,
        nbr_afi_safi_enabled: false,
        trace: TraceOptionPacketType { tx: true, rx: true },
    }
}

fn session(index: u32, addr: IpAddr) -> Session {
    Session {
        index,
        remote_addr: addr,
        peer_type: PeerType::External,
        state: State::Established,
        identifier: Some(1),
        conn_info: None,
        shared_subnet: true,
        ipv4_unicast_enabled: true,
        ipv6_unicast_enabled: false,
    }
}

// ===== comparison of routes =====

fn base(path: Vec<u32>) -> BaseAttrs {
    let segments = vec![AsPathSegment { seg_type: AsPathSegmentType::AsSequence, members: path }];
    BaseAttrs { as_path: AsPath { segments }, nexthop: Some(v4(192, 0, 2, 1)), ..BaseAttrs::default() }
}

fn from_peer(n: u8) -> RouteOrigin {
    RouteOrigin::Neighbor { identifier: n as u32, remote_addr: v4(10, 0, 0, n) }
}

fn route(base: &BaseAttrs, n: u8) -> RouteRef<'_> {
    RouteRef { origin: from_peer(n), route_type: RouteType::External, base, igp_cost: None }
}

#[test]
fn routes_are_compared_step_by_step() {
    let cfg = RouteSelectionCfg::default();
    let short = base(vec![1]);
    let long = base(vec![1, 2]);
    assert_eq!(
        route(&short, 1).compare(&route(&long, 2), &cfg, None),
        RouteCompare::Preferred(RouteRejectReason::AsPathLonger)
    );
    assert_eq!(
        route(&long, 2).compare(&route(&short, 1), &cfg, None),
        RouteCompare::LessPreferred(RouteRejectReason::AsPathLonger)
    );

    let mut liked = base(vec![1, 2]);
    liked.local_pref = Some(200);
    assert_eq!(
        route(&liked, 2).compare(&route(&short, 1), &cfg, None),
        RouteCompare::Preferred(RouteRejectReason::LocalPrefLower)
    );

    let mut igp = base(vec![1]);
    igp.origin = Origin::Igp;
    assert_eq!(
        route(&short, 1).compare(&route(&igp, 2), &cfg, None),
        RouteCompare::LessPreferred(RouteRejectReason::OriginTypeHigher)
    );

    let near = RouteRef { igp_cost: Some(5), ..route(&short, 2) };
    let far = RouteRef { igp_cost: Some(6), ..route(&short, 1) };
    assert_eq!(near.compare(&far, &cfg, None), RouteCompare::Preferred(RouteRejectReason::NexthopCostHigher));

    let internal = RouteRef { route_type: RouteType::Internal, ..route(&short, 1) };
    assert_eq!(
        route(&short, 2).compare(&internal, &cfg, None),
        RouteCompare::Preferred(RouteRejectReason::PreferExternal)
    );
    assert_eq!(
        route(&short, 1).compare(&route(&short, 2), &cfg, None),
        RouteCompare::Preferred(RouteRejectReason::HigherRouterId)
    );
}

// ===== decision process =====

fn table() -> RoutingTable {
    RoutingTable {
        prefixes: PrefixTable::new(),
        queued_prefixes: OrdSet::new(),
        nht: Table::new(),
        prefix_counters: Table::new(),
    }
}

fn attrs_with(sets: &mut AttrSetsCxt, path: Vec<u32>) -> Arc<RouteAttrs> {
    let attrs = Attrs { base: base(path), ..Attrs::default() };
    sets.get_route_attr_sets(&attrs)
}

fn idle() -> SelectionState {
    SelectionState { igp_cost: None, ineligible_reason: None, reject_reason: None }
}

#[test]
fn redistributed_routes_are_selected_and_pruned() {
    let mut sets = AttrSetsCxt::new();
    let attrs = attrs_with(&mut sets, vec![]);
    let prefix = net(10, 1, 0, 16);
    let mut table = table();
    table.prefixes.insert(
        &prefix,
        Destination {
            local: None,
            adj_rib: Table::new(),
            redistribute: Some(Redistribute {
                origin: RouteOrigin::Protocol(Protocol::STATIC),
                route_type: RouteType::Internal,
                attrs,
                last_modified: 1,
                selection: idle(),
            }),
        },
    );
    table.queued_prefixes.insert(prefix);
    let config = InstanceCfg::new(&bgp_defaults());
    let mut ibus = vec![];
    let d = select_routes::<Ipv4Unicast>(&config, &Table::new(), &mut table, &mut ibus);
    assert_eq!(d.reach.len(), 1);
    assert_eq!(d.reach[0].prefix, prefix);
    assert!(d.unreach.is_empty());
    assert!(table.queued_prefixes.is_empty());
    assert!(table.prefixes.get(&prefix).unwrap().local.is_some());
    let info = d.reach[0].route.policy_info();
    assert_eq!(info.origin, RouteOrigin::Protocol(Protocol::STATIC));
    assert_eq!(info.igp_metric, None);

    // Once the route is gone, so is the destination.
    if let Some(dest) = table.prefixes.get_mut(&prefix) {
        dest.redistribute = None;
    }
    table.queued_prefixes.insert(prefix);
    let d = select_routes::<Ipv4Unicast>(&config, &Table::new(), &mut table, &mut ibus);
    assert!(d.reach.is_empty());
    assert_eq!(d.unreach, vec![prefix]);
    prune_prefixes(&mut table, &d.queued);
    assert!(table.prefixes.get(&prefix).is_none());
}

/// A redistributed route that cannot be used for now is kept until it is
/// withdrawn.
#[test]
fn unusable_redistributed_routes_are_not_pruned() {
    let mut sets = AttrSetsCxt::new();
    let attrs = attrs_with(&mut sets, vec![65000]);
    let prefix = net(10, 1, 0, 16);
    let mut table = table_with_static(&mut sets, prefix);
    if let Some(dest) = table.prefixes.get_mut(&prefix) {
        if let Some(route) = &mut dest.redistribute {
            route.attrs = attrs;
        }
    }
    let mut config = InstanceCfg::new(&bgp_defaults());
    config.asn = 65000;
    let neighbors = two_neighbors();
    let mut queues = no_updates();
    let mut ibus = vec![];
    let msgs = decision_process_af::<Ipv4Unicast, _>(
        &config,
        &neighbors,
        &mut queues,
        &mut table,
        &mut sets,
        &shared(),
        &|_: &Neighbor, _: &BestRoute| true,
        &mut ibus,
    );
    assert!(msgs.is_empty());
    let dest = table.prefixes.get(&prefix).unwrap();
    assert!(dest.local.is_none());
    assert!(dest.redistribute.is_some());
    assert!(table.queued_prefixes.is_empty());
}

fn shared() -> Shared {
    Shared {
        policies: Table::new(),
        match_sets: Arc::new(MatchSets {
            prefixes: Table::new(),
            neighbors: Table::new(),
            tags: Table::new(),
            bgp: BgpMatchSets {
                as_paths: Table::new(),
                comms: Table::new(),
                ext_comms: Table::new(),
                extv6_comms: Table::new(),
                large_comms: Table::new(),
                nexthops: Table::new(),
            },
        }),
    }
}

/// A table with a static route that waits for its selection.
fn table_with_static(sets: &mut AttrSetsCxt, prefix: IpNetwork) -> RoutingTable {
    let attrs = attrs_with(sets, vec![]);
    let mut table = table();
    table.prefixes.insert(
        &prefix,
        Destination {
            local: None,
            adj_rib: Table::new(),
            redistribute: Some(Redistribute {
                origin: RouteOrigin::Protocol(Protocol::STATIC),
                route_type: RouteType::Internal,
                attrs,
                last_modified: 1,
                selection: idle(),
            }),
        },
    );
    table.queued_prefixes.insert(prefix);
    table
}

/// One neighbor that is up, and one that is not.
fn two_neighbors() -> Table<IpAddr, Neighbor> {
    let mut up = Neighbor::new(&bgp_defaults(), 1, v4(10, 0, 0, 1), PeerType::External);
    up.session = session(1, v4(10, 0, 0, 1));
    up.session.conn_info = Some(TcpConnInfo { local_addr: v4(10, 0, 0, 9), remote_addr: v4(10, 0, 0, 1) });
    let down = Neighbor::new(&bgp_defaults(), 2, v4(10, 0, 0, 2), PeerType::External);
    let mut neighbors = Table::new();
    neighbors.insert(v4(10, 0, 0, 2), down);
    neighbors.insert(v4(10, 0, 0, 1), up);
    neighbors
}

fn no_updates() -> Vec<NeighborUpdateQueue> {
    vec![
        NeighborUpdateQueue { reach: vec![], unreach: OrdSet::new() },
        NeighborUpdateQueue { reach: vec![], unreach: OrdSet::new() },
    ]
}

#[test]
fn best_routes_go_to_established_neighbors() {
    let mut sets = AttrSetsCxt::new();
    let prefix = net(10, 1, 0, 16);
    let mut table = table_with_static(&mut sets, prefix);
    let config = InstanceCfg::new(&bgp_defaults());
    let neighbors = two_neighbors();
    let mut queues = no_updates();
    let mut ibus = vec![];
    let msgs = decision_process_af::<Ipv4Unicast, _>(
        &config,
        &neighbors,
        &mut queues,
        &mut table,
        &mut sets,
        &shared(),
        &|_: &Neighbor, _: &BestRoute| true,
        &mut ibus,
    );
    assert_eq!(msgs.len(), 1);
    assert_eq!(msgs[0].policy_type, PolicyType::Export);
    assert_eq!(msgs[0].nbr_addr, v4(10, 0, 0, 1));
    assert_eq!(msgs[0].afi_safi, AfiSafi::Ipv4Unicast);
    assert_eq!(msgs[0].prefixes, vec![prefix]);
    assert_eq!(msgs[0].route.origin, RouteOrigin::Protocol(Protocol::STATIC));
    assert!(table.queued_prefixes.is_empty());
    assert!(table.prefixes.get(&prefix).unwrap().local.is_some());

    // Nothing is queued any more, so nothing happens.
    let msgs = decision_process_af::<Ipv4Unicast, _>(
        &config,
        &neighbors,
        &mut queues,
        &mut table,
        &mut sets,
        &shared(),
        &|_: &Neighbor, _: &BestRoute| true,
        &mut ibus,
    );
    assert!(msgs.is_empty() && ibus.is_empty());
    assert!(table.prefixes.get(&prefix).unwrap().local.is_some());
}

#[test]
fn filtered_routes_are_not_offered() {
    let mut sets = AttrSetsCxt::new();
    let prefix = net(10, 1, 0, 16);
    let mut table = table_with_static(&mut sets, prefix);
    let mut queues = no_updates();
    let mut ibus = vec![];
    let msgs = decision_process_af::<Ipv4Unicast, _>(
        &InstanceCfg::new(&bgp_defaults()),
        &two_neighbors(),
        &mut queues,
        &mut table,
        &mut sets,
        &shared(),
        &|_: &Neighbor, route: &BestRoute| route.route_type == RouteType::External,
        &mut ibus,
    );
    assert!(msgs.is_empty());
    assert!(table.prefixes.get(&prefix).unwrap().local.is_some());
}

/// Adds a static route that waits for its selection.
fn add_static(table: &mut RoutingTable, prefix: IpNetwork, attrs: Arc<RouteAttrs>) {
    table.prefixes.insert(
        &prefix,
        Destination {
            local: None,
            adj_rib: Table::new(),
            redistribute: Some(Redistribute {
                origin: RouteOrigin::Protocol(Protocol::STATIC),
                route_type: RouteType::Internal,
                attrs,
                last_modified: 1,
                selection: idle(),
            }),
        },
    );
    table.queued_prefixes.insert(prefix);
}

/// Export policies see each route with its own attributes, and routes that share
/// them together.
#[test]
fn routes_are_exported_by_their_attributes() {
    let mut sets = AttrSetsCxt::new();
    let mut table = table();
    for (third, path) in [(1, vec![65001]), (2, vec![65002]), (3, vec![65001])] {
        let attrs = attrs_with(&mut sets, path);
        add_static(&mut table, net(10, 1, third, 24), attrs);
    }
    let msgs = decision_process_af::<Ipv4Unicast, _>(
        &InstanceCfg::new(&bgp_defaults()),
        &two_neighbors(),
        &mut no_updates(),
        &mut table,
        &mut sets,
        &shared(),
        &|_: &Neighbor, _: &BestRoute| true,
        &mut vec![],
    );
    let mut seen: Vec<_> = msgs
        .iter()
        .map(|msg| (msg.route.attrs.base.as_path.segments[0].members.clone(), msg.prefixes.clone()))
        .collect();
    seen.sort_by_key(|(path, _)| path.clone());
    assert_eq!(
        seen,
        vec![
            (vec![65001], vec![net(10, 1, 1, 24), net(10, 1, 3, 24)]),
            (vec![65002], vec![net(10, 1, 2, 24)]),
        ]
    );

    // What was interned for the neighbor is what its routes hold.
    for third in 1..4 {
        let dest = table.prefixes.get(&net(10, 1, third, 24)).unwrap();
        let sent = dest.adj_rib.get(&1).unwrap().out_pre().unwrap();
        assert!(Arc::ptr_eq(&sent.attrs, &sets.get_route_attr_sets(&sent.attrs.get())));
    }
}

/// Attributes that no route has any more are released once the process is done.
#[test]
fn unused_attributes_are_released() {
    let mut sets = AttrSetsCxt::new();
    let prefix = net(10, 1, 0, 16);
    let ipv4_unicast = table_with_static(&mut sets, prefix);
    drop(attrs_with(&mut sets, vec![65001, 65002]));
    let unused = sets.route.len();
    let mut rib = Rib { attr_sets: sets, tables: RoutingTables { ipv4_unicast, ipv6_unicast: table() } };
    let mut queues = Queues { ipv4_unicast: vec![], ipv6_unicast: vec![] };
    decision_process(
        &InstanceCfg::new(&bgp_defaults()),
        &Table::new(),
        &mut queues,
        &mut rib,
        &shared(),
        &|_: &Neighbor, _: &BestRoute| true,
        &mut vec![],
    );
    assert_eq!(rib.attr_sets.route.len(), unused - 1);
}

#[test]
fn all_address_families_are_processed() {
    let mut sets = AttrSetsCxt::new();
    let prefix = net(10, 1, 0, 16);
    let ipv4_unicast = table_with_static(&mut sets, prefix);
    let prefix6 = IpNetwork { addr: IpAddr::V6(0x20010db8 << 96), plen: 32 };
    let ipv6_unicast = table_with_static(&mut sets, prefix6);
    let mut rib = Rib { attr_sets: sets, tables: RoutingTables { ipv4_unicast, ipv6_unicast } };
    let mut queues = Queues { ipv4_unicast: no_updates(), ipv6_unicast: no_updates() };
    let mut ibus = vec![];
    let msgs = decision_process(
        &InstanceCfg::new(&bgp_defaults()),
        &two_neighbors(),
        &mut queues,
        &mut rib,
        &shared(),
        &|_: &Neighbor, _: &BestRoute| true,
        &mut ibus,
    );
    assert_eq!(msgs.ipv4_unicast.len(), 1);
    // The neighbor has not enabled IPv6.
    assert!(msgs.ipv6_unicast.is_empty());
    assert!(rib.tables.ipv4_unicast.prefixes.get(&prefix).unwrap().local.is_some());
    assert!(rib.tables.ipv6_unicast.prefixes.get(&prefix6).unwrap().local.is_some());
    assert!(rib.tables.ipv6_unicast.queued_prefixes.is_empty());
}

#[test]
fn shorter_paths_win() {
    let mut sets = AttrSetsCxt::new();
    let prefix = net(10, 2, 0, 16);
    let mut table = table();
    let mut ibus = vec![];
    nexthop_track(&mut table.nht, prefix, v4(192, 0, 2, 1), &mut ibus);
    if let Some(entry) = table.nht.get_mut(&v4(192, 0, 2, 1)) {
        entry.metric = Some(7);
    }
    let mut adj_rib = Table::new();
    for (index, path) in [(1, vec![65001, 65002]), (2, vec![65003])] {
        let mut rib = AdjRib { adj_in: None, adj_out: None };
        let attrs = attrs_with(&mut sets, path);
        rib.update_in_pre(from_peer(index as u8), RouteType::External, Route::new(attrs.clone(), 1));
        assert!(rib.update_in_post(Route::new(attrs, 1)));
        adj_rib.insert(index, rib);
    }
    table.prefixes.insert(&prefix, Destination { local: None, adj_rib, redistribute: None });
    table.queued_prefixes.insert(prefix);

    let mut config = InstanceCfg::new(&bgp_defaults());
    config.asn = 65000;
    let d = select_routes::<Ipv4Unicast>(&config, &Table::new(), &mut table, &mut ibus);
    assert_eq!(d.reach.len(), 1);
    assert_eq!(d.reach[0].route.origin, from_peer(2));
    assert_eq!(d.reach[0].route.igp_cost, Some(7));
    assert!(ibus.iter().any(|msg| matches!(msg, IbusMsg::RouteInstall { distance: 20, .. })));

    // Nothing changes the second time.
    table.queued_prefixes.insert(prefix);
    let d = select_routes::<Ipv4Unicast>(&config, &Table::new(), &mut table, &mut ibus);
    assert!(d.reach.is_empty() && d.unreach.is_empty());
}

#[test]
fn the_best_route_does_not_depend_on_the_order() {
    let nexthop = v4(192, 0, 2, 1);
    let mut nht = Table::new();
    let mut ibus = vec![];
    nexthop_track(&mut nht, net(10, 2, 0, 16), nexthop, &mut ibus);
    if let Some(entry) = nht.get_mut(&nexthop) {
        entry.metric = Some(7);
    }
    let cfg = RouteSelectionCfg { always_compare_med: true, ..RouteSelectionCfg::default() };
    for order in [[1, 2, 3], [3, 2, 1], [2, 3, 1]] {
        let mut sets = AttrSetsCxt::new();
        let mut adj_rib = Table::new();
        for (index, n) in order.iter().enumerate() {
            let mut attrs = Attrs { base: base(vec![65000 + n]), ..Attrs::default() };
            attrs.base.med = Some(10 * n);
            let attrs = sets.get_route_attr_sets(&attrs);
            let mut rib = AdjRib { adj_in: None, adj_out: None };
            rib.update_in_pre(from_peer(*n as u8), RouteType::External, Route::new(attrs.clone(), 1));
            assert!(rib.update_in_post(Route::new(attrs, 1)));
            adj_rib.insert(index as u32, rib);
        }
        let mut dest = Destination { local: None, adj_rib, redistribute: None };
        let best = best_path::<Ipv4Unicast>(&mut dest, 64999, &nht, &cfg).unwrap();
        assert_eq!(best.origin, from_peer(1));
    }
}

#[test]
fn best_routes_can_be_copied() {
    let mut sets = AttrSetsCxt::new();
    let attrs = attrs_with(&mut sets, vec![3]);
    let best = BestRoute {
        origin: from_peer(1),
        route_type: RouteType::External,
        attrs,
        last_modified: 4,
        igp_cost: Some(2),
    };
    let copy = best.copy();
    assert_eq!((copy.origin, copy.igp_cost, copy.last_modified), (best.origin, Some(2), 4));
    assert_eq!(copy.attrs.key(), best.attrs.key());
}

// ===== next hops =====

#[test]
fn untracking_undoes_tracking() {
    let mut nht = Table::new();
    let mut ibus = vec![];
    let addr = v4(192, 0, 2, 9);
    nexthop_track(&mut nht, net(10, 0, 0, 8), addr, &mut ibus);
    nexthop_track(&mut nht, net(10, 0, 0, 8), addr, &mut ibus);
    nexthop_track(&mut nht, net(11, 0, 0, 8), addr, &mut ibus);
    assert_eq!(ibus.len(), 1);
    assert!(matches!(ibus[0], IbusMsg::NexthopTrack { addr: a } if a == addr));
    nexthop_untrack(&mut nht, &net(10, 0, 0, 8), addr, &mut ibus);
    nexthop_untrack(&mut nht, &net(11, 0, 0, 8), addr, &mut ibus);
    assert_eq!(ibus.len(), 1);
    assert!(nht.contains_key(&addr));
    nexthop_untrack(&mut nht, &net(10, 0, 0, 8), addr, &mut ibus);
    assert!(matches!(ibus[1], IbusMsg::NexthopUntrack { addr: a } if a == addr));
    assert!(!nht.contains_key(&addr));
}

// ===== attributes =====

#[test]
fn equal_attributes_are_shared() {
    let mut sets = AttrSetsCxt::new();
    let a = attrs_with(&mut sets, vec![1]);
    let b = attrs_with(&mut sets, vec![1]);
    let c = attrs_with(&mut sets, vec![2]);
    assert_eq!(a.key(), b.key());
    assert_ne!(a.key(), c.key());
    assert!(a.same(&b) && !a.same(&c));

    // What is still in use survives the sweep, and is found again.
    let key = a.key();
    drop(b);
    drop(c);
    sets.sweep();
    let again = attrs_with(&mut sets, vec![1]);
    assert_eq!(again.key(), key);
    drop(a);
    drop(again);
    sets.sweep();
    sets.sweep();
    let fresh = attrs_with(&mut sets, vec![1]);
    assert_ne!(fresh.key(), key);
}

#[test]
fn attributes_keep_their_key_while_used() {
    let mut sets = AttrSetsCxt::new();
    let a = attrs_with(&mut sets, vec![1]);
    let b = attrs_with(&mut sets, vec![2]);
    assert!(Arc::ptr_eq(&a, &attrs_with(&mut sets, vec![1])));
    assert_eq!(sets.route.len(), 2);

    // A second request adds nothing, before and after a sweep.
    sets.sweep();
    assert_eq!(sets.route.len(), 2);
    assert!(Arc::ptr_eq(&a, &attrs_with(&mut sets, vec![1])));
    assert!(Arc::ptr_eq(&b, &attrs_with(&mut sets, vec![2])));
    assert_eq!(sets.route.len(), 2);

    // What nobody uses is gone at once, and its keys are not used again.
    let gone = b.key();
    drop(b);
    sets.sweep();
    assert_eq!(sets.route.len(), 1);
    let c = attrs_with(&mut sets, vec![3]);
    let d = attrs_with(&mut sets, vec![2]);
    assert!(c.key() != gone && d.key() != gone && c.key() != d.key());
    assert!(Arc::ptr_eq(&a, &attrs_with(&mut sets, vec![1])));
}

#[test]
fn only_entries_with_other_holders_are_retained() {
    let mut sets: AttrSets<BaseAttrs> = AttrSets::new();
    let indexes: Vec<u64> = (1..4).map(|n| sets.get(&base(vec![n])).index).collect();
    sets.retain_referenced(&vec![2, 1, 3]);
    assert_eq!(sets.get(&base(vec![1])).index, indexes[0]);
    assert_eq!(sets.get(&base(vec![3])).index, indexes[2]);
    assert!(!indexes.contains(&sets.get(&base(vec![2])).index));

    let mut cxt = AttrSetsCxt::new();
    let routes: Vec<_> = (1..4).map(|n| attrs_with(&mut cxt, vec![n])).collect();
    cxt.retain_routes(&vec![1, 2, 1]);
    assert_eq!(cxt.route.len(), 1);
    assert!(Arc::ptr_eq(&cxt.route[0], &routes[1]));
}

#[test]
fn external_peers_see_no_local_preference() {
    let mut attrs = Attrs::default();
    attrs.base.local_pref = Some(100);
    attrs_tx_update(&mut attrs, &session(1, v4(10, 0, 0, 1)), 65000);
    assert_eq!(attrs.base.local_pref, None);
}

#[test]
fn community_lists_are_never_empty() {
    let mut comms: OrdSet<u32> = OrdSet::new();
    comms.insert(1);
    comms.insert(2);
    let method = BgpSetCommMethod::Inline(comms);
    let sets = Table::new();
    let mut list: Option<CommList<u32>> = None;
    action_set_comm(&BgpSetCommOptions::Add, &method, &sets, &mut list);
    assert_eq!(list.as_ref().map(|list| list.0.to_vec()), Some(vec![1, 2]));
    action_set_comm(&BgpSetCommOptions::Remove, &method, &sets, &mut list);
    assert!(list.is_none());
    action_set_comm(&BgpSetCommOptions::Replace, &method, &sets, &mut list);
    assert_eq!(list.map(|list| list.0.len()), Some(2));
}

// ===== messages =====

#[test]
fn prefixes_fill_messages() {
    assert_eq!(nlri_len(&net(10, 0, 0, 24)), 4);
    assert_eq!(nlri_len(&net(0, 0, 0, 0)), 1);
    assert_eq!(nlri_len(&net(10, 0, 0, 25)), 5);

    let prefixes = vec![net(10, 0, 1, 24), net(10, 0, 2, 24), net(10, 0, 3, 24)];
    let chunks = nlri_chunks(&prefixes, AddressFamily::Ipv4, 4063).unwrap();
    assert_eq!(chunks, vec![vec![net(10, 0, 1, 24), net(10, 0, 2, 24)], vec![net(10, 0, 3, 24)]]);
    assert!(nlri_chunks(&prefixes, AddressFamily::Ipv4, 4069).is_none());
    assert_eq!(nlri_chunks(&prefixes, AddressFamily::Ipv4, 0).unwrap().len(), 1);
}

#[test]
fn malformed_attributes_withdraw_the_prefixes() {
    let reach = || Some(ReachNlri { prefixes: vec![net(10, 0, 1, 24)], nexthop: 9 });
    let unreach = || Some(UnreachNlri { prefixes: vec![net(10, 0, 2, 24)] });
    let msg = UpdateMsg {
        reach: reach(),
        unreach: unreach(),
        mp_reach: None,
        mp_unreach: None,
        attrs: Some(Attrs::default()),
    };
    let steps = update_steps(msg);
    assert_eq!(steps.len(), 2);
    match &steps[0] {
        NlriStep::Reach { af, prefixes, attrs } => {
            assert_eq!(*af, AfiSafi::Ipv4Unicast);
            assert_eq!(*prefixes, vec![net(10, 0, 1, 24)]);
            assert_eq!(attrs.base.nexthop, Some(IpAddr::V4(9)));
        }
        _ => panic!("prefix is not reachable"),
    }

    let msg = UpdateMsg { reach: reach(), unreach: unreach(), mp_reach: None, mp_unreach: None, attrs: None };
    for step in update_steps(msg) {
        assert!(matches!(step, NlriStep::Unreach { .. }));
    }
}

#[test]
fn second_connections_are_ignored() {
    let mut nbr = session(1, v4(10, 0, 0, 1));
    assert_eq!(process_tcp_accept(Some(&nbr)), ConnAction::Connected);
    assert_eq!(process_tcp_accept(None), ConnAction::Ignore);
    assert_eq!(process_tcp_connect(None), (false, ConnAction::Ignore));
    nbr.conn_info = Some(TcpConnInfo { local_addr: v4(10, 0, 0, 2), remote_addr: v4(10, 0, 0, 1) });
    assert_eq!(process_tcp_accept(Some(&nbr)), ConnAction::Ignore);
    assert_eq!(process_tcp_connect(Some(&nbr)), (true, ConnAction::Ignore));
    assert!(process_nbr_timer(Some(&nbr)) && !process_nbr_timer(None));
}

#[test]
fn refreshes_need_an_advertised_family() {
    let mut advertised = OrdSet::new();
    advertised.insert(AfiSafi::Ipv6Unicast);
    assert_eq!(process_nbr_route_refresh(2, 1, &advertised), Some(AfiSafi::Ipv6Unicast));
    assert_eq!(process_nbr_route_refresh(1, 1, &advertised), None);
    assert_eq!(process_nbr_route_refresh(2, 128, &advertised), None);
    assert_eq!(process_nbr_route_refresh(25, 1, &advertised), None);
}

// ===== configuration =====

fn bgp_instance() -> Instance {
    let defaults = bgp_defaults();
    Instance { config: InstanceCfg::new(&defaults), neighbors: Table::new(), next_index: 0, defaults }
}

fn apply(instance: &mut Instance, events: &mut OrdSet<Event>, change: ConfigChange) {
    assert!(apply_instance(instance, change, events).is_ok());
}

#[test]
fn peer_type_follows_the_as_number() {
    let mut instance = bgp_instance();
    let mut events = OrdSet::new();
    let addr = v4(10, 0, 0, 9);
    let other = v4(10, 0, 0, 8);
    apply(&mut instance, &mut events, ConfigChange::GlobalAs(65000));
    apply(&mut instance, &mut events, ConfigChange::Neighbor(addr, NeighborChange::Create));
    apply(&mut instance, &mut events, ConfigChange::Neighbor(other, NeighborChange::Create));
    let change = NeighborChange::Entry(NeighborEntryChange::PeerAs(65000));
    apply(&mut instance, &mut events, ConfigChange::Neighbor(addr, change));
    assert_eq!(instance.neighbors.get(&addr).unwrap().session.peer_type, PeerType::Internal);
    let change = NeighborChange::Entry(NeighborEntryChange::PeerAs(65001));
    apply(&mut instance, &mut events, ConfigChange::Neighbor(addr, change));
    assert_eq!(instance.neighbors.get(&addr).unwrap().session.peer_type, PeerType::External);
    assert_eq!(instance.neighbors.get(&other).unwrap().config.peer_as, 0);
    assert_ne!(
        instance.neighbors.get(&addr).unwrap().session.index,
        instance.neighbors.get(&other).unwrap().session.index
    );
}

#[test]
fn address_family_delete_undoes_create() {
    let mut instance = bgp_instance();
    let mut events = OrdSet::new();
    let af = AfiSafi::Ipv4Unicast;
    apply(&mut instance, &mut events, ConfigChange::GlobalAfiSafi(af, GlobalAfiSafiChange::Create));
    assert!(instance.config.afi_safi.contains_key(&af));
    apply(&mut instance, &mut events, ConfigChange::GlobalAfiSafi(af, GlobalAfiSafiChange::Delete));
    assert!(!instance.config.afi_safi.contains_key(&af));
}

/// Once all indexes are used up, only new neighbors are out of the question.
#[test]
fn changes_without_new_neighbors_need_no_index() {
    let mut instance = bgp_instance();
    instance.next_index = u32::MAX;
    let mut events = OrdSet::new();
    apply(&mut instance, &mut events, ConfigChange::GlobalAs(65000));
    assert_eq!(instance.config.asn, 65000);
    assert_eq!(instance.next_index, u32::MAX);
}

#[test]
fn unknown_bgp_neighbors_cannot_change() {
    let mut instance = bgp_instance();
    let mut events = OrdSet::new();
    let change = NeighborChange::Entry(NeighborEntryChange::Enabled(false));
    let change = ConfigChange::Neighbor(v4(1, 1, 1, 1), change);
    assert_eq!(apply_instance(&mut instance, change, &mut events), Err(ApplyError::EntryNotFound));
    assert!(process_event(&mut instance, &mut None, Event::InstanceUpdate).len() == 1);
}
