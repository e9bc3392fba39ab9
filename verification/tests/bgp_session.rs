use std::sync::Arc;

use holo::bgp::af::{build_updates, Ipv4Unicast, Ipv6Unicast};
use holo::bgp::attribute::{AsPath, AsPathSegment, AsPathSegmentType, Attrs};
use holo::bgp::configuration::{Defaults, InstanceCfg, MessageType, Neighbor};
use holo::bgp::decision::process_redistribute_policy_import;
use holo::bgp::events::{
    process_nbr_msg, process_nbr_policy_import, process_nbr_update, NbrRx, PolicyApplyMsg, SessionEvent, Shared,
};
use holo::bgp::export::process_nbr_policy_export;
use holo::bgp::intern::AttrSetsCxt;
use holo::bgp::neighbor::{
    MpReachNlri, MpUnreachNlri, NeighborUpdateQueue, ReachNlri, State, UnreachNlri, UpdateMsg,
};
use holo::bgp::policy::{
    neighbor_apply, BgpMatchSets, DefaultPolicyType, MatchSets, PolicyGroup, PolicyResult, PolicyType,
    RoutePolicyInfo,
};
use holo::bgp::process::decision_process_af;
use holo::bgp::rib::{BestRoute, IbusMsg, Rib, RouteOrigin, RoutingTable, RoutingTables};
use holo::bgp::types::{
    AfiSafi, DistanceCfg, MultipathCfg, PeerType, RouteType, TcpConnInfo,
};
use holo::collections::{OrdSet, Table};
use holo::ip::{IpAddr, IpNetwork};
use holo::northbound::trace::TraceOptionPacketType;
use holo::prefix_table::PrefixTable;
use holo::protocol::Protocol;

fn v4(a: u8, b: u8, c: u8, d: u8) -> IpAddr {
    IpAddr::V4(u32::from_be_bytes([a, b, c, d]))
}

fn net(a: u8, b: u8, c: u8, plen: u8) -> IpNetwork {
    IpNetwork { addr: v4(a, b, c, 0), plen }
}

fn net6(group: u16) -> IpNetwork {
    IpNetwork { addr: IpAddr::V6((0x2001_0db8u128 << 96) | ((group as u128) << 80)), plen: 48 }
}

fn defaults() -> Defaults {
    Defaults {
        reject_as_sets: false,
        distance: DistanceCfg { external: 20, internal: 200 },
        multipath: MultipathCfg {
            enabled: false,
            ebgp_allow_multiple_as: false,
            ebgp_max_paths: 1,
            ibgp_max_paths: 1,
        },
        policy: DefaultPolicyType::AcceptRoute,
        nbr_enabled: true,
        log_neighbor_state_changes: true,
        connect_retry_interval: 30,
        holdtime: 90,
        ebgp_multihop_enabled: false,
        passive_mode: false,
        secure_session_enabled: false,
        nbr_afi_safi_enabled: false,
        trace: TraceOptionPacketType { tx: true, rx: true },
    }
}

const LOCAL_ASN: u32 = 65000;

fn neighbor(index: u32, addr: IpAddr) -> Neighbor {
    let mut nbr = Neighbor::new(&defaults(), index, addr, PeerType::External);
    nbr.config.peer_as = 65000 + index;
    nbr.session.state = State::Established;
    nbr.session.identifier = Some(index);
    nbr.session.conn_info = Some(TcpConnInfo { local_addr: v4(10, 0, 0, 9), remote_addr: addr });
    nbr.session.ipv4_unicast_enabled = true;
    nbr
}

fn shared() -> Shared {
    Shared {
        policies: Table::new(),
        match_sets: Arc::new(MatchSets {
            prefixes: Table::new(),
            neighbors: Table::new(),
            tags: Table::new(),
            bgp: BgpMatchSets {
                as_paths: Table::new(),
                comms: Table::new(),
                ext_comms: Table::new(),
                extv6_comms: Table::new(),
                large_comms: Table::new(),
                nexthops: Table::new(),
            },
        }),
    }
}

fn empty_table() -> RoutingTable {
    RoutingTable {
        prefixes: PrefixTable::new(),
        queued_prefixes: OrdSet::new(),
        nht: Table::new(),
        prefix_counters: Table::new(),
    }
}

fn empty_rib() -> Rib {
    Rib {
        attr_sets: AttrSetsCxt::new(),
        tables: RoutingTables { ipv4_unicast: empty_table(), ipv6_unicast: empty_table() },
    }
}

fn attrs(path: Vec<u32>) -> Attrs {
    let mut attrs = Attrs::default();
    let segments = vec![AsPathSegment { seg_type: AsPathSegmentType::AsSequence, members: path }];
    attrs.base.as_path = AsPath { segments };
    attrs
}

fn announcement(prefixes: Vec<IpNetwork>, path: Vec<u32>) -> UpdateMsg {
    UpdateMsg {
        reach: Some(ReachNlri { prefixes, nexthop: u32::from_be_bytes([192, 0, 2, 1]) }),
        unreach: None,
        mp_reach: None,
        mp_unreach: None,
        attrs: Some(attrs(path)),
    }
}

fn withdrawal(prefixes: Vec<IpNetwork>) -> UpdateMsg {
    UpdateMsg { reach: None, unreach: Some(UnreachNlri { prefixes }), mp_reach: None, mp_unreach: None, attrs: None }
}

fn apply(msg: PolicyApplyMsg) -> Vec<PolicyGroup> {
    neighbor_apply(
        msg.policy_type,
        msg.afi_safi,
        &msg.prefixes,
        msg.route,
        &msg.policies,
        &msg.match_sets,
        msg.default_policy,
    )
}

/// What a neighbor announces, all the way to what another one is sent.
#[test]
fn announcements_are_passed_on() {
    let prefix = net(10, 1, 0, 16);
    let from = neighbor(1, v4(10, 0, 0, 1));
    let mut rib = empty_rib();
    let mut ibus = vec![];
    let msg = announcement(vec![prefix], vec![65001]);
    let mut msgs = process_nbr_update(&from, &mut rib, msg, LOCAL_ASN, &shared(), 1, &mut ibus);

    // The import policies are applied to the route before it takes part in the
    // Decision Process.
    assert_eq!(msgs.len(), 1);
    let msg = msgs.pop().unwrap();
    assert_eq!((msg.policy_type, msg.afi_safi, msg.nbr_addr), (PolicyType::Import, AfiSafi::Ipv4Unicast, v4(10, 0, 0, 1)));
    assert_eq!(msg.route.attrs.base.nexthop, Some(v4(192, 0, 2, 1)));
    assert!(rib.tables.ipv4_unicast.queued_prefixes.is_empty());
    assert!(rib.tables.ipv4_unicast.prefixes.get(&prefix).is_some());

    let groups = apply(msg);
    let table = &mut rib;
    assert!(process_nbr_policy_import::<Ipv4Unicast>(Some(&from.session), table, &groups, 1, &mut ibus));
    assert!(rib.tables.ipv4_unicast.queued_prefixes.contains(&prefix));
    assert!(matches!(&ibus[..], [IbusMsg::NexthopTrack { addr }] if *addr == v4(192, 0, 2, 1)));
    if let Some(entry) = rib.tables.ipv4_unicast.nht.get_mut(&v4(192, 0, 2, 1)) {
        entry.metric = Some(10);
    }

    // The other neighbor gets the route, and the first one does not get it back.
    let mut neighbors = Table::new();
    neighbors.insert(v4(10, 0, 0, 1), neighbor(1, v4(10, 0, 0, 1)));
    neighbors.insert(v4(10, 0, 0, 2), neighbor(2, v4(10, 0, 0, 2)));
    let mut queues = vec![
        NeighborUpdateQueue { reach: vec![], unreach: OrdSet::new() },
        NeighborUpdateQueue { reach: vec![], unreach: OrdSet::new() },
    ];
    let mut config = InstanceCfg::new(&defaults());
    config.asn = LOCAL_ASN;
    let filter = |nbr: &Neighbor, route: &BestRoute| match route.origin {
        RouteOrigin::Neighbor { remote_addr, .. } => remote_addr != nbr.session.remote_addr,
        RouteOrigin::Protocol(_) => true,
    };
    let mut msgs = decision_process_af::<Ipv4Unicast, _>(
        &config,
        &neighbors,
        &mut queues,
        &mut rib.tables.ipv4_unicast,
        &mut rib.attr_sets,
        &shared(),
        &filter,
        &mut ibus,
    );
    assert_eq!(msgs.len(), 1);
    let msg = msgs.pop().unwrap();
    assert_eq!((msg.policy_type, msg.nbr_addr), (PolicyType::Export, v4(10, 0, 0, 2)));
    assert!(ibus.iter().any(|msg| matches!(msg, IbusMsg::RouteInstall { .. })));

    let to = neighbor(2, v4(10, 0, 0, 2));
    let groups = apply(msg);
    let queue = &mut queues[1];
    assert!(process_nbr_policy_export::<Ipv4Unicast>(Some(&to.session), &mut rib, queue, &groups, LOCAL_ASN, 2));
    assert_eq!(queue.reach.len(), 1);
    let mut updates = build_updates::<Ipv4Unicast>(queue, &vec![20]).msgs;
    assert_eq!(updates.len(), 1);
    let update = updates.pop().unwrap();
    let sent = update.attrs.unwrap();
    assert_eq!(sent.base.as_path.path_length(), 2);
    assert_eq!(sent.base.local_pref, None);
    assert_eq!(update.reach.unwrap().prefixes, vec![prefix]);
    assert!(queue.reach.is_empty() && queue.unreach.is_empty());

    // Nothing new is sent the second time.
    assert!(process_nbr_policy_export::<Ipv4Unicast>(Some(&to.session), &mut rib, queue, &groups, LOCAL_ASN, 3));
    assert!(queue.reach.is_empty());

    // A route that is now rejected is withdrawn.
    let rejected = vec![PolicyGroup { result: PolicyResult::Reject, prefixes: vec![prefix] }];
    process_nbr_policy_export::<Ipv4Unicast>(Some(&to.session), &mut rib, queue, &rejected, LOCAL_ASN, 4);
    assert!(queue.unreach.contains(&prefix));
    let updates = build_updates::<Ipv4Unicast>(queue, &vec![]).msgs;
    assert_eq!(updates.len(), 1);
    assert_eq!(updates[0].unreach.as_ref().map(|unreach| unreach.prefixes.clone()), Some(vec![prefix]));
    assert!(updates[0].attrs.is_none());
}

#[test]
fn withdrawals_undo_announcements() {
    let prefix = net(10, 1, 0, 16);
    let from = neighbor(1, v4(10, 0, 0, 1));
    let mut rib = empty_rib();
    let mut ibus = vec![];
    let msg = announcement(vec![prefix], vec![65001]);
    let msgs = process_nbr_update(&from, &mut rib, msg, LOCAL_ASN, &shared(), 1, &mut ibus);
    for msg in msgs {
        process_nbr_policy_import::<Ipv4Unicast>(Some(&from.session), &mut rib, &apply(msg), 1, &mut ibus);
    }
    ibus.clear();

    let msgs = process_nbr_update(&from, &mut rib, withdrawal(vec![prefix]), LOCAL_ASN, &shared(), 2, &mut ibus);
    assert!(msgs.is_empty());
    assert!(matches!(&ibus[..], [IbusMsg::NexthopUntrack { addr }] if *addr == v4(192, 0, 2, 1)));
    assert_eq!(rib.tables.ipv4_unicast.nht.len(), 0);
    assert!(rib.tables.ipv4_unicast.queued_prefixes.contains(&prefix));
    let dest = rib.tables.ipv4_unicast.prefixes.get(&prefix).unwrap();
    assert!(dest.adj_rib.get(&1).unwrap().in_post().is_none());

    // Prefixes that were never announced are no news.
    rib.tables.ipv4_unicast.queued_prefixes = OrdSet::new();
    let msg = withdrawal(vec![net(10, 9, 0, 16)]);
    process_nbr_update(&from, &mut rib, msg, LOCAL_ASN, &shared(), 3, &mut ibus);
    assert!(rib.tables.ipv4_unicast.queued_prefixes.is_empty());
}

/// Prefixes that are announced without attributes are withdrawn.
#[test]
fn announcements_without_attributes_are_withdrawals() {
    let prefix = net(10, 1, 0, 16);
    let from = neighbor(1, v4(10, 0, 0, 1));
    let mut bare = announcement(vec![prefix], vec![]);
    bare.attrs = None;
    for last in [withdrawal(vec![prefix]), bare] {
        let mut rib = empty_rib();
        let mut ibus = vec![];
        let msg = announcement(vec![prefix], vec![65001]);
        for msg in process_nbr_update(&from, &mut rib, msg, LOCAL_ASN, &shared(), 1, &mut ibus) {
            process_nbr_policy_import::<Ipv4Unicast>(Some(&from.session), &mut rib, &apply(msg), 1, &mut ibus);
        }
        rib.tables.ipv4_unicast.queued_prefixes = OrdSet::new();
        ibus.clear();

        assert!(process_nbr_update(&from, &mut rib, last, LOCAL_ASN, &shared(), 2, &mut ibus).is_empty());
        assert!(matches!(&ibus[..], [IbusMsg::NexthopUntrack { addr }] if *addr == v4(192, 0, 2, 1)));
        assert!(rib.tables.ipv4_unicast.queued_prefixes.contains(&prefix));
        let dest = rib.tables.ipv4_unicast.prefixes.get(&prefix).unwrap();
        assert!(dest.adj_rib.get(&1).unwrap().in_post().is_none());
    }
}

#[test]
fn disabled_families_are_ignored() {
    let from = neighbor(1, v4(10, 0, 0, 1));
    let mut rib = empty_rib();
    let mut ibus = vec![];
    let msg = UpdateMsg {
        reach: None,
        unreach: None,
        mp_reach: Some(MpReachNlri::Ipv6Unicast { prefixes: vec![net6(1)], nexthop: 1, ll_nexthop: None }),
        mp_unreach: Some(MpUnreachNlri::Ipv6Unicast { prefixes: vec![net6(2)] }),
        attrs: Some(attrs(vec![65001])),
    };
    let msgs = process_nbr_update(&from, &mut rib, msg, LOCAL_ASN, &shared(), 1, &mut ibus);
    assert!(msgs.is_empty() && ibus.is_empty());
    assert!(rib.tables.ipv6_unicast.prefixes.get(&net6(1)).is_none());
}

#[test]
fn the_peer_as_may_be_replaced() {
    let mut from = neighbor(1, v4(10, 0, 0, 1));
    from.config.as_path_options.replace_peer_as = true;
    let mut rib = empty_rib();
    let mut ibus = vec![];
    let msg = announcement(vec![net(10, 1, 0, 16)], vec![65001, 65003]);
    let msgs = process_nbr_update(&from, &mut rib, msg, LOCAL_ASN, &shared(), 1, &mut ibus);
    let path = &msgs[0].route.attrs.base.as_path;
    assert!(path.contains(LOCAL_ASN) && path.contains(65003) && !path.contains(65001));
}

#[test]
fn results_for_sessions_that_are_gone_are_ignored() {
    let prefix = net(10, 1, 0, 16);
    let mut nbr = neighbor(1, v4(10, 0, 0, 1));
    let mut rib = empty_rib();
    let mut ibus = vec![];
    let msg = announcement(vec![prefix], vec![65001]);
    let mut msgs = process_nbr_update(&nbr, &mut rib, msg, LOCAL_ASN, &shared(), 1, &mut ibus);
    let groups = apply(msgs.pop().unwrap());
    nbr.session.state = State::OpenSent;
    for session in [None, Some(&nbr.session)] {
        assert!(!process_nbr_policy_import::<Ipv4Unicast>(session, &mut rib, &groups, 1, &mut ibus));
        let mut queue = NeighborUpdateQueue { reach: vec![], unreach: OrdSet::new() };
        assert!(!process_nbr_policy_export::<Ipv4Unicast>(session, &mut rib, &mut queue, &groups, LOCAL_ASN, 1));
        assert!(queue.reach.is_empty());
    }
    assert!(rib.tables.ipv4_unicast.queued_prefixes.is_empty() && ibus.is_empty());
}

#[test]
fn redistributed_routes_follow_their_policies() {
    let prefix = net6(7);
    let mut rib = empty_rib();
    let info = RoutePolicyInfo::new(
        RouteOrigin::Protocol(Protocol::STATIC),
        RouteType::External,
        None,
        None,
        None,
        attrs(vec![]),
    );
    process_redistribute_policy_import::<Ipv6Unicast>(&mut rib, prefix, PolicyResult::Accept(info), 5);
    let table = &rib.tables.ipv6_unicast;
    assert!(table.queued_prefixes.contains(&prefix));
    let route = table.prefixes.get(&prefix).unwrap().redistribute.as_ref().unwrap();
    assert_eq!((route.route_type, route.last_modified), (RouteType::Internal, 5));

    rib.tables.ipv6_unicast.queued_prefixes = OrdSet::new();
    process_redistribute_policy_import::<Ipv6Unicast>(&mut rib, prefix, PolicyResult::Reject, 6);
    let table = &rib.tables.ipv6_unicast;
    assert!(table.queued_prefixes.contains(&prefix));
    assert!(table.prefixes.get(&prefix).unwrap().redistribute.is_none());

    // A rejected route needs no entry of its own.
    process_redistribute_policy_import::<Ipv6Unicast>(&mut rib, net6(8), PolicyResult::Reject, 6);
    assert!(rib.tables.ipv6_unicast.prefixes.get(&net6(8)).is_none());
}

#[test]
fn ipv6_prefixes_go_with_their_next_hop() {
    let mut attrs = attrs(vec![65001]);
    attrs.base.nexthop = Some(IpAddr::V6(9));
    attrs.base.ll_nexthop = Some(10);
    let mut prefixes = OrdSet::new();
    prefixes.insert(net6(1));
    prefixes.insert(net6(2));
    let reach = vec![holo::bgp::neighbor::ReachQueue { attrs, prefixes }];
    let mut queue = NeighborUpdateQueue { reach, unreach: OrdSet::new() };
    let updates = build_updates::<Ipv6Unicast>(&mut queue, &vec![20]).msgs;
    assert_eq!(updates.len(), 1);
    match &updates[0].mp_reach {
        Some(MpReachNlri::Ipv6Unicast { prefixes, nexthop, ll_nexthop }) => {
            assert_eq!(*prefixes, vec![net6(1), net6(2)]);
            assert_eq!((*nexthop, *ll_nexthop), (9, Some(10)));
        }
        _ => panic!("prefixes are not sent"),
    }
}

#[test]
fn entries_that_cannot_be_sent_are_handed_back() {
    let entry = |n: u8| {
        let mut attrs = attrs(vec![65001]);
        attrs.base.nexthop = Some(v4(192, 0, 2, n));
        let mut prefixes = OrdSet::new();
        prefixes.insert(net(10, n, 0, 16));
        holo::bgp::neighbor::ReachQueue { attrs, prefixes }
    };
    let mut queue = NeighborUpdateQueue { reach: vec![entry(1), entry(2)], unreach: OrdSet::new() };
    let updates = build_updates::<Ipv4Unicast>(&mut queue, &vec![5000, 20]);
    assert_eq!(updates.msgs.len(), 1);
    assert_eq!(updates.msgs[0].reach.as_ref().map(|reach| reach.prefixes.clone()), Some(vec![net(10, 2, 0, 16)]));
    assert_eq!(updates.too_long.len(), 1);
    assert_eq!(updates.too_long[0].prefixes, vec![net(10, 1, 0, 16)]);
    // The NEXT_HOP attribute counts.
    assert_eq!(updates.too_long[0].attrs_len, 5007);
    assert!(queue.reach.is_empty());
}

#[test]
fn received_messages_are_told_apart() {
    let nbr = neighbor(1, v4(10, 0, 0, 1));
    assert!(process_nbr_msg(None, NbrRx::TcpConnClosed).is_none());
    for (rx, event, update, notification, refresh) in [
        (NbrRx::Msg(MessageType::Open), Some(SessionEvent::RcvdOpen), false, false, false),
        (NbrRx::Msg(MessageType::Update), Some(SessionEvent::RcvdUpdate), true, false, false),
        (NbrRx::Msg(MessageType::Notification), Some(SessionEvent::RcvdNotif), false, true, false),
        (NbrRx::Msg(MessageType::Keepalive), Some(SessionEvent::RcvdKalive), false, false, false),
        (NbrRx::Msg(MessageType::RouteRefresh), None, false, false, true),
        (NbrRx::TcpConnClosed, Some(SessionEvent::ConnFail), false, false, false),
        (NbrRx::MsgDecodeError, Some(SessionEvent::RcvdError), false, false, false),
    ] {
        let plan = process_nbr_msg(Some(&nbr), rx).unwrap();
        assert_eq!(plan.event, event);
        assert_eq!(
            (plan.process_update, plan.record_notification, plan.process_route_refresh),
            (update, notification, refresh)
        );
        assert_eq!(plan.count, matches!(rx, NbrRx::Msg(_)));
        assert!(!plan.trace);
    }
}
