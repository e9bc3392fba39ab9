use std::sync::Arc;

use holo::collections::Table;
use holo::ip::{IpAddr, IpNetwork, Ipv4Addr};
use holo::ospf::lsa::{
    ExtPrefixRouteType, ExtPrefixTlv, IgpAlgoType, Lsa, LsaBody, LsaHdr, LsaOpaque, LsaRouterLink, LsaRouterLinkType,
    PrefixSid, Sid, SidLabelRangeTlv, SrAlgoTlv,
};
use holo::ospf::spf::{
    area_opaque_data_compile, area_router_information, calc_nexthops, external_networks, inter_area_networks,
    inter_area_routers, intra_area_networks, route_prefix_sids, spf_computation_type, vertex_lsa_find,
    vertex_lsa_links, InterfaceType, Nexthop, NexthopKey, SpfComputation, SpfError, SpfInterface, SpfNeighbor,
    SpfTriggerLsa, Vertex, VertexId, VertexLsa,
};

fn ip4(a: u8, b: u8, c: u8, d: u8) -> Ipv4Addr {
    u32::from_be_bytes([a, b, c, d])
}

fn net(a: u8, b: u8, c: u8, plen: u8) -> IpNetwork {
    IpNetwork { addr: IpAddr::V4(ip4(a, b, c, 0)), plen }
}

const MASK: Ipv4Addr = 0xffff_ff00;

fn lsa(lsa_id: Ipv4Addr, adv_rtr: Ipv4Addr, body: LsaBody) -> Lsa {
    Lsa { hdr: LsaHdr { maxage: false, options: 2, lsa_id, adv_rtr }, body }
}

fn aged(mut lsa: Lsa) -> Lsa {
    lsa.hdr.maxage = true;
    lsa
}

fn link(link_type: LsaRouterLinkType, link_id: Ipv4Addr, link_data: Ipv4Addr, metric: u16) -> LsaRouterLink {
    LsaRouterLink { link_type, link_id, link_data, metric }
}

fn router(id: Ipv4Addr, links: Vec<LsaRouterLink>) -> Lsa {
    lsa(id, id, LsaBody::Router { flags: 0, links })
}

fn network(dr_addr: Ipv4Addr, adv_rtr: Ipv4Addr, attached_rtrs: Vec<Ipv4Addr>) -> Lsa {
    lsa(dr_addr, adv_rtr, LsaBody::Network { mask: MASK, attached_rtrs })
}

const ROOT: Ipv4Addr = 0x0101_0101;

const PEER: Ipv4Addr = 0x0202_0202;

fn root_vertex() -> Vertex {
    Vertex {
        id: VertexId::Router { router_id: ROOT },
        lsa: VertexLsa::Router(Arc::new(router(ROOT, vec![]))),
        nexthops: Table::new(),
    }
}

fn iface(index: u32, if_type: InterfaceType, addr: Ipv4Addr) -> SpfInterface {
    SpfInterface {
        index,
        if_type,
        virtual_link: if_type == InterfaceType::VirtualLink,
        unnumbered: false,
        ifindex: Some(index),
        primary_addr: Some(addr),
        networks: vec![IpNetwork { addr: IpAddr::V4(addr), plen: 24 }],
        src_addr: None,
        neighbors: vec![],
    }
}

fn one(nexthops: Result<Table<NexthopKey, Nexthop>, SpfError>) -> Nexthop {
    match nexthops {
        Ok(table) => {
            assert_eq!(table.len(), 1);
            *table.value_at(0)
        }
        Err(_) => panic!("no next hops"),
    }
}

// ===== next hops =====

#[test]
fn point_to_point_next_hops_are_source_addresses() {
    let dest_id = VertexId::Router { router_id: PEER };
    let dest = VertexLsa::Router(Arc::new(router(PEER, vec![])));
    let mut other = iface(1, InterfaceType::PointToPoint, ip4(10, 0, 1, 1));
    other.neighbors = vec![SpfNeighbor { router_id: PEER, src: ip4(10, 0, 1, 2) }];
    let mut mine = iface(2, InterfaceType::PointToPoint, ip4(10, 0, 2, 1));
    mine.neighbors = vec![SpfNeighbor { router_id: PEER, src: ip4(10, 0, 2, 2) }];
    let parent_link = link(LsaRouterLinkType::PointToPoint, PEER, ip4(10, 0, 2, 1), 10);

    let interfaces = vec![other, mine];
    let nexthop = one(calc_nexthops(&root_vertex(), Some(&parent_link), dest_id, &dest, &interfaces));
    assert_eq!(nexthop, Nexthop { iface_idx: 2, addr: Some(ip4(10, 0, 2, 2)), nbr_router_id: Some(PEER) });

    // A link that no interface has originated.
    let stray = link(LsaRouterLinkType::PointToPoint, PEER, ip4(10, 0, 3, 1), 10);
    let r = calc_nexthops(&root_vertex(), Some(&stray), dest_id, &dest, &interfaces);
    assert!(matches!(r, Err(SpfError::SpfNexthopCalcError(id)) if id == dest_id));

    // A neighbor that is not there.
    let lonely = vec![iface(2, InterfaceType::PointToPoint, ip4(10, 0, 2, 1))];
    assert!(calc_nexthops(&root_vertex(), Some(&parent_link), dest_id, &dest, &lonely).is_err());
}

#[test]
fn virtual_links_are_resolved_later() {
    let dest_id = VertexId::Router { router_id: PEER };
    let dest = VertexLsa::Router(Arc::new(router(PEER, vec![])));
    let mut vlink = iface(3, InterfaceType::VirtualLink, ip4(10, 0, 2, 1));
    vlink.src_addr = Some(ip4(10, 0, 9, 1));
    let parent_link = link(LsaRouterLinkType::VirtualLink, PEER, ip4(10, 0, 9, 1), 10);
    match calc_nexthops(&root_vertex(), Some(&parent_link), dest_id, &dest, &vec![vlink]) {
        Ok(table) => assert_eq!(table.len(), 0),
        Err(_) => panic!("virtual link was not found"),
    }
}

#[test]
fn multipoint_next_hops_point_back() {
    let dest_id = VertexId::Router { router_id: PEER };
    let back = link(LsaRouterLinkType::PointToPoint, ROOT, ip4(10, 0, 2, 7), 10);
    let away = link(LsaRouterLinkType::PointToPoint, 0x0303_0303, ip4(10, 0, 5, 7), 10);
    let dest = VertexLsa::Router(Arc::new(router(PEER, vec![away, back])));
    let interfaces = vec![iface(4, InterfaceType::PointToMultipoint, ip4(10, 0, 2, 1))];
    let parent_link = link(LsaRouterLinkType::PointToPoint, PEER, ip4(10, 0, 2, 1), 10);
    let nexthop = one(calc_nexthops(&root_vertex(), Some(&parent_link), dest_id, &dest, &interfaces));
    assert_eq!(nexthop, Nexthop { iface_idx: 4, addr: Some(ip4(10, 0, 2, 7)), nbr_router_id: Some(PEER) });

    let dest = VertexLsa::Router(Arc::new(router(PEER, vec![away])));
    assert!(calc_nexthops(&root_vertex(), Some(&parent_link), dest_id, &dest, &interfaces).is_err());
}

#[test]
fn next_hops_over_a_network_inherit_its_interface() {
    let dr = ip4(10, 0, 2, 1);
    let net_lsa = || VertexLsa::Network(Arc::new(network(dr, ROOT, vec![ROOT, PEER])));
    let interfaces = vec![iface(5, InterfaceType::Broadcast, dr)];
    let parent_link = link(LsaRouterLinkType::TransitNetwork, dr, dr, 10);
    let net_id = VertexId::Network { dr_addr: dr };
    let nexthops = calc_nexthops(&root_vertex(), Some(&parent_link), net_id, &net_lsa(), &interfaces);
    let nexthops = match nexthops {
        Ok(nexthops) => nexthops,
        Err(_) => panic!("no next hops"),
    };
    assert_eq!(*nexthops.value_at(0), Nexthop { iface_idx: 5, addr: None, nbr_router_id: None });

    let dest_id = VertexId::Router { router_id: PEER };
    let back = link(LsaRouterLinkType::TransitNetwork, dr, ip4(10, 0, 2, 8), 10);
    let dest = VertexLsa::Router(Arc::new(router(PEER, vec![back])));
    let parent = Vertex { id: net_id, lsa: net_lsa(), nexthops };
    let nexthop = one(calc_nexthops(&parent, None, dest_id, &dest, &interfaces));
    assert_eq!(nexthop, Nexthop { iface_idx: 5, addr: Some(ip4(10, 0, 2, 8)), nbr_router_id: Some(PEER) });

    // A network without next hops has none to hand on.
    let parent = Vertex { id: net_id, lsa: net_lsa(), nexthops: Table::new() };
    assert!(calc_nexthops(&parent, None, dest_id, &dest, &interfaces).is_err());
}

// ===== vertices =====

#[test]
fn vertices_are_found_unless_aged() {
    let dr = ip4(10, 0, 2, 1);
    let lsdb = vec![
        Arc::new(router(ROOT, vec![])),
        Arc::new(aged(router(PEER, vec![]))),
        Arc::new(network(dr, ROOT, vec![ROOT, PEER])),
    ];
    assert!(matches!(vertex_lsa_find(VertexId::Router { router_id: ROOT }, &lsdb), Some(VertexLsa::Router(_))));
    assert!(vertex_lsa_find(VertexId::Router { router_id: PEER }, &lsdb).is_none());
    assert!(matches!(vertex_lsa_find(VertexId::Network { dr_addr: dr }, &lsdb), Some(VertexLsa::Network(_))));
    assert!(vertex_lsa_find(VertexId::Network { dr_addr: ROOT }, &lsdb).is_none());

    // The network leads to the routers that have an LSA, at no cost.
    let links = vertex_lsa_links(&VertexLsa::Network(lsdb[2].clone()), &lsdb);
    assert_eq!(links.len(), 1);
    assert_eq!(links[0].id, VertexId::Router { router_id: ROOT });
    assert_eq!(links[0].cost, 0);
    assert!(links[0].parent.is_none());
}

#[test]
fn stub_links_hold_no_position() {
    let dr = ip4(10, 0, 2, 1);
    let stub = link(LsaRouterLinkType::StubNetwork, ip4(10, 0, 9, 0), MASK, 1);
    let gone = link(LsaRouterLinkType::PointToPoint, 0x0303_0303, ip4(10, 0, 8, 1), 2);
    let transit = link(LsaRouterLinkType::TransitNetwork, dr, ip4(10, 0, 2, 1), 3);
    let lsdb = vec![Arc::new(router(ROOT, vec![stub, gone, transit])), Arc::new(network(dr, ROOT, vec![]))];
    let links = vertex_lsa_links(&VertexLsa::Router(lsdb[0].clone()), &lsdb);
    assert_eq!(links.len(), 1);
    assert_eq!(links[0].parent, Some((1, transit)));
    assert_eq!(links[0].id, VertexId::Network { dr_addr: dr });
    assert_eq!(links[0].cost, 3);
}

// ===== routes =====

fn sid(index: u32) -> PrefixSid {
    PrefixSid { flags: 0, sid: Sid::Index(index) }
}

fn ext_prefix(prefix: IpNetwork, route_type: ExtPrefixRouteType, index: u32) -> LsaBody {
    let mut prefix_sids = Table::new();
    prefix_sids.insert(IgpAlgoType::Spf, sid(index));
    let mut prefixes = Table::new();
    prefixes.insert(prefix, Arc::new(ExtPrefixTlv { route_type, prefix_sids }));
    LsaBody::OpaqueArea(LsaOpaque::ExtPrefix { prefixes })
}

#[test]
fn the_first_description_of_a_prefix_is_used() {
    let prefix = net(10, 0, 9, 24);
    let lsdb = vec![
        Arc::new(aged(lsa(1, PEER, ext_prefix(prefix, ExtPrefixRouteType::IntraArea, 1)))),
        Arc::new(lsa(2, PEER, ext_prefix(prefix, ExtPrefixRouteType::IntraArea, 2))),
        Arc::new(lsa(3, PEER, ext_prefix(prefix, ExtPrefixRouteType::IntraArea, 3))),
    ];
    let db = area_opaque_data_compile(&lsdb);
    assert_eq!(db.len(), 1);
    assert_eq!(route_prefix_sids(&db, PEER, &prefix, ExtPrefixRouteType::IntraArea), Some(sid(2)));
    assert_eq!(route_prefix_sids(&db, PEER, &prefix, ExtPrefixRouteType::Unspecified), Some(sid(2)));
    assert_eq!(route_prefix_sids(&db, PEER, &prefix, ExtPrefixRouteType::InterArea), None);
    assert_eq!(route_prefix_sids(&db, ROOT, &prefix, ExtPrefixRouteType::IntraArea), None);
}

#[test]
fn vertices_stand_for_networks() {
    let stub = link(LsaRouterLinkType::StubNetwork, ip4(10, 0, 9, 7), MASK, 5);
    let odd = link(LsaRouterLinkType::StubNetwork, ip4(10, 0, 8, 0), 0xff00_ff00, 5);
    let dr = ip4(10, 0, 2, 1);
    let router_id = VertexId::Router { router_id: PEER };
    let net_id = VertexId::Network { dr_addr: dr };
    let spt = vec![
        Vertex {
            id: router_id,
            lsa: VertexLsa::Router(Arc::new(router(PEER, vec![odd, stub]))),
            nexthops: Table::new(),
        },
        Vertex {
            id: net_id,
            lsa: VertexLsa::Network(Arc::new(network(dr, ROOT, vec![]))),
            nexthops: Table::new(),
        },
    ];
    let lsdb = vec![Arc::new(lsa(1, PEER, ext_prefix(net(10, 0, 9, 24), ExtPrefixRouteType::IntraArea, 4)))];
    let networks = intra_area_networks(&spt, &area_opaque_data_compile(&lsdb));
    assert_eq!(networks.len(), 2);
    assert_eq!((networks[0].vertex, networks[0].prefix, networks[0].metric), (router_id, net(10, 0, 9, 24), 5));
    assert_eq!(networks[0].prefix_sid, Some(sid(4)));
    assert_eq!((networks[1].vertex, networks[1].prefix, networks[1].metric), (net_id, net(10, 0, 2, 24), 0));
    assert_eq!(networks[1].prefix_sid, None);
}

#[test]
fn summaries_and_externals_are_listed_unless_aged() {
    let summary = |metric| LsaBody::SummaryNetwork { mask: MASK, metric };
    let external = LsaBody::AsExternal { mask: MASK, e_bit: true, metric: 20, fwd_addr: None, tag: 7 };
    let lsdb = vec![
        Arc::new(lsa(ip4(10, 1, 0, 0), PEER, summary(3))),
        Arc::new(aged(lsa(ip4(10, 2, 0, 0), PEER, summary(3)))),
        Arc::new(lsa(0x0404_0404, PEER, LsaBody::SummaryRouter { metric: 6 })),
        Arc::new(lsa(ip4(192, 168, 0, 0), PEER, external)),
    ];
    let networks = inter_area_networks(&lsdb, &Table::new());
    assert_eq!(networks.len(), 1);
    assert_eq!((networks[0].adv_rtr, networks[0].prefix, networks[0].metric), (PEER, net(10, 1, 0, 24), 3));
    let routers = inter_area_routers(&lsdb);
    assert_eq!(routers.len(), 1);
    assert_eq!((routers[0].router_id, routers[0].options, routers[0].metric), (0x0404_0404, 2, 6));
    let externals = external_networks(&lsdb);
    assert_eq!(externals.len(), 1);
    assert_eq!((externals[0].prefix, externals[0].e_bit, externals[0].tag), (net(192, 168, 0, 24), true, Some(7)));
}

#[test]
fn router_information_is_gathered() {
    let range = |range| SidLabelRangeTlv { first: Sid::Label(16000), range };
    let info = |algos: Option<Vec<u8>>, srgb| {
        LsaBody::OpaqueArea(LsaOpaque::RouterInfo { sr_algo: algos.map(|algos| SrAlgoTlv { algos }), srgb })
    };
    let lsdb = vec![
        Arc::new(lsa(1, PEER, info(None, vec![range(1)]))),
        Arc::new(lsa(2, PEER, info(Some(vec![0]), vec![range(2)]))),
        Arc::new(lsa(3, PEER, info(Some(vec![1]), vec![]))),
        Arc::new(lsa(4, ROOT, info(Some(vec![1]), vec![range(3)]))),
    ];
    let gathered = area_router_information(&lsdb, PEER);
    assert_eq!(gathered.sr_algo.map(|tlv| tlv.algos.clone()), Some(vec![0]));
    assert_eq!(gathered.srgb, vec![range(1), range(2)]);
}

#[test]
fn topological_changes_need_a_full_run() {
    let trigger = |lsa| SpfTriggerLsa { new: Arc::new(lsa) };
    let summary = || trigger(lsa(ip4(10, 1, 0, 0), PEER, LsaBody::SummaryNetwork { mask: MASK, metric: 3 }));
    let router_summary = trigger(lsa(0x0404_0404, PEER, LsaBody::SummaryRouter { metric: 6 }));
    let full = spf_computation_type(&vec![summary(), trigger(router(PEER, vec![]))]);
    assert!(matches!(full, SpfComputation::Full));
    match spf_computation_type(&vec![summary(), router_summary]) {
        SpfComputation::Partial(partial) => {
            assert!(partial.intra.is_empty() && partial.external.is_empty());
            assert!(partial.inter_network.contains(&net(10, 1, 0, 24)));
            assert!(partial.inter_router.contains(&0x0404_0404));
        }
        SpfComputation::Full => panic!("no topological change"),
    }
}
