//! What the shortest-path calculation of OSPFv2 promises.
//!
//! Each law speaks of the LSAs that go in and the links, next hops, networks and
//! routers that come out.

use std::sync::Arc;

use vstd::prelude::*;

use crate::collections::filter_map;
use crate::ip::{v4_mask, v4_mask_injective, v4_net, IpAddr, IpNetwork, Ipv4Addr};
use crate::ospf::lsa::{
    ExtPrefixRouteType, ExtPrefixTlv, IgpAlgoType, Lsa, LsaBody, LsaRouterLink, LsaRouterLinkType,
};
use crate::ospf::spf::{
    all_ranges, attached_link, ext_prefix_db, external_net, external_network_of, first_lsa, first_sr_algo,
    inter_network_of, inter_router_of, link_iface, link_into, multipoint_nexthops, nbr_src, network_with, nexthops_to,
    on_iface, originates, prefix_sid_of, router_spf_links, router_with, spf_links, stub_network, summary_net,
    summary_router, topological, tree_networks, vertex_lsa, ExtPrefixKey, InterfaceType, Nexthop, NexthopKey,
    SpfInterface, SpfNeighbor, Vertex, VertexId, VertexLsa,
};

verus! {

// ===== networks =====

/// A mask gives a network exactly if it is a netmask, and the network has the
/// address as it is and the length of that netmask.
pub proof fn netmask_gives_network(addr: Ipv4Addr, mask: Ipv4Addr, plen: u8)
    requires
        plen <= 32,
    ensures
        v4_mask(plen) == mask ==> v4_net(addr, mask) == Some(IpNetwork { addr: IpAddr::V4(addr), plen }),
        v4_net(addr, mask) matches Some(net) ==> net.addr == IpAddr::V4(addr) && net.plen <= 32 && v4_mask(net.plen)
            == mask,
{
    if v4_mask(plen) == mask {
        let n = choose|n: u8| n <= 32 && #[trigger] v4_mask(n) == mask;
        v4_mask_injective(plen, n);
    }
}

proof fn pushed<A, B>(s: Seq<A>, a: A, f: spec_fn(A) -> Option<B>)
    ensures
        filter_map(s.push(a), f) == (match f(a) {
            Some(b) => filter_map(s, f).push(b),
            None => filter_map(s, f),
        }),
        filter_map(Seq::empty(), f) == Seq::<B>::empty(),
{
    assert(s.push(a).drop_last() =~= s);
}

/// Each AS-external LSA that has not reached its maximum age and has a netmask
/// gives one external network, after those of the LSAs before it, with everything
/// that it says: router, kind of metric, metric, forwarding address and tag. Other
/// LSAs give none.
pub proof fn external_lsas_give_networks(lsdb: Seq<Arc<Lsa>>, lsa: Arc<Lsa>)
    ensures
        filter_map(Seq::<Arc<Lsa>>::empty(), external_network_of()).len() == 0,
        ({
            let before = filter_map(lsdb, external_network_of());
            let after = filter_map(lsdb.push(lsa), external_network_of());
            &&& lsa.body matches LsaBody::AsExternal { mask, e_bit, metric, fwd_addr, tag } ==> {
                &&& v4_net(lsa.hdr.lsa_id, mask) is Some && !lsa.hdr.maxage ==> {
                    &&& after.len() == before.len() + 1
                    &&& after.drop_last() == before
                    &&& after.last().prefix == v4_net(lsa.hdr.lsa_id, mask)->0
                    &&& after.last().adv_rtr == lsa.hdr.adv_rtr
                    &&& after.last().e_bit == e_bit
                    &&& after.last().metric == metric
                    &&& after.last().fwd_addr == fwd_addr
                    &&& after.last().tag == Some(tag)
                }
                &&& v4_net(lsa.hdr.lsa_id, mask) is None || lsa.hdr.maxage ==> after == before
            }
            &&& !(lsa.body is AsExternal) ==> after == before
        }),
{
    pushed(lsdb, lsa, external_network_of());
    let before = filter_map(lsdb, external_network_of());
    let after = filter_map(lsdb.push(lsa), external_network_of());
    if after.len() > before.len() {
        assert(after.drop_last() =~= before);
    }
}

/// Each type-3 summary LSA that counts gives one network of another area, with
/// its router and metric, and what that router says of the prefix as one of
/// another area.
pub proof fn summary_lsas_give_networks(
    db: Map<ExtPrefixKey, Arc<ExtPrefixTlv>>,
    lsdb: Seq<Arc<Lsa>>,
    lsa: Arc<Lsa>,
)
    ensures
        filter_map(Seq::<Arc<Lsa>>::empty(), inter_network_of(db)).len() == 0,
        ({
            let before = filter_map(lsdb, inter_network_of(db));
            let after = filter_map(lsdb.push(lsa), inter_network_of(db));
            &&& lsa.body matches LsaBody::SummaryNetwork { mask, metric } ==> {
                &&& v4_net(lsa.hdr.lsa_id, mask) is Some && !lsa.hdr.maxage ==> {
                    &&& after.len() == before.len() + 1
                    &&& after.drop_last() == before
                    &&& after.last().prefix == v4_net(lsa.hdr.lsa_id, mask)->0
                    &&& after.last().adv_rtr == lsa.hdr.adv_rtr
                    &&& after.last().metric == metric
                    &&& after.last().prefix_sid == prefix_sid_of(
                        db,
                        lsa.hdr.adv_rtr,
                        after.last().prefix,
                        ExtPrefixRouteType::InterArea,
                    )
                }
                &&& v4_net(lsa.hdr.lsa_id, mask) is None || lsa.hdr.maxage ==> after == before
            }
            &&& !(lsa.body is SummaryNetwork) ==> after == before
        }),
{
    pushed(lsdb, lsa, inter_network_of(db));
    let before = filter_map(lsdb, inter_network_of(db));
    let after = filter_map(lsdb.push(lsa), inter_network_of(db));
    if after.len() > before.len() {
        assert(after.drop_last() =~= before);
    }
}

/// Each type-4 summary LSA that counts gives one AS boundary router, which is the
/// one it is about, with its metric.
pub proof fn summary_lsas_give_routers(lsdb: Seq<Arc<Lsa>>, lsa: Arc<Lsa>)
    ensures
        filter_map(Seq::<Arc<Lsa>>::empty(), inter_router_of()).len() == 0,
        ({
            let before = filter_map(lsdb, inter_router_of());
            let after = filter_map(lsdb.push(lsa), inter_router_of());
            &&& lsa.body matches LsaBody::SummaryRouter { metric } ==> {
                &&& !lsa.hdr.maxage ==> {
                    &&& after.len() == before.len() + 1
                    &&& after.drop_last() == before
                    &&& after.last().router_id == lsa.hdr.lsa_id
                    &&& after.last().adv_rtr == lsa.hdr.adv_rtr
                    &&& after.last().options == lsa.hdr.options
                    &&& after.last().flags == 2
                    &&& after.last().metric == metric
                }
                &&& lsa.hdr.maxage ==> after == before
            }
            &&& !(lsa.body is SummaryRouter) ==> after == before
        }),
{
    pushed(lsdb, lsa, inter_router_of());
    let before = filter_map(lsdb, inter_router_of());
    let after = filter_map(lsdb.push(lsa), inter_router_of());
    if after.len() > before.len() {
        assert(after.drop_last() =~= before);
    }
}

/// A network of the tree gives its own network, at no further cost.
pub proof fn network_vertex_gives_its_network(
    db: Map<ExtPrefixKey, Arc<ExtPrefixTlv>>,
    spt: Seq<Vertex>,
    vertex: Vertex,
)
    requires
        vertex.lsa is Network,
        vertex.lsa.lsa().body is Network,
    ensures
        tree_networks(db, Seq::empty()).len() == 0,
        ({
            let before = tree_networks(db, spt);
            let after = tree_networks(db, spt.push(vertex));
            let lsa = vertex.lsa.lsa();
            lsa.body matches LsaBody::Network { mask, .. } ==> {
                &&& v4_net(lsa.hdr.lsa_id, mask) is None ==> after == before
                &&& v4_net(lsa.hdr.lsa_id, mask) matches Some(net) ==> {
                    &&& after.len() == before.len() + 1
                    &&& after.drop_last() == before
                    &&& after.last().vertex == vertex.id
                    &&& after.last().prefix == net.masked()
                    &&& after.last().metric == 0
                    &&& after.last().prefix_sid == prefix_sid_of(
                        db,
                        lsa.hdr.adv_rtr,
                        net.masked(),
                        ExtPrefixRouteType::IntraArea,
                    )
                }
            }
        }),
{
    assert(spt.push(vertex).drop_last() =~= spt);
    let before = tree_networks(db, spt);
    let after = tree_networks(db, spt.push(vertex));
    if after.len() == before.len() + 1 {
        assert(after.drop_last() =~= before);
    } else {
        assert(after =~= before);
    }
}

/// A router of the tree gives the networks of its stub links, after those of the
/// vertices before it, and only these.
pub proof fn router_vertex_gives_its_stubs(
    db: Map<ExtPrefixKey, Arc<ExtPrefixTlv>>,
    spt: Seq<Vertex>,
    vertex: Vertex,
    links: Seq<LsaRouterLink>,
)
    requires
        vertex.lsa is Router,
        vertex.lsa.lsa().body matches LsaBody::Router { links: l, .. } && l@ == links,
    ensures
        tree_networks(db, spt.push(vertex)) == tree_networks(db, spt) + filter_map(
            links,
            stub_network(db, vertex.id, vertex.lsa.lsa().hdr.adv_rtr),
        ),
{
    assert(spt.push(vertex).drop_last() =~= spt);
}

/// Each stub link with a netmask gives one network at the cost of the link. Other
/// links give none.
pub proof fn stub_links_give_networks(
    db: Map<ExtPrefixKey, Arc<ExtPrefixTlv>>,
    vertex: VertexId,
    adv_rtr: Ipv4Addr,
    links: Seq<LsaRouterLink>,
    link: LsaRouterLink,
)
    ensures
        ({
            let before = filter_map(links, stub_network(db, vertex, adv_rtr));
            let after = filter_map(links.push(link), stub_network(db, vertex, adv_rtr));
            &&& link.link_type == LsaRouterLinkType::StubNetwork && v4_net(link.link_id, link.link_data) is Some ==> {
                let net = v4_net(link.link_id, link.link_data)->0;
                &&& after.len() == before.len() + 1
                &&& after.drop_last() == before
                &&& after.last().vertex == vertex
                &&& after.last().prefix == net.masked()
                &&& after.last().metric == link.metric
                &&& after.last().prefix_sid == prefix_sid_of(db, adv_rtr, net.masked(), ExtPrefixRouteType::IntraArea)
            }
            &&& link.link_type != LsaRouterLinkType::StubNetwork || v4_net(link.link_id, link.link_data) is None
                ==> after == before
        }),
{
    let f = stub_network(db, vertex, adv_rtr);
    pushed(links, link, f);
    if filter_map(links.push(link), f).len() > filter_map(links, f).len() {
        assert(filter_map(links.push(link), f).drop_last() =~= filter_map(links, f));
    }
}

/// A router says something of a prefix only in an LSA that counts, and of a route
/// of the kind that it says it of. The SID is the one for the shortest path.
pub proof fn prefix_sids_come_from_the_router(
    db: Map<ExtPrefixKey, Arc<ExtPrefixTlv>>,
    adv_rtr: Ipv4Addr,
    prefix: IpNetwork,
    route_type: ExtPrefixRouteType,
)
    ensures
        ({
            let k = ExtPrefixKey { adv_rtr, prefix };
            let sid = prefix_sid_of(db, adv_rtr, prefix, route_type);
            &&& !db.contains_key(k) ==> sid is None
            &&& db.contains_key(k) && route_type != ExtPrefixRouteType::Unspecified && db[k].route_type != route_type
                ==> sid is None
            &&& db.contains_key(k) && (route_type == ExtPrefixRouteType::Unspecified || db[k].route_type == route_type)
                ==> {
                &&& db[k].prefix_sids@.contains_key(IgpAlgoType::Spf) ==> sid == Some(
                    db[k].prefix_sids@[IgpAlgoType::Spf],
                )
                &&& !db[k].prefix_sids@.contains_key(IgpAlgoType::Spf) ==> sid is None
            }
        }),
{
}

/// An extended prefix LSA of the area that has not reached its maximum age makes
/// known what its router says of each of its prefixes, unless an LSA before it has
/// said something of it. Nothing else does.
pub proof fn extended_prefixes_are_collected(lsdb: Seq<Arc<Lsa>>, lsa: Arc<Lsa>, k: ExtPrefixKey)
    ensures
        !ext_prefix_db(Seq::empty()).contains_key(k),
        ({
            let before = ext_prefix_db(lsdb);
            let after = ext_prefix_db(lsdb.push(lsa));
            let says = !lsa.hdr.maxage && k.adv_rtr == lsa.hdr.adv_rtr && lsa.body is OpaqueArea
                && lsa.body->OpaqueArea_0 is ExtPrefix && lsa.body->OpaqueArea_0->prefixes@.contains_key(k.prefix);
            &&& before.contains_key(k) ==> after.contains_key(k) && after[k] == before[k]
            &&& !before.contains_key(k) && says ==> after.contains_key(k) && after[k]
                == lsa.body->OpaqueArea_0->prefixes@[k.prefix]
            &&& !before.contains_key(k) && !says ==> !after.contains_key(k)
        }),
{
    assert(lsdb.push(lsa).drop_last() =~= lsdb);
}

/// The algorithms of a router are those of its first LSA with any, and its label
/// ranges are those of all of its LSAs, in order. LSAs of other routers, and those
/// that have reached their maximum age, say nothing.
pub proof fn router_information_is_its_own(lsdb: Seq<Arc<Lsa>>, lsa: Arc<Lsa>, router_id: Ipv4Addr)
    ensures
        first_sr_algo(Seq::empty(), router_id) is None,
        all_ranges(Seq::empty(), router_id).len() == 0,
        ({
            let counts = lsa.hdr.adv_rtr == router_id && !lsa.hdr.maxage && lsa.body is OpaqueArea
                && lsa.body->OpaqueArea_0 is RouterInfo;
            let info = lsa.body->OpaqueArea_0;
            &&& first_sr_algo(lsdb, router_id) is Some ==> first_sr_algo(lsdb.push(lsa), router_id) == first_sr_algo(
                lsdb,
                router_id,
            )
            &&& first_sr_algo(lsdb, router_id) is None && counts ==> first_sr_algo(lsdb.push(lsa), router_id)
                == info->sr_algo
            &&& first_sr_algo(lsdb, router_id) is None && !counts ==> first_sr_algo(lsdb.push(lsa), router_id) is None
            &&& counts ==> all_ranges(lsdb.push(lsa), router_id) == all_ranges(lsdb, router_id) + info->srgb@
            &&& !counts ==> all_ranges(lsdb.push(lsa), router_id) == all_ranges(lsdb, router_id)
        }),
{
    assert(lsdb.push(lsa).drop_last() =~= lsdb);
}

// ===== vertices and links =====

/// An LSA is found exactly if one of that kind is there: it is the first one.
proof fn first_found(lsdb: Seq<Arc<Lsa>>, cond: spec_fn(Lsa) -> bool)
    ensures
        first_lsa(lsdb, cond) is None ==> forall|i: int| 0 <= i < lsdb.len() ==> !cond(*(#[trigger] lsdb[i])),
        first_lsa(lsdb, cond) is Some ==> exists|i: int|
            0 <= i < lsdb.len() && #[trigger] lsdb[i] == first_lsa(lsdb, cond)->0 && cond(*lsdb[i]) && forall|j: int|
                0 <= j < i ==> !cond(*(#[trigger] lsdb[j])),
    decreases lsdb.len(),
{
    if lsdb.len() > 0 {
        let front = lsdb.drop_last();
        first_found(front, cond);
        if first_lsa(front, cond) is Some {
            let i = choose|i: int|
                0 <= i < front.len() && #[trigger] front[i] == first_lsa(front, cond)->0 && cond(*front[i]) && forall|
                    j: int,
                |
                    0 <= j < i ==> !cond(*(#[trigger] front[j]));
            assert(lsdb[i] == front[i]);
            assert forall|j: int| 0 <= j < i implies !cond(*(#[trigger] lsdb[j])) by {
                assert(front[j] == lsdb[j]);
            }
        } else {
            assert forall|j: int| 0 <= j < front.len() implies !cond(*(#[trigger] lsdb[j])) by {
                assert(front[j] == lsdb[j]);
            }
            assert(lsdb[lsdb.len() - 1] == lsdb.last());
        }
    }
}

/// The LSA of a router vertex is the Router-LSA that this router has originated of
/// itself, unless it has reached its maximum age.
pub proof fn router_vertex_has_own_lsa(lsdb: Seq<Arc<Lsa>>, router_id: Ipv4Addr, n: int)
    requires
        0 <= n < lsdb.len(),
        lsdb[n].body is Router,
        lsdb[n].hdr.adv_rtr == router_id,
        lsdb[n].hdr.lsa_id == router_id,
        forall|i: int|
            #![trigger lsdb[i]]
            0 <= i < n && lsdb[i].body is Router ==> lsdb[i].hdr.adv_rtr != router_id || lsdb[i].hdr.lsa_id
                != router_id,
    ensures
        !lsdb[n].hdr.maxage ==> vertex_lsa(lsdb, VertexId::Router { router_id }) == Some(VertexLsa::Router(lsdb[n])),
        lsdb[n].hdr.maxage ==> vertex_lsa(lsdb, VertexId::Router { router_id }) is None,
{
    let cond = router_with(router_id);
    first_found(lsdb, cond);
    assert(cond(*lsdb[n]));
    let i = choose|i: int|
        0 <= i < lsdb.len() && #[trigger] lsdb[i] == first_lsa(lsdb, cond)->0 && cond(*lsdb[i]) && forall|j: int|
            0 <= j < i ==> !cond(*(#[trigger] lsdb[j]));
    assert(i <= n);
    if i < n {
        assert(lsdb[i].body is Router);
    }
}

/// The LSA of a network vertex is the Network-LSA with the address of its
/// designated router, unless it has reached its maximum age.
pub proof fn network_vertex_has_own_lsa(lsdb: Seq<Arc<Lsa>>, dr_addr: Ipv4Addr, n: int)
    requires
        0 <= n < lsdb.len(),
        lsdb[n].body is Network,
        lsdb[n].hdr.lsa_id == dr_addr,
        forall|i: int| #![trigger lsdb[i]] 0 <= i < n && lsdb[i].body is Network ==> lsdb[i].hdr.lsa_id != dr_addr,
    ensures
        !lsdb[n].hdr.maxage ==> vertex_lsa(lsdb, VertexId::Network { dr_addr }) == Some(VertexLsa::Network(lsdb[n])),
        lsdb[n].hdr.maxage ==> vertex_lsa(lsdb, VertexId::Network { dr_addr }) is None,
{
    let cond = network_with(dr_addr);
    first_found(lsdb, cond);
    assert(cond(*lsdb[n]));
    let i = choose|i: int|
        0 <= i < lsdb.len() && #[trigger] lsdb[i] == first_lsa(lsdb, cond)->0 && cond(*lsdb[i]) && forall|j: int|
            0 <= j < i ==> !cond(*(#[trigger] lsdb[j]));
    assert(i <= n);
    if i < n {
        assert(lsdb[i].body is Network);
    }
}

/// A vertex without an LSA of its own has none.
pub proof fn unknown_vertices_have_no_lsa(lsdb: Seq<Arc<Lsa>>, id: VertexId)
    requires
        forall|i: int|
            #![trigger lsdb[i]]
            0 <= i < lsdb.len() ==> match id {
                VertexId::Router { router_id } => !(lsdb[i].body is Router) || lsdb[i].hdr.adv_rtr != router_id
                    || lsdb[i].hdr.lsa_id != router_id,
                VertexId::Network { dr_addr } => !(lsdb[i].body is Network) || lsdb[i].hdr.lsa_id != dr_addr,
            },
    ensures
        vertex_lsa(lsdb, id) is None,
{
    match id {
        VertexId::Router { router_id } => {
            first_found(lsdb, router_with(router_id));
        },
        VertexId::Network { dr_addr } => {
            first_found(lsdb, network_with(dr_addr));
        },
    }
}

/// Each link of a Router-LSA leads, at its own cost, to the router or network that
/// it names, if that has an LSA: a point-to-point or virtual link to a router, a
/// transit link to a network. A stub link leads nowhere.
pub proof fn router_links_lead_to_vertices(lsdb: Seq<Arc<Lsa>>, links: Seq<LsaRouterLink>, link: LsaRouterLink)
    ensures
        router_spf_links(lsdb, Seq::empty()).len() == 0,
        ({
            let before = router_spf_links(lsdb, links);
            let after = router_spf_links(lsdb, links.push(link));
            let id = match link.link_type {
                LsaRouterLinkType::TransitNetwork => VertexId::Network { dr_addr: link.link_id },
                _ => VertexId::Router { router_id: link.link_id },
            };
            &&& link.link_type == LsaRouterLinkType::StubNetwork ==> after == before
            &&& link.link_type != LsaRouterLinkType::StubNetwork && vertex_lsa(lsdb, id) is None ==> after == before
            &&& link.link_type != LsaRouterLinkType::StubNetwork && vertex_lsa(lsdb, id) is Some ==> {
                &&& after.len() == before.len() + 1
                &&& after.drop_last() == before
                &&& after.last().id == id
                &&& after.last().lsa == vertex_lsa(lsdb, id)->0
                &&& after.last().cost == link.metric
                &&& after.last().parent matches Some(p) && p.1 == link
            }
        }),
{
    assert(links.push(link).drop_last() =~= links);
    let before = router_spf_links(lsdb, links);
    let after = router_spf_links(lsdb, links.push(link));
    if after.len() > before.len() {
        assert(after.drop_last() =~= before);
    }
}

/// A network leads to each attached router that has an LSA, at no cost.
pub proof fn networks_lead_to_attached_routers(lsdb: Seq<Arc<Lsa>>, rtrs: Seq<Ipv4Addr>, router_id: Ipv4Addr)
    ensures
        filter_map(Seq::<Ipv4Addr>::empty(), attached_link(lsdb)).len() == 0,
        ({
            let before = filter_map(rtrs, attached_link(lsdb));
            let after = filter_map(rtrs.push(router_id), attached_link(lsdb));
            let id = VertexId::Router { router_id };
            &&& vertex_lsa(lsdb, id) is None ==> after == before
            &&& vertex_lsa(lsdb, id) is Some ==> {
                &&& after.len() == before.len() + 1
                &&& after.drop_last() == before
                &&& after.last().id == id
                &&& after.last().lsa == vertex_lsa(lsdb, id)->0
                &&& after.last().cost == 0
                &&& after.last().parent is None
            }
        }),
{
    pushed(rtrs, router_id, attached_link(lsdb));
    let before = filter_map(rtrs, attached_link(lsdb));
    let after = filter_map(rtrs.push(router_id), attached_link(lsdb));
    if after.len() > before.len() {
        assert(after.drop_last() =~= before);
    }
}

/// The links of a vertex are those of its LSA: the links of a Router-LSA, or the
/// attached routers of a Network-LSA.
pub proof fn vertices_have_the_links_of_their_lsa(
    lsdb: Seq<Arc<Lsa>>,
    v: VertexLsa,
    links: Seq<LsaRouterLink>,
    rtrs: Seq<Ipv4Addr>,
)
    ensures
        v.lsa().body is Router && v.lsa().body->links@ == links ==> spf_links(lsdb, v) == router_spf_links(lsdb, links),
        v.lsa().body is Network && v.lsa().body->attached_rtrs@ == rtrs ==> spf_links(lsdb, v) == filter_map(
            rtrs,
            attached_link(lsdb),
        ),
{
}

// ===== next hops =====

/// An interface has originated a link exactly if the link carries what stands for
/// the interface: the source address of a virtual link, the ifindex of an
/// unnumbered point-to-point link, and its address elsewhere.
pub proof fn links_carry_their_interface(iface: SpfInterface, link: LsaRouterLink)
    ensures
        link.link_type == LsaRouterLinkType::VirtualLink ==> originates(iface, link) == (iface.src_addr == Some(
            link.link_data,
        )),
        link.link_type == LsaRouterLinkType::PointToPoint && iface.unnumbered ==> originates(iface, link) == (
        iface.ifindex == Some(link.link_data)),
        link.link_type == LsaRouterLinkType::PointToPoint && !iface.unnumbered ==> originates(iface, link) == (
        iface.primary_addr == Some(link.link_data)),
        link.link_type == LsaRouterLinkType::TransitNetwork ==> originates(iface, link) == (iface.primary_addr == Some(
            link.link_data,
        )),
        link.link_type == LsaRouterLinkType::StubNetwork ==> !originates(iface, link),
{
}

/// The interface of a link is the first one that has originated it, if any.
pub proof fn link_interface_is_the_first(ifaces: Seq<SpfInterface>, link: LsaRouterLink)
    ensures
        link_iface(ifaces, link) is None ==> forall|i: int|
            0 <= i < ifaces.len() ==> !originates(#[trigger] ifaces[i], link),
        link_iface(ifaces, link) matches Some(n) ==> 0 <= n < ifaces.len() && originates(ifaces[n], link) && forall|
            i: int,
        |
            0 <= i < n ==> !originates(#[trigger] ifaces[i], link),
    decreases ifaces.len(),
{
    if ifaces.len() > 0 {
        let front = ifaces.drop_last();
        link_interface_is_the_first(front, link);
        assert forall|i: int| 0 <= i < front.len() implies #[trigger] ifaces[i] == front[i] by {}
        assert(ifaces[ifaces.len() - 1] == ifaces.last());
    }
}

/// The source address of a neighbor is that of the first one with its identifier.
pub proof fn neighbor_source_is_the_first(neighbors: Seq<SpfNeighbor>, router_id: Ipv4Addr)
    ensures
        nbr_src(neighbors, router_id) is None ==> forall|i: int|
            0 <= i < neighbors.len() ==> (#[trigger] neighbors[i]).router_id != router_id,
        nbr_src(neighbors, router_id) matches Some(src) ==> exists|n: int|
            0 <= n < neighbors.len() && (#[trigger] neighbors[n]).router_id == router_id && neighbors[n].src == src
                && forall|i: int| 0 <= i < n ==> (#[trigger] neighbors[i]).router_id != router_id,
    decreases neighbors.len(),
{
    if neighbors.len() > 0 {
        let front = neighbors.drop_last();
        neighbor_source_is_the_first(front, router_id);
        assert forall|i: int| 0 <= i < front.len() implies #[trigger] neighbors[i] == front[i] by {}
        assert(neighbors[neighbors.len() - 1] == neighbors.last());
        if let Some(src) = nbr_src(front, router_id) {
            let n = choose|n: int|
                0 <= n < front.len() && (#[trigger] front[n]).router_id == router_id && front[n].src == src && forall|
                    i: int,
                |
                    0 <= i < n ==> (#[trigger] front[i]).router_id != router_id;
            assert(neighbors[n] == front[n]);
            assert forall|i: int| 0 <= i < n implies (#[trigger] neighbors[i]).router_id != router_id by {
                assert(front[i].router_id != router_id);
            }
        }
    }
}

/// Whether next hops are a single one.
pub open spec fn only(m: Map<NexthopKey, Nexthop>, iface_idx: u32, addr: Option<Ipv4Addr>, nbr: Option<Ipv4Addr>) -> bool {
    let k = NexthopKey { iface_idx, addr };
    &&& m.dom() == set![k]
    &&& m[k].iface_idx == iface_idx
    &&& m[k].addr == addr
    &&& m[k].nbr_router_id == nbr
}

/// A network that the root is connected to is reached over the interface of the
/// link, directly. Without such an interface there is no next hop, and that of a
/// virtual link is left open.
pub proof fn connected_networks_are_reached_directly(
    parent: Vertex,
    link: LsaRouterLink,
    dest_lsa: VertexLsa,
    ifaces: Seq<SpfInterface>,
)
    requires
        parent.lsa is Router,
        dest_lsa is Network,
    ensures
        link_iface(ifaces, link) is None ==> nexthops_to(parent, Some(link), dest_lsa, ifaces) is None,
        link_iface(ifaces, link) matches Some(n) ==> {
            &&& nexthops_to(parent, Some(link), dest_lsa, ifaces) is Some
            &&& !ifaces[n].virtual_link ==> only(
                nexthops_to(parent, Some(link), dest_lsa, ifaces)->0,
                ifaces[n].index,
                None,
                None,
            )
            &&& ifaces[n].virtual_link ==> nexthops_to(parent, Some(link), dest_lsa, ifaces)->0 == Map::<
                NexthopKey,
                Nexthop,
            >::empty()
        },
{
    if let Some(n) = link_iface(ifaces, link) {
        if !ifaces[n].virtual_link {
            let k = NexthopKey { iface_idx: ifaces[n].index, addr: None };
            assert(nexthops_to(parent, Some(link), dest_lsa, ifaces)->0.dom() =~= set![k]);
        }
    }
}

/// A router that the root is connected to over a point-to-point interface is
/// reached at the source address of that neighbor, and not at all where there is
/// no such neighbor.
pub proof fn point_to_point_routers_are_reached_at_their_source(
    parent: Vertex,
    link: LsaRouterLink,
    dest_lsa: VertexLsa,
    ifaces: Seq<SpfInterface>,
    n: int,
)
    requires
        parent.lsa is Router,
        dest_lsa is Router,
        link_iface(ifaces, link) == Some(n),
        !ifaces[n].virtual_link,
        ifaces[n].if_type == InterfaceType::PointToPoint || ifaces[n].if_type == InterfaceType::VirtualLink,
    ensures
        ({
            let router_id = dest_lsa.lsa().hdr.adv_rtr;
            let r = nexthops_to(parent, Some(link), dest_lsa, ifaces);
            &&& nbr_src(ifaces[n].neighbors@, router_id) matches Some(src) ==> r is Some && only(
                r->0,
                ifaces[n].index,
                Some(src),
                Some(router_id),
            )
            &&& nbr_src(ifaces[n].neighbors@, router_id) is None ==> r is None
        }),
{
    let router_id = dest_lsa.lsa().hdr.adv_rtr;
    if let Some(src) = nbr_src(ifaces[n].neighbors@, router_id) {
        let k = NexthopKey { iface_idx: ifaces[n].index, addr: Some(src) };
        assert(nexthops_to(parent, Some(link), dest_lsa, ifaces)->0.dom() =~= set![k]);
    }
}

/// An address is on an interface exactly if one of its networks has it.
pub proof fn interface_networks_hold_addresses(networks: Seq<IpNetwork>, addr: Ipv4Addr, i: int)
    ensures
        0 <= i < networks.len() && networks[i].has_v4(addr) ==> on_iface(networks, addr),
        (forall|j: int| 0 <= j < networks.len() ==> !(#[trigger] networks[j]).has_v4(addr)) ==> !on_iface(
            networks,
            addr,
        ),
{
}

/// A router that the root is connected to over a point-to-multipoint interface is
/// reached at each of its addresses on a network of that interface.
pub proof fn multipoint_routers_are_reached_on_the_network(
    links: Seq<LsaRouterLink>,
    networks: Seq<IpNetwork>,
    iface_idx: u32,
    router_id: Ipv4Addr,
    link: LsaRouterLink,
    k: NexthopKey,
)
    ensures
        multipoint_nexthops(Seq::empty(), networks, iface_idx, router_id).dom() == Set::<NexthopKey>::empty(),
        ({
            let before = multipoint_nexthops(links, networks, iface_idx, router_id);
            let after = multipoint_nexthops(links.push(link), networks, iface_idx, router_id);
            let own = NexthopKey { iface_idx, addr: Some(link.link_data) };
            &&& on_iface(networks, link.link_data) ==> after.contains_key(own) && after[own] == (Nexthop {
                iface_idx,
                addr: Some(link.link_data),
                nbr_router_id: Some(router_id),
            })
            &&& !on_iface(networks, link.link_data) ==> after == before
            &&& k != own ==> after.contains_key(k) == before.contains_key(k) && (before.contains_key(k) ==> after[k]
                == before[k])
        }),
{
    assert(links.push(link).drop_last() =~= links);
    assert(multipoint_nexthops(Seq::empty(), networks, iface_idx, router_id).dom() =~= Set::<NexthopKey>::empty());
}

/// Over a point-to-multipoint interface these are the next hops, where there are
/// any. Over broadcast interfaces routers are not reached directly.
pub proof fn multipoint_next_hops_are_used(
    parent: Vertex,
    link: LsaRouterLink,
    dest_lsa: VertexLsa,
    ifaces: Seq<SpfInterface>,
    n: int,
    links: Seq<LsaRouterLink>,
)
    requires
        parent.lsa is Router,
        dest_lsa is Router,
        dest_lsa.lsa().body is Router,
        dest_lsa.lsa().body->links@ == links,
        link_iface(ifaces, link) == Some(n),
        !ifaces[n].virtual_link,
    ensures
        ({
            let r = nexthops_to(parent, Some(link), dest_lsa, ifaces);
            let m = multipoint_nexthops(links, ifaces[n].networks@, ifaces[n].index, dest_lsa.lsa().hdr.adv_rtr);
            &&& ifaces[n].if_type == InterfaceType::PointToMultipoint && m.dom() == Set::<NexthopKey>::empty()
                ==> r is None
            &&& ifaces[n].if_type == InterfaceType::PointToMultipoint && m.dom() != Set::<NexthopKey>::empty()
                ==> r == Some(m)
            &&& ifaces[n].if_type == InterfaceType::Broadcast || ifaces[n].if_type == InterfaceType::NonBroadcast
                ==> r is None
        }),
{
}

/// The first of a router's links that lie in a network is found, if there is one.
pub proof fn link_into_network_is_the_first(links: Seq<LsaRouterLink>, net: IpNetwork)
    ensures
        link_into(links, net) is None ==> forall|i: int|
            0 <= i < links.len() ==> !net.has_v4((#[trigger] links[i]).link_data),
        link_into(links, net) matches Some(link) ==> net.has_v4(link.link_data) && exists|n: int|
            0 <= n < links.len() && #[trigger] links[n] == link && forall|i: int|
                0 <= i < n ==> !net.has_v4((#[trigger] links[i]).link_data),
    decreases links.len(),
{
    if links.len() > 0 {
        let front = links.drop_last();
        link_into_network_is_the_first(front, net);
        assert forall|i: int| 0 <= i < front.len() implies #[trigger] links[i] == front[i] by {}
        assert(links[links.len() - 1] == links.last());
        if let Some(link) = link_into(front, net) {
            let n = choose|n: int|
                0 <= n < front.len() && #[trigger] front[n] == link && forall|i: int|
                    0 <= i < n ==> !net.has_v4((#[trigger] front[i]).link_data);
            assert(links[n] == link);
            assert forall|i: int| 0 <= i < n implies !net.has_v4((#[trigger] links[i]).link_data) by {
                assert(!net.has_v4(front[i].link_data));
            }
        }
    }
}

/// A router behind a network is reached over the interface that leads to the
/// network, at the address that it has there. Without such an address or without
/// a way to the network there is no next hop.
pub proof fn routers_behind_networks_are_reached_in_them(
    parent: Vertex,
    dest_lsa: VertexLsa,
    ifaces: Seq<SpfInterface>,
    mask: Ipv4Addr,
    links: Seq<LsaRouterLink>,
)
    requires
        parent.lsa is Network,
        parent.lsa.lsa().body is Network,
        parent.lsa.lsa().body->Network_mask == mask,
        dest_lsa is Router,
        dest_lsa.lsa().body is Router,
        dest_lsa.lsa().body->links@ == links,
    ensures
        ({
            let r = nexthops_to(parent, None, dest_lsa, ifaces);
            let net = v4_net(parent.lsa.lsa().hdr.lsa_id, mask);
            let keys = parent.nexthops.keys();
            &&& net is None || keys.len() == 0 || link_into(links, net->0) is None ==> r is None
            &&& net is Some && keys.len() > 0 && link_into(links, net->0) is Some ==> r is Some && only(
                r->0,
                parent.nexthops@[keys[0]].iface_idx,
                Some((link_into(links, net->0)->0).link_data),
                Some(dest_lsa.lsa().hdr.adv_rtr),
            )
        }),
{
    let r = nexthops_to(parent, None, dest_lsa, ifaces);
    let net = v4_net(parent.lsa.lsa().hdr.lsa_id, mask);
    let keys = parent.nexthops.keys();
    if net is Some && keys.len() > 0 && link_into(links, net->0) is Some {
        let k = NexthopKey {
            iface_idx: parent.nexthops@[keys[0]].iface_idx,
            addr: Some((link_into(links, net->0)->0).link_data),
        };
        assert(r->0.dom() =~= set![k]);
    }
}

// ===== kind of computation =====

/// A change of a Router- or Network-LSA, or of the opaque LSAs that segment
/// routing rests on, makes a full run necessary; no other change does.
pub proof fn topology_changes_need_a_full_run(lsa: Lsa)
    ensures
        lsa.body is Router ==> topological(lsa),
        lsa.body is Network ==> topological(lsa),
        lsa.body is SummaryNetwork || lsa.body is SummaryRouter || lsa.body is AsExternal || lsa.body is Unknown
            || lsa.body is OpaqueLink ==> !topological(lsa),
        lsa.body matches LsaBody::OpaqueArea(o) ==> topological(lsa) == (o is RouterInfo || o is ExtPrefix
            || o is ExtLink),
        lsa.body matches LsaBody::OpaqueAs(o) ==> topological(lsa) == o is ExtPrefix,
{
}

/// A partial run looks at what the changed LSA is about: the network of a type-3
/// summary, the router of a type-4 summary, or the external network.
pub proof fn partial_runs_look_at_what_changed(lsa: Lsa)
    ensures
        lsa.body matches LsaBody::SummaryNetwork { mask, .. } ==> summary_net(lsa) == v4_net(lsa.hdr.lsa_id, mask)
            && summary_router(lsa) is None && external_net(lsa) is None,
        lsa.body matches LsaBody::SummaryRouter { .. } ==> summary_router(lsa) == Some(lsa.hdr.lsa_id) && summary_net(
            lsa,
        ) is None && external_net(lsa) is None,
        lsa.body matches LsaBody::AsExternal { mask, .. } ==> external_net(lsa) == v4_net(lsa.hdr.lsa_id, mask)
            && summary_net(lsa) is None && summary_router(lsa) is None,
{
}

} // verus!
