//! Shortest Path First calculation of OSPFv2.

use std::sync::Arc;

use vstd::prelude::*;

use crate::collections::{filter_map, filter_map_step, Key, OrdSet, Table};
use crate::ip::{v4_net, IpNetwork, Ipv4Addr};
use crate::ospf::lsa::{
    ExtPrefixRouteType, ExtPrefixTlv, IgpAlgoType, Lsa, LsaBody, LsaOpaque, LsaRouterLink, LsaRouterLinkType,
    LsaTypeCode, PrefixSid, SidLabelRangeTlv, SrAlgoTlv,
};
use crate::sync::share;

verus! {

#[derive(Clone, Copy, Debug, PartialEq, Eq, Structural)]
pub enum VertexId {
    Network { dr_addr: Ipv4Addr },
    Router { router_id: Ipv4Addr },
}

pub enum VertexLsa {
    Network(Arc<Lsa>),
    Router(Arc<Lsa>),
}

/// Number that identifies an interface.
pub type InterfaceIndex = u32;

/// A vertex of the shortest-path tree.
pub struct Vertex {
    pub id: VertexId,
    pub lsa: VertexLsa,
    pub nexthops: Table<NexthopKey, Nexthop>,
}

#[derive(Clone, Copy, Debug, PartialEq, Eq, Structural)]
pub struct NexthopKey {
    pub iface_idx: InterfaceIndex,
    pub addr: Option<Ipv4Addr>,
}

#[derive(Clone, Copy, Debug, PartialEq, Eq, Structural)]
pub struct Nexthop {
    pub iface_idx: InterfaceIndex,
    pub addr: Option<Ipv4Addr>,
    pub nbr_router_id: Option<Ipv4Addr>,
}

#[derive(Clone, Copy, Debug, PartialEq, Eq, Structural)]
pub enum InterfaceType {
    Broadcast,
    NonBroadcast,
    PointToMultipoint,
    PointToPoint,
    VirtualLink,
}

#[derive(Clone, Copy, Debug, PartialEq, Eq, Structural)]
pub struct SpfNeighbor {
    pub router_id: Ipv4Addr,
    pub src: Ipv4Addr,
}

/// An interface, as far as the calculation looks at it.
pub struct SpfInterface {
    pub index: InterfaceIndex,
    pub if_type: InterfaceType,
    pub virtual_link: bool,
    pub unnumbered: bool,
    pub ifindex: Option<u32>,
    pub primary_addr: Option<Ipv4Addr>,
    pub networks: Vec<IpNetwork>,
    pub src_addr: Option<Ipv4Addr>,
    pub neighbors: Vec<SpfNeighbor>,
}

/// Errors of the calculation.
#[derive(Clone, Copy, Debug, PartialEq, Eq, Structural)]
pub enum SpfError {
    SpfNexthopCalcError(VertexId),
}

// ===== keys =====

impl View for NexthopKey {
    type V = NexthopKey;

    open spec fn view(&self) -> NexthopKey {
        *self
    }
}

impl NexthopKey {
    /// The address as two numbers: none comes first.
    pub open spec fn addr_parts(self) -> (u128, u128) {
        match self.addr {
            None => (0, 0),
            Some(a) => (1, a as u128),
        }
    }

    pub fn new(iface_idx: InterfaceIndex, addr: Option<Ipv4Addr>) -> (r: NexthopKey)
        ensures
            r == (NexthopKey { iface_idx, addr }),
    {
        NexthopKey { iface_idx, addr }
    }
}

impl Nexthop {
    pub fn new(iface_idx: InterfaceIndex, addr: Option<Ipv4Addr>, nbr_router_id: Option<Ipv4Addr>) -> (r: Nexthop)
        ensures
            r == (Nexthop { iface_idx, addr, nbr_router_id }),
    {
        Nexthop { iface_idx, addr, nbr_router_id }
    }
}

impl Key for NexthopKey {
    open spec fn code(v: NexthopKey) -> Seq<u128> {
        seq![v.iface_idx as u128, v.addr_parts().0, v.addr_parts().1]
    }

    proof fn code_injective(a: NexthopKey, b: NexthopKey) {
        let (x, y) = (Self::code(a), Self::code(b));
        assert(x[0] == a.iface_idx as u128 && y[0] == b.iface_idx as u128);
        assert(x[1] == a.addr_parts().0 && y[1] == b.addr_parts().0);
        assert(x[2] == a.addr_parts().1 && y[2] == b.addr_parts().1);
    }

    fn to_code(&self) -> Vec<u128> {
        match self.addr {
            None => vec![self.iface_idx as u128, 0, 0],
            Some(a) => vec![self.iface_idx as u128, 1, a as u128],
        }
    }

    fn copy_key(&self) -> NexthopKey {
        *self
    }
}

// ===== impl VertexId =====

impl VertexId {
    pub fn new_root(router_id: Ipv4Addr) -> (r: VertexId)
        ensures
            r == (VertexId::Router { router_id }),
    {
        VertexId::Router { router_id }
    }
}

// ===== impl VertexLsa =====

impl VertexLsa {
    /// Whether the LSA is of the kind that the vertex says.
    pub open spec fn wf(self) -> bool {
        match self {
            VertexLsa::Network(lsa) => lsa.body is Network,
            VertexLsa::Router(lsa) => lsa.body is Router,
        }
    }

    pub open spec fn lsa(self) -> Lsa {
        match self {
            VertexLsa::Network(lsa) => *lsa,
            VertexLsa::Router(lsa) => *lsa,
        }
    }

    pub fn is_router(&self) -> (r: bool)
        ensures
            r == self is Router,
    {
        match self {
            VertexLsa::Network(_) => false,
            VertexLsa::Router(_) => true,
        }
    }

    pub fn router_id(&self) -> (r: Ipv4Addr)
        requires
            self is Router,
        ensures
            r == self.lsa().hdr.adv_rtr,
    {
        match self {
            VertexLsa::Network(lsa) => lsa.hdr.adv_rtr,
            VertexLsa::Router(lsa) => lsa.hdr.adv_rtr,
        }
    }

    pub fn router_options(&self) -> (r: u8)
        requires
            self is Router,
        ensures
            r == self.lsa().hdr.options,
    {
        match self {
            VertexLsa::Network(lsa) => lsa.hdr.options,
            VertexLsa::Router(lsa) => lsa.hdr.options,
        }
    }

    pub fn router_flags(&self) -> (r: u8)
        requires
            self is Router,
            self.wf(),
        ensures
            self.lsa().body matches LsaBody::Router { flags, .. } && r == flags,
    {
        let lsa = match self {
            VertexLsa::Network(lsa) => lsa,
            VertexLsa::Router(lsa) => lsa,
        };
        match &lsa.body {
            LsaBody::Router { flags, links: _ } => *flags,
            _ => 0,
        }
    }

    /// The LSA that the vertex comes from, given by its type and identifiers.
    pub fn origin(&self) -> (r: (LsaTypeCode, Ipv4Addr, Ipv4Addr))
        ensures
            r == (self.lsa().code(), self.lsa().hdr.adv_rtr, self.lsa().hdr.lsa_id),
    {
        let lsa = match self {
            VertexLsa::Network(lsa) => lsa,
            VertexLsa::Router(lsa) => lsa,
        };
        (lsa.type_code(), lsa.hdr.adv_rtr, lsa.hdr.lsa_id)
    }

    /// A reference to the same LSA.
    pub fn copy(&self) -> (r: VertexLsa)
        ensures
            r == *self,
    {
        match self {
            VertexLsa::Network(lsa) => VertexLsa::Network(share(lsa)),
            VertexLsa::Router(lsa) => VertexLsa::Router(share(lsa)),
        }
    }
}

// ===== links =====

/// The `Link Data` an interface advertises for its own Router-LSA links: its
/// address, except that an unnumbered point-to-point link carries the ifindex
/// and a virtual link carries the source address chosen for it. A stub link
/// names a prefix, not an interface.
pub open spec fn link_data(
    link_type: LsaRouterLinkType,
    unnumbered: bool,
    ifindex: Option<u32>,
    primary_addr: Option<Ipv4Addr>,
    vlink_src_addr: Option<Ipv4Addr>,
) -> Option<Ipv4Addr> {
    match link_type {
        LsaRouterLinkType::VirtualLink => vlink_src_addr,
        LsaRouterLinkType::PointToPoint => if unnumbered {
            ifindex
        } else {
            primary_addr
        },
        LsaRouterLinkType::TransitNetwork => primary_addr,
        LsaRouterLinkType::StubNetwork => None,
    }
}

pub fn iface_link_data(
    link_type: LsaRouterLinkType,
    unnumbered: bool,
    ifindex: Option<u32>,
    primary_addr: Option<Ipv4Addr>,
    vlink_src_addr: Option<Ipv4Addr>,
) -> (r: Option<Ipv4Addr>)
    ensures
        r == link_data(link_type, unnumbered, ifindex, primary_addr, vlink_src_addr),
{
    match link_type {
        LsaRouterLinkType::VirtualLink => vlink_src_addr,
        LsaRouterLinkType::PointToPoint => {
            if unnumbered {
                ifindex
            } else {
                primary_addr
            }
        },
        LsaRouterLinkType::TransitNetwork => primary_addr,
        // A stub link names a prefix, not an interface.
        LsaRouterLinkType::StubNetwork => None,
    }
}

/// Whether an interface is the one that originated a link.
pub open spec fn originates(iface: SpfInterface, link: LsaRouterLink) -> bool {
    link_data(link.link_type, iface.unnumbered, iface.ifindex, iface.primary_addr, iface.src_addr) == Some(
        link.link_data,
    )
}

pub fn iface_matches_link(iface: &SpfInterface, link: &LsaRouterLink) -> (r: bool)
    ensures
        r == originates(*iface, *link),
{
    match iface_link_data(link.link_type, iface.unnumbered, iface.ifindex, iface.primary_addr, iface.src_addr) {
        Some(data) => data == link.link_data,
        None => false,
    }
}

/// No interface answers for a stub link.
pub proof fn stub_links_have_no_interface(iface: SpfInterface, link: LsaRouterLink)
    requires
        link.link_type == LsaRouterLinkType::StubNetwork,
    ensures
        !originates(iface, link),
{
}

// ===== kind of computation =====

/// An LSA whose change triggered the computation.
pub struct SpfTriggerLsa {
    pub new: Arc<Lsa>,
}

/// Whether the change of an LSA requires a full run: it represents a change of
/// the topology, or is one of the opaque LSAs that are treated like that.
pub open spec fn topological(lsa: Lsa) -> bool {
    match lsa.body {
        LsaBody::Router { .. } => true,
        LsaBody::Network { .. } => true,
        LsaBody::OpaqueArea(LsaOpaque::RouterInfo { .. }) => true,
        LsaBody::OpaqueArea(LsaOpaque::ExtPrefix { .. }) => true,
        LsaBody::OpaqueArea(LsaOpaque::ExtLink) => true,
        LsaBody::OpaqueAs(LsaOpaque::ExtPrefix { .. }) => true,
        _ => false,
    }
}

fn is_topological(lsa: &Lsa) -> (r: bool)
    ensures
        r == topological(*lsa),
{
    match &lsa.body {
        LsaBody::Router { .. } => true,
        LsaBody::Network { .. } => true,
        LsaBody::OpaqueArea(opaque) => match opaque {
            LsaOpaque::RouterInfo { .. } => true,
            LsaOpaque::ExtPrefix { .. } => true,
            LsaOpaque::ExtLink => true,
            _ => false,
        },
        LsaBody::OpaqueAs(opaque) => match opaque {
            LsaOpaque::ExtPrefix { .. } => true,
            _ => false,
        },
        _ => false,
    }
}

/// The network that a summary or external LSA describes, if its mask is a
/// netmask.
pub open spec fn summary_net(lsa: Lsa) -> Option<IpNetwork> {
    match lsa.body {
        LsaBody::SummaryNetwork { mask, .. } => v4_net(lsa.hdr.lsa_id, mask),
        _ => None,
    }
}

pub open spec fn summary_router(lsa: Lsa) -> Option<Ipv4Addr> {
    match lsa.body {
        LsaBody::SummaryRouter { .. } => Some(lsa.hdr.lsa_id),
        _ => None,
    }
}

pub open spec fn external_net(lsa: Lsa) -> Option<IpNetwork> {
    match lsa.body {
        LsaBody::AsExternal { mask, .. } => v4_net(lsa.hdr.lsa_id, mask),
        _ => None,
    }
}

/// What a partial run has to look at. Intra-area information is embedded in
/// Router-LSAs and Network-LSAs, so there is none of it.
pub struct SpfPartialComputation {
    pub intra: OrdSet<IpNetwork>,
    pub inter_network: OrdSet<IpNetwork>,
    pub inter_router: OrdSet<Ipv4Addr>,
    pub external: OrdSet<IpNetwork>,
}

pub enum SpfComputation {
    Full,
    Partial(SpfPartialComputation),
}

/// Whether a set holds what a function finds in trigger LSAs.
pub open spec fn found<T>(s: Set<T>, lsas: Seq<SpfTriggerLsa>, f: spec_fn(Lsa) -> Option<T>) -> bool {
    forall|x: T| #[trigger] s.contains(x) == exists|i: int|
        0 <= i < lsas.len() && f(*(#[trigger] lsas[i]).new) == Some(x)
}

proof fn found_step<T>(s: Set<T>, next: Set<T>, lsas: Seq<SpfTriggerLsa>, i: int, f: spec_fn(Lsa) -> Option<T>)
    requires
        0 <= i < lsas.len(),
        found(s, lsas.take(i), f),
        next == (match f(*lsas[i].new) {
            Some(x) => s.insert(x),
            None => s,
        }),
    ensures
        found(next, lsas.take(i + 1), f),
{
    let a = lsas.take(i);
    let b = lsas.take(i + 1);
    assert forall|x: T| #[trigger] next.contains(x) == exists|k: int|
        0 <= k < b.len() && f(*(#[trigger] b[k]).new) == Some(x) by {
        if next.contains(x) {
            if s.contains(x) {
                let k = choose|k: int| 0 <= k < a.len() && f(*(#[trigger] a[k]).new) == Some(x);
                assert(b[k] == a[k]);
            } else {
                assert(b[i] == lsas[i]);
            }
        }
        if exists|k: int| 0 <= k < b.len() && f(*(#[trigger] b[k]).new) == Some(x) {
            let k = choose|k: int| 0 <= k < b.len() && f(*(#[trigger] b[k]).new) == Some(x);
            if k < i {
                assert(a[k] == b[k]);
                assert(s.contains(x));
            }
        }
    }
}

/// Decides how much has to be computed again.
pub fn spf_computation_type(trigger_lsas: &Vec<SpfTriggerLsa>) -> (r: SpfComputation)
    ensures
        r is Full <==> exists|i: int| 0 <= i < trigger_lsas@.len() && topological(*(#[trigger] trigger_lsas@[i]).new),
        r matches SpfComputation::Partial(p) ==> {
            &&& p.intra@ == Set::<IpNetwork>::empty()
            &&& found(p.inter_network@, trigger_lsas@, |lsa: Lsa| summary_net(lsa))
            &&& found(p.inter_router@, trigger_lsas@, |lsa: Lsa| summary_router(lsa))
            &&& found(p.external@, trigger_lsas@, |lsa: Lsa| external_net(lsa))
        },
{
    // Router-LSA and Network-LSA changes represent topological changes,
    // hence a full SPF run is required to recompute the SPT.
    //
    // Certain Opaque-LSA changes don't strictly require a full SPF run, but
    // doing so greatly simplify things (e.g. no need to keep track of which
    // routes are affected by which SRGBs).
    let mut i: usize = 0;
    while i < trigger_lsas.len()
        invariant
            i <= trigger_lsas@.len(),
            forall|j: int| 0 <= j < i ==> !topological(*(#[trigger] trigger_lsas@[j]).new),
        decreases trigger_lsas@.len() - i,
    {
        if is_topological(&trigger_lsas[i].new) {
            assert(topological(*trigger_lsas@[i as int].new));
            return SpfComputation::Full;
        }
        i += 1;
    }
    let ghost f_net = |lsa: Lsa| summary_net(lsa);
    let ghost f_rtr = |lsa: Lsa| summary_router(lsa);
    let ghost f_ext = |lsa: Lsa| external_net(lsa);
    let mut inter_network: OrdSet<IpNetwork> = OrdSet::new();
    let mut inter_router: OrdSet<Ipv4Addr> = OrdSet::new();
    let mut external: OrdSet<IpNetwork> = OrdSet::new();
    let mut i: usize = 0;
    while i < trigger_lsas.len()
        invariant
            i <= trigger_lsas@.len(),
            f_net == (|lsa: Lsa| summary_net(lsa)),
            f_rtr == (|lsa: Lsa| summary_router(lsa)),
            f_ext == (|lsa: Lsa| external_net(lsa)),
            found(inter_network@, trigger_lsas@.take(i as int), f_net),
            found(inter_router@, trigger_lsas@.take(i as int), f_rtr),
            found(external@, trigger_lsas@.take(i as int), f_ext),
        decreases trigger_lsas@.len() - i,
    {
        let lsa = &trigger_lsas[i].new;
        let ghost (s1, s2, s3) = (inter_network@, inter_router@, external@);
        match &lsa.body {
            // Check Type-3 Summary LSA changes.
            LsaBody::SummaryNetwork { mask, metric: _ } => {
                if let Some(net) = IpNetwork::with_netmask(lsa.hdr.lsa_id, *mask) {
                    inter_network.insert(net);
                }
            },
            // Check Type-4 Summary LSA changes.
            LsaBody::SummaryRouter { .. } => {
                inter_router.insert(lsa.hdr.lsa_id);
            },
            // Check AS-External LSA changes.
            LsaBody::AsExternal { mask, e_bit: _, metric: _, fwd_addr: _, tag: _ } => {
                if let Some(net) = IpNetwork::with_netmask(lsa.hdr.lsa_id, *mask) {
                    external.insert(net);
                }
            },
            _ => {},
        }
        proof {
            found_step(s1, inter_network@, trigger_lsas@, i as int, f_net);
            found_step(s2, inter_router@, trigger_lsas@, i as int, f_rtr);
            found_step(s3, external@, trigger_lsas@, i as int, f_ext);
        }
        i += 1;
    }
    assert(trigger_lsas@.take(i as int) =~= trigger_lsas@);
    SpfComputation::Partial(
        SpfPartialComputation { intra: OrdSet::new(), inter_network, inter_router, external },
    )
}

// ===== next hops =====

/// The position of the first interface that originated a link.
pub open spec fn link_iface(ifaces: Seq<SpfInterface>, link: LsaRouterLink) -> Option<int>
    decreases ifaces.len(),
{
    if ifaces.len() == 0 {
        None
    } else {
        match link_iface(ifaces.drop_last(), link) {
            Some(i) => Some(i),
            None => if originates(ifaces.last(), link) {
                Some(ifaces.len() - 1)
            } else {
                None
            },
        }
    }
}

/// The interface that originated a link is found by what the link carries,
/// whatever stands before it: if only one interface originated the link, it is
/// that one.
pub proof fn link_iface_identity(ifaces: Seq<SpfInterface>, link: LsaRouterLink, n: int)
    requires
        0 <= n < ifaces.len(),
        originates(ifaces[n], link),
        forall|i: int| 0 <= i < ifaces.len() && i != n ==> !originates(#[trigger] ifaces[i], link),
    ensures
        link_iface(ifaces, link) == Some(n),
    decreases ifaces.len(),
{
    let prev = ifaces.drop_last();
    if n < prev.len() {
        link_iface_identity(prev, link, n);
    } else {
        link_iface_none(prev, link);
    }
}

proof fn link_iface_none(ifaces: Seq<SpfInterface>, link: LsaRouterLink)
    requires
        forall|i: int| 0 <= i < ifaces.len() ==> !originates(#[trigger] ifaces[i], link),
    ensures
        link_iface(ifaces, link) is None,
    decreases ifaces.len(),
{
    if ifaces.len() > 0 {
        link_iface_none(ifaces.drop_last(), link);
        assert(!originates(ifaces[ifaces.len() - 1], link));
    }
}

fn find_iface(ifaces: &Vec<SpfInterface>, link: &LsaRouterLink) -> (r: Option<usize>)
    ensures
        match r {
            Some(i) => link_iface(ifaces@, *link) == Some(i as int) && i < ifaces@.len(),
            None => link_iface(ifaces@, *link) is None,
        },
{
    let mut r: Option<usize> = None;
    let mut i: usize = 0;
    assert(ifaces@.take(0) =~= Seq::empty());
    while i < ifaces.len()
        invariant
            i <= ifaces@.len(),
            match r {
                Some(k) => link_iface(ifaces@.take(i as int), *link) == Some(k as int) && k < i,
                None => link_iface(ifaces@.take(i as int), *link) is None,
            },
        decreases ifaces@.len() - i,
    {
        proof {
            assert(ifaces@.take(i + 1).drop_last() =~= ifaces@.take(i as int));
            assert(ifaces@.take(i + 1).last() == ifaces@[i as int]);
        }
        if r.is_none() && iface_matches_link(&ifaces[i], link) {
            r = Some(i);
        }
        i += 1;
    }
    assert(ifaces@.take(i as int) =~= ifaces@);
    r
}

/// The first neighbor with a router ID.
pub open spec fn nbr_src(neighbors: Seq<SpfNeighbor>, router_id: Ipv4Addr) -> Option<Ipv4Addr>
    decreases neighbors.len(),
{
    if neighbors.len() == 0 {
        None
    } else {
        match nbr_src(neighbors.drop_last(), router_id) {
            Some(src) => Some(src),
            None => if neighbors.last().router_id == router_id {
                Some(neighbors.last().src)
            } else {
                None
            },
        }
    }
}

fn find_neighbor(neighbors: &Vec<SpfNeighbor>, router_id: Ipv4Addr) -> (r: Option<Ipv4Addr>)
    ensures
        r == nbr_src(neighbors@, router_id),
{
    let mut r: Option<Ipv4Addr> = None;
    let mut i: usize = 0;
    assert(neighbors@.take(0) =~= Seq::empty());
    while i < neighbors.len()
        invariant
            i <= neighbors@.len(),
            r == nbr_src(neighbors@.take(i as int), router_id),
        decreases neighbors@.len() - i,
    {
        proof {
            assert(neighbors@.take(i + 1).drop_last() =~= neighbors@.take(i as int));
            assert(neighbors@.take(i + 1).last() == neighbors@[i as int]);
        }
        if r.is_none() && neighbors[i].router_id == router_id {
            r = Some(neighbors[i].src);
        }
        i += 1;
    }
    assert(neighbors@.take(i as int) =~= neighbors@);
    r
}

/// Whether an address belongs to one of the networks of an interface.
pub open spec fn on_iface(networks: Seq<IpNetwork>, addr: Ipv4Addr) -> bool {
    exists|i: int| 0 <= i < networks.len() && (#[trigger] networks[i]).has_v4(addr)
}

pub open spec fn networks_valid(networks: Seq<IpNetwork>) -> bool {
    forall|i: int| 0 <= i < networks.len() ==> (#[trigger] networks[i]).valid()
}

fn contains_addr(networks: &Vec<IpNetwork>, addr: Ipv4Addr) -> (r: bool)
    requires
        networks_valid(networks@),
    ensures
        r == on_iface(networks@, addr),
{
    let mut i: usize = 0;
    while i < networks.len()
        invariant
            i <= networks@.len(),
            networks_valid(networks@),
            forall|j: int| 0 <= j < i ==> !(#[trigger] networks@[j]).has_v4(addr),
        decreases networks@.len() - i,
    {
        if networks[i].contains_v4(addr) {
            assert(networks@[i as int].has_v4(addr));
            return true;
        }
        i += 1;
    }
    false
}

pub open spec fn nexthops_with(
    m: Map<NexthopKey, Nexthop>,
    iface_idx: InterfaceIndex,
    addr: Option<Ipv4Addr>,
    nbr_router_id: Option<Ipv4Addr>,
) -> Map<NexthopKey, Nexthop> {
    m.insert(NexthopKey { iface_idx, addr }, Nexthop { iface_idx, addr, nbr_router_id })
}

/// The next hops over a point-to-multipoint network: each link of the
/// destination whose Link Data belongs to the network gives one.
pub open spec fn multipoint_nexthops(
    links: Seq<LsaRouterLink>,
    networks: Seq<IpNetwork>,
    iface_idx: InterfaceIndex,
    nbr_router_id: Ipv4Addr,
) -> Map<NexthopKey, Nexthop>
    decreases links.len(),
{
    if links.len() == 0 {
        Map::empty()
    } else {
        let rest = multipoint_nexthops(links.drop_last(), networks, iface_idx, nbr_router_id);
        if on_iface(networks, links.last().link_data) {
            nexthops_with(rest, iface_idx, Some(links.last().link_data), Some(nbr_router_id))
        } else {
            rest
        }
    }
}

pub open spec fn router_links(lsa: Lsa) -> Seq<LsaRouterLink> {
    match lsa.body {
        LsaBody::Router { links, .. } => links@,
        _ => Seq::empty(),
    }
}

/// The next hops to a router or network that is connected to the calculating
/// router over an interface; none if they cannot be told.
pub open spec fn direct_nexthops(iface: SpfInterface, dest_lsa: VertexLsa) -> Option<Map<NexthopKey, Nexthop>> {
    match dest_lsa {
        VertexLsa::Router(lsa) => match iface.if_type {
            // The address of the next hop is the source address of the
            // neighbor.
            InterfaceType::PointToPoint | InterfaceType::VirtualLink => match nbr_src(
                iface.neighbors@,
                lsa.hdr.adv_rtr,
            ) {
                Some(src) => Some(nexthops_with(Map::empty(), iface.index, Some(src), Some(lsa.hdr.adv_rtr))),
                None => None,
            },
            InterfaceType::PointToMultipoint => {
                let m = multipoint_nexthops(router_links(*lsa), iface.networks@, iface.index, lsa.hdr.adv_rtr);
                if m.dom() =~= Set::<NexthopKey>::empty() {
                    None
                } else {
                    Some(m)
                }
            },
            _ => None,
        },
        VertexLsa::Network(_) => Some(nexthops_with(Map::empty(), iface.index, None, None)),
    }
}

/// The next hops to a destination whose parent is the root. Those over virtual
/// links are resolved later.
pub open spec fn root_nexthops(ifaces: Seq<SpfInterface>, link: LsaRouterLink, dest_lsa: VertexLsa) -> Option<
    Map<NexthopKey, Nexthop>,
> {
    match link_iface(ifaces, link) {
        None => None,
        Some(i) => if ifaces[i].virtual_link {
            Some(Map::empty())
        } else {
            direct_nexthops(ifaces[i], dest_lsa)
        },
    }
}

/// The first link whose Link Data belongs to a network.
pub open spec fn link_into(links: Seq<LsaRouterLink>, net: IpNetwork) -> Option<LsaRouterLink>
    decreases links.len(),
{
    if links.len() == 0 {
        None
    } else {
        match link_into(links.drop_last(), net) {
            Some(link) => Some(link),
            None => if net.has_v4(links.last().link_data) {
                Some(links.last())
            } else {
                None
            },
        }
    }
}

/// The outgoing interface of the first of the next hops.
pub open spec fn first_iface(nexthops: Table<NexthopKey, Nexthop>) -> Option<InterfaceIndex> {
    if nexthops.keys().len() > 0 {
        Some(nexthops@[nexthops.keys()[0]].iface_idx)
    } else {
        None
    }
}

/// The next hops to a router whose parent is a network that connects it to the
/// calculating router: the outgoing interface is inherited from the network,
/// and the address is the one that the router has in the network.
pub open spec fn network_nexthops(parent: Vertex, dest_lsa: VertexLsa) -> Option<Map<NexthopKey, Nexthop>> {
    match parent.lsa.lsa().body {
        LsaBody::Network { mask, .. } => match v4_net(parent.lsa.lsa().hdr.lsa_id, mask) {
            None => None,
            Some(net) => match (link_into(router_links(dest_lsa.lsa()), net), first_iface(parent.nexthops)) {
                (Some(link), Some(iface_idx)) => Some(
                    nexthops_with(
                        Map::empty(),
                        iface_idx,
                        Some(link.link_data),
                        Some(dest_lsa.lsa().hdr.adv_rtr),
                    ),
                ),
                _ => None,
            },
        },
        _ => None,
    }
}

/// The next hops to a destination.
pub open spec fn nexthops_to(
    parent: Vertex,
    parent_link: Option<LsaRouterLink>,
    dest_lsa: VertexLsa,
    ifaces: Seq<SpfInterface>,
) -> Option<Map<NexthopKey, Nexthop>> {
    match parent.lsa {
        VertexLsa::Router(_) => root_nexthops(ifaces, parent_link->0, dest_lsa),
        VertexLsa::Network(_) => network_nexthops(parent, dest_lsa),
    }
}

fn add_multipoint(
    nexthops: &mut Table<NexthopKey, Nexthop>,
    links: &Vec<LsaRouterLink>,
    networks: &Vec<IpNetwork>,
    iface_idx: InterfaceIndex,
    nbr_router_id: Ipv4Addr,
)
    requires
        old(nexthops)@ == Map::<NexthopKey, Nexthop>::empty(),
        networks_valid(networks@),
    ensures
        final(nexthops)@ == multipoint_nexthops(links@, networks@, iface_idx, nbr_router_id),
{
    let mut i: usize = 0;
    assert(links@.take(0) =~= Seq::empty());
    while i < links.len()
        invariant
            i <= links@.len(),
            networks_valid(networks@),
            nexthops@ == multipoint_nexthops(links@.take(i as int), networks@, iface_idx, nbr_router_id),
        decreases links@.len() - i,
    {
        proof {
            assert(links@.take(i + 1).drop_last() =~= links@.take(i as int));
            assert(links@.take(i + 1).last() == links@[i as int]);
        }
        let addr = links[i].link_data;
        if contains_addr(networks, addr) {
            nexthops.insert(
                NexthopKey::new(iface_idx, Some(addr)),
                Nexthop::new(iface_idx, Some(addr), Some(nbr_router_id)),
            );
        }
        i += 1;
    }
    assert(links@.take(i as int) =~= links@);
}

fn find_link(links: &Vec<LsaRouterLink>, net: &IpNetwork) -> (r: Option<LsaRouterLink>)
    requires
        net.valid(),
    ensures
        r == link_into(links@, *net),
{
    let mut r: Option<LsaRouterLink> = None;
    let mut i: usize = 0;
    assert(links@.take(0) =~= Seq::empty());
    while i < links.len()
        invariant
            i <= links@.len(),
            net.valid(),
            r == link_into(links@.take(i as int), *net),
        decreases links@.len() - i,
    {
        proof {
            assert(links@.take(i + 1).drop_last() =~= links@.take(i as int));
            assert(links@.take(i + 1).last() == links@[i as int]);
        }
        if r.is_none() && net.contains_v4(links[i].link_data) {
            r = Some(links[i]);
        }
        i += 1;
    }
    assert(links@.take(i as int) =~= links@);
    r
}

/// Calculates the next hops to a destination, given its parent in the
/// shortest-path tree and, if the parent is the root, the link that leads to
/// the destination. The interface of that link is found by the identity the
/// link carries, not by its position in the list of links.
pub fn calc_nexthops(
    parent: &Vertex,
    parent_link: Option<&LsaRouterLink>,
    dest_id: VertexId,
    dest_lsa: &VertexLsa,
    interfaces: &Vec<SpfInterface>,
) -> (r: Result<Table<NexthopKey, Nexthop>, SpfError>)
    requires
        parent.lsa.wf(),
        dest_lsa.wf(),
        parent.lsa is Router ==> parent_link is Some,
        parent.lsa is Network ==> dest_lsa is Router,
        forall|i: int| 0 <= i < interfaces@.len() ==> networks_valid((#[trigger] interfaces@[i]).networks@),
    ensures
        match nexthops_to(
            *parent,
            match parent_link {
                Some(link) => Some(*link),
                None => None,
            },
            *dest_lsa,
            interfaces@,
        ) {
            Some(m) => r matches Ok(t) && t@ == m,
            None => r matches Err(e) && e == SpfError::SpfNexthopCalcError(dest_id),
        },
{
    let mut nexthops: Table<NexthopKey, Nexthop> = Table::new();
    match &parent.lsa {
        // The parent vertex is the root.
        VertexLsa::Router(_) => {
            // The destination is either a directly connected network or
            // directly connected router.
            let link = match parent_link {
                Some(link) => link,
                None => {
                    return Err(SpfError::SpfNexthopCalcError(dest_id));
                },
            };
            let iface = match find_iface(interfaces, link) {
                Some(i) => &interfaces[i],
                None => {
                    return Err(SpfError::SpfNexthopCalcError(dest_id));
                },
            };

            // If the interface is a virtual link, do not resolve the nexthop
            // here. Virtual link nexthops are handled later.
            if iface.virtual_link {
                return Ok(nexthops);
            }
            match dest_lsa {
                VertexLsa::Router(lsa) => {
                    // Add nexthop(s).
                    match iface.if_type {
                        InterfaceType::PointToPoint | InterfaceType::VirtualLink => {
                            // To determine the nexthop address, we use the
                            // neighbor's source address. Examining the
                            // destination's Router-LSA to find the link
                            // pointing back to the calculating router wouldn't
                            // work for unnumbered interfaces.
                            match find_neighbor(&iface.neighbors, lsa.hdr.adv_rtr) {
                                Some(src) => {
                                    nexthops.insert(
                                        NexthopKey::new(iface.index, Some(src)),
                                        Nexthop::new(iface.index, Some(src), Some(lsa.hdr.adv_rtr)),
                                    );
                                },
                                None => {
                                    return Err(SpfError::SpfNexthopCalcError(dest_id));
                                },
                            }
                        },
                        InterfaceType::PointToMultipoint => {
                            if let LsaBody::Router { flags: _, links } = &lsa.body {
                                add_multipoint(
                                    &mut nexthops,
                                    links,
                                    &iface.networks,
                                    iface.index,
                                    lsa.hdr.adv_rtr,
                                );
                            }
                        },
                        _ => {},
                    }
                    let n = nexthops.len();
                    proof {
                        let m = nexthops@;
                        if n == 0 {
                            assert forall|k: NexthopKey| !m.dom().contains(k) by {
                                assert(nexthops.keys().to_set().contains(k) == m.dom().contains(k));
                            }
                            assert(m.dom() =~= Set::<NexthopKey>::empty());
                        } else {
                            assert(nexthops.keys().to_set().contains(nexthops.keys()[0]));
                            assert(m.dom().contains(nexthops.keys()[0]));
                        }
                    }
                    if n == 0 {
                        return Err(SpfError::SpfNexthopCalcError(dest_id));
                    }
                },
                VertexLsa::Network(_) => {
                    // Add nexthop.
                    nexthops.insert(NexthopKey::new(iface.index, None), Nexthop::new(iface.index, None, None));
                },
            }
        },
        // The parent vertex is a network that directly connects the
        // calculating router to the destination router.
        VertexLsa::Network(parent_lsa) => {
            let mask = match &parent_lsa.body {
                LsaBody::Network { mask, attached_rtrs: _ } => *mask,
                _ => 0,
            };
            let net = match IpNetwork::with_netmask(parent_lsa.hdr.lsa_id, mask) {
                Some(net) => net,
                None => {
                    return Err(SpfError::SpfNexthopCalcError(dest_id));
                },
            };
            if let VertexLsa::Router(lsa) = dest_lsa {
                if let LsaBody::Router { flags: _, links } = &lsa.body {
                    let link = match find_link(links, &net) {
                        Some(link) => link,
                        None => {
                            return Err(SpfError::SpfNexthopCalcError(dest_id));
                        },
                    };

                    // Inherit outgoing interface from the parent network.
                    if parent.nexthops.len() == 0 {
                        return Err(SpfError::SpfNexthopCalcError(dest_id));
                    }
                    let iface_idx = parent.nexthops.value_at(0).iface_idx;

                    // Add nexthop.
                    nexthops.insert(
                        NexthopKey::new(iface_idx, Some(link.link_data)),
                        Nexthop::new(iface_idx, Some(link.link_data), Some(lsa.hdr.adv_rtr)),
                    );
                }
            }
        },
    }
    Ok(nexthops)
}

/// Every next hop goes over an interface of the area, or over the one that the
/// parent network is reached by.
pub proof fn nexthops_use_one_interface(
    parent: Vertex,
    parent_link: Option<LsaRouterLink>,
    dest_lsa: VertexLsa,
    ifaces: Seq<SpfInterface>,
    a: NexthopKey,
    b: NexthopKey,
)
    requires
        nexthops_to(parent, parent_link, dest_lsa, ifaces) matches Some(m) && m.contains_key(a) && m.contains_key(b),
    ensures
        a.iface_idx == b.iface_idx,
{
    if parent.lsa is Router {
        let i = link_iface(ifaces, parent_link->0)->0;
        if dest_lsa is Router && ifaces[i].if_type == InterfaceType::PointToMultipoint {
            let lsa = dest_lsa.lsa();
            multipoint_iface(router_links(lsa), ifaces[i].networks@, ifaces[i].index, lsa.hdr.adv_rtr);
        }
    }
}

proof fn multipoint_iface(
    links: Seq<LsaRouterLink>,
    networks: Seq<IpNetwork>,
    iface_idx: InterfaceIndex,
    nbr_router_id: Ipv4Addr,
)
    ensures
        forall|k: NexthopKey| #[trigger]
            multipoint_nexthops(links, networks, iface_idx, nbr_router_id).contains_key(k) ==> k.iface_idx == iface_idx,
    decreases links.len(),
{
    if links.len() > 0 {
        let prev = multipoint_nexthops(links.drop_last(), networks, iface_idx, nbr_router_id);
        multipoint_iface(links.drop_last(), networks, iface_idx, nbr_router_id);
        assert forall|k: NexthopKey| #[trigger]
            multipoint_nexthops(links, networks, iface_idx, nbr_router_id).contains_key(k) implies k.iface_idx
            == iface_idx by {
            if prev.contains_key(k) {
            }
        }
    }
}

// ===== link-state database =====

/// The first LSA for which a condition holds.
pub open spec fn first_lsa(lsdb: Seq<Arc<Lsa>>, cond: spec_fn(Lsa) -> bool) -> Option<Arc<Lsa>>
    decreases lsdb.len(),
{
    if lsdb.len() == 0 {
        None
    } else {
        match first_lsa(lsdb.drop_last(), cond) {
            Some(lsa) => Some(lsa),
            None => if cond(*lsdb.last()) {
                Some(lsdb.last())
            } else {
                None
            },
        }
    }
}

/// Network-LSAs with an LS-ID. Their advertising router is not known.
pub open spec fn network_with(dr_addr: Ipv4Addr) -> spec_fn(Lsa) -> bool {
    |lsa: Lsa| lsa.code() == LsaTypeCode::Network && lsa.hdr.lsa_id == dr_addr
}

/// The Router-LSA of a router.
pub open spec fn router_with(router_id: Ipv4Addr) -> spec_fn(Lsa) -> bool {
    |lsa: Lsa|
        lsa.code() == LsaTypeCode::Router && lsa.hdr.adv_rtr == router_id && lsa.hdr.lsa_id == router_id
}

/// The LSA of a vertex, if there is one that has not reached its maximum age.
/// The LSAs of the database are given in the order of their keys.
pub open spec fn vertex_lsa(lsdb: Seq<Arc<Lsa>>, id: VertexId) -> Option<VertexLsa> {
    match id {
        VertexId::Network { dr_addr } => match first_lsa(lsdb, network_with(dr_addr)) {
            Some(lsa) => if lsa.hdr.maxage {
                None
            } else {
                Some(VertexLsa::Network(lsa))
            },
            None => None,
        },
        VertexId::Router { router_id } => match first_lsa(lsdb, router_with(router_id)) {
            Some(lsa) => if lsa.hdr.maxage {
                None
            } else {
                Some(VertexLsa::Router(lsa))
            },
            None => None,
        },
    }
}

proof fn first_lsa_holds(lsdb: Seq<Arc<Lsa>>, cond: spec_fn(Lsa) -> bool)
    ensures
        first_lsa(lsdb, cond) matches Some(lsa) ==> cond(*lsa),
    decreases lsdb.len(),
{
    if lsdb.len() > 0 {
        first_lsa_holds(lsdb.drop_last(), cond);
    }
}

/// The LSA of a vertex is of its kind.
pub proof fn vertex_lsa_wf(lsdb: Seq<Arc<Lsa>>, id: VertexId)
    ensures
        vertex_lsa(lsdb, id) matches Some(v) ==> v.wf() && !v.lsa().hdr.maxage && (v is Router) == (id is Router),
{
    match id {
        VertexId::Network { dr_addr } => {
            first_lsa_holds(lsdb, network_with(dr_addr));
        },
        VertexId::Router { router_id } => {
            first_lsa_holds(lsdb, router_with(router_id));
        },
    }
}

pub fn vertex_lsa_find(id: VertexId, lsdb: &Vec<Arc<Lsa>>) -> (r: Option<VertexLsa>)
    ensures
        r == vertex_lsa(lsdb@, id),
        r matches Some(v) ==> v.wf(),
{
    proof {
        vertex_lsa_wf(lsdb@, id);
    }
    let ghost cond = match id {
        VertexId::Network { dr_addr } => network_with(dr_addr),
        VertexId::Router { router_id } => router_with(router_id),
    };
    let mut pos: Option<usize> = None;
    let mut i: usize = 0;
    assert(lsdb@.take(0) =~= Seq::empty());
    while i < lsdb.len()
        invariant
            i <= lsdb@.len(),
            cond == (match id {
                VertexId::Network { dr_addr } => network_with(dr_addr),
                VertexId::Router { router_id } => router_with(router_id),
            }),
            first_lsa(lsdb@.take(i as int), cond) == (match pos {
                Some(k) => Some(lsdb@[k as int]),
                None => None,
            }),
            pos matches Some(k) ==> k < i,
        decreases lsdb@.len() - i,
    {
        proof {
            assert(lsdb@.take(i + 1).drop_last() =~= lsdb@.take(i as int));
            assert(lsdb@.take(i + 1).last() == lsdb@[i as int]);
        }
        let lsa = &lsdb[i];
        let matched = match id {
            VertexId::Network { dr_addr } => match lsa.type_code() {
                LsaTypeCode::Network => lsa.hdr.lsa_id == dr_addr,
                _ => false,
            },
            VertexId::Router { router_id } => match lsa.type_code() {
                LsaTypeCode::Router => lsa.hdr.adv_rtr == router_id && lsa.hdr.lsa_id == router_id,
                _ => false,
            },
        };
        if pos.is_none() && matched {
            pos = Some(i);
        }
        i += 1;
    }
    assert(lsdb@.take(i as int) =~= lsdb@);
    match pos {
        Some(k) => {
            let lsa = &lsdb[k];
            if lsa.hdr.maxage {
                None
            } else {
                match id {
                    VertexId::Network { .. } => Some(VertexLsa::Network(share(lsa))),
                    VertexId::Router { .. } => Some(VertexLsa::Router(share(lsa))),
                }
            }
        },
        None => None,
    }
}

// ===== links of a vertex =====

/// A link from one vertex to another.
pub struct SpfLink {
    /// The link of the Router-LSA and its position among the links to other
    /// vertices.
    pub parent: Option<(usize, LsaRouterLink)>,
    pub id: VertexId,
    pub lsa: VertexLsa,
    pub cost: u16,
}

/// The vertex that a link of a Router-LSA leads to. A stub network is none.
pub open spec fn link_vertex(link: LsaRouterLink) -> Option<VertexId> {
    match link.link_type {
        LsaRouterLinkType::PointToPoint | LsaRouterLinkType::VirtualLink => Some(
            VertexId::Router { router_id: link.link_id },
        ),
        LsaRouterLinkType::TransitNetwork => Some(VertexId::Network { dr_addr: link.link_id }),
        LsaRouterLinkType::StubNetwork => None,
    }
}

fn get_link_vertex(link: &LsaRouterLink) -> (r: Option<VertexId>)
    ensures
        r == link_vertex(*link),
{
    match link.link_type {
        LsaRouterLinkType::PointToPoint => Some(VertexId::Router { router_id: link.link_id }),
        LsaRouterLinkType::VirtualLink => Some(VertexId::Router { router_id: link.link_id }),
        LsaRouterLinkType::TransitNetwork => Some(VertexId::Network { dr_addr: link.link_id }),
        LsaRouterLinkType::StubNetwork => None,
    }
}

/// The number of links that lead to vertices.
pub open spec fn vertex_links(links: Seq<LsaRouterLink>) -> nat
    decreases links.len(),
{
    if links.len() == 0 {
        0
    } else {
        vertex_links(links.drop_last()) + if link_vertex(links.last()) is Some {
            1nat
        } else {
            0
        }
    }
}

/// The links of a Router-LSA whose vertices have an LSA.
pub open spec fn router_spf_links(lsdb: Seq<Arc<Lsa>>, links: Seq<LsaRouterLink>) -> Seq<SpfLink>
    decreases links.len(),
{
    if links.len() == 0 {
        Seq::empty()
    } else {
        let rest = router_spf_links(lsdb, links.drop_last());
        let link = links.last();
        match link_vertex(link) {
            Some(id) => match vertex_lsa(lsdb, id) {
                Some(lsa) => rest.push(
                    SpfLink {
                        parent: Some((vertex_links(links.drop_last()) as usize, link)),
                        id,
                        lsa,
                        cost: link.metric,
                    },
                ),
                None => rest,
            },
            None => rest,
        }
    }
}

/// The link from a network to an attached router.
pub open spec fn attached_link(lsdb: Seq<Arc<Lsa>>) -> spec_fn(Ipv4Addr) -> Option<SpfLink> {
    |router_id: Ipv4Addr|
        match vertex_lsa(lsdb, VertexId::Router { router_id }) {
            Some(lsa) => Some(SpfLink { parent: None, id: VertexId::Router { router_id }, lsa, cost: 0 }),
            None => None,
        }
}

/// The links of a vertex to vertices that have an LSA.
pub open spec fn spf_links(lsdb: Seq<Arc<Lsa>>, vertex_lsa: VertexLsa) -> Seq<SpfLink> {
    match vertex_lsa.lsa().body {
        LsaBody::Network { attached_rtrs, .. } => filter_map(attached_rtrs@, attached_link(lsdb)),
        LsaBody::Router { links, .. } => router_spf_links(lsdb, links@),
        _ => Seq::empty(),
    }
}

fn links_of_network(lsdb: &Vec<Arc<Lsa>>, attached_rtrs: &Vec<Ipv4Addr>) -> (r: Vec<SpfLink>)
    ensures
        r@ == filter_map(attached_rtrs@, attached_link(lsdb@)),
{
    let mut r: Vec<SpfLink> = Vec::new();
    let mut i: usize = 0;
    assert(attached_rtrs@.take(0) =~= Seq::empty());
    while i < attached_rtrs.len()
        invariant
            i <= attached_rtrs@.len(),
            r@ == filter_map(attached_rtrs@.take(i as int), attached_link(lsdb@)),
        decreases attached_rtrs@.len() - i,
    {
        let id = VertexId::Router { router_id: attached_rtrs[i] };
        proof {
            filter_map_step(attached_rtrs@, i as int, attached_link(lsdb@));
        }
        if let Some(lsa) = vertex_lsa_find(id, lsdb) {
            r.push(SpfLink { parent: None, id, lsa, cost: 0 });
        }
        i += 1;
    }
    assert(attached_rtrs@.take(i as int) =~= attached_rtrs@);
    r
}

fn links_of_router(lsdb: &Vec<Arc<Lsa>>, links: &Vec<LsaRouterLink>) -> (r: Vec<SpfLink>)
    ensures
        r@ == router_spf_links(lsdb@, links@),
{
    let mut r: Vec<SpfLink> = Vec::new();
    let mut pos: usize = 0;
    let mut i: usize = 0;
    assert(links@.take(0) =~= Seq::empty());
    while i < links.len()
        invariant
            i <= links@.len(),
            pos == vertex_links(links@.take(i as int)),
            pos <= i,
            r@ == router_spf_links(lsdb@, links@.take(i as int)),
        decreases links@.len() - i,
    {
        let link = links[i];
        proof {
            assert(links@.take(i + 1).drop_last() =~= links@.take(i as int));
            assert(links@.take(i + 1).last() == link);
        }
        if let Some(id) = get_link_vertex(&link) {
            if let Some(lsa) = vertex_lsa_find(id, lsdb) {
                r.push(SpfLink { parent: Some((pos, link)), id, lsa, cost: link.metric });
            }
            pos += 1;
        }
        i += 1;
    }
    assert(links@.take(i as int) =~= links@);
    r
}

/// The links of a vertex to vertices that have an LSA.
pub fn vertex_lsa_links(vertex_lsa: &VertexLsa, lsdb: &Vec<Arc<Lsa>>) -> (r: Vec<SpfLink>)
    requires
        vertex_lsa.wf(),
    ensures
        r@ == spf_links(lsdb@, *vertex_lsa),
{
    match vertex_lsa {
        VertexLsa::Network(lsa) => match &lsa.body {
            LsaBody::Network { mask: _, attached_rtrs } => links_of_network(lsdb, attached_rtrs),
            _ => Vec::new(),
        },
        VertexLsa::Router(lsa) => match &lsa.body {
            LsaBody::Router { flags: _, links } => links_of_router(lsdb, links),
            _ => Vec::new(),
        },
    }
}

// ===== extended prefixes =====

/// A prefix that a router has described.
#[derive(Clone, Copy, Debug, PartialEq, Eq, Structural)]
pub struct ExtPrefixKey {
    pub adv_rtr: Ipv4Addr,
    pub prefix: IpNetwork,
}

impl View for ExtPrefixKey {
    type V = ExtPrefixKey;

    open spec fn view(&self) -> ExtPrefixKey {
        *self
    }
}

impl Key for ExtPrefixKey {
    open spec fn code(v: ExtPrefixKey) -> Seq<u128> {
        seq![v.adv_rtr as u128, v.prefix.addr.parts().0, v.prefix.addr.parts().1, v.prefix.plen as u128]
    }

    proof fn code_injective(a: ExtPrefixKey, b: ExtPrefixKey) {
        let (x, y) = (Self::code(a), Self::code(b));
        assert(x[0] == a.adv_rtr as u128 && y[0] == b.adv_rtr as u128);
        assert(x[1] == a.prefix.addr.parts().0 && y[1] == b.prefix.addr.parts().0);
        assert(x[2] == a.prefix.addr.parts().1 && y[2] == b.prefix.addr.parts().1);
        assert(x[3] == a.prefix.plen as u128 && y[3] == b.prefix.plen as u128);
    }

    fn to_code(&self) -> Vec<u128> {
        let addr = self.prefix.addr.to_parts();
        let c: Vec<u128> = vec![self.adv_rtr as u128, addr.0, addr.1, self.prefix.plen as u128];
        assert(c@ =~= Self::code(self@));
        c
    }

    fn copy_key(&self) -> ExtPrefixKey {
        *self
    }
}

pub type ExtPrefixDb = Table<ExtPrefixKey, Arc<ExtPrefixTlv>>;

/// The prefixes that an LSA describes, if it counts.
pub open spec fn ext_prefixes(lsa: Lsa) -> Option<Map<IpNetwork, Arc<ExtPrefixTlv>>> {
    match lsa.body {
        LsaBody::OpaqueArea(LsaOpaque::ExtPrefix { prefixes }) => if lsa.hdr.maxage {
            None
        } else {
            Some(prefixes@)
        },
        _ => None,
    }
}

/// What routers say about prefixes. Where a router describes a prefix in
/// several LSAs, the first of them is used.
pub open spec fn ext_prefix_db(lsdb: Seq<Arc<Lsa>>) -> Map<ExtPrefixKey, Arc<ExtPrefixTlv>>
    decreases lsdb.len(),
{
    if lsdb.len() == 0 {
        Map::empty()
    } else {
        let db = ext_prefix_db(lsdb.drop_last());
        match ext_prefixes(*lsdb.last()) {
            Some(prefixes) => db_with(db, lsdb.last().hdr.adv_rtr, prefixes),
            None => db,
        }
    }
}

/// The database with the prefixes of one more LSA, where they are new.
pub open spec fn db_with(
    db: Map<ExtPrefixKey, Arc<ExtPrefixTlv>>,
    adv_rtr: Ipv4Addr,
    prefixes: Map<IpNetwork, Arc<ExtPrefixTlv>>,
) -> Map<ExtPrefixKey, Arc<ExtPrefixTlv>> {
    Map::new(
        |k: ExtPrefixKey| db.contains_key(k) || (k.adv_rtr == adv_rtr && prefixes.contains_key(k.prefix)),
        |k: ExtPrefixKey|
            if db.contains_key(k) {
                db[k]
            } else {
                prefixes[k.prefix]
            },
    )
}

/// A later LSA never overrides what an earlier one says of a prefix.
pub proof fn first_description_wins(lsdb: Seq<Arc<Lsa>>, lsa: Arc<Lsa>, k: ExtPrefixKey)
    requires
        ext_prefix_db(lsdb).contains_key(k),
    ensures
        ext_prefix_db(lsdb.push(lsa)).contains_key(k),
        ext_prefix_db(lsdb.push(lsa))[k] == ext_prefix_db(lsdb)[k],
{
    assert(lsdb.push(lsa).drop_last() =~= lsdb);
}

fn add_ext_prefixes(db: &mut ExtPrefixDb, adv_rtr: Ipv4Addr, prefixes: &Table<IpNetwork, Arc<ExtPrefixTlv>>)
    ensures
        final(db)@ == db_with(old(db)@, adv_rtr, prefixes@),
{
    let ghost d0 = db@;
    let n = prefixes.len();
    let ghost keys = prefixes.keys();
    let mut i: usize = 0;
    while i < n
        invariant
            i <= n,
            n == keys.len(),
            keys == prefixes.keys(),
            prefixes.keys_sorted(),
            forall|k: ExtPrefixKey|
                #![trigger db@.contains_key(k)]
                #![trigger db@[k]]
                {
                    &&& db@.contains_key(k) == (d0.contains_key(k) || (k.adv_rtr == adv_rtr && keys.take(
                        i as int,
                    ).contains(k.prefix)))
                    &&& db@.contains_key(k) ==> db@[k] == (if d0.contains_key(k) {
                        d0[k]
                    } else {
                        prefixes@[k.prefix]
                    })
                },
        decreases n - i,
    {
        let key = ExtPrefixKey { adv_rtr, prefix: *prefixes.key_at(i) };
        let ghost before = db@;
        if !db.contains_key(&key) {
            db.insert(key, share(prefixes.value_at(i)));
        }
        proof {
            let next = keys.take(i + 1);
            let done = keys.take(i as int);
            assert(next =~= done.push(keys[i as int]));
            assert forall|p: IpNetwork| next.contains(p) == (done.contains(p) || p == keys[i as int]) by {
                if done.contains(p) {
                    let j = choose|j: int| 0 <= j < done.len() && done[j] == p;
                    assert(next[j] == p);
                }
                assert(next[i as int] == keys[i as int]);
                if next.contains(p) {
                    let j = choose|j: int| 0 <= j < next.len() && next[j] == p;
                    if j < i {
                        assert(done[j] == p);
                    }
                }
            }
            assert forall|k: ExtPrefixKey|
                #![trigger db@.contains_key(k)]
                #![trigger db@[k]]
                {
                    &&& db@.contains_key(k) == (d0.contains_key(k) || (k.adv_rtr == adv_rtr && next.contains(k.prefix)))
                    &&& db@.contains_key(k) ==> db@[k] == (if d0.contains_key(k) {
                        d0[k]
                    } else {
                        prefixes@[k.prefix]
                    })
                } by {
                assert(before.contains_key(k) == (d0.contains_key(k) || (k.adv_rtr == adv_rtr && done.contains(
                    k.prefix,
                ))));
            }
        }
        i += 1;
    }
    proof {
        assert(keys.take(i as int) =~= keys);
        assert forall|p: IpNetwork| keys.contains(p) == prefixes@.contains_key(p) by {
            assert(keys.to_set().contains(p) == prefixes@.dom().contains(p));
        }
        assert(db@ =~= db_with(d0, adv_rtr, prefixes@));
    }
}

/// Collects what the routers of an area say about prefixes.
pub fn area_opaque_data_compile(lsdb: &Vec<Arc<Lsa>>) -> (db: ExtPrefixDb)
    ensures
        db@ == ext_prefix_db(lsdb@),
{
    let mut db: ExtPrefixDb = Table::new();
    let mut i: usize = 0;
    assert(lsdb@.take(0) =~= Seq::empty());
    while i < lsdb.len()
        invariant
            i <= lsdb@.len(),
            db@ == ext_prefix_db(lsdb@.take(i as int)),
        decreases lsdb@.len() - i,
    {
        let lsa = &lsdb[i];
        proof {
            assert(lsdb@.take(i + 1).drop_last() =~= lsdb@.take(i as int));
            assert(lsdb@.take(i + 1).last() == *lsa);
        }
        if !lsa.hdr.maxage {
            if let LsaBody::OpaqueArea(opaque) = &lsa.body {
                if let LsaOpaque::ExtPrefix { prefixes } = opaque {
                    add_ext_prefixes(&mut db, lsa.hdr.adv_rtr, prefixes);
                }
            }
        }
        i += 1;
    }
    assert(lsdb@.take(i as int) =~= lsdb@);
    db
}

/// The Prefix-SID of a route for the SPF algorithm.
pub open spec fn prefix_sid_of(
    db: Map<ExtPrefixKey, Arc<ExtPrefixTlv>>,
    adv_rtr: Ipv4Addr,
    prefix: IpNetwork,
    route_type: ExtPrefixRouteType,
) -> Option<PrefixSid> {
    let k = ExtPrefixKey { adv_rtr, prefix };
    if db.contains_key(k) && (route_type == db[k].route_type || route_type == ExtPrefixRouteType::Unspecified)
        && db[k].prefix_sids@.contains_key(IgpAlgoType::Spf) {
        Some(db[k].prefix_sids@[IgpAlgoType::Spf])
    } else {
        None
    }
}

pub fn route_prefix_sids(
    db: &ExtPrefixDb,
    adv_rtr: Ipv4Addr,
    prefix: &IpNetwork,
    route_type: ExtPrefixRouteType,
) -> (r: Option<PrefixSid>)
    ensures
        r == prefix_sid_of(db@, adv_rtr, *prefix, route_type),
{
    match db.get(&ExtPrefixKey { adv_rtr, prefix: *prefix }) {
        Some(tlv) => {
            if route_type == tlv.route_type || route_type == ExtPrefixRouteType::Unspecified {
                match tlv.prefix_sids.get(&IgpAlgoType::Spf) {
                    Some(sid) => Some(*sid),
                    None => None,
                }
            } else {
                None
            }
        },
        None => None,
    }
}

// ===== networks and routers =====

/// A network within the area.
#[derive(Clone, Copy, Debug, PartialEq, Eq, Structural)]
pub struct SpfIntraAreaNetwork {
    pub vertex: VertexId,
    pub prefix: IpNetwork,
    pub metric: u16,
    pub prefix_sid: Option<PrefixSid>,
}

/// The network that a stub link leads to.
pub open spec fn stub_network(
    db: Map<ExtPrefixKey, Arc<ExtPrefixTlv>>,
    vertex: VertexId,
    adv_rtr: Ipv4Addr,
) -> spec_fn(LsaRouterLink) -> Option<SpfIntraAreaNetwork> {
    |link: LsaRouterLink|
        if link.link_type == LsaRouterLinkType::StubNetwork {
            match v4_net(link.link_id, link.link_data) {
                Some(net) => Some(
                    SpfIntraAreaNetwork {
                        vertex,
                        prefix: net.masked(),
                        metric: link.metric,
                        prefix_sid: prefix_sid_of(db, adv_rtr, net.masked(), ExtPrefixRouteType::IntraArea),
                    },
                ),
                None => None,
            }
        } else {
            None
        }
}

/// The networks that a vertex of the shortest-path tree stands for: its own, if
/// it is a network, or those of its stub links. Masks that are no netmasks are
/// passed over.
pub open spec fn vertex_networks(db: Map<ExtPrefixKey, Arc<ExtPrefixTlv>>, vertex: Vertex) -> Seq<SpfIntraAreaNetwork> {
    let lsa = vertex.lsa.lsa();
    match lsa.body {
        LsaBody::Network { mask, .. } => match v4_net(lsa.hdr.lsa_id, mask) {
            Some(net) => seq![
                SpfIntraAreaNetwork {
                    vertex: vertex.id,
                    prefix: net.masked(),
                    metric: 0,
                    prefix_sid: prefix_sid_of(db, lsa.hdr.adv_rtr, net.masked(), ExtPrefixRouteType::IntraArea),
                },
            ],
            None => Seq::empty(),
        },
        LsaBody::Router { links, .. } => filter_map(links@, stub_network(db, vertex.id, lsa.hdr.adv_rtr)),
        _ => Seq::empty(),
    }
}

/// The networks of the vertices of the shortest-path tree, in order.
pub open spec fn tree_networks(db: Map<ExtPrefixKey, Arc<ExtPrefixTlv>>, spt: Seq<Vertex>) -> Seq<SpfIntraAreaNetwork>
    decreases spt.len(),
{
    if spt.len() == 0 {
        Seq::empty()
    } else {
        tree_networks(db, spt.drop_last()) + vertex_networks(db, spt.last())
    }
}

fn push_stubs(
    stubs: &mut Vec<SpfIntraAreaNetwork>,
    db: &ExtPrefixDb,
    vertex: VertexId,
    adv_rtr: Ipv4Addr,
    links: &Vec<LsaRouterLink>,
)
    ensures
        final(stubs)@ == old(stubs)@ + filter_map(links@, stub_network(db@, vertex, adv_rtr)),
{
    let ghost s0 = stubs@;
    let ghost f = stub_network(db@, vertex, adv_rtr);
    let mut i: usize = 0;
    assert(links@.take(0) =~= Seq::empty());
    assert(stubs@ =~= s0 + filter_map(links@.take(0), f));
    while i < links.len()
        invariant
            i <= links@.len(),
            f == stub_network(db@, vertex, adv_rtr),
            stubs@ == s0 + filter_map(links@.take(i as int), f),
        decreases links@.len() - i,
    {
        let link = links[i];
        let ghost before = stubs@;
        proof {
            filter_map_step(links@, i as int, f);
        }
        if link.link_type == LsaRouterLinkType::StubNetwork {
            if let Some(net) = IpNetwork::with_netmask(link.link_id, link.link_data) {
                let prefix = net.apply_mask();
                let prefix_sid = route_prefix_sids(db, adv_rtr, &prefix, ExtPrefixRouteType::IntraArea);
                stubs.push(SpfIntraAreaNetwork { vertex, prefix, metric: link.metric, prefix_sid });
            }
        }
        assert(stubs@ =~= s0 + filter_map(links@.take(i + 1), f));
        i += 1;
    }
    assert(links@.take(i as int) =~= links@);
}

/// The networks within the area, given the vertices of the shortest-path tree.
pub fn intra_area_networks(spt: &Vec<Vertex>, db: &ExtPrefixDb) -> (stubs: Vec<SpfIntraAreaNetwork>)
    requires
        forall|i: int| 0 <= i < spt@.len() ==> (#[trigger] spt@[i]).lsa.wf(),
    ensures
        stubs@ == tree_networks(db@, spt@),
{
    let mut stubs: Vec<SpfIntraAreaNetwork> = Vec::new();
    let mut i: usize = 0;
    assert(spt@.take(0) =~= Seq::empty());
    while i < spt.len()
        invariant
            i <= spt@.len(),
            forall|i: int| 0 <= i < spt@.len() ==> (#[trigger] spt@[i]).lsa.wf(),
            stubs@ == tree_networks(db@, spt@.take(i as int)),
        decreases spt@.len() - i,
    {
        let vertex = &spt[i];
        let ghost before = stubs@;
        proof {
            assert(spt@[i as int].lsa.wf());
            assert(spt@.take(i + 1).drop_last() =~= spt@.take(i as int));
            assert(spt@.take(i + 1).last() == *vertex);
        }
        match &vertex.lsa {
            VertexLsa::Network(lsa) => {
                if let LsaBody::Network { mask, attached_rtrs: _ } = &lsa.body {
                    if let Some(net) = IpNetwork::with_netmask(lsa.hdr.lsa_id, *mask) {
                        let prefix = net.apply_mask();
                        let prefix_sid = route_prefix_sids(
                            db,
                            lsa.hdr.adv_rtr,
                            &prefix,
                            ExtPrefixRouteType::IntraArea,
                        );
                        stubs.push(SpfIntraAreaNetwork { vertex: vertex.id, prefix, metric: 0, prefix_sid });
                    }
                }
            },
            VertexLsa::Router(lsa) => {
                if let LsaBody::Router { flags: _, links } = &lsa.body {
                    push_stubs(&mut stubs, db, vertex.id, lsa.hdr.adv_rtr, links);
                }
            },
        }
        assert(stubs@ =~= before + vertex_networks(db@, *vertex));
        i += 1;
    }
    assert(spt@.take(i as int) =~= spt@);
    stubs
}

/// A network of another area.
#[derive(Clone, Copy, Debug, PartialEq, Eq, Structural)]
pub struct SpfInterAreaNetwork {
    pub adv_rtr: Ipv4Addr,
    pub prefix: IpNetwork,
    pub metric: u32,
    pub prefix_sid: Option<PrefixSid>,
}

/// The network of another area that an LSA describes, if it counts.
pub open spec fn inter_network_of(db: Map<ExtPrefixKey, Arc<ExtPrefixTlv>>) -> spec_fn(Arc<Lsa>) -> Option<
    SpfInterAreaNetwork,
> {
    |lsa: Arc<Lsa>|
        match lsa.body {
            LsaBody::SummaryNetwork { mask, metric } => match v4_net(lsa.hdr.lsa_id, mask) {
                Some(prefix) => if lsa.hdr.maxage {
                    None
                } else {
                    Some(
                        SpfInterAreaNetwork {
                            adv_rtr: lsa.hdr.adv_rtr,
                            prefix,
                            metric,
                            prefix_sid: prefix_sid_of(db, lsa.hdr.adv_rtr, prefix, ExtPrefixRouteType::InterArea),
                        },
                    )
                },
                None => None,
            },
            _ => None,
        }
}

pub fn inter_area_networks(lsdb: &Vec<Arc<Lsa>>, db: &ExtPrefixDb) -> (r: Vec<SpfInterAreaNetwork>)
    ensures
        r@ == filter_map(lsdb@, inter_network_of(db@)),
{
    let ghost f = inter_network_of(db@);
    let mut r: Vec<SpfInterAreaNetwork> = Vec::new();
    let mut i: usize = 0;
    assert(lsdb@.take(0) =~= Seq::empty());
    while i < lsdb.len()
        invariant
            i <= lsdb@.len(),
            f == inter_network_of(db@),
            r@ == filter_map(lsdb@.take(i as int), f),
        decreases lsdb@.len() - i,
    {
        let lsa = &lsdb[i];
        proof {
            filter_map_step(lsdb@, i as int, f);
        }
        if let LsaBody::SummaryNetwork { mask, metric } = &lsa.body {
            if !lsa.hdr.maxage {
                if let Some(prefix) = IpNetwork::with_netmask(lsa.hdr.lsa_id, *mask) {
                    let prefix_sid = route_prefix_sids(db, lsa.hdr.adv_rtr, &prefix, ExtPrefixRouteType::InterArea);
                    r.push(SpfInterAreaNetwork { adv_rtr: lsa.hdr.adv_rtr, prefix, metric: *metric, prefix_sid });
                }
            }
        }
        i += 1;
    }
    assert(lsdb@.take(i as int) =~= lsdb@);
    r
}

/// Flag of routers that are AS boundary routers.
pub const LSA_ROUTER_FLAG_E: u8 = 0x02;

/// An AS boundary router of another area.
#[derive(Clone, Copy, Debug, PartialEq, Eq, Structural)]
pub struct SpfInterAreaRouter {
    pub adv_rtr: Ipv4Addr,
    pub router_id: Ipv4Addr,
    pub options: u8,
    pub flags: u8,
    pub metric: u32,
}

/// The router of another area that an LSA describes, if it counts.
pub open spec fn inter_router_of() -> spec_fn(Arc<Lsa>) -> Option<SpfInterAreaRouter> {
    |lsa: Arc<Lsa>|
        match lsa.body {
            LsaBody::SummaryRouter { metric } => if lsa.hdr.maxage {
                None
            } else {
                Some(
                    SpfInterAreaRouter {
                        adv_rtr: lsa.hdr.adv_rtr,
                        router_id: lsa.hdr.lsa_id,
                        options: lsa.hdr.options,
                        flags: LSA_ROUTER_FLAG_E,
                        metric,
                    },
                )
            },
            _ => None,
        }
}

pub fn inter_area_routers(lsdb: &Vec<Arc<Lsa>>) -> (r: Vec<SpfInterAreaRouter>)
    ensures
        r@ == filter_map(lsdb@, inter_router_of()),
{
    let mut r: Vec<SpfInterAreaRouter> = Vec::new();
    let mut i: usize = 0;
    assert(lsdb@.take(0) =~= Seq::empty());
    while i < lsdb.len()
        invariant
            i <= lsdb@.len(),
            r@ == filter_map(lsdb@.take(i as int), inter_router_of()),
        decreases lsdb@.len() - i,
    {
        let lsa = &lsdb[i];
        proof {
            filter_map_step(lsdb@, i as int, inter_router_of());
        }
        if let LsaBody::SummaryRouter { metric } = &lsa.body {
            if !lsa.hdr.maxage {
                r.push(
                    SpfInterAreaRouter {
                        adv_rtr: lsa.hdr.adv_rtr,
                        router_id: lsa.hdr.lsa_id,
                        options: lsa.hdr.options,
                        flags: LSA_ROUTER_FLAG_E,
                        metric: *metric,
                    },
                );
            }
        }
        i += 1;
    }
    assert(lsdb@.take(i as int) =~= lsdb@);
    r
}

/// A network outside the AS.
#[derive(Clone, Copy, Debug, PartialEq, Eq, Structural)]
pub struct SpfExternalNetwork {
    pub adv_rtr: Ipv4Addr,
    pub e_bit: bool,
    pub prefix: IpNetwork,
    pub metric: u32,
    pub fwd_addr: Option<Ipv4Addr>,
    pub tag: Option<u32>,
}

/// The network outside the AS that an LSA describes, if it counts.
pub open spec fn external_network_of() -> spec_fn(Arc<Lsa>) -> Option<SpfExternalNetwork> {
    |lsa: Arc<Lsa>|
        match lsa.body {
            LsaBody::AsExternal { mask, e_bit, metric, fwd_addr, tag } => match v4_net(lsa.hdr.lsa_id, mask) {
                Some(prefix) => if lsa.hdr.maxage {
                    None
                } else {
                    Some(
                        SpfExternalNetwork {
                            adv_rtr: lsa.hdr.adv_rtr,
                            e_bit,
                            prefix,
                            metric,
                            fwd_addr,
                            tag: Some(tag),
                        },
                    )
                },
                None => None,
            },
            _ => None,
        }
}

pub fn external_networks(lsdb: &Vec<Arc<Lsa>>) -> (r: Vec<SpfExternalNetwork>)
    ensures
        r@ == filter_map(lsdb@, external_network_of()),
{
    let mut r: Vec<SpfExternalNetwork> = Vec::new();
    let mut i: usize = 0;
    assert(lsdb@.take(0) =~= Seq::empty());
    while i < lsdb.len()
        invariant
            i <= lsdb@.len(),
            r@ == filter_map(lsdb@.take(i as int), external_network_of()),
        decreases lsdb@.len() - i,
    {
        let lsa = &lsdb[i];
        proof {
            filter_map_step(lsdb@, i as int, external_network_of());
        }
        if let LsaBody::AsExternal { mask, e_bit, metric, fwd_addr, tag } = &lsa.body {
            if !lsa.hdr.maxage {
                if let Some(prefix) = IpNetwork::with_netmask(lsa.hdr.lsa_id, *mask) {
                    r.push(
                        SpfExternalNetwork {
                            adv_rtr: lsa.hdr.adv_rtr,
                            e_bit: *e_bit,
                            prefix,
                            metric: *metric,
                            fwd_addr: *fwd_addr,
                            tag: Some(*tag),
                        },
                    );
                }
            }
        }
        i += 1;
    }
    assert(lsdb@.take(i as int) =~= lsdb@);
    r
}

// ===== router information =====

/// What a router says of itself.
pub struct SpfRouterInfo<'a> {
    pub sr_algo: Option<&'a SrAlgoTlv>,
    pub srgb: Vec<SidLabelRangeTlv>,
}

/// The router information of a router that an LSA holds, if it counts.
pub open spec fn router_info(lsa: Lsa, router_id: Ipv4Addr) -> Option<(Option<SrAlgoTlv>, Seq<SidLabelRangeTlv>)> {
    match lsa.body {
        LsaBody::OpaqueArea(LsaOpaque::RouterInfo { sr_algo, srgb }) => if lsa.hdr.adv_rtr == router_id
            && !lsa.hdr.maxage {
            Some((sr_algo, srgb@))
        } else {
            None
        },
        _ => None,
    }
}

/// The SR-Algorithm TLV of a router: the first one that occurs.
pub open spec fn first_sr_algo(lsdb: Seq<Arc<Lsa>>, router_id: Ipv4Addr) -> Option<SrAlgoTlv>
    decreases lsdb.len(),
{
    if lsdb.len() == 0 {
        None
    } else {
        match first_sr_algo(lsdb.drop_last(), router_id) {
            Some(algo) => Some(algo),
            None => match router_info(*lsdb.last(), router_id) {
                Some((algo, _)) => algo,
                None => None,
            },
        }
    }
}

/// The SID/Label ranges of a router: all that occur.
pub open spec fn all_ranges(lsdb: Seq<Arc<Lsa>>, router_id: Ipv4Addr) -> Seq<SidLabelRangeTlv>
    decreases lsdb.len(),
{
    if lsdb.len() == 0 {
        Seq::empty()
    } else {
        let rest = all_ranges(lsdb.drop_last(), router_id);
        match router_info(*lsdb.last(), router_id) {
            Some((_, srgb)) => rest + srgb,
            None => rest,
        }
    }
}

fn push_ranges(r: &mut Vec<SidLabelRangeTlv>, srgb: &Vec<SidLabelRangeTlv>)
    ensures
        final(r)@ == old(r)@ + srgb@,
{
    let mut i: usize = 0;
    assert(r@ =~= old(r)@ + srgb@.take(0));
    while i < srgb.len()
        invariant
            i <= srgb@.len(),
            r@ == old(r)@ + srgb@.take(i as int),
        decreases srgb@.len() - i,
    {
        r.push(srgb[i]);
        assert(r@ =~= old(r)@ + srgb@.take(i + 1));
        i += 1;
    }
    assert(srgb@.take(i as int) =~= srgb@);
}

/// Gathers what a router says of itself within the area.
pub fn area_router_information<'a>(lsdb: &'a Vec<Arc<Lsa>>, router_id: Ipv4Addr) -> (r: SpfRouterInfo<'a>)
    ensures
        (match r.sr_algo {
            Some(algo) => Some(*algo),
            None => None,
        }) == first_sr_algo(lsdb@, router_id),
        r.srgb@ == all_ranges(lsdb@, router_id),
{
    let mut algo: Option<&'a SrAlgoTlv> = None;
    let mut ranges: Vec<SidLabelRangeTlv> = Vec::new();
    let mut i: usize = 0;
    assert(lsdb@.take(0) =~= Seq::empty());
    while i < lsdb.len()
        invariant
            i <= lsdb@.len(),
            (match algo {
                Some(a) => Some(*a),
                None => None,
            }) == first_sr_algo(lsdb@.take(i as int), router_id),
            ranges@ == all_ranges(lsdb@.take(i as int), router_id),
        decreases lsdb@.len() - i,
    {
        let lsa = &lsdb[i];
        proof {
            assert(lsdb@.take(i + 1).drop_last() =~= lsdb@.take(i as int));
            assert(lsdb@.take(i + 1).last() == *lsa);
        }
        if lsa.hdr.adv_rtr == router_id && !lsa.hdr.maxage {
            if let LsaBody::OpaqueArea(opaque) = &lsa.body {
                if let LsaOpaque::RouterInfo { sr_algo, srgb } = opaque {
                    // The receiver MUST use the first occurrence of the TLV.
                    if algo.is_none() {
                        if let Some(a) = sr_algo {
                            algo = Some(a);
                        }
                    }

                    // Multiple occurrences of the SID/Label Range TLV MAY be
                    // advertised in order to advertise multiple ranges.
                    push_ranges(&mut ranges, srgb);
                }
            }
        }
        i += 1;
    }
    assert(lsdb@.take(i as int) =~= lsdb@);
    SpfRouterInfo { sr_algo: algo, srgb: ranges }
}

} // verus!
