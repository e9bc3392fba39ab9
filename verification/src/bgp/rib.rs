//! Routing Information Base and Decision Process.

use std::sync::Arc;

use vstd::prelude::*;

use crate::bgp::af::AddressFamily;
use crate::bgp::attribute::{
    path_contains, path_first, path_length, path_prepend, AttrValue, Attrs, AttrsView, BaseAttrs, BaseAttrsView,
};
use crate::bgp::intern::{keys_identify, AttrSetsCxt, RouteAttrs};
use crate::bgp::neighbor::Session;
use crate::bgp::policy::{RoutePolicyInfo, RoutePolicyView};
use crate::bgp::types::{
    DistanceCfg, Instant, MultipathCfg, PeerIndex, PeerType, RouteSelectionCfg, RouteType,
};
use crate::collections::{lex_lt, views, Key, OrdSet, Table};
use crate::ip::{IpAddr, IpNetwork, Ipv4Addr};
use crate::prefix_table::PrefixTable;
use crate::protocol::Protocol;
use crate::sync::share;

verus! {

// Default values.
pub const DFLT_LOCAL_PREF: u32 = 100;

pub const DFLT_MIN_AS_ORIG_INTERVAL: u16 = 15;

pub const DFLT_MIN_ROUTE_ADV_INTERVAL_EBGP: u16 = 30;

pub const DFLT_MIN_ROUTE_ADV_INTERVAL_IBGP: u16 = 5;

#[derive(Clone, Copy, Debug, PartialEq, Eq, Structural)]
pub enum RouteOrigin {
    /// Route learned from a neighbor.
    Neighbor { identifier: Ipv4Addr, remote_addr: IpAddr },
    /// Route was injected or redistributed from another protocol.
    Protocol(Protocol),
}

#[derive(Clone, Copy, Debug, PartialEq, Eq, Structural)]
pub enum RouteIneligibleReason {
    ClusterLoop,
    AsLoop,
    Originator,
    Confed,
    Unresolvable,
}

#[derive(Clone, Copy, Debug, PartialEq, Eq, Structural)]
pub enum RouteRejectReason {
    LocalPrefLower,
    AsPathLonger,
    OriginTypeHigher,
    MedHigher,
    PreferExternal,
    NexthopCostHigher,
    HigherRouterId,
    HigherPeerAddress,
    RejectedImportPolicy,
}

/// The outcome of comparing a route with another.
#[derive(Clone, Copy, Debug, PartialEq, Eq, Structural)]
pub enum RouteCompare {
    Preferred(RouteRejectReason),
    LessPreferred(RouteRejectReason),
    MultipathEqual,
    MultipathDifferent,
}

/// Per-route state produced by the Decision Process.
#[derive(Clone, Copy, Debug, PartialEq, Eq, Structural)]
pub struct SelectionState {
    pub igp_cost: Option<u32>,
    pub ineligible_reason: Option<RouteIneligibleReason>,
    pub reject_reason: Option<RouteRejectReason>,
}

/// Borrowed view of a route used by the Decision Process comparison.
#[derive(Clone, Copy)]
pub struct RouteRef<'a> {
    pub origin: RouteOrigin,
    pub route_type: RouteType,
    pub base: &'a BaseAttrs,
    pub igp_cost: Option<u32>,
}

/// What the Decision Process compares of a route.
pub struct Contender {
    pub origin: RouteOrigin,
    pub route_type: RouteType,
    pub base: BaseAttrsView,
    pub igp_cost: Option<u32>,
}

impl<'a> View for RouteRef<'a> {
    type V = Contender;

    open spec fn view(&self) -> Contender {
        Contender {
            origin: self.origin,
            route_type: self.route_type,
            base: self.base@,
            igp_cost: self.igp_cost,
        }
    }
}

// ===== route comparison =====

/// How much a route is preferred over another by its local preference.
pub open spec fn by_local_pref(a: Contender, b: Contender) -> int {
    a.base.local_pref.unwrap_or(DFLT_LOCAL_PREF) - b.base.local_pref.unwrap_or(DFLT_LOCAL_PREF)
}

/// How much a route is preferred over another by the length of its AS path.
pub open spec fn by_as_path(a: Contender, b: Contender, cfg: RouteSelectionCfg) -> int {
    if cfg.ignore_as_path_length {
        0
    } else {
        path_length(b.base.as_path) - path_length(a.base.as_path)
    }
}

/// How much a route is preferred over another by its origin attribute.
pub open spec fn by_origin(a: Contender, b: Contender) -> int {
    b.base.origin.rank() - a.base.origin.rank()
}

/// Whether two routes come from the same neighboring AS.
pub open spec fn same_neighbor_as(a: Contender, b: Contender) -> bool {
    path_first(a.base.as_path) == path_first(b.base.as_path)
}

/// How much a route is preferred over another by its multi-exit discriminator.
pub open spec fn by_med(a: Contender, b: Contender, cfg: RouteSelectionCfg) -> int {
    if cfg.always_compare_med || same_neighbor_as(a, b) {
        b.base.med.unwrap_or(0) - a.base.med.unwrap_or(0)
    } else {
        0
    }
}

/// How much a route is preferred over another by being external.
pub open spec fn by_route_type(a: Contender, b: Contender) -> int {
    match (a.route_type, b.route_type) {
        (RouteType::External, RouteType::Internal) => 1,
        (RouteType::Internal, RouteType::External) => -1,
        _ => 0,
    }
}

/// How much a route is preferred over another by the interior cost of its next
/// hop. A local route, which has none, comes first.
pub open spec fn by_igp_cost(a: Contender, b: Contender, cfg: RouteSelectionCfg) -> int {
    if cfg.ignore_next_hop_igp_metric {
        0
    } else {
        match (a.igp_cost, b.igp_cost) {
            (None, None) => 0,
            (None, Some(_)) => 1,
            (Some(_), None) => -1,
            (Some(x), Some(y)) => y - x,
        }
    }
}

/// How much a route is preferred over another by the identifier of its peer.
pub open spec fn by_router_id(a: Contender, b: Contender, cfg: RouteSelectionCfg) -> int {
    match (a.origin, b.origin) {
        (RouteOrigin::Neighbor { identifier: x, .. }, RouteOrigin::Neighbor { identifier: y, .. }) => {
            if cfg.external_compare_router_id {
                y - x
            } else {
                0
            }
        },
        _ => 0,
    }
}

/// How much a route is preferred over another by the address of its peer.
pub open spec fn by_peer_addr(a: Contender, b: Contender) -> int {
    match (a.origin, b.origin) {
        (RouteOrigin::Neighbor { remote_addr: x, .. }, RouteOrigin::Neighbor { remote_addr: y, .. }) => {
            if x.before(y) {
                1
            } else if y.before(x) {
                -1
            } else {
                0
            }
        },
        _ => 0,
    }
}

/// Preferred if the difference is in the route's favor.
pub open spec fn verdict(diff: int, reason: RouteRejectReason) -> RouteCompare {
    if diff > 0 {
        RouteCompare::Preferred(reason)
    } else {
        RouteCompare::LessPreferred(reason)
    }
}

/// The verdict of the criteria that come before the multipath check, if one of
/// them tells the routes apart: the first one that does decides.
pub open spec fn early_verdict(a: Contender, b: Contender, cfg: RouteSelectionCfg) -> Option<RouteCompare> {
    if by_local_pref(a, b) != 0 {
        Some(verdict(by_local_pref(a, b), RouteRejectReason::LocalPrefLower))
    } else if by_as_path(a, b, cfg) != 0 {
        Some(verdict(by_as_path(a, b, cfg), RouteRejectReason::AsPathLonger))
    } else if by_origin(a, b) != 0 {
        Some(verdict(by_origin(a, b), RouteRejectReason::OriginTypeHigher))
    } else if by_med(a, b, cfg) != 0 {
        Some(verdict(by_med(a, b, cfg), RouteRejectReason::MedHigher))
    } else if by_route_type(a, b) != 0 {
        Some(verdict(by_route_type(a, b), RouteRejectReason::PreferExternal))
    } else if by_igp_cost(a, b, cfg) != 0 {
        Some(verdict(by_igp_cost(a, b, cfg), RouteRejectReason::NexthopCostHigher))
    } else {
        None
    }
}

/// The verdict of the criteria that come after the multipath check.
pub open spec fn late_verdict(a: Contender, b: Contender, cfg: RouteSelectionCfg) -> Option<RouteCompare> {
    if by_router_id(a, b, cfg) != 0 {
        Some(verdict(by_router_id(a, b, cfg), RouteRejectReason::HigherRouterId))
    } else if by_peer_addr(a, b) != 0 {
        Some(verdict(by_peer_addr(a, b), RouteRejectReason::HigherPeerAddress))
    } else {
        None
    }
}

/// Whether two routes that no early criterion tells apart may be used together.
pub open spec fn multipath_equal(a: Contender, b: Contender, mpath: MultipathCfg) -> bool {
    match a.route_type {
        // For eBGP, routes are equal if they are received from the same
        // neighboring AS, unless this restriction is disabled.
        RouteType::External => mpath.ebgp_allow_multiple_as || same_neighbor_as(a, b),
        // For iBGP, routes are equal if their AS paths match.
        RouteType::Internal => a.base.as_path == b.base.as_path,
    }
}

/// Whether some criterion tells two routes apart.
pub open spec fn distinguishable(a: Contender, b: Contender, cfg: RouteSelectionCfg) -> bool {
    early_verdict(a, b, cfg) is Some || late_verdict(a, b, cfg) is Some
}

/// The outcome of comparing two routes.
pub open spec fn comparison(
    a: Contender,
    b: Contender,
    cfg: RouteSelectionCfg,
    mpath: Option<MultipathCfg>,
) -> RouteCompare {
    if early_verdict(a, b, cfg) is Some {
        early_verdict(a, b, cfg)->0
    } else if mpath is Some {
        if multipath_equal(a, b, mpath->0) {
            RouteCompare::MultipathEqual
        } else {
            RouteCompare::MultipathDifferent
        }
    } else {
        late_verdict(a, b, cfg)->0
    }
}

/// The outcome seen from the other route.
pub open spec fn reversed(c: RouteCompare) -> RouteCompare {
    match c {
        RouteCompare::Preferred(reason) => RouteCompare::LessPreferred(reason),
        RouteCompare::LessPreferred(reason) => RouteCompare::Preferred(reason),
        _ => c,
    }
}

/// Of two routes that are told apart, exactly one is preferred, and for the
/// same reason whichever is looked at first.
pub proof fn comparison_antisymmetric(a: Contender, b: Contender, cfg: RouteSelectionCfg)
    requires
        distinguishable(a, b, cfg),
    ensures
        distinguishable(b, a, cfg),
        comparison(b, a, cfg, None) == reversed(comparison(a, b, cfg, None)),
        comparison(a, b, cfg, None) != comparison(b, a, cfg, None),
{
}

/// A route is never told apart from itself.
pub proof fn comparison_irreflexive(a: Contender, cfg: RouteSelectionCfg)
    ensures
        !distinguishable(a, a, cfg),
{
}

/// Routes learned from different peers are always told apart.
pub proof fn peers_distinguishable(a: Contender, b: Contender, cfg: RouteSelectionCfg)
    requires
        a.origin is Neighbor,
        b.origin is Neighbor,
        a.origin->remote_addr != b.origin->remote_addr,
    ensures
        distinguishable(a, b, cfg),
{
}

impl<'a> RouteRef<'a> {
    pub fn compare(
        &self,
        other: &RouteRef<'_>,
        selection_cfg: &RouteSelectionCfg,
        mpath_cfg: Option<&MultipathCfg>,
    ) -> (r: RouteCompare)
        requires
            mpath_cfg is None ==> distinguishable(self@, other@, *selection_cfg),
        ensures
            r == comparison(
                self@,
                other@,
                *selection_cfg,
                match mpath_cfg {
                    Some(cfg) => Some(*cfg),
                    None => None,
                },
            ),
    {
        // Compare LOCAL_PREFERENCE attributes.
        let a = self.base.local_pref.unwrap_or(DFLT_LOCAL_PREF);
        let b = other.base.local_pref.unwrap_or(DFLT_LOCAL_PREF);
        let reason = RouteRejectReason::LocalPrefLower;
        if a < b {
            return RouteCompare::LessPreferred(reason);
        }
        if a > b {
            return RouteCompare::Preferred(reason);
        }

        // Compare AS_PATH lengths.
        if !selection_cfg.ignore_as_path_length {
            let a = self.base.as_path.path_length();
            let b = other.base.as_path.path_length();
            let reason = RouteRejectReason::AsPathLonger;
            if a < b {
                return RouteCompare::Preferred(reason);
            }
            if a > b {
                return RouteCompare::LessPreferred(reason);
            }
        }

        // Compare ORIGIN attributes.
        let reason = RouteRejectReason::OriginTypeHigher;
        if self.base.origin.is_before(&other.base.origin) {
            return RouteCompare::Preferred(reason);
        }
        if other.base.origin.is_before(&self.base.origin) {
            return RouteCompare::LessPreferred(reason);
        }

        // Compare MULTI_EXIT_DISC attributes.
        let a_nbr_as = self.base.as_path.first();
        let b_nbr_as = other.base.as_path.first();
        if selection_cfg.always_compare_med || a_nbr_as == b_nbr_as {
            let a = self.base.med.unwrap_or(0);
            let b = other.base.med.unwrap_or(0);
            let reason = RouteRejectReason::MedHigher;
            if a < b {
                return RouteCompare::Preferred(reason);
            }
            if a > b {
                return RouteCompare::LessPreferred(reason);
            }
        }

        // Prefer eBGP routes.
        let reason = RouteRejectReason::PreferExternal;
        match (self.route_type, other.route_type) {
            (RouteType::Internal, RouteType::External) => {
                return RouteCompare::LessPreferred(reason);
            },
            (RouteType::External, RouteType::Internal) => {
                return RouteCompare::Preferred(reason);
            },
            _ => {},
        }

        // Compare IGP costs.
        //
        // The route with the lower interior cost wins. Local-origin routes have
        // no next hop to track, and are preferred over any route with a
        // resolved next hop.
        if !selection_cfg.ignore_next_hop_igp_metric {
            let reason = RouteRejectReason::NexthopCostHigher;
            match (self.igp_cost, other.igp_cost) {
                (None, None) => {},
                (None, Some(_)) => {
                    return RouteCompare::Preferred(reason);
                },
                (Some(_), None) => {
                    return RouteCompare::LessPreferred(reason);
                },
                (Some(a), Some(b)) => {
                    if a < b {
                        return RouteCompare::Preferred(reason);
                    }
                    if a > b {
                        return RouteCompare::LessPreferred(reason);
                    }
                },
            }
        }

        // If multipath is enabled, routes are considered equal under specific
        // conditions.
        if let Some(mpath_cfg) = mpath_cfg {
            let equal = match self.route_type {
                RouteType::External => mpath_cfg.ebgp_allow_multiple_as || a_nbr_as == b_nbr_as,
                RouteType::Internal => self.base.as_path.same(&other.base.as_path),
            };
            return if equal {
                RouteCompare::MultipathEqual
            } else {
                RouteCompare::MultipathDifferent
            };
        }

        if let (
            RouteOrigin::Neighbor { identifier: a_id, remote_addr: a_addr },
            RouteOrigin::Neighbor { identifier: b_id, remote_addr: b_addr },
        ) = (self.origin, other.origin) {
            // Compare peer BGP identifiers.
            if selection_cfg.external_compare_router_id {
                let reason = RouteRejectReason::HigherRouterId;
                if a_id < b_id {
                    return RouteCompare::Preferred(reason);
                }
                if a_id > b_id {
                    return RouteCompare::LessPreferred(reason);
                }
            }

            // Compare peer IP addresses.
            let reason = RouteRejectReason::HigherPeerAddress;
            if a_addr.is_before(&b_addr) {
                return RouteCompare::Preferred(reason);
            }
            return RouteCompare::LessPreferred(reason);
        }

        // Some criterion tells the routes apart.
        assert(false);
        RouteCompare::MultipathDifferent
    }
}

// ===== impl RouteOrigin =====

impl RouteOrigin {
    pub open spec fn local(self) -> bool {
        self is Protocol
    }

    /// The origin as numbers by which origins are ordered.
    pub open spec fn parts(self) -> (u128, u128, u128, u128) {
        match self {
            RouteOrigin::Neighbor { identifier, remote_addr } => (
                0,
                identifier as u128,
                remote_addr.parts().0,
                remote_addr.parts().1,
            ),
            RouteOrigin::Protocol(protocol) => (1, protocol.rank(), 0, 0),
        }
    }

    pub fn to_parts(&self) -> (r: (u128, u128, u128, u128))
        ensures
            r == self.parts(),
    {
        match self {
            RouteOrigin::Neighbor { identifier, remote_addr } => {
                let addr = remote_addr.to_parts();
                (0, *identifier as u128, addr.0, addr.1)
            },
            RouteOrigin::Protocol(protocol) => (1, protocol.to_rank(), 0, 0),
        }
    }

    /// Different origins are told apart by their numbers.
    pub proof fn parts_injective(a: RouteOrigin, b: RouteOrigin)
        requires
            a.parts() == b.parts(),
        ensures
            a == b,
    {
    }

    pub fn is_local(&self) -> (b: bool)
        ensures
            b == self.local(),
    {
        matches!(self, RouteOrigin::Protocol(_))
    }
}

// ===== impl SelectionState =====

impl SelectionState {
    pub open spec fn eligible(self) -> bool {
        self.ineligible_reason is None
    }

    pub fn is_eligible(&self) -> (b: bool)
        ensures
            b == self.eligible(),
    {
        self.ineligible_reason.is_none()
    }
}

impl Default for SelectionState {
    fn default() -> (r: SelectionState)
        ensures
            r == (SelectionState { igp_cost: None, ineligible_reason: None, reject_reason: None }),
    {
        SelectionState { igp_cost: None, ineligible_reason: None, reject_reason: None }
    }
}

// ===== tables =====

pub struct Rib {
    pub attr_sets: AttrSetsCxt,
    pub tables: RoutingTables,
}

pub struct RoutingTables {
    pub ipv4_unicast: RoutingTable,
    pub ipv6_unicast: RoutingTable,
}

pub struct RoutingTable {
    pub prefixes: PrefixTable<Destination>,
    pub queued_prefixes: OrdSet<IpNetwork>,
    pub nht: Table<IpAddr, NhtEntry>,
    pub prefix_counters: Table<PeerIndex, PrefixCounters>,
}

/// Number of prefixes of a peer.
#[derive(Clone, Copy, Debug, PartialEq, Eq, Structural)]
pub struct PrefixCounters {
    pub installed: u32,
}

pub struct Destination {
    pub local: Option<Arc<LocalRoute>>,
    pub adj_rib: Table<PeerIndex, AdjRib>,
    pub redistribute: Option<Redistribute>,
}

pub struct AdjRib {
    pub adj_in: Option<AdjRibIn>,
    pub adj_out: Option<AdjRibOut>,
}

/// Adj-RIB-In entry for a single peer.
pub struct AdjRibIn {
    pub origin: RouteOrigin,
    pub route_type: RouteType,
    pub pre: Route,
    pub post: Option<(Route, SelectionState)>,
}

/// Adj-RIB-Out entry for a single peer.
pub struct AdjRibOut {
    pub pre: Route,
    pub post: Option<Route>,
}

/// Locally redistributed route (participates in the Decision Process).
pub struct Redistribute {
    pub origin: RouteOrigin,
    pub route_type: RouteType,
    pub attrs: Arc<RouteAttrs>,
    pub last_modified: Instant,
    pub selection: SelectionState,
}

/// Winner of the Decision Process for a destination.
pub struct BestRoute {
    pub origin: RouteOrigin,
    pub route_type: RouteType,
    pub attrs: Arc<RouteAttrs>,
    pub last_modified: Instant,
    pub igp_cost: Option<u32>,
}

pub struct LocalRoute {
    pub origin: RouteOrigin,
    pub attrs: Arc<RouteAttrs>,
    pub route_type: RouteType,
    pub last_modified: Instant,
    pub nexthops: Option<Vec<IpAddr>>,
}

/// A route at a single policy stage.
pub struct Route {
    pub attrs: Arc<RouteAttrs>,
    pub last_modified: Instant,
}

/// A next hop that is watched, with the number of routes of each prefix that
/// use it.
pub struct NhtEntry {
    pub metric: Option<u32>,
    pub prefixes: Table<IpNetwork, u32>,
}

/// Messages to the routing table manager.
pub enum IbusMsg {
    RouteInstall { prefix: IpNetwork, route: Arc<LocalRoute>, distance: u8 },
    RouteUninstall { prefix: IpNetwork },
    NexthopTrack { addr: IpAddr },
    NexthopUntrack { addr: IpAddr },
}

// ===== views =====

pub struct DestinationView {
    pub local: Option<Arc<LocalRoute>>,
    pub adj_rib: Map<PeerIndex, AdjRib>,
    pub redistribute: Option<Redistribute>,
}

impl View for Destination {
    type V = DestinationView;

    open spec fn view(&self) -> DestinationView {
        DestinationView { local: self.local, adj_rib: self.adj_rib@, redistribute: self.redistribute }
    }
}

pub struct NhtView {
    pub metric: Option<u32>,
    pub prefixes: Map<IpNetwork, u32>,
}

impl View for NhtEntry {
    type V = NhtView;

    open spec fn view(&self) -> NhtView {
        NhtView { metric: self.metric, prefixes: self.prefixes@ }
    }
}

pub struct TableView {
    pub prefixes: Map<IpNetwork, DestinationView>,
    pub queued_prefixes: Set<IpNetwork>,
    pub nht: Map<IpAddr, NhtView>,
    pub prefix_counters: Map<PeerIndex, PrefixCounters>,
}

impl View for RoutingTable {
    type V = TableView;

    open spec fn view(&self) -> TableView {
        TableView {
            prefixes: views(self.prefixes@),
            queued_prefixes: self.queued_prefixes@,
            nht: views(self.nht@),
            prefix_counters: self.prefix_counters@,
        }
    }
}

// ===== impl RoutingTable =====

impl Default for RoutingTable {
    fn default() -> (r: RoutingTable)
        ensures
            r.prefixes@ == Map::<IpNetwork, Destination>::empty(),
            r.queued_prefixes@ == Set::<IpNetwork>::empty(),
            r.nht@ == Map::<IpAddr, NhtEntry>::empty(),
            r.prefix_counters@ == Map::<PeerIndex, PrefixCounters>::empty(),
    {
        RoutingTable {
            prefixes: PrefixTable::new(),
            queued_prefixes: OrdSet::new(),
            nht: Table::new(),
            prefix_counters: Table::new(),
        }
    }
}

impl Default for Destination {
    fn default() -> (r: Destination)
        ensures
            r.local is None,
            r.adj_rib@ == Map::<PeerIndex, AdjRib>::empty(),
            r.redistribute is None,
    {
        Destination { local: None, adj_rib: Table::new(), redistribute: None }
    }
}

// ===== impl AdjRib =====

impl Default for AdjRib {
    fn default() -> (r: AdjRib)
        ensures
            r == (AdjRib { adj_in: None, adj_out: None }),
    {
        AdjRib { adj_in: None, adj_out: None }
    }
}

impl AdjRib {
    pub fn adj_in(&self) -> (r: Option<&AdjRibIn>)
        ensures
            r == (match self.adj_in {
                Some(a) => Some(&a),
                None => None,
            }),
    {
        self.adj_in.as_ref()
    }

    /// The pre-policy received route.
    pub open spec fn spec_in_pre(self) -> Option<Route> {
        match self.adj_in {
            Some(a) => Some(a.pre),
            None => None,
        }
    }

    /// The post-policy received route.
    pub open spec fn spec_in_post(self) -> Option<(Route, SelectionState)> {
        match self.adj_in {
            Some(a) => a.post,
            None => None,
        }
    }

    /// The pre-policy advertised route.
    pub open spec fn spec_out_pre(self) -> Option<Route> {
        match self.adj_out {
            Some(a) => Some(a.pre),
            None => None,
        }
    }

    /// The post-policy advertised route.
    pub open spec fn spec_out_post(self) -> Option<Route> {
        match self.adj_out {
            Some(a) => a.post,
            None => None,
        }
    }

    pub fn in_pre(&self) -> (r: Option<&Route>)
        ensures
            r == (match self.spec_in_pre() {
                Some(x) => Some(&x),
                None => None,
            }),
    {
        match &self.adj_in {
            Some(adj_in) => Some(&adj_in.pre),
            None => None,
        }
    }

    pub fn in_post(&self) -> (r: Option<&(Route, SelectionState)>)
        ensures
            r == (match self.spec_in_post() {
                Some(x) => Some(&x),
                None => None,
            }),
    {
        match &self.adj_in {
            Some(adj_in) => adj_in.post.as_ref(),
            None => None,
        }
    }

    pub fn out_pre(&self) -> (r: Option<&Route>)
        ensures
            r == (match self.spec_out_pre() {
                Some(x) => Some(&x),
                None => None,
            }),
    {
        match &self.adj_out {
            Some(adj_out) => Some(&adj_out.pre),
            None => None,
        }
    }

    pub fn out_post(&self) -> (r: Option<&Route>)
        ensures
            r == (match self.spec_out_post() {
                Some(x) => Some(&x),
                None => None,
            }),
    {
        match &self.adj_out {
            Some(adj_out) => adj_out.post.as_ref(),
            None => None,
        }
    }

    pub fn is_empty(&self) -> (b: bool)
        ensures
            b == (self.adj_in is None && self.adj_out is None),
    {
        self.adj_in.is_none() && self.adj_out.is_none()
    }

    /// The entry with its pre-policy received route set.
    pub open spec fn with_in_pre(self, origin: RouteOrigin, route_type: RouteType, route: Route) -> AdjRib {
        AdjRib {
            adj_in: Some(
                match self.adj_in {
                    Some(a) => AdjRibIn { pre: route, ..a },
                    None => AdjRibIn { origin, route_type, pre: route, post: None },
                },
            ),
            ..self
        }
    }

    /// Sets or updates the pre-policy received route.
    pub fn update_in_pre(&mut self, origin: RouteOrigin, route_type: RouteType, route: Route)
        ensures
            *final(self) == old(self).with_in_pre(origin, route_type, route),
    {
        match &mut self.adj_in {
            Some(adj_in) => {
                adj_in.pre = route;
            },
            None => {
                self.adj_in = Some(AdjRibIn { origin, route_type, pre: route, post: None });
            },
        }
    }

    /// The entry with its post-policy received route set to `post`, if there
    /// is a pre-policy one.
    pub open spec fn with_in_post(self, post: Option<(Route, SelectionState)>) -> AdjRib {
        AdjRib {
            adj_in: match self.adj_in {
                Some(a) => Some(AdjRibIn { post, ..a }),
                None => None,
            },
            ..self
        }
    }

    /// Sets or updates the post-policy route, and says whether it was stored.
    ///
    /// If the pre-policy route is gone (e.g. withdrawn while the import policy
    /// was being applied), the route is dropped.
    pub fn update_in_post(&mut self, route: Route) -> (stored: bool)
        ensures
            stored == old(self).adj_in is Some,
            *final(self) == old(self).with_in_post(
                Some((route, SelectionState { igp_cost: None, ineligible_reason: None, reject_reason: None })),
            ),
    {
        match &mut self.adj_in {
            Some(adj_in) => {
                adj_in.post = Some((route, SelectionState::default()));
                true
            },
            None => false,
        }
    }

    /// Removes the post-policy route, returning it.
    pub fn remove_in_post(&mut self) -> (r: Option<Route>)
        ensures
            r == (match old(self).spec_in_post() {
                Some(p) => Some(p.0),
                None => None,
            }),
            *final(self) == old(self).with_in_post(None),
    {
        match &mut self.adj_in {
            Some(adj_in) => match adj_in.post.take() {
                Some((route, _)) => Some(route),
                None => None,
            },
            None => None,
        }
    }

    /// Removes the whole Adj-RIB-In entry, returning the post-policy route.
    pub fn remove_in(&mut self) -> (r: Option<Route>)
        ensures
            r == (match old(self).spec_in_post() {
                Some(p) => Some(p.0),
                None => None,
            }),
            *final(self) == (AdjRib { adj_in: None, ..*old(self) }),
    {
        match self.adj_in.take() {
            Some(adj_in) => match adj_in.post {
                Some((route, _)) => Some(route),
                None => None,
            },
            None => None,
        }
    }

    /// The entry with its pre-policy advertised route set.
    pub open spec fn with_out_pre(self, route: Route) -> AdjRib {
        AdjRib {
            adj_out: Some(
                match self.adj_out {
                    Some(a) => AdjRibOut { pre: route, ..a },
                    None => AdjRibOut { pre: route, post: None },
                },
            ),
            ..self
        }
    }

    /// Sets or updates the pre-policy advertised route.
    pub fn update_out_pre(&mut self, route: Route)
        ensures
            *final(self) == old(self).with_out_pre(route),
    {
        match &mut self.adj_out {
            Some(adj_out) => {
                adj_out.pre = route;
            },
            None => {
                self.adj_out = Some(AdjRibOut { pre: route, post: None });
            },
        }
    }

    /// The entry with its post-policy advertised route set to `post`, if there
    /// is a pre-policy one.
    pub open spec fn with_out_post(self, post: Option<Route>) -> AdjRib {
        AdjRib {
            adj_out: match self.adj_out {
                Some(a) => Some(AdjRibOut { post, ..a }),
                None => None,
            },
            ..self
        }
    }

    /// Sets or updates the post-policy advertised route, and says whether it
    /// was stored.
    ///
    /// If the pre-policy route is gone, the route is dropped.
    pub fn update_out_post(&mut self, route: Route) -> (stored: bool)
        ensures
            stored == old(self).adj_out is Some,
            *final(self) == old(self).with_out_post(Some(route)),
    {
        match &mut self.adj_out {
            Some(adj_out) => {
                adj_out.post = Some(route);
                true
            },
            None => false,
        }
    }

    /// Removes the post-policy advertised route, returning it.
    pub fn remove_out_post(&mut self) -> (r: Option<Route>)
        ensures
            r == old(self).spec_out_post(),
            *final(self) == old(self).with_out_post(None),
    {
        match &mut self.adj_out {
            Some(adj_out) => adj_out.post.take(),
            None => None,
        }
    }

    /// Removes the whole Adj-RIB-Out entry, returning whether it had a
    /// post-policy route (i.e. whether the route was actually advertised).
    pub fn remove_out(&mut self) -> (advertised: bool)
        ensures
            advertised == old(self).spec_out_post() is Some,
            *final(self) == (AdjRib { adj_out: None, ..*old(self) }),
    {
        match self.adj_out.take() {
            Some(adj_out) => adj_out.post.is_some(),
            None => false,
        }
    }

    /// The entry with the selection state of its post-policy route replaced.
    pub open spec fn with_selection(self, selection: SelectionState) -> AdjRib {
        match self.spec_in_post() {
            Some(p) => self.with_in_post(Some((p.0, selection))),
            None => self,
        }
    }

    fn set_selection(&mut self, selection: SelectionState)
        ensures
            *final(self) == old(self).with_selection(selection),
    {
        if let Some(adj_in) = &mut self.adj_in {
            if let Some(post) = &mut adj_in.post {
                post.1 = selection;
            }
        }
    }

    fn candidate(&self) -> (r: Option<Candidate>)
        ensures
            r == self.spec_candidate(),
    {
        match &self.adj_in {
            Some(adj_in) => match &adj_in.post {
                Some(post) => Some(
                    Candidate {
                        origin: adj_in.origin,
                        route_type: adj_in.route_type,
                        attrs: share(&post.0.attrs),
                        last_modified: post.0.last_modified,
                        selection: post.1,
                    },
                ),
                None => None,
            },
            None => None,
        }
    }

    /// The candidate that a peer contributes to the Decision Process.
    pub open spec fn spec_candidate(self) -> Option<Candidate> {
        match self.adj_in {
            Some(a) => match a.post {
                Some(p) => Some(
                    Candidate {
                        origin: a.origin,
                        route_type: a.route_type,
                        attrs: p.0.attrs,
                        last_modified: p.0.last_modified,
                        selection: p.1,
                    },
                ),
                None => None,
            },
            None => None,
        }
    }
}

// ===== impl Route =====

impl Route {
    pub fn new(attrs: Arc<RouteAttrs>, now: Instant) -> (r: Route)
        ensures
            r == (Route { attrs, last_modified: now }),
    {
        Route { attrs, last_modified: now }
    }

    /// The next hop of a received route.
    pub fn nexthop<A: AddressFamily>(&self) -> (r: IpAddr)
        requires
            self.attrs.base.value.nexthop is Some,
        ensures
            r == A::nexthop_rx(self.attrs.attrs().base),
    {
        A::nexthop_rx_extract(&self.attrs.base.value)
    }
}

// ===== best path selection =====

/// A candidate route considered by the Decision Process.
pub struct Candidate {
    pub origin: RouteOrigin,
    pub route_type: RouteType,
    pub attrs: Arc<RouteAttrs>,
    pub last_modified: Instant,
    pub selection: SelectionState,
}

impl Candidate {
    /// What is compared of a candidate with the given interior cost.
    pub open spec fn contender(self, igp_cost: Option<u32>) -> Contender {
        Contender {
            origin: self.origin,
            route_type: self.route_type,
            base: self.attrs.attrs().base,
            igp_cost,
        }
    }

    /// The route that a candidate becomes when it wins.
    pub open spec fn best(self, igp_cost: Option<u32>) -> BestRoute {
        BestRoute {
            origin: self.origin,
            route_type: self.route_type,
            attrs: self.attrs,
            last_modified: self.last_modified,
            igp_cost,
        }
    }
}

impl Redistribute {
    pub open spec fn spec_candidate(self) -> Candidate {
        Candidate {
            origin: self.origin,
            route_type: self.route_type,
            attrs: self.attrs,
            last_modified: self.last_modified,
            selection: self.selection,
        }
    }
}

impl BestRoute {
    pub open spec fn contender(self) -> Contender {
        Contender {
            origin: self.origin,
            route_type: self.route_type,
            base: self.attrs.attrs().base,
            igp_cost: self.igp_cost,
        }
    }

    fn as_route_ref(&self) -> (r: RouteRef<'_>)
        ensures
            r@ == self.contender(),
    {
        RouteRef {
            origin: self.origin,
            route_type: self.route_type,
            base: &self.attrs.base.value,
            igp_cost: self.igp_cost,
        }
    }

    /// What routing policies are applied to.
    pub fn policy_info(&self) -> (r: RoutePolicyInfo)
        ensures
            r@ == (RoutePolicyView {
                origin: self.origin,
                route_type: self.route_type,
                tag: None,
                opaque_attrs: None,
                igp_metric: None,
                attrs: self.attrs.attrs(),
            }),
    {
        RoutePolicyInfo::new(self.origin, self.route_type, None, None, None, self.attrs.get())
    }

    pub fn copy(&self) -> (r: BestRoute)
        ensures
            r == *self,
    {
        BestRoute {
            origin: self.origin,
            route_type: self.route_type,
            attrs: share(&self.attrs),
            last_modified: self.last_modified,
            igp_cost: self.igp_cost,
        }
    }
}

/// The places from which candidates come: one for each peer, in ascending
/// order, and the last for the redistributed route.
pub open spec fn slot(dest: Destination, i: int) -> Option<Candidate> {
    if 0 <= i < dest.adj_rib.keys().len() {
        dest.adj_rib@[dest.adj_rib.keys()[i]].spec_candidate()
    } else if i == dest.adj_rib.keys().len() {
        match dest.redistribute {
            Some(r) => Some(r.spec_candidate()),
            None => None,
        }
    } else {
        None
    }
}

pub open spec fn slot_count(dest: Destination) -> nat {
    dest.adj_rib.keys().len() + 1
}

/// The interior cost to a next hop, if it is resolved.
pub open spec fn nexthop_metric(nht: Map<IpAddr, NhtEntry>, addr: IpAddr) -> Option<u32> {
    if nht.contains_key(addr) {
        nht[addr].metric
    } else {
        None
    }
}

/// The selection state of a candidate before it is compared with others.
pub open spec fn assessed<A: AddressFamily>(c: Candidate, local_asn: u32, nht: Map<IpAddr, NhtEntry>) -> SelectionState {
    let base = c.attrs.attrs().base;
    if path_contains(base.as_path, local_asn) {
        SelectionState {
            igp_cost: c.selection.igp_cost,
            ineligible_reason: Some(RouteIneligibleReason::AsLoop),
            reject_reason: None,
        }
    } else if c.origin.local() {
        SelectionState { igp_cost: c.selection.igp_cost, ineligible_reason: None, reject_reason: None }
    } else {
        let metric = nexthop_metric(nht, A::nexthop_rx(base));
        SelectionState {
            igp_cost: metric,
            ineligible_reason: if metric is None {
                Some(RouteIneligibleReason::Unresolvable)
            } else {
                None
            },
            reject_reason: None,
        }
    }
}

/// The best candidate found so far, and the selection state of each candidate.
pub struct Scan {
    pub best: Option<int>,
    pub states: Seq<SelectionState>,
}

/// The outcome of comparing the candidates of the first `n` slots one after
/// the other, each with the best one found before it.
pub open spec fn scan<A: AddressFamily>(
    dest: Destination,
    local_asn: u32,
    nht: Map<IpAddr, NhtEntry>,
    cfg: RouteSelectionCfg,
    n: nat,
) -> Scan
    decreases n,
{
    if n == 0 {
        Scan { best: None, states: Seq::empty() }
    } else {
        let i = n - 1;
        let r = scan::<A>(dest, local_asn, nht, cfg, (n - 1) as nat);
        match slot(dest, i) {
            None => Scan {
                best: r.best,
                states: r.states.push(
                    SelectionState { igp_cost: None, ineligible_reason: None, reject_reason: None },
                ),
            },
            Some(c) => {
                let s = assessed::<A>(c, local_asn, nht);
                if !s.eligible() {
                    Scan { best: r.best, states: r.states.push(s) }
                } else {
                    match r.best {
                        None => Scan { best: Some(i), states: r.states.push(s) },
                        Some(b) => match comparison(
                            c.contender(s.igp_cost),
                            (slot(dest, b)->0).contender(r.states[b].igp_cost),
                            cfg,
                            None,
                        ) {
                            RouteCompare::Preferred(reason) => Scan {
                                best: Some(i),
                                states: r.states.update(
                                    b,
                                    SelectionState { reject_reason: Some(reason), ..r.states[b] },
                                ).push(s),
                            },
                            RouteCompare::LessPreferred(reason) => Scan {
                                best: r.best,
                                states: r.states.push(SelectionState { reject_reason: Some(reason), ..s }),
                            },
                            _ => r,
                        },
                    }
                }
            },
        }
    }
}

/// Whether the candidate of a slot, if it is eligible, is told apart from the
/// best one found before it.
pub open spec fn told_apart<A: AddressFamily>(
    dest: Destination,
    local_asn: u32,
    nht: Map<IpAddr, NhtEntry>,
    cfg: RouteSelectionCfg,
    i: int,
) -> bool {
    slot(dest, i) matches Some(c) ==> {
        let s = assessed::<A>(c, local_asn, nht);
        let r = scan::<A>(dest, local_asn, nht, cfg, i as nat);
        s.eligible() ==> (r.best matches Some(b) ==> distinguishable(
            c.contender(s.igp_cost),
            (slot(dest, b)->0).contender(r.states[b].igp_cost),
            cfg,
        ))
    }
}

/// Whether the next hop of a candidate is known where it is needed.
pub open spec fn assessable(c: Candidate, local_asn: u32) -> bool {
    path_contains(c.attrs.attrs().base.as_path, local_asn) || c.origin.local() || c.attrs.attrs().base.nexthop is Some
}

/// Whether the candidates can be compared one after the other.
pub open spec fn decidable<A: AddressFamily>(
    dest: Destination,
    local_asn: u32,
    nht: Map<IpAddr, NhtEntry>,
    cfg: RouteSelectionCfg,
) -> bool {
    &&& forall|i: int| (#[trigger] slot(dest, i)) matches Some(c) ==> assessable(c, local_asn)
    &&& forall|i: int| 0 <= i < slot_count(dest) ==> #[trigger] told_apart::<A>(dest, local_asn, nht, cfg, i)
}

/// What the scan keeps of each candidate's assessment.
pub proof fn scan_sound<A: AddressFamily>(
    dest: Destination,
    local_asn: u32,
    nht: Map<IpAddr, NhtEntry>,
    cfg: RouteSelectionCfg,
    n: nat,
)
    requires
        decidable::<A>(dest, local_asn, nht, cfg),
    ensures
        ({
            let r = scan::<A>(dest, local_asn, nht, cfg, n);
            &&& r.states.len() == n
            &&& forall|i: int|
                0 <= i < n && slot(dest, i) is Some ==> {
                    let s = assessed::<A>(slot(dest, i)->0, local_asn, nht);
                    &&& (#[trigger] r.states[i]).igp_cost == s.igp_cost
                    &&& r.states[i].ineligible_reason == s.ineligible_reason
                }
            &&& r.best matches Some(b) ==> {
                &&& 0 <= b < n
                &&& slot(dest, b) is Some
                &&& r.states[b].eligible()
                &&& r.states[b].reject_reason is None
            }
            // The best route is missing only if no candidate is eligible.
            &&& r.best is None ==> forall|i: int|
                0 <= i < n && slot(dest, i) is Some ==> !(#[trigger] r.states[i]).eligible()
            // Every other eligible candidate was rejected for some reason.
            &&& forall|i: int|
                0 <= i < n && slot(dest, i) is Some && r.best != Some(i) && (#[trigger] r.states[i]).eligible()
                    ==> r.states[i].reject_reason is Some
        }),
    decreases n,
{
    if n > 0 {
        scan_sound::<A>(dest, local_asn, nht, cfg, (n - 1) as nat);
        let p = scan::<A>(dest, local_asn, nht, cfg, (n - 1) as nat);
        let i = n - 1;
        if p.best is Some && slot(dest, i) is Some {
            let b = p.best->0;
            assert(slot(dest, b) is Some);
            let c = slot(dest, i)->0;
            let s = assessed::<A>(c, local_asn, nht);
            if s.eligible() {
                assert(told_apart::<A>(dest, local_asn, nht, cfg, i));
            }
        }
    }
}

/// Candidates that are assessed alike are scanned alike.
pub(crate) proof fn same_scan<A: AddressFamily>(
    d: Destination,
    e: Destination,
    local_asn: u32,
    nht: Map<IpAddr, NhtEntry>,
    cfg: RouteSelectionCfg,
    n: nat,
)
    requires
        decidable::<A>(e, local_asn, nht, cfg),
        forall|i: int|
            #![trigger slot(d, i)]
            slot(d, i) is Some == slot(e, i) is Some && (slot(e, i) matches Some(c) ==> {
                let x = slot(d, i)->0;
                &&& x.origin == c.origin && x.route_type == c.route_type && x.attrs == c.attrs
                &&& assessed::<A>(x, local_asn, nht) == assessed::<A>(c, local_asn, nht)
            }),
    ensures
        scan::<A>(d, local_asn, nht, cfg, n) == scan::<A>(e, local_asn, nht, cfg, n),
    decreases n,
{
    if n > 0 {
        same_scan::<A>(d, e, local_asn, nht, cfg, (n - 1) as nat);
        scan_sound::<A>(e, local_asn, nht, cfg, (n - 1) as nat);
        assert(slot(d, n - 1) is Some == slot(e, n - 1) is Some);
        let r = scan::<A>(e, local_asn, nht, cfg, (n - 1) as nat);
        if r.best is Some {
            assert(slot(d, r.best->0) is Some);
        }
    }
}

/// Whether a route is preferred over another.
pub open spec fn preferred(a: Contender, b: Contender, cfg: RouteSelectionCfg) -> bool {
    distinguishable(a, b, cfg) && comparison(a, b, cfg, None) is Preferred
}

/// If the multi-exit discriminators of all routes are compared, a route that is
/// preferred over one that is preferred over a third is preferred over that one
/// too, provided that these two are told apart.
pub proof fn preference_transitive(a: Contender, b: Contender, c: Contender, cfg: RouteSelectionCfg)
    requires
        cfg.always_compare_med,
        preferred(a, b, cfg),
        preferred(b, c, cfg),
        distinguishable(a, c, cfg),
    ensures
        preferred(a, c, cfg),
{
}

/// What is compared of the candidate in a slot, once it was assessed.
pub open spec fn assessed_contender<A: AddressFamily>(
    dest: Destination,
    local_asn: u32,
    nht: Map<IpAddr, NhtEntry>,
    i: int,
) -> Contender {
    let c = slot(dest, i)->0;
    c.contender(assessed::<A>(c, local_asn, nht).igp_cost)
}

/// Whether there is an eligible candidate in a slot.
pub open spec fn eligible_slot<A: AddressFamily>(
    dest: Destination,
    local_asn: u32,
    nht: Map<IpAddr, NhtEntry>,
    i: int,
) -> bool {
    slot(dest, i) matches Some(c) && assessed::<A>(c, local_asn, nht).eligible()
}

/// If the multi-exit discriminators of all routes are compared and any two
/// eligible routes are told apart, the best route is preferred over every other
/// eligible one, in whatever order they were compared.
pub proof fn best_route_wins<A: AddressFamily>(
    dest: Destination,
    local_asn: u32,
    nht: Map<IpAddr, NhtEntry>,
    cfg: RouteSelectionCfg,
    n: nat,
)
    requires
        cfg.always_compare_med,
        decidable::<A>(dest, local_asn, nht, cfg),
        forall|i: int, j: int|
            #![trigger slot(dest, i), slot(dest, j)]
            i != j && eligible_slot::<A>(dest, local_asn, nht, i) && eligible_slot::<A>(dest, local_asn, nht, j)
                ==> distinguishable(
                assessed_contender::<A>(dest, local_asn, nht, i),
                assessed_contender::<A>(dest, local_asn, nht, j),
                cfg,
            ),
    ensures
        scan::<A>(dest, local_asn, nht, cfg, n).best matches Some(b) ==> eligible_slot::<A>(
            dest,
            local_asn,
            nht,
            b,
        ) && forall|j: int|
            0 <= j < n && j != b && #[trigger] eligible_slot::<A>(dest, local_asn, nht, j) ==> preferred(
                assessed_contender::<A>(dest, local_asn, nht, b),
                assessed_contender::<A>(dest, local_asn, nht, j),
                cfg,
            ),
    decreases n,
{
    scan_sound::<A>(dest, local_asn, nht, cfg, n);
    if n > 0 {
        let m = (n - 1) as nat;
        best_route_wins::<A>(dest, local_asn, nht, cfg, m);
        scan_sound::<A>(dest, local_asn, nht, cfg, m);
        let before = scan::<A>(dest, local_asn, nht, cfg, m);
        let after = scan::<A>(dest, local_asn, nht, cfg, n);
        let i = n - 1;
        if after.best is Some {
            let w = after.best->0;
            assert(after.states[w].eligible());
            assert(eligible_slot::<A>(dest, local_asn, nht, w));
            let x = assessed_contender::<A>(dest, local_asn, nht, w);
            assert forall|j: int|
                0 <= j < n && j != w && #[trigger] eligible_slot::<A>(dest, local_asn, nht, j) implies preferred(
                x,
                assessed_contender::<A>(dest, local_asn, nht, j),
                cfg,
            ) by {
                let z = assessed_contender::<A>(dest, local_asn, nht, j);
                if j < i {
                    assert(before.states[j].eligible());
                }
                if before.best is Some && eligible_slot::<A>(dest, local_asn, nht, i) {
                    let b = before.best->0;
                    let y = assessed_contender::<A>(dest, local_asn, nht, b);
                    let c = assessed_contender::<A>(dest, local_asn, nht, i);
                    assert(told_apart::<A>(dest, local_asn, nht, cfg, i));
                    assert(before.states[b].igp_cost == assessed::<A>(slot(dest, b)->0, local_asn, nht).igp_cost);
                    comparison_antisymmetric(c, y, cfg);
                    if w == i && j != b {
                        assert(slot(dest, i) is Some && slot(dest, j) is Some);
                        preference_transitive(c, y, z, cfg);
                    }
                }
            }
        }
    }
}

/// The destination with the selection states of its candidates replaced.
pub open spec fn selected(dest: Destination, old_dest: Destination, states: Seq<SelectionState>, n: int) -> bool {
    let keys = old_dest.adj_rib.keys();
    &&& dest.local == old_dest.local
    &&& dest.adj_rib.keys() == keys
    &&& dest.adj_rib@.dom() == old_dest.adj_rib@.dom()
    &&& forall|i: int|
        #![trigger keys[i]]
        0 <= i < keys.len() ==> dest.adj_rib@[keys[i]] == if i < n {
            old_dest.adj_rib@[keys[i]].with_selection(states[i])
        } else {
            old_dest.adj_rib@[keys[i]]
        }
    &&& dest.redistribute == match old_dest.redistribute {
        Some(r) => Some(
            if keys.len() < n {
                Redistribute { selection: states[keys.len() as int], ..r }
            } else {
                r
            },
        ),
        None => None,
    }
}

/// Whether the best candidate of a scan is the given one.
pub open spec fn best_is(dest: Destination, r: Scan, best: Option<(usize, BestRoute)>) -> bool {
    match best {
        Some((b, route)) => r.best == Some(b as int) && route == (slot(dest, b as int)->0).best(
            r.states[b as int].igp_cost,
        ),
        None => r.best is None,
    }
}

/// Assesses one candidate.
fn assess<A: AddressFamily>(cand: &Candidate, local_asn: u32, nht: &Table<IpAddr, NhtEntry>) -> (s: SelectionState)
    requires
        assessable(*cand, local_asn),
    ensures
        s == assessed::<A>(*cand, local_asn, nht@),
{
    let mut selection = cand.selection;
    selection.reject_reason = None;
    selection.ineligible_reason = None;

    // First, check if the route is eligible.
    if cand.attrs.base.value.as_path.contains(local_asn) {
        selection.ineligible_reason = Some(RouteIneligibleReason::AsLoop);
        return selection;
    }

    // Get interior cost to the route's nexthop.
    if !cand.origin.is_local() {
        let nexthop = A::nexthop_rx_extract(&cand.attrs.base.value);
        selection.igp_cost = match nht.get(&nexthop) {
            Some(entry) => entry.metric,
            None => None,
        };
        if selection.igp_cost.is_none() {
            selection.ineligible_reason = Some(RouteIneligibleReason::Unresolvable);
        }
    }
    selection
}

/// Replaces the selection state of the candidate in a slot.
fn set_slot_selection(dest: &mut Destination, i: usize, selection: SelectionState)
    requires
        i <= old(dest).adj_rib.keys().len(),
    ensures
        final(dest).local == old(dest).local,
        final(dest).adj_rib.keys() == old(dest).adj_rib.keys(),
        i < old(dest).adj_rib.keys().len() ==> {
            let k = old(dest).adj_rib.keys()[i as int];
            &&& old(dest).adj_rib@.contains_key(k)
            &&& final(dest).adj_rib@ == old(dest).adj_rib@.insert(k, old(dest).adj_rib@[k].with_selection(selection))
            &&& final(dest).redistribute == old(dest).redistribute
        },
        i == old(dest).adj_rib.keys().len() ==> {
            &&& final(dest).adj_rib == old(dest).adj_rib
            &&& final(dest).redistribute == match old(dest).redistribute {
                Some(r) => Some(Redistribute { selection, ..r }),
                None => None,
            }
        },
{
    if i < dest.adj_rib.len() {
        dest.adj_rib.value_at_mut(i).set_selection(selection);
    } else {
        if let Some(r) = &mut dest.redistribute {
            r.selection = selection;
        }
    }
}

/// The candidate in a slot.
fn slot_candidate(dest: &Destination, i: usize) -> (r: Option<Candidate>)
    requires
        i <= dest.adj_rib.keys().len(),
    ensures
        r == slot(*dest, i as int),
{
    if i < dest.adj_rib.len() {
        dest.adj_rib.value_at(i).candidate()
    } else {
        match &dest.redistribute {
            Some(r) => Some(
                Candidate {
                    origin: r.origin,
                    route_type: r.route_type,
                    attrs: share(&r.attrs),
                    last_modified: r.last_modified,
                    selection: r.selection,
                },
            ),
            None => None,
        }
    }
}

/// Marks the candidate in a slot as rejected.
fn reject_slot(
    dest: &mut Destination,
    b: usize,
    reason: RouteRejectReason,
    Ghost(d0): Ghost<Destination>,
    Ghost(states): Ghost<Seq<SelectionState>>,
)
    requires
        d0.adj_rib.keys_sorted(),
        selected(*old(dest), d0, states, states.len() as int),
        b < states.len() <= slot_count(d0),
        slot(d0, b as int) is Some,
    ensures
        selected(
            *final(dest),
            d0,
            states.update(b as int, SelectionState { reject_reason: Some(reason), ..states[b as int] }),
            states.len() as int,
        ),
{
    let ghost keys = d0.adj_rib.keys();
    proof {
        if b < keys.len() {
            assert(dest.adj_rib@[keys[b as int]] == d0.adj_rib@[keys[b as int]].with_selection(states[b as int]));
        }
    }
    let mut state = match slot_candidate(dest, b) {
        Some(c) => c.selection,
        None => SelectionState::default(),
    };
    assert(state == states[b as int]);
    state.reject_reason = Some(reason);
    let ghost d1 = *dest;
    set_slot_selection(dest, b, state);
    proof {
        let new_states = states.update(b as int, state);
        assert forall|j: int| #![trigger keys[j]] 0 <= j < keys.len() implies dest.adj_rib@[keys[j]] == (if j
            < states.len() {
            d0.adj_rib@[keys[j]].with_selection(new_states[j])
        } else {
            d0.adj_rib@[keys[j]]
        }) by {
            if b < keys.len() && j != b {
                assert(keys[j] != keys[b as int]);
            }
        }
        assert(dest.adj_rib@.dom() =~= d0.adj_rib@.dom());
    }
}

/// Records the selection state of the candidate in the next slot.
fn record_slot(
    dest: &mut Destination,
    i: usize,
    selection: SelectionState,
    Ghost(d0): Ghost<Destination>,
    Ghost(states): Ghost<Seq<SelectionState>>,
)
    requires
        d0.adj_rib.keys_sorted(),
        selected(*old(dest), d0, states, states.len() as int),
        i == states.len(),
        i < slot_count(d0),
    ensures
        selected(*final(dest), d0, states.push(selection), i + 1),
{
    let ghost keys = d0.adj_rib.keys();
    let ghost d1 = *dest;
    set_slot_selection(dest, i, selection);
    proof {
        let new_states = states.push(selection);
        assert forall|j: int| #![trigger keys[j]] 0 <= j < keys.len() implies dest.adj_rib@[keys[j]] == (if j < i + 1 {
            d0.adj_rib@[keys[j]].with_selection(new_states[j])
        } else {
            d0.adj_rib@[keys[j]]
        }) by {
            if i < keys.len() && j != i {
                assert(keys[j] != keys[i as int]);
            }
            if i < keys.len() && j == i {
                assert(d1.adj_rib@[keys[i as int]] == d0.adj_rib@[keys[i as int]]);
            }
        }
        assert(dest.adj_rib@.dom() =~= d0.adj_rib@.dom());
    }
}

/// Selects the best of the post-policy Adj-RIB-In routes and the redistributed
/// route of a destination, if any of them is eligible.
#[verifier::rlimit(100)]
pub fn best_path<A: AddressFamily>(
    dest: &mut Destination,
    local_asn: u32,
    nht: &Table<IpAddr, NhtEntry>,
    selection_cfg: &RouteSelectionCfg,
) -> (r: Option<BestRoute>)
    requires
        decidable::<A>(*old(dest), local_asn, nht@, *selection_cfg),
        old(dest).adj_rib.keys().len() < usize::MAX,
    ensures
        ({
            let s = scan::<A>(*old(dest), local_asn, nht@, *selection_cfg, slot_count(*old(dest)));
            &&& selected(*final(dest), *old(dest), s.states, slot_count(*old(dest)) as int)
            &&& r == match s.best {
                Some(b) => Some((slot(*old(dest), b)->0).best(s.states[b].igp_cost)),
                None => None,
            }
        }),
{
    let ghost d0 = *dest;
    let count = dest.adj_rib.len() + 1;
    let mut best: Option<(usize, BestRoute)> = None;
    let mut i: usize = 0;
    while i < count
        invariant
            i <= count,
            count == slot_count(d0),
            d0 == *old(dest),
            decidable::<A>(d0, local_asn, nht@, *selection_cfg),
            d0.adj_rib.keys_sorted(),
            selected(*dest, d0, scan::<A>(d0, local_asn, nht@, *selection_cfg, i as nat).states, i as int),
            best_is(d0, scan::<A>(d0, local_asn, nht@, *selection_cfg, i as nat), best),
        decreases count - i,
    {
        let ghost s = scan::<A>(d0, local_asn, nht@, *selection_cfg, i as nat);
        proof {
            scan_sound::<A>(d0, local_asn, nht@, *selection_cfg, i as nat);
            if i < d0.adj_rib.keys().len() {
                let k = d0.adj_rib.keys()[i as int];
                assert(dest.adj_rib@[k] == d0.adj_rib@[k]);
            }
            assert(slot(*dest, i as int) == slot(d0, i as int));
        }
        let cand = match slot_candidate(dest, i) {
            Some(cand) => cand,
            None => {
                record_slot(dest, i, SelectionState::default(), Ghost(d0), Ghost(s.states));
                i += 1;
                continue;
            },
        };
        let mut selection = assess::<A>(&cand, local_asn, nht);
        if !selection.is_eligible() {
            record_slot(dest, i, selection, Ghost(d0), Ghost(s.states));
            i += 1;
            continue;
        }
        let route = BestRoute {
            origin: cand.origin,
            route_type: cand.route_type,
            attrs: share(&cand.attrs),
            last_modified: cand.last_modified,
            igp_cost: selection.igp_cost,
        };

        // Compare the current route with the best route found so far.
        match best {
            None => {
                // Initialize the best route with the first eligible route.
                record_slot(dest, i, selection, Ghost(d0), Ghost(s.states));
                best = Some((i, route));
            },
            Some((b, best_route)) => {
                proof {
                    assert(told_apart::<A>(d0, local_asn, nht@, *selection_cfg, i as int));
                    assert(best_route.contender() == (slot(d0, b as int)->0).contender(s.states[b as int].igp_cost));
                    assert(route.contender() == cand.contender(selection.igp_cost));
                }
                match route.as_route_ref().compare(&best_route.as_route_ref(), selection_cfg, None) {
                    RouteCompare::Preferred(reason) => {
                        // Update the best route, as the current one is preferred.
                        reject_slot(dest, b, reason, Ghost(d0), Ghost(s.states));
                        let ghost states = s.states.update(
                            b as int,
                            SelectionState { reject_reason: Some(reason), ..s.states[b as int] },
                        );
                        record_slot(dest, i, selection, Ghost(d0), Ghost(states));
                        best = Some((i, route));
                    },
                    RouteCompare::LessPreferred(reason) => {
                        selection.reject_reason = Some(reason);
                        record_slot(dest, i, selection, Ghost(d0), Ghost(s.states));
                        best = Some((b, best_route));
                    },
                    _ => {
                        assert(false);
                        best = None;
                    },
                }
            },
        }
        i += 1;
    }
    match best {
        Some((_, route)) => Some(route),
        None => None,
    }
}

// ===== Loc-RIB =====

/// Whether a peer has a route that may be used together with the best route,
/// and whose next hop is the given address.
pub open spec fn multipath_nexthop<A: AddressFamily>(
    dest: Destination,
    best: BestRoute,
    cfg: RouteSelectionCfg,
    mpath: MultipathCfg,
    addr: IpAddr,
    i: int,
) -> bool {
    &&& 0 <= i < dest.adj_rib.keys().len()
    &&& slot(dest, i) matches Some(c) && {
        &&& c.selection.eligible()
        &&& comparison(c.contender(c.selection.igp_cost), best.contender(), cfg, Some(mpath))
            == RouteCompare::MultipathEqual
        &&& addr == A::nexthop_rx(c.attrs.attrs().base)
    }
}

/// The next hops of the routes that may be used together with the best route.
pub open spec fn multipath_nexthops<A: AddressFamily>(
    dest: Destination,
    best: BestRoute,
    cfg: RouteSelectionCfg,
    mpath: MultipathCfg,
    n: int,
) -> Set<IpAddr> {
    Set::new(|addr: IpAddr| exists|i: int| i < n && multipath_nexthop::<A>(dest, best, cfg, mpath, addr, i))
}

/// Whether a sequence holds the lowest addresses of a set, in ascending order,
/// and as many of them as allowed.
pub open spec fn lowest(v: Seq<IpAddr>, s: Set<IpAddr>, max: nat) -> bool {
    &&& v.len() <= max
    &&& forall|i: int, j: int| 0 <= i < j < v.len() ==> (#[trigger] v[i]).before(#[trigger] v[j])
    &&& forall|i: int| 0 <= i < v.len() ==> s.contains(#[trigger] v[i])
    &&& forall|x: IpAddr|
        #[trigger] s.contains(x) && !v.contains(x) ==> v.len() == max && forall|i: int|
            0 <= i < v.len() ==> (#[trigger] v[i]).before(x)
}

/// Whether the given next hops are those of a route that won the Decision
/// Process.
pub open spec fn nexthops_of<A: AddressFamily>(
    nexthops: Option<Seq<IpAddr>>,
    dest: Destination,
    best: BestRoute,
    cfg: RouteSelectionCfg,
    mpath: MultipathCfg,
) -> bool {
    if best.origin.local() {
        nexthops is None
    } else if !mpath.enabled {
        nexthops == Some(seq![A::nexthop_rx(best.attrs.attrs().base)])
    } else {
        nexthops is Some && lowest(
            nexthops->0,
            multipath_nexthops::<A>(dest, best, cfg, mpath, dest.adj_rib.keys().len() as int),
            match best.route_type {
                RouteType::Internal => mpath.ibgp_max_paths as nat,
                RouteType::External => mpath.ebgp_max_paths as nat,
            },
        )
    }
}

/// Whether the next hop of every route that a peer contributes is known.
pub open spec fn nexthops_known(dest: Destination) -> bool {
    forall|i: int|
        0 <= i < dest.adj_rib.keys().len() ==> ((#[trigger] slot(dest, i)) matches Some(c)
            ==> c.attrs.attrs().base.nexthop is Some)
}

/// The next hops of an optional list.
pub open spec fn opt_addrs(o: Option<Vec<IpAddr>>) -> Option<Seq<IpAddr>> {
    match o {
        Some(v) => Some(v@),
        None => None,
    }
}

proof fn code_order(a: IpAddr, b: IpAddr)
    requires
        lex_lt(IpAddr::code(a), IpAddr::code(b)),
    ensures
        a.before(b),
{
    reveal_with_fuel(lex_lt, 3);
    let (x, y) = (IpAddr::code(a), IpAddr::code(b));
    assert(x.skip(1)[0] == x[1]);
    assert(y.skip(1)[0] == y[1]);
}

pub fn compute_nexthops<A: AddressFamily>(
    dest: &Destination,
    best_route: &BestRoute,
    selection_cfg: &RouteSelectionCfg,
    mpath_cfg: &MultipathCfg,
) -> (r: Option<Vec<IpAddr>>)
    requires
        mpath_cfg.enabled && !best_route.origin.local() ==> nexthops_known(*dest),
        !best_route.origin.local() ==> best_route.attrs.attrs().base.nexthop is Some,
    ensures
        nexthops_of::<A>(opt_addrs(r), *dest, *best_route, *selection_cfg, *mpath_cfg),
{
    // Handle locally originated routes.
    if best_route.origin.is_local() {
        return None;
    }

    // If multipath isn't enabled, return the nexthop of the best route.
    if !mpath_cfg.enabled {
        let v = vec![A::nexthop_rx_extract(&best_route.attrs.base.value)];
        assert(v@ =~= seq![A::nexthop_rx(best_route.attrs.attrs().base)]);
        return Some(v);
    }

    // Otherwise, return as many ECMP nexthops as allowed by the configuration.
    let max_paths: u32 = match best_route.route_type {
        RouteType::Internal => mpath_cfg.ibgp_max_paths,
        RouteType::External => mpath_cfg.ebgp_max_paths,
    };
    let best_ref = best_route.as_route_ref();
    let mut nexthops: OrdSet<IpAddr> = OrdSet::new();
    let n = dest.adj_rib.len();
    let mut i: usize = 0;
    assert(nexthops@ =~= multipath_nexthops::<A>(*dest, *best_route, *selection_cfg, *mpath_cfg, 0));
    while i < n
        invariant
            i <= n,
            n == dest.adj_rib.keys().len(),
            nexthops_known(*dest),
            best_ref@ == best_route.contender(),
            nexthops@ == multipath_nexthops::<A>(*dest, *best_route, *selection_cfg, *mpath_cfg, i as int),
        decreases n - i,
    {
        let ghost before = nexthops@;
        let mut added: Option<IpAddr> = None;
        if let Some(adj_in) = dest.adj_rib.value_at(i).adj_in() {
            if let Some(post) = &adj_in.post {
                let route_ref = RouteRef {
                    origin: adj_in.origin,
                    route_type: adj_in.route_type,
                    base: &post.0.attrs.base.value,
                    igp_cost: post.1.igp_cost,
                };
                assert(slot(*dest, i as int) is Some);
                if post.1.is_eligible() && route_ref.compare(&best_ref, selection_cfg, Some(mpath_cfg))
                    == RouteCompare::MultipathEqual {
                    let nexthop = A::nexthop_rx_extract(&post.0.attrs.base.value);
                    added = Some(nexthop);
                    nexthops.insert(nexthop);
                }
            }
        }
        proof {
            let goal = multipath_nexthops::<A>(*dest, *best_route, *selection_cfg, *mpath_cfg, i + 1);
            assert forall|addr: IpAddr| goal.contains(addr) == (before.contains(addr) || added == Some(addr)) by {
                if before.contains(addr) {
                    let k = choose|k: int|
                        k < i && multipath_nexthop::<A>(*dest, *best_route, *selection_cfg, *mpath_cfg, addr, k);
                    assert(k < i + 1 && multipath_nexthop::<A>(
                        *dest,
                        *best_route,
                        *selection_cfg,
                        *mpath_cfg,
                        addr,
                        k,
                    ));
                }
                if added == Some(addr) {
                    assert(multipath_nexthop::<A>(
                        *dest,
                        *best_route,
                        *selection_cfg,
                        *mpath_cfg,
                        addr,
                        i as int,
                    ));
                }
                if goal.contains(addr) {
                    let k = choose|k: int|
                        k < i + 1 && multipath_nexthop::<A>(*dest, *best_route, *selection_cfg, *mpath_cfg, addr, k);
                    if k < i {
                        assert(before.contains(addr));
                    }
                }
            }
            assert(nexthops@ =~= goal);
        }
        i += 1;
    }
    let mut v = nexthops.to_vec();
    let ghost all = v@;
    if v.len() as u64 > max_paths as u64 {
        v.truncate(max_paths as usize);
    }
    proof {
        assert forall|i: int, j: int| 0 <= i < j < v@.len() implies (#[trigger] v@[i]).before(#[trigger] v@[j]) by {
            assert(v@[i] == all[i] && v@[j] == all[j]);
            assert(all[i]@ == nexthops.items()[i] && all[j]@ == nexthops.items()[j]);
            assert(lex_lt(IpAddr::code(nexthops.items()[i]), IpAddr::code(nexthops.items()[j])));
            code_order(all[i], all[j]);
        }
        assert forall|i: int| 0 <= i < v@.len() implies nexthops@.contains(#[trigger] v@[i]) by {
            assert(v@[i] == all[i]);
            assert(all[i]@ == nexthops.items()[i]);
            assert(nexthops.items().to_set().contains(nexthops.items()[i]));
        }
        assert forall|x: IpAddr| #[trigger] nexthops@.contains(x) && !v@.contains(x) implies v@.len() == max_paths
            && forall|i: int| 0 <= i < v@.len() ==> (#[trigger] v@[i]).before(x) by {
            assert(nexthops.items().to_set().contains(x));
            let k = choose|k: int| 0 <= k < nexthops.items().len() && nexthops.items()[k] == x;
            assert(all[k]@ == x);
            if k < v@.len() {
                assert(v@[k] == x);
            }
            assert forall|i: int| 0 <= i < v@.len() implies (#[trigger] v@[i]).before(x) by {
                assert(v@[i] == all[i]);
                assert(all[i]@ == nexthops.items()[i]);
                assert(lex_lt(IpAddr::code(nexthops.items()[i]), IpAddr::code(nexthops.items()[k])));
                code_order(all[i], x);
            }
        }
    }
    Some(v)
}

#[verifier::loop_isolation(false)]
fn same_addrs(a: &Option<Vec<IpAddr>>, b: &Option<Vec<IpAddr>>) -> (r: bool)
    ensures
        r == (opt_addrs(*a) == opt_addrs(*b)),
{
    match (a, b) {
        (None, None) => true,
        (Some(x), Some(y)) => {
            if x.len() != y.len() {
                return false;
            }
            let mut i: usize = 0;
            while i < x.len()
                invariant
                    i <= x@.len(),
                    x@.len() == y@.len(),
                    forall|j: int| 0 <= j < i ==> x@[j] == y@[j],
                decreases x@.len() - i,
            {
                if x[i] != y[i] {
                    return false;
                }
                i += 1;
            }
            assert(x@ =~= y@);
            true
        },
        _ => false,
    }
}

/// Whether a route of the Loc-RIB is the given route with the given next hops.
pub open spec fn unchanged(local: LocalRoute, best: BestRoute, nexthops: Option<Seq<IpAddr>>) -> bool {
    &&& local.origin == best.origin
    &&& local.attrs.spec_key() == best.attrs.spec_key()
    &&& local.attrs.attrs() == best.attrs.attrs()
    &&& local.route_type == best.route_type
    &&& opt_addrs(local.nexthops) == nexthops
}

/// Whether a route of the Loc-RIB was made of the given route.
pub open spec fn made_of(local: LocalRoute, best: BestRoute, nexthops: Option<Seq<IpAddr>>) -> bool {
    &&& local.origin == best.origin
    &&& local.attrs == best.attrs
    &&& local.route_type == best.route_type
    &&& local.last_modified == best.last_modified
    &&& opt_addrs(local.nexthops) == nexthops
}

/// The administrative distance of a route.
pub open spec fn distance(route_type: RouteType, cfg: DistanceCfg) -> u8 {
    match route_type {
        RouteType::Internal => cfg.internal,
        RouteType::External => cfg.external,
    }
}

/// What becomes of the Loc-RIB entry of a destination when its best route has
/// the given next hops.
pub open spec fn loc_rib_updated(
    prefix: IpNetwork,
    dest: Destination,
    old_dest: Destination,
    best: BestRoute,
    nexthops: Option<Seq<IpAddr>>,
    cfg: DistanceCfg,
    ibus: Seq<IbusMsg>,
    old_ibus: Seq<IbusMsg>,
    changed: bool,
) -> bool {
    if old_dest.local matches Some(l) && unchanged(*l, best, nexthops) {
        !changed && dest == old_dest && ibus == old_ibus
    } else {
        &&& changed
        &&& dest.adj_rib == old_dest.adj_rib
        &&& dest.redistribute == old_dest.redistribute
        &&& dest.local matches Some(l) && {
            &&& made_of(*l, best, nexthops)
            &&& ibus == if best.origin.local() {
                old_ibus
            } else {
                old_ibus.push(
                    IbusMsg::RouteInstall { prefix, route: l, distance: distance(best.route_type, cfg) },
                )
            }
        }
    }
}

/// The Loc-RIB entry of a destination changes exactly if its best route has
/// another origin, type or attributes than the entry, or other next hops.
pub proof fn loc_rib_changes_with_the_route(
    cxt: AttrSetsCxt,
    prefix: IpNetwork,
    dest: Destination,
    old_dest: Destination,
    best: BestRoute,
    nexthops: Option<Seq<IpAddr>>,
    cfg: DistanceCfg,
    ibus: Seq<IbusMsg>,
    old_ibus: Seq<IbusMsg>,
    changed: bool,
)
    requires
        cxt.wf(),
        old_dest.local matches Some(l) ==> cxt.shares(l.attrs),
        cxt.shares(best.attrs),
        loc_rib_updated(prefix, dest, old_dest, best, nexthops, cfg, ibus, old_ibus, changed),
    ensures
        changed <==> !(old_dest.local matches Some(l) && {
            &&& l.origin == best.origin
            &&& l.route_type == best.route_type
            &&& l.attrs.attrs() == best.attrs.attrs()
            &&& opt_addrs(l.nexthops) == nexthops
        }),
        !changed ==> dest == old_dest && ibus == old_ibus,
{
    assert forall|a: Arc<RouteAttrs>| #[trigger] cxt.shares(a) implies (a.spec_key() == best.attrs.spec_key()
        <==> a.attrs() == best.attrs.attrs()) by {
        keys_identify(cxt, a, best.attrs);
    }
}

/// Updates the Loc-RIB entry of the given destination, returning whether the
/// entry has changed.
pub fn loc_rib_update<A: AddressFamily>(
    prefix: IpNetwork,
    dest: &mut Destination,
    best_route: Option<BestRoute>,
    selection_cfg: &RouteSelectionCfg,
    mpath_cfg: &MultipathCfg,
    distance_cfg: &DistanceCfg,
    ibus: &mut Vec<IbusMsg>,
) -> (changed: bool)
    requires
        best_route matches Some(b) ==> (mpath_cfg.enabled && !b.origin.local() ==> nexthops_known(*old(dest))),
        best_route matches Some(b) ==> (b.origin.local() || b.attrs.attrs().base.nexthop is Some),
    ensures
        best_route matches Some(b) ==> exists|nexthops: Option<Seq<IpAddr>>|
            #[trigger] nexthops_of::<A>(nexthops, *old(dest), b, *selection_cfg, *mpath_cfg) && loc_rib_updated(
                prefix,
                *final(dest),
                *old(dest),
                b,
                nexthops,
                *distance_cfg,
                final(ibus)@,
                old(ibus)@,
                changed,
            ),
        best_route is None ==> {
            &&& changed == old(dest).local is Some
            &&& *final(dest) == (Destination { local: None, ..*old(dest) })
            &&& final(ibus)@ == if old(dest).local matches Some(l) && !l.origin.local() {
                old(ibus)@.push(IbusMsg::RouteUninstall { prefix })
            } else {
                old(ibus)@
            }
        },
{
    if let Some(best_route) = best_route {
        // Compute route nexthops, considering multipath configuration.
        let nexthops = compute_nexthops::<A>(dest, &best_route, selection_cfg, mpath_cfg);
        let ghost list = opt_addrs(nexthops);

        // Return early if no change in Loc-RIB is needed.
        if let Some(local_route) = &dest.local {
            if local_route.origin == best_route.origin && local_route.attrs.same(&best_route.attrs)
                && local_route.route_type == best_route.route_type && same_addrs(&local_route.nexthops, &nexthops) {
                assert(nexthops_of::<A>(list, *old(dest), best_route, *selection_cfg, *mpath_cfg));
                return false;
            }
        }

        // Create new local route.
        let local_route = Arc::new(
            LocalRoute {
                origin: best_route.origin,
                attrs: share(&best_route.attrs),
                route_type: best_route.route_type,
                last_modified: best_route.last_modified,
                nexthops,
            },
        );

        // Install local route in the global RIB.
        if !local_route.origin.is_local() {
            let distance = match best_route.route_type {
                RouteType::Internal => distance_cfg.internal,
                RouteType::External => distance_cfg.external,
            };
            ibus.push(IbusMsg::RouteInstall { prefix, route: share(&local_route), distance });
        }

        // Insert local route into the Loc-RIB.
        dest.local = Some(local_route);
        assert(nexthops_of::<A>(list, *old(dest), best_route, *selection_cfg, *mpath_cfg));
        true
    } else {
        // Remove route from the Loc-RIB, returning early if there's nothing
        // to remove.
        match dest.local.take() {
            None => false,
            Some(local_route) => {
                // Uninstall route from the global RIB.
                if !local_route.origin.is_local() {
                    ibus.push(IbusMsg::RouteUninstall { prefix });
                }
                true
            },
        }
    }
}

// ===== attribute updates =====

/// The attributes of a route before they are added to a neighbor's pre-policy
/// Adj-RIB-Out.
pub open spec fn exported<A: AddressFamily>(attrs: AttrsView, nbr: Session, local: bool) -> AttrsView {
    let base = match nbr.peer_type {
        PeerType::Internal => BaseAttrsView {
            local_pref: Some(attrs.base.local_pref.unwrap_or(DFLT_LOCAL_PREF)),
            ..attrs.base
        },
        PeerType::External => BaseAttrsView { med: None, local_pref: None, ..attrs.base },
    };
    AttrsView { base: A::nexthop_tx(nbr, local, base), ..attrs }
}

/// Updates route attributes before they are added to the neighbor's pre-policy
/// Adj-RIB-Out. Export policies operate on the result of these updates and may
/// overwrite any of them.
pub fn attrs_export_update<A: AddressFamily>(attrs: &mut Attrs, nbr: &Session, local: bool)
    requires
        nbr.conn_info is Some,
    ensures
        final(attrs)@ == exported::<A>(old(attrs)@, *nbr, local),
{
    match nbr.peer_type {
        PeerType::Internal => {
            // Attach LOCAL_PREF with default value if it's missing.
            if attrs.base.local_pref.is_none() {
                attrs.base.local_pref = Some(DFLT_LOCAL_PREF);
            }
        },
        PeerType::External => {
            // Do not propagate the MULTI_EXIT_DISC attribute.
            attrs.base.med = None;

            // Remove the LOCAL_PREF attribute.
            attrs.base.local_pref = None;
        },
    }

    // Update the next-hop attribute based on the address family if necessary.
    A::nexthop_tx_change(nbr, local, &mut attrs.base);
}

/// The attributes of a route as they are sent to a neighbor.
pub open spec fn transmitted(attrs: AttrsView, nbr: Session, local_asn: u32) -> AttrsView {
    match nbr.peer_type {
        PeerType::Internal => attrs,
        PeerType::External => AttrsView {
            base: BaseAttrsView {
                as_path: path_prepend(attrs.base.as_path, local_asn),
                local_pref: None,
                ..attrs.base
            },
            ..attrs
        },
    }
}

/// Updates route attributes at transmission time, after export policies were
/// applied. These updates are mandatory and can't be overwritten by policies.
pub fn attrs_tx_update(attrs: &mut Attrs, nbr: &Session, local_asn: u32)
    ensures
        final(attrs)@ == transmitted(old(attrs)@, *nbr, local_asn),
{
    if let PeerType::External = nbr.peer_type {
        // Prepend local AS number.
        attrs.base.as_path.prepend(local_asn);

        // Remove the LOCAL_PREF attribute in case an export policy has set
        // it, as it can't be sent to external peers.
        attrs.base.local_pref = None;
    }
}

/// LOCAL_PREF is never sent to an external peer, whatever the export policies
/// have set, and the local AS comes first in the path.
pub proof fn external_peers_get_no_local_pref(attrs: AttrsView, nbr: Session, local_asn: u32)
    requires
        nbr.peer_type == PeerType::External,
    ensures
        transmitted(attrs, nbr, local_asn).base.local_pref is None,
        path_first(transmitted(attrs, nbr, local_asn).base.as_path) == Some(local_asn),
{
}

// ===== nexthop tracking =====

/// The number of routes of a prefix that use a next hop.
pub open spec fn uses(nht: Map<IpAddr, NhtView>, addr: IpAddr, prefix: IpNetwork) -> nat {
    if nht.contains_key(addr) && nht[addr].prefixes.contains_key(prefix) {
        nht[addr].prefixes[prefix] as nat
    } else {
        0
    }
}

/// Whether exactly the next hops that some route uses are watched.
pub open spec fn nht_wf(nht: Map<IpAddr, NhtView>) -> bool {
    &&& forall|addr: IpAddr, prefix: IpNetwork|
        #![trigger nht[addr].prefixes.contains_key(prefix)]
        nht.contains_key(addr) && nht[addr].prefixes.contains_key(prefix) ==> nht[addr].prefixes[prefix] >= 1
    &&& forall|addr: IpAddr|
        #![trigger nht.contains_key(addr)]
        nht.contains_key(addr) ==> exists|prefix: IpNetwork| nht[addr].prefixes.contains_key(prefix)
}

/// The watched next hops with one more use. One that was not watched starts
/// unresolved.
pub open spec fn use_added(nht: Map<IpAddr, NhtView>, prefix: IpNetwork, addr: IpAddr) -> Map<IpAddr, NhtView> {
    let entry = if nht.contains_key(addr) {
        nht[addr]
    } else {
        NhtView { metric: None, prefixes: Map::empty() }
    };
    nht.insert(
        addr,
        NhtView { prefixes: entry.prefixes.insert(prefix, (uses(nht, addr, prefix) + 1) as u32), ..entry },
    )
}

/// The watched next hops with one use less. One without any use left is no
/// longer watched.
pub open spec fn use_dropped(nht: Map<IpAddr, NhtView>, prefix: IpNetwork, addr: IpAddr) -> Map<IpAddr, NhtView> {
    let n = uses(nht, addr, prefix);
    if n == 0 {
        nht
    } else {
        let prefixes = if n > 1 {
            nht[addr].prefixes.insert(prefix, (n - 1) as u32)
        } else {
            nht[addr].prefixes.remove(prefix)
        };
        if prefixes.dom() =~= Set::<IpNetwork>::empty() {
            nht.remove(addr)
        } else {
            nht.insert(addr, NhtView { prefixes, ..nht[addr] })
        }
    }
}

/// The messages about a next hop that starts to be watched.
pub open spec fn use_added_msgs(nht: Map<IpAddr, NhtView>, addr: IpAddr) -> Seq<IbusMsg> {
    if nht.contains_key(addr) {
        Seq::empty()
    } else {
        seq![IbusMsg::NexthopTrack { addr }]
    }
}

/// The messages about a next hop that ceases to be watched.
pub open spec fn use_dropped_msgs(nht: Map<IpAddr, NhtView>, prefix: IpNetwork, addr: IpAddr) -> Seq<IbusMsg> {
    if nht.contains_key(addr) && !use_dropped(nht, prefix, addr).contains_key(addr) {
        seq![IbusMsg::NexthopUntrack { addr }]
    } else {
        Seq::empty()
    }
}

/// Adding a use keeps the next hops well-formed.
pub proof fn use_added_wf(nht: Map<IpAddr, NhtView>, prefix: IpNetwork, addr: IpAddr)
    requires
        nht_wf(nht),
        uses(nht, addr, prefix) < u32::MAX,
    ensures
        nht_wf(use_added(nht, prefix, addr)),
{
    let after = use_added(nht, prefix, addr);
    assert forall|a: IpAddr| #![trigger after.contains_key(a)] after.contains_key(a) implies exists|p: IpNetwork|
        after[a].prefixes.contains_key(p) by {
        if a == addr {
            assert(after[a].prefixes.contains_key(prefix));
        } else {
            assert(nht.contains_key(a));
            let p = choose|p: IpNetwork| nht[a].prefixes.contains_key(p);
            assert(after[a].prefixes.contains_key(p));
        }
    }
    assert forall|a: IpAddr, p: IpNetwork|
        #![trigger after[a].prefixes.contains_key(p)]
        after.contains_key(a) && after[a].prefixes.contains_key(p) implies after[a].prefixes[p] >= 1 by {
        if !(a == addr && p == prefix) {
            assert(nht.contains_key(a) ==> (nht[a].prefixes.contains_key(p) ==> nht[a].prefixes[p] >= 1));
        }
    }
}

/// Dropping a use keeps the next hops well-formed.
pub proof fn use_dropped_wf(nht: Map<IpAddr, NhtView>, prefix: IpNetwork, addr: IpAddr)
    requires
        nht_wf(nht),
    ensures
        nht_wf(use_dropped(nht, prefix, addr)),
{
    let after = use_dropped(nht, prefix, addr);
    assert forall|a: IpAddr| #![trigger after.contains_key(a)] after.contains_key(a) implies exists|p: IpNetwork|
        after[a].prefixes.contains_key(p) by {
        assert(nht.contains_key(a));
        if a != addr || after == nht {
            let p = choose|p: IpNetwork| nht[a].prefixes.contains_key(p);
            assert(after[a].prefixes.contains_key(p));
        } else if !(exists|p: IpNetwork| after[a].prefixes.contains_key(p)) {
            assert(after[a].prefixes.dom() =~= Set::<IpNetwork>::empty());
        }
    }
    assert forall|a: IpAddr, p: IpNetwork|
        #![trigger after[a].prefixes.contains_key(p)]
        after.contains_key(a) && after[a].prefixes.contains_key(p) implies after[a].prefixes[p] >= 1 by {
        assert(nht[a].prefixes.contains_key(p) ==> nht[a].prefixes[p] >= 1);
    }
}

/// Giving up a use right after adding it leaves the next hops as they were.
pub proof fn untrack_undoes_track(nht: Map<IpAddr, NhtView>, prefix: IpNetwork, addr: IpAddr)
    requires
        nht_wf(nht),
        uses(nht, addr, prefix) < u32::MAX,
    ensures
        use_dropped(use_added(nht, prefix, addr), prefix, addr) == nht,
{
    let during = use_added(nht, prefix, addr);
    let after = use_dropped(during, prefix, addr);
    assert(uses(during, addr, prefix) == uses(nht, addr, prefix) + 1);
    if nht.contains_key(addr) {
        let p = choose|p: IpNetwork| nht[addr].prefixes.contains_key(p);
        if uses(nht, addr, prefix) == 0 {
            if nht[addr].prefixes.contains_key(prefix) {
                assert(nht[addr].prefixes[prefix] >= 1);
            }
            assert(during[addr].prefixes.remove(prefix) =~= nht[addr].prefixes);
            assert(nht[addr].prefixes.dom().contains(p));
        } else {
            assert(during[addr].prefixes.insert(prefix, nht[addr].prefixes[prefix]) =~= nht[addr].prefixes);
            assert(nht[addr].prefixes.dom().contains(p));
        }
        assert(after =~= nht);
    } else {
        assert(during[addr].prefixes.remove(prefix).dom() =~= Set::<IpNetwork>::empty());
        assert(after =~= nht);
    }
}

/// Records that a route of a prefix uses a next hop.
pub fn nexthop_track(
    nht: &mut Table<IpAddr, NhtEntry>,
    prefix: IpNetwork,
    addr: IpAddr,
    ibus: &mut Vec<IbusMsg>,
)
    requires
        uses(views(old(nht)@), addr, prefix) < u32::MAX,
    ensures
        views(final(nht)@) == use_added(views(old(nht)@), prefix, addr),
        final(ibus)@ == old(ibus)@ + use_added_msgs(views(old(nht)@), addr),
{
    let ghost before = nht@;
    if !nht.contains_key(&addr) {
        ibus.push(IbusMsg::NexthopTrack { addr });
        nht.insert(addr, NhtEntry { metric: None, prefixes: Table::new() });
    }
    let ghost mid = nht@;
    if let Some(entry) = nht.get_mut(&addr) {
        let count: u32 = match entry.prefixes.get(&prefix) {
            Some(count) => *count,
            None => 0,
        };
        entry.prefixes.insert(prefix, count + 1);
    }
    proof {
        let after = views(nht@);
        let want = use_added(views(before), prefix, addr);
        assert(after.dom() =~= want.dom());
        assert(after[addr] == want[addr]) by {
            assert(after[addr].prefixes =~= want[addr].prefixes);
        }
        assert(after =~= want);
        assert(ibus@ =~= old(ibus)@ + use_added_msgs(views(before), addr));
    }
}

/// Records that a route of a prefix no longer uses a next hop.
pub fn nexthop_untrack(
    nht: &mut Table<IpAddr, NhtEntry>,
    prefix: &IpNetwork,
    addr: IpAddr,
    ibus: &mut Vec<IbusMsg>,
)
    requires
        nht_wf(views(old(nht)@)),
    ensures
        views(final(nht)@) == use_dropped(views(old(nht)@), *prefix, addr),
        final(ibus)@ == old(ibus)@ + use_dropped_msgs(views(old(nht)@), *prefix, addr),
{
    let ghost before = nht@;
    let ghost view = views(before);
    assert(ibus@ =~= ibus@ + Seq::<IbusMsg>::empty());
    let entry = match nht.get_mut(&addr) {
        Some(entry) => entry,
        None => {
            return;
        },
    };
    let count: u32 = match entry.prefixes.get(prefix) {
        Some(count) => *count,
        None => {
            assert(before.insert(addr, before[addr]) =~= before);
            return;
        },
    };
    assert(view[addr].prefixes.contains_key(*prefix));
    if count > 1 {
        entry.prefixes.insert(*prefix, count - 1);
        proof {
            let left = view[addr].prefixes.insert(*prefix, (count - 1) as u32);
            assert(left.dom().contains(*prefix));
            assert(uses(view, addr, *prefix) == count);
            assert(views(nht@) =~= use_dropped(view, *prefix, addr));
        }
        return;
    }
    entry.prefixes.remove(prefix);
    let gone = entry.prefixes.len() == 0;
    let ghost left = entry.prefixes@;
    proof {
        assert(left == before[addr].prefixes@.remove(*prefix));
        if gone {
            assert forall|p: IpNetwork| !left.contains_key(p) by {
                assert(!entry.prefixes.keys().contains(p));
                assert(entry.prefixes.keys().to_set().contains(p) == left.dom().contains(p));
            }
            assert(left.dom() =~= Set::<IpNetwork>::empty());
        } else {
            let k = entry.prefixes.keys()[0];
            assert(entry.prefixes.keys().to_set().contains(k));
            assert(left.dom().contains(k));
        }
    }
    if gone {
        ibus.push(IbusMsg::NexthopUntrack { addr });
        nht.remove(&addr);
    }
    proof {
        assert(views(nht@) =~= use_dropped(view, *prefix, addr));
        assert(ibus@ =~= old(ibus)@ + use_dropped_msgs(view, *prefix, addr));
    }
}

/// The watched next hops after a route has moved from its old next hop, if it
/// had one, to another.
pub open spec fn use_moved(
    nht: Map<IpAddr, NhtView>,
    prefix: IpNetwork,
    old_addr: Option<IpAddr>,
    addr: IpAddr,
) -> Map<IpAddr, NhtView> {
    match old_addr {
        Some(o) => if o == addr {
            nht
        } else {
            use_dropped(use_added(nht, prefix, addr), prefix, o)
        },
        None => use_added(nht, prefix, addr),
    }
}

/// The messages about the next hops of a route that has moved.
pub open spec fn use_moved_msgs(
    nht: Map<IpAddr, NhtView>,
    prefix: IpNetwork,
    old_addr: Option<IpAddr>,
    addr: IpAddr,
) -> Seq<IbusMsg> {
    match old_addr {
        Some(o) => if o == addr {
            Seq::empty()
        } else {
            use_added_msgs(nht, addr) + use_dropped_msgs(use_added(nht, prefix, addr), prefix, o)
        },
        None => use_added_msgs(nht, addr),
    }
}

/// Moves the use of a next hop by a route from the old next hop, if there was
/// one, to the new one.
pub fn nexthop_retrack(
    nht: &mut Table<IpAddr, NhtEntry>,
    prefix: IpNetwork,
    old_addr: Option<IpAddr>,
    addr: IpAddr,
    ibus: &mut Vec<IbusMsg>,
)
    requires
        nht_wf(views(old(nht)@)),
        uses(views(old(nht)@), addr, prefix) < u32::MAX,
    ensures
        views(final(nht)@) == use_moved(views(old(nht)@), prefix, old_addr, addr),
        final(ibus)@ == old(ibus)@ + use_moved_msgs(views(old(nht)@), prefix, old_addr, addr),
{
    if let Some(old_addr) = old_addr {
        if old_addr == addr {
            assert(ibus@ =~= ibus@ + Seq::<IbusMsg>::empty());
            return;
        }
    }
    proof {
        use_added_wf(views(nht@), prefix, addr);
    }
    nexthop_track(nht, prefix, addr, ibus);
    if let Some(old_addr) = old_addr {
        nexthop_untrack(nht, &prefix, old_addr, ibus);
        assert(ibus@ =~= old(ibus)@ + use_moved_msgs(views(old(nht)@), prefix, Some(old_addr), addr));
    }
}

} // verus!
