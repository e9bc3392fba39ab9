//! Processing of events.

use std::sync::Arc;

use vstd::prelude::*;

use crate::bgp::af::{AddressFamily, Ipv4Unicast, Ipv6Unicast};
use crate::bgp::attribute::{path_replace, AttrValue, Attrs, AttrsView, BaseAttrsView};
use crate::bgp::configuration::{
    ApplyPolicyCfg, ApplyPolicyCfgView, MessageType, Neighbor, NeighborCfg, NeighborCfgView, NeighborView,
};
use crate::bgp::intern::{
    all_shared, got, got_all, got_more, got_none, interning_keeps_shared, interning_shares, keeps_shared, spends,
    spends_less, RouteAttrs,
};
use crate::bgp::neighbor::{
    MpReachNlri, MpReachView, MpUnreachNlri, MpUnreachView, Session, State, UpdateMsg, UpdateView,
};
use crate::bgp::policy::{
    DefaultPolicyType, MatchSets, Policy, PolicyGroup, PolicyResult, PolicyType, RoutePolicyInfo, RoutePolicyView,
};
use crate::bgp::rib::{
    nexthop_retrack, nexthop_untrack, nht_wf, use_added, use_added_wf, use_dropped, use_dropped_msgs,
    use_dropped_wf,
    use_moved, use_moved_msgs, uses, AdjRib, Destination, DestinationView, IbusMsg, NhtView, PrefixCounters, Rib,
    Route, RouteOrigin, RoutingTable, SelectionState, TableView,
};
use crate::bgp::types::{AfiSafi, Instant, PeerIndex, PeerType, RouteType};
use crate::collections::{views, views_insert, OrdSet, Table};
use crate::ip::{IpAddr, IpNetwork};
use crate::sync::share;

verus! {

/// Policies and the sets that they match against.
pub struct Shared {
    pub policies: Table<String, Arc<Policy>>,
    pub match_sets: Arc<MatchSets>,
}

/// A request to apply policies to prefixes that share attributes.
pub struct PolicyApplyMsg {
    pub policy_type: PolicyType,
    pub nbr_addr: IpAddr,
    pub afi_safi: AfiSafi,
    pub route: RoutePolicyInfo,
    pub prefixes: Vec<IpNetwork>,
    pub policies: Vec<Arc<Policy>>,
    pub match_sets: Arc<MatchSets>,
    pub default_policy: DefaultPolicyType,
}

pub struct PolicyApplyView {
    pub policy_type: PolicyType,
    pub nbr_addr: IpAddr,
    pub afi_safi: AfiSafi,
    pub route: RoutePolicyView,
    pub prefixes: Seq<IpNetwork>,
    pub policies: Seq<Arc<Policy>>,
    pub match_sets: Arc<MatchSets>,
    pub default_policy: DefaultPolicyType,
}

impl View for PolicyApplyMsg {
    type V = PolicyApplyView;

    open spec fn view(&self) -> PolicyApplyView {
        PolicyApplyView {
            policy_type: self.policy_type,
            nbr_addr: self.nbr_addr,
            afi_safi: self.afi_safi,
            route: self.route@,
            prefixes: self.prefixes@,
            policies: self.policies@,
            match_sets: self.match_sets,
            default_policy: self.default_policy,
        }
    }
}

// ===== policy configuration =====

/// The policies that apply to a neighbor in an address family: those of the
/// address family if it is configured, otherwise those of the neighbor.
pub open spec fn apply_policy_of(config: NeighborCfgView, afi_safi: AfiSafi) -> ApplyPolicyCfgView {
    if config.afi_safi.contains_key(afi_safi) {
        config.afi_safi[afi_safi].apply_policy
    } else {
        config.apply_policy
    }
}

pub(crate) fn get_apply_policy<'a>(config: &'a NeighborCfg, afi_safi: AfiSafi) -> (r: &'a ApplyPolicyCfg)
    ensures
        r@ == apply_policy_of(config@, afi_safi),
{
    match config.afi_safi.get(&afi_safi) {
        Some(cfg) => &cfg.apply_policy,
        None => &config.apply_policy,
    }
}

/// Whether the listed policies are those of the given names, in the order of
/// the names.
pub open spec fn policies_named(policies: Seq<Arc<Policy>>, names: OrdSet<String>, shared: Shared) -> bool {
    &&& policies.len() == names.items().len()
    &&& forall|i: int|
        0 <= i < policies.len() ==> #[trigger] policies[i] == shared.policies@[names.items()[i]]
}

/// Whether the import policies of a neighbor exist.
pub open spec fn import_policies_known(config: NeighborCfgView, afi_safi: AfiSafi, shared: Shared) -> bool {
    let cfg = apply_policy_of(config, afi_safi);
    forall|name: Seq<char>| #[trigger] cfg.import_policy.contains(name) ==> shared.policies@.contains_key(name)
}

/// Whether the export policies of a neighbor exist.
pub open spec fn export_policies_known(config: NeighborCfgView, afi_safi: AfiSafi, shared: Shared) -> bool {
    let cfg = apply_policy_of(config, afi_safi);
    forall|name: Seq<char>| #[trigger] cfg.export_policy.contains(name) ==> shared.policies@.contains_key(name)
}

pub(crate) fn get_policies(names: &OrdSet<String>, shared: &Shared) -> (r: Vec<Arc<Policy>>)
    requires
        forall|name: Seq<char>| #[trigger] names@.contains(name) ==> shared.policies@.contains_key(name),
    ensures
        policies_named(r@, *names, *shared),
{
    let mut r: Vec<Arc<Policy>> = Vec::new();
    let n = names.len();
    let mut i: usize = 0;
    while i < n
        invariant
            i <= n,
            n == names.items().len(),
            names.items_sorted(),
            forall|name: Seq<char>| #[trigger] names@.contains(name) ==> shared.policies@.contains_key(name),
            r@.len() == i,
            forall|j: int| 0 <= j < i ==> #[trigger] r@[j] == shared.policies@[names.items()[j]],
        decreases n - i,
    {
        let name = names.at(i);
        assert(names.items().to_set().contains(names.items()[i as int]));
        if let Some(policy) = shared.policies.get(name) {
            r.push(share(policy));
        }
        i += 1;
    }
    r
}

// ===== received prefixes =====

/// The type of the routes of a neighbor.
pub open spec fn route_type_of(peer_type: PeerType) -> RouteType {
    match peer_type {
        PeerType::Internal => RouteType::Internal,
        PeerType::External => RouteType::External,
    }
}

/// The origin of the routes of a neighbor.
pub open spec fn origin_of(nbr: Session) -> RouteOrigin {
    RouteOrigin::Neighbor { identifier: nbr.identifier->0, remote_addr: nbr.remote_addr }
}

/// The attributes of routes as they are stored for a neighbor. Occurrences of
/// its AS may be replaced by the local one.
pub open spec fn received(attrs: AttrsView, config: NeighborCfgView, local_asn: u32) -> AttrsView {
    if config.as_path_options.replace_peer_as {
        AttrsView {
            base: BaseAttrsView { as_path: path_replace(attrs.base.as_path, config.peer_as, local_asn), ..attrs.base },
            ..attrs
        }
    } else {
        attrs
    }
}

/// Whether a network is among those that prefixes stand for.
pub open spec fn listed(prefixes: Seq<IpNetwork>, net: IpNetwork) -> bool {
    exists|i: int| 0 <= i < prefixes.len() && (#[trigger] prefixes[i]).masked() == net
}

pub open spec fn all_valid(prefixes: Seq<IpNetwork>) -> bool {
    forall|i: int| 0 <= i < prefixes.len() ==> (#[trigger] prefixes[i]).valid()
}

/// A destination without routes.
pub open spec fn no_routes() -> DestinationView {
    DestinationView { local: None, adj_rib: Map::empty(), redistribute: None }
}

/// What is known of a network.
pub open spec fn dest_of(prefixes: Map<IpNetwork, DestinationView>, net: IpNetwork) -> DestinationView {
    if prefixes.contains_key(net) {
        prefixes[net]
    } else {
        no_routes()
    }
}

/// The routes that are kept of a neighbor.
pub open spec fn adj_rib_of(dest: DestinationView, index: PeerIndex) -> AdjRib {
    if dest.adj_rib.contains_key(index) {
        dest.adj_rib[index]
    } else {
        AdjRib { adj_in: None, adj_out: None }
    }
}

pub open spec fn with_adj_rib(dest: DestinationView, index: PeerIndex, adj_rib: AdjRib) -> DestinationView {
    DestinationView { adj_rib: dest.adj_rib.insert(index, adj_rib), ..dest }
}

/// The counters with an entry for a neighbor.
pub open spec fn counted(counters: Map<PeerIndex, PrefixCounters>, index: PeerIndex) -> Map<PeerIndex, PrefixCounters> {
    if counters.contains_key(index) {
        counters
    } else {
        counters.insert(index, PrefixCounters { installed: 0 })
    }
}

pub(crate) fn add_counters(counters: &mut Table<PeerIndex, PrefixCounters>, index: PeerIndex)
    ensures
        final(counters)@ == counted(old(counters)@, index),
{
    if !counters.contains_key(&index) {
        counters.insert(index, PrefixCounters { installed: 0 });
    }
}

/// The table after the pre-policy routes of a neighbor to one network were
/// updated.
pub open spec fn reach_one(
    t: TableView,
    index: PeerIndex,
    prefix: IpNetwork,
    origin: RouteOrigin,
    route_type: RouteType,
    route: Route,
) -> TableView {
    let k = prefix.masked();
    let dest = dest_of(t.prefixes, k);
    let adj_rib = adj_rib_of(dest, index).with_in_pre(origin, route_type, route);
    TableView { prefixes: t.prefixes.insert(k, with_adj_rib(dest, index, adj_rib)), ..t }
}

/// The table after the pre-policy routes of a neighbor were updated, one
/// network after the other.
pub open spec fn reach_all(
    t: TableView,
    index: PeerIndex,
    prefixes: Seq<IpNetwork>,
    origin: RouteOrigin,
    route_type: RouteType,
    route: Route,
) -> TableView
    decreases prefixes.len(),
{
    if prefixes.len() == 0 {
        TableView { prefix_counters: counted(t.prefix_counters, index), ..t }
    } else {
        reach_one(
            reach_all(t, index, prefixes.drop_last(), origin, route_type, route),
            index,
            prefixes.last(),
            origin,
            route_type,
            route,
        )
    }
}

/// Stores the pre-policy route of a neighbor to one network.
fn store_reach(
    table: &mut RoutingTable,
    index: PeerIndex,
    prefix: &IpNetwork,
    origin: RouteOrigin,
    route_type: RouteType,
    route: Route,
)
    requires
        prefix.valid(),
    ensures
        final(table)@ == reach_one(old(table)@, index, *prefix, origin, route_type, route),
{
    let ghost t0 = *table;
    let ghost k = prefix.masked();
    if !table.prefixes.contains_key(prefix) {
        table.prefixes.insert(prefix, Destination::default());
    }
    let ghost mid = table.prefixes@;
    if let Some(dest) = table.prefixes.get_mut(prefix) {
        let ghost d0 = *dest;
        if !dest.adj_rib.contains_key(&index) {
            dest.adj_rib.insert(index, AdjRib::default());
        }
        if let Some(adj_rib) = dest.adj_rib.get_mut(&index) {
            adj_rib.update_in_pre(origin, route_type, route);
        }
        proof {
            let want = with_adj_rib(
                dest_of(t0@.prefixes, k),
                index,
                adj_rib_of(dest_of(t0@.prefixes, k), index).with_in_pre(origin, route_type, route),
            );
            assert(dest@.adj_rib =~= want.adj_rib);
            assert(dest@ == want);
            views_insert(mid, k, *dest);
        }
    }
    proof {
        assert(table@.prefixes =~= reach_one(t0@, index, *prefix, origin, route_type, route).prefixes);
    }
}

/// Stores the pre-policy routes of a neighbor.
fn store_reach_all(
    table: &mut RoutingTable,
    index: PeerIndex,
    prefixes: &Vec<IpNetwork>,
    origin: RouteOrigin,
    route_type: RouteType,
    route_attrs: &Arc<RouteAttrs>,
    now: Instant,
)
    requires
        all_valid(prefixes@),
    ensures
        final(table)@ == reach_all(
            old(table)@,
            index,
            prefixes@,
            origin,
            route_type,
            Route { attrs: *route_attrs, last_modified: now },
        ),
{
    let ghost t0 = table@;
    let ghost route = Route { attrs: *route_attrs, last_modified: now };
    add_counters(&mut table.prefix_counters, index);
    let mut i: usize = 0;
    assert(prefixes@.take(0) =~= Seq::empty());
    while i < prefixes.len()
        invariant
            i <= prefixes@.len(),
            all_valid(prefixes@),
            route == (Route { attrs: *route_attrs, last_modified: now }),
            table@ == reach_all(t0, index, prefixes@.take(i as int), origin, route_type, route),
        decreases prefixes@.len() - i,
    {
        let r = Route::new(share(route_attrs), now);
        store_reach(table, index, &prefixes[i], origin, route_type, r);
        proof {
            let next = prefixes@.take(i + 1);
            assert(next.drop_last() =~= prefixes@.take(i as int));
            assert(next.last() == prefixes@[i as int]);
        }
        i += 1;
    }
    assert(prefixes@.take(i as int) =~= prefixes@);
}

/// Whether the intern tables of a RIB can take a number of further values.
pub open spec fn rib_ready(rib: Rib, n: nat) -> bool {
    rib.attr_sets.wf() && rib.attr_sets.room(n)
}

/// What the prefixes that a neighbor announces come to: their attributes are
/// interned, their routes are stored, and import policies are to be applied.
pub open spec fn reached<A: AddressFamily>(
    rib: Rib,
    old_rib: Rib,
    nbr: NeighborView,
    prefixes: Seq<IpNetwork>,
    attrs: AttrsView,
    local_asn: u32,
    now: Instant,
    route_attrs: Arc<RouteAttrs>,
) -> bool {
    let s = nbr.session;
    &&& got(old_rib.attr_sets, rib.attr_sets, received(attrs, nbr.config, local_asn), route_attrs)
    &&& A::table_of(rib.tables)@ == reach_all(
        A::table_of(old_rib.tables)@,
        s.index,
        prefixes,
        origin_of(s),
        route_type_of(s.peer_type),
        Route { attrs: route_attrs, last_modified: now },
    )
    &&& rib.tables == A::with_table(old_rib.tables, A::table_of(rib.tables))
}

/// Whether a request is the one to apply the import policies of a neighbor to
/// prefixes that it has announced.
pub open spec fn import_request<A: AddressFamily>(
    msg: PolicyApplyMsg,
    nbr: Neighbor,
    prefixes: Seq<IpNetwork>,
    attrs: AttrsView,
    local_asn: u32,
    shared: Shared,
) -> bool {
    let s = nbr.session;
    let cfg = apply_policy_of(nbr.config@, A::family());
    &&& msg.policy_type == PolicyType::Import
    &&& msg.nbr_addr == s.remote_addr
    &&& msg.afi_safi == A::family()
    &&& msg.route@ == (RoutePolicyView {
        origin: origin_of(s),
        route_type: route_type_of(s.peer_type),
        tag: None,
        opaque_attrs: None,
        igp_metric: None,
        attrs: received(attrs, nbr.config@, local_asn),
    })
    &&& msg.prefixes@ == prefixes
    &&& exists|names: OrdSet<String>| names@ == cfg.import_policy && #[trigger] policies_named(
        msg.policies@,
        names,
        shared,
    )
    &&& msg.match_sets == shared.match_sets
    &&& msg.default_policy == cfg.default_import_policy
}

/// Processes prefixes that a neighbor announces in an address family. Returns
/// the request to apply its import policies to them, unless the address family
/// is disabled for the session.
pub fn process_nbr_reach_prefixes<A: AddressFamily>(
    nbr: &Neighbor,
    rib: &mut Rib,
    nlri_prefixes: Vec<IpNetwork>,
    attrs: Attrs,
    local_asn: u32,
    shared: &Shared,
    now: Instant,
) -> (msg: Option<PolicyApplyMsg>)
    requires
        nbr.session.af_enabled(A::family()) ==> {
            &&& nbr.session.identifier is Some
            &&& import_policies_known(nbr.config@, A::family(), *shared)
        },
        all_valid(nlri_prefixes@),
        rib_ready(*old(rib), 1),
    ensures
        !nbr.session.af_enabled(A::family()) ==> msg is None && *final(rib) == *old(rib),
        nbr.session.af_enabled(A::family()) ==> {
            &&& exists|ra: Arc<RouteAttrs>|
                #[trigger] reached::<A>(*final(rib), *old(rib), nbr@, nlri_prefixes@, attrs@, local_asn, now, ra)
            &&& msg is Some
            &&& import_request::<A>(msg->0, *nbr, nlri_prefixes@, attrs@, local_asn, *shared)
        },
        final(rib).attr_sets.wf(),
        keeps_shared(old(rib).attr_sets, final(rib).attr_sets),
        forall|n: nat| n >= 1 && #[trigger] rib_ready(*old(rib), n) ==> rib_ready(*final(rib), (n - 1) as nat),
{
    // Check if the address-family is enabled for this session.
    if !nbr.session.is_af_enabled(A::afi_safi()) {
        return None;
    }

    // Initialize route origin and type.
    let identifier = match nbr.session.identifier {
        Some(identifier) => identifier,
        None => {
            return None;
        },
    };
    let origin = RouteOrigin::Neighbor { identifier, remote_addr: nbr.session.remote_addr };
    let route_type = match nbr.session.peer_type {
        PeerType::Internal => RouteType::Internal,
        PeerType::External => RouteType::External,
    };
    let index = nbr.session.index;
    let mut attrs = attrs;
    let ghost attrs0 = attrs@;
    if nbr.config.as_path_options.replace_peer_as {
        // Replace occurrences of the peer's AS in the AS_PATH with the local
        // autonomous system number.
        attrs.base.as_path.replace(nbr.config.peer_as, local_asn);
    }
    assert(attrs@ == received(attrs0, nbr.config@, local_asn));

    // Update pre-policy Adj-RIB-In routes.
    let ghost rib0 = *rib;
    let route_attrs = rib.attr_sets.get_route_attr_sets(&attrs);
    let table = A::table(&mut rib.tables);
    store_reach_all(table, index, &nlri_prefixes, origin, route_type, &route_attrs, now);
    proof {
        A::table_replaced(rib0.tables, *table);
    }

    // Enqueue import policy application.
    let apply_policy_cfg = get_apply_policy(&nbr.config, A::afi_safi());
    assert(apply_policy_cfg@.import_policy == apply_policy_cfg.import_policy@);
    let policies = get_policies(&apply_policy_cfg.import_policy, shared);
    let rpinfo = RoutePolicyInfo::new(origin, route_type, None, None, None, attrs);
    let msg = PolicyApplyMsg {
        policy_type: PolicyType::Import,
        nbr_addr: nbr.session.remote_addr,
        afi_safi: A::afi_safi(),
        route: rpinfo,
        prefixes: nlri_prefixes,
        policies,
        match_sets: share(&shared.match_sets),
        default_policy: apply_policy_cfg.default_import_policy,
    };
    proof {
        assert forall|r: Arc<RouteAttrs>| #[trigger] rib0.attr_sets.shares(r) implies rib.attr_sets.shares(r) by {
            interning_keeps_shared(rib0.attr_sets, rib.attr_sets, attrs@, route_attrs, r);
        }
        assert(reached::<A>(*rib, rib0, nbr@, nlri_prefixes@, attrs0, local_asn, now, route_attrs));
        assert(policies_named(msg.policies@, apply_policy_cfg.import_policy, *shared));
        assert(import_request::<A>(msg, *nbr, nlri_prefixes@, attrs0, local_asn, *shared));
    }
    Some(msg)
}

// ===== withdrawn prefixes =====

/// A routing table and the messages to the routing table manager.
pub struct Progress {
    pub table: TableView,
    pub ibus: Seq<IbusMsg>,
}

/// Whether the next hops are well-formed, and every route that takes part in
/// the Decision Process for a neighbor has a next hop.
pub open spec fn table_ok(t: TableView) -> bool {
    &&& nht_wf(t.nht)
    &&& forall|k: IpNetwork, i: PeerIndex|
        #![trigger t.prefixes[k].adj_rib.contains_key(i)]
        t.prefixes.contains_key(k) && t.prefixes[k].adj_rib.contains_key(i) ==> adj_rib_ok(t.prefixes[k].adj_rib[i])
}

pub open spec fn adj_rib_ok(adj_rib: AdjRib) -> bool {
    adj_rib.spec_in_post() matches Some(p) ==> p.0.attrs.attrs().base.nexthop is Some
}

/// The next hop of the route of a neighbor that takes part in the Decision
/// Process, if there is one.
pub open spec fn post_nexthop<A: AddressFamily>(adj_rib: AdjRib) -> Option<IpAddr> {
    match adj_rib.spec_in_post() {
        Some(p) => Some(A::nexthop_rx(p.0.attrs.attrs().base)),
        None => None,
    }
}

/// The routes of a neighbor to a network, if there are any.
pub open spec fn known_routes(t: TableView, index: PeerIndex, k: IpNetwork) -> Option<AdjRib> {
    if t.prefixes.contains_key(k) && t.prefixes[k].adj_rib.contains_key(index) {
        Some(t.prefixes[k].adj_rib[index])
    } else {
        None
    }
}

/// The table with the routes of a neighbor to a network replaced.
pub open spec fn with_routes(t: TableView, index: PeerIndex, k: IpNetwork, adj_rib: AdjRib) -> TableView {
    TableView { prefixes: t.prefixes.insert(k, with_adj_rib(t.prefixes[k], index, adj_rib)), ..t }
}

/// The table after a neighbor has withdrawn one prefix.
pub open spec fn unreach_one<A: AddressFamily>(p: Progress, index: PeerIndex, prefix: IpNetwork) -> Progress {
    match known_routes(p.table, index, prefix.masked()) {
        None => p,
        Some(adj_rib) => {
            let t = with_routes(p.table, index, prefix.masked(), AdjRib { adj_in: None, ..adj_rib });
            let queued_prefixes = t.queued_prefixes.insert(prefix);
            match post_nexthop::<A>(adj_rib) {
                Some(addr) => Progress {
                    table: TableView { queued_prefixes, nht: use_dropped(t.nht, prefix, addr), ..t },
                    ibus: p.ibus + use_dropped_msgs(t.nht, prefix, addr),
                },
                None => Progress { table: TableView { queued_prefixes, ..t }, ibus: p.ibus },
            }
        },
    }
}

/// The table after a neighbor has withdrawn prefixes, one after the other.
pub open spec fn unreach_all<A: AddressFamily>(p: Progress, index: PeerIndex, prefixes: Seq<IpNetwork>) -> Progress
    decreases prefixes.len(),
{
    if prefixes.len() == 0 {
        Progress {
            table: TableView { prefix_counters: counted(p.table.prefix_counters, index), ..p.table },
            ibus: p.ibus,
        }
    } else {
        unreach_one::<A>(unreach_all::<A>(p, index, prefixes.drop_last()), index, prefixes.last())
    }
}

proof fn with_routes_ok(t: TableView, index: PeerIndex, k: IpNetwork, adj_rib: AdjRib)
    requires
        table_ok(t),
        t.prefixes.contains_key(k),
        adj_rib_ok(adj_rib),
    ensures
        table_ok(with_routes(t, index, k, adj_rib)),
{
    let t1 = with_routes(t, index, k, adj_rib);
    assert forall|n: IpNetwork, i: PeerIndex|
        #![trigger t1.prefixes[n].adj_rib.contains_key(i)]
        t1.prefixes.contains_key(n) && t1.prefixes[n].adj_rib.contains_key(i) implies adj_rib_ok(
        t1.prefixes[n].adj_rib[i],
    ) by {
        if n == k && i == index {
        } else {
            assert(t.prefixes[n].adj_rib.contains_key(i));
        }
    }
}

fn withdraw_one<A: AddressFamily>(
    table: &mut RoutingTable,
    index: PeerIndex,
    prefix: &IpNetwork,
    ibus: &mut Vec<IbusMsg>,
)
    requires
        prefix.valid(),
        table_ok(old(table)@),
    ensures
        (Progress { table: final(table)@, ibus: final(ibus)@ }) == unreach_one::<A>(
            Progress { table: old(table)@, ibus: old(ibus)@ },
            index,
            *prefix,
        ),
        table_ok(final(table)@),
{
    let ghost t0 = *table;
    let ghost k = prefix.masked();
    let ghost before = table.prefixes@;
    let dest = match table.prefixes.get_mut(prefix) {
        Some(dest) => dest,
        None => {
            return;
        },
    };
    let ghost d0 = *dest;
    let adj_rib = match dest.adj_rib.get_mut(&index) {
        Some(adj_rib) => adj_rib,
        None => {
            proof {
                views_insert(before, k, *dest);
                assert(views(before).insert(k, d0@) =~= views(before));
            }
            return;
        },
    };
    let ghost a0 = *adj_rib;
    assert(t0@.prefixes[k].adj_rib.contains_key(index));
    let removed = adj_rib.remove_in();
    let ghost a1 = *adj_rib;
    proof {
        views_insert(before, k, *dest);
        with_routes_ok(t0@, index, k, a1);
    }
    if let Some(route) = removed {
        let nexthop = route.nexthop::<A>();
        proof {
            use_dropped_wf(t0@.nht, *prefix, nexthop);
        }
        nexthop_untrack(&mut table.nht, prefix, nexthop, ibus);
    }

    // Enqueue prefix for the BGP Decision Process.
    table.queued_prefixes.insert(*prefix);
    proof {
        let t1 = with_routes(t0@, index, k, a1);
        assert(table@.prefixes == t1.prefixes);
        assert forall|n: IpNetwork, i: PeerIndex|
            #![trigger table@.prefixes[n].adj_rib.contains_key(i)]
            table@.prefixes.contains_key(n) && table@.prefixes[n].adj_rib.contains_key(i) implies adj_rib_ok(
            table@.prefixes[n].adj_rib[i],
        ) by {
            assert(t1.prefixes[n].adj_rib.contains_key(i));
        }
    }
}

/// Processes prefixes that a neighbor withdraws in an address family.
pub fn process_nbr_unreach_prefixes<A: AddressFamily>(
    nbr: &Session,
    table: &mut RoutingTable,
    nlri_prefixes: &Vec<IpNetwork>,
    ibus: &mut Vec<IbusMsg>,
)
    requires
        all_valid(nlri_prefixes@),
        table_ok(old(table)@),
    ensures
        table_ok(final(table)@),
        (Progress { table: final(table)@, ibus: final(ibus)@ }) == if nbr.af_enabled(A::family()) {
            unreach_all::<A>(Progress { table: old(table)@, ibus: old(ibus)@ }, nbr.index, nlri_prefixes@)
        } else {
            Progress { table: old(table)@, ibus: old(ibus)@ }
        },
{
    // Check if the address-family is enabled for this session.
    if !nbr.is_af_enabled(A::afi_safi()) {
        return;
    }

    // Remove routes from Adj-RIB-In.
    let ghost start = Progress { table: table@, ibus: ibus@ };
    let index = nbr.index;
    add_counters(&mut table.prefix_counters, index);
    let mut i: usize = 0;
    assert(nlri_prefixes@.take(0) =~= Seq::empty());
    assert forall|n: IpNetwork, i: PeerIndex|
        #![trigger table@.prefixes[n].adj_rib.contains_key(i)]
        table@.prefixes.contains_key(n) && table@.prefixes[n].adj_rib.contains_key(i) implies adj_rib_ok(
        table@.prefixes[n].adj_rib[i],
    ) by {
        assert(start.table.prefixes[n].adj_rib.contains_key(i));
    }
    while i < nlri_prefixes.len()
        invariant
            i <= nlri_prefixes@.len(),
            all_valid(nlri_prefixes@),
            table_ok(table@),
            (Progress { table: table@, ibus: ibus@ }) == unreach_all::<A>(
                start,
                index,
                nlri_prefixes@.take(i as int),
            ),
        decreases nlri_prefixes@.len() - i,
    {
        withdraw_one::<A>(table, index, &nlri_prefixes[i], ibus);
        proof {
            let next = nlri_prefixes@.take(i + 1);
            assert(next.drop_last() =~= nlri_prefixes@.take(i as int));
            assert(next.last() == nlri_prefixes@[i as int]);
        }
        i += 1;
    }
    assert(nlri_prefixes@.take(i as int) =~= nlri_prefixes@);
}

// ===== UPDATE messages =====

/// What is to be done with prefixes of an UPDATE message.
#[allow(inconsistent_fields)]
pub enum NlriStep {
    Reach { af: AfiSafi, prefixes: Vec<IpNetwork>, attrs: Attrs },
    Unreach { af: AfiSafi, prefixes: Vec<IpNetwork> },
}

#[allow(inconsistent_fields)]
pub enum NlriStepView {
    Reach { af: AfiSafi, prefixes: Seq<IpNetwork>, attrs: AttrsView },
    Unreach { af: AfiSafi, prefixes: Seq<IpNetwork> },
}

impl View for NlriStep {
    type V = NlriStepView;

    open spec fn view(&self) -> NlriStepView {
        match *self {
            NlriStep::Reach { af, prefixes, attrs } => NlriStepView::Reach { af, prefixes: prefixes@, attrs: attrs@ },
            NlriStep::Unreach { af, prefixes } => NlriStepView::Unreach { af, prefixes: prefixes@ },
        }
    }
}

pub open spec fn steps_view(steps: Seq<NlriStep>) -> Seq<NlriStepView> {
    steps.map_values(|s: NlriStep| s@)
}

/// The attributes with the given next hop.
pub open spec fn with_nexthop(attrs: AttrsView, nexthop: IpAddr) -> AttrsView {
    AttrsView { base: BaseAttrsView { nexthop: Some(nexthop), ..attrs.base }, ..attrs }
}

/// The step for announced prefixes. Without attributes, they are treated as
/// withdrawn.
pub open spec fn reach_step(af: AfiSafi, prefixes: Seq<IpNetwork>, attrs: Option<AttrsView>) -> NlriStepView {
    match attrs {
        Some(attrs) => NlriStepView::Reach { af, prefixes, attrs },
        None => NlriStepView::Unreach { af, prefixes },
    }
}

/// The step for the announced IPv4 prefixes. Their next hop is that of the
/// NEXT_HOP attribute.
pub open spec fn reach_steps(msg: UpdateView) -> Seq<NlriStepView> {
    match msg.reach {
        Some((prefixes, nexthop)) => seq![
            reach_step(
                AfiSafi::Ipv4Unicast,
                prefixes,
                match msg.attrs {
                    Some(attrs) => Some(with_nexthop(attrs, IpAddr::V4(nexthop))),
                    None => None,
                },
            ),
        ],
        None => Seq::empty(),
    }
}

/// The step for the announced multiprotocol prefixes. Their next hops are
/// those of the MP_REACH_NLRI attribute.
pub open spec fn mp_reach_steps(msg: UpdateView) -> Seq<NlriStepView> {
    match msg.mp_reach {
        Some(MpReachView::Ipv4Unicast { prefixes, nexthop }) => seq![
            reach_step(
                AfiSafi::Ipv4Unicast,
                prefixes,
                match msg.attrs {
                    Some(attrs) => Some(with_nexthop(attrs, IpAddr::V4(nexthop))),
                    None => None,
                },
            ),
        ],
        Some(MpReachView::Ipv6Unicast { prefixes, nexthop, ll_nexthop }) => seq![
            reach_step(
                AfiSafi::Ipv6Unicast,
                prefixes,
                match msg.attrs {
                    Some(attrs) => Some(
                        AttrsView {
                            base: BaseAttrsView { nexthop: Some(IpAddr::V6(nexthop)), ll_nexthop, ..attrs.base },
                            ..attrs
                        },
                    ),
                    None => None,
                },
            ),
        ],
        None => Seq::empty(),
    }
}

pub open spec fn unreach_steps(msg: UpdateView) -> Seq<NlriStepView> {
    match msg.unreach {
        Some(prefixes) => seq![NlriStepView::Unreach { af: AfiSafi::Ipv4Unicast, prefixes }],
        None => Seq::empty(),
    }
}

pub open spec fn mp_unreach_steps(msg: UpdateView) -> Seq<NlriStepView> {
    match msg.mp_unreach {
        Some(MpUnreachView::Ipv4Unicast { prefixes }) => seq![
            NlriStepView::Unreach { af: AfiSafi::Ipv4Unicast, prefixes },
        ],
        Some(MpUnreachView::Ipv6Unicast { prefixes }) => seq![
            NlriStepView::Unreach { af: AfiSafi::Ipv6Unicast, prefixes },
        ],
        None => Seq::empty(),
    }
}

/// What is to be done about an UPDATE message, in order.
pub open spec fn msg_steps(msg: UpdateView) -> Seq<NlriStepView> {
    reach_steps(msg) + mp_reach_steps(msg) + unreach_steps(msg) + mp_unreach_steps(msg)
}

fn make_reach_step(af: AfiSafi, prefixes: Vec<IpNetwork>, attrs: Option<Attrs>) -> (step: NlriStep)
    ensures
        step@ == reach_step(
            af,
            prefixes@,
            match attrs {
                Some(attrs) => Some(attrs@),
                None => None,
            },
        ),
{
    match attrs {
        Some(attrs) => NlriStep::Reach { af, prefixes, attrs },
        // Treat as withdraw.
        None => NlriStep::Unreach { af, prefixes },
    }
}

/// Finds out what is to be done about an UPDATE message.
pub fn update_steps(msg: UpdateMsg) -> (steps: Vec<NlriStep>)
    ensures
        steps_view(steps@) == msg_steps(msg@),
        steps@.len() <= 4,
{
    let ghost m = msg@;
    let UpdateMsg { reach, unreach, mp_reach, mp_unreach, attrs } = msg;
    let mut steps: Vec<NlriStep> = Vec::new();

    // Process IPv4 reachable NLRIs.
    //
    // Use nexthop from the NEXTHOP attribute.
    if let Some(reach) = reach {
        let step_attrs = match &attrs {
            Some(attrs) => {
                let mut attrs = attrs.dup();
                attrs.base.nexthop = Some(IpAddr::V4(reach.nexthop));
                Some(attrs)
            },
            None => None,
        };
        steps.push(make_reach_step(AfiSafi::Ipv4Unicast, reach.prefixes, step_attrs));
    }
    assert(steps_view(steps@) =~= reach_steps(m));
    let ghost s1 = steps@;

    // Process multiprotocol reachable NLRIs.
    //
    // Use nexthop(s) from the MP_REACH_NLRI attribute.
    if let Some(mp_reach) = mp_reach {
        match mp_reach {
            MpReachNlri::Ipv4Unicast { prefixes, nexthop } => {
                let step_attrs = match attrs {
                    Some(attrs) => {
                        let mut attrs = attrs;
                        attrs.base.nexthop = Some(IpAddr::V4(nexthop));
                        Some(attrs)
                    },
                    None => None,
                };
                steps.push(make_reach_step(AfiSafi::Ipv4Unicast, prefixes, step_attrs));
            },
            MpReachNlri::Ipv6Unicast { prefixes, nexthop, ll_nexthop } => {
                let step_attrs = match attrs {
                    Some(attrs) => {
                        let mut attrs = attrs;
                        attrs.base.nexthop = Some(IpAddr::V6(nexthop));
                        attrs.base.ll_nexthop = ll_nexthop;
                        Some(attrs)
                    },
                    None => None,
                };
                steps.push(make_reach_step(AfiSafi::Ipv6Unicast, prefixes, step_attrs));
            },
        }
    }
    assert(steps_view(steps@) =~= steps_view(s1) + mp_reach_steps(m));
    let ghost s2 = steps@;

    // Process IPv4 unreachable NLRIs.
    if let Some(unreach) = unreach {
        steps.push(NlriStep::Unreach { af: AfiSafi::Ipv4Unicast, prefixes: unreach.prefixes });
    }
    assert(steps_view(steps@) =~= steps_view(s2) + unreach_steps(m));
    let ghost s3 = steps@;

    // Process multiprotocol unreachable NLRIs.
    if let Some(mp_unreach) = mp_unreach {
        match mp_unreach {
            MpUnreachNlri::Ipv4Unicast { prefixes } => {
                steps.push(NlriStep::Unreach { af: AfiSafi::Ipv4Unicast, prefixes });
            },
            MpUnreachNlri::Ipv6Unicast { prefixes } => {
                steps.push(NlriStep::Unreach { af: AfiSafi::Ipv6Unicast, prefixes });
            },
        }
    }
    assert(steps_view(steps@) =~= steps_view(s3) + mp_unreach_steps(m));
    steps
}

/// A message without attributes only withdraws, whatever prefixes it lists as
/// reachable.
pub proof fn no_attrs_means_withdraw(msg: UpdateView)
    requires
        msg.attrs is None,
    ensures
        forall|i: int| 0 <= i < msg_steps(msg).len() ==> (#[trigger] msg_steps(msg)[i]) is Unreach,
{
}

/// Whether both tables of a RIB are well-formed.
pub open spec fn rib_ok(rib: Rib) -> bool {
    table_ok(rib.tables.ipv4_unicast@) && table_ok(rib.tables.ipv6_unicast@)
}

proof fn reach_one_ok(
    t: TableView,
    index: PeerIndex,
    prefix: IpNetwork,
    origin: RouteOrigin,
    route_type: RouteType,
    route: Route,
)
    requires
        table_ok(t),
    ensures
        table_ok(reach_one(t, index, prefix, origin, route_type, route)),
{
    let k = prefix.masked();
    let t1 = reach_one(t, index, prefix, origin, route_type, route);
    assert forall|n: IpNetwork, i: PeerIndex|
        #![trigger t1.prefixes[n].adj_rib.contains_key(i)]
        t1.prefixes.contains_key(n) && t1.prefixes[n].adj_rib.contains_key(i) implies adj_rib_ok(
        t1.prefixes[n].adj_rib[i],
    ) by {
        if t.prefixes.contains_key(n) {
            assert(t.prefixes[n].adj_rib.contains_key(i) ==> adj_rib_ok(t.prefixes[n].adj_rib[i]));
        }
    }
}

proof fn reach_all_ok(
    t: TableView,
    index: PeerIndex,
    prefixes: Seq<IpNetwork>,
    origin: RouteOrigin,
    route_type: RouteType,
    route: Route,
)
    requires
        table_ok(t),
    ensures
        table_ok(reach_all(t, index, prefixes, origin, route_type, route)),
    decreases prefixes.len(),
{
    if prefixes.len() == 0 {
        let t1 = reach_all(t, index, prefixes, origin, route_type, route);
        assert forall|n: IpNetwork, i: PeerIndex|
            #![trigger t1.prefixes[n].adj_rib.contains_key(i)]
            t1.prefixes.contains_key(n) && t1.prefixes[n].adj_rib.contains_key(i) implies adj_rib_ok(
            t1.prefixes[n].adj_rib[i],
        ) by {
            assert(t.prefixes[n].adj_rib.contains_key(i));
        }
    } else {
        reach_all_ok(t, index, prefixes.drop_last(), origin, route_type, route);
        reach_one_ok(
            reach_all(t, index, prefixes.drop_last(), origin, route_type, route),
            index,
            prefixes.last(),
            origin,
            route_type,
            route,
        );
    }
}

/// What announced prefixes come to.
pub open spec fn reach_done<A: AddressFamily>(
    rib: Rib,
    old_rib: Rib,
    nbr: Neighbor,
    prefixes: Seq<IpNetwork>,
    attrs: AttrsView,
    local_asn: u32,
    shared: Shared,
    now: Instant,
    msg: Option<PolicyApplyMsg>,
) -> bool {
    if nbr.session.af_enabled(A::family()) {
        &&& exists|ra: Arc<RouteAttrs>|
            #[trigger] reached::<A>(rib, old_rib, nbr@, prefixes, attrs, local_asn, now, ra)
        &&& msg is Some
        &&& import_request::<A>(msg->0, nbr, prefixes, attrs, local_asn, shared)
    } else {
        msg is None && rib == old_rib
    }
}

/// What withdrawn prefixes come to.
pub open spec fn unreach_done<A: AddressFamily>(
    rib: Rib,
    old_rib: Rib,
    ibus: Seq<IbusMsg>,
    old_ibus: Seq<IbusMsg>,
    nbr: Session,
    prefixes: Seq<IpNetwork>,
) -> bool {
    let p = Progress { table: A::table_of(old_rib.tables)@, ibus: old_ibus };
    &&& (Progress { table: A::table_of(rib.tables)@, ibus }) == if nbr.af_enabled(A::family()) {
        unreach_all::<A>(p, nbr.index, prefixes)
    } else {
        p
    }
    &&& rib.tables == A::with_table(old_rib.tables, A::table_of(rib.tables))
    &&& rib.attr_sets == old_rib.attr_sets
}

/// A RIB, the messages sent so far, and the request that the last step made.
pub struct UpdateRun {
    pub rib: Rib,
    pub ibus: Seq<IbusMsg>,
    pub msg: Option<PolicyApplyMsg>,
}

/// What one step of an UPDATE message comes to.
pub open spec fn step_done(
    next: UpdateRun,
    prev: UpdateRun,
    nbr: Neighbor,
    step: NlriStepView,
    local_asn: u32,
    shared: Shared,
    now: Instant,
) -> bool {
    match step {
        NlriStepView::Reach { af: AfiSafi::Ipv4Unicast, prefixes, attrs } => next.ibus == prev.ibus && reach_done::<
            Ipv4Unicast,
        >(next.rib, prev.rib, nbr, prefixes, attrs, local_asn, shared, now, next.msg),
        NlriStepView::Reach { af: AfiSafi::Ipv6Unicast, prefixes, attrs } => next.ibus == prev.ibus && reach_done::<
            Ipv6Unicast,
        >(next.rib, prev.rib, nbr, prefixes, attrs, local_asn, shared, now, next.msg),
        NlriStepView::Unreach { af: AfiSafi::Ipv4Unicast, prefixes } => next.msg is None && unreach_done::<Ipv4Unicast>(
            next.rib,
            prev.rib,
            next.ibus,
            prev.ibus,
            nbr.session,
            prefixes,
        ),
        NlriStepView::Unreach { af: AfiSafi::Ipv6Unicast, prefixes } => next.msg is None && unreach_done::<Ipv6Unicast>(
            next.rib,
            prev.rib,
            next.ibus,
            prev.ibus,
            nbr.session,
            prefixes,
        ),
    }
}

pub open spec fn step_prefixes(step: NlriStepView) -> Seq<IpNetwork> {
    match step {
        NlriStepView::Reach { prefixes, .. } => prefixes,
        NlriStepView::Unreach { prefixes, .. } => prefixes,
    }
}

/// Whether a session can take routes: once an address family is enabled, the
/// identifier of the neighbor is known, and so are its policies.
pub open spec fn session_ready(nbr: Neighbor, shared: Shared) -> bool {
    forall|af: AfiSafi| #[trigger]
        nbr.session.af_enabled(af) ==> nbr.session.identifier is Some && import_policies_known(nbr.config@, af, shared)
}

fn run_step(
    nbr: &Neighbor,
    rib: &mut Rib,
    step: NlriStep,
    local_asn: u32,
    shared: &Shared,
    now: Instant,
    ibus: &mut Vec<IbusMsg>,
) -> (msg: Option<PolicyApplyMsg>)
    requires
        session_ready(*nbr, *shared),
        all_valid(step_prefixes(step@)),
        rib_ok(*old(rib)),
        rib_ready(*old(rib), 1),
    ensures
        step_done(
            UpdateRun { rib: *final(rib), ibus: final(ibus)@, msg },
            UpdateRun { rib: *old(rib), ibus: old(ibus)@, msg: None },
            *nbr,
            step@,
            local_asn,
            *shared,
            now,
        ),
        rib_ok(*final(rib)),
        final(rib).attr_sets.wf(),
        keeps_shared(old(rib).attr_sets, final(rib).attr_sets),
        forall|n: nat| n >= 1 && #[trigger] rib_ready(*old(rib), n) ==> rib_ready(*final(rib), (n - 1) as nat),
{
    let ghost rib0 = *rib;
    assert forall|n: nat| n >= 1 && #[trigger] rib_ready(rib0, n) implies rib_ready(rib0, (n - 1) as nat) by {}
    match step {
        NlriStep::Reach { af, prefixes, attrs } => {
            let ghost nets = prefixes@;
            let ghost attrs0 = attrs@;
            match af {
                AfiSafi::Ipv4Unicast => {
                    assert(nbr.session.af_enabled(AfiSafi::Ipv4Unicast) ==> nbr.session.identifier is Some);
                    let msg = process_nbr_reach_prefixes::<Ipv4Unicast>(
                        nbr,
                        rib,
                        prefixes,
                        attrs,
                        local_asn,
                        shared,
                        now,
                    );
                    proof {
                        if nbr.session.af_enabled(AfiSafi::Ipv4Unicast) {
                            let ra = choose|ra: Arc<RouteAttrs>|
                                #[trigger] reached::<Ipv4Unicast>(*rib, rib0, nbr@, nets, attrs0, local_asn, now, ra);
                            reach_all_ok(
                                rib0.tables.ipv4_unicast@,
                                nbr.session.index,
                                nets,
                                origin_of(nbr.session),
                                route_type_of(nbr.session.peer_type),
                                Route { attrs: ra, last_modified: now },
                            );
                        }
                    }
                    msg
                },
                AfiSafi::Ipv6Unicast => {
                    assert(nbr.session.af_enabled(AfiSafi::Ipv6Unicast) ==> nbr.session.identifier is Some);
                    let msg = process_nbr_reach_prefixes::<Ipv6Unicast>(
                        nbr,
                        rib,
                        prefixes,
                        attrs,
                        local_asn,
                        shared,
                        now,
                    );
                    proof {
                        if nbr.session.af_enabled(AfiSafi::Ipv6Unicast) {
                            let ra = choose|ra: Arc<RouteAttrs>|
                                #[trigger] reached::<Ipv6Unicast>(*rib, rib0, nbr@, nets, attrs0, local_asn, now, ra);
                            reach_all_ok(
                                rib0.tables.ipv6_unicast@,
                                nbr.session.index,
                                nets,
                                origin_of(nbr.session),
                                route_type_of(nbr.session.peer_type),
                                Route { attrs: ra, last_modified: now },
                            );
                        }
                    }
                    msg
                },
            }
        },
        NlriStep::Unreach { af, prefixes } => {
            match af {
                AfiSafi::Ipv4Unicast => {
                    process_nbr_unreach_prefixes::<Ipv4Unicast>(
                        &nbr.session,
                        &mut rib.tables.ipv4_unicast,
                        &prefixes,
                        ibus,
                    );
                },
                AfiSafi::Ipv6Unicast => {
                    process_nbr_unreach_prefixes::<Ipv6Unicast>(
                        &nbr.session,
                        &mut rib.tables.ipv6_unicast,
                        &prefixes,
                        ibus,
                    );
                },
            }
            assert forall|n: nat| n >= 1 && #[trigger] rib_ready(rib0, n) implies rib_ready(*rib, (n - 1) as nat) by {
                assert(rib_ready(rib0, (n - 1) as nat));
            }
            None
        },
    }
}

/// The requests that a run has made, in order.
pub open spec fn run_msgs(run: Seq<UpdateRun>) -> Seq<PolicyApplyMsg>
    decreases run.len(),
{
    if run.len() == 0 {
        Seq::empty()
    } else {
        match run.last().msg {
            Some(msg) => run_msgs(run.drop_last()).push(msg),
            None => run_msgs(run.drop_last()),
        }
    }
}

/// Whether a run went through the given steps.
pub open spec fn run_of(
    run: Seq<UpdateRun>,
    nbr: Neighbor,
    steps: Seq<NlriStepView>,
    local_asn: u32,
    shared: Shared,
    now: Instant,
) -> bool {
    &&& run.len() == steps.len() + 1
    &&& run[0].msg is None
    &&& forall|i: int|
        #![trigger steps[i]]
        0 <= i < steps.len() ==> step_done(run[i + 1], run[i], nbr, steps[i], local_asn, shared, now)
}

/// A RIB, the messages sent and the requests made once an UPDATE message was
/// processed.
pub struct UpdateEnd {
    pub rib: Rib,
    pub ibus: Seq<IbusMsg>,
    pub msgs: Seq<PolicyApplyMsg>,
}

/// What an UPDATE message comes to: its steps were taken one after the other.
pub open spec fn update_done(
    end: UpdateEnd,
    rib: Rib,
    ibus: Seq<IbusMsg>,
    nbr: Neighbor,
    msg: UpdateView,
    local_asn: u32,
    shared: Shared,
    now: Instant,
) -> bool {
    exists|run: Seq<UpdateRun>|
        {
            &&& #[trigger] run_of(run, nbr, msg_steps(msg), local_asn, shared, now)
            &&& run[0].rib == rib
            &&& run[0].ibus == ibus
            &&& run.last().rib == end.rib
            &&& run.last().ibus == end.ibus
            &&& end.msgs == run_msgs(run)
        }
}

/// The message that withdraws prefixes.
pub open spec fn withdrawal_of(prefixes: Seq<IpNetwork>) -> UpdateView {
    UpdateView { reach: None, unreach: Some(prefixes), mp_reach: None, mp_unreach: None, attrs: None }
}

/// A message that lists prefixes as reachable but carries no attributes ends like
/// one that withdraws them: in the same tables and attribute sets, with the same
/// messages sent, and without any request to apply policies.
pub proof fn no_attrs_ends_in_withdrawal(
    nbr: Neighbor,
    rib: Rib,
    ibus: Seq<IbusMsg>,
    prefixes: Seq<IpNetwork>,
    nexthop: crate::ip::Ipv4Addr,
    local_asn: u32,
    shared: Shared,
    now: Instant,
    end: UpdateEnd,
    withdrawn: UpdateEnd,
)
    requires
        update_done(
            end,
            rib,
            ibus,
            nbr,
            UpdateView {
                reach: Some((prefixes, nexthop)),
                unreach: None,
                mp_reach: None,
                mp_unreach: None,
                attrs: None,
            },
            local_asn,
            shared,
            now,
        ),
        update_done(withdrawn, rib, ibus, nbr, withdrawal_of(prefixes), local_asn, shared, now),
    ensures
        end.rib.tables.ipv4_unicast@ == withdrawn.rib.tables.ipv4_unicast@,
        end.rib.tables.ipv6_unicast == withdrawn.rib.tables.ipv6_unicast,
        end.rib.attr_sets == withdrawn.rib.attr_sets,
        end.ibus == withdrawn.ibus,
        end.msgs == Seq::<PolicyApplyMsg>::empty(),
        withdrawn.msgs == Seq::<PolicyApplyMsg>::empty(),
{
    let msg = UpdateView {
        reach: Some((prefixes, nexthop)),
        unreach: None,
        mp_reach: None,
        mp_unreach: None,
        attrs: None,
    };
    let steps = seq![NlriStepView::Unreach { af: AfiSafi::Ipv4Unicast, prefixes }];
    assert(msg_steps(msg) =~= steps);
    assert(msg_steps(withdrawal_of(prefixes)) =~= steps);
    let run = choose|run: Seq<UpdateRun>|
        {
            &&& #[trigger] run_of(run, nbr, msg_steps(msg), local_asn, shared, now)
            &&& run[0].rib == rib
            &&& run[0].ibus == ibus
            &&& run.last().rib == end.rib
            &&& run.last().ibus == end.ibus
            &&& end.msgs == run_msgs(run)
        };
    let other = choose|run: Seq<UpdateRun>|
        {
            &&& #[trigger] run_of(run, nbr, msg_steps(withdrawal_of(prefixes)), local_asn, shared, now)
            &&& run[0].rib == rib
            &&& run[0].ibus == ibus
            &&& run.last().rib == withdrawn.rib
            &&& run.last().ibus == withdrawn.ibus
            &&& withdrawn.msgs == run_msgs(run)
        };
    assert(steps[0] is Unreach);
    reveal_with_fuel(run_msgs, 3);
}

/// Processes an UPDATE message of a neighbor. Returns the requests to apply
/// import policies; the Decision Process is to be scheduled afterwards.
pub fn process_nbr_update(
    nbr: &Neighbor,
    rib: &mut Rib,
    msg: UpdateMsg,
    local_asn: u32,
    shared: &Shared,
    now: Instant,
    ibus: &mut Vec<IbusMsg>,
) -> (msgs: Vec<PolicyApplyMsg>)
    requires
        session_ready(*nbr, *shared),
        forall|i: int|
            0 <= i < msg_steps(msg@).len() ==> all_valid(step_prefixes(#[trigger] msg_steps(msg@)[i])),
        rib_ok(*old(rib)),
        rib_ready(*old(rib), 4),
    ensures
        update_done(
            UpdateEnd { rib: *final(rib), ibus: final(ibus)@, msgs: msgs@ },
            *old(rib),
            old(ibus)@,
            *nbr,
            msg@,
            local_asn,
            *shared,
            now,
        ),
        rib_ok(*final(rib)),
        final(rib).attr_sets.wf(),
        keeps_shared(old(rib).attr_sets, final(rib).attr_sets),
        spends(old(rib).attr_sets, final(rib).attr_sets, 4),
{
    let ghost all = msg_steps(msg@);
    let steps = update_steps(msg);
    let ghost list = steps@;
    let mut steps = steps;
    let mut msgs: Vec<PolicyApplyMsg> = Vec::new();
    let ghost first = UpdateRun { rib: *rib, ibus: ibus@, msg: None };
    let ghost mut run: Seq<UpdateRun> = seq![first];
    let ghost mut i: int = 0;
    proof {
        assert(seq![first].drop_last() =~= Seq::empty());
        reveal_with_fuel(run_msgs, 2);
    }
    while steps.len() > 0
        invariant
            0 <= i <= all.len(),
            all == steps_view(list),
            list.len() <= 4,
            steps@ == list.skip(i),
            session_ready(*nbr, *shared),
            forall|i: int| 0 <= i < all.len() ==> all_valid(step_prefixes(#[trigger] all[i])),
            rib_ok(*rib),
            rib_ready(*rib, (4 - i) as nat),
            keeps_shared(old(rib).attr_sets, rib.attr_sets),
            spends(old(rib).attr_sets, rib.attr_sets, i as nat),
            run_of(run, *nbr, all.take(i), local_asn, *shared, now),
            run[0].rib == *old(rib),
            run[0].ibus == old(ibus)@,
            run.last().rib == *rib,
            run.last().ibus == ibus@,
            msgs@ == run_msgs(run),
        decreases steps@.len(),
    {
        let step = steps.remove(0);
        proof {
            assert(steps@ =~= list.skip(i + 1));
            assert(step == list[i]);
            assert(step@ == all[i]);
            assert(rib_ready(*rib, (4 - i) as nat));
            assert(rib_ready(*rib, 1));
        }
        let ghost prev = run;
        let ghost before = *rib;
        let out = run_step(nbr, rib, step, local_asn, shared, now, ibus);
        proof {
            let next = UpdateRun { rib: *rib, ibus: ibus@, msg: out };
            run = run.push(next);
            assert(run.drop_last() =~= prev);
            assert forall|k: int|
                #![trigger all.take(i + 1)[k]]
                0 <= k < i + 1 implies step_done(
                run[k + 1],
                run[k],
                *nbr,
                all.take(i + 1)[k],
                local_asn,
                *shared,
                now,
            ) by {
                if k < i {
                    assert(all.take(i)[k] == all.take(i + 1)[k]);
                    assert(run[k + 1] == prev[k + 1] && run[k] == prev[k]);
                } else {
                    let p = prev[i];
                    assert(step_done(
                        next,
                        UpdateRun { rib: p.rib, ibus: p.ibus, msg: None },
                        *nbr,
                        all[i],
                        local_asn,
                        *shared,
                        now,
                    ));
                }
            }
            assert(run_of(run, *nbr, all.take(i + 1), local_asn, *shared, now));
            assert forall|n: nat| n >= i + 1 && #[trigger] old(rib).attr_sets.room(n) implies rib.attr_sets.room(
                (n - (i + 1)) as nat,
            ) by {
                assert(before.attr_sets.room((n - i) as nat));
                assert(rib_ready(before, (n - i) as nat));
                assert(rib_ready(*rib, (n - i - 1) as nat));
            }
            i = i + 1;
        }
        if let Some(msg) = out {
            msgs.push(msg);
        }
    }
    proof {
        assert(all.take(i) =~= all);
        spends_less(old(rib).attr_sets, rib.attr_sets, i as nat, 4);
    }
    msgs
}

// ===== neighbor policy import result =====

/// Whether a number of uses can be added to every next hop.
pub open spec fn nht_room(nht: Map<IpAddr, NhtView>, n: int) -> bool {
    forall|a: IpAddr, p: IpNetwork| #[trigger] uses(nht, a, p) + n <= u32::MAX
}

proof fn use_dropped_fewer(nht: Map<IpAddr, NhtView>, prefix: IpNetwork, addr: IpAddr)
    ensures
        forall|a: IpAddr, p: IpNetwork| #[trigger] uses(use_dropped(nht, prefix, addr), a, p) <= uses(nht, a, p),
{
}

proof fn use_moved_room(nht: Map<IpAddr, NhtView>, prefix: IpNetwork, old_addr: Option<IpAddr>, addr: IpAddr, n: int)
    requires
        nht_room(nht, n),
        n >= 1,
        nht_wf(nht),
    ensures
        nht_room(use_moved(nht, prefix, old_addr, addr), n - 1),
        nht_wf(use_moved(nht, prefix, old_addr, addr)),
{
    let added = use_added(nht, prefix, addr);
    assert(uses(nht, addr, prefix) + n <= u32::MAX);
    use_added_wf(nht, prefix, addr);
    assert forall|a: IpAddr, p: IpNetwork| #[trigger] uses(added, a, p) <= uses(nht, a, p) + 1 by {}
    assert forall|a: IpAddr, p: IpNetwork| #[trigger] uses(added, a, p) + (n - 1) <= u32::MAX by {
        assert(uses(nht, a, p) + n <= u32::MAX);
    }
    if let Some(o) = old_addr {
        if o != addr {
            use_dropped_wf(added, prefix, o);
            use_dropped_fewer(added, prefix, o);
            let moved = use_dropped(added, prefix, o);
            assert forall|a: IpAddr, p: IpNetwork| #[trigger] uses(moved, a, p) + (n - 1) <= u32::MAX by {
                assert(uses(added, a, p) + (n - 1) <= u32::MAX);
            }
        } else {
            assert forall|a: IpAddr, p: IpNetwork| #[trigger] uses(nht, a, p) + (n - 1) <= u32::MAX by {}
        }
    }
}

/// The selection state of a route that has not been looked at.
pub open spec fn fresh() -> SelectionState {
    SelectionState { igp_cost: None, ineligible_reason: None, reject_reason: None }
}

/// The table after import policies have accepted a route of a neighbor, or
/// rejected it. If the route is gone, the result is ignored.
pub open spec fn import_one<A: AddressFamily>(
    p: Progress,
    index: PeerIndex,
    prefix: IpNetwork,
    route: Option<Route>,
) -> Progress {
    let k = prefix.masked();
    match known_routes(p.table, index, k) {
        None => p,
        Some(adj_rib) => {
            let queued_prefixes = p.table.queued_prefixes.insert(prefix);
            match route {
                Some(route) => {
                    let t = with_routes(p.table, index, k, adj_rib.with_in_post(Some((route, fresh()))));
                    let old_addr = post_nexthop::<A>(adj_rib);
                    let addr = A::nexthop_rx(route.attrs.attrs().base);
                    if adj_rib.adj_in is Some {
                        Progress {
                            table: TableView { queued_prefixes, nht: use_moved(t.nht, prefix, old_addr, addr), ..t },
                            ibus: p.ibus + use_moved_msgs(t.nht, prefix, old_addr, addr),
                        }
                    } else {
                        Progress { table: TableView { queued_prefixes, ..t }, ibus: p.ibus }
                    }
                },
                None => {
                    let t = with_routes(p.table, index, k, adj_rib.with_in_post(None));
                    match post_nexthop::<A>(adj_rib) {
                        Some(addr) => Progress {
                            table: TableView { queued_prefixes, nht: use_dropped(t.nht, prefix, addr), ..t },
                            ibus: p.ibus + use_dropped_msgs(t.nht, prefix, addr),
                        },
                        None => Progress { table: TableView { queued_prefixes, ..t }, ibus: p.ibus },
                    }
                },
            }
        },
    }
}

/// The table after import policies have decided on prefixes with the same
/// result.
pub open spec fn import_group<A: AddressFamily>(
    p: Progress,
    index: PeerIndex,
    prefixes: Seq<IpNetwork>,
    route: Option<Route>,
) -> Progress
    decreases prefixes.len(),
{
    if prefixes.len() == 0 {
        p
    } else {
        import_one::<A>(import_group::<A>(p, index, prefixes.drop_last(), route), index, prefixes.last(), route)
    }
}

/// The table after import policies have decided on groups of prefixes.
pub open spec fn import_groups<A: AddressFamily>(
    p: Progress,
    index: PeerIndex,
    groups: Seq<PolicyGroup>,
    routes: Seq<Option<Route>>,
) -> Progress
    decreases groups.len(),
{
    if groups.len() == 0 {
        p
    } else {
        import_group::<A>(
            import_groups::<A>(p, index, groups.drop_last(), routes),
            index,
            groups.last().prefixes@,
            routes[groups.len() - 1],
        )
    }
}

/// Whether a route is the one that a policy result asks for.
pub open spec fn route_for(route: Option<Route>, result: PolicyResult<RoutePolicyInfo>, now: Instant) -> bool {
    match (result, route) {
        (PolicyResult::Accept(rpinfo), Some(route)) => route.attrs.attrs() == rpinfo@.attrs && route.last_modified
            == now,
        (PolicyResult::Reject, None) => true,
        _ => false,
    }
}

/// Whether the routes are those that the results of groups ask for.
pub open spec fn routes_for(routes: Seq<Option<Route>>, groups: Seq<PolicyGroup>, now: Instant) -> bool {
    &&& routes.len() == groups.len()
    &&& forall|i: int| 0 <= i < groups.len() ==> route_for(routes[i], (#[trigger] groups[i]).result, now)
}

/// The attributes of the routes that there are, in order.
pub open spec fn attrs_of_routes(routes: Seq<Option<Route>>) -> Seq<Arc<RouteAttrs>>
    decreases routes.len(),
{
    if routes.len() == 0 {
        Seq::empty()
    } else {
        let front = attrs_of_routes(routes.drop_last());
        match routes.last() {
            Some(route) => front.push(route.attrs),
            None => front,
        }
    }
}

pub(crate) proof fn attrs_of_routes_push(routes: Seq<Option<Route>>, route: Option<Route>)
    ensures
        attrs_of_routes(routes.push(route)) == match route {
            Some(route) => attrs_of_routes(routes).push(route.attrs),
            None => attrs_of_routes(routes),
        },
{
    assert(routes.push(route).drop_last() =~= routes);
}

pub(crate) proof fn attrs_of_routes_len(routes: Seq<Option<Route>>)
    ensures
        attrs_of_routes(routes).len() <= routes.len(),
    decreases routes.len(),
{
    if routes.len() > 0 {
        attrs_of_routes_len(routes.drop_last());
    }
}

/// The attributes of a route that there is are among them.
pub(crate) proof fn attrs_of_routes_has(routes: Seq<Option<Route>>, i: int)
    requires
        0 <= i < routes.len(),
        routes[i] is Some,
    ensures
        attrs_of_routes(routes).contains(routes[i]->0.attrs),
    decreases routes.len(),
{
    let front = attrs_of_routes(routes.drop_last());
    let all = attrs_of_routes(routes);
    if i < routes.len() - 1 {
        attrs_of_routes_has(routes.drop_last(), i);
        let j = choose|j: int| 0 <= j < front.len() && front[j] == routes[i]->0.attrs;
        assert(all[j] == front[j]);
    } else {
        assert(all.last() == routes[i]->0.attrs);
        assert(all[all.len() - 1] == all.last());
    }
}

/// The number of prefixes in groups.
pub open spec fn prefix_count(groups: Seq<PolicyGroup>) -> nat
    decreases groups.len(),
{
    if groups.len() == 0 {
        0
    } else {
        prefix_count(groups.drop_last()) + groups.last().prefixes@.len()
    }
}

/// Whether the prefixes of groups are networks, and accepted routes have next
/// hops.
pub open spec fn groups_ok(groups: Seq<PolicyGroup>) -> bool {
    forall|i: int|
        #![trigger groups[i]]
        0 <= i < groups.len() ==> {
            &&& all_valid(groups[i].prefixes@)
            &&& groups[i].result matches PolicyResult::Accept(rpinfo) ==> rpinfo@.attrs.base.nexthop is Some
        }
}

fn import_prefix<A: AddressFamily>(
    table: &mut RoutingTable,
    index: PeerIndex,
    prefix: &IpNetwork,
    route: &Option<Route>,
    ibus: &mut Vec<IbusMsg>,
    Ghost(n): Ghost<int>,
)
    requires
        prefix.valid(),
        table_ok(old(table)@),
        n >= 1,
        nht_room(old(table)@.nht, n),
        route matches Some(r) ==> r.attrs.attrs().base.nexthop is Some,
    ensures
        (Progress { table: final(table)@, ibus: final(ibus)@ }) == import_one::<A>(
            Progress { table: old(table)@, ibus: old(ibus)@ },
            index,
            *prefix,
            *route,
        ),
        table_ok(final(table)@),
        nht_room(final(table)@.nht, n - 1),
{
    let ghost t0 = *table;
    let ghost k = prefix.masked();
    let ghost before = table.prefixes@;
    assert(nht_room(t0@.nht, n - 1)) by {
        assert forall|a: IpAddr, p: IpNetwork| #[trigger] uses(t0@.nht, a, p) + (n - 1) <= u32::MAX by {
            assert(uses(t0@.nht, a, p) + n <= u32::MAX);
        }
    }
    let dest = match table.prefixes.get_mut(prefix) {
        Some(dest) => dest,
        None => {
            return;
        },
    };
    let ghost d0 = *dest;
    let adj_rib = match dest.adj_rib.get_mut(&index) {
        Some(adj_rib) => adj_rib,
        None => {
            proof {
                views_insert(before, k, *dest);
                assert(views(before).insert(k, d0@) =~= views(before));
            }
            return;
        },
    };
    let ghost a0 = *adj_rib;
    assert(t0@.prefixes[k].adj_rib.contains_key(index));

    // Update post-policy Adj-RIB-In routes.
    match route {
        // The route was accepted by the import policies.
        Some(route) => {
            let old_nexthop = match adj_rib.in_post() {
                Some(post) => Some(post.0.nexthop::<A>()),
                None => None,
            };
            let nexthop = route.nexthop::<A>();
            let stored = adj_rib.update_in_post(Route::new(share(&route.attrs), route.last_modified));
            let ghost a1 = *adj_rib;
            proof {
                views_insert(before, k, *dest);
                with_routes_ok(t0@, index, k, a1);
                assert(uses(t0@.nht, nexthop, *prefix) + n <= u32::MAX);
                use_moved_room(t0@.nht, *prefix, old_nexthop, nexthop, n);
            }
            if stored {
                nexthop_retrack(&mut table.nht, *prefix, old_nexthop, nexthop, ibus);
            }
            proof {
                let t1 = with_routes(t0@, index, k, a1);
                assert(table@.prefixes == t1.prefixes);
            }
        },
        // The route was rejected by the import policies.
        None => {
            let removed = adj_rib.remove_in_post();
            let ghost a1 = *adj_rib;
            proof {
                views_insert(before, k, *dest);
                with_routes_ok(t0@, index, k, a1);
            }
            if let Some(route) = removed {
                let nexthop = route.nexthop::<A>();
                proof {
                    use_dropped_wf(t0@.nht, *prefix, nexthop);
                    use_dropped_fewer(t0@.nht, *prefix, nexthop);
                    let dropped = use_dropped(t0@.nht, *prefix, nexthop);
                    assert forall|a: IpAddr, p: IpNetwork| #[trigger] uses(dropped, a, p) + (n - 1) <= u32::MAX by {
                        assert(uses(t0@.nht, a, p) + n <= u32::MAX);
                    }
                }
                nexthop_untrack(&mut table.nht, prefix, nexthop, ibus);
            }
            proof {
                let t1 = with_routes(t0@, index, k, a1);
                assert(table@.prefixes == t1.prefixes);
            }
        },
    }

    // Enqueue prefix for the BGP Decision Process.
    let ghost mid = table@;
    table.queued_prefixes.insert(*prefix);
    proof {
        let adj_rib = if route is Some {
            a0.with_in_post(Some((route->0, fresh())))
        } else {
            a0.with_in_post(None)
        };
        let t1 = with_routes(t0@, index, k, adj_rib);
        assert(table@.prefixes == t1.prefixes);
        assert(table_ok(t1));
        assert forall|n: IpNetwork, i: PeerIndex|
            #![trigger table@.prefixes[n].adj_rib.contains_key(i)]
            table@.prefixes.contains_key(n) && table@.prefixes[n].adj_rib.contains_key(i) implies adj_rib_ok(
            table@.prefixes[n].adj_rib[i],
        ) by {
            assert(t1.prefixes[n].adj_rib.contains_key(i));
        }
    }
}

fn import_prefixes<A: AddressFamily>(
    table: &mut RoutingTable,
    index: PeerIndex,
    prefixes: &Vec<IpNetwork>,
    route: &Option<Route>,
    ibus: &mut Vec<IbusMsg>,
    Ghost(n): Ghost<int>,
)
    requires
        all_valid(prefixes@),
        table_ok(old(table)@),
        n >= prefixes@.len(),
        nht_room(old(table)@.nht, n),
        route matches Some(r) ==> r.attrs.attrs().base.nexthop is Some,
    ensures
        (Progress { table: final(table)@, ibus: final(ibus)@ }) == import_group::<A>(
            Progress { table: old(table)@, ibus: old(ibus)@ },
            index,
            prefixes@,
            *route,
        ),
        table_ok(final(table)@),
        nht_room(final(table)@.nht, n - prefixes@.len()),
{
    let ghost start = Progress { table: table@, ibus: ibus@ };
    let mut i: usize = 0;
    assert(prefixes@.take(0) =~= Seq::empty());
    while i < prefixes.len()
        invariant
            i <= prefixes@.len(),
            all_valid(prefixes@),
            table_ok(table@),
            n >= prefixes@.len(),
            nht_room(table@.nht, n - i),
            route matches Some(r) ==> r.attrs.attrs().base.nexthop is Some,
            (Progress { table: table@, ibus: ibus@ }) == import_group::<A>(
                start,
                index,
                prefixes@.take(i as int),
                *route,
            ),
        decreases prefixes@.len() - i,
    {
        import_prefix::<A>(table, index, &prefixes[i], route, ibus, Ghost(n - i));
        proof {
            let next = prefixes@.take(i + 1);
            assert(next.drop_last() =~= prefixes@.take(i as int));
            assert(next.last() == prefixes@[i as int]);
        }
        i += 1;
    }
    assert(prefixes@.take(i as int) =~= prefixes@);
}

/// What the results of import policies come to.
pub open spec fn imported<A: AddressFamily>(
    rib: Rib,
    old_rib: Rib,
    ibus: Seq<IbusMsg>,
    old_ibus: Seq<IbusMsg>,
    index: PeerIndex,
    groups: Seq<PolicyGroup>,
    routes: Seq<Option<Route>>,
) -> bool {
    &&& (Progress { table: A::table_of(rib.tables)@, ibus }) == import_groups::<A>(
        Progress { table: A::table_of(old_rib.tables)@, ibus: old_ibus },
        index,
        groups,
        routes,
    )
    &&& rib.tables == A::with_table(old_rib.tables, A::table_of(rib.tables))
    &&& got_all(old_rib.attr_sets, rib.attr_sets, attrs_of_routes(routes))
}

/// Processes the results of the import policies of a neighbor. Says whether
/// the Decision Process is to be scheduled: unless the session is gone.
pub fn process_nbr_policy_import<A: AddressFamily>(
    nbr: Option<&Session>,
    rib: &mut Rib,
    routes: &Vec<PolicyGroup>,
    now: Instant,
    ibus: &mut Vec<IbusMsg>,
) -> (schedule: bool)
    requires
        groups_ok(routes@),
        table_ok(A::table_of(old(rib).tables)@),
        rib_ready(*old(rib), routes@.len()),
        nht_room(A::table_of(old(rib).tables)@.nht, prefix_count(routes@) as int),
    ensures
        schedule == (nbr matches Some(n) && n.state == State::Established),
        !schedule ==> *final(rib) == *old(rib) && final(ibus)@ == old(ibus)@,
        schedule ==> exists|list: Seq<Option<Route>>|
            {
                &&& routes_for(list, routes@, now)
                &&& #[trigger] imported::<A>(
                    *final(rib),
                    *old(rib),
                    final(ibus)@,
                    old(ibus)@,
                    nbr->0.index,
                    routes@,
                    list,
                )
                &&& all_shared(final(rib).attr_sets, attrs_of_routes(list))
            },
        final(rib).attr_sets.wf(),
        keeps_shared(old(rib).attr_sets, final(rib).attr_sets),
        spends(old(rib).attr_sets, final(rib).attr_sets, routes@.len()),
        table_ok(A::table_of(final(rib).tables)@),
{
    // Lookup neighbor.
    let nbr = match nbr {
        Some(nbr) => nbr,
        None => {
            return false;
        },
    };
    match nbr.state {
        State::Established => {},
        _ => {
            return false;
        },
    }
    let index = nbr.index;
    let ghost rib0 = *rib;
    let ghost start = Progress { table: A::table_of(rib0.tables)@, ibus: ibus@ };
    let ghost total = prefix_count(routes@) as int;
    let ghost mut list: Seq<Option<Route>> = Seq::empty();
    let mut i: usize = 0;
    proof {
        assert(routes@.take(0) =~= Seq::empty());
        A::table_restored(rib0.tables);
        got_none(rib0.attr_sets);
    }
    while i < routes.len()
        invariant
            i <= routes@.len(),
            groups_ok(routes@),
            total == prefix_count(routes@),
            rib_ready(*rib, (routes@.len() - i) as nat),
            table_ok(A::table_of(rib.tables)@),
            nht_room(A::table_of(rib.tables)@.nht, total - prefix_count(routes@.take(i as int))),
            routes_for(list, routes@.take(i as int), now),
            got_all(rib0.attr_sets, rib.attr_sets, attrs_of_routes(list)),
            start.ibus == old(ibus)@,
            start.table == A::table_of(rib0.tables)@,
            (Progress { table: A::table_of(rib.tables)@, ibus: ibus@ }) == import_groups::<A>(
                start,
                index,
                routes@.take(i as int),
                list,
            ),
            rib.tables == A::with_table(rib0.tables, A::table_of(rib.tables)),
        decreases routes@.len() - i,
    {
        let ghost done = routes@.take(i as int);
        let ghost next = routes@.take(i + 1);
        let ghost rib1 = *rib;
        let ghost ibus1 = ibus@;
        proof {
            assert(next.drop_last() =~= done);
            assert(next.last() == routes@[i as int]);
            prefix_count_prefix(routes@, i + 1);
            assert(rib_ready(*rib, (routes@.len() - i) as nat));
        }

        // Intern the attribute sets once for all prefixes sharing the same
        // policy result.
        let group = &routes[i];
        let route: Option<Route> = match &group.result {
            PolicyResult::Accept(rpinfo) => {
                let route_attrs = rib.attr_sets.get_route_attr_sets(&rpinfo.attrs);
                Some(Route::new(route_attrs, now))
            },
            PolicyResult::Reject => None,
        };
        let table = A::table(&mut rib.tables);
        import_prefixes::<A>(
            table,
            index,
            &group.prefixes,
            &route,
            ibus,
            Ghost(total - prefix_count(done)),
        );
        proof {
            A::table_replaced(rib1.tables, *table);
            A::table_replaced_twice(rib0.tables, A::table_of(rib1.tables), *table);
            let old_list = list;
            list = list.push(route);
            attrs_of_routes_push(old_list, route);
            if route is Some {
                got_more(
                    rib0.attr_sets,
                    rib1.attr_sets,
                    rib.attr_sets,
                    attrs_of_routes(old_list),
                    route->0.attrs,
                );
            }
            import_groups_prefix::<A>(start, index, done, old_list, list);
            assert forall|k: int| 0 <= k < next.len() implies route_for(list[k], (#[trigger] next[k]).result, now) by {
                if k < i {
                    assert(done[k] == next[k]);
                    assert(list[k] == old_list[k]);
                }
            }
        }
        i += 1;
    }
    proof {
        assert(routes@.take(i as int) =~= routes@);
        attrs_of_routes_len(list);
        interning_shares(rib0.attr_sets, rib.attr_sets, attrs_of_routes(list));
        spends_less(rib0.attr_sets, rib.attr_sets, attrs_of_routes(list).len(), routes@.len());
        assert(imported::<A>(*rib, rib0, ibus@, old(ibus)@, index, routes@, list));
    }
    true
}

proof fn prefix_count_prefix(groups: Seq<PolicyGroup>, n: int)
    requires
        0 <= n <= groups.len(),
    ensures
        prefix_count(groups.take(n)) <= prefix_count(groups),
    decreases groups.len() - n,
{
    if n < groups.len() {
        prefix_count_prefix(groups, n + 1);
        assert(groups.take(n + 1).drop_last() =~= groups.take(n));
    } else {
        assert(groups.take(n) =~= groups);
    }
}

/// Only the routes of the groups themselves matter.
proof fn import_groups_prefix<A: AddressFamily>(
    p: Progress,
    index: PeerIndex,
    groups: Seq<PolicyGroup>,
    a: Seq<Option<Route>>,
    b: Seq<Option<Route>>,
)
    requires
        a.len() >= groups.len(),
        b.len() >= groups.len(),
        forall|i: int| 0 <= i < groups.len() ==> a[i] == b[i],
    ensures
        import_groups::<A>(p, index, groups, a) == import_groups::<A>(p, index, groups, b),
    decreases groups.len(),
{
    if groups.len() > 0 {
        import_groups_prefix::<A>(p, index, groups.drop_last(), a, b);
    }
}

// ===== connections, messages and timers =====

/// What is to be done about a TCP connection that a neighbor has opened, or
/// that was opened to it.
#[derive(Clone, Copy, Debug, PartialEq, Eq, Structural)]
pub enum ConnAction {
    /// The connection is dropped.
    Ignore,
    /// The connection is handed to the session of the neighbor.
    Connected,
}

/// What a TCP connection is used for: one from an address that is not configured
/// is ignored, and so is a second one, until collisions can be resolved.
pub open spec fn conn_action(nbr: Option<&Session>) -> ConnAction {
    match nbr {
        Some(n) => if n.conn_info is None {
            ConnAction::Connected
        } else {
            ConnAction::Ignore
        },
        None => ConnAction::Ignore,
    }
}

fn decide_connection(nbr: Option<&Session>) -> (action: ConnAction)
    ensures
        action == conn_action(nbr),
{
    match nbr {
        Some(nbr) => {
            // Workaround to prevent connection collision until collision
            // resolution is implemented.
            if nbr.conn_info.is_some() {
                ConnAction::Ignore
            } else {
                ConnAction::Connected
            }
        },
        None => ConnAction::Ignore,
    }
}

/// Decides on a TCP connection that a neighbor has opened. One that is used is
/// initialized before it is handed over.
pub fn process_tcp_accept(nbr: Option<&Session>) -> (action: ConnAction)
    ensures
        action == conn_action(nbr),
{
    decide_connection(nbr)
}

/// Decides on a TCP connection that was opened to a neighbor. Returns whether
/// the task that has opened it is over, which it is for each neighbor that is
/// configured, and what the connection is used for.
pub fn process_tcp_connect(nbr: Option<&Session>) -> (r: (bool, ConnAction))
    ensures
        r == (nbr is Some, conn_action(nbr)),
{
    (nbr.is_some(), decide_connection(nbr))
}

/// Decides whether an expired timer is handed to the session of a neighbor:
/// where the neighbor is configured.
pub fn process_nbr_timer(nbr: Option<&Session>) -> (r: bool)
    ensures
        r == (nbr is Some),
{
    nbr.is_some()
}

/// What was received from a neighbor.
#[derive(Clone, Copy, Debug, PartialEq, Eq, Structural)]
pub enum NbrRx {
    Msg(MessageType),
    TcpConnClosed,
    MsgDecodeError,
}

/// Events of the session of a neighbor.
#[derive(Clone, Copy, Debug, PartialEq, Eq, Structural)]
pub enum SessionEvent {
    RcvdOpen,
    RcvdUpdate,
    RcvdNotif,
    RcvdKalive,
    ConnFail,
    RcvdError,
}

/// What is to be done about something received from a neighbor, in this order:
/// trace it, count it, hand the event to the session, then process the
/// contents.
#[derive(Clone, Copy, Debug, PartialEq, Eq, Structural)]
pub struct MsgPlan {
    pub trace: bool,
    pub count: bool,
    pub event: Option<SessionEvent>,
    pub process_update: bool,
    pub record_notification: bool,
    pub process_route_refresh: bool,
}

/// The plan for something received from a neighbor.
pub open spec fn msg_plan(traced: bool, rx: NbrRx) -> MsgPlan {
    let is_msg = rx is Msg;
    MsgPlan {
        trace: is_msg && traced,
        count: is_msg,
        event: match rx {
            NbrRx::Msg(MessageType::Open) => Some(SessionEvent::RcvdOpen),
            NbrRx::Msg(MessageType::Update) => Some(SessionEvent::RcvdUpdate),
            NbrRx::Msg(MessageType::Notification) => Some(SessionEvent::RcvdNotif),
            NbrRx::Msg(MessageType::Keepalive) => Some(SessionEvent::RcvdKalive),
            NbrRx::Msg(MessageType::RouteRefresh) => None,
            NbrRx::TcpConnClosed => Some(SessionEvent::ConnFail),
            NbrRx::MsgDecodeError => Some(SessionEvent::RcvdError),
        },
        process_update: rx == NbrRx::Msg(MessageType::Update),
        record_notification: rx == NbrRx::Msg(MessageType::Notification),
        process_route_refresh: rx == NbrRx::Msg(MessageType::RouteRefresh),
    }
}

/// Decides what is to be done about something received from a neighbor. What
/// comes from an address that is not configured is ignored.
pub fn process_nbr_msg(nbr: Option<&Neighbor>, rx: NbrRx) -> (plan: Option<MsgPlan>)
    ensures
        match nbr {
            Some(n) => plan == Some(
                msg_plan(
                    rx matches NbrRx::Msg(msg) && n.config.trace_opts.packets_resolved.option(msg).rx,
                    rx,
                ),
            ),
            None => plan is None,
        },
{
    let nbr = match nbr {
        Some(nbr) => nbr,
        None => {
            return None;
        },
    };
    let idle = MsgPlan {
        trace: false,
        count: false,
        event: None,
        process_update: false,
        record_notification: false,
        process_route_refresh: false,
    };
    let plan = match rx {
        NbrRx::Msg(msg) => {
            let trace = nbr.config.trace_opts.packets_resolved.rx(msg);
            match msg {
                MessageType::Open => MsgPlan {
                    trace,
                    count: true,
                    event: Some(SessionEvent::RcvdOpen),
                    ..idle
                },
                MessageType::Update => MsgPlan {
                    trace,
                    count: true,
                    event: Some(SessionEvent::RcvdUpdate),
                    process_update: true,
                    ..idle
                },
                MessageType::Notification => MsgPlan {
                    trace,
                    count: true,
                    event: Some(SessionEvent::RcvdNotif),
                    record_notification: true,
                    ..idle
                },
                MessageType::Keepalive => MsgPlan {
                    trace,
                    count: true,
                    event: Some(SessionEvent::RcvdKalive),
                    ..idle
                },
                MessageType::RouteRefresh => MsgPlan {
                    trace,
                    count: true,
                    process_route_refresh: true,
                    ..idle
                },
            }
        },
        NbrRx::TcpConnClosed => MsgPlan { event: Some(SessionEvent::ConnFail), ..idle },
        NbrRx::MsgDecodeError => MsgPlan { event: Some(SessionEvent::RcvdError), ..idle },
    };
    Some(plan)
}

/// Address family numbers.
pub const AFI_IPV4: u16 = 1;

pub const AFI_IPV6: u16 = 2;

/// Subsequent address family numbers.
pub const SAFI_UNICAST: u8 = 1;

/// The address family that a ROUTE-REFRESH message is about, if it is a
/// supported one.
pub open spec fn refresh_family(afi: u16, safi: u8) -> Option<AfiSafi> {
    if safi != SAFI_UNICAST {
        None
    } else if afi == AFI_IPV4 {
        Some(AfiSafi::Ipv4Unicast)
    } else if afi == AFI_IPV6 {
        Some(AfiSafi::Ipv6Unicast)
    } else {
        None
    }
}

/// Decides which address family is to be sent again to a neighbor that asks
/// for it. `advertised` are the address families of the capabilities that were
/// advertised to it: a message about any other is ignored.
pub fn process_nbr_route_refresh(afi: u16, safi: u8, advertised: &OrdSet<AfiSafi>) -> (r: Option<AfiSafi>)
    ensures
        r == (match refresh_family(afi, safi) {
            Some(af) => if advertised@.contains(af) {
                Some(af)
            } else {
                None
            },
            None => None,
        }),
{
    if safi != SAFI_UNICAST {
        // Ignore unknown or unsupported SAFI.
        return None;
    }
    let af = if afi == AFI_IPV4 {
        AfiSafi::Ipv4Unicast
    } else if afi == AFI_IPV6 {
        AfiSafi::Ipv6Unicast
    } else {
        // Ignore unknown AFI.
        return None;
    };
    if advertised.contains(&af) {
        Some(af)
    } else {
        None
    }
}

} // verus!
