//! What the tables of routes and the rounds of the Decision Process promise: what is kept
//! of a route, and which neighbor hears of it.

use std::sync::Arc;

use vstd::prelude::*;

use crate::bgp::af::{AddressFamily, Ipv4Unicast, Ipv6Unicast};
use crate::bgp::attribute::AttrsView;
use crate::bgp::configuration::Neighbor;
use crate::bgp::decision::{
    after_withdrawal, offers_for, prunable, receives, redistributed, was_queued, withdrawals_for, Selection,
};
use crate::bgp::events::{
    adj_rib_of, attrs_of_routes, dest_of, import_group, import_groups, origin_of, post_nexthop, reach_all, reached,
    received, route_type_of, step_done, unreach_all, with_adj_rib, NlriStepView, PolicyApplyMsg, Progress, Shared,
    UpdateRun,
};
use crate::bgp::export::{
    all_requests, batched, export_group, export_groups, export_key, export_request, group_attrs, group_requests,
    offered, requests_made, withdrawn, ExportKey, ExportRequest, Offer, Outgoing,
};
use crate::bgp::intern::{AttrSetsCxt, RouteAttrs};
use crate::bgp::neighbor::Session;
use crate::bgp::policy::{
    result_is, Accepted, Outcome, PolicyGroup, PolicyResult, RoutePolicyInfo, RoutePolicyView,
};
use crate::bgp::process::{pruned, round, table_selected};
use crate::bgp::rib::{
    AdjRib, DestinationView, Rib, Route, RouteOrigin, RoutingTable, SelectionState, TableView,
};
use crate::bgp::types::{AfiSafi, Instant, PeerIndex, RouteType};
use crate::ip::{IpAddr, IpNetwork};

verus! {

// ===== routes of a neighbor =====

/// What was received is kept with where it came from, and a later route replaces it. What
/// was accepted of it and what was sent stay as they are.
pub proof fn received_routes_replace_one_another(a: AdjRib, origin: RouteOrigin, t: RouteType, route: Route)
    ensures
        ({
            let b = a.with_in_pre(origin, t, route);
            &&& b.spec_in_pre() == Some(route)
            &&& b.spec_in_post() == a.spec_in_post()
            &&& b.adj_out == a.adj_out
            &&& a.adj_in is None ==> (b.adj_in->0).origin == origin && (b.adj_in->0).route_type == t
            &&& a.adj_in is Some ==> (b.adj_in->0).origin == (a.adj_in->0).origin && (b.adj_in->0).route_type == (
            a.adj_in->0).route_type
        }),
{
}

/// What is accepted of a received route replaces what was accepted before, and needs a
/// received route. Selecting it keeps the route.
pub proof fn accepted_routes_replace_one_another(
    a: AdjRib,
    post: Option<(Route, SelectionState)>,
    selection: SelectionState,
    route: Route,
    old: SelectionState,
)
    ensures
        a.adj_in is Some ==> a.with_in_post(post).spec_in_post() == post,
        a.adj_in is None ==> a.with_in_post(post) == a,
        a.with_in_post(post).spec_in_pre() == a.spec_in_pre(),
        a.with_in_post(post).adj_out == a.adj_out,
        a.spec_in_post() == Some((route, old)) ==> a.with_selection(selection).spec_in_post() == Some(
            (route, selection),
        ),
        a.spec_in_post() is None ==> a.with_selection(selection) == a,
        a.with_selection(selection).spec_in_pre() == a.spec_in_pre(),
        a.with_selection(selection).adj_out == a.adj_out,
{
}

/// What is offered to a neighbor, and what is sent of it, replace what was there before,
/// and leave what was received as it is.
pub proof fn sent_routes_replace_one_another(a: AdjRib, route: Route, post: Option<Route>)
    ensures
        a.with_out_pre(route).spec_out_pre() == Some(route),
        a.with_out_pre(route).spec_out_post() == a.spec_out_post(),
        a.with_out_pre(route).adj_in == a.adj_in,
        a.adj_out is Some ==> a.with_out_post(post).spec_out_post() == post,
        a.adj_out is None ==> a.with_out_post(post) == a,
        a.with_out_post(post).spec_out_pre() == a.spec_out_pre(),
        a.with_out_post(post).adj_in == a.adj_in,
{
}

/// Without any route of a neighbor there is nothing of it, and without any route to a
/// destination nothing of that.
pub proof fn absent_routes_are_nothing(d: DestinationView, i: PeerIndex, j: PeerIndex, a: AdjRib, n: IpNetwork)
    requires
        i != j,
    ensures
        d.adj_rib.contains_key(i) ==> adj_rib_of(d, i) == d.adj_rib[i],
        !d.adj_rib.contains_key(i) ==> adj_rib_of(d, i).adj_in is None && adj_rib_of(d, i).adj_out is None,
        adj_rib_of(with_adj_rib(d, i, a), i) == a,
        adj_rib_of(with_adj_rib(d, i, a), j) == adj_rib_of(d, j),
        with_adj_rib(d, i, a).local == d.local && with_adj_rib(d, i, a).redistribute == d.redistribute,
        ({
            let none = dest_of(Map::empty(), n);
            none.local is None && none.redistribute is None && none.adj_rib.dom().is_empty()
        }),
{
}

/// A redistributed route comes from its protocol, counts as internal, has just been
/// changed, and has the attributes that were accepted. Other routes stay.
pub proof fn redistributed_routes_are_internal(
    dest: DestinationView,
    old_dest: DestinationView,
    rpinfo: RoutePolicyInfo,
    now: Instant,
    old_sets: AttrSetsCxt,
    sets: AttrSetsCxt,
)
    requires
        redistributed(dest, old_dest, rpinfo, now, old_sets, sets),
    ensures
        dest.local == old_dest.local && dest.adj_rib == old_dest.adj_rib,
        dest.redistribute is Some,
        ({
            let r = dest.redistribute->0;
            &&& r.origin == rpinfo.origin && r.route_type == RouteType::Internal && r.last_modified == now
            &&& r.attrs.attrs() == rpinfo@.attrs
        }),
{
}

// ===== messages =====

/// The prefixes of an UPDATE message are stored or withdrawn in the table of their family,
/// if it is enabled on the session. The other table, and what else there is, stay.
pub proof fn steps_concern_their_family(
    next: UpdateRun,
    prev: UpdateRun,
    nbr: Neighbor,
    prefixes: Seq<IpNetwork>,
    attrs: AttrsView,
    asn: u32,
    shared: Shared,
    now: Instant,
)
    ensures
        ({
            let step = NlriStepView::Reach { af: AfiSafi::Ipv4Unicast, prefixes, attrs };
            step_done(next, prev, nbr, step, asn, shared, now) ==> {
                &&& next.ibus == prev.ibus
                &&& !nbr.session.ipv4_unicast_enabled ==> next.msg is None && next.rib == prev.rib
                &&& nbr.session.ipv4_unicast_enabled ==> next.msg is Some && next.rib.tables.ipv6_unicast
                    == prev.rib.tables.ipv6_unicast && exists|ra: Arc<RouteAttrs>| #[trigger]
                    reached::<Ipv4Unicast>(next.rib, prev.rib, nbr@, prefixes, attrs, asn, now, ra)
            }
        }),
        ({
            let step = NlriStepView::Reach { af: AfiSafi::Ipv6Unicast, prefixes, attrs };
            step_done(next, prev, nbr, step, asn, shared, now) ==> {
                &&& next.ibus == prev.ibus
                &&& !nbr.session.ipv6_unicast_enabled ==> next.msg is None && next.rib == prev.rib
                &&& nbr.session.ipv6_unicast_enabled ==> next.msg is Some && next.rib.tables.ipv4_unicast
                    == prev.rib.tables.ipv4_unicast && exists|ra: Arc<RouteAttrs>| #[trigger]
                    reached::<Ipv6Unicast>(next.rib, prev.rib, nbr@, prefixes, attrs, asn, now, ra)
            }
        }),
        ({
            let step = NlriStepView::Unreach { af: AfiSafi::Ipv4Unicast, prefixes };
            step_done(next, prev, nbr, step, asn, shared, now) ==> {
                let r = unreach_all::<Ipv4Unicast>(
                    Progress { table: prev.rib.tables.ipv4_unicast@, ibus: prev.ibus },
                    nbr.session.index,
                    prefixes,
                );
                &&& next.msg is None && next.rib.tables.ipv6_unicast == prev.rib.tables.ipv6_unicast
                &&& nbr.session.ipv4_unicast_enabled ==> next.rib.tables.ipv4_unicast@ == r.table && next.ibus
                    == r.ibus
                &&& !nbr.session.ipv4_unicast_enabled ==> next.rib.tables.ipv4_unicast@
                    == prev.rib.tables.ipv4_unicast@ && next.ibus == prev.ibus
            }
        }),
        ({
            let step = NlriStepView::Unreach { af: AfiSafi::Ipv6Unicast, prefixes };
            step_done(next, prev, nbr, step, asn, shared, now) ==> {
                let r = unreach_all::<Ipv6Unicast>(
                    Progress { table: prev.rib.tables.ipv6_unicast@, ibus: prev.ibus },
                    nbr.session.index,
                    prefixes,
                );
                &&& next.msg is None && next.rib.tables.ipv4_unicast == prev.rib.tables.ipv4_unicast
                &&& nbr.session.ipv6_unicast_enabled ==> next.rib.tables.ipv6_unicast@ == r.table && next.ibus
                    == r.ibus
                &&& !nbr.session.ipv6_unicast_enabled ==> next.rib.tables.ipv6_unicast@
                    == prev.rib.tables.ipv6_unicast@ && next.ibus == prev.ibus
            }
        }),
{
}

/// Received prefixes are stored with the attributes as they are taken over from the
/// neighbor, and with where and when they came from.
pub proof fn prefixes_are_stored_with_their_attributes<A: AddressFamily>(
    rib: Rib,
    old_rib: Rib,
    nbr: Neighbor,
    prefixes: Seq<IpNetwork>,
    attrs: AttrsView,
    asn: u32,
    now: Instant,
    ra: Arc<RouteAttrs>,
)
    requires
        reached::<A>(rib, old_rib, nbr@, prefixes, attrs, asn, now, ra),
    ensures
        ra.attrs() == received(attrs, nbr@.config, asn),
        A::table_of(rib.tables)@ == reach_all(
            A::table_of(old_rib.tables)@,
            nbr.session.index,
            prefixes,
            origin_of(nbr.session),
            route_type_of(nbr.session.peer_type),
            Route { attrs: ra, last_modified: now },
        ),
{
}

/// What policies decided of groups of prefixes is taken over group by group, in order, and
/// with each group the attributes that were accepted.
pub proof fn groups_are_imported_in_turn<A: AddressFamily>(
    p: Progress,
    index: PeerIndex,
    groups: Seq<PolicyGroup>,
    group: PolicyGroup,
    routes: Seq<Option<Route>>,
    route: Route,
)
    requires
        routes.len() == groups.len() + 1,
    ensures
        import_groups::<A>(p, index, Seq::empty(), routes) == p,
        import_groups::<A>(p, index, groups.push(group), routes) == import_group::<A>(
            import_groups::<A>(p, index, groups, routes),
            index,
            group.prefixes@,
            routes[groups.len() as int],
        ),
        attrs_of_routes(Seq::empty()).len() == 0,
        attrs_of_routes(routes.push(Some(route))) == attrs_of_routes(routes).push(route.attrs),
        attrs_of_routes(routes.push(None)) == attrs_of_routes(routes),
{
    assert(groups.push(group).drop_last() =~= groups);
    assert(routes.push(Some(route)).drop_last() =~= routes);
    assert(routes.push(None).drop_last() =~= routes);
}

/// The next hop of an accepted route is that of its attributes.
pub proof fn accepted_routes_have_their_nexthop<A: AddressFamily>(a: AdjRib, route: Route, s: SelectionState)
    ensures
        a.spec_in_post() is None ==> post_nexthop::<A>(a) is None,
        a.spec_in_post() == Some((route, s)) ==> post_nexthop::<A>(a) == Some(
            A::nexthop_rx(route.attrs.attrs().base),
        ),
{
}

/// A result says what came out of the policies: accepted with the attributes and whether
/// they were modified, or rejected.
pub proof fn results_say_what_came_out(r: PolicyResult<Accepted>, v: RoutePolicyView, o: Outcome)
    requires
        result_is(r, v, o),
    ensures
        r is Accept == o is Accepted,
        r is Reject == o is Rejected,
        (r matches PolicyResult::Accept(a) && o matches Outcome::Accepted { attrs, modified } && {
            &&& a.rpinfo@.attrs == attrs
            &&& a.modified == modified
        }) || r is Reject,
{
}

// ===== rounds =====

/// A neighbor that receives routes hears of those that it may have and of what is gone, or
/// is not for it; another one hears of nothing.
pub proof fn neighbors_hear_of_what_is_for_them<A: AddressFamily>(
    nbr: Neighbor,
    before: Outgoing,
    after: Outgoing,
    reach: Seq<Offer>,
    unreach: Seq<IpNetwork>,
    verdicts: Seq<bool>,
    shared: Shared,
    msgs: Seq<PolicyApplyMsg>,
    old_sets: AttrSetsCxt,
    sets: AttrSetsCxt,
)
    requires
        round::<A>(nbr, before, after, reach, unreach, verdicts, shared, msgs, old_sets, sets),
    ensures
        !receives::<A>(nbr) ==> after == before && msgs.len() == 0 && sets == old_sets,
        receives::<A>(nbr) ==> {
            let gone = withdrawals_for(reach, unreach, verdicts);
            let mid = after_withdrawal(before, nbr.session.index, gone);
            &&& gone.len() == 0 ==> mid == before
            &&& gone.len() > 0 ==> mid == withdrawn(before, nbr.session.index, gone)
            &&& after.queue == mid.queue
            &&& offers_for(reach, verdicts).len() == 0 ==> after.table == mid.table && msgs.len() == 0 && sets
                == old_sets
        },
{
}

/// After the process nothing is queued, and prefixes without routes are gone, if they were
/// queued. Other prefixes, next hops and counters stay.
pub proof fn processed_prefixes_are_pruned(
    t: TableView,
    before: TableView,
    queued: Seq<IpNetwork>,
    i: int,
    k: IpNetwork,
    table: RoutingTable,
    s: Selection,
)
    requires
        pruned(t, before, queued),
    ensures
        0 <= i < queued.len() && prunable(before.prefixes[queued[i].masked()]) ==> !t.prefixes.contains_key(
            queued[i].masked(),
        ),
        before.prefixes.contains_key(k) && !prunable(before.prefixes[k]) ==> t.prefixes.contains_key(k),
        before.prefixes.contains_key(k) && (forall|j: int|
            0 <= j < queued.len() ==> (#[trigger] queued[j]).masked() != k) ==> t.prefixes.contains_key(k),
        t.prefixes.contains_key(k) ==> before.prefixes.contains_key(k) && t.prefixes[k] == before.prefixes[k],
        t.nht == before.nht && t.prefix_counters == before.prefix_counters,
        table_selected(table, s).queued_prefixes.is_empty(),
        table_selected(table, s).prefix_counters == s.counters,
        s.prefixes.contains_key(k) ==> table_selected(table, s).prefixes[k] == s.prefixes[k]@,
{
    if 0 <= i < queued.len() {
        assert(was_queued(queued, queued[i].masked()));
    }
}

// ===== requests to policies =====

/// Export policies are asked about group after group, in the order of their keys, each with
/// the attributes of its first offer.
pub proof fn policies_are_asked_by_group(
    addr: IpAddr,
    keys: Seq<ExportKey>,
    key: ExportKey,
    offers: Seq<Offer>,
    attrs: Seq<Arc<RouteAttrs>>,
    offer: Offer,
    a: Arc<RouteAttrs>,
)
    requires
        offers.len() == attrs.len(),
    ensures
        all_requests(addr, Seq::empty(), offers, attrs).len() == 0,
        all_requests(addr, keys.push(key), offers, attrs) == all_requests(addr, keys, offers, attrs)
            + group_requests(addr, key, group_attrs(offers, attrs, key), offered(offers, attrs, key)),
        offered(offers, attrs.push(a), key).len() > 0 ==> group_attrs(offers.push(offer), attrs.push(a), key)
            == group_attrs(offers, attrs.push(a), key),
        offered(offers, attrs.push(a), key).len() == 0 ==> group_attrs(offers.push(offer), attrs.push(a), key)
            == a.attrs(),
{
    assert(keys.push(key).drop_last() =~= keys);
    assert(offers.push(offer).drop_last() =~= offers);
    assert(attrs.push(a)[offers.len() as int] == a);
}

/// Offers are grouped by where their route comes from, its type and its attributes, and the
/// requests about a group say so.
pub proof fn groups_share_origin_type_and_attributes(
    addr: IpAddr,
    offer: Offer,
    a: Arc<RouteAttrs>,
    key: ExportKey,
    attrs: AttrsView,
    prefixes: Seq<IpNetwork>,
    i: int,
)
    ensures
        export_key(offer, a).origin == offer.route.origin,
        export_key(offer, a).route_type == offer.route.route_type,
        export_key(offer, a).attrs == a.spec_key(),
        ({
            let r = group_requests(addr, key, attrs, prefixes);
            let b = batched(prefixes, 4096);
            &&& r.len() == b.len()
            &&& 0 <= i < r.len() ==> r[i].nbr_addr == addr && r[i].key == key && r[i].attrs == attrs && r[i].prefixes
                == b[i]
        }),
{
}

/// Every request is made, in order.
pub proof fn requests_are_all_made<A: AddressFamily>(
    msgs: Seq<PolicyApplyMsg>,
    nbr: Neighbor,
    shared: Shared,
    requests: Seq<ExportRequest>,
    i: int,
)
    requires
        requests_made::<A>(msgs, nbr, shared, requests),
    ensures
        msgs.len() == requests.len(),
        0 <= i < msgs.len() ==> export_request::<A>(msgs[i], nbr, shared, requests[i]),
{
}

/// What export policies decided is taken over group by group, in order.
pub proof fn groups_are_exported_in_turn(
    o: Outgoing,
    nbr: Session,
    groups: Seq<PolicyGroup>,
    group: PolicyGroup,
    routes: Seq<Option<Route>>,
    asn: u32,
)
    requires
        routes.len() == groups.len() + 1,
    ensures
        export_groups(o, nbr, groups.push(group), routes, asn) == export_group(
            export_groups(o, nbr, groups, routes, asn),
            nbr,
            group,
            routes[groups.len() as int],
            asn,
        ),
        export_groups(o, nbr, Seq::empty(), routes, asn).queue == o.queue,
        export_groups(o, nbr, Seq::empty(), routes, asn).table.prefixes == o.table.prefixes,
        export_groups(o, nbr, Seq::empty(), routes, asn).table.nht == o.table.nht,
{
    assert(groups.push(group).drop_last() =~= groups);
}

} // verus!
