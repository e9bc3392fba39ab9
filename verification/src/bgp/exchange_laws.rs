//! What the exchange of routes with neighbors promises: what becomes of a received
//! UPDATE message, of the answers of policies, and of the routes that are offered.

use std::sync::Arc;

use vstd::prelude::*;

use crate::bgp::af::AddressFamily;
use crate::bgp::attribute::{path_replace, AttrsView};
use crate::bgp::configuration::{InstanceCfgView, MessageType, Neighbor, NeighborCfgView};
use crate::bgp::decision::{
    learned_from, multipath_of, offers_for, prunable, receives, recounted, selection_of, withdrawals_for,
};
use crate::bgp::events::{
    apply_policy_of, conn_action, counted, import_group, import_one, import_request, known_routes, msg_plan,
    msg_steps, origin_of, policies_named, reach_all, reach_one, received, refresh_family, route_for, route_type_of,
    run_msgs, unreach_all, unreach_one, ConnAction, MsgPlan, NbrRx, NlriStepView, PolicyApplyMsg, Progress,
    SessionEvent, Shared, UpdateRun,
};
use crate::bgp::export::{
    accept_all, accept_one, batched, export_group, export_request, group_requests, offer_all, offer_one, offered,
    reject_all, reject_one, with_reach, withdrawn, withdrawn_one, Advertising, ExportKey, ExportRequest, Offer,
    Outgoing, QueueView,
};
use crate::bgp::intern::RouteAttrs;
use crate::bgp::neighbor::{MpReachView, MpUnreachView, Session, State, UpdateView};
use crate::bgp::policy::{Policy, PolicyGroup, PolicyResult, PolicyType, RoutePolicyInfo};
use crate::bgp::process::{in_order, joined};
use crate::bgp::rib::{
    use_added, use_added_msgs, use_dropped, use_dropped_msgs, DestinationView, IbusMsg, PrefixCounters, Route,
    RouteOrigin, TableView,
};
use crate::bgp::types::{AfiSafi, PeerIndex, PeerType, RouteType};
use crate::collections::{OrdSet, Table};
use crate::ip::{IpAddr, IpNetwork, Ipv4Addr};

verus! {

// ===== received messages =====

/// A message is traced if asked to and counted, leads to the event of its kind, and is
/// processed further if it is an UPDATE, a NOTIFICATION or a ROUTE-REFRESH message. What
/// is no message is neither traced nor counted.
pub proof fn messages_lead_to_their_event(traced: bool, msg: MessageType)
    ensures
        msg_plan(traced, NbrRx::Msg(msg)).trace == traced,
        msg_plan(traced, NbrRx::Msg(msg)).count,
        msg_plan(traced, NbrRx::Msg(MessageType::Open)).event == Some(SessionEvent::RcvdOpen),
        msg_plan(traced, NbrRx::Msg(MessageType::Update)).event == Some(SessionEvent::RcvdUpdate),
        msg_plan(traced, NbrRx::Msg(MessageType::Notification)).event == Some(SessionEvent::RcvdNotif),
        msg_plan(traced, NbrRx::Msg(MessageType::Keepalive)).event == Some(SessionEvent::RcvdKalive),
        msg_plan(traced, NbrRx::Msg(MessageType::RouteRefresh)).event is None,
        msg_plan(traced, NbrRx::Msg(msg)).process_update == (msg == MessageType::Update),
        msg_plan(traced, NbrRx::Msg(msg)).record_notification == (msg == MessageType::Notification),
        msg_plan(traced, NbrRx::Msg(msg)).process_route_refresh == (msg == MessageType::RouteRefresh),
        msg_plan(traced, NbrRx::TcpConnClosed) == (MsgPlan {
            trace: false,
            count: false,
            event: Some(SessionEvent::ConnFail),
            process_update: false,
            record_notification: false,
            process_route_refresh: false,
        }),
        msg_plan(traced, NbrRx::MsgDecodeError) == (MsgPlan {
            trace: false,
            count: false,
            event: Some(SessionEvent::RcvdError),
            process_update: false,
            record_notification: false,
            process_route_refresh: false,
        }),
{
}

/// A connection is taken only for a known neighbor that has none yet.
pub proof fn connections_are_taken_once(nbr: &Session)
    ensures
        conn_action(None) == ConnAction::Ignore,
        nbr.conn_info is None ==> conn_action(Some(nbr)) == ConnAction::Connected,
        nbr.conn_info is Some ==> conn_action(Some(nbr)) == ConnAction::Ignore,
{
}

/// Routes can be asked for again in the unicast families: AFI 1 is IPv4, AFI 2 is IPv6,
/// and SAFI 1 is unicast.
pub proof fn unicast_families_can_be_refreshed(afi: u16, safi: u8)
    ensures
        refresh_family(1, 1) == Some(AfiSafi::Ipv4Unicast),
        refresh_family(2, 1) == Some(AfiSafi::Ipv6Unicast),
        safi != 1 ==> refresh_family(afi, safi) is None,
        afi != 1 && afi != 2 ==> refresh_family(afi, safi) is None,
{
}

/// An UPDATE message first reaches its prefixes, then those of its multiprotocol
/// attribute, and then withdraws in the same order.
pub proof fn updates_reach_before_they_withdraw(msg: UpdateView)
    ensures
        ({
            let a: int = if msg.reach is Some {
                1
            } else {
                0
            };
            let b: int = a + if msg.mp_reach is Some {
                1int
            } else {
                0
            };
            let c: int = b + if msg.unreach is Some {
                1int
            } else {
                0
            };
            let steps = msg_steps(msg);
            &&& steps.len() == c + if msg.mp_unreach is Some {
                1int
            } else {
                0
            }
            &&& msg.reach matches Some(r) ==> reaches(steps[0], AfiSafi::Ipv4Unicast, r.0, msg, IpAddr::V4(r.1))
            &&& msg.mp_reach matches Some(MpReachView::Ipv4Unicast { prefixes, nexthop }) ==> reaches(
                steps[a],
                AfiSafi::Ipv4Unicast,
                prefixes,
                msg,
                IpAddr::V4(nexthop),
            )
            &&& msg.mp_reach matches Some(MpReachView::Ipv6Unicast { prefixes, nexthop, ll_nexthop }) ==> reaches(
                steps[a],
                AfiSafi::Ipv6Unicast,
                prefixes,
                msg,
                IpAddr::V6(nexthop),
            ) && (msg.attrs is Some ==> steps[a]->Reach_attrs.base.ll_nexthop == ll_nexthop)
            &&& msg.unreach matches Some(prefixes) ==> steps[b] == (NlriStepView::Unreach {
                af: AfiSafi::Ipv4Unicast,
                prefixes,
            })
            &&& msg.mp_unreach matches Some(MpUnreachView::Ipv4Unicast { prefixes }) ==> steps[c]
                == (NlriStepView::Unreach { af: AfiSafi::Ipv4Unicast, prefixes })
            &&& msg.mp_unreach matches Some(MpUnreachView::Ipv6Unicast { prefixes }) ==> steps[c]
                == (NlriStepView::Unreach { af: AfiSafi::Ipv6Unicast, prefixes })
        }),
{
}

/// Whether a step reaches prefixes with the attributes of a message and a next hop. A
/// message without usable attributes withdraws them instead.
pub open spec fn reaches(
    step: NlriStepView,
    af: AfiSafi,
    prefixes: Seq<IpNetwork>,
    msg: UpdateView,
    nexthop: IpAddr,
) -> bool {
    match msg.attrs {
        Some(a) => {
            &&& step is Reach
            &&& step->Reach_af == af && step->Reach_prefixes == prefixes
            &&& step->Reach_attrs.base.nexthop == Some(nexthop)
            &&& step->Reach_attrs.base.origin == a.base.origin && step->Reach_attrs.base.as_path == a.base.as_path
            &&& step->Reach_attrs.base.med == a.base.med && step->Reach_attrs.base.local_pref == a.base.local_pref
            &&& step->Reach_attrs.comm == a.comm && step->Reach_attrs.ext_comm == a.ext_comm
            &&& step->Reach_attrs.extv6_comm == a.extv6_comm && step->Reach_attrs.large_comm == a.large_comm
            &&& step->Reach_attrs.unknown == a.unknown
        },
        None => step == (NlriStepView::Unreach { af, prefixes }),
    }
}

/// The AS of a peer is replaced in what it sends only if that is configured, and nothing
/// else of the attributes changes.
pub proof fn peer_as_is_replaced_if_configured(attrs: AttrsView, config: NeighborCfgView, asn: u32)
    ensures
        !config.as_path_options.replace_peer_as ==> received(attrs, config, asn) == attrs,
        config.as_path_options.replace_peer_as ==> {
            let r = received(attrs, config, asn);
            &&& r.base.as_path == path_replace(attrs.base.as_path, config.peer_as, asn)
            &&& r.base.origin == attrs.base.origin && r.base.nexthop == attrs.base.nexthop
            &&& r.base.ll_nexthop == attrs.base.ll_nexthop && r.base.med == attrs.base.med
            &&& r.base.local_pref == attrs.base.local_pref
            &&& r.comm == attrs.comm && r.ext_comm == attrs.ext_comm && r.extv6_comm == attrs.extv6_comm
            &&& r.large_comm == attrs.large_comm && r.unknown == attrs.unknown
        },
{
}

/// The policies of an address family go before those of the neighbor.
pub proof fn policies_of_the_family_go_first(config: NeighborCfgView, af: AfiSafi)
    ensures
        config.afi_safi.contains_key(af) ==> apply_policy_of(config, af) == config.afi_safi[af].apply_policy,
        !config.afi_safi.contains_key(af) ==> apply_policy_of(config, af) == config.apply_policy,
{
}

/// A route is internal exactly if its peer is, and comes from its peer's identifier and
/// address.
pub proof fn routes_come_from_their_peer(nbr: Session, id: Ipv4Addr)
    ensures
        route_type_of(PeerType::Internal) == RouteType::Internal,
        route_type_of(PeerType::External) == RouteType::External,
        nbr.identifier == Some(id) ==> origin_of(nbr) == (RouteOrigin::Neighbor {
            identifier: id,
            remote_addr: nbr.remote_addr,
        }),
{
}

/// What is asked of the import policies of a neighbor is about the received prefixes with
/// the received attributes, and follows the neighbor's configuration.
pub proof fn import_requests_follow_the_configuration<A: AddressFamily>(
    msg: PolicyApplyMsg,
    nbr: Neighbor,
    prefixes: Seq<IpNetwork>,
    attrs: AttrsView,
    asn: u32,
    shared: Shared,
)
    requires
        import_request::<A>(msg, nbr, prefixes, attrs, asn, shared),
    ensures
        msg.policy_type == PolicyType::Import,
        msg.nbr_addr == nbr.session.remote_addr,
        msg.afi_safi == A::family(),
        msg.prefixes@ == prefixes,
        msg.route@.attrs == received(attrs, nbr.config@, asn),
        msg.route@.origin == origin_of(nbr.session),
        msg.route@.route_type == route_type_of(nbr.session.peer_type),
        msg.route@.tag is None && msg.route@.opaque_attrs is None && msg.route@.igp_metric is None,
        msg.default_policy == apply_policy_of(nbr.config@, A::family()).default_import_policy,
        msg.match_sets == shared.match_sets,
        exists|names: OrdSet<String>|
            names@ == apply_policy_of(nbr.config@, A::family()).import_policy && #[trigger] policies_named(
                msg.policies@,
                names,
                shared,
            ),
{
}

/// Policies are those of the given names, in the order of the names.
pub proof fn policies_are_found_by_name(policies: Seq<Arc<Policy>>, names: OrdSet<String>, shared: Shared, i: int)
    requires
        policies_named(policies, names, shared),
        0 <= i < policies.len(),
    ensures
        policies.len() == names.items().len(),
        policies[i] == shared.policies@[names.items()[i]],
{
}

// ===== routes that are received =====

/// Whether the routes of all destinations but one, and of all peers but one there, are
/// the same, and so is what else a table holds.
pub open spec fn only_routes_of(
    t: TableView,
    before: TableView,
    index: PeerIndex,
    k: IpNetwork,
    other: IpNetwork,
    peer: PeerIndex,
) -> bool {
    &&& other != k ==> t.prefixes.contains_key(other) == before.prefixes.contains_key(other) && t.prefixes[other]
        == before.prefixes[other]
    &&& before.prefixes.contains_key(k) ==> {
        &&& t.prefixes[k].local == before.prefixes[k].local
        &&& t.prefixes[k].redistribute == before.prefixes[k].redistribute
        &&& peer != index ==> t.prefixes[k].adj_rib.contains_key(peer) == before.prefixes[k].adj_rib.contains_key(peer)
            && t.prefixes[k].adj_rib[peer] == before.prefixes[k].adj_rib[peer]
    }
}

/// A received route is stored as it was before policies, at the masked prefix and for the
/// peer that sent it. What policies made of an earlier one stays until they answer.
pub proof fn received_routes_are_stored(
    t: TableView,
    index: PeerIndex,
    prefix: IpNetwork,
    origin: RouteOrigin,
    route_type: RouteType,
    route: Route,
    other: IpNetwork,
    peer: PeerIndex,
)
    ensures
        ({
            let k = prefix.masked();
            let u = reach_one(t, index, prefix, origin, route_type, route);
            let a = u.prefixes[k].adj_rib[index];
            &&& u.prefixes.contains_key(k) && u.prefixes[k].adj_rib.contains_key(index)
            &&& a.adj_in is Some && (a.adj_in->0).pre == route
            &&& match known_routes(t, index, k) {
                Some(before) => {
                    &&& a.adj_out == before.adj_out
                    &&& before.adj_in is Some ==> (a.adj_in->0).post == (before.adj_in->0).post
                    &&& before.adj_in is None ==> (a.adj_in->0).post is None && (a.adj_in->0).origin == origin && (
                    a.adj_in->0).route_type == route_type
                },
                None => a.adj_out is None && (a.adj_in->0).post is None && (a.adj_in->0).origin == origin && (
                a.adj_in->0).route_type == route_type,
            }
            &&& only_routes_of(u, t, index, k, other, peer)
            &&& u.queued_prefixes == t.queued_prefixes && u.nht == t.nht && u.prefix_counters == t.prefix_counters
        }),
{
}

/// Prefixes are reached, withdrawn, accepted and rejected one after the other.
pub proof fn prefixes_are_taken_one_by_one<A: AddressFamily>(
    t: TableView,
    p: Progress,
    o: Outgoing,
    index: PeerIndex,
    prefixes: Seq<IpNetwork>,
    prefix: IpNetwork,
    origin: RouteOrigin,
    route_type: RouteType,
    route: Route,
    result: Option<Route>,
)
    ensures
        reach_all(t, index, prefixes.push(prefix), origin, route_type, route) == reach_one(
            reach_all(t, index, prefixes, origin, route_type, route),
            index,
            prefix,
            origin,
            route_type,
            route,
        ),
        unreach_all::<A>(p, index, prefixes.push(prefix)) == unreach_one::<A>(
            unreach_all::<A>(p, index, prefixes),
            index,
            prefix,
        ),
        import_group::<A>(p, index, prefixes.push(prefix), result) == import_one::<A>(
            import_group::<A>(p, index, prefixes, result),
            index,
            prefix,
            result,
        ),
        import_group::<A>(p, index, Seq::empty(), result) == p,
        accept_all(t, index, prefixes.push(prefix), route) == accept_one(
            accept_all(t, index, prefixes, route),
            index,
            prefix,
            route,
        ),
        accept_all(t, index, Seq::empty(), route) == (Advertising { table: t, advertise: Seq::empty() }),
        reject_all(o, index, prefixes.push(prefix)) == reject_one(reject_all(o, index, prefixes), index, prefix),
        reject_all(o, index, Seq::empty()) == o,
        withdrawn(o, index, prefixes.push(prefix)) == withdrawn_one(withdrawn(o, index, prefixes), index, prefix),
{
    assert(prefixes.push(prefix).drop_last() =~= prefixes);
}

/// Counters of a peer start out at zero and are kept.
pub proof fn counters_start_at_zero(c: Map<PeerIndex, PrefixCounters>, index: PeerIndex, other: PeerIndex)
    ensures
        counted(c, index).contains_key(index),
        c.contains_key(index) ==> counted(c, index)[index] == c[index],
        !c.contains_key(index) ==> counted(c, index)[index].installed == 0,
        other != index ==> counted(c, index).contains_key(other) == c.contains_key(other) && counted(c, index)[other]
            == c[other],
{
}

/// A withdrawn route is gone, before and after policies, and the prefix is to be decided
/// on. A next hop that it used is used once less. A prefix that was never sent is left
/// alone.
pub proof fn withdrawn_routes_are_gone<A: AddressFamily>(
    p: Progress,
    index: PeerIndex,
    prefix: IpNetwork,
    other: IpNetwork,
    peer: PeerIndex,
    post: Route,
)
    ensures
        ({
            let k = prefix.masked();
            let u = unreach_one::<A>(p, index, prefix);
            match known_routes(p.table, index, k) {
                None => u == p,
                Some(before) => {
                    let a = u.table.prefixes[k].adj_rib[index];
                    &&& a.adj_in is None && a.adj_out == before.adj_out
                    &&& u.table.queued_prefixes == p.table.queued_prefixes.insert(prefix)
                    &&& only_routes_of(u.table, p.table, index, k, other, peer)
                    &&& u.table.prefix_counters == p.table.prefix_counters
                    &&& before.adj_in is None || (before.adj_in->0).post is None ==> u.table.nht == p.table.nht
                        && u.ibus == p.ibus
                    &&& before.adj_in is Some && (before.adj_in->0).post is Some && ((before.adj_in->0).post->0).0
                        == post ==> {
                        let addr = A::nexthop_rx(post.attrs.attrs().base);
                        &&& u.table.nht == use_dropped(p.table.nht, prefix, addr)
                        &&& u.ibus == p.ibus + use_dropped_msgs(p.table.nht, prefix, addr)
                    }
                },
            }
        }),
{
}

/// An accepted route is stored after policies with what they made of it and nothing
/// decided yet, next to the received one. A rejected one is not. Either way the prefix is
/// to be decided on, and next hops are followed. Answers about withdrawn routes are void.
pub proof fn answers_of_import_policies_are_stored<A: AddressFamily>(
    p: Progress,
    index: PeerIndex,
    prefix: IpNetwork,
    route: Route,
    other: IpNetwork,
    peer: PeerIndex,
)
    ensures
        ({
            let k = prefix.masked();
            let u = import_one::<A>(p, index, prefix, Some(route));
            let v = import_one::<A>(p, index, prefix, None);
            match known_routes(p.table, index, k) {
                None => u == p && v == p,
                Some(before) => {
                    let a = u.table.prefixes[k].adj_rib[index];
                    let b = v.table.prefixes[k].adj_rib[index];
                    let addr = A::nexthop_rx(route.attrs.attrs().base);
                    &&& u.table.queued_prefixes == p.table.queued_prefixes.insert(prefix)
                    &&& v.table.queued_prefixes == p.table.queued_prefixes.insert(prefix)
                    &&& only_routes_of(u.table, p.table, index, k, other, peer)
                    &&& only_routes_of(v.table, p.table, index, k, other, peer)
                    &&& before.adj_in is None ==> a == before && b == before && u.table.nht == p.table.nht
                        && v.table.nht == p.table.nht && u.ibus == p.ibus && v.ibus == p.ibus
                    &&& before.adj_in is Some ==> {
                        let old = (before.adj_in->0).post;
                        &&& a.adj_in is Some && (a.adj_in->0).post is Some
                        &&& ((a.adj_in->0).post->0).0 == route
                        &&& ((a.adj_in->0).post->0).1.igp_cost is None
                        &&& ((a.adj_in->0).post->0).1.ineligible_reason is None
                        &&& ((a.adj_in->0).post->0).1.reject_reason is None
                        &&& (a.adj_in->0).pre == (before.adj_in->0).pre && a.adj_out == before.adj_out
                        &&& b.adj_in is Some && (b.adj_in->0).post is None
                        &&& (b.adj_in->0).pre == (before.adj_in->0).pre && b.adj_out == before.adj_out
                        &&& old is None ==> {
                            &&& u.table.nht == use_added(p.table.nht, prefix, addr)
                            &&& u.ibus == p.ibus + use_added_msgs(p.table.nht, addr)
                            &&& v.table.nht == p.table.nht && v.ibus == p.ibus
                        }
                        &&& old matches Some(o) ==> {
                            let from = A::nexthop_rx(o.0.attrs.attrs().base);
                            &&& from == addr ==> u.table.nht == p.table.nht && u.ibus == p.ibus
                            &&& from != addr ==> u.table.nht == use_dropped(
                                use_added(p.table.nht, prefix, addr),
                                prefix,
                                from,
                            )
                            &&& v.table.nht == use_dropped(p.table.nht, prefix, from)
                            &&& v.ibus == p.ibus + use_dropped_msgs(p.table.nht, prefix, from)
                        }
                    }
                },
            }
        }),
{
    let none = Seq::<IbusMsg>::empty();
    assert(p.ibus + none =~= p.ibus);
}

/// The route for an answer has the attributes that the policies gave it and the time of
/// the answer; a rejection gives none.
pub proof fn answers_give_their_route(
    route: Option<Route>,
    rpinfo: RoutePolicyInfo,
    now: crate::bgp::types::Instant,
)
    ensures
        route_for(route, PolicyResult::Accept(rpinfo), now) <==> (route matches Some(r) && r.attrs.attrs()
            == rpinfo@.attrs && r.last_modified == now),
        route_for(route, PolicyResult::Reject, now) <==> route is None,
{
}

/// Requests are collected in the order in which they were made.
pub proof fn requests_are_collected_in_order(
    run: Seq<UpdateRun>,
    r: UpdateRun,
    all: Seq<Seq<PolicyApplyMsg>>,
    msgs: Seq<PolicyApplyMsg>,
)
    ensures
        run_msgs(Seq::empty()).len() == 0,
        r.msg is None ==> run_msgs(run.push(r)) == run_msgs(run),
        r.msg matches Some(m) ==> run_msgs(run.push(r)) == run_msgs(run).push(m),
        joined(Seq::empty()).len() == 0,
        joined(all.push(msgs)) == joined(all) + msgs,
{
    assert(run.push(r).drop_last() =~= run);
    assert(all.push(msgs).drop_last() =~= all);
}

// ===== routes that are offered =====

/// A route that was accepted for a neighbor is advertised if it was offered and was not
/// sent with the same attributes before. It is then what was sent.
pub proof fn accepted_routes_are_advertised_once(
    a: Advertising,
    index: PeerIndex,
    prefix: IpNetwork,
    route: Route,
    sent: Route,
    other: IpNetwork,
    peer: PeerIndex,
)
    ensures
        ({
            let k = prefix.masked();
            let b = accept_one(a, index, prefix, route);
            match known_routes(a.table, index, k) {
                None => b == a,
                Some(before) => {
                    &&& before.adj_out is None ==> b.advertise == a.advertise && b.table.prefixes[k].adj_rib[index]
                        == before
                    &&& before.adj_out is Some && (before.adj_out->0).post is None ==> {
                        let after = b.table.prefixes[k].adj_rib[index];
                        &&& b.advertise == a.advertise.push(prefix)
                        &&& after.adj_out is Some && (after.adj_out->0).post == Some(route)
                        &&& (after.adj_out->0).pre == (before.adj_out->0).pre && after.adj_in == before.adj_in
                        &&& only_routes_of(b.table, a.table, index, k, other, peer)
                    }
                    &&& before.adj_out is Some && (before.adj_out->0).post == Some(sent) && sent.attrs.attrs()
                        != route.attrs.attrs() ==> {
                        let after = b.table.prefixes[k].adj_rib[index];
                        &&& b.advertise == a.advertise.push(prefix)
                        &&& after.adj_out is Some && (after.adj_out->0).post == Some(route)
                    }
                    &&& before.adj_out is Some && (before.adj_out->0).post == Some(sent) && sent.attrs.attrs()
                        == route.attrs.attrs() && sent.attrs.spec_key() == route.attrs.spec_key() ==> b == a
                },
            }
        }),
{
}

/// A route that was rejected for a neighbor, or is no longer offered, is withdrawn if it
/// was sent, and is then no longer what was sent. One that was not sent is not withdrawn.
pub proof fn sent_routes_are_withdrawn(
    o: Outgoing,
    index: PeerIndex,
    prefix: IpNetwork,
    other: IpNetwork,
    peer: PeerIndex,
)
    ensures
        ({
            let k = prefix.masked();
            let r = reject_one(o, index, prefix);
            let w = withdrawn_one(o, index, prefix);
            match known_routes(o.table, index, k) {
                None => r == o && w == o,
                Some(before) => {
                    let sent = before.adj_out is Some && (before.adj_out->0).post is Some;
                    let a = r.table.prefixes[k].adj_rib[index];
                    let b = w.table.prefixes[k].adj_rib[index];
                    &&& sent ==> r.queue.unreach == o.queue.unreach.insert(prefix) && w.queue.unreach
                        == o.queue.unreach.insert(prefix)
                    &&& !sent ==> r.queue == o.queue && w.queue == o.queue
                    &&& r.queue.reach == o.queue.reach && w.queue.reach == o.queue.reach
                    &&& a.adj_in == before.adj_in && b.adj_in == before.adj_in
                    &&& b.adj_out is None
                    &&& before.adj_out is Some ==> a.adj_out is Some && (a.adj_out->0).post is None && (
                    a.adj_out->0).pre == (before.adj_out->0).pre
                    &&& only_routes_of(r.table, o.table, index, k, other, peer)
                    &&& only_routes_of(w.table, o.table, index, k, other, peer)
                },
            }
        }),
{
}

/// Prefixes wait to be advertised with their attributes, next to those that already do.
pub proof fn advertised_prefixes_wait_with_their_attributes(
    q: QueueView,
    attrs: AttrsView,
    prefixes: Seq<IpNetwork>,
    i: int,
    net: IpNetwork,
    other: AttrsView,
)
    ensures
        ({
            let r = with_reach(q, attrs, prefixes);
            &&& 0 <= i < prefixes.len() ==> r.reach.contains_key(attrs) && r.reach[attrs].contains(prefixes[i])
            &&& q.reach.contains_key(attrs) && q.reach[attrs].contains(net) ==> r.reach[attrs].contains(net)
            &&& r.reach[attrs].contains(net) ==> prefixes.contains(net) || (q.reach.contains_key(attrs)
                && q.reach[attrs].contains(net))
            &&& other != attrs ==> r.reach.contains_key(other) == q.reach.contains_key(other) && r.reach[other]
                == q.reach[other]
            &&& r.unreach == q.unreach
        }),
{
    if 0 <= i < prefixes.len() {
        assert(prefixes.to_set().contains(prefixes[i]));
    }
}

/// The prefixes of an accepted group that are to be advertised wait with the attributes as
/// they are transmitted; those of a rejected group are rejected.
pub proof fn groups_are_exported(
    o: Outgoing,
    nbr: Session,
    group: PolicyGroup,
    route: Route,
    asn: u32,
    rpinfo: RoutePolicyInfo,
)
    ensures
        group.result == PolicyResult::<RoutePolicyInfo>::Reject ==> export_group(o, nbr, group, None, asn)
            == reject_all(o, nbr.index, group.prefixes@),
        group.result == PolicyResult::Accept(rpinfo) ==> {
            let a = accept_all(o.table, nbr.index, group.prefixes@, route);
            let r = export_group(o, nbr, group, Some(route), asn);
            &&& r.table == a.table
            &&& a.advertise.len() == 0 ==> r.queue == o.queue
            &&& a.advertise.len() > 0 ==> r.queue == with_reach(
                o.queue,
                crate::bgp::rib::transmitted(rpinfo@.attrs, nbr, asn),
                a.advertise,
            )
        },
{
}

/// An offered route is kept as it was before policies, with the time of the route. What
/// was sent stays until the policies answer.
pub proof fn offered_routes_are_kept(
    t: TableView,
    index: PeerIndex,
    offer: Offer,
    attrs: Arc<RouteAttrs>,
    other: IpNetwork,
    peer: PeerIndex,
)
    requires
        t.prefixes.contains_key(offer.prefix.masked()),
    ensures
        ({
            let k = offer.prefix.masked();
            let u = offer_one(t, index, offer, attrs);
            let a = u.prefixes[k].adj_rib[index];
            &&& a.adj_out is Some && (a.adj_out->0).pre.attrs == attrs && (a.adj_out->0).pre.last_modified
                == offer.route.last_modified
            &&& match known_routes(t, index, k) {
                Some(before) => a.adj_in == before.adj_in && (before.adj_out is Some ==> (a.adj_out->0).post == (
                before.adj_out->0).post) && (before.adj_out is None ==> (a.adj_out->0).post is None),
                None => a.adj_in is None && (a.adj_out->0).post is None,
            }
            &&& only_routes_of(u, t, index, k, other, peer)
            &&& u.queued_prefixes == t.queued_prefixes && u.nht == t.nht && u.prefix_counters == t.prefix_counters
        }),
{
}

/// Offers are taken one after the other; those with the same origin, type and attributes
/// form a group, in their order.
pub proof fn offers_are_grouped(
    t: TableView,
    index: PeerIndex,
    offers: Seq<Offer>,
    all: Seq<Arc<RouteAttrs>>,
    offer: Offer,
    attrs: Arc<RouteAttrs>,
    key: ExportKey,
)
    requires
        all.len() == offers.len(),
    ensures
        offer_all(t, index, Seq::empty(), Seq::empty()) == t,
        offer_all(t, index, offers.push(offer), all.push(attrs)) == offer_one(
            offer_all(t, index, offers, all.push(attrs)),
            index,
            offer,
            attrs,
        ),
        offered(Seq::empty(), Seq::empty(), key).len() == 0,
        key.origin == offer.route.origin && key.route_type == offer.route.route_type && key.attrs == attrs.spec_key()
            ==> offered(offers.push(offer), all.push(attrs), key) == offered(offers, all.push(attrs), key).push(
            offer.prefix,
        ),
        key.origin != offer.route.origin || key.route_type != offer.route.route_type || key.attrs != attrs.spec_key()
            ==> offered(offers.push(offer), all.push(attrs), key) == offered(offers, all.push(attrs), key),
{
    assert(offers.push(offer).drop_last() =~= offers);
    assert(all.push(attrs)[offers.len() as int] == attrs);
}

/// Prefixes are split into batches of the given size, the last of which may be smaller.
/// No prefix is lost and none is added, and the order stays.
pub proof fn batches_hold_all_prefixes(s: Seq<IpNetwork>, size: nat, b: int)
    requires
        size > 0,
    ensures
        all_of(batched(s, size)) == s,
        0 <= b < batched(s, size).len() ==> 0 < batched(s, size)[b].len() <= size,
        0 <= b < batched(s, size).len() - 1 ==> batched(s, size)[b].len() == size,
    decreases s.len(),
{
    if s.len() > size {
        let head = s.take(size as int);
        let tail = batched(s.skip(size as int), size);
        batches_hold_all_prefixes(s.skip(size as int), size, b - 1);
        assert(batched(s, size) =~= seq![head] + tail);
        assert((seq![head] + tail).skip(1) =~= tail);
        assert(s =~= head + s.skip(size as int));
        if 0 < b < batched(s, size).len() {
            assert(batched(s, size)[b] == tail[b - 1]);
        }
    } else if s.len() > 0 {
        assert(batched(s, size) =~= seq![s]);
        assert(all_of(seq![s].skip(1)).len() == 0);
        assert(all_of(seq![s]) =~= s);
    } else {
        assert(all_of(batched(s, size)) =~= s);
    }
}

/// The prefixes of all batches.
pub open spec fn all_of(batches: Seq<Seq<IpNetwork>>) -> Seq<IpNetwork>
    decreases batches.len(),
{
    if batches.len() == 0 {
        Seq::empty()
    } else {
        batches[0] + all_of(batches.skip(1))
    }
}

/// What is asked of the export policies of a neighbor is about a group's prefixes and
/// attributes, at most 4096 of them at once, and follows the neighbor's configuration.
pub proof fn export_requests_follow_the_configuration<A: AddressFamily>(
    msg: PolicyApplyMsg,
    nbr: Neighbor,
    shared: Shared,
    request: ExportRequest,
    addr: IpAddr,
    key: ExportKey,
    attrs: AttrsView,
    prefixes: Seq<IpNetwork>,
    b: int,
)
    ensures
        export_request::<A>(msg, nbr, shared, request) ==> {
            &&& msg.policy_type == PolicyType::Export
            &&& msg.nbr_addr == request.nbr_addr
            &&& msg.afi_safi == A::family()
            &&& msg.prefixes@ == request.prefixes
            &&& msg.route@.attrs == request.attrs
            &&& msg.route@.origin == request.key.origin && msg.route@.route_type == request.key.route_type
            &&& msg.default_policy == apply_policy_of(nbr.config@, A::family()).default_export_policy
            &&& msg.match_sets == shared.match_sets
        },
        0 <= b < group_requests(addr, key, attrs, prefixes).len() ==> {
            let r = group_requests(addr, key, attrs, prefixes)[b];
            &&& r.nbr_addr == addr && r.key == key && r.attrs == attrs
            &&& 0 < r.prefixes.len() <= 4096
            &&& r.prefixes == batched(prefixes, 4096)[b]
        },
{
    if 0 <= b < group_requests(addr, key, attrs, prefixes).len() {
        batches_hold_all_prefixes(prefixes, 4096, b);
    }
}

/// Routes go to neighbors with an established session for the family, and to no others.
/// They are taken in the order of their addresses.
pub proof fn established_neighbors_receive<A: AddressFamily>(nbr: Neighbor, neighbors: Table<IpAddr, Neighbor>, j: int)
    ensures
        nbr.session.state == State::Established && nbr.session.af_enabled(A::family()) ==> receives::<A>(nbr),
        nbr.session.state != State::Established ==> !receives::<A>(nbr),
        !nbr.session.af_enabled(A::family()) ==> !receives::<A>(nbr),
        in_order(neighbors).len() == neighbors.keys().len(),
        0 <= j < neighbors.keys().len() ==> in_order(neighbors)[j] == neighbors@[neighbors.keys()[j]],
{
}

/// A route that may not go to a neighbor is withdrawn from it, all others are offered, and
/// routes that are gone are withdrawn in any case.
pub proof fn routes_are_offered_or_withdrawn(
    reach: Seq<Offer>,
    unreach: Seq<IpNetwork>,
    verdicts: Seq<bool>,
    offer: Offer,
    verdict: bool,
)
    requires
        verdicts.len() == reach.len(),
    ensures
        offers_for(Seq::empty(), Seq::empty()).len() == 0,
        withdrawals_for(Seq::empty(), unreach, Seq::empty()) == unreach,
        verdict ==> offers_for(reach.push(offer), verdicts.push(verdict)) == offers_for(
            reach,
            verdicts.push(verdict),
        ).push(offer) && withdrawals_for(reach.push(offer), unreach, verdicts.push(verdict)) == withdrawals_for(
            reach,
            unreach,
            verdicts.push(verdict),
        ),
        !verdict ==> offers_for(reach.push(offer), verdicts.push(verdict)) == offers_for(
            reach,
            verdicts.push(verdict),
        ) && withdrawals_for(reach.push(offer), unreach, verdicts.push(verdict)) == withdrawals_for(
            reach,
            unreach,
            verdicts.push(verdict),
        ).push(offer.prefix),
{
    assert(reach.push(offer).drop_last() =~= reach);
    assert(verdicts.push(verdict)[reach.len() as int] == verdict);
}

// ===== selection =====

/// The options of an address family go before those of the instance.
pub proof fn options_of_the_family_go_first(c: InstanceCfgView, af: AfiSafi)
    ensures
        c.afi_safi.contains_key(af) ==> selection_of(c, af) == c.afi_safi[af].route_selection && multipath_of(c, af)
            == c.afi_safi[af].multipath,
        !c.afi_safi.contains_key(af) ==> selection_of(c, af) == c.route_selection && multipath_of(c, af)
            == c.multipath,
{
}

/// A route that becomes the best one counts for the neighbor that sent it, and one that
/// no longer is does not. A route that stays changes no counter.
pub proof fn installed_routes_are_counted(
    c: Map<PeerIndex, PrefixCounters>,
    neighbors: Map<IpAddr, Neighbor>,
    addr: IpAddr,
    id: Ipv4Addr,
    origin: Option<RouteOrigin>,
    other: PeerIndex,
)
    requires
        neighbors.contains_key(addr),
        neighbors[addr].session.index != other,
        c.contains_key(neighbors[addr].session.index),
    ensures
        ({
            let i = neighbors[addr].session.index;
            let from = Some(RouteOrigin::Neighbor { identifier: id, remote_addr: addr });
            &&& recounted(c, origin, origin, neighbors) == c
            &&& c[i].installed < u32::MAX ==> recounted(c, None, from, neighbors)[i].installed == c[i].installed + 1
            &&& c[i].installed == u32::MAX ==> recounted(c, None, from, neighbors)[i].installed == u32::MAX
            &&& c[i].installed > 0 ==> recounted(c, from, None, neighbors)[i].installed == c[i].installed - 1
            &&& c[i].installed == 0 ==> recounted(c, from, None, neighbors)[i].installed == 0
            &&& recounted(c, None, from, neighbors)[other] == c[other]
            &&& recounted(c, from, None, neighbors)[other] == c[other]
        }),
{
}

/// Routes of other protocols and of unknown neighbors count for nobody.
pub proof fn only_neighbors_count(
    neighbors: Map<IpAddr, Neighbor>,
    addr: IpAddr,
    id: Ipv4Addr,
    p: crate::protocol::Protocol,
)
    ensures
        learned_from(Some(RouteOrigin::Protocol(p)), neighbors) is None,
        learned_from(None, neighbors) is None,
        !neighbors.contains_key(addr) ==> learned_from(
            Some(RouteOrigin::Neighbor { identifier: id, remote_addr: addr }),
            neighbors,
        ) is None,
        neighbors.contains_key(addr) ==> learned_from(
            Some(RouteOrigin::Neighbor { identifier: id, remote_addr: addr }),
            neighbors,
        ) == Some(neighbors[addr].session.index),
{
}

/// A destination can go once nothing is left of it: no route is selected, redistributed,
/// received or offered.
pub proof fn destinations_without_routes_can_go(d: DestinationView, i: PeerIndex)
    ensures
        d.local is Some ==> !prunable(d),
        d.redistribute is Some ==> !prunable(d),
        d.adj_rib.contains_key(i) && d.adj_rib[i].adj_in is Some ==> !prunable(d),
        d.adj_rib.contains_key(i) && d.adj_rib[i].adj_out is Some ==> !prunable(d),
        d.local is None && d.redistribute is None && (forall|j: PeerIndex| #[trigger]
            d.adj_rib.contains_key(j) ==> d.adj_rib[j].adj_in is None && d.adj_rib[j].adj_out is None) ==> prunable(d),
{
}

} // verus!
