//! What routes, their attributes and their selection promise.
//!
//! Each law speaks of the values that go in and come out, so that it can be read
//! without the definitions it is proved from.

use vstd::prelude::*;

use crate::bgp::af::{AddressFamily, Ipv4Unicast, Ipv6Unicast};
use crate::bgp::attribute::{
    path_contains, path_first, path_length, path_prepend, path_prepend_n, path_replace, AsPathSegmentType, AttrsView,
    BaseAttrsView, Origin, SegmentView,
};
use crate::bgp::decision::{best_of, dest_selected, Selection, SelectionCxt};
use crate::bgp::neighbor::Session;
use crate::bgp::rib::{
    assessed, comparison, decidable, exported, multipath_nexthop, multipath_nexthops, nexthops_of, scan, scan_sound,
    slot, slot_count, told_apart, transmitted, use_added, use_added_msgs, use_dropped, use_dropped_msgs, BestRoute,
    Candidate, Contender, Destination, IbusMsg, NhtEntry, NhtView, RouteCompare, RouteIneligibleReason,
    RouteRejectReason,
};
use crate::bgp::types::{MultipathCfg, PeerType, RouteSelectionCfg, RouteType, TcpConnInfo};
use crate::ip::{IpAddr, IpNetwork};

verus! {

// ===== AS paths =====

/// An empty path has no hops, a sequence adds one for each of its members and a
/// set adds a single one, wherever they stand.
pub proof fn path_length_counts_hops(path: Seq<SegmentView>, seg: SegmentView)
    ensures
        path_length(Seq::empty()) == 0,
        seg.seg_type == AsPathSegmentType::AsSet && path_length(path) < u32::MAX ==> path_length(path.push(seg))
            == path_length(path) + 1,
        seg.seg_type == AsPathSegmentType::AsSequence && path_length(path) + seg.members.len() < u32::MAX
            ==> path_length(path.push(seg)) == path_length(path) + seg.members.len(),
        path_length(path.push(seg)) >= path_length(path),
{
    assert(path.push(seg).drop_last() =~= path);
}

/// The first AS of a path is the first member of its first segment.
pub proof fn first_as_is_leftmost(path: Seq<SegmentView>)
    ensures
        path.len() > 0 && path[0].members.len() > 0 ==> path_first(path) == Some(path[0].members[0]),
        path.len() == 0 ==> path_first(path) is None,
        path.len() > 0 && path[0].members.len() == 0 ==> path_first(path) is None,
{
}

/// An AS is in a path exactly if it is a member of one of its segments, whatever
/// their type.
pub proof fn path_members_are_found(path: Seq<SegmentView>, i: int, j: int, asn: u32)
    ensures
        0 <= i < path.len() && 0 <= j < path[i].members.len() ==> path_contains(path, path[i].members[j]),
        path_contains(path, asn) ==> exists|i: int, j: int|
            0 <= i < path.len() && 0 <= j < path[i].members.len() && #[trigger] path[i].members[j] == asn,
        !path_contains(Seq::empty(), asn),
{
    if path_contains(path, asn) {
        let i = choose|i: int| 0 <= i < path.len() && (#[trigger] path[i]).members.contains(asn);
        let j = path[i].members.index_of(asn);
        assert(path[i].members[j] == asn);
    }
}

/// The members of a path, from left to right.
pub open spec fn path_members(path: Seq<SegmentView>) -> Seq<u32>
    decreases path.len(),
{
    if path.len() == 0 {
        Seq::empty()
    } else {
        path[0].members + path_members(path.skip(1))
    }
}

/// Prepending an AS puts it before all members, as one more hop, and leaves the
/// members as they were.
pub proof fn prepended_as_comes_first(path: Seq<SegmentView>, asn: u32)
    ensures
        path_members(path_prepend(path, asn)) == seq![asn] + path_members(path),
        path_first(path_prepend(path, asn)) == Some(asn),
        path_contains(path_prepend(path, asn), asn),
        path_prepend(path, asn)[0].seg_type == AsPathSegmentType::AsSequence,
        path_prepend(path, asn)[0].members.len() <= if path.len() > 0 && path[0].members.len() > 255 {
            path[0].members.len()
        } else {
            255
        },
{
    let next = path_prepend(path, asn);
    reveal_with_fuel(path_members, 2);
    if next.len() == path.len() {
        assert(next.skip(1) =~= path.skip(1));
        assert(path_members(next) =~= seq![asn] + path_members(path));
    } else {
        assert(next.skip(1) =~= path);
        assert(path_members(next) =~= seq![asn] + path_members(path));
    }
    assert(next[0].members[0] == asn);
    assert(next[0].members.contains(asn));
}

/// Prepending an AS a number of times puts it before all members that often.
pub proof fn repeated_prepending(path: Seq<SegmentView>, asn: u32, n: nat)
    ensures
        path_members(path_prepend_n(path, asn, n)) == Seq::new(n, |i: int| asn) + path_members(path),
    decreases n,
{
    if n == 0 {
        assert(path_members(path) =~= Seq::new(0, |i: int| asn) + path_members(path));
    } else {
        repeated_prepending(path, asn, (n - 1) as nat);
        prepended_as_comes_first(path_prepend_n(path, asn, (n - 1) as nat), asn);
        assert(path_members(path_prepend_n(path, asn, n)) =~= Seq::new(n, |i: int| asn) + path_members(path));
    }
}

/// Replacing an AS changes exactly its occurrences: the others stay in place.
pub proof fn replaced_as_is_gone(path: Seq<SegmentView>, old_asn: u32, new_asn: u32)
    ensures
        path_replace(path, old_asn, new_asn).len() == path.len(),
        forall|i: int|
            #![trigger path_replace(path, old_asn, new_asn)[i]]
            0 <= i < path.len() ==> {
                let (a, b) = (path[i], path_replace(path, old_asn, new_asn)[i]);
                &&& b.seg_type == a.seg_type
                &&& b.members.len() == a.members.len()
                &&& forall|j: int|
                    #![trigger b.members[j]]
                    0 <= j < a.members.len() ==> (a.members[j] == old_asn ==> b.members[j] == new_asn) && (a.members[j]
                        != old_asn ==> b.members[j] == a.members[j])
            },
        old_asn != new_asn ==> !path_contains(path_replace(path, old_asn, new_asn), old_asn),
{
    let next = path_replace(path, old_asn, new_asn);
    if old_asn != new_asn && path_contains(next, old_asn) {
        let i = choose|i: int| 0 <= i < next.len() && (#[trigger] next[i]).members.contains(old_asn);
        let j = next[i].members.index_of(old_asn);
        assert(next[i].members[j] == old_asn);
    }
}

// ===== comparison of routes =====

/// The local preference of a route: 100 unless it says otherwise.
pub open spec fn pref(c: Contender) -> u32 {
    match c.base.local_pref {
        Some(n) => n,
        None => 100,
    }
}

/// The multi-exit discriminator of a route: 0 if it has none.
pub open spec fn med(c: Contender) -> u32 {
    match c.base.med {
        Some(n) => n,
        None => 0,
    }
}

/// Whether the multi-exit discriminators of two routes say anything about each
/// other: those of routes from the same neighboring AS do, and all of them if so
/// configured.
pub open spec fn meds_count(a: Contender, b: Contender, cfg: RouteSelectionCfg) -> bool {
    cfg.always_compare_med || path_first(a.base.as_path) == path_first(b.base.as_path)
}

/// Whether local preference and AS path speak for neither of two routes.
pub open spec fn tie_to_origin(a: Contender, b: Contender, cfg: RouteSelectionCfg) -> bool {
    &&& pref(a) == pref(b)
    &&& cfg.ignore_as_path_length || path_length(a.base.as_path) == path_length(b.base.as_path)
}

/// Whether, moreover, their origins do not either.
pub open spec fn tie_to_med(a: Contender, b: Contender, cfg: RouteSelectionCfg) -> bool {
    tie_to_origin(a, b, cfg) && a.base.origin == b.base.origin
}

/// Whether, moreover, their discriminators do not either.
pub open spec fn tie_to_type(a: Contender, b: Contender, cfg: RouteSelectionCfg) -> bool {
    tie_to_med(a, b, cfg) && (meds_count(a, b, cfg) ==> med(a) == med(b))
}

/// Whether, moreover, the types of their peers do not either.
pub open spec fn tie_to_cost(a: Contender, b: Contender, cfg: RouteSelectionCfg) -> bool {
    tie_to_type(a, b, cfg) && a.route_type == b.route_type
}

/// Whether, moreover, their interior costs do not either.
pub open spec fn tie_to_peer(a: Contender, b: Contender, cfg: RouteSelectionCfg) -> bool {
    tie_to_cost(a, b, cfg) && (cfg.ignore_next_hop_igp_metric || a.igp_cost == b.igp_cost)
}

/// Whether the first route is preferred for a reason, and the second one is less
/// preferred for the same, with multiple paths or without.
pub open spec fn wins(a: Contender, b: Contender, cfg: RouteSelectionCfg, reason: RouteRejectReason) -> bool {
    forall|mpath: Option<MultipathCfg>|
        comparison(a, b, cfg, mpath) == RouteCompare::Preferred(reason) && #[trigger] comparison(b, a, cfg, mpath)
            == RouteCompare::LessPreferred(reason)
}

/// A higher local preference wins over everything else.
pub proof fn higher_local_pref_wins(a: Contender, b: Contender, cfg: RouteSelectionCfg)
    requires
        pref(a) > pref(b),
    ensures
        wins(a, b, cfg, RouteRejectReason::LocalPrefLower),
{
}

/// With equal local preference a shorter AS path wins, unless lengths are ignored.
pub proof fn shorter_as_path_wins(a: Contender, b: Contender, cfg: RouteSelectionCfg)
    requires
        pref(a) == pref(b),
        !cfg.ignore_as_path_length,
        path_length(a.base.as_path) < path_length(b.base.as_path),
    ensures
        wins(a, b, cfg, RouteRejectReason::AsPathLonger),
{
}

/// Then IGP wins over EGP, and both win over incomplete origins.
pub proof fn lower_origin_wins(a: Contender, b: Contender, cfg: RouteSelectionCfg)
    requires
        tie_to_origin(a, b, cfg),
        (a.base.origin == Origin::Igp && b.base.origin == Origin::Egp) || (a.base.origin == Origin::Igp
            && b.base.origin == Origin::Incomplete) || (a.base.origin == Origin::Egp && b.base.origin
            == Origin::Incomplete),
    ensures
        wins(a, b, cfg, RouteRejectReason::OriginTypeHigher),
{
}

/// Then a lower multi-exit discriminator wins: always among routes from the same
/// neighboring AS, and among all routes if so configured. A route without one
/// has the lowest.
pub proof fn lower_med_wins(a: Contender, b: Contender, cfg: RouteSelectionCfg)
    requires
        tie_to_med(a, b, cfg),
        cfg.always_compare_med || path_first(a.base.as_path) == path_first(b.base.as_path),
        med(a) < med(b),
    ensures
        wins(a, b, cfg, RouteRejectReason::MedHigher),
{
}

/// Then a route from an external peer wins over one from an internal peer.
/// Discriminators of routes from different neighboring ASes are not looked at,
/// unless so configured.
pub proof fn external_route_wins(a: Contender, b: Contender, cfg: RouteSelectionCfg)
    requires
        tie_to_type(a, b, cfg),
        a.route_type == RouteType::External,
        b.route_type == RouteType::Internal,
    ensures
        wins(a, b, cfg, RouteRejectReason::PreferExternal),
{
}

/// Then a lower interior cost wins, and a route without any, which is local, over
/// all that have one. Costs are not looked at if so configured.
pub proof fn lower_igp_cost_wins(a: Contender, b: Contender, cfg: RouteSelectionCfg)
    requires
        tie_to_cost(a, b, cfg),
        !cfg.ignore_next_hop_igp_metric,
        b.igp_cost is Some,
        a.igp_cost is None || a.igp_cost->0 < b.igp_cost->0,
    ensures
        wins(a, b, cfg, RouteRejectReason::NexthopCostHigher),
{
}

/// Then, without multiple paths, the lower identifier of the peer wins, if
/// identifiers are compared.
pub proof fn lower_router_id_wins(a: Contender, b: Contender, cfg: RouteSelectionCfg)
    requires
        tie_to_peer(a, b, cfg),
        a.origin is Neighbor && b.origin is Neighbor,
        cfg.external_compare_router_id,
        a.origin->identifier < b.origin->identifier,
    ensures
        comparison(a, b, cfg, None) == RouteCompare::Preferred(RouteRejectReason::HigherRouterId),
        comparison(b, a, cfg, None) == RouteCompare::LessPreferred(RouteRejectReason::HigherRouterId),
{
}

/// At last the lower address of the peer wins, IPv4 before IPv6.
pub proof fn lower_peer_address_wins(a: Contender, b: Contender, cfg: RouteSelectionCfg)
    requires
        tie_to_peer(a, b, cfg),
        a.origin is Neighbor && b.origin is Neighbor,
        cfg.external_compare_router_id ==> a.origin->identifier == b.origin->identifier,
        match (a.origin->remote_addr, b.origin->remote_addr) {
            (IpAddr::V4(x), IpAddr::V4(y)) => x < y,
            (IpAddr::V6(x), IpAddr::V6(y)) => x < y,
            (IpAddr::V4(_), IpAddr::V6(_)) => true,
            (IpAddr::V6(_), IpAddr::V4(_)) => false,
        },
    ensures
        comparison(a, b, cfg, None) == RouteCompare::Preferred(RouteRejectReason::HigherPeerAddress),
        comparison(b, a, cfg, None) == RouteCompare::LessPreferred(RouteRejectReason::HigherPeerAddress),
{
}

/// Routes that tie up to their interior cost can be used together exactly if they
/// are external and come from the same neighboring AS, or from any if so allowed,
/// or internal with the same AS path.
pub proof fn multipath_needs_a_tie(a: Contender, b: Contender, cfg: RouteSelectionCfg, mpath: MultipathCfg)
    ensures
        tie_to_peer(a, b, cfg) && a.route_type == RouteType::External && (mpath.ebgp_allow_multiple_as || path_first(
            a.base.as_path,
        ) == path_first(b.base.as_path)) ==> comparison(a, b, cfg, Some(mpath)) == RouteCompare::MultipathEqual,
        tie_to_peer(a, b, cfg) && a.route_type == RouteType::External && !mpath.ebgp_allow_multiple_as && path_first(
            a.base.as_path,
        ) != path_first(b.base.as_path) ==> comparison(a, b, cfg, Some(mpath)) == RouteCompare::MultipathDifferent,
        tie_to_peer(a, b, cfg) && a.route_type == RouteType::Internal && a.base.as_path == b.base.as_path
            ==> comparison(a, b, cfg, Some(mpath)) == RouteCompare::MultipathEqual,
        tie_to_peer(a, b, cfg) && a.route_type == RouteType::Internal && a.base.as_path != b.base.as_path
            ==> comparison(a, b, cfg, Some(mpath)) == RouteCompare::MultipathDifferent,
        !tie_to_peer(a, b, cfg) ==> comparison(a, b, cfg, Some(mpath)) is Preferred || comparison(
            a,
            b,
            cfg,
            Some(mpath),
        ) is LessPreferred,
{
}

// ===== selection of the best route =====

/// The candidates for a destination are the routes that import policies have
/// accepted, one for each peer, and the redistributed route.
pub proof fn accepted_routes_are_candidates(dest: Destination, i: int)
    requires
        0 <= i < dest.adj_rib.keys().len(),
    ensures
        ({
            let adj_rib = dest.adj_rib@[dest.adj_rib.keys()[i]];
            &&& adj_rib.adj_in is None || (adj_rib.adj_in->0).post is None ==> slot(dest, i) is None
            &&& adj_rib.adj_in is Some && (adj_rib.adj_in->0).post is Some ==> slot(dest, i) is Some && {
                let c = slot(dest, i)->0;
                &&& c.origin == (adj_rib.adj_in->0).origin
                &&& c.route_type == (adj_rib.adj_in->0).route_type
                &&& c.attrs == ((adj_rib.adj_in->0).post->0).0.attrs
                &&& c.last_modified == ((adj_rib.adj_in->0).post->0).0.last_modified
            }
        }),
        slot(dest, dest.adj_rib.keys().len() as int) is Some == dest.redistribute is Some,
        dest.redistribute matches Some(r) ==> {
            let c = slot(dest, dest.adj_rib.keys().len() as int)->0;
            c.origin == r.origin && c.route_type == r.route_type && c.attrs == r.attrs && c.last_modified
                == r.last_modified
        },
        slot_count(dest) == dest.adj_rib.keys().len() + 1,
{
}

/// A route whose path holds the local AS is not eligible, whatever its origin.
/// Neither is one from a neighbor whose next hop is not known to be reachable. All
/// others are, with the interior cost to their next hop where they have one.
pub proof fn eligibility<A: AddressFamily>(c: Candidate, local_asn: u32, nht: Map<IpAddr, NhtEntry>)
    ensures
        ({
            let base = c.attrs.attrs().base;
            let s = assessed::<A>(c, local_asn, nht);
            let nexthop = A::nexthop_rx(base);
            let reachable = nht.contains_key(nexthop) && nht[nexthop].metric is Some;
            &&& path_contains(base.as_path, local_asn) ==> s.ineligible_reason == Some(RouteIneligibleReason::AsLoop)
            &&& !path_contains(base.as_path, local_asn) && c.origin is Neighbor && !reachable ==> s.ineligible_reason
                == Some(RouteIneligibleReason::Unresolvable)
            &&& !path_contains(base.as_path, local_asn) && c.origin is Neighbor && reachable ==> s.ineligible_reason
                is None && s.igp_cost == nht[nexthop].metric
            &&& !path_contains(base.as_path, local_asn) && c.origin is Protocol ==> s.ineligible_reason is None
                && s.igp_cost == c.selection.igp_cost
            &&& s.reject_reason is None
        }),
{
}

/// Whether the candidate in a slot may become the best route.
pub open spec fn may_win<A: AddressFamily>(dest: Destination, asn: u32, nht: Map<IpAddr, NhtEntry>, i: int) -> bool {
    slot(dest, i) matches Some(c) && assessed::<A>(c, asn, nht).ineligible_reason is None
}

/// What is compared of the candidate in a slot.
pub open spec fn entrant<A: AddressFamily>(dest: Destination, asn: u32, nht: Map<IpAddr, NhtEntry>, i: int) -> Contender {
    let c = slot(dest, i)->0;
    Contender {
        origin: c.origin,
        route_type: c.route_type,
        base: c.attrs.attrs().base,
        igp_cost: assessed::<A>(c, asn, nht).igp_cost,
    }
}

/// There is a best route exactly if some candidate is eligible. It is one of the
/// eligible candidates, with its own attributes and the cost to its next hop.
pub proof fn best_route_is_a_candidate<A: AddressFamily>(
    dest: Destination,
    asn: u32,
    nht: Map<IpAddr, NhtEntry>,
    cfg: RouteSelectionCfg,
)
    requires
        decidable::<A>(dest, asn, nht, cfg),
    ensures
        best_of::<A>(dest, asn, nht, cfg) is Some <==> exists|i: int|
            0 <= i < slot_count(dest) && #[trigger] may_win::<A>(dest, asn, nht, i),
        best_of::<A>(dest, asn, nht, cfg) matches Some(b) ==> exists|i: int|
            {
                let c = slot(dest, i)->0;
                &&& 0 <= i < slot_count(dest)
                &&& #[trigger] may_win::<A>(dest, asn, nht, i)
                &&& b.origin == c.origin
                &&& b.route_type == c.route_type
                &&& b.attrs == c.attrs
                &&& b.last_modified == c.last_modified
                &&& b.igp_cost == assessed::<A>(c, asn, nht).igp_cost
            },
{
    let n = slot_count(dest);
    scan_sound::<A>(dest, asn, nht, cfg, n);
    let r = scan::<A>(dest, asn, nht, cfg, n);
    if r.best is Some {
        let b = r.best->0;
        assert(r.states[b].ineligible_reason is None);
        assert(may_win::<A>(dest, asn, nht, b));
    } else {
        assert forall|i: int| 0 <= i < n implies !#[trigger] may_win::<A>(dest, asn, nht, i) by {
            if slot(dest, i) is Some {
                assert(!r.states[i].eligible());
            }
        }
    }
}

/// Candidates are compared one after the other, each with the best one before it:
/// the preferred one of the two goes on, and the other one is rejected for the
/// reason that the comparison gave.
pub proof fn preferred_candidate_goes_on<A: AddressFamily>(
    dest: Destination,
    asn: u32,
    nht: Map<IpAddr, NhtEntry>,
    cfg: RouteSelectionCfg,
    n: nat,
)
    requires
        decidable::<A>(dest, asn, nht, cfg),
        n < slot_count(dest),
    ensures
        ({
            let before = scan::<A>(dest, asn, nht, cfg, n);
            let after = scan::<A>(dest, asn, nht, cfg, n + 1);
            let new = entrant::<A>(dest, asn, nht, n as int);
            let old = entrant::<A>(dest, asn, nht, before.best->0);
            &&& !may_win::<A>(dest, asn, nht, n as int) ==> after.best == before.best
            &&& may_win::<A>(dest, asn, nht, n as int) && before.best is None ==> after.best == Some(n as int)
            &&& may_win::<A>(dest, asn, nht, n as int) && before.best is Some ==> {
                &&& comparison(new, old, cfg, None) matches RouteCompare::Preferred(reason) ==> after.best == Some(
                    n as int,
                ) && after.states[before.best->0].reject_reason == Some(reason)
                &&& comparison(new, old, cfg, None) matches RouteCompare::LessPreferred(reason) ==> after.best
                    == before.best && after.states[n as int].reject_reason == Some(reason)
                &&& comparison(new, old, cfg, None) is Preferred || comparison(new, old, cfg, None) is LessPreferred
            }
        }),
{
    scan_sound::<A>(dest, asn, nht, cfg, n);
    let before = scan::<A>(dest, asn, nht, cfg, n);
    if before.best is Some && may_win::<A>(dest, asn, nht, n as int) {
        assert(told_apart::<A>(dest, asn, nht, cfg, n as int));
        assert(before.states[before.best->0].igp_cost == assessed::<A>(slot(dest, before.best->0)->0, asn, nht).igp_cost);
    }
}

/// Of two eligible candidates without others, the preferred one is the best route,
/// in whatever order they are compared.
pub proof fn better_of_two_is_best<A: AddressFamily>(
    dest: Destination,
    asn: u32,
    nht: Map<IpAddr, NhtEntry>,
    cfg: RouteSelectionCfg,
    i: int,
    j: int,
)
    requires
        decidable::<A>(dest, asn, nht, cfg),
        0 <= i < slot_count(dest),
        0 <= j < slot_count(dest),
        i != j,
        may_win::<A>(dest, asn, nht, i),
        may_win::<A>(dest, asn, nht, j),
        forall|k: int| 0 <= k < slot_count(dest) && #[trigger] may_win::<A>(dest, asn, nht, k) ==> k == i || k == j,
        comparison(entrant::<A>(dest, asn, nht, i), entrant::<A>(dest, asn, nht, j), cfg, None) is Preferred,
        comparison(entrant::<A>(dest, asn, nht, j), entrant::<A>(dest, asn, nht, i), cfg, None) is LessPreferred,
    ensures
        scan::<A>(dest, asn, nht, cfg, slot_count(dest)).best == Some(i),
        best_of::<A>(dest, asn, nht, cfg) matches Some(b) && b.attrs == (slot(dest, i)->0).attrs && b.origin == (slot(
            dest,
            i,
        )->0).origin,
{
    best_of_two::<A>(dest, asn, nht, cfg, i, j, slot_count(dest));
}

proof fn best_of_two<A: AddressFamily>(
    dest: Destination,
    asn: u32,
    nht: Map<IpAddr, NhtEntry>,
    cfg: RouteSelectionCfg,
    i: int,
    j: int,
    n: nat,
)
    requires
        decidable::<A>(dest, asn, nht, cfg),
        i != j,
        n <= slot_count(dest),
        may_win::<A>(dest, asn, nht, i),
        may_win::<A>(dest, asn, nht, j),
        0 <= i && 0 <= j,
        forall|k: int| 0 <= k < slot_count(dest) && #[trigger] may_win::<A>(dest, asn, nht, k) ==> k == i || k == j,
        comparison(entrant::<A>(dest, asn, nht, i), entrant::<A>(dest, asn, nht, j), cfg, None) is Preferred,
        comparison(entrant::<A>(dest, asn, nht, j), entrant::<A>(dest, asn, nht, i), cfg, None) is LessPreferred,
    ensures
        scan::<A>(dest, asn, nht, cfg, n).best == if i < n {
            Some(i)
        } else if j < n {
            Some(j)
        } else {
            None
        },
    decreases n,
{
    if n > 0 {
        best_of_two::<A>(dest, asn, nht, cfg, i, j, (n - 1) as nat);
        preferred_candidate_goes_on::<A>(dest, asn, nht, cfg, (n - 1) as nat);
        assert(may_win::<A>(dest, asn, nht, n - 1) ==> n - 1 == i || n - 1 == j);
    }
}

/// The Loc-RIB entry of a destination whose best route has changed is that route,
/// which neighbors are offered. If it was learned from a neighbor, the routing
/// table manager installs it with the distance of its type. If there is none any
/// more, the entry goes and neighbors are told so.
pub proof fn best_route_is_installed<A: AddressFamily>(
    cxt: SelectionCxt,
    prefix: IpNetwork,
    next: Selection,
    prev: Selection,
    mid: Destination,
    changed: bool,
)
    requires
        dest_selected::<A>(cxt, prefix, next, prev, mid, changed),
    ensures
        ({
            let k = prefix.masked();
            let best = best_of::<A>(prev.prefixes[k], cxt.asn, cxt.nht, cxt.cfg);
            let local = next.prefixes[k].local;
            &&& best matches Some(b) ==> {
                &&& local matches Some(l) && l.origin == b.origin && l.attrs.attrs() == b.attrs.attrs() && l.route_type
                    == b.route_type
                &&& next.unreach == prev.unreach
                &&& changed ==> {
                    &&& next.reach.len() == prev.reach.len() + 1
                    &&& next.reach.last().prefix == prefix
                    &&& next.reach.last().route == b
                    &&& local->0.attrs == b.attrs && local->0.last_modified == b.last_modified
                    &&& b.origin is Neighbor ==> next.ibus == prev.ibus.push(
                        IbusMsg::RouteInstall {
                            prefix,
                            route: local->0,
                            distance: match b.route_type {
                                RouteType::Internal => cxt.distance.internal,
                                RouteType::External => cxt.distance.external,
                            },
                        },
                    )
                    &&& b.origin is Protocol ==> next.ibus == prev.ibus && (local->0).nexthops is None
                }
                &&& !changed ==> next.reach == prev.reach && next.ibus == prev.ibus
            }
            &&& best is None ==> {
                &&& local is None
                &&& next.reach == prev.reach
                &&& prev.prefixes[k].local is Some ==> next.unreach == prev.unreach.push(prefix)
                &&& prev.prefixes[k].local is None ==> next.unreach == prev.unreach
                &&& prev.prefixes[k].local matches Some(l) ==> (l.origin is Neighbor ==> next.ibus == prev.ibus.push(
                    IbusMsg::RouteUninstall { prefix },
                ))
            }
        }),
{
}

/// Without multiple paths the only next hop of a route is its own.
pub proof fn single_path_has_own_nexthop<A: AddressFamily>(
    nexthops: Option<Seq<IpAddr>>,
    dest: Destination,
    best: BestRoute,
    cfg: RouteSelectionCfg,
    mpath: MultipathCfg,
)
    requires
        nexthops_of::<A>(nexthops, dest, best, cfg, mpath),
    ensures
        best.origin is Protocol ==> nexthops is None,
        best.origin is Neighbor && !mpath.enabled ==> nexthops is Some && nexthops->0.len() == 1
            && nexthops->0[0] == A::nexthop_rx(best.attrs.attrs().base),
        best.origin is Neighbor && mpath.enabled ==> nexthops is Some && nexthops->0.len()
            <= match best.route_type {
            RouteType::Internal => mpath.ibgp_max_paths,
            RouteType::External => mpath.ebgp_max_paths,
        },
{
}

/// With multiple paths every next hop is that of an eligible route that can be
/// used together with the best one; they are in order, none is twice there, and
/// one is missing only where as many lower ones as allowed are there.
pub proof fn multiple_paths_are_equal<A: AddressFamily>(
    nexthops: Seq<IpAddr>,
    dest: Destination,
    best: BestRoute,
    cfg: RouteSelectionCfg,
    mpath: MultipathCfg,
)
    requires
        nexthops_of::<A>(Some(nexthops), dest, best, cfg, mpath),
        mpath.enabled,
    ensures
        forall|x: int|
            0 <= x < nexthops.len() ==> leads_over::<A>(dest, best, cfg, mpath, #[trigger] nexthops[x]),
        forall|x: int, y: int| 0 <= x < y < nexthops.len() ==> nexthops[x] != nexthops[y],
        forall|i: int|
            0 <= i < dest.adj_rib.keys().len() && #[trigger] joins::<A>(dest, best, cfg, mpath, i) ==> nexthops.contains(
                A::nexthop_rx((slot(dest, i)->0).attrs.attrs().base),
            ) || nexthops.len() == match best.route_type {
                RouteType::Internal => mpath.ibgp_max_paths,
                RouteType::External => mpath.ebgp_max_paths,
            },
{
    let n = dest.adj_rib.keys().len() as int;
    let all = multipath_nexthops::<A>(dest, best, cfg, mpath, n);
    assert forall|x: int| 0 <= x < nexthops.len() implies leads_over::<A>(
        dest,
        best,
        cfg,
        mpath,
        #[trigger] nexthops[x],
    ) by {
        assert(all.contains(nexthops[x]));
        let i = choose|i: int| i < n && multipath_nexthop::<A>(dest, best, cfg, mpath, nexthops[x], i);
        assert(joins::<A>(dest, best, cfg, mpath, i));
    }
    assert forall|i: int|
        0 <= i < dest.adj_rib.keys().len() && #[trigger] joins::<A>(dest, best, cfg, mpath, i) implies nexthops.contains(
        A::nexthop_rx((slot(dest, i)->0).attrs.attrs().base),
    ) || nexthops.len() == match best.route_type {
        RouteType::Internal => mpath.ibgp_max_paths,
        RouteType::External => mpath.ebgp_max_paths,
    } by {
        let addr = A::nexthop_rx((slot(dest, i)->0).attrs.attrs().base);
        assert(multipath_nexthop::<A>(dest, best, cfg, mpath, addr, i));
        assert(all.contains(addr));
    }
}

/// Whether the route of a peer can be used together with the best one.
pub open spec fn joins<A: AddressFamily>(
    dest: Destination,
    best: BestRoute,
    cfg: RouteSelectionCfg,
    mpath: MultipathCfg,
    i: int,
) -> bool {
    slot(dest, i) matches Some(c) && c.selection.ineligible_reason is None && comparison(
        Contender {
            origin: c.origin,
            route_type: c.route_type,
            base: c.attrs.attrs().base,
            igp_cost: c.selection.igp_cost,
        },
        Contender {
            origin: best.origin,
            route_type: best.route_type,
            base: best.attrs.attrs().base,
            igp_cost: best.igp_cost,
        },
        cfg,
        Some(mpath),
    ) == RouteCompare::MultipathEqual
}

/// Whether a route that can be used together with the best one has a next hop.
pub open spec fn leads_over<A: AddressFamily>(
    dest: Destination,
    best: BestRoute,
    cfg: RouteSelectionCfg,
    mpath: MultipathCfg,
    addr: IpAddr,
) -> bool {
    exists|i: int|
        0 <= i < dest.adj_rib.keys().len() && #[trigger] joins::<A>(dest, best, cfg, mpath, i) && A::nexthop_rx(
            (slot(dest, i)->0).attrs.attrs().base,
        ) == addr
}

// ===== attributes on their way =====

/// The next hop of a received IPv4 route is its NEXT_HOP; that of an IPv6 route is
/// its link-local next hop, if it has one, and the global one otherwise.
pub proof fn received_nexthops(base: BaseAttrsView)
    requires
        base.nexthop is Some,
    ensures
        Ipv4Unicast::nexthop_rx(base) == base.nexthop->0,
        base.ll_nexthop is None ==> Ipv6Unicast::nexthop_rx(base) == base.nexthop->0,
        base.ll_nexthop matches Some(addr) ==> Ipv6Unicast::nexthop_rx(base) == IpAddr::V6(addr),
{
}

/// Whether the router makes itself the next hop of a route: of its own routes, and
/// of all routes for external peers on another subnet.
pub open spec fn becomes_nexthop(nbr: Session, local: bool) -> bool {
    local || (nbr.peer_type == PeerType::External && !nbr.shared_subnet)
}

/// Before export policies, an internal peer is given a local preference, the own
/// one or 100, and an external peer gets none, nor a discriminator. The AS path,
/// origin and communities stay.
pub proof fn exported_attributes<A: AddressFamily>(attrs: AttrsView, nbr: Session, local: bool)
    ensures
        exported::<Ipv4Unicast>(attrs, nbr, local).base.as_path == attrs.base.as_path,
        exported::<Ipv6Unicast>(attrs, nbr, local).base.as_path == attrs.base.as_path,
        exported::<Ipv4Unicast>(attrs, nbr, local).base.origin == attrs.base.origin,
        exported::<Ipv6Unicast>(attrs, nbr, local).base.origin == attrs.base.origin,
        exported::<A>(attrs, nbr, local).comm == attrs.comm,
        exported::<A>(attrs, nbr, local).ext_comm == attrs.ext_comm,
        exported::<A>(attrs, nbr, local).extv6_comm == attrs.extv6_comm,
        exported::<A>(attrs, nbr, local).large_comm == attrs.large_comm,
        exported::<A>(attrs, nbr, local).unknown == attrs.unknown,
        nbr.peer_type == PeerType::Internal ==> {
            let want = match attrs.base.local_pref {
                Some(n) => n,
                None => 100,
            };
            &&& exported::<Ipv4Unicast>(attrs, nbr, local).base.local_pref == Some(want)
            &&& exported::<Ipv6Unicast>(attrs, nbr, local).base.local_pref == Some(want)
            &&& exported::<Ipv4Unicast>(attrs, nbr, local).base.med == attrs.base.med
            &&& exported::<Ipv6Unicast>(attrs, nbr, local).base.med == attrs.base.med
        },
        nbr.peer_type == PeerType::External ==> {
            &&& exported::<Ipv4Unicast>(attrs, nbr, local).base.local_pref is None
            &&& exported::<Ipv6Unicast>(attrs, nbr, local).base.local_pref is None
            &&& exported::<Ipv4Unicast>(attrs, nbr, local).base.med is None
            &&& exported::<Ipv6Unicast>(attrs, nbr, local).base.med is None
        },
{
}

/// Where the router becomes the next hop, that is the address it has in the
/// session. Elsewhere next hops stay as they are.
pub proof fn exported_nexthops(attrs: AttrsView, nbr: Session, local: bool, conn: TcpConnInfo)
    requires
        nbr.conn_info == Some(conn),
    ensures
        becomes_nexthop(nbr, local) ==> {
            &&& conn.local_addr is V4 ==> exported::<Ipv4Unicast>(attrs, nbr, local).base.nexthop == Some(
                conn.local_addr,
            )
            &&& conn.local_addr is V6 ==> exported::<Ipv6Unicast>(attrs, nbr, local).base.nexthop == Some(
                conn.local_addr,
            )
            &&& conn.local_addr is V6 ==> exported::<Ipv4Unicast>(attrs, nbr, local).base.nexthop == Some(
                IpAddr::V4(0),
            )
            &&& conn.local_addr matches IpAddr::V4(a) ==> exported::<Ipv6Unicast>(attrs, nbr, local).base.nexthop
                == Some(IpAddr::V6((0xffff_0000_0000 + a) as u128))
        },
        !becomes_nexthop(nbr, local) ==> {
            &&& exported::<Ipv4Unicast>(attrs, nbr, local).base.nexthop == attrs.base.nexthop
            &&& exported::<Ipv6Unicast>(attrs, nbr, local).base.nexthop == attrs.base.nexthop
            &&& exported::<Ipv6Unicast>(attrs, nbr, local).base.ll_nexthop == attrs.base.ll_nexthop
        },
        !local && becomes_nexthop(nbr, local) ==> exported::<Ipv6Unicast>(attrs, nbr, local).base.ll_nexthop is None,
{
}

/// An internal peer is sent the attributes as export policies left them. An
/// external peer sees the local AS before all others and no local preference, and
/// everything else as it was.
pub proof fn sent_attributes(attrs: AttrsView, nbr: Session, local_asn: u32)
    ensures
        nbr.peer_type == PeerType::Internal ==> transmitted(attrs, nbr, local_asn) == attrs,
        nbr.peer_type == PeerType::External ==> {
            let sent = transmitted(attrs, nbr, local_asn);
            &&& path_members(sent.base.as_path) == seq![local_asn] + path_members(attrs.base.as_path)
            &&& sent.base.local_pref is None
            &&& sent.base.origin == attrs.base.origin
            &&& sent.base.nexthop == attrs.base.nexthop
            &&& sent.base.ll_nexthop == attrs.base.ll_nexthop
            &&& sent.base.med == attrs.base.med
            &&& sent.comm == attrs.comm
            &&& sent.ext_comm == attrs.ext_comm
            &&& sent.extv6_comm == attrs.extv6_comm
            &&& sent.large_comm == attrs.large_comm
            &&& sent.unknown == attrs.unknown
        },
{
    prepended_as_comes_first(attrs.base.as_path, local_asn);
}

// ===== tracking of next hops =====

/// A next hop is watched from its first use on, as not resolved yet, and the one
/// who watches is told once. Later uses are only counted.
pub proof fn first_use_starts_tracking(nht: Map<IpAddr, NhtView>, prefix: IpNetwork, addr: IpAddr, other: IpAddr)
    ensures
        use_added(nht, prefix, addr).contains_key(addr),
        use_added(nht, prefix, addr)[addr].prefixes.contains_key(prefix),
        !nht.contains_key(addr) ==> use_added_msgs(nht, addr) == seq![IbusMsg::NexthopTrack { addr }] && use_added(
            nht,
            prefix,
            addr,
        )[addr].metric is None && use_added(nht, prefix, addr)[addr].prefixes[prefix] == 1,
        nht.contains_key(addr) ==> use_added_msgs(nht, addr).len() == 0 && use_added(nht, prefix, addr)[addr].metric
            == nht[addr].metric,
        nht.contains_key(addr) && nht[addr].prefixes.contains_key(prefix) && nht[addr].prefixes[prefix] < u32::MAX
            ==> use_added(nht, prefix, addr)[addr].prefixes[prefix] == nht[addr].prefixes[prefix] + 1,
        other != addr ==> use_added(nht, prefix, addr).contains_key(other) == nht.contains_key(other) && (
        nht.contains_key(other) ==> use_added(nht, prefix, addr)[other] == nht[other]),
{
}

/// A next hop is watched until its last use is gone, and the one who watches is
/// told then.
pub proof fn last_use_ends_tracking(nht: Map<IpAddr, NhtView>, prefix: IpNetwork, addr: IpAddr, other: IpNetwork)
    requires
        nht.contains_key(addr),
        nht[addr].prefixes.contains_key(prefix),
        nht[addr].prefixes[prefix] >= 1,
    ensures
        nht[addr].prefixes[prefix] == 1 && nht[addr].prefixes.dom() == set![prefix] ==> !use_dropped(
            nht,
            prefix,
            addr,
        ).contains_key(addr) && use_dropped_msgs(nht, prefix, addr) == seq![IbusMsg::NexthopUntrack { addr }],
        nht[addr].prefixes[prefix] > 1 ==> use_dropped(nht, prefix, addr).contains_key(addr) && use_dropped(
            nht,
            prefix,
            addr,
        )[addr].prefixes[prefix] == nht[addr].prefixes[prefix] - 1 && use_dropped_msgs(nht, prefix, addr).len() == 0,
        other != prefix && nht[addr].prefixes.contains_key(other) ==> use_dropped(nht, prefix, addr).contains_key(addr)
            && use_dropped(nht, prefix, addr)[addr].prefixes.contains_key(other) && use_dropped_msgs(
            nht,
            prefix,
            addr,
        ).len() == 0,
{
    if nht[addr].prefixes[prefix] == 1 && nht[addr].prefixes.dom() == set![prefix] {
        assert(nht[addr].prefixes.remove(prefix).dom() =~= Set::<IpNetwork>::empty());
    }
    if nht[addr].prefixes[prefix] > 1 {
        assert(nht[addr].prefixes.insert(prefix, (nht[addr].prefixes[prefix] - 1) as u32).dom().contains(prefix));
    }
    if other != prefix && nht[addr].prefixes.contains_key(other) {
        assert(nht[addr].prefixes.remove(prefix).dom().contains(other));
        assert(nht[addr].prefixes.insert(prefix, (nht[addr].prefixes[prefix] - 1) as u32).dom().contains(other));
    }
}

} // verus!
