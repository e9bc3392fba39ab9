//! What routing policies promise: when a route meets a condition, what an action
//! does to its attributes, and how a chain of policies decides.

use std::sync::Arc;

use vstd::arithmetic::power2::{lemma_pow2_pos, pow2};
use vstd::prelude::*;

use crate::bgp::attribute::{path_contains, path_length, AttrsView, Origin};
use crate::bgp::laws::{path_members as all_members, repeated_prepending};
use crate::bgp::policy::{
    acted, chain_outcome, chain_stmts, comm_updated, condition_met, groups_of, message_of, path_members,
    run_actions, run_chain, seen, with_outcome, BgpNexthop, BgpPolicyAction, BgpPolicyCondition, BgpSetCommMethod,
    BgpSetCommOptions, BgpSetMed, DefaultPolicyType, EqOperator, MatchSetRestrictedType, MatchSetType, MatchSets,
    MetricModification, ModifiedGroup, Outcome, Policy, PolicyAction, PolicyCondition, PolicyGroup, PolicyInput,
    PolicyStmt, PolicyType, PrefixRange, PrefixSet, Progress, RoutePolicyView,
};
use crate::bgp::rib::RouteOrigin;
use crate::bgp::types::{AfiSafi, RouteType};
use crate::collections::OrdSet;
use crate::ip::{AddressFamily, IpAddr, IpNetwork, Ipv4Addr};
use crate::protocol::Protocol;

verus! {

// ===== comparisons =====

/// A condition on a number asks whether the attribute is equal to its value, at
/// most as large, or at least as large.
pub proof fn operators_compare_the_attribute(value: u32, attr: u32)
    ensures
        EqOperator::Equal.holds(value, attr) <==> attr == value,
        EqOperator::LessThanOrEqual.holds(value, attr) <==> attr <= value,
        EqOperator::GreaterThanOrEqual.holds(value, attr) <==> attr >= value,
{
}

/// A set matches a value that is one of its members, and an inverted one matches
/// all others.
pub proof fn restricted_sets_match_members<T>(set: Set<T>, value: T)
    ensures
        MatchSetRestrictedType::Any.holds(set.insert(value), value),
        !MatchSetRestrictedType::Any.holds(set.remove(value), value),
        MatchSetRestrictedType::Invert.holds(set.remove(value), value),
        !MatchSetRestrictedType::Invert.holds(set.insert(value), value),
{
}

/// One shared member makes a match, and breaks an inverted one. All members have to
/// be there where all are asked for.
pub proof fn sets_match_by_shared_members<T>(set: Set<T>, values: Set<T>, x: T)
    ensures
        set.contains(x) && values.contains(x) ==> MatchSetType::Any.holds(set, values) && !MatchSetType::Invert.holds(
            set,
            values,
        ),
        set.disjoint(values) ==> !MatchSetType::Any.holds(set, values) && MatchSetType::Invert.holds(set, values),
        set.contains(x) && !values.contains(x) ==> !MatchSetType::All.holds(set, values),
        MatchSetType::All.holds(set, set.union(values)),
{
}

/// A range covers an IPv4 network exactly if its length is between the bounds and it
/// agrees with the range's prefix on as many leading bits as that has.
pub proof fn ranges_cover_their_ipv4_networks(range: PrefixRange, a: u32, b: u32, plen: u8)
    requires
        range.prefix.addr == IpAddr::V4(a),
        range.prefix.plen <= 32,
    ensures
        range.covers(IpNetwork { addr: IpAddr::V4(b), plen }) <==> {
            &&& range.masklen_lower <= plen
            &&& plen <= range.masklen_upper
            &&& a as int / pow2((32 - range.prefix.plen) as nat) as int == b as int / pow2(
                (32 - range.prefix.plen) as nat,
            ) as int
        },
        !range.covers(IpNetwork { addr: IpAddr::V6(b as u128), plen }),
{
    let block = pow2((32 - range.prefix.plen) as nat) as int;
    lemma_pow2_pos((32 - range.prefix.plen) as nat);
    blocks_tell_apart(a as int, b as int, block);
}

/// A range covers an IPv6 network exactly if its length is between the bounds and it
/// agrees with the range's prefix on as many leading bits as that has.
pub proof fn ranges_cover_their_ipv6_networks(range: PrefixRange, a: u128, b: u128, plen: u8)
    requires
        range.prefix.addr == IpAddr::V6(a),
        range.prefix.plen <= 128,
    ensures
        range.covers(IpNetwork { addr: IpAddr::V6(b), plen }) <==> {
            &&& range.masklen_lower <= plen
            &&& plen <= range.masklen_upper
            &&& a as int / pow2((128 - range.prefix.plen) as nat) as int == b as int / pow2(
                (128 - range.prefix.plen) as nat,
            ) as int
        },
        !range.covers(IpNetwork { addr: IpAddr::V4(0), plen }),
{
    let block = pow2((128 - range.prefix.plen) as nat) as int;
    lemma_pow2_pos((128 - range.prefix.plen) as nat);
    blocks_tell_apart(a as int, b as int, block);
}

proof fn blocks_tell_apart(a: int, b: int, block: int)
    requires
        block > 0,
        a >= 0,
        b >= 0,
    ensures
        a - a % block == b - b % block <==> a / block == b / block,
        0 <= a - a % block <= a,
        0 <= b - b % block <= b,
{
    vstd::arithmetic::div_mod::lemma_fundamental_div_mod(a, block);
    vstd::arithmetic::div_mod::lemma_fundamental_div_mod(b, block);
    vstd::arithmetic::div_mod::lemma_mod_bound(a, block);
    vstd::arithmetic::div_mod::lemma_mod_bound(b, block);
    vstd::arithmetic::div_mod::lemma_div_pos_is_pos(a, block);
    vstd::arithmetic::div_mod::lemma_div_pos_is_pos(b, block);
    assert(block * (a / block) >= 0) by (nonlinear_arith)
        requires
            block > 0,
            a / block >= 0,
    ;
    assert(block * (b / block) >= 0) by (nonlinear_arith)
        requires
            block > 0,
            b / block >= 0,
    ;
    if a / block != b / block {
        assert(block * (a / block) != block * (b / block)) by (nonlinear_arith)
            requires
                block > 0,
                a / block != b / block,
        ;
    }
}

/// A prefix set covers a network exactly if one of its ranges does.
pub proof fn prefix_sets_cover_by_ranges(set: PrefixSet, net: IpNetwork, i: int)
    ensures
        0 <= i < set.ranges@.len() && set.ranges@[i].covers(net) ==> set.covers(net),
        (forall|k: int| 0 <= k < set.ranges@.len() ==> !(#[trigger] set.ranges@[k]).covers(net)) ==> !set.covers(net),
{
}

// ===== conditions =====

/// A route of a protocol meets the source-protocol condition for that protocol and
/// for no other. The condition does not look at routes of neighbors.
pub proof fn source_protocol_is_the_origin(
    afi_safi: AfiSafi,
    prefix: IpNetwork,
    rpinfo: RoutePolicyView,
    p: Protocol,
    q: Protocol,
    sets: MatchSets,
)
    ensures
        rpinfo.origin == RouteOrigin::Protocol(p) ==> condition_met(
            afi_safi,
            prefix,
            rpinfo,
            PolicyCondition::SrcProtocol(p),
            sets,
        ),
        rpinfo.origin == RouteOrigin::Protocol(p) && q != p ==> !condition_met(
            afi_safi,
            prefix,
            rpinfo,
            PolicyCondition::SrcProtocol(q),
            sets,
        ),
        rpinfo.origin is Neighbor ==> condition_met(afi_safi, prefix, rpinfo, PolicyCondition::SrcProtocol(q), sets),
{
}

/// A route meets a prefix set condition exactly if there is a set of that name for
/// the family of its prefix, and one of the set's ranges covers the prefix.
pub proof fn prefix_set_covers_the_prefix(
    afi_safi: AfiSafi,
    prefix: IpNetwork,
    rpinfo: RoutePolicyView,
    name: String,
    sets: MatchSets,
    af: AddressFamily,
    i: int,
)
    requires
        af == if prefix.addr is V4 {
            AddressFamily::Ipv4
        } else {
            AddressFamily::Ipv6
        },
    ensures
        !sets.prefixes@.contains_key((af, name@)) ==> !condition_met(
            afi_safi,
            prefix,
            rpinfo,
            PolicyCondition::MatchPrefixSet(name),
            sets,
        ),
        sets.prefixes@.contains_key((af, name@)) && 0 <= i < sets.prefixes@[(af, name@)].ranges@.len()
            && sets.prefixes@[(af, name@)].ranges@[i].covers(prefix) ==> condition_met(
            afi_safi,
            prefix,
            rpinfo,
            PolicyCondition::MatchPrefixSet(name),
            sets,
        ),
        (forall|k: int|
            0 <= k < sets.prefixes@[(af, name@)].ranges@.len() ==> !(
            #[trigger] sets.prefixes@[(af, name@)].ranges@[k]).covers(prefix)) ==> !condition_met(
            afi_safi,
            prefix,
            rpinfo,
            PolicyCondition::MatchPrefixSet(name),
            sets,
        ),
{
    prefix_sets_cover_by_ranges(sets.prefixes@[(af, name@)], prefix, i);
}

/// A route of a neighbor meets a neighbor set condition exactly if the set is there
/// and holds the neighbor's address. The condition does not look at other routes.
pub proof fn neighbor_set_holds_the_neighbor(
    afi_safi: AfiSafi,
    prefix: IpNetwork,
    rpinfo: RoutePolicyView,
    name: String,
    sets: MatchSets,
    identifier: Ipv4Addr,
    remote_addr: IpAddr,
)
    ensures
        rpinfo.origin == (RouteOrigin::Neighbor { identifier, remote_addr }) ==> condition_met(
            afi_safi,
            prefix,
            rpinfo,
            PolicyCondition::MatchNeighborSet(name),
            sets,
        ) == (sets.neighbors@.contains_key(name@) && sets.neighbors@[name@].addrs@.contains(remote_addr)),
        rpinfo.origin is Protocol ==> condition_met(
            afi_safi,
            prefix,
            rpinfo,
            PolicyCondition::MatchNeighborSet(name),
            sets,
        ),
{
}

/// A route meets a tag set condition exactly if it has a tag that the set holds.
pub proof fn tag_set_holds_the_tag(
    afi_safi: AfiSafi,
    prefix: IpNetwork,
    rpinfo: RoutePolicyView,
    name: String,
    sets: MatchSets,
    tag: u32,
)
    ensures
        rpinfo.tag == Some(tag) ==> condition_met(
            afi_safi,
            prefix,
            rpinfo,
            PolicyCondition::MatchTagSet(name),
            sets,
        ) == (sets.tags@.contains_key(name@) && sets.tags@[name@].tags@.contains(tag)),
        rpinfo.tag is None ==> !condition_met(afi_safi, prefix, rpinfo, PolicyCondition::MatchTagSet(name), sets),
{
}

/// Conditions on interfaces and route types of other protocols, and those that do
/// not apply to BGP, hold back no route. Nor do BGP conditions hold back routes that
/// no neighbor has sent.
pub proof fn other_conditions_hold_back_nothing(
    afi_safi: AfiSafi,
    prefix: IpNetwork,
    rpinfo: RoutePolicyView,
    name: String,
    c: BgpPolicyCondition,
    sets: MatchSets,
)
    ensures
        condition_met(afi_safi, prefix, rpinfo, PolicyCondition::MatchInterface(name), sets),
        condition_met(afi_safi, prefix, rpinfo, PolicyCondition::MatchRouteType(name), sets),
        condition_met(afi_safi, prefix, rpinfo, PolicyCondition::Unsupported, sets),
        rpinfo.origin is Protocol ==> condition_met(afi_safi, prefix, rpinfo, PolicyCondition::Bgp(c), sets),
{
}

/// Whether a route of a neighbor meets a BGP condition.
pub open spec fn meets(
    afi_safi: AfiSafi,
    rpinfo: RoutePolicyView,
    c: BgpPolicyCondition,
    sets: MatchSets,
) -> bool {
    forall|prefix: IpNetwork| #[trigger] condition_met(afi_safi, prefix, rpinfo, PolicyCondition::Bgp(c), sets)
}

/// Whether a route of a neighbor does not meet a BGP condition.
pub open spec fn misses(
    afi_safi: AfiSafi,
    rpinfo: RoutePolicyView,
    c: BgpPolicyCondition,
    sets: MatchSets,
) -> bool {
    forall|prefix: IpNetwork| !#[trigger] condition_met(afi_safi, prefix, rpinfo, PolicyCondition::Bgp(c), sets)
}

/// Conditions on the local preference and the MED look at that attribute; a route
/// without it does not meet them.
pub proof fn preference_conditions_look_at_their_attribute(
    afi_safi: AfiSafi,
    rpinfo: RoutePolicyView,
    value: u32,
    x: u32,
    sets: MatchSets,
)
    requires
        rpinfo.origin is Neighbor,
    ensures
        rpinfo.attrs.base.local_pref is None ==> forall|op: EqOperator|
            #[trigger] misses(afi_safi, rpinfo, BgpPolicyCondition::LocalPref { value, op }, sets),
        rpinfo.attrs.base.med is None ==> forall|op: EqOperator|
            #[trigger] misses(afi_safi, rpinfo, BgpPolicyCondition::Med { value, op }, sets),
        rpinfo.attrs.base.local_pref == Some(x) ==> {
            &&& x == value ==> meets(
                afi_safi,
                rpinfo,
                BgpPolicyCondition::LocalPref { value, op: EqOperator::Equal },
                sets,
            )
            &&& x != value ==> misses(
                afi_safi,
                rpinfo,
                BgpPolicyCondition::LocalPref { value, op: EqOperator::Equal },
                sets,
            )
            &&& x <= value ==> meets(
                afi_safi,
                rpinfo,
                BgpPolicyCondition::LocalPref { value, op: EqOperator::LessThanOrEqual },
                sets,
            )
            &&& x > value ==> misses(
                afi_safi,
                rpinfo,
                BgpPolicyCondition::LocalPref { value, op: EqOperator::LessThanOrEqual },
                sets,
            )
            &&& x >= value ==> meets(
                afi_safi,
                rpinfo,
                BgpPolicyCondition::LocalPref { value, op: EqOperator::GreaterThanOrEqual },
                sets,
            )
            &&& x < value ==> misses(
                afi_safi,
                rpinfo,
                BgpPolicyCondition::LocalPref { value, op: EqOperator::GreaterThanOrEqual },
                sets,
            )
        },
        rpinfo.attrs.base.med == Some(x) ==> {
            &&& x == value ==> meets(
                afi_safi,
                rpinfo,
                BgpPolicyCondition::Med { value, op: EqOperator::Equal },
                sets,
            )
            &&& x != value ==> misses(
                afi_safi,
                rpinfo,
                BgpPolicyCondition::Med { value, op: EqOperator::Equal },
                sets,
            )
            &&& x <= value ==> meets(
                afi_safi,
                rpinfo,
                BgpPolicyCondition::Med { value, op: EqOperator::LessThanOrEqual },
                sets,
            )
            &&& x > value ==> misses(
                afi_safi,
                rpinfo,
                BgpPolicyCondition::Med { value, op: EqOperator::LessThanOrEqual },
                sets,
            )
            &&& x >= value ==> meets(
                afi_safi,
                rpinfo,
                BgpPolicyCondition::Med { value, op: EqOperator::GreaterThanOrEqual },
                sets,
            )
            &&& x < value ==> misses(
                afi_safi,
                rpinfo,
                BgpPolicyCondition::Med { value, op: EqOperator::GreaterThanOrEqual },
                sets,
            )
        },
{
}

/// Conditions on the number of communities and the length of the AS path compare
/// that number; a route without communities does not meet the former.
pub proof fn counting_conditions_count(
    afi_safi: AfiSafi,
    rpinfo: RoutePolicyView,
    value: u32,
    n: u32,
    sets: MatchSets,
)
    requires
        rpinfo.origin is Neighbor,
    ensures
        rpinfo.attrs.comm is None ==> forall|op: EqOperator|
            #[trigger] misses(afi_safi, rpinfo, BgpPolicyCondition::CommCount { value, op }, sets),
        (rpinfo.attrs.comm matches Some(list) && list.len() == n) ==> {
            &&& n <= value ==> meets(
                afi_safi,
                rpinfo,
                BgpPolicyCondition::CommCount { value, op: EqOperator::LessThanOrEqual },
                sets,
            )
            &&& n > value ==> misses(
                afi_safi,
                rpinfo,
                BgpPolicyCondition::CommCount { value, op: EqOperator::LessThanOrEqual },
                sets,
            )
            &&& n >= value ==> meets(
                afi_safi,
                rpinfo,
                BgpPolicyCondition::CommCount { value, op: EqOperator::GreaterThanOrEqual },
                sets,
            )
            &&& n < value ==> misses(
                afi_safi,
                rpinfo,
                BgpPolicyCondition::CommCount { value, op: EqOperator::GreaterThanOrEqual },
                sets,
            )
        },
        path_length(rpinfo.attrs.base.as_path) == n ==> {
            &&& n <= value ==> meets(
                afi_safi,
                rpinfo,
                BgpPolicyCondition::AsPathLen { value, op: EqOperator::LessThanOrEqual },
                sets,
            )
            &&& n > value ==> misses(
                afi_safi,
                rpinfo,
                BgpPolicyCondition::AsPathLen { value, op: EqOperator::LessThanOrEqual },
                sets,
            )
            &&& n >= value ==> meets(
                afi_safi,
                rpinfo,
                BgpPolicyCondition::AsPathLen { value, op: EqOperator::GreaterThanOrEqual },
                sets,
            )
            &&& n < value ==> misses(
                afi_safi,
                rpinfo,
                BgpPolicyCondition::AsPathLen { value, op: EqOperator::GreaterThanOrEqual },
                sets,
            )
        },
{
}

/// Conditions on the origin and the type of a route hold exactly for the routes that
/// have it.
pub proof fn origin_and_type_conditions_compare(
    afi_safi: AfiSafi,
    rpinfo: RoutePolicyView,
    origin: Origin,
    route_type: RouteType,
    sets: MatchSets,
)
    requires
        rpinfo.origin is Neighbor,
    ensures
        rpinfo.attrs.base.origin == origin ==> meets(afi_safi, rpinfo, BgpPolicyCondition::Origin(origin), sets),
        rpinfo.attrs.base.origin != origin ==> misses(afi_safi, rpinfo, BgpPolicyCondition::Origin(origin), sets),
        rpinfo.route_type == route_type ==> meets(afi_safi, rpinfo, BgpPolicyCondition::RouteType(route_type), sets),
        rpinfo.route_type != route_type ==> misses(afi_safi, rpinfo, BgpPolicyCondition::RouteType(route_type), sets),
{
}

/// Conditions on the address family, the neighbor and the next hop ask whether it is
/// in the set, or is not. A route without a next hop has the router itself as one.
pub proof fn membership_conditions_look_into_their_set(
    afi_safi: AfiSafi,
    rpinfo: RoutePolicyView,
    families: OrdSet<AfiSafi>,
    addrs: OrdSet<IpAddr>,
    name: String,
    sets: MatchSets,
)
    requires
        rpinfo.origin is Neighbor,
    ensures
        families@.contains(afi_safi) ==> meets(
            afi_safi,
            rpinfo,
            BgpPolicyCondition::MatchAfiSafi { values: families, match_type: MatchSetRestrictedType::Any },
            sets,
        ) && misses(
            afi_safi,
            rpinfo,
            BgpPolicyCondition::MatchAfiSafi { values: families, match_type: MatchSetRestrictedType::Invert },
            sets,
        ),
        !families@.contains(afi_safi) ==> misses(
            afi_safi,
            rpinfo,
            BgpPolicyCondition::MatchAfiSafi { values: families, match_type: MatchSetRestrictedType::Any },
            sets,
        ) && meets(
            afi_safi,
            rpinfo,
            BgpPolicyCondition::MatchAfiSafi { values: families, match_type: MatchSetRestrictedType::Invert },
            sets,
        ),
        addrs@.contains(rpinfo.origin->remote_addr) ==> meets(
            afi_safi,
            rpinfo,
            BgpPolicyCondition::MatchNeighbor { value: addrs, match_type: MatchSetRestrictedType::Any },
            sets,
        ) && misses(
            afi_safi,
            rpinfo,
            BgpPolicyCondition::MatchNeighbor { value: addrs, match_type: MatchSetRestrictedType::Invert },
            sets,
        ),
        !addrs@.contains(rpinfo.origin->remote_addr) ==> misses(
            afi_safi,
            rpinfo,
            BgpPolicyCondition::MatchNeighbor { value: addrs, match_type: MatchSetRestrictedType::Any },
            sets,
        ) && meets(
            afi_safi,
            rpinfo,
            BgpPolicyCondition::MatchNeighbor { value: addrs, match_type: MatchSetRestrictedType::Invert },
            sets,
        ),
        ({
            let nexthop = if rpinfo.attrs.base.nexthop is Some {
                BgpNexthop::Addr(rpinfo.attrs.base.nexthop->0)
            } else {
                BgpNexthop::NexthopSelf
            };
            let any = BgpPolicyCondition::MatchNexthopSet { value: name, match_type: MatchSetRestrictedType::Any };
            let invert = BgpPolicyCondition::MatchNexthopSet {
                value: name,
                match_type: MatchSetRestrictedType::Invert,
            };
            &&& sets.bgp.nexthops@[name@]@.contains(nexthop) ==> meets(afi_safi, rpinfo, any, sets) && misses(
                afi_safi,
                rpinfo,
                invert,
                sets,
            )
            &&& !sets.bgp.nexthops@[name@]@.contains(nexthop) ==> misses(afi_safi, rpinfo, any, sets) && meets(
                afi_safi,
                rpinfo,
                invert,
                sets,
            )
        }),
{
}

/// Conditions on a set of AS numbers look at all members of the path: one that the
/// set holds makes a match, and breaks an inverted one.
pub proof fn as_path_sets_look_at_members(
    afi_safi: AfiSafi,
    rpinfo: RoutePolicyView,
    name: String,
    asn: u32,
    sets: MatchSets,
)
    requires
        rpinfo.origin is Neighbor,
    ensures
        ({
            let path = rpinfo.attrs.base.as_path;
            let set = sets.bgp.as_paths@[name@]@;
            let any = BgpPolicyCondition::MatchAsPathSet { value: name, match_type: MatchSetType::Any };
            let all = BgpPolicyCondition::MatchAsPathSet { value: name, match_type: MatchSetType::All };
            let invert = BgpPolicyCondition::MatchAsPathSet { value: name, match_type: MatchSetType::Invert };
            &&& set.contains(asn) && path_contains(path, asn) ==> meets(afi_safi, rpinfo, any, sets) && misses(
                afi_safi,
                rpinfo,
                invert,
                sets,
            )
            &&& (forall|x: u32| set.contains(x) ==> !path_contains(path, x)) ==> misses(afi_safi, rpinfo, any, sets)
                && meets(afi_safi, rpinfo, invert, sets)
            &&& set.contains(asn) && !path_contains(path, asn) ==> misses(afi_safi, rpinfo, all, sets)
            &&& (forall|x: u32| set.contains(x) ==> path_contains(path, x)) ==> meets(afi_safi, rpinfo, all, sets)
        }),
{
    let path = rpinfo.attrs.base.as_path;
    assert(forall|x: u32| #[trigger] path_members(path).contains(x) == path_contains(path, x));
}

/// Whether each way of matching a set against a list of communities goes by their
/// shared members.
pub open spec fn matches_by_members<T>(
    set: Set<T>,
    list: Set<T>,
    x: T,
    any: spec_fn(bool) -> bool,
    all: spec_fn(bool) -> bool,
    invert: spec_fn(bool) -> bool,
) -> bool {
    &&& set.contains(x) && list.contains(x) ==> any(true) && invert(false)
    &&& set.disjoint(list) ==> any(false) && invert(true)
    &&& set.contains(x) && !list.contains(x) ==> all(false)
    &&& set.subset_of(list) ==> all(true)
}

/// Whether a route of a neighbor meets a condition, or does not.
pub open spec fn meets_or_not(
    afi_safi: AfiSafi,
    rpinfo: RoutePolicyView,
    c: BgpPolicyCondition,
    sets: MatchSets,
) -> spec_fn(bool) -> bool {
    |met: bool|
        forall|prefix: IpNetwork| #[trigger]
            condition_met(afi_safi, prefix, rpinfo, PolicyCondition::Bgp(c), sets) == met
}

/// Conditions on a set of communities look at the route's own communities of that
/// kind; a route that has none does not meet them.
pub proof fn community_sets_look_at_communities(
    afi_safi: AfiSafi,
    rpinfo: RoutePolicyView,
    value: String,
    x: u32,
    sets: MatchSets,
)
    requires
        rpinfo.origin is Neighbor,
    ensures
        ({
            let any = BgpPolicyCondition::MatchCommSet { value, match_type: MatchSetType::Any };
            let all = BgpPolicyCondition::MatchCommSet { value, match_type: MatchSetType::All };
            let invert = BgpPolicyCondition::MatchCommSet { value, match_type: MatchSetType::Invert };
            match rpinfo.attrs.comm {
                Some(list) => matches_by_members(
                    sets.bgp.comms@[value@]@,
                    list,
                    x,
                    meets_or_not(afi_safi, rpinfo, any, sets),
                    meets_or_not(afi_safi, rpinfo, all, sets),
                    meets_or_not(afi_safi, rpinfo, invert, sets),
                ),
                None => misses(afi_safi, rpinfo, any, sets) && misses(afi_safi, rpinfo, all, sets) && misses(
                    afi_safi,
                    rpinfo,
                    invert,
                    sets,
                ),
            }
        }),
{
}

/// Conditions on a set of extended communities look at the route's own communities
/// of that kind; a route that has none does not meet them.
pub proof fn ext_community_sets_look_at_communities(
    afi_safi: AfiSafi,
    rpinfo: RoutePolicyView,
    value: String,
    x: u64,
    sets: MatchSets,
)
    requires
        rpinfo.origin is Neighbor,
    ensures
        ({
            let any = BgpPolicyCondition::MatchExtCommSet { value, match_type: MatchSetType::Any };
            let all = BgpPolicyCondition::MatchExtCommSet { value, match_type: MatchSetType::All };
            let invert = BgpPolicyCondition::MatchExtCommSet { value, match_type: MatchSetType::Invert };
            match rpinfo.attrs.ext_comm {
                Some(list) => matches_by_members(
                    sets.bgp.ext_comms@[value@]@,
                    list,
                    x,
                    meets_or_not(afi_safi, rpinfo, any, sets),
                    meets_or_not(afi_safi, rpinfo, all, sets),
                    meets_or_not(afi_safi, rpinfo, invert, sets),
                ),
                None => misses(afi_safi, rpinfo, any, sets) && misses(afi_safi, rpinfo, all, sets) && misses(
                    afi_safi,
                    rpinfo,
                    invert,
                    sets,
                ),
            }
        }),
{
}

/// Conditions on a set of IPv6 extended communities look at the route's own
/// communities of that kind; a route that has none does not meet them.
pub proof fn extv6_community_sets_look_at_communities(
    afi_safi: AfiSafi,
    rpinfo: RoutePolicyView,
    value: String,
    x: crate::bgp::attribute::Extv6Comm,
    sets: MatchSets,
)
    requires
        rpinfo.origin is Neighbor,
    ensures
        ({
            let any = BgpPolicyCondition::MatchExtv6CommSet { value, match_type: MatchSetType::Any };
            let all = BgpPolicyCondition::MatchExtv6CommSet { value, match_type: MatchSetType::All };
            let invert = BgpPolicyCondition::MatchExtv6CommSet { value, match_type: MatchSetType::Invert };
            match rpinfo.attrs.extv6_comm {
                Some(list) => matches_by_members(
                    sets.bgp.extv6_comms@[value@]@,
                    list,
                    x,
                    meets_or_not(afi_safi, rpinfo, any, sets),
                    meets_or_not(afi_safi, rpinfo, all, sets),
                    meets_or_not(afi_safi, rpinfo, invert, sets),
                ),
                None => misses(afi_safi, rpinfo, any, sets) && misses(afi_safi, rpinfo, all, sets) && misses(
                    afi_safi,
                    rpinfo,
                    invert,
                    sets,
                ),
            }
        }),
{
}

/// Conditions on a set of large communities look at the route's own communities of
/// that kind; a route that has none does not meet them.
pub proof fn large_community_sets_look_at_communities(
    afi_safi: AfiSafi,
    rpinfo: RoutePolicyView,
    value: String,
    x: u128,
    sets: MatchSets,
)
    requires
        rpinfo.origin is Neighbor,
    ensures
        ({
            let any = BgpPolicyCondition::MatchLargeCommSet { value, match_type: MatchSetType::Any };
            let all = BgpPolicyCondition::MatchLargeCommSet { value, match_type: MatchSetType::All };
            let invert = BgpPolicyCondition::MatchLargeCommSet { value, match_type: MatchSetType::Invert };
            match rpinfo.attrs.large_comm {
                Some(list) => matches_by_members(
                    sets.bgp.large_comms@[value@]@,
                    list,
                    x,
                    meets_or_not(afi_safi, rpinfo, any, sets),
                    meets_or_not(afi_safi, rpinfo, all, sets),
                    meets_or_not(afi_safi, rpinfo, invert, sets),
                ),
                None => misses(afi_safi, rpinfo, any, sets) && misses(afi_safi, rpinfo, all, sets) && misses(
                    afi_safi,
                    rpinfo,
                    invert,
                    sets,
                ),
            }
        }),
{
}

// ===== actions =====

/// Whether two sets of attributes agree on everything but the base attributes.
pub open spec fn same_but_base(a: AttrsView, b: AttrsView) -> bool {
    a.comm == b.comm && a.ext_comm == b.ext_comm && a.extv6_comm == b.extv6_comm && a.large_comm == b.large_comm
        && a.unknown == b.unknown
}

/// Whether two sets of attributes agree on everything but the MED.
pub open spec fn same_but_med(a: AttrsView, b: AttrsView) -> bool {
    &&& same_but_base(a, b)
    &&& a.base.origin == b.base.origin && a.base.as_path == b.base.as_path && a.base.nexthop == b.base.nexthop
    &&& a.base.ll_nexthop == b.base.ll_nexthop && a.base.local_pref == b.base.local_pref
}

/// Setting the metric replaces the MED, or adds to or subtracts from the one that is
/// there, no further than the numbers go. Nothing else changes.
pub proof fn set_metric_changes_the_med(
    attrs: AttrsView,
    value: u32,
    policy_type: PolicyType,
    sets: MatchSets,
    igp_metric: Option<u32>,
    m: u32,
)
    ensures
        ({
            let replaced = acted(
                attrs,
                PolicyAction::SetMetric { value, mod_type: MetricModification::Replace },
                policy_type,
                sets,
                igp_metric,
            );
            let added = acted(
                attrs,
                PolicyAction::SetMetric { value, mod_type: MetricModification::Add },
                policy_type,
                sets,
                igp_metric,
            );
            let subtracted = acted(
                attrs,
                PolicyAction::SetMetric { value, mod_type: MetricModification::Subtract },
                policy_type,
                sets,
                igp_metric,
            );
            &&& same_but_med(attrs, replaced) && same_but_med(attrs, added) && same_but_med(attrs, subtracted)
            &&& replaced.base.med == Some(value)
            &&& attrs.base.med is None ==> added.base.med is None && subtracted.base.med is None
            &&& attrs.base.med == Some(m) && m + value <= u32::MAX ==> added.base.med is Some && added.base.med->0 == m
                + value
            &&& attrs.base.med == Some(m) && m + value > u32::MAX ==> added.base.med == Some(u32::MAX)
            &&& attrs.base.med == Some(m) && m >= value ==> subtracted.base.med is Some && subtracted.base.med->0 == m
                - value
            &&& attrs.base.med == Some(m) && m < value ==> subtracted.base.med == Some(0u32)
        }),
{
}

/// The attributes after a "set-med" action.
pub open spec fn with_med(
    attrs: AttrsView,
    set_med: BgpSetMed,
    policy_type: PolicyType,
    sets: MatchSets,
    igp_metric: Option<u32>,
) -> AttrsView {
    acted(attrs, PolicyAction::Bgp(BgpPolicyAction::SetMed(set_med)), policy_type, sets, igp_metric)
}

/// Setting the MED replaces it, adds to or subtracts from the one that is there, or
/// takes the metric of the IGP, alone or added to it. Without such a metric it stays.
pub proof fn set_med_changes_the_med(
    attrs: AttrsView,
    value: u32,
    policy_type: PolicyType,
    sets: MatchSets,
    igp_metric: Option<u32>,
    m: u32,
    igp: u32,
)
    ensures
        ({
            let replaced = with_med(attrs, BgpSetMed::Replace(value), policy_type, sets, igp_metric);
            let added = with_med(attrs, BgpSetMed::Add(value), policy_type, sets, igp_metric);
            let subtracted = with_med(attrs, BgpSetMed::Subtract(value), policy_type, sets, igp_metric);
            let taken = with_med(attrs, BgpSetMed::Igp, policy_type, sets, igp_metric);
            let summed = with_med(attrs, BgpSetMed::MedPlusIgp, policy_type, sets, igp_metric);
            &&& same_but_med(attrs, replaced) && same_but_med(attrs, added) && same_but_med(attrs, subtracted)
            &&& same_but_med(attrs, taken) && same_but_med(attrs, summed)
            &&& replaced.base.med == Some(value)
            &&& attrs.base.med is None ==> added.base.med is None && subtracted.base.med is None
            &&& attrs.base.med == Some(m) && m + value <= u32::MAX ==> added.base.med is Some && added.base.med->0 == m
                + value
            &&& attrs.base.med == Some(m) && m + value > u32::MAX ==> added.base.med == Some(u32::MAX)
            &&& attrs.base.med == Some(m) && m >= value ==> subtracted.base.med is Some && subtracted.base.med->0 == m
                - value
            &&& attrs.base.med == Some(m) && m < value ==> subtracted.base.med == Some(0u32)
            &&& igp_metric is None ==> taken.base.med == attrs.base.med && summed.base.med == attrs.base.med
            &&& igp_metric == Some(igp) ==> taken.base.med == Some(igp)
            &&& igp_metric == Some(igp) && attrs.base.med is None ==> summed.base.med == Some(igp)
            &&& igp_metric == Some(igp) && attrs.base.med == Some(m) && m + igp <= u32::MAX ==> summed.base.med is Some
                && summed.base.med->0 == m + igp
            &&& igp_metric == Some(igp) && attrs.base.med == Some(m) && m + igp > u32::MAX ==> summed.base.med == Some(
                u32::MAX,
            )
        }),
{
}

/// Setting the origin or the local preference changes that attribute to the given
/// value and no other.
pub proof fn set_attributes_have_the_given_value(
    attrs: AttrsView,
    origin: Origin,
    pref: u32,
    policy_type: PolicyType,
    sets: MatchSets,
    igp_metric: Option<u32>,
)
    ensures
        ({
            let a = acted(
                attrs,
                PolicyAction::Bgp(BgpPolicyAction::SetRouteOrigin(origin)),
                policy_type,
                sets,
                igp_metric,
            );
            &&& a.base.origin == origin
            &&& same_but_base(attrs, a)
            &&& a.base.as_path == attrs.base.as_path && a.base.nexthop == attrs.base.nexthop
            &&& a.base.ll_nexthop == attrs.base.ll_nexthop && a.base.med == attrs.base.med
            &&& a.base.local_pref == attrs.base.local_pref
        }),
        ({
            let a = acted(
                attrs,
                PolicyAction::Bgp(BgpPolicyAction::SetLocalPref(pref)),
                policy_type,
                sets,
                igp_metric,
            );
            &&& a.base.local_pref == Some(pref)
            &&& same_but_base(attrs, a)
            &&& a.base.as_path == attrs.base.as_path && a.base.nexthop == attrs.base.nexthop
            &&& a.base.ll_nexthop == attrs.base.ll_nexthop && a.base.med == attrs.base.med
            &&& a.base.origin == attrs.base.origin
        }),
{
}

/// Setting the next hop gives the route that address and no link-local one. Making
/// the router itself the next hop leaves both open, and does nothing on import.
pub proof fn set_next_hop_drops_the_link_local_one(
    attrs: AttrsView,
    addr: IpAddr,
    policy_type: PolicyType,
    sets: MatchSets,
    igp_metric: Option<u32>,
)
    ensures
        ({
            let a = acted(
                attrs,
                PolicyAction::Bgp(BgpPolicyAction::SetNexthop(BgpNexthop::Addr(addr))),
                policy_type,
                sets,
                igp_metric,
            );
            &&& a.base.nexthop == Some(addr) && a.base.ll_nexthop is None
            &&& same_but_base(attrs, a)
            &&& a.base.as_path == attrs.base.as_path && a.base.origin == attrs.base.origin
            &&& a.base.med == attrs.base.med && a.base.local_pref == attrs.base.local_pref
        }),
        ({
            let itself = PolicyAction::Bgp(BgpPolicyAction::SetNexthop(BgpNexthop::NexthopSelf));
            let a = acted(attrs, itself, PolicyType::Export, sets, igp_metric);
            &&& a.base.nexthop is None && a.base.ll_nexthop is None
            &&& same_but_base(attrs, a)
            &&& a.base.as_path == attrs.base.as_path && a.base.origin == attrs.base.origin
            &&& a.base.med == attrs.base.med && a.base.local_pref == attrs.base.local_pref
            &&& acted(attrs, itself, PolicyType::Import, sets, igp_metric) == attrs
        }),
{
}

/// Prepending puts the AS number before all members of the path as often as asked,
/// once where nothing is said, and changes nothing else.
pub proof fn prepending_repeats_the_as(
    attrs: AttrsView,
    asn: u32,
    n: u8,
    policy_type: PolicyType,
    sets: MatchSets,
    igp_metric: Option<u32>,
)
    ensures
        ({
            let a = acted(
                attrs,
                PolicyAction::Bgp(BgpPolicyAction::SetAsPathPrepent { asn, repeat: Some(n) }),
                policy_type,
                sets,
                igp_metric,
            );
            let once = acted(
                attrs,
                PolicyAction::Bgp(BgpPolicyAction::SetAsPathPrepent { asn, repeat: None }),
                policy_type,
                sets,
                igp_metric,
            );
            let members = all_members(attrs.base.as_path);
            &&& all_members(a.base.as_path) == Seq::new(n as nat, |i: int| asn) + members
            &&& all_members(once.base.as_path) == seq![asn] + members
            &&& same_but_base(attrs, a) && same_but_base(attrs, once)
            &&& a.base.origin == attrs.base.origin && a.base.nexthop == attrs.base.nexthop
            &&& a.base.ll_nexthop == attrs.base.ll_nexthop && a.base.med == attrs.base.med
            &&& a.base.local_pref == attrs.base.local_pref
        }),
{
    repeated_prepending(attrs.base.as_path, asn, n as nat);
    repeated_prepending(attrs.base.as_path, asn, 1);
    assert(Seq::new(1, |i: int| asn) =~= seq![asn]);
}

/// Adding communities keeps those that are there, removing takes out exactly the
/// given ones, and replacing leaves just them. No list is ever left empty.
pub proof fn communities_are_added_and_removed<T>(comms: Set<T>, list: Set<T>, x: T)
    ensures
        comms.contains(x) || list.contains(x) ==> {
            let added = comm_updated(BgpSetCommOptions::Add, comms, Some(list));
            added is Some && added->0.contains(x)
        },
        !comms.contains(x) && !list.contains(x) ==> {
            let added = comm_updated(BgpSetCommOptions::Add, comms, Some(list));
            added is Some ==> !added->0.contains(x)
        },
        comms.contains(x) ==> {
            let added = comm_updated(BgpSetCommOptions::Add, comms, None);
            &&& added is Some && added->0.contains(x)
            &&& comm_updated(BgpSetCommOptions::Replace, comms, Some(list)) == Some(comms)
            &&& comm_updated(BgpSetCommOptions::Replace, comms, None) == Some(comms)
        },
        !comms.contains(x) ==> {
            let added = comm_updated(BgpSetCommOptions::Add, comms, None);
            let replaced = comm_updated(BgpSetCommOptions::Replace, comms, Some(list));
            &&& added is Some ==> !added->0.contains(x)
            &&& replaced is Some ==> !replaced->0.contains(x)
        },
        list.contains(x) && !comms.contains(x) ==> {
            let left = comm_updated(BgpSetCommOptions::Remove, comms, Some(list));
            left is Some && left->0.contains(x)
        },
        comms.contains(x) || !list.contains(x) ==> {
            let left = comm_updated(BgpSetCommOptions::Remove, comms, Some(list));
            left is Some ==> !left->0.contains(x)
        },
        comm_updated(BgpSetCommOptions::Remove, comms, None) is None,
        comm_updated(BgpSetCommOptions::Add, Set::<T>::empty(), None) is None,
        comm_updated(BgpSetCommOptions::Replace, Set::<T>::empty(), Some(list)) is None,
        list.subset_of(comms) ==> comm_updated(BgpSetCommOptions::Remove, comms, Some(list)) is None,
{
    if comms.contains(x) || list.contains(x) {
        assert(list.union(comms).contains(x));
    }
    if list.contains(x) && !comms.contains(x) {
        assert(list.difference(comms).contains(x));
    }
    if list.subset_of(comms) {
        assert(list.difference(comms) =~= Set::<T>::empty());
    }
}

/// Each action on communities changes the list of its kind, by the communities given
/// with it or by the set that it names, and no other attribute.
pub proof fn community_actions_change_their_list(
    attrs: AttrsView,
    options: BgpSetCommOptions,
    name: String,
    comms: OrdSet<u32>,
    ext_comms: OrdSet<u64>,
    large_comms: OrdSet<u128>,
    extv6_comms: OrdSet<crate::bgp::attribute::Extv6Comm>,
    policy_type: PolicyType,
    sets: MatchSets,
    igp_metric: Option<u32>,
)
    ensures
        ({
            let inline = PolicyAction::Bgp(
                BgpPolicyAction::SetComm { options, method: BgpSetCommMethod::Inline(comms) },
            );
            let named = PolicyAction::Bgp(
                BgpPolicyAction::SetComm { options, method: BgpSetCommMethod::Reference(name) },
            );
            let a = acted(attrs, inline, policy_type, sets, igp_metric);
            let b = acted(attrs, named, policy_type, sets, igp_metric);
            &&& a.comm == comm_updated(options, comms@, attrs.comm)
            &&& b.comm == comm_updated(options, sets.bgp.comms@[name@]@, attrs.comm)
            &&& a == (AttrsView { comm: a.comm, ..attrs }) && b == (AttrsView { comm: b.comm, ..attrs })
        }),
        ({
            let inline = PolicyAction::Bgp(
                BgpPolicyAction::SetExtComm { options, method: BgpSetCommMethod::Inline(ext_comms) },
            );
            let named = PolicyAction::Bgp(
                BgpPolicyAction::SetExtComm { options, method: BgpSetCommMethod::Reference(name) },
            );
            let a = acted(attrs, inline, policy_type, sets, igp_metric);
            let b = acted(attrs, named, policy_type, sets, igp_metric);
            &&& a.ext_comm == comm_updated(options, ext_comms@, attrs.ext_comm)
            &&& b.ext_comm == comm_updated(options, sets.bgp.ext_comms@[name@]@, attrs.ext_comm)
            &&& a == (AttrsView { ext_comm: a.ext_comm, ..attrs }) && b == (AttrsView {
                ext_comm: b.ext_comm,
                ..attrs
            })
        }),
        ({
            let inline = PolicyAction::Bgp(
                BgpPolicyAction::SetExtv6Comm { options, method: BgpSetCommMethod::Inline(extv6_comms) },
            );
            let named = PolicyAction::Bgp(
                BgpPolicyAction::SetExtv6Comm { options, method: BgpSetCommMethod::Reference(name) },
            );
            let a = acted(attrs, inline, policy_type, sets, igp_metric);
            let b = acted(attrs, named, policy_type, sets, igp_metric);
            &&& a.extv6_comm == comm_updated(options, extv6_comms@, attrs.extv6_comm)
            &&& b.extv6_comm == comm_updated(options, sets.bgp.extv6_comms@[name@]@, attrs.extv6_comm)
            &&& a == (AttrsView { extv6_comm: a.extv6_comm, ..attrs }) && b == (AttrsView {
                extv6_comm: b.extv6_comm,
                ..attrs
            })
        }),
        ({
            let inline = PolicyAction::Bgp(
                BgpPolicyAction::SetLargeComm { options, method: BgpSetCommMethod::Inline(large_comms) },
            );
            let named = PolicyAction::Bgp(
                BgpPolicyAction::SetLargeComm { options, method: BgpSetCommMethod::Reference(name) },
            );
            let a = acted(attrs, inline, policy_type, sets, igp_metric);
            let b = acted(attrs, named, policy_type, sets, igp_metric);
            &&& a.large_comm == comm_updated(options, large_comms@, attrs.large_comm)
            &&& b.large_comm == comm_updated(options, sets.bgp.large_comms@[name@]@, attrs.large_comm)
            &&& a == (AttrsView { large_comm: a.large_comm, ..attrs }) && b == (AttrsView {
                large_comm: b.large_comm,
                ..attrs
            })
        }),
{
}

/// Dispositions and actions that do not apply to BGP leave the attributes alone.
pub proof fn other_actions_change_nothing(
    attrs: AttrsView,
    accept: bool,
    policy_type: PolicyType,
    sets: MatchSets,
    igp_metric: Option<u32>,
)
    ensures
        acted(attrs, PolicyAction::Accept(accept), policy_type, sets, igp_metric) == attrs,
        acted(attrs, PolicyAction::Unsupported, policy_type, sets, igp_metric) == attrs,
{
}

// ===== policy chains =====

/// Whether a route with the given attributes meets a condition of a statement.
pub open spec fn meets_condition(input: PolicyInput, stmt: PolicyStmt, attrs: AttrsView, i: int) -> bool {
    condition_met(
        input.afi_safi,
        input.prefix,
        RoutePolicyView {
            origin: input.rpinfo.origin,
            route_type: input.rpinfo.route_type,
            tag: input.rpinfo.tag,
            opaque_attrs: input.rpinfo.opaque_attrs,
            igp_metric: input.rpinfo.igp_metric,
            attrs,
        },
        stmt.conditions@[i],
        input.sets,
    )
}

/// Whether a route with the given attributes meets every condition of a statement.
pub open spec fn meets_all(input: PolicyInput, stmt: PolicyStmt, attrs: AttrsView) -> bool {
    forall|i: int| 0 <= i < stmt.conditions@.len() ==> #[trigger] meets_condition(input, stmt, attrs, i)
}

proof fn all_conditions_make_a_statement_apply(input: PolicyInput, stmt: PolicyStmt, attrs: AttrsView)
    ensures
        crate::bgp::policy::stmt_applies(input, stmt, attrs) == meets_all(input, stmt, attrs),
{
    if crate::bgp::policy::stmt_applies(input, stmt, attrs) {
        assert forall|i: int| 0 <= i < stmt.conditions@.len() implies #[trigger] meets_condition(
            input,
            stmt,
            attrs,
            i,
        ) by {
            let c = stmt.conditions@[i];
        }
    }
    if meets_all(input, stmt, attrs) {
        assert forall|i: int| 0 <= i < stmt.conditions@.len() implies condition_met(
            input.afi_safi,
            input.prefix,
            seen(input.rpinfo, attrs),
            #[trigger] stmt.conditions@[i],
            input.sets,
        ) by {
            assert(meets_condition(input, stmt, attrs, i));
        }
    }
}

/// A statement with a condition that the route does not meet is passed over.
pub proof fn unmet_conditions_pass_the_statement_over(
    input: PolicyInput,
    stmts: Seq<PolicyStmt>,
    default_policy: DefaultPolicyType,
    attrs: AttrsView,
    modified: bool,
    n: int,
    i: int,
)
    requires
        0 <= n < stmts.len(),
        0 <= i < stmts[n].conditions@.len(),
        !meets_condition(input, stmts[n], attrs, i),
    ensures
        run_chain(input, stmts, default_policy, attrs, modified, n) == run_chain(
            input,
            stmts,
            default_policy,
            attrs,
            modified,
            n + 1,
        ),
{
    all_conditions_make_a_statement_apply(input, stmts[n], attrs);
}

/// The actions of a statement are applied one after the other. One that is not a
/// disposition changes the attributes and marks the route as modified; one that
/// rejects ends it all.
pub proof fn actions_are_applied_in_order(
    input: PolicyInput,
    stmt: PolicyStmt,
    attrs: AttrsView,
    modified: bool,
    n: nat,
    a: AttrsView,
    m: bool,
    accept: bool,
)
    requires
        n < stmt.actions@.len(),
    ensures
        run_actions(input, stmt, attrs, modified, 0) == (Progress::Going { attrs, modified, accept: false }),
        run_actions(input, stmt, attrs, modified, n) is Rejected ==> run_actions(
            input,
            stmt,
            attrs,
            modified,
            n + 1,
        ) is Rejected,
        run_actions(input, stmt, attrs, modified, n) == (Progress::Going { attrs: a, modified: m, accept }) ==> {
            let action = stmt.actions@[n as int];
            let next = run_actions(input, stmt, attrs, modified, n + 1);
            &&& action == PolicyAction::Accept(false) ==> next is Rejected
            &&& action == PolicyAction::Accept(true) ==> next == (Progress::Going {
                attrs: a,
                modified: m,
                accept: true,
            })
            &&& action !is Accept ==> next == (Progress::Going {
                attrs: acted(a, action, input.policy_type, input.sets, input.rpinfo.igp_metric),
                modified: true,
                accept,
            })
        },
{
}

/// A statement that the route meets decides as its actions do: one that rejects
/// rejects the route, one that accepts ends the evaluation with the attributes that
/// the actions left, and without a disposition the next statement goes on with them.
pub proof fn met_statements_decide(
    input: PolicyInput,
    stmts: Seq<PolicyStmt>,
    default_policy: DefaultPolicyType,
    attrs: AttrsView,
    modified: bool,
    n: int,
    a: AttrsView,
    m: bool,
)
    requires
        0 <= n < stmts.len(),
        meets_all(input, stmts[n], attrs),
    ensures
        ({
            let done = run_actions(input, stmts[n], attrs, modified, stmts[n].actions@.len());
            let outcome = run_chain(input, stmts, default_policy, attrs, modified, n);
            &&& done is Rejected ==> outcome is Rejected
            &&& done == (Progress::Going { attrs: a, modified: m, accept: true }) ==> outcome == (Outcome::Accepted {
                attrs: a,
                modified: m,
            })
            &&& done == (Progress::Going { attrs: a, modified: m, accept: false }) ==> outcome == run_chain(
                input,
                stmts,
                default_policy,
                a,
                m,
                n + 1,
            )
        }),
{
    all_conditions_make_a_statement_apply(input, stmts[n], attrs);
}

/// A statement rejects exactly if one of its actions does.
pub proof fn rejecting_actions_reject(
    input: PolicyInput,
    stmt: PolicyStmt,
    attrs: AttrsView,
    modified: bool,
    n: nat,
)
    requires
        n <= stmt.actions@.len(),
    ensures
        run_actions(input, stmt, attrs, modified, n) is Rejected <==> exists|i: int|
            0 <= i < n && #[trigger] stmt.actions@[i] == PolicyAction::Accept(false),
        run_actions(input, stmt, attrs, modified, n) matches Progress::Going { accept, .. } ==> (accept
            <==> exists|i: int| 0 <= i < n && #[trigger] stmt.actions@[i] == PolicyAction::Accept(true)),
    decreases n,
{
    if n > 0 {
        rejecting_actions_reject(input, stmt, attrs, modified, (n - 1) as nat);
        let last = stmt.actions@[n - 1];
    }
}

/// With no statement left, the default policy decides on the route as it is.
pub proof fn default_policy_decides_last(
    input: PolicyInput,
    stmts: Seq<PolicyStmt>,
    attrs: AttrsView,
    modified: bool,
)
    ensures
        run_chain(input, stmts, DefaultPolicyType::RejectRoute, attrs, modified, stmts.len() as int) is Rejected,
        run_chain(input, stmts, DefaultPolicyType::AcceptRoute, attrs, modified, stmts.len() as int)
            == (Outcome::Accepted { attrs, modified }),
{
}

/// A chain starts with the first statement and the route as it came, not modified.
/// Statements that the route does not meet are passed over; the first one that it
/// meets decides.
pub proof fn first_met_statement_decides(
    input: PolicyInput,
    policies: Seq<Arc<Policy>>,
    default_policy: DefaultPolicyType,
    k: int,
)
    requires
        0 <= k < chain_stmts(policies).len(),
        forall|n: int| 0 <= n < k ==> !meets_all(input, #[trigger] chain_stmts(policies)[n], input.rpinfo.attrs),
        meets_all(input, chain_stmts(policies)[k], input.rpinfo.attrs),
    ensures
        ({
            let stmt = chain_stmts(policies)[k];
            let outcome = chain_outcome(input, policies, default_policy);
            &&& (exists|i: int| 0 <= i < stmt.actions@.len() && #[trigger] stmt.actions@[i] == PolicyAction::Accept(
                false,
            )) ==> outcome is Rejected
            &&& stmt.actions@ == seq![PolicyAction::Accept(true)] ==> outcome == (Outcome::Accepted {
                attrs: input.rpinfo.attrs,
                modified: false,
            })
        }),
{
    let stmts = chain_stmts(policies);
    let attrs = input.rpinfo.attrs;
    passed_over(input, stmts, default_policy, attrs, false, k);
    all_conditions_make_a_statement_apply(input, stmts[k], attrs);
    rejecting_actions_reject(input, stmts[k], attrs, false, stmts[k].actions@.len());
    if stmts[k].actions@ == seq![PolicyAction::Accept(true)] {
        assert(stmts[k].actions@[0] == PolicyAction::Accept(true));
        actions_are_applied_in_order(input, stmts[k], attrs, false, 0, attrs, false, false);
    }
}

proof fn passed_over(
    input: PolicyInput,
    stmts: Seq<PolicyStmt>,
    default_policy: DefaultPolicyType,
    attrs: AttrsView,
    modified: bool,
    k: int,
)
    requires
        0 <= k <= stmts.len(),
        forall|n: int| 0 <= n < k ==> !meets_all(input, #[trigger] stmts[n], attrs),
    ensures
        run_chain(input, stmts, default_policy, attrs, modified, 0) == run_chain(
            input,
            stmts,
            default_policy,
            attrs,
            modified,
            k,
        ),
    decreases k,
{
    if k > 0 {
        passed_over(input, stmts, default_policy, attrs, modified, k - 1);
        assert(!meets_all(input, stmts[k - 1], attrs));
        all_conditions_make_a_statement_apply(input, stmts[k - 1], attrs);
    }
}

/// A chain none of whose statements the route meets leaves it to the default policy.
pub proof fn unmet_chain_leaves_it_to_the_default(input: PolicyInput, policies: Seq<Arc<Policy>>)
    requires
        forall|n: int|
            0 <= n < chain_stmts(policies).len() ==> !meets_all(
                input,
                #[trigger] chain_stmts(policies)[n],
                input.rpinfo.attrs,
            ),
    ensures
        chain_outcome(input, policies, DefaultPolicyType::RejectRoute) is Rejected,
        chain_outcome(input, policies, DefaultPolicyType::AcceptRoute) == (Outcome::Accepted {
            attrs: input.rpinfo.attrs,
            modified: false,
        }),
{
    let stmts = chain_stmts(policies);
    passed_over(
        input,
        stmts,
        DefaultPolicyType::RejectRoute,
        input.rpinfo.attrs,
        false,
        stmts.len() as int,
    );
    passed_over(
        input,
        stmts,
        DefaultPolicyType::AcceptRoute,
        input.rpinfo.attrs,
        false,
        stmts.len() as int,
    );
}

/// The statements of a chain are those of its policies, one policy after the other,
/// each in the order of their names.
pub proof fn policies_follow_each_other(policies: Seq<Arc<Policy>>, policy: Arc<Policy>, i: int)
    requires
        0 <= i < policy.stmts.keys().len(),
    ensures
        chain_stmts(Seq::empty()).len() == 0,
        chain_stmts(policies.push(policy)).len() == chain_stmts(policies).len() + policy.stmts.keys().len(),
        chain_stmts(policies.push(policy)).take(chain_stmts(policies).len() as int) == chain_stmts(policies),
        chain_stmts(policies.push(policy))[chain_stmts(policies).len() + i] == policy.stmts@[policy.stmts.keys()[i]],
{
    assert(policies.push(policy).drop_last() =~= policies);
    assert(chain_stmts(policies.push(policy)).take(chain_stmts(policies).len() as int) =~= chain_stmts(policies));
}

// ===== neighbor policies =====

/// Whether a group of a message says that its prefixes were accepted with the given
/// attributes.
pub open spec fn accepts(group: PolicyGroup, rpinfo: RoutePolicyView, attrs: AttrsView) -> bool {
    &&& group.result is Accept
    &&& group.result->Accept_0@.attrs == attrs
    &&& group.result->Accept_0@.origin == rpinfo.origin
    &&& group.result->Accept_0@.route_type == rpinfo.route_type
    &&& group.result->Accept_0@.tag == rpinfo.tag
    &&& group.result->Accept_0@.opaque_attrs == rpinfo.opaque_attrs
    &&& group.result->Accept_0@.igp_metric == rpinfo.igp_metric
}

/// Every prefix of a message is in a group with the result that was decided on it: a
/// rejected one in one that rejects, an accepted one in one with its attributes.
pub proof fn every_prefix_is_answered(
    routes: Seq<PolicyGroup>,
    groups: Seq<ModifiedGroup>,
    rpinfo: RoutePolicyView,
    prefixes: Seq<IpNetwork>,
    outcome: spec_fn(IpNetwork) -> Outcome,
    k: int,
)
    requires
        groups_of(groups, prefixes, outcome),
        message_of(
            routes,
            groups,
            rpinfo,
            with_outcome(prefixes, outcome, Outcome::Accepted { attrs: rpinfo.attrs, modified: false }),
            with_outcome(prefixes, outcome, Outcome::Rejected),
        ),
        0 <= k < prefixes.len(),
    ensures
        outcome(prefixes[k]) is Rejected ==> exists|g: int|
            0 <= g < routes.len() && (#[trigger] routes[g]).result is Reject && routes[g].prefixes@.contains(
                prefixes[k],
            ),
        outcome(prefixes[k]) == (Outcome::Accepted { attrs: rpinfo.attrs, modified: false }) ==> exists|g: int|
            0 <= g < routes.len() && accepts(#[trigger] routes[g], rpinfo, rpinfo.attrs)
                && routes[g].prefixes@.contains(prefixes[k]),
        outcome(prefixes[k]) matches Outcome::Accepted { attrs, modified: true } ==> exists|g: int|
            0 <= g < routes.len() && accepts(#[trigger] routes[g], rpinfo, attrs) && routes[g].prefixes@.contains(
                prefixes[k],
            ),
{
    let o = outcome(prefixes[k]);
    let f = |p: IpNetwork| outcome(p) == o;
    let plain = Outcome::Accepted { attrs: rpinfo.attrs, modified: false };
    let accepted = with_outcome(prefixes, outcome, plain);
    let rejected = with_outcome(prefixes, outcome, Outcome::Rejected);
    let n = groups.len() as int;
    let a: int = if accepted.len() > 0 {
        1
    } else {
        0
    };
    prefixes.lemma_filter_contains(f, k);
    if o is Rejected {
        assert(rejected.contains(prefixes[k]));
        assert(routes[n + a].result is Reject);
    } else if o == plain {
        assert(accepted.contains(prefixes[k]));
        assert(accepts(routes[n], rpinfo, rpinfo.attrs));
    } else if o->modified {
        assert(crate::bgp::policy::grouped(groups, outcome(prefixes[k])));
        let i = choose|i: int| 0 <= i < groups.len() && (#[trigger] groups[i]).attrs@ == o->attrs;
        assert(accepts(routes[i], rpinfo, o->attrs));
        assert(routes[i].prefixes@.contains(prefixes[k]));
    }
}

/// A group of a message holds only prefixes on which its result was decided.
pub proof fn groups_answer_only_their_prefixes(
    routes: Seq<PolicyGroup>,
    groups: Seq<ModifiedGroup>,
    rpinfo: RoutePolicyView,
    prefixes: Seq<IpNetwork>,
    outcome: spec_fn(IpNetwork) -> Outcome,
    g: int,
    prefix: IpNetwork,
)
    requires
        groups_of(groups, prefixes, outcome),
        message_of(
            routes,
            groups,
            rpinfo,
            with_outcome(prefixes, outcome, Outcome::Accepted { attrs: rpinfo.attrs, modified: false }),
            with_outcome(prefixes, outcome, Outcome::Rejected),
        ),
        0 <= g < routes.len(),
        routes[g].prefixes@.contains(prefix),
    ensures
        prefixes.contains(prefix),
        routes[g].result is Reject <==> outcome(prefix) is Rejected,
        outcome(prefix) matches Outcome::Accepted { attrs, .. } ==> accepts(routes[g], rpinfo, attrs),
{
    let plain = Outcome::Accepted { attrs: rpinfo.attrs, modified: false };
    let accepted = with_outcome(prefixes, outcome, plain);
    let n = groups.len() as int;
    let o = if g < n {
        Outcome::Accepted { attrs: groups[g].attrs@, modified: true }
    } else if g == n && accepted.len() > 0 {
        plain
    } else {
        Outcome::Rejected
    };
    if g < n {
        assert(routes[g].prefixes@ == groups[g].prefixes@);
    }
    members_have_the_outcome(prefixes, outcome, o, prefix);
}

proof fn members_have_the_outcome(
    prefixes: Seq<IpNetwork>,
    outcome: spec_fn(IpNetwork) -> Outcome,
    o: Outcome,
    prefix: IpNetwork,
)
    requires
        with_outcome(prefixes, outcome, o).contains(prefix),
    ensures
        prefixes.contains(prefix),
        outcome(prefix) == o,
    decreases prefixes.len(),
{
    reveal(Seq::filter);
    if prefixes.len() > 0 {
        let before = with_outcome(prefixes.drop_last(), outcome, o);
        let all = with_outcome(prefixes, outcome, o);
        let j = choose|j: int| 0 <= j < all.len() && all[j] == prefix;
        if j < before.len() {
            assert(before[j] == prefix);
            members_have_the_outcome(prefixes.drop_last(), outcome, o, prefix);
            let k = choose|k: int| 0 <= k < prefixes.drop_last().len() && prefixes.drop_last()[k] == prefix;
            assert(prefixes[k] == prefix);
        } else {
            assert(prefixes[prefixes.len() - 1] == prefix);
        }
    }
}

} // verus!
