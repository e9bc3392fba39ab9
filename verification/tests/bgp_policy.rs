use std::sync::Arc;

use holo::bgp::attribute::{Attrs, CommList, Origin};
use holo::bgp::intern::AttrSetsCxt;
use holo::bgp::policy::{
    neighbor_apply, process_policies, process_stmt_action, process_stmt_condition, redistribute_apply, BgpMatchSets,
    BgpNexthop, BgpPolicyAction, BgpPolicyCondition, BgpSetCommMethod, BgpSetCommOptions, BgpSetMed,
    DefaultPolicyType, EqOperator, MatchSetRestrictedType, MatchSetType, MatchSets, MetricModification, NeighborSet,
    Policy, PolicyAction, PolicyCondition, PolicyResult, PolicyStmt, PolicyType, PrefixRange, PrefixSet,
    PrefixSetKey, RoutePolicyInfo, TagSet,
};
use holo::bgp::rib::RouteOrigin;
use holo::bgp::types::{AfiSafi, RouteType};
use holo::collections::{OrdSet, Table};
use holo::ip::{AddressFamily, IpAddr, IpNetwork};
use holo::protocol::Protocol;

// Builds a single-statement policy that unconditionally applies the given BGP
// actions and accepts the route.
fn policy_with(mut actions: Vec<PolicyAction>) -> Vec<Arc<Policy>> {
    actions.insert(0, PolicyAction::Accept(true));
    let mut stmts = Table::new();
    stmts.insert("1".to_owned(), PolicyStmt { conditions: vec![], actions });
    vec![Arc::new(Policy { name: "TEST".to_owned(), stmts })]
}

fn set_med(set_med: BgpSetMed) -> PolicyAction {
    PolicyAction::Bgp(BgpPolicyAction::SetMed(set_med))
}

// Builds the route policy info of a route redistributed from an IGP with the
// given metric and MED.
fn redistributed(igp_metric: Option<u32>, med: Option<u32>) -> RoutePolicyInfo {
    let mut attrs = Attrs::default();
    attrs.base.med = med;
    RoutePolicyInfo::new(
        RouteOrigin::Protocol(Protocol::OSPFV2),
        RouteType::Internal,
        None,
        None,
        igp_metric,
        attrs,
    )
}

fn no_match_sets() -> MatchSets {
    MatchSets {
        prefixes: Table::new(),
        neighbors: Table::new(),
        tags: Table::new(),
        bgp: BgpMatchSets {
            as_paths: Table::new(),
            comms: Table::new(),
            ext_comms: Table::new(),
            extv6_comms: Table::new(),
            large_comms: Table::new(),
            nexthops: Table::new(),
        },
    }
}

fn prefix() -> IpNetwork {
    IpNetwork { addr: IpAddr::V4(u32::from_be_bytes([10, 0, 1, 0])), plen: 24 }
}

// Applies an import policy chain to a redistributed route and returns the
// resulting route policy info.
fn import(rpinfo: &RoutePolicyInfo, policies: &Vec<Arc<Policy>>) -> RoutePolicyInfo {
    match process_policies(
        PolicyType::Import,
        AfiSafi::Ipv4Unicast,
        prefix(),
        rpinfo,
        policies,
        &no_match_sets(),
        DefaultPolicyType::AcceptRoute,
    ) {
        PolicyResult::Accept(accepted) => accepted.rpinfo,
        PolicyResult::Reject => panic!("route unexpectedly rejected"),
    }
}

#[test]
fn set_med_igp_uses_the_igp_metric() {
    let rpinfo = redistributed(Some(20), None);
    let policies = policy_with(vec![set_med(BgpSetMed::Igp)]);
    assert_eq!(import(&rpinfo, &policies).attrs.base.med, Some(20));
}

#[test]
fn redistribution_without_the_action_leaves_the_med_unset() {
    let rpinfo = redistributed(Some(20), None);
    let policies = policy_with(vec![]);
    assert_eq!(import(&rpinfo, &policies).attrs.base.med, None);
}

#[test]
fn set_med_igp_without_a_metric_leaves_the_med_untouched() {
    let rpinfo = redistributed(None, Some(5));
    let policies = policy_with(vec![set_med(BgpSetMed::Igp)]);
    assert_eq!(import(&rpinfo, &policies).attrs.base.med, Some(5));
}

#[test]
fn med_plus_igp_adds_the_igp_metric_to_the_med() {
    let rpinfo = redistributed(Some(20), Some(5));
    let policies = policy_with(vec![set_med(BgpSetMed::MedPlusIgp)]);
    assert_eq!(import(&rpinfo, &policies).attrs.base.med, Some(25));
}

#[test]
fn med_plus_igp_treats_an_unset_med_as_zero() {
    let rpinfo = redistributed(Some(20), None);
    let policies = policy_with(vec![set_med(BgpSetMed::MedPlusIgp)]);
    assert_eq!(import(&rpinfo, &policies).attrs.base.med, Some(20));
}

#[test]
fn med_plus_igp_saturates_instead_of_overflowing() {
    let rpinfo = redistributed(Some(20), Some(u32::MAX));
    let policies = policy_with(vec![set_med(BgpSetMed::MedPlusIgp)]);
    assert_eq!(import(&rpinfo, &policies).attrs.base.med, Some(u32::MAX));
}

// The export stage rebuilds the route policy info from the attribute sets
// interned by the RIB, dropping the IGP metric. The MED set at import must
// survive that round trip, since that is what the export policies and the
// advertised UPDATE see.
#[test]
fn med_from_the_igp_metric_survives_interning() {
    let rpinfo = redistributed(Some(20), None);
    let policies = policy_with(vec![set_med(BgpSetMed::Igp)]);
    let rpinfo = import(&rpinfo, &policies);

    let mut attr_sets = AttrSetsCxt::new();
    let route_attrs = attr_sets.get_route_attr_sets(&rpinfo.attrs);
    let exported =
        RoutePolicyInfo::new(rpinfo.origin, rpinfo.route_type, None, None, None, route_attrs.get());
    assert_eq!(exported.attrs.base.med, Some(20));
}

// ===== conditions =====

fn v4(a: u8, b: u8, c: u8, d: u8) -> IpAddr {
    IpAddr::V4(u32::from_be_bytes([a, b, c, d]))
}

fn set_of(values: &[u32]) -> OrdSet<u32> {
    let mut set = OrdSet::new();
    for value in values {
        set.insert(*value);
    }
    set
}

/// A route learned from 10.0.0.1.
fn learned() -> RoutePolicyInfo {
    let mut attrs = Attrs::default();
    attrs.base.local_pref = Some(200);
    attrs.base.origin = Origin::Egp;
    attrs.comm = Some(CommList(set_of(&[1, 2])));
    RoutePolicyInfo::new(
        RouteOrigin::Neighbor { identifier: 7, remote_addr: v4(10, 0, 0, 1) },
        RouteType::External,
        Some(5),
        None,
        None,
        attrs,
    )
}

fn meets(rpinfo: &RoutePolicyInfo, condition: PolicyCondition, sets: &MatchSets) -> bool {
    process_stmt_condition(AfiSafi::Ipv4Unicast, &prefix(), rpinfo, &condition, sets)
}

#[test]
fn conditions_look_at_the_attributes() {
    let sets = no_match_sets();
    let route = learned();
    let bgp = |c: BgpPolicyCondition| meets(&route, PolicyCondition::Bgp(c), &sets);
    assert!(bgp(BgpPolicyCondition::LocalPref { value: 200, op: EqOperator::Equal }));
    assert!(bgp(BgpPolicyCondition::LocalPref { value: 201, op: EqOperator::LessThanOrEqual }));
    assert!(!bgp(BgpPolicyCondition::LocalPref { value: 201, op: EqOperator::GreaterThanOrEqual }));
    // There is no MED to compare.
    assert!(!bgp(BgpPolicyCondition::Med { value: 0, op: EqOperator::GreaterThanOrEqual }));
    assert!(bgp(BgpPolicyCondition::Origin(Origin::Egp)));
    assert!(!bgp(BgpPolicyCondition::RouteType(RouteType::Internal)));
    assert!(bgp(BgpPolicyCondition::CommCount { value: 2, op: EqOperator::Equal }));
    assert!(bgp(BgpPolicyCondition::AsPathLen { value: 0, op: EqOperator::Equal }));
    let mut values = OrdSet::new();
    values.insert(AfiSafi::Ipv6Unicast);
    assert!(!bgp(BgpPolicyCondition::MatchAfiSafi { values, match_type: MatchSetRestrictedType::Any }));
    let mut value = OrdSet::new();
    value.insert(v4(10, 0, 0, 2));
    assert!(bgp(BgpPolicyCondition::MatchNeighbor { value, match_type: MatchSetRestrictedType::Invert }));

    // BGP conditions don't hold back routes of other protocols.
    let condition = BgpPolicyCondition::Med { value: 9, op: EqOperator::Equal };
    assert!(meets(&redistributed(None, None), PolicyCondition::Bgp(condition), &sets));
}

#[test]
fn conditions_look_at_the_sets() {
    let mut sets = no_match_sets();
    sets.bgp.comms.insert("one".to_owned(), set_of(&[1]));
    sets.bgp.comms.insert("other".to_owned(), set_of(&[1, 3]));
    let range = PrefixRange {
        prefix: IpNetwork { addr: v4(10, 0, 0, 0), plen: 16 },
        masklen_lower: 20,
        masklen_upper: 24,
    };
    let key = PrefixSetKey { name: "ten".to_owned(), af: AddressFamily::Ipv4 };
    sets.prefixes.insert(key, PrefixSet { ranges: vec![range] });
    let mut addrs = OrdSet::new();
    addrs.insert(v4(10, 0, 0, 1));
    sets.neighbors.insert("peers".to_owned(), NeighborSet { addrs });
    sets.tags.insert("tags".to_owned(), TagSet { tags: set_of(&[4]) });
    let route = learned();

    for (name, match_type, met) in [
        ("one", MatchSetType::Any, true),
        ("one", MatchSetType::All, true),
        ("other", MatchSetType::Any, true),
        ("other", MatchSetType::All, false),
        ("other", MatchSetType::Invert, false),
    ] {
        let condition = BgpPolicyCondition::MatchCommSet { value: name.to_owned(), match_type };
        assert_eq!(meets(&route, PolicyCondition::Bgp(condition), &sets), met);
    }
    assert!(meets(&route, PolicyCondition::MatchPrefixSet("ten".to_owned()), &sets));
    assert!(!meets(&route, PolicyCondition::MatchPrefixSet("missing".to_owned()), &sets));
    assert!(meets(&route, PolicyCondition::MatchNeighborSet("peers".to_owned()), &sets));
    assert!(!meets(&route, PolicyCondition::MatchNeighborSet("missing".to_owned()), &sets));
    assert!(!meets(&route, PolicyCondition::MatchTagSet("tags".to_owned()), &sets));

    // A route without communities meets no condition on them, whether the set
    // exists or not.
    let mut bare = learned();
    bare.attrs.comm = None;
    let condition = BgpPolicyCondition::MatchCommSet { value: "missing".to_owned(), match_type: MatchSetType::Any };
    assert!(!meets(&bare, PolicyCondition::Bgp(condition), &sets));
}

// ===== actions =====

fn acted(rpinfo: RoutePolicyInfo, action: PolicyAction, policy_type: PolicyType) -> Attrs {
    let mut attrs = rpinfo.attrs;
    process_stmt_action(&mut attrs, &action, policy_type, &no_match_sets(), rpinfo.igp_metric);
    attrs
}

#[test]
fn next_hop_self_is_for_exports() {
    let action = || PolicyAction::Bgp(BgpPolicyAction::SetNexthop(BgpNexthop::NexthopSelf));
    let route = || {
        let mut route = learned();
        route.attrs.base.nexthop = Some(v4(192, 0, 2, 1));
        route.attrs.base.ll_nexthop = Some(1);
        route
    };
    let attrs = acted(route(), action(), PolicyType::Import);
    assert_eq!((attrs.base.nexthop, attrs.base.ll_nexthop), (Some(v4(192, 0, 2, 1)), Some(1)));
    let attrs = acted(route(), action(), PolicyType::Export);
    assert_eq!((attrs.base.nexthop, attrs.base.ll_nexthop), (None, None));
    let action = PolicyAction::Bgp(BgpPolicyAction::SetNexthop(BgpNexthop::Addr(v4(192, 0, 2, 9))));
    let attrs = acted(route(), action, PolicyType::Import);
    assert_eq!((attrs.base.nexthop, attrs.base.ll_nexthop), (Some(v4(192, 0, 2, 9)), None));
}

#[test]
fn actions_change_the_attributes() {
    let metric = |value, mod_type| PolicyAction::SetMetric { value, mod_type };
    let med = |med, action| acted(redistributed(None, med), action, PolicyType::Import).base.med;
    assert_eq!(med(None, metric(3, MetricModification::Replace)), Some(3));
    assert_eq!(med(None, metric(3, MetricModification::Add)), None);
    assert_eq!(med(Some(2), metric(3, MetricModification::Add)), Some(5));
    assert_eq!(med(Some(2), metric(3, MetricModification::Subtract)), Some(0));
    assert_eq!(med(Some(2), set_med(BgpSetMed::Replace(9))), Some(9));
    assert_eq!(med(Some(u32::MAX), set_med(BgpSetMed::Add(1))), Some(u32::MAX));
    assert_eq!(med(Some(2), set_med(BgpSetMed::Subtract(1))), Some(1));

    let prepend = PolicyAction::Bgp(BgpPolicyAction::SetAsPathPrepent { asn: 65001, repeat: Some(3) });
    assert_eq!(acted(learned(), prepend, PolicyType::Export).base.as_path.path_length(), 3);
    let local_pref = PolicyAction::Bgp(BgpPolicyAction::SetLocalPref(50));
    assert_eq!(acted(learned(), local_pref, PolicyType::Import).base.local_pref, Some(50));
    let remove = PolicyAction::Bgp(
        BgpPolicyAction::SetComm {
            options: BgpSetCommOptions::Remove,
            method: BgpSetCommMethod::Inline(set_of(&[1, 2])),
        },
    );
    assert!(acted(learned(), remove, PolicyType::Import).comm.is_none());
}

// ===== chains =====

fn chain(stmts: Vec<(&str, Vec<PolicyCondition>, Vec<PolicyAction>)>) -> Vec<Arc<Policy>> {
    let mut table = Table::new();
    for (name, conditions, actions) in stmts {
        table.insert(name.to_owned(), PolicyStmt { conditions, actions });
    }
    vec![Arc::new(Policy { name: "TEST".to_owned(), stmts: table })]
}

fn apply(rpinfo: RoutePolicyInfo, policies: &Vec<Arc<Policy>>, default: DefaultPolicyType) -> Option<Attrs> {
    match redistribute_apply(AfiSafi::Ipv4Unicast, prefix(), rpinfo, policies, &no_match_sets(), default) {
        PolicyResult::Accept(rpinfo) => Some(rpinfo.attrs),
        PolicyResult::Reject => None,
    }
}

#[test]
fn statements_are_evaluated_in_order() {
    let med = |value| set_med(BgpSetMed::Replace(value));
    let has_med = |value| PolicyCondition::Bgp(BgpPolicyCondition::Med { value, op: EqOperator::Equal });

    // Later statements see what earlier ones have done.
    let policies = chain(vec![
        ("2", vec![has_med(1)], vec![PolicyAction::Accept(true), med(2)]),
        ("1", vec![], vec![med(1)]),
        ("3", vec![], vec![PolicyAction::Accept(false)]),
    ]);
    let attrs = apply(learned(), &policies, DefaultPolicyType::RejectRoute);
    assert_eq!(attrs.map(|attrs| attrs.base.med), Some(Some(2)));

    // A rejection ends it.
    let policies = chain(vec![
        ("1", vec![], vec![PolicyAction::Accept(false), med(1)]),
        ("2", vec![], vec![PolicyAction::Accept(true)]),
    ]);
    assert!(apply(learned(), &policies, DefaultPolicyType::AcceptRoute).is_none());

    // Without a disposition the default policy decides.
    let policies = chain(vec![("1", vec![has_med(9)], vec![PolicyAction::Accept(true)])]);
    assert!(apply(learned(), &policies, DefaultPolicyType::RejectRoute).is_none());
    assert!(apply(learned(), &policies, DefaultPolicyType::AcceptRoute).is_some());
    assert!(apply(learned(), &vec![], DefaultPolicyType::RejectRoute).is_none());
}

#[test]
fn missing_sets_do_no_harm_where_they_are_not_looked_up() {
    // The second condition is not evaluated, as the first one is not met.
    let conditions = vec![
        PolicyCondition::MatchPrefixSet("missing".to_owned()),
        PolicyCondition::Bgp(
            BgpPolicyCondition::MatchCommSet { value: "missing".to_owned(), match_type: MatchSetType::Any },
        ),
    ];
    let policies = chain(vec![("1", conditions, vec![PolicyAction::Accept(true)])]);
    assert!(apply(learned(), &policies, DefaultPolicyType::RejectRoute).is_none());
}

#[test]
fn prefixes_are_grouped_by_their_result() {
    let net = |c| IpNetwork { addr: v4(10, 0, c, 0), plen: 24 };
    let mut sets = no_match_sets();
    for (name, third) in [("rejected", 1), ("modified", 2)] {
        let range = PrefixRange { prefix: net(third), masklen_lower: 24, masklen_upper: 24 };
        let key = PrefixSetKey { name: name.to_owned(), af: AddressFamily::Ipv4 };
        sets.prefixes.insert(key, PrefixSet { ranges: vec![range] });
    }
    let in_set = |name: &str| PolicyCondition::MatchPrefixSet(name.to_owned());
    let policies = chain(vec![
        ("1", vec![in_set("rejected")], vec![PolicyAction::Accept(false)]),
        ("2", vec![in_set("modified")], vec![PolicyAction::Accept(true), set_med(BgpSetMed::Replace(6))]),
    ]);
    let routes = neighbor_apply(
        PolicyType::Import,
        AfiSafi::Ipv4Unicast,
        &vec![net(1), net(2), net(3), net(4)],
        learned(),
        &policies,
        &sets,
        DefaultPolicyType::AcceptRoute,
    );
    assert_eq!(routes.len(), 3);
    assert!(matches!(&routes[0].result, PolicyResult::Accept(rpinfo) if rpinfo.attrs.base.med == Some(6)));
    assert_eq!(routes[0].prefixes, vec![net(2)]);
    assert!(matches!(&routes[1].result, PolicyResult::Accept(rpinfo) if rpinfo.attrs.base.med.is_none()));
    assert_eq!(routes[1].prefixes, vec![net(3), net(4)]);
    assert!(matches!(&routes[2].result, PolicyResult::Reject));
    assert_eq!(routes[2].prefixes, vec![net(1)]);
}

#[test]
fn modified_groups_follow_the_order_of_their_attributes() {
    let net = |c| IpNetwork { addr: v4(10, 0, c, 0), plen: 24 };
    let mut sets = no_match_sets();
    for (name, third) in [("high", 1), ("low", 2), ("middle", 3)] {
        let range = PrefixRange { prefix: net(third), masklen_lower: 24, masklen_upper: 24 };
        let key = PrefixSetKey { name: name.to_owned(), af: AddressFamily::Ipv4 };
        sets.prefixes.insert(key, PrefixSet { ranges: vec![range] });
    }
    let in_set = |name: &str| PolicyCondition::MatchPrefixSet(name.to_owned());
    let med = |value| vec![PolicyAction::Accept(true), set_med(BgpSetMed::Replace(value))];
    let policies = chain(vec![
        ("1", vec![in_set("high")], med(30)),
        ("2", vec![in_set("low")], med(10)),
        ("3", vec![in_set("middle")], med(20)),
    ]);
    let routes = neighbor_apply(
        PolicyType::Import,
        AfiSafi::Ipv4Unicast,
        &vec![net(1), net(2), net(3)],
        learned(),
        &policies,
        &sets,
        DefaultPolicyType::RejectRoute,
    );
    let prefixes: Vec<_> = routes.iter().map(|group| group.prefixes.clone()).collect();
    assert_eq!(prefixes, vec![vec![net(2)], vec![net(3)], vec![net(1)]]);
    assert!(matches!(&routes[2].result, PolicyResult::Accept(rpinfo) if rpinfo.attrs.base.med == Some(30)));
}
