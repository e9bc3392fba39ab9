//! Routing policies.

use std::sync::Arc;

use vstd::prelude::*;

use crate::bgp::attribute::{
    opt_view, path_contains, path_length, path_prepend_n, AsPath, AttrValue, Attrs, AttrsView, BaseAttrsView,
    CommList, Extv6Comm, Origin, SegmentView,
};
use crate::bgp::order::{attrs_before, attrs_code, attrs_lt, attrs_order_total, attrs_order_transitive};
use crate::bgp::rib::RouteOrigin;
use crate::bgp::types::{AfiSafi, RouteType};
use crate::collections::{lex_irreflexive, push_text_code, text_code, text_code_injective, Key, OrdSet, Table};
use crate::ip::{AddressFamily, IpAddr, IpNetwork};
use crate::protocol::Protocol;

verus! {

/// Maximum number of prefixes carried by a single policy apply message.
pub const POLICY_APPLY_BATCH_SIZE_MAX: usize = 4096;

/// Protocol specific attributes of a route that comes from elsewhere.
#[derive(Clone, Copy, Debug, PartialEq, Eq, Structural)]
pub enum RouteOpaqueAttrs {
    Generic,
    Ospf,
    Isis,
}

/// Represents a simplified version of a route, containing only information
/// relevant for the application of routing policies.
pub struct RoutePolicyInfo {
    pub origin: RouteOrigin,
    pub route_type: RouteType,
    pub tag: Option<u32>,
    pub opaque_attrs: Option<RouteOpaqueAttrs>,
    /// Metric of the IGP route this route was redistributed from, if any.
    pub igp_metric: Option<u32>,
    pub attrs: Attrs,
}

#[derive(Clone, Copy, Debug, PartialEq, Eq, Structural)]
pub enum PolicyType {
    Import,
    Export,
}

#[derive(Clone, Copy, Debug, PartialEq, Eq, Structural)]
pub enum DefaultPolicyType {
    AcceptRoute,
    RejectRoute,
}

pub enum PolicyResult<T> {
    Accept(T),
    Reject,
}

/// How a value is compared with the value of a condition.
#[derive(Clone, Copy, Debug, PartialEq, Eq, Structural)]
pub enum EqOperator {
    Equal,
    LessThanOrEqual,
    GreaterThanOrEqual,
}

#[derive(Clone, Copy, Debug, PartialEq, Eq, Structural)]
pub enum MatchSetType {
    Any,
    All,
    Invert,
}

#[derive(Clone, Copy, Debug, PartialEq, Eq, Structural)]
pub enum MatchSetRestrictedType {
    Any,
    Invert,
}

#[derive(Clone, Copy, Debug, PartialEq, Eq, Structural)]
pub enum BgpNexthop {
    Addr(IpAddr),
    NexthopSelf,
}

/// A range of prefixes.
#[derive(Clone, Copy, Debug, PartialEq, Eq, Structural)]
pub struct PrefixRange {
    pub prefix: IpNetwork,
    pub masklen_lower: u8,
    pub masklen_upper: u8,
}

pub struct PrefixSet {
    pub ranges: Vec<PrefixRange>,
}

pub struct NeighborSet {
    pub addrs: OrdSet<IpAddr>,
}

pub struct TagSet {
    pub tags: OrdSet<u32>,
}

/// The name of a prefix set and the family of its prefixes.
pub struct PrefixSetKey {
    pub name: String,
    pub af: AddressFamily,
}

pub struct BgpMatchSets {
    pub as_paths: Table<String, OrdSet<u32>>,
    pub comms: Table<String, OrdSet<u32>>,
    pub ext_comms: Table<String, OrdSet<u64>>,
    pub extv6_comms: Table<String, OrdSet<Extv6Comm>>,
    pub large_comms: Table<String, OrdSet<u128>>,
    pub nexthops: Table<String, OrdSet<BgpNexthop>>,
}

/// The sets that policy statements refer to by name.
pub struct MatchSets {
    pub prefixes: Table<PrefixSetKey, PrefixSet>,
    pub neighbors: Table<String, NeighborSet>,
    pub tags: Table<String, TagSet>,
    pub bgp: BgpMatchSets,
}

#[allow(inconsistent_fields)]
pub enum BgpPolicyCondition {
    LocalPref { value: u32, op: EqOperator },
    Med { value: u32, op: EqOperator },
    Origin(Origin),
    MatchAfiSafi { values: OrdSet<AfiSafi>, match_type: MatchSetRestrictedType },
    MatchNeighbor { value: OrdSet<IpAddr>, match_type: MatchSetRestrictedType },
    RouteType(RouteType),
    CommCount { value: u32, op: EqOperator },
    AsPathLen { value: u32, op: EqOperator },
    MatchCommSet { value: String, match_type: MatchSetType },
    MatchExtCommSet { value: String, match_type: MatchSetType },
    MatchExtv6CommSet { value: String, match_type: MatchSetType },
    MatchLargeCommSet { value: String, match_type: MatchSetType },
    MatchAsPathSet { value: String, match_type: MatchSetType },
    MatchNexthopSet { value: String, match_type: MatchSetRestrictedType },
}

pub enum PolicyCondition {
    SrcProtocol(Protocol),
    MatchInterface(String),
    MatchPrefixSet(String),
    MatchNeighborSet(String),
    MatchTagSet(String),
    MatchRouteType(String),
    Bgp(BgpPolicyCondition),
    /// A condition that doesn't apply to BGP.
    Unsupported,
}

#[derive(Clone, Copy, Debug, PartialEq, Eq, Structural)]
pub enum MetricModification {
    Replace,
    Add,
    Subtract,
}

#[derive(Clone, Copy, Debug, PartialEq, Eq, Structural)]
pub enum BgpSetMed {
    Add(u32),
    Subtract(u32),
    Replace(u32),
    Igp,
    MedPlusIgp,
}

#[derive(Clone, Copy, Debug, PartialEq, Eq, Structural)]
pub enum BgpSetCommOptions {
    Add,
    Remove,
    Replace,
}

pub enum BgpSetCommMethod<T: Key> {
    Inline(OrdSet<T>),
    Reference(String),
}

#[allow(inconsistent_fields)]
pub enum BgpPolicyAction {
    SetRouteOrigin(Origin),
    SetLocalPref(u32),
    SetNexthop(BgpNexthop),
    SetMed(BgpSetMed),
    SetAsPathPrepent { asn: u32, repeat: Option<u8> },
    SetComm { options: BgpSetCommOptions, method: BgpSetCommMethod<u32> },
    SetExtComm { options: BgpSetCommOptions, method: BgpSetCommMethod<u64> },
    SetExtv6Comm { options: BgpSetCommOptions, method: BgpSetCommMethod<Extv6Comm> },
    SetLargeComm { options: BgpSetCommOptions, method: BgpSetCommMethod<u128> },
}

pub enum PolicyAction {
    Accept(bool),
    SetMetric { value: u32, mod_type: MetricModification },
    Bgp(BgpPolicyAction),
    /// An action that doesn't apply to BGP.
    Unsupported,
}

/// A policy statement: the actions are applied in order if all conditions are
/// met.
pub struct PolicyStmt {
    pub conditions: Vec<PolicyCondition>,
    pub actions: Vec<PolicyAction>,
}

/// A policy, with its statements by name.
pub struct Policy {
    pub name: String,
    pub stmts: Table<String, PolicyStmt>,
}

// ===== keys =====

impl View for PrefixSetKey {
    type V = (AddressFamily, Seq<char>);

    open spec fn view(&self) -> (AddressFamily, Seq<char>) {
        (self.af, self.name@)
    }
}

impl Key for PrefixSetKey {
    open spec fn code(v: (AddressFamily, Seq<char>)) -> Seq<u128> {
        seq![v.0.rank()] + text_code(v.1)
    }

    proof fn code_injective(a: (AddressFamily, Seq<char>), b: (AddressFamily, Seq<char>)) {
        assert(Self::code(a)[0] == a.0.rank());
        assert(Self::code(b)[0] == b.0.rank());
        assert(Self::code(a).skip(1) =~= text_code(a.1));
        assert(Self::code(b).skip(1) =~= text_code(b.1));
        text_code_injective(a.1, b.1);
    }

    fn to_code(&self) -> Vec<u128> {
        let mut c = self.af.to_code();
        push_text_code(&mut c, &self.name);
        c
    }

    fn copy_key(&self) -> PrefixSetKey {
        PrefixSetKey { name: self.name.clone(), af: self.af }
    }
}

impl View for BgpNexthop {
    type V = BgpNexthop;

    open spec fn view(&self) -> BgpNexthop {
        *self
    }
}

impl Key for BgpNexthop {
    open spec fn code(v: BgpNexthop) -> Seq<u128> {
        match v {
            BgpNexthop::Addr(addr) => seq![0u128] + IpAddr::code(addr),
            BgpNexthop::NexthopSelf => seq![1u128],
        }
    }

    proof fn code_injective(a: BgpNexthop, b: BgpNexthop) {
        assert(Self::code(a).len() == if a is Addr {
            3nat
        } else {
            1
        });
        assert(Self::code(b).len() == if b is Addr {
            3nat
        } else {
            1
        });
        if let (BgpNexthop::Addr(x), BgpNexthop::Addr(y)) = (a, b) {
            assert(Self::code(a).skip(1) =~= IpAddr::code(x));
            assert(Self::code(b).skip(1) =~= IpAddr::code(y));
            IpAddr::code_injective(x, y);
        }
    }

    fn to_code(&self) -> Vec<u128> {
        match self {
            BgpNexthop::Addr(IpAddr::V4(a)) => {
                let c = vec![0, 0, *a as u128];
                assert(c@ =~= Self::code(self@));
                c
            },
            BgpNexthop::Addr(IpAddr::V6(a)) => {
                let c = vec![0, 1, *a];
                assert(c@ =~= Self::code(self@));
                c
            },
            BgpNexthop::NexthopSelf => vec![1],
        }
    }

    fn copy_key(&self) -> BgpNexthop {
        *self
    }
}

// ===== route policy info =====

#[verifier::ext_equal]
pub struct RoutePolicyView {
    pub origin: RouteOrigin,
    pub route_type: RouteType,
    pub tag: Option<u32>,
    pub opaque_attrs: Option<RouteOpaqueAttrs>,
    pub igp_metric: Option<u32>,
    pub attrs: AttrsView,
}

impl View for RoutePolicyInfo {
    type V = RoutePolicyView;

    open spec fn view(&self) -> RoutePolicyView {
        RoutePolicyView {
            origin: self.origin,
            route_type: self.route_type,
            tag: self.tag,
            opaque_attrs: self.opaque_attrs,
            igp_metric: self.igp_metric,
            attrs: self.attrs@,
        }
    }
}

impl RoutePolicyInfo {
    pub fn new(
        origin: RouteOrigin,
        route_type: RouteType,
        tag: Option<u32>,
        opaque_attrs: Option<RouteOpaqueAttrs>,
        igp_metric: Option<u32>,
        attrs: Attrs,
    ) -> (r: RoutePolicyInfo)
        ensures
            r == (RoutePolicyInfo { origin, route_type, tag, opaque_attrs, igp_metric, attrs }),
    {
        RoutePolicyInfo { origin, route_type, tag, opaque_attrs, igp_metric, attrs }
    }

    pub fn dup(&self) -> (r: RoutePolicyInfo)
        ensures
            r@ == self@,
    {
        RoutePolicyInfo {
            origin: self.origin,
            route_type: self.route_type,
            tag: self.tag,
            opaque_attrs: self.opaque_attrs,
            igp_metric: self.igp_metric,
            attrs: self.attrs.dup(),
        }
    }
}

// ===== comparisons =====

impl EqOperator {
    /// Whether an attribute compares with the value of a condition as asked.
    pub open spec fn holds(self, value: u32, attr: u32) -> bool {
        match self {
            EqOperator::Equal => attr == value,
            EqOperator::LessThanOrEqual => attr <= value,
            EqOperator::GreaterThanOrEqual => attr >= value,
        }
    }

    pub fn compare(&self, value: u32, attr: u32) -> (b: bool)
        ensures
            b == self.holds(value, attr),
    {
        match self {
            EqOperator::Equal => attr == value,
            EqOperator::LessThanOrEqual => attr <= value,
            EqOperator::GreaterThanOrEqual => attr >= value,
        }
    }
}

impl MatchSetRestrictedType {
    /// Whether a value matches a set as asked.
    pub open spec fn holds<T>(self, set: Set<T>, value: T) -> bool {
        match self {
            MatchSetRestrictedType::Any => set.contains(value),
            MatchSetRestrictedType::Invert => !set.contains(value),
        }
    }

    pub fn compare<K: Key>(&self, set: &OrdSet<K>, value: &K) -> (b: bool)
        ensures
            b == self.holds(set@, value@),
    {
        match self {
            MatchSetRestrictedType::Any => set.contains(value),
            MatchSetRestrictedType::Invert => !set.contains(value),
        }
    }
}

impl MatchSetType {
    /// Whether a list of values matches a set as asked: some of its members,
    /// all of them, or none.
    pub open spec fn holds<T>(self, set: Set<T>, values: Set<T>) -> bool {
        match self {
            MatchSetType::Any => exists|x: T| set.contains(x) && values.contains(x),
            MatchSetType::All => set.subset_of(values),
            MatchSetType::Invert => !exists|x: T| set.contains(x) && values.contains(x),
        }
    }

    pub fn compare<K: Key>(&self, set: &OrdSet<K>, values: &OrdSet<K>) -> (b: bool)
        ensures
            b == self.holds(set@, values@),
    {
        match self {
            MatchSetType::Any => set.intersects(values),
            MatchSetType::All => set.is_subset(values),
            MatchSetType::Invert => !set.intersects(values),
        }
    }
}

impl PrefixRange {
    /// Whether a network lies in the range: it is part of the range's prefix,
    /// and its prefix length is between the bounds.
    pub open spec fn covers(self, net: IpNetwork) -> bool {
        &&& self.masklen_lower <= net.plen <= self.masklen_upper
        &&& self.prefix.family() == net.family()
        &&& (IpNetwork { addr: net.addr, plen: self.prefix.plen }).masked() == self.prefix.masked()
    }

    pub open spec fn valid(self) -> bool {
        self.prefix.valid()
    }
}

impl PrefixSet {
    pub open spec fn valid(self) -> bool {
        forall|i: int| 0 <= i < self.ranges@.len() ==> (#[trigger] self.ranges@[i]).valid()
    }

    pub open spec fn covers(self, net: IpNetwork) -> bool {
        exists|i: int| 0 <= i < self.ranges@.len() && (#[trigger] self.ranges@[i]).covers(net)
    }

    /// Whether a network lies in one of the ranges.
    pub fn matches(&self, net: &IpNetwork) -> (b: bool)
        requires
            self.valid(),
        ensures
            b == self.covers(*net),
    {
        let mut i: usize = 0;
        while i < self.ranges.len()
            invariant
                i <= self.ranges@.len(),
                self.valid(),
                forall|j: int| 0 <= j < i ==> !(#[trigger] self.ranges@[j]).covers(*net),
            decreases self.ranges@.len() - i,
        {
            let range = &self.ranges[i];
            if range.masklen_lower <= net.plen && net.plen <= range.masklen_upper && range.prefix.address_family()
                == net.address_family() {
                let widened = IpNetwork { addr: net.addr, plen: range.prefix.plen };
                if widened.apply_mask() == range.prefix.apply_mask() {
                    assert(self.ranges@[i as int].covers(*net));
                    return true;
                }
            }
            i += 1;
        }
        false
    }
}

// ===== conditions =====

/// The AS numbers that occur in a path.
pub open spec fn path_members(path: Seq<SegmentView>) -> Set<u32> {
    Set::new(|asn: u32| path_contains(path, asn))
}

/// The address that a next hop condition looks at.
pub open spec fn nexthop_value(base: BaseAttrsView) -> BgpNexthop {
    match base.nexthop {
        Some(addr) => BgpNexthop::Addr(addr),
        None => BgpNexthop::NexthopSelf,
    }
}

/// Whether the set that a BGP condition looks up in a route with the given
/// attributes, if any, exists.
pub open spec fn bgp_condition_safe(c: BgpPolicyCondition, attrs: AttrsView, sets: MatchSets) -> bool {
    match c {
        BgpPolicyCondition::MatchCommSet { value, .. } => attrs.comm is Some ==> sets.bgp.comms@.contains_key(value@),
        BgpPolicyCondition::MatchExtCommSet { value, .. } => attrs.ext_comm is Some
            ==> sets.bgp.ext_comms@.contains_key(value@),
        BgpPolicyCondition::MatchExtv6CommSet { value, .. } => attrs.extv6_comm is Some
            ==> sets.bgp.extv6_comms@.contains_key(value@),
        BgpPolicyCondition::MatchLargeCommSet { value, .. } => attrs.large_comm is Some
            ==> sets.bgp.large_comms@.contains_key(value@),
        BgpPolicyCondition::MatchAsPathSet { value, .. } => sets.bgp.as_paths@.contains_key(value@),
        BgpPolicyCondition::MatchNexthopSet { value, .. } => sets.bgp.nexthops@.contains_key(value@),
        _ => true,
    }
}

/// Whether the set that a condition looks up for a route, if any, exists. BGP
/// conditions look at routes learned from neighbors only.
pub open spec fn condition_safe(c: PolicyCondition, rpinfo: RoutePolicyView, sets: MatchSets) -> bool {
    c matches PolicyCondition::Bgp(b) ==> rpinfo.origin is Neighbor ==> bgp_condition_safe(b, rpinfo.attrs, sets)
}

/// Whether the set that a condition refers to, if any, exists.
pub open spec fn condition_known(c: PolicyCondition, sets: MatchSets) -> bool {
    match c {
        PolicyCondition::Bgp(BgpPolicyCondition::MatchCommSet { value, .. }) => sets.bgp.comms@.contains_key(value@),
        PolicyCondition::Bgp(BgpPolicyCondition::MatchExtCommSet { value, .. }) => sets.bgp.ext_comms@.contains_key(
            value@,
        ),
        PolicyCondition::Bgp(BgpPolicyCondition::MatchExtv6CommSet { value, .. }) => {
            sets.bgp.extv6_comms@.contains_key(value@)
        },
        PolicyCondition::Bgp(BgpPolicyCondition::MatchLargeCommSet { value, .. }) => {
            sets.bgp.large_comms@.contains_key(value@)
        },
        PolicyCondition::Bgp(BgpPolicyCondition::MatchAsPathSet { value, .. }) => sets.bgp.as_paths@.contains_key(
            value@,
        ),
        PolicyCondition::Bgp(BgpPolicyCondition::MatchNexthopSet { value, .. }) => sets.bgp.nexthops@.contains_key(
            value@,
        ),
        _ => true,
    }
}

/// Whether every range of the prefix sets is a network.
pub open spec fn sets_valid(sets: MatchSets) -> bool {
    forall|k: (AddressFamily, Seq<char>)|
        sets.prefixes@.contains_key(k) ==> (#[trigger] sets.prefixes@[k]).valid()
}

/// Whether a route learned from a neighbor meets a BGP condition.
pub open spec fn bgp_condition_met(
    afi_safi: AfiSafi,
    rpinfo: RoutePolicyView,
    remote_addr: IpAddr,
    c: BgpPolicyCondition,
    sets: MatchSets,
) -> bool {
    let attrs = rpinfo.attrs;
    match c {
        BgpPolicyCondition::LocalPref { value, op } => attrs.base.local_pref matches Some(x) && op.holds(value, x),
        BgpPolicyCondition::Med { value, op } => attrs.base.med matches Some(x) && op.holds(value, x),
        BgpPolicyCondition::Origin(origin) => attrs.base.origin == origin,
        BgpPolicyCondition::MatchAfiSafi { values, match_type } => match_type.holds(values@, afi_safi),
        BgpPolicyCondition::MatchNeighbor { value, match_type } => match_type.holds(value@, remote_addr),
        BgpPolicyCondition::RouteType(value) => rpinfo.route_type == value,
        BgpPolicyCondition::CommCount { value, op } => attrs.comm matches Some(list) && op.holds(
            value,
            comm_count(list),
        ),
        BgpPolicyCondition::AsPathLen { value, op } => op.holds(value, path_length(attrs.base.as_path)),
        BgpPolicyCondition::MatchCommSet { value, match_type } => attrs.comm matches Some(list) && match_type.holds(
            sets.bgp.comms@[value@]@,
            list,
        ),
        BgpPolicyCondition::MatchExtCommSet { value, match_type } => attrs.ext_comm matches Some(list)
            && match_type.holds(sets.bgp.ext_comms@[value@]@, list),
        BgpPolicyCondition::MatchExtv6CommSet { value, match_type } => attrs.extv6_comm matches Some(list)
            && match_type.holds(sets.bgp.extv6_comms@[value@]@, list),
        BgpPolicyCondition::MatchLargeCommSet { value, match_type } => attrs.large_comm matches Some(list)
            && match_type.holds(sets.bgp.large_comms@[value@]@, list),
        BgpPolicyCondition::MatchAsPathSet { value, match_type } => match_type.holds(
            sets.bgp.as_paths@[value@]@,
            path_members(attrs.base.as_path),
        ),
        BgpPolicyCondition::MatchNexthopSet { value, match_type } => match_type.holds(
            sets.bgp.nexthops@[value@]@,
            nexthop_value(attrs.base),
        ),
    }
}

/// The number of communities of a list, in 32 bits.
pub open spec fn comm_count(list: Set<u32>) -> u32 {
    list.len() as u32
}

/// Whether a route meets a condition.
pub open spec fn condition_met(
    afi_safi: AfiSafi,
    prefix: IpNetwork,
    rpinfo: RoutePolicyView,
    c: PolicyCondition,
    sets: MatchSets,
) -> bool {
    match c {
        PolicyCondition::SrcProtocol(value) => rpinfo.origin matches RouteOrigin::Protocol(p) ==> p == value,
        PolicyCondition::MatchPrefixSet(value) => {
            let k = (prefix.family(), value@);
            sets.prefixes@.contains_key(k) && sets.prefixes@[k].covers(prefix)
        },
        PolicyCondition::MatchNeighborSet(value) => rpinfo.origin matches RouteOrigin::Neighbor { remote_addr, .. }
            ==> sets.neighbors@.contains_key(value@) && sets.neighbors@[value@].addrs@.contains(remote_addr),
        PolicyCondition::MatchTagSet(value) => rpinfo.tag matches Some(tag) && sets.tags@.contains_key(value@)
            && sets.tags@[value@].tags@.contains(tag),
        PolicyCondition::Bgp(c) => rpinfo.origin matches RouteOrigin::Neighbor { remote_addr, .. }
            ==> bgp_condition_met(afi_safi, rpinfo, remote_addr, c, sets),
        // Conditions that aren't implemented or don't apply are ignored.
        PolicyCondition::MatchInterface(_) => true,
        PolicyCondition::MatchRouteType(_) => true,
        PolicyCondition::Unsupported => true,
    }
}

/// The AS numbers of a path.
fn collect_members(path: &AsPath) -> (r: OrdSet<u32>)
    ensures
        r@ == path_members(path@),
{
    let mut r: OrdSet<u32> = OrdSet::new();
    let mut i: usize = 0;
    assert(r@ =~= path_members(path@.take(0)));
    while i < path.segments.len()
        invariant
            i <= path.segments@.len(),
            r@ == path_members(path@.take(i as int)),
        decreases path.segments@.len() - i,
    {
        let seg = &path.segments[i];
        let ghost before = r@;
        let mut k: usize = 0;
        while k < seg.members.len()
            invariant
                k <= seg.members@.len(),
                forall|asn: u32| #[trigger] r@.contains(asn) == (
                    before.contains(asn) || seg.members@.take(k as int).contains(asn)
                ),
            decreases seg.members@.len() - k,
        {
            r.insert(seg.members[k]);
            proof {
                let m = seg.members@;
                assert(m.take(k + 1) =~= m.take(k as int).push(m[k as int]));
                assert forall|asn: u32| m.take(k + 1).contains(asn) == (m.take(k as int).contains(asn) || asn == m[k as int]) by {
                    assert(m.take(k + 1)[k as int] == m[k as int]);
                    if m.take(k as int).contains(asn) {
                        let j = choose|j: int| 0 <= j < k && m.take(k as int)[j] == asn;
                        assert(m.take(k + 1)[j] == asn);
                    }
                }
            }
            k += 1;
        }
        proof {
            assert(seg.members@.take(k as int) =~= seg.members@);
            let p = path@;
            assert forall|asn: u32| r@.contains(asn) == path_contains(p.take(i + 1), asn) by {
                if before.contains(asn) {
                    let j = choose|j: int| 0 <= j < i && (#[trigger] p.take(i as int)[j]).members.contains(asn);
                    assert(p.take(i + 1)[j].members.contains(asn));
                }
                if seg.members@.contains(asn) {
                    assert(p.take(i + 1)[i as int].members.contains(asn));
                }
                if path_contains(p.take(i + 1), asn) {
                    let j = choose|j: int| 0 <= j < i + 1 && (#[trigger] p.take(i + 1)[j]).members.contains(asn);
                    if j < i {
                        assert(p.take(i as int)[j].members.contains(asn));
                    }
                }
            }
            assert(r@ =~= path_members(p.take(i + 1)));
        }
        i += 1;
    }
    assert(path@.take(i as int) =~= path@);
    r
}

fn process_bgp_condition(
    afi_safi: AfiSafi,
    rpinfo: &RoutePolicyInfo,
    remote_addr: IpAddr,
    condition: &BgpPolicyCondition,
    match_sets: &MatchSets,
) -> (b: bool)
    requires
        bgp_condition_safe(*condition, rpinfo.attrs@, *match_sets),
    ensures
        b == bgp_condition_met(afi_safi, rpinfo@, remote_addr, *condition, *match_sets),
{
    let attrs = &rpinfo.attrs;
    match condition {
        // "local-pref"
        BgpPolicyCondition::LocalPref { value, op } => match attrs.base.local_pref {
            Some(local_pref) => op.compare(*value, local_pref),
            None => false,
        },
        // "med"
        BgpPolicyCondition::Med { value, op } => match attrs.base.med {
            Some(med) => op.compare(*value, med),
            None => false,
        },
        // "origin-eq"
        BgpPolicyCondition::Origin(origin) => attrs.base.origin == *origin,
        // "match-afi-safi"
        BgpPolicyCondition::MatchAfiSafi { values, match_type } => match_type.compare(values, &afi_safi),
        // "match-neighbor"
        BgpPolicyCondition::MatchNeighbor { value, match_type } => match_type.compare(value, &remote_addr),
        // "route-type"
        BgpPolicyCondition::RouteType(value) => rpinfo.route_type == *value,
        // "community-count"
        BgpPolicyCondition::CommCount { value, op } => match &attrs.comm {
            Some(comm) => {
                let n: u32 = #[verifier::truncate] (comm.0.len() as u32);
                op.compare(*value, n)
            },
            None => false,
        },
        // "as-path-length"
        BgpPolicyCondition::AsPathLen { value, op } => op.compare(*value, attrs.base.as_path.path_length()),
        // "match-community-set"
        BgpPolicyCondition::MatchCommSet { value, match_type } => match &attrs.comm {
            Some(comm) => {
                let set = match_sets.bgp.comms.get(value).unwrap();
                match_type.compare(set, &comm.0)
            },
            None => false,
        },
        // "match-ext-community-set"
        BgpPolicyCondition::MatchExtCommSet { value, match_type } => match &attrs.ext_comm {
            Some(ext_comm) => {
                let set = match_sets.bgp.ext_comms.get(value).unwrap();
                match_type.compare(set, &ext_comm.0)
            },
            None => false,
        },
        // "match-ipv6-ext-community-set"
        BgpPolicyCondition::MatchExtv6CommSet { value, match_type } => match &attrs.extv6_comm {
            Some(extv6_comm) => {
                let set = match_sets.bgp.extv6_comms.get(value).unwrap();
                match_type.compare(set, &extv6_comm.0)
            },
            None => false,
        },
        // "match-large-community-set"
        BgpPolicyCondition::MatchLargeCommSet { value, match_type } => match &attrs.large_comm {
            Some(large_comm) => {
                let set = match_sets.bgp.large_comms.get(value).unwrap();
                match_type.compare(set, &large_comm.0)
            },
            None => false,
        },
        // "match-as-path-set"
        BgpPolicyCondition::MatchAsPathSet { value, match_type } => {
            let set = match_sets.bgp.as_paths.get(value).unwrap();
            let asns = collect_members(&attrs.base.as_path);
            match_type.compare(set, &asns)
        },
        // "match-next-hop-set"
        BgpPolicyCondition::MatchNexthopSet { value, match_type } => {
            let nexthop = match attrs.base.nexthop {
                Some(nexthop) => BgpNexthop::Addr(nexthop),
                None => BgpNexthop::NexthopSelf,
            };
            let set = match_sets.bgp.nexthops.get(value).unwrap();
            match_type.compare(set, &nexthop)
        },
    }
}

/// Processes a single condition statement within a routing policy.
///
/// Returns a boolean value indicating whether the condition is met.
pub fn process_stmt_condition(
    afi_safi: AfiSafi,
    prefix: &IpNetwork,
    rpinfo: &RoutePolicyInfo,
    condition: &PolicyCondition,
    match_sets: &MatchSets,
) -> (b: bool)
    requires
        condition_safe(*condition, rpinfo@, *match_sets),
        sets_valid(*match_sets),
    ensures
        b == condition_met(afi_safi, *prefix, rpinfo@, *condition, *match_sets),
{
    match condition {
        // "source-protocol"
        PolicyCondition::SrcProtocol(value) => match rpinfo.origin {
            RouteOrigin::Protocol(protocol) => protocol == *value,
            _ => true,
        },
        // "match-interface"
        PolicyCondition::MatchInterface(_) => true,
        // "match-prefix-set"
        PolicyCondition::MatchPrefixSet(value) => {
            let key = PrefixSetKey { name: value.clone(), af: prefix.address_family() };
            match match_sets.prefixes.get(&key) {
                Some(set) => {
                    assert(match_sets.prefixes@[key@].valid());
                    set.matches(prefix)
                },
                None => false,
            }
        },
        // "match-neighbor-set"
        PolicyCondition::MatchNeighborSet(value) => match rpinfo.origin {
            RouteOrigin::Neighbor { remote_addr, .. } => match match_sets.neighbors.get(value) {
                Some(set) => set.addrs.contains(&remote_addr),
                None => false,
            },
            _ => true,
        },
        // "match-tag-set"
        PolicyCondition::MatchTagSet(value) => match (rpinfo.tag, match_sets.tags.get(value)) {
            (Some(tag), Some(set)) => set.tags.contains(&tag),
            _ => false,
        },
        // "match-route-type"
        PolicyCondition::MatchRouteType(_) => true,
        // "bgp-conditions"
        PolicyCondition::Bgp(condition) => match rpinfo.origin {
            RouteOrigin::Neighbor { remote_addr, .. } => process_bgp_condition(
                afi_safi,
                rpinfo,
                remote_addr,
                condition,
                match_sets,
            ),
            _ => true,
        },
        // Ignore unsupported conditions.
        PolicyCondition::Unsupported => true,
    }
}

// ===== actions =====

/// The communities that an action refers to.
pub open spec fn method_comms<T: Key>(method: BgpSetCommMethod<T>, sets: Map<Seq<char>, OrdSet<T>>) -> Set<T::V> {
    match method {
        BgpSetCommMethod::Inline(comms) => comms@,
        BgpSetCommMethod::Reference(name) => sets[name@]@,
    }
}

/// Whether the set that an action refers to exists.
pub open spec fn method_known<T: Key>(method: BgpSetCommMethod<T>, sets: Map<Seq<char>, OrdSet<T>>) -> bool {
    method matches BgpSetCommMethod::Reference(name) ==> sets.contains_key(name@)
}

/// A list of communities that is missing when it is empty.
pub open spec fn nonempty<T>(list: Option<Set<T>>) -> Option<Set<T>> {
    if list == Some(Set::<T>::empty()) {
        None
    } else {
        list
    }
}

/// The list of communities after an action.
pub open spec fn comm_updated<T>(options: BgpSetCommOptions, comms: Set<T>, list: Option<Set<T>>) -> Option<Set<T>> {
    nonempty(
        match options {
            BgpSetCommOptions::Add => Some(
                match list {
                    Some(l) => l.union(comms),
                    None => comms,
                },
            ),
            BgpSetCommOptions::Remove => match list {
                Some(l) => Some(l.difference(comms)),
                None => None,
            },
            BgpSetCommOptions::Replace => Some(comms),
        },
    )
}

/// No action leaves an empty list of communities behind.
pub proof fn comm_list_never_empty<T>(options: BgpSetCommOptions, comms: Set<T>, list: Option<Set<T>>)
    ensures
        comm_updated(options, comms, list) != Some(Set::<T>::empty()),
{
}

/// Removing the communities that were added leaves none of them.
pub proof fn comm_remove_after_add<T>(comms: Set<T>, list: Option<Set<T>>)
    ensures
        comm_updated(
            BgpSetCommOptions::Remove,
            comms,
            comm_updated(BgpSetCommOptions::Add, comms, list),
        ) == comm_updated(BgpSetCommOptions::Remove, comms, list),
{
    match list {
        Some(l) => {
            assert(l.union(comms).difference(comms) =~= l.difference(comms));
            if l.union(comms) == Set::<T>::empty() {
                assert(l.difference(comms) =~= Set::<T>::empty()) by {
                    assert forall|x: T| !l.difference(comms).contains(x) by {
                        assert(!l.union(comms).contains(x));
                    }
                }
            }
        },
        None => {
            assert(comms.difference(comms) =~= Set::<T>::empty());
        },
    }
}

/// Modifies the list of communities based on the specified method and options.
pub fn action_set_comm<T: Key>(
    options: &BgpSetCommOptions,
    method: &BgpSetCommMethod<T>,
    comm_sets: &Table<String, OrdSet<T>>,
    comm_list: &mut Option<CommList<T>>,
)
    requires
        method_known(*method, comm_sets@),
    ensures
        opt_view(*final(comm_list)) == comm_updated(
            *options,
            method_comms(*method, comm_sets@),
            opt_view(*old(comm_list)),
        ),
{
    // Get list of communities.
    let comms = match method {
        BgpSetCommMethod::Inline(comms) => comms,
        BgpSetCommMethod::Reference(set) => comm_sets.get(set).unwrap(),
    };

    // Add, remove or replace communities.
    match options {
        BgpSetCommOptions::Add => {
            if let Some(list) = comm_list {
                list.0.extend(comms);
            } else {
                *comm_list = Some(CommList(comms.copy()));
            }
        },
        BgpSetCommOptions::Remove => {
            if let Some(list) = comm_list {
                list.0.subtract(comms);
            }
        },
        BgpSetCommOptions::Replace => {
            *comm_list = Some(CommList(comms.copy()));
        },
    }

    // Remove the community list if it exists and is empty.
    let empty = match comm_list {
        Some(list) => list.0.is_empty(),
        None => false,
    };
    if empty {
        *comm_list = None;
    }
}

/// A sum that stays at the largest number.
pub open spec fn saturated_add(a: u32, b: u32) -> u32 {
    if a + b > u32::MAX {
        u32::MAX
    } else {
        (a + b) as u32
    }
}

/// A difference that stays at zero.
pub open spec fn saturated_sub(a: u32, b: u32) -> u32 {
    if a < b {
        0
    } else {
        (a - b) as u32
    }
}

/// The MED after a "set-metric" action.
pub open spec fn metric_updated(med: Option<u32>, value: u32, mod_type: MetricModification) -> Option<u32> {
    match mod_type {
        MetricModification::Replace => Some(value),
        MetricModification::Add => match med {
            Some(m) => Some(saturated_add(m, value)),
            None => None,
        },
        MetricModification::Subtract => match med {
            Some(m) => Some(saturated_sub(m, value)),
            None => None,
        },
    }
}

/// The MED after a "set-med" action. The IGP metric is known only for routes
/// redistributed from an IGP; the MED of all others is left alone.
pub open spec fn med_updated(med: Option<u32>, set_med: BgpSetMed, igp_metric: Option<u32>) -> Option<u32> {
    match set_med {
        BgpSetMed::Add(value) => metric_updated(med, value, MetricModification::Add),
        BgpSetMed::Subtract(value) => metric_updated(med, value, MetricModification::Subtract),
        BgpSetMed::Replace(value) => Some(value),
        BgpSetMed::Igp => match igp_metric {
            Some(m) => Some(m),
            None => med,
        },
        BgpSetMed::MedPlusIgp => match igp_metric {
            Some(m) => Some(saturated_add(med.unwrap_or(0), m)),
            None => med,
        },
    }
}

/// The attributes after a "set-next-hop" action. Making the router itself the
/// next hop is ignored in the import direction.
pub open spec fn nexthop_updated(base: BaseAttrsView, nexthop: BgpNexthop, policy_type: PolicyType) -> BaseAttrsView {
    match nexthop {
        BgpNexthop::Addr(addr) => BaseAttrsView { nexthop: Some(addr), ll_nexthop: None, ..base },
        BgpNexthop::NexthopSelf => if policy_type == PolicyType::Import {
            base
        } else {
            BaseAttrsView { nexthop: None, ll_nexthop: None, ..base }
        },
    }
}

/// Whether the sets that an action refers to exist.
pub open spec fn action_known(action: PolicyAction, sets: MatchSets) -> bool {
    match action {
        PolicyAction::Bgp(BgpPolicyAction::SetComm { method, .. }) => method_known(method, sets.bgp.comms@),
        PolicyAction::Bgp(BgpPolicyAction::SetExtComm { method, .. }) => method_known(method, sets.bgp.ext_comms@),
        PolicyAction::Bgp(BgpPolicyAction::SetExtv6Comm { method, .. }) => method_known(
            method,
            sets.bgp.extv6_comms@,
        ),
        PolicyAction::Bgp(BgpPolicyAction::SetLargeComm { method, .. }) => method_known(
            method,
            sets.bgp.large_comms@,
        ),
        _ => true,
    }
}

/// The attributes after an action.
pub open spec fn acted(
    attrs: AttrsView,
    action: PolicyAction,
    policy_type: PolicyType,
    sets: MatchSets,
    igp_metric: Option<u32>,
) -> AttrsView {
    match action {
        PolicyAction::SetMetric { value, mod_type } => AttrsView {
            base: BaseAttrsView { med: metric_updated(attrs.base.med, value, mod_type), ..attrs.base },
            ..attrs
        },
        PolicyAction::Bgp(action) => match action {
            BgpPolicyAction::SetRouteOrigin(origin) => AttrsView {
                base: BaseAttrsView { origin, ..attrs.base },
                ..attrs
            },
            BgpPolicyAction::SetLocalPref(local_pref) => AttrsView {
                base: BaseAttrsView { local_pref: Some(local_pref), ..attrs.base },
                ..attrs
            },
            BgpPolicyAction::SetNexthop(nexthop) => AttrsView {
                base: nexthop_updated(attrs.base, nexthop, policy_type),
                ..attrs
            },
            BgpPolicyAction::SetMed(set_med) => AttrsView {
                base: BaseAttrsView { med: med_updated(attrs.base.med, set_med, igp_metric), ..attrs.base },
                ..attrs
            },
            BgpPolicyAction::SetAsPathPrepent { asn, repeat } => AttrsView {
                base: BaseAttrsView {
                    as_path: path_prepend_n(attrs.base.as_path, asn, repeat.unwrap_or(1) as nat),
                    ..attrs.base
                },
                ..attrs
            },
            BgpPolicyAction::SetComm { options, method } => AttrsView {
                comm: comm_updated(options, method_comms(method, sets.bgp.comms@), attrs.comm),
                ..attrs
            },
            BgpPolicyAction::SetExtComm { options, method } => AttrsView {
                ext_comm: comm_updated(options, method_comms(method, sets.bgp.ext_comms@), attrs.ext_comm),
                ..attrs
            },
            BgpPolicyAction::SetExtv6Comm { options, method } => AttrsView {
                extv6_comm: comm_updated(options, method_comms(method, sets.bgp.extv6_comms@), attrs.extv6_comm),
                ..attrs
            },
            BgpPolicyAction::SetLargeComm { options, method } => AttrsView {
                large_comm: comm_updated(options, method_comms(method, sets.bgp.large_comms@), attrs.large_comm),
                ..attrs
            },
        },
        // The disposition of the route doesn't change it, and unsupported
        // actions are ignored.
        PolicyAction::Accept(_) => attrs,
        PolicyAction::Unsupported => attrs,
    }
}

fn set_metric(med: &mut Option<u32>, value: u32, mod_type: MetricModification)
    ensures
        *final(med) == metric_updated(*old(med), value, mod_type),
{
    match mod_type {
        MetricModification::Replace => {
            *med = Some(value);
        },
        MetricModification::Add => {
            if let Some(m) = *med {
                *med = Some(m.saturating_add(value));
            }
        },
        MetricModification::Subtract => {
            if let Some(m) = *med {
                *med = Some(m.saturating_sub(value));
            }
        },
    }
}

/// Processes a single action statement within a routing policy, updating the
/// route's attributes accordingly.
pub fn process_stmt_action(
    attrs: &mut Attrs,
    action: &PolicyAction,
    policy_type: PolicyType,
    match_sets: &MatchSets,
    igp_metric: Option<u32>,
)
    requires
        action_known(*action, *match_sets),
    ensures
        final(attrs)@ == acted(old(attrs)@, *action, policy_type, *match_sets, igp_metric),
{
    match action {
        // "set-metric"
        PolicyAction::SetMetric { value, mod_type } => {
            set_metric(&mut attrs.base.med, *value, *mod_type);
        },
        // "bgp-actions"
        PolicyAction::Bgp(action) => match action {
            // "set-route-origin"
            BgpPolicyAction::SetRouteOrigin(origin) => {
                attrs.base.origin = *origin;
            },
            // "set-local-pref"
            BgpPolicyAction::SetLocalPref(local_pref) => {
                attrs.base.local_pref = Some(*local_pref);
            },
            // "set-next-hop"
            BgpPolicyAction::SetNexthop(set_nexthop) => {
                match set_nexthop {
                    BgpNexthop::Addr(addr) => {
                        attrs.base.nexthop = Some(*addr);
                    },
                    BgpNexthop::NexthopSelf => {
                        // Ignore the action in the import direction, as it
                        // would install a route with a local address as next
                        // hop.
                        if policy_type == PolicyType::Import {
                            return;
                        }

                        // Unsetting the next hop leaves it to be resolved to
                        // the source address of the session at transmission
                        // time.
                        attrs.base.nexthop = None;
                    },
                }

                // The link-local next hop identifies the router that
                // advertised the route, which is no longer the requested next
                // hop.
                attrs.base.ll_nexthop = None;
            },
            // "set-med"
            BgpPolicyAction::SetMed(set_med) => match set_med {
                BgpSetMed::Add(value) => {
                    set_metric(&mut attrs.base.med, *value, MetricModification::Add);
                },
                BgpSetMed::Subtract(value) => {
                    set_metric(&mut attrs.base.med, *value, MetricModification::Subtract);
                },
                BgpSetMed::Replace(value) => {
                    attrs.base.med = Some(*value);
                },
                BgpSetMed::Igp => {
                    if let Some(igp_metric) = igp_metric {
                        attrs.base.med = Some(igp_metric);
                    }
                },
                BgpSetMed::MedPlusIgp => {
                    if let Some(igp_metric) = igp_metric {
                        attrs.base.med = Some(attrs.base.med.unwrap_or(0).saturating_add(igp_metric));
                    }
                },
            },
            // "set-as-path-prepend"
            BgpPolicyAction::SetAsPathPrepent { asn, repeat } => {
                let n: u8 = repeat.unwrap_or(1);
                let ghost before = attrs@;
                let mut i: u8 = 0;
                while i < n
                    invariant
                        i <= n,
                        attrs@ == (AttrsView {
                            base: BaseAttrsView {
                                as_path: path_prepend_n(before.base.as_path, *asn, i as nat),
                                ..before.base
                            },
                            ..before
                        }),
                    decreases n - i,
                {
                    attrs.base.as_path.prepend(*asn);
                    i += 1;
                }
            },
            // "set-community"
            BgpPolicyAction::SetComm { options, method } => {
                action_set_comm(options, method, &match_sets.bgp.comms, &mut attrs.comm);
            },
            // "set-ext-community"
            BgpPolicyAction::SetExtComm { options, method } => {
                action_set_comm(options, method, &match_sets.bgp.ext_comms, &mut attrs.ext_comm);
            },
            // "set-ipv6-ext-community"
            BgpPolicyAction::SetExtv6Comm { options, method } => {
                action_set_comm(options, method, &match_sets.bgp.extv6_comms, &mut attrs.extv6_comm);
            },
            // "set-large-community"
            BgpPolicyAction::SetLargeComm { options, method } => {
                action_set_comm(options, method, &match_sets.bgp.large_comms, &mut attrs.large_comm);
            },
        },
        // Ignore unsupported actions.
        _ => {},
    }
}

// ===== policy chains =====

/// What a policy chain is applied to.
pub struct PolicyInput {
    pub policy_type: PolicyType,
    pub afi_safi: AfiSafi,
    pub prefix: IpNetwork,
    pub rpinfo: RoutePolicyView,
    pub sets: MatchSets,
}

/// Where the actions of a statement have led to.
pub enum Progress {
    Rejected,
    Going { attrs: AttrsView, modified: bool, accept: bool },
}

/// What a policy chain decides on a route. An accepted route is modified if
/// some action other than its disposition was applied.
pub enum Outcome {
    Rejected,
    Accepted { attrs: AttrsView, modified: bool },
}

/// The route as it is seen after its attributes have been changed.
pub open spec fn seen(rpinfo: RoutePolicyView, attrs: AttrsView) -> RoutePolicyView {
    RoutePolicyView { attrs, ..rpinfo }
}

/// Whether a route with the given attributes meets the first `n` conditions of
/// a statement.
pub open spec fn conditions_met(input: PolicyInput, stmt: PolicyStmt, attrs: AttrsView, n: int) -> bool {
    forall|i: int|
        0 <= i < n ==> condition_met(
            input.afi_safi,
            input.prefix,
            seen(input.rpinfo, attrs),
            #[trigger] stmt.conditions@[i],
            input.sets,
        )
}

/// Whether a route with the given attributes meets all conditions of a
/// statement.
pub open spec fn stmt_applies(input: PolicyInput, stmt: PolicyStmt, attrs: AttrsView) -> bool {
    conditions_met(input, stmt, attrs, stmt.conditions@.len() as int)
}

/// The first `n` actions of a statement, applied one after the other.
pub open spec fn run_actions(input: PolicyInput, stmt: PolicyStmt, attrs: AttrsView, modified: bool, n: nat) -> Progress
    decreases n,
{
    if n == 0 {
        Progress::Going { attrs, modified, accept: false }
    } else {
        match run_actions(input, stmt, attrs, modified, (n - 1) as nat) {
            Progress::Rejected => Progress::Rejected,
            Progress::Going { attrs: a, modified: m, accept } => match stmt.actions@[n - 1] {
                PolicyAction::Accept(true) => Progress::Going { attrs: a, modified: m, accept: true },
                PolicyAction::Accept(false) => Progress::Rejected,
                action => Progress::Going {
                    attrs: acted(a, action, input.policy_type, input.sets, input.rpinfo.igp_metric),
                    modified: true,
                    accept,
                },
            },
        }
    }
}

/// Whether the sets that a statement refers to exist.
pub open spec fn stmt_known(stmt: PolicyStmt, sets: MatchSets) -> bool {
    &&& forall|i: int| 0 <= i < stmt.conditions@.len() ==> condition_known(#[trigger] stmt.conditions@[i], sets)
    &&& forall|i: int| 0 <= i < stmt.actions@.len() ==> action_known(#[trigger] stmt.actions@[i], sets)
}

/// The statements of a policy, in the order of their names.
pub open spec fn policy_stmts(policy: Policy) -> Seq<PolicyStmt> {
    Seq::new(policy.stmts.keys().len(), |i: int| policy.stmts@[policy.stmts.keys()[i]])
}

/// The statements of a chain of policies, one policy after the other.
pub open spec fn chain_stmts(policies: Seq<Arc<Policy>>) -> Seq<PolicyStmt>
    decreases policies.len(),
{
    if policies.len() == 0 {
        Seq::empty()
    } else {
        chain_stmts(policies.drop_last()) + policy_stmts(*policies.last())
    }
}

/// Evaluates the statements from the `n`th on.
pub open spec fn run_chain(
    input: PolicyInput,
    stmts: Seq<PolicyStmt>,
    default_policy: DefaultPolicyType,
    attrs: AttrsView,
    modified: bool,
    n: int,
) -> Outcome
    decreases stmts.len() - n,
{
    if n < 0 || n >= stmts.len() {
        // The default policy applies once the end of the policy chain is
        // reached without a final route disposition.
        if default_policy == DefaultPolicyType::RejectRoute {
            Outcome::Rejected
        } else {
            Outcome::Accepted { attrs, modified }
        }
    } else if !stmt_applies(input, stmts[n], attrs) {
        run_chain(input, stmts, default_policy, attrs, modified, n + 1)
    } else {
        match run_actions(input, stmts[n], attrs, modified, stmts[n].actions@.len()) {
            Progress::Rejected => Outcome::Rejected,
            Progress::Going { attrs: a, modified: m, accept } => if accept {
                Outcome::Accepted { attrs: a, modified: m }
            } else {
                run_chain(input, stmts, default_policy, a, m, n + 1)
            },
        }
    }
}

/// What a chain of policies decides on a route.
pub open spec fn chain_outcome(
    input: PolicyInput,
    policies: Seq<Arc<Policy>>,
    default_policy: DefaultPolicyType,
) -> Outcome {
    run_chain(input, chain_stmts(policies), default_policy, input.rpinfo.attrs, false, 0)
}

/// Whether the sets that the conditions of a statement look up exist, as far as
/// the conditions are evaluated: up to the first one that is not met.
pub open spec fn conditions_safe(input: PolicyInput, stmt: PolicyStmt, attrs: AttrsView) -> bool {
    forall|i: int|
        0 <= i < stmt.conditions@.len() && conditions_met(input, stmt, attrs, i) ==> condition_safe(
            #[trigger] stmt.conditions@[i],
            seen(input.rpinfo, attrs),
            input.sets,
        )
}

/// Whether the sets that the actions of a statement look up exist, as far as the
/// actions are applied: up to one that rejects the route.
pub open spec fn actions_safe(input: PolicyInput, stmt: PolicyStmt, attrs: AttrsView, modified: bool) -> bool {
    forall|i: int|
        0 <= i < stmt.actions@.len() && run_actions(input, stmt, attrs, modified, i as nat) is Going ==> action_known(
            #[trigger] stmt.actions@[i],
            input.sets,
        )
}

/// Whether the sets exist that are looked up while the statements are evaluated
/// from the `n`th on.
pub open spec fn run_safe(
    input: PolicyInput,
    stmts: Seq<PolicyStmt>,
    attrs: AttrsView,
    modified: bool,
    n: int,
) -> bool
    decreases stmts.len() - n,
{
    if n < 0 || n >= stmts.len() {
        true
    } else {
        &&& conditions_safe(input, stmts[n], attrs)
        &&& if !stmt_applies(input, stmts[n], attrs) {
            run_safe(input, stmts, attrs, modified, n + 1)
        } else {
            &&& actions_safe(input, stmts[n], attrs, modified)
            &&& match run_actions(input, stmts[n], attrs, modified, stmts[n].actions@.len()) {
                Progress::Rejected => true,
                Progress::Going { attrs: a, modified: m, accept } => accept || run_safe(input, stmts, a, m, n + 1),
            }
        }
    }
}

/// Whether the sets exist that are looked up while a chain of policies is applied
/// to a route.
pub open spec fn chain_safe(input: PolicyInput, policies: Seq<Arc<Policy>>) -> bool {
    &&& sets_valid(input.sets)
    &&& run_safe(input, chain_stmts(policies), input.rpinfo.attrs, false, 0)
}

/// Whether all sets that a chain of policies refers to exist.
pub open spec fn chain_known(policies: Seq<Arc<Policy>>, sets: MatchSets) -> bool {
    &&& sets_valid(sets)
    &&& forall|i: int|
        0 <= i < chain_stmts(policies).len() ==> stmt_known(#[trigger] chain_stmts(policies)[i], sets)
}

proof fn known_run_is_safe(
    input: PolicyInput,
    stmts: Seq<PolicyStmt>,
    attrs: AttrsView,
    modified: bool,
    n: int,
)
    requires
        forall|i: int| 0 <= i < stmts.len() ==> stmt_known(#[trigger] stmts[i], input.sets),
    ensures
        run_safe(input, stmts, attrs, modified, n),
    decreases stmts.len() - n,
{
    if 0 <= n < stmts.len() {
        assert(stmt_known(stmts[n], input.sets));
        if !stmt_applies(input, stmts[n], attrs) {
            known_run_is_safe(input, stmts, attrs, modified, n + 1);
        } else if let Progress::Going { attrs: a, modified: m, accept } = run_actions(
            input,
            stmts[n],
            attrs,
            modified,
            stmts[n].actions@.len(),
        ) {
            known_run_is_safe(input, stmts, a, m, n + 1);
        }
    }
}

/// A chain of policies that refers to no missing set can be applied to any route.
pub proof fn known_chains_are_safe(input: PolicyInput, policies: Seq<Arc<Policy>>)
    requires
        chain_known(policies, input.sets),
    ensures
        chain_safe(input, policies),
{
    known_run_is_safe(input, chain_stmts(policies), input.rpinfo.attrs, false, 0);
}

/// Actions that leave a route unmodified leave its attributes as they were.
proof fn actions_unmodified(input: PolicyInput, stmt: PolicyStmt, attrs: AttrsView, modified: bool, n: nat)
    ensures
        run_actions(input, stmt, attrs, modified, n) matches Progress::Going { attrs: a, modified: m, .. } ==> {
            &&& modified ==> m
            &&& !m ==> a == attrs
        },
    decreases n,
{
    if n > 0 {
        actions_unmodified(input, stmt, attrs, modified, (n - 1) as nat);
    }
}

/// A route that is accepted unmodified keeps its attributes.
pub proof fn unmodified_keeps_attrs(
    input: PolicyInput,
    stmts: Seq<PolicyStmt>,
    default_policy: DefaultPolicyType,
    attrs: AttrsView,
    modified: bool,
    n: int,
)
    ensures
        run_chain(input, stmts, default_policy, attrs, modified, n) matches Outcome::Accepted {
            attrs: a,
            modified: m,
        } ==> {
            &&& modified ==> m
            &&& !m ==> a == attrs
        },
    decreases stmts.len() - n,
{
    if 0 <= n < stmts.len() {
        if !stmt_applies(input, stmts[n], attrs) {
            unmodified_keeps_attrs(input, stmts, default_policy, attrs, modified, n + 1);
        } else {
            actions_unmodified(input, stmts[n], attrs, modified, stmts[n].actions@.len());
            match run_actions(input, stmts[n], attrs, modified, stmts[n].actions@.len()) {
                Progress::Rejected => {},
                Progress::Going { attrs: a, modified: m, accept } => {
                    if !accept {
                        unmodified_keeps_attrs(input, stmts, default_policy, a, m, n + 1);
                    }
                },
            }
        }
    }
}

/// An empty chain leaves the decision to the default policy.
pub proof fn empty_chain_is_default(input: PolicyInput, default_policy: DefaultPolicyType)
    ensures
        chain_outcome(input, Seq::empty(), default_policy) == match default_policy {
            DefaultPolicyType::RejectRoute => Outcome::Rejected,
            DefaultPolicyType::AcceptRoute => Outcome::Accepted { attrs: input.rpinfo.attrs, modified: false },
        },
{
}

/// The route policy info of an accepted route, and whether it was modified.
pub struct Accepted {
    pub rpinfo: RoutePolicyInfo,
    pub modified: bool,
}

/// Whether a policy result is the given outcome.
pub open spec fn result_is(r: PolicyResult<Accepted>, rpinfo: RoutePolicyView, outcome: Outcome) -> bool {
    match (r, outcome) {
        (PolicyResult::Accept(a), Outcome::Accepted { attrs, modified }) => a.rpinfo@ == seen(rpinfo, attrs)
            && a.modified == modified,
        (PolicyResult::Reject, Outcome::Rejected) => true,
        _ => false,
    }
}

/// Collects the statements of a chain of policies.
fn collect_stmts<'a>(policies: &'a Vec<Arc<Policy>>) -> (r: Vec<&'a PolicyStmt>)
    ensures
        r@.len() == chain_stmts(policies@).len(),
        forall|i: int| 0 <= i < r@.len() ==> *(#[trigger] r@[i]) == chain_stmts(policies@)[i],
{
    let mut r: Vec<&'a PolicyStmt> = Vec::new();
    let mut i: usize = 0;
    assert(policies@.take(0) =~= Seq::empty());
    while i < policies.len()
        invariant
            i <= policies@.len(),
            r@.len() == chain_stmts(policies@.take(i as int)).len(),
            forall|j: int| 0 <= j < r@.len() ==> *(#[trigger] r@[j]) == chain_stmts(policies@.take(i as int))[j],
        decreases policies@.len() - i,
    {
        let policy = &policies[i];
        let ghost done = chain_stmts(policies@.take(i as int));
        let n = policy.stmts.len();
        let mut k: usize = 0;
        while k < n
            invariant
                k <= n,
                n == policy.stmts.keys().len(),
                r@.len() == done.len() + k,
                forall|j: int|
                    0 <= j < r@.len() ==> *(#[trigger] r@[j]) == (if j < done.len() {
                        done[j]
                    } else {
                        policy_stmts(**policy)[j - done.len()]
                    }),
            decreases n - k,
        {
            r.push(policy.stmts.value_at(k));
            k += 1;
        }
        proof {
            assert(policies@.take(i + 1).drop_last() =~= policies@.take(i as int));
            assert(policies@.take(i + 1).last() == *policy);
        }
        i += 1;
    }
    assert(policies@.take(i as int) =~= policies@);
    r
}

/// Processes routing policies for a specific route and returns the policy
/// result.
pub fn process_policies(
    policy_type: PolicyType,
    afi_safi: AfiSafi,
    prefix: IpNetwork,
    rpinfo: &RoutePolicyInfo,
    policies: &Vec<Arc<Policy>>,
    match_sets: &MatchSets,
    default_policy: DefaultPolicyType,
) -> (r: PolicyResult<Accepted>)
    requires
        chain_safe(
            PolicyInput { policy_type, afi_safi, prefix, rpinfo: rpinfo@, sets: *match_sets },
            policies@,
        ),
    ensures
        result_is(
            r,
            rpinfo@,
            chain_outcome(
                PolicyInput { policy_type, afi_safi, prefix, rpinfo: rpinfo@, sets: *match_sets },
                policies@,
                default_policy,
            ),
        ),
{
    let ghost input = PolicyInput { policy_type, afi_safi, prefix, rpinfo: rpinfo@, sets: *match_sets };
    let ghost stmts = chain_stmts(policies@);
    let ghost goal = chain_outcome(input, policies@, default_policy);
    let igp_metric = rpinfo.igp_metric;
    let mut current = rpinfo.dup();
    let mut modified = false;
    let list = collect_stmts(policies);
    let mut i: usize = 0;
    while i < list.len()
        invariant
            i <= list@.len(),
            stmts == chain_stmts(policies@),
            sets_valid(*match_sets),
            run_safe(input, stmts, current.attrs@, modified, i as int),
            input == (PolicyInput { policy_type, afi_safi, prefix, rpinfo: rpinfo@, sets: *match_sets }),
            igp_metric == rpinfo.igp_metric,
            list@.len() == stmts.len(),
            forall|j: int| 0 <= j < list@.len() ==> *(#[trigger] list@[j]) == stmts[j],
            current@ == seen(rpinfo@, current.attrs@),
            goal == chain_outcome(input, policies@, default_policy),
            goal == run_chain(input, stmts, default_policy, current.attrs@, modified, i as int),
        decreases list@.len() - i,
    {
        let stmt = list[i];

        // Check if all conditions in the policy statement are satisfied.
        let mut applies = true;
        let mut k: usize = 0;
        while applies && k < stmt.conditions.len()
            invariant
                k <= stmt.conditions@.len(),
                conditions_safe(input, *stmt, current.attrs@),
                sets_valid(*match_sets),
                input == (PolicyInput { policy_type, afi_safi, prefix, rpinfo: rpinfo@, sets: *match_sets }),
                current@ == seen(rpinfo@, current.attrs@),
                applies ==> conditions_met(input, *stmt, current.attrs@, k as int),
                !applies ==> !stmt_applies(input, *stmt, current.attrs@),
            decreases stmt.conditions@.len() - k,
        {
            let condition = &stmt.conditions[k];
            assert(condition_safe(stmt.conditions@[k as int], current@, *match_sets));
            if process_stmt_condition(afi_safi, &prefix, &current, condition, match_sets) {
                assert(conditions_met(input, *stmt, current.attrs@, k + 1));
            } else {
                assert(!condition_met(afi_safi, prefix, current@, stmt.conditions@[k as int], *match_sets));
                applies = false;
            }
            k += 1;
        }
        if !applies {
            i += 1;
            continue;
        }

        // Process actions defined in the policy statement.
        let ghost start = current.attrs@;
        let ghost was_modified = modified;
        let mut accept = false;
        let mut k: usize = 0;
        while k < stmt.actions.len()
            invariant
                k <= stmt.actions@.len(),
                *stmt == stmts[i as int],
                actions_safe(input, *stmt, start, was_modified),
                input == (PolicyInput { policy_type, afi_safi, prefix, rpinfo: rpinfo@, sets: *match_sets }),
                igp_metric == rpinfo.igp_metric,
                current@ == seen(rpinfo@, current.attrs@),
                run_actions(input, *stmt, start, was_modified, k as nat) == (Progress::Going {
                    attrs: current.attrs@,
                    modified,
                    accept,
                }),
                stmt_applies(input, *stmt, start),
                0 <= i < stmts.len(),
                goal == chain_outcome(input, policies@, default_policy),
                goal == run_chain(input, stmts, default_policy, start, was_modified, i as int),
                run_safe(input, stmts, start, was_modified, i as int),
            decreases stmt.actions@.len() - k,
        {
            // The "policy-result" action doesn't modify the route.
            if let PolicyAction::Accept(value) = &stmt.actions[k] {
                if !*value {
                    proof {
                        rejected_stays(input, *stmt, start, was_modified, (k + 1) as nat, stmt.actions@.len());
                    }
                    return PolicyResult::Reject;
                }
                accept = true;
            } else {
                assert(action_known(stmt.actions@[k as int], *match_sets));
                process_stmt_action(&mut current.attrs, &stmt.actions[k], policy_type, match_sets, igp_metric);
                modified = true;
            }
            k += 1;
        }

        // An "accept-route" action terminates the evaluation of the policy
        // chain.
        if accept {
            return PolicyResult::Accept(Accepted { rpinfo: current, modified });
        }
        i += 1;
    }

    // Apply the default policy once the end of the policy chain is reached
    // without a final route disposition.
    if default_policy == DefaultPolicyType::RejectRoute {
        return PolicyResult::Reject;
    }
    PolicyResult::Accept(Accepted { rpinfo: current, modified })
}

/// No action follows a rejection.
proof fn rejected_stays(input: PolicyInput, stmt: PolicyStmt, attrs: AttrsView, modified: bool, k: nat, n: nat)
    requires
        k <= n,
        run_actions(input, stmt, attrs, modified, k) is Rejected,
    ensures
        run_actions(input, stmt, attrs, modified, n) is Rejected,
    decreases n - k,
{
    if k < n {
        rejected_stays(input, stmt, attrs, modified, k + 1, n);
    }
}

/// Applies redistribution import routing policies to the provided route.
pub fn redistribute_apply(
    afi_safi: AfiSafi,
    prefix: IpNetwork,
    rpinfo: RoutePolicyInfo,
    policies: &Vec<Arc<Policy>>,
    match_sets: &MatchSets,
    default_policy: DefaultPolicyType,
) -> (r: PolicyResult<RoutePolicyInfo>)
    requires
        chain_safe(
            PolicyInput {
                policy_type: PolicyType::Import,
                afi_safi,
                prefix,
                rpinfo: rpinfo@,
                sets: *match_sets,
            },
            policies@,
        ),
    ensures
        ({
            let input = PolicyInput {
                policy_type: PolicyType::Import,
                afi_safi,
                prefix,
                rpinfo: rpinfo@,
                sets: *match_sets,
            };
            match chain_outcome(input, policies@, default_policy) {
                Outcome::Accepted { attrs, .. } => r matches PolicyResult::Accept(a) && a@ == seen(rpinfo@, attrs),
                Outcome::Rejected => r is Reject,
            }
        }),
{
    match process_policies(PolicyType::Import, afi_safi, prefix, &rpinfo, policies, match_sets, default_policy) {
        PolicyResult::Accept(a) => PolicyResult::Accept(a.rpinfo),
        PolicyResult::Reject => PolicyResult::Reject,
    }
}

// ===== neighbor policies =====

/// Prefixes that share a policy result.
pub struct PolicyGroup {
    pub result: PolicyResult<RoutePolicyInfo>,
    pub prefixes: Vec<IpNetwork>,
}

/// What the policies of a neighbor decide on a prefix.
pub open spec fn prefix_outcome(
    policy_type: PolicyType,
    afi_safi: AfiSafi,
    rpinfo: RoutePolicyView,
    policies: Seq<Arc<Policy>>,
    sets: MatchSets,
    default_policy: DefaultPolicyType,
    prefix: IpNetwork,
) -> Outcome {
    chain_outcome(PolicyInput { policy_type, afi_safi, prefix, rpinfo, sets }, policies, default_policy)
}

/// The prefixes on which a given outcome was decided, in order.
pub open spec fn with_outcome(
    prefixes: Seq<IpNetwork>,
    outcome: spec_fn(IpNetwork) -> Outcome,
    o: Outcome,
) -> Seq<IpNetwork> {
    prefixes.filter(|p: IpNetwork| outcome(p) == o)
}

/// Routes accepted with the attributes of a group.
pub struct ModifiedGroup {
    pub attrs: Attrs,
    pub prefixes: Vec<IpNetwork>,
}

/// Whether there is a group for an outcome that modified the attributes.
pub open spec fn grouped(groups: Seq<ModifiedGroup>, o: Outcome) -> bool {
    o matches Outcome::Accepted { attrs, modified: true } ==> exists|i: int|
        0 <= i < groups.len() && (#[trigger] groups[i]).attrs@ == attrs
}

/// Whether groups hold exactly the prefixes that were accepted with modified
/// attributes, one group per distinct set of attributes.
pub open spec fn groups_of(
    groups: Seq<ModifiedGroup>,
    prefixes: Seq<IpNetwork>,
    outcome: spec_fn(IpNetwork) -> Outcome,
) -> bool {
    &&& forall|i: int, j: int|
        0 <= i < j < groups.len() ==> (#[trigger] groups[i]).attrs@ != (#[trigger] groups[j]).attrs@
    &&& forall|i: int|
        #![trigger groups[i]]
        0 <= i < groups.len() ==> {
            &&& groups[i].prefixes@.len() > 0
            &&& groups[i].prefixes@ == with_outcome(
                prefixes,
                outcome,
                Outcome::Accepted { attrs: groups[i].attrs@, modified: true },
            )
        }
    &&& forall|k: int| 0 <= k < prefixes.len() ==> grouped(groups, outcome(#[trigger] prefixes[k]))
}

/// Whether groups stand in the order of their attributes.
pub open spec fn groups_ordered(groups: Seq<ModifiedGroup>) -> bool {
    forall|i: int, j: int|
        0 <= i < j < groups.len() ==> attrs_before((#[trigger] groups[i]).attrs@, (#[trigger] groups[j]).attrs@)
}

/// Whether the groups of a message are the given groups of modified routes,
/// followed by one group of unmodified routes and one of rejected ones, where
/// there are any.
pub open spec fn message_of(
    routes: Seq<PolicyGroup>,
    groups: Seq<ModifiedGroup>,
    rpinfo: RoutePolicyView,
    accepted: Seq<IpNetwork>,
    rejected: Seq<IpNetwork>,
) -> bool {
    let n = groups.len();
    let a: int = if accepted.len() > 0 {
        1
    } else {
        0
    };
    let r: int = if rejected.len() > 0 {
        1
    } else {
        0
    };
    &&& routes.len() == n + a + r
    &&& forall|i: int|
        #![trigger routes[i]]
        0 <= i < n ==> (routes[i].result matches PolicyResult::Accept(x) && x@ == seen(rpinfo, groups[i].attrs@))
            && routes[i].prefixes@ == groups[i].prefixes@
    &&& a == 1 ==> (routes[n as int].result matches PolicyResult::Accept(x) && x@ == rpinfo)
        && routes[n as int].prefixes@ == accepted
    &&& r == 1 ==> routes[n + a].result is Reject && routes[n + a].prefixes@ == rejected
}

/// Adds a prefix to the group of its attributes.
fn add_to_group(groups: &mut Vec<ModifiedGroup>, attrs: Attrs, prefix: IpNetwork)
    requires
        forall|i: int, j: int|
            0 <= i < j < old(groups)@.len() ==> (
                #[trigger] old(groups)@[i]
            ).attrs@ != (#[trigger] old(groups)@[j]).attrs@,
    ensures
        forall|i: int, j: int|
            0 <= i < j < final(groups)@.len() ==> (#[trigger] final(groups)@[i]).attrs@ != (
            #[trigger] final(groups)@[j]).attrs@,
        old(groups)@.len() <= final(groups)@.len() <= old(groups)@.len() + 1,
        forall|i: int|
            #![trigger final(groups)@[i]]
            0 <= i < old(groups)@.len() ==> final(groups)@[i].attrs@ == old(groups)@[i].attrs@
                && final(groups)@[i].prefixes@ == (if old(groups)@[i].attrs@ == attrs@ {
                old(groups)@[i].prefixes@.push(prefix)
            } else {
                old(groups)@[i].prefixes@
            }),
        final(groups)@.len() == old(groups)@.len() + 1 ==> {
            &&& final(groups)@.last().attrs@ == attrs@
            &&& final(groups)@.last().prefixes@ == seq![prefix]
            &&& forall|i: int| 0 <= i < old(groups)@.len() ==> (#[trigger] old(groups)@[i]).attrs@ != attrs@
        },
        final(groups)@.len() == old(groups)@.len() ==> exists|i: int|
            0 <= i < old(groups)@.len() && (#[trigger] old(groups)@[i]).attrs@ == attrs@,
{
    let ghost g0 = groups@;
    let mut i: usize = 0;
    while i < groups.len()
        invariant
            i <= groups@.len(),
            groups@ == g0,
            g0 == old(groups)@,
            forall|i: int, j: int|
                0 <= i < j < g0.len() ==> (#[trigger] g0[i]).attrs@ != (#[trigger] g0[j]).attrs@,
            forall|j: int| 0 <= j < i ==> (#[trigger] g0[j]).attrs@ != attrs@,
        decreases groups@.len() - i,
    {
        if groups[i].attrs.same(&attrs) {
            groups[i].prefixes.push(prefix);
            proof {
                assert(g0[i as int].attrs@ == attrs@);
                assert forall|k: int| 0 <= k < g0.len() && k != i implies groups@[k] == g0[k] by {}
                assert forall|a: int, b: int| 0 <= a < b < groups@.len() implies (#[trigger] groups@[a]).attrs@ != (
                #[trigger] groups@[b]).attrs@ by {
                    assert(g0[a].attrs@ != g0[b].attrs@);
                }
                assert forall|k: int| #![trigger groups@[k]] 0 <= k < g0.len() implies groups@[k].attrs@ == g0[k].attrs@
                    && groups@[k].prefixes@ == (if g0[k].attrs@ == attrs@ {
                    g0[k].prefixes@.push(prefix)
                } else {
                    g0[k].prefixes@
                }) by {
                    if k != i {
                        if k < i {
                            assert(g0[k].attrs@ != g0[i as int].attrs@);
                        } else {
                            assert(g0[i as int].attrs@ != g0[k].attrs@);
                        }
                    }
                }
            }
            return;
        }
        i += 1;
    }
    groups.push(ModifiedGroup { attrs, prefixes: vec![prefix] });
    assert(groups@.last().prefixes@ =~= seq![prefix]);
}

/// Finds the place of attributes that no group has.
fn group_place(groups: &Vec<ModifiedGroup>, attrs: &Attrs) -> (k: usize)
    requires
        groups_ordered(groups@),
        forall|j: int| 0 <= j < groups@.len() ==> (#[trigger] groups@[j]).attrs@ != attrs@,
    ensures
        k <= groups@.len(),
        forall|j: int| 0 <= j < k ==> attrs_before((#[trigger] groups@[j]).attrs@, attrs@),
        forall|j: int| k <= j < groups@.len() ==> attrs_before(attrs@, (#[trigger] groups@[j]).attrs@),
{
    let mut k: usize = 0;
    while k < groups.len()
        invariant
            k <= groups@.len(),
            groups_ordered(groups@),
            forall|j: int| 0 <= j < groups@.len() ==> (#[trigger] groups@[j]).attrs@ != attrs@,
            forall|j: int| 0 <= j < k ==> attrs_before((#[trigger] groups@[j]).attrs@, attrs@),
        decreases groups@.len() - k,
    {
        if attrs_lt(attrs, &groups[k].attrs) {
            proof {
                assert forall|j: int| k <= j < groups@.len() implies attrs_before(
                    attrs@,
                    (#[trigger] groups@[j]).attrs@,
                ) by {
                    if k < j {
                        attrs_order_transitive(attrs@, groups@[k as int].attrs@, groups@[j].attrs@);
                    }
                }
            }
            return k;
        }
        proof {
            attrs_order_total(attrs@, groups@[k as int].attrs@);
        }
        k += 1;
    }
    k
}

/// Puts groups in the order of their attributes.
fn sort_groups(groups: Vec<ModifiedGroup>) -> (r: Vec<ModifiedGroup>)
    requires
        forall|i: int, j: int|
            0 <= i < j < groups@.len() ==> (#[trigger] groups@[i]).attrs@ != (#[trigger] groups@[j]).attrs@,
    ensures
        groups_ordered(r@),
        forall|j: int| 0 <= j < groups@.len() ==> r@.contains(#[trigger] groups@[j]),
        forall|k: int| 0 <= k < r@.len() ==> groups@.contains(#[trigger] r@[k]),
{
    let ghost all = groups@;
    let mut rest = groups;
    let mut r: Vec<ModifiedGroup> = Vec::new();
    while rest.len() > 0
        invariant
            forall|i: int, j: int|
                0 <= i < j < all.len() ==> (#[trigger] all[i]).attrs@ != (#[trigger] all[j]).attrs@,
            rest@.len() <= all.len(),
            rest@ == all.take(rest@.len() as int),
            groups_ordered(r@),
            forall|j: int| rest@.len() <= j < all.len() ==> r@.contains(#[trigger] all[j]),
            forall|k: int| 0 <= k < r@.len() ==> all.skip(rest@.len() as int).contains(#[trigger] r@[k]),
        decreases rest@.len(),
    {
        let ghost m = rest@.len();
        let ghost before = r@;
        match rest.pop() {
            Some(group) => {
                let ghost g = group;
                proof {
                    assert(g == all[m - 1]);
                    assert forall|k: int| 0 <= k < before.len() implies (#[trigger] before[k]).attrs@ != g.attrs@ by {
                        assert(all.skip(m as int).contains(before[k]));
                        let j = all.skip(m as int).index_of(before[k]);
                        assert(all.skip(m as int)[j] == all[m + j]);
                        assert(all[m - 1].attrs@ != all[m + j].attrs@);
                    }
                }
                let k = group_place(&r, &group.attrs);
                r.insert(k, group);
                proof {
                    assert(rest@ =~= all.take(m - 1));
                    assert(r@ =~= before.insert(k as int, g));
                    inserted(before, k as int, g);
                    assert forall|j: int| m - 1 <= j < all.len() implies r@.contains(#[trigger] all[j]) by {
                        if j >= m {
                            assert(before.contains(all[j]));
                        }
                    }
                    assert forall|x: int| 0 <= x < r@.len() implies all.skip(m - 1).contains(#[trigger] r@[x]) by {
                        let t = all.skip(m - 1);
                        if x == k {
                            assert(t[0] == g);
                        } else {
                            let y = if x < k {
                                x
                            } else {
                                x - 1
                            };
                            assert(r@[x] == before[y]);
                            assert(all.skip(m as int).contains(before[y]));
                            let j = all.skip(m as int).index_of(before[y]);
                            assert(t[j + 1] == all.skip(m as int)[j]);
                        }
                    }
                }
            },
            None => {},
        }
    }
    proof {
        assert(all.skip(0) =~= all);
    }
    r
}

/// A group put in its place keeps the order and the other groups.
proof fn inserted(groups: Seq<ModifiedGroup>, k: int, g: ModifiedGroup)
    requires
        0 <= k <= groups.len(),
        groups_ordered(groups),
        forall|j: int| 0 <= j < k ==> attrs_before((#[trigger] groups[j]).attrs@, g.attrs@),
        forall|j: int| k <= j < groups.len() ==> attrs_before(g.attrs@, (#[trigger] groups[j]).attrs@),
    ensures
        groups_ordered(groups.insert(k, g)),
        groups.insert(k, g).contains(g),
        forall|x: ModifiedGroup| groups.contains(x) ==> #[trigger] groups.insert(k, g).contains(x),
{
    let r = groups.insert(k, g);
    assert(r[k] == g);
    assert forall|j: int| 0 <= j < k implies #[trigger] r[j] == groups[j] by {}
    assert forall|j: int| k < j < r.len() implies #[trigger] r[j] == groups[j - 1] by {}
    assert forall|x: ModifiedGroup| groups.contains(x) implies #[trigger] r.contains(x) by {
        let j = groups.index_of(x);
        if j < k {
            assert(r[j] == x);
        } else {
            assert(r[j + 1] == x);
        }
    }
    assert forall|x: int, y: int| 0 <= x < y < r.len() implies attrs_before(
        (#[trigger] r[x]).attrs@,
        (#[trigger] r[y]).attrs@,
    ) by {
        let m = if x < k {
            x
        } else {
            x - 1
        };
        let n = if y < k {
            y
        } else {
            y - 1
        };
        if x != k && y != k {
            assert(r[x] == groups[m] && r[y] == groups[n]);
        } else if x == k {
            assert(r[y] == groups[n]);
        } else {
            assert(r[x] == groups[m]);
        }
    }
}

/// Groups that were only put in order hold the same prefixes.
proof fn groups_rearranged(
    g0: Seq<ModifiedGroup>,
    g: Seq<ModifiedGroup>,
    prefixes: Seq<IpNetwork>,
    outcome: spec_fn(IpNetwork) -> Outcome,
)
    requires
        groups_of(g0, prefixes, outcome),
        groups_ordered(g),
        forall|j: int| 0 <= j < g0.len() ==> g.contains(#[trigger] g0[j]),
        forall|k: int| 0 <= k < g.len() ==> g0.contains(#[trigger] g[k]),
    ensures
        groups_of(g, prefixes, outcome),
{
    assert forall|i: int, j: int| 0 <= i < j < g.len() implies (#[trigger] g[i]).attrs@ != (
    #[trigger] g[j]).attrs@ by {
        assert(attrs_before(g[i].attrs@, g[j].attrs@));
        lex_irreflexive(attrs_code(g[i].attrs@));
    }
    assert forall|i: int| #![trigger g[i]] 0 <= i < g.len() implies {
        &&& g[i].prefixes@.len() > 0
        &&& g[i].prefixes@ == with_outcome(prefixes, outcome, Outcome::Accepted { attrs: g[i].attrs@, modified: true })
    } by {
        assert(g0.contains(g[i]));
        let j = g0.index_of(g[i]);
        assert(g0[j] == g[i]);
    }
    assert forall|k: int| 0 <= k < prefixes.len() implies grouped(g, outcome(#[trigger] prefixes[k])) by {
        assert(grouped(g0, outcome(prefixes[k])));
        if let Outcome::Accepted { attrs, modified: true } = outcome(prefixes[k]) {
            let m = choose|m: int| 0 <= m < g0.len() && (#[trigger] g0[m]).attrs@ == attrs;
            assert(g.contains(g0[m]));
            assert(g[g.index_of(g0[m])].attrs@ == attrs);
        }
    }
}

/// One more prefix adds to those with its own outcome.
proof fn with_outcome_push(
    prefixes: Seq<IpNetwork>,
    x: IpNetwork,
    outcome: spec_fn(IpNetwork) -> Outcome,
    o: Outcome,
)
    ensures
        with_outcome(prefixes.push(x), outcome, o) == (if outcome(x) == o {
            with_outcome(prefixes, outcome, o).push(x)
        } else {
            with_outcome(prefixes, outcome, o)
        }),
{
    reveal(Seq::filter);
    assert(prefixes.push(x).drop_last() =~= prefixes);
}

/// No prefix is left where none has the outcome.
proof fn with_outcome_none(prefixes: Seq<IpNetwork>, outcome: spec_fn(IpNetwork) -> Outcome, o: Outcome)
    requires
        forall|i: int| 0 <= i < prefixes.len() ==> outcome(#[trigger] prefixes[i]) != o,
    ensures
        with_outcome(prefixes, outcome, o) == Seq::<IpNetwork>::empty(),
    decreases prefixes.len(),
{
    reveal(Seq::filter);
    if prefixes.len() > 0 {
        with_outcome_none(prefixes.drop_last(), outcome, o);
        assert(outcome(prefixes.last()) != o);
    }
}

/// Applies neighbor import or export routing policies to a list of prefixes
/// sharing the same attributes. Prefixes with the same result are kept grouped
/// so their shared attribute set is carried only once.
///
/// The groups of modified routes stand in the order of their attributes.
pub fn neighbor_apply(
    policy_type: PolicyType,
    afi_safi: AfiSafi,
    prefixes: &Vec<IpNetwork>,
    rpinfo: RoutePolicyInfo,
    policies: &Vec<Arc<Policy>>,
    match_sets: &MatchSets,
    default_policy: DefaultPolicyType,
) -> (routes: Vec<PolicyGroup>)
    requires
        forall|i: int|
            0 <= i < prefixes@.len() ==> chain_safe(
                PolicyInput {
                    policy_type,
                    afi_safi,
                    prefix: #[trigger] prefixes@[i],
                    rpinfo: rpinfo@,
                    sets: *match_sets,
                },
                policies@,
            ),
    ensures
        ({
            let outcome = |p: IpNetwork|
                prefix_outcome(policy_type, afi_safi, rpinfo@, policies@, *match_sets, default_policy, p);
            exists|groups: Seq<ModifiedGroup>|
                #[trigger] groups_of(groups, prefixes@, outcome) && groups_ordered(groups) && message_of(
                    routes@,
                    groups,
                    rpinfo@,
                    with_outcome(
                        prefixes@,
                        outcome,
                        Outcome::Accepted { attrs: rpinfo@.attrs, modified: false },
                    ),
                    with_outcome(prefixes@, outcome, Outcome::Rejected),
                )
        }),
{
    let ghost outcome = |p: IpNetwork|
        prefix_outcome(policy_type, afi_safi, rpinfo@, policies@, *match_sets, default_policy, p);
    let ghost plain = Outcome::Accepted { attrs: rpinfo@.attrs, modified: false };
    let mut accepted: Vec<IpNetwork> = Vec::new();
    let mut rejected: Vec<IpNetwork> = Vec::new();
    let mut modified: Vec<ModifiedGroup> = Vec::new();
    let mut i: usize = 0;
    proof {
        let none = prefixes@.take(0);
        with_outcome_none(none, outcome, plain);
        with_outcome_none(none, outcome, Outcome::Rejected);
        assert(accepted@ =~= with_outcome(none, outcome, plain));
        assert(rejected@ =~= with_outcome(none, outcome, Outcome::Rejected));
    }
    while i < prefixes.len()
        invariant
            i <= prefixes@.len(),
            forall|i: int|
                0 <= i < prefixes@.len() ==> chain_safe(
                    PolicyInput {
                        policy_type,
                        afi_safi,
                        prefix: #[trigger] prefixes@[i],
                        rpinfo: rpinfo@,
                        sets: *match_sets,
                    },
                    policies@,
                ),
            plain == (Outcome::Accepted { attrs: rpinfo@.attrs, modified: false }),
            outcome == (|p: IpNetwork|
                prefix_outcome(policy_type, afi_safi, rpinfo@, policies@, *match_sets, default_policy, p)),
            accepted@ == with_outcome(prefixes@.take(i as int), outcome, plain),
            rejected@ == with_outcome(prefixes@.take(i as int), outcome, Outcome::Rejected),
            groups_of(modified@, prefixes@.take(i as int), outcome),
        decreases prefixes@.len() - i,
    {
        let prefix = prefixes[i];
        let ghost done = prefixes@.take(i as int);
        let ghost next = prefixes@.take(i + 1);
        proof {
            assert(next =~= done.push(prefix));
            with_outcome_push(done, prefix, outcome, plain);
            with_outcome_push(done, prefix, outcome, Outcome::Rejected);
            unmodified_keeps_attrs(
                PolicyInput { policy_type, afi_safi, prefix, rpinfo: rpinfo@, sets: *match_sets },
                chain_stmts(policies@),
                default_policy,
                rpinfo@.attrs,
                false,
                0,
            );
            assert(outcome(prefix) == prefix_outcome(
                policy_type,
                afi_safi,
                rpinfo@,
                policies@,
                *match_sets,
                default_policy,
                prefix,
            ));
        }
        let ghost g0 = modified@;
        match process_policies(policy_type, afi_safi, prefix, &rpinfo, policies, match_sets, default_policy) {
            PolicyResult::Accept(a) => {
                if a.modified {
                    add_to_group(&mut modified, a.rpinfo.attrs, prefix);
                } else {
                    accepted.push(prefix);
                }
            },
            PolicyResult::Reject => {
                rejected.push(prefix);
            },
        }
        proof {
            groups_extended(g0, modified@, done, prefix, outcome);
        }
        i += 1;
    }
    assert(prefixes@.take(i as int) =~= prefixes@);
    let ghost g0 = modified@;
    let modified = sort_groups(modified);
    let ghost groups = modified@;
    proof {
        groups_rearranged(g0, groups, prefixes@, outcome);
    }
    let mut results: Vec<PolicyGroup> = Vec::new();

    // Routes accepted with modified attributes, one group per distinct set.
    let mut k: usize = 0;
    while k < modified.len()
        invariant
            k <= modified@.len(),
            groups == modified@,
            results@.len() == k,
            forall|j: int|
                #![trigger results@[j]]
                0 <= j < k ==> (results@[j].result matches PolicyResult::Accept(x) && x@ == seen(
                    rpinfo@,
                    groups[j].attrs@,
                )) && results@[j].prefixes@ == groups[j].prefixes@,
        decreases modified@.len() - k,
    {
        let info = RoutePolicyInfo::new(
            rpinfo.origin,
            rpinfo.route_type,
            rpinfo.tag,
            rpinfo.opaque_attrs,
            rpinfo.igp_metric,
            modified[k].attrs.dup(),
        );
        results.push(
            PolicyGroup {
                result: PolicyResult::Accept(info),
                prefixes: crate::bgp::af::copy_nets(&modified[k].prefixes),
            },
        );
        k += 1;
    }

    // Routes accepted with unmodified attributes.
    if accepted.len() > 0 {
        results.push(PolicyGroup { result: PolicyResult::Accept(rpinfo), prefixes: accepted });
    }

    // Rejected routes.
    if rejected.len() > 0 {
        results.push(PolicyGroup { result: PolicyResult::Reject, prefixes: rejected });
    }
    assert(groups_of(groups, prefixes@, outcome));
    results
}

/// What one more prefix does to the groups of modified routes.
proof fn groups_extended(
    g0: Seq<ModifiedGroup>,
    g: Seq<ModifiedGroup>,
    done: Seq<IpNetwork>,
    prefix: IpNetwork,
    outcome: spec_fn(IpNetwork) -> Outcome,
)
    requires
        groups_of(g0, done, outcome),
        forall|i: int, j: int| 0 <= i < j < g.len() ==> (#[trigger] g[i]).attrs@ != (#[trigger] g[j]).attrs@,
        match outcome(prefix) {
            Outcome::Accepted { attrs, modified: true } => {
                &&& g0.len() <= g.len() <= g0.len() + 1
                &&& forall|i: int|
                    #![trigger g[i]]
                    0 <= i < g0.len() ==> g[i].attrs@ == g0[i].attrs@ && g[i].prefixes@ == (if g0[i].attrs@ == attrs {
                        g0[i].prefixes@.push(prefix)
                    } else {
                        g0[i].prefixes@
                    })
                &&& g.len() == g0.len() + 1 ==> {
                    &&& g.last().attrs@ == attrs
                    &&& g.last().prefixes@ == seq![prefix]
                    &&& forall|i: int| 0 <= i < g0.len() ==> (#[trigger] g0[i]).attrs@ != attrs
                }
                &&& g.len() == g0.len() ==> exists|i: int| 0 <= i < g0.len() && (#[trigger] g0[i]).attrs@ == attrs
            },
            _ => g == g0,
        },
    ensures
        groups_of(g, done.push(prefix), outcome),
{
    let next = done.push(prefix);
    assert forall|i: int| #![trigger g[i]] 0 <= i < g.len() implies {
        &&& g[i].prefixes@.len() > 0
        &&& g[i].prefixes@ == with_outcome(next, outcome, Outcome::Accepted { attrs: g[i].attrs@, modified: true })
    } by {
        let o = Outcome::Accepted { attrs: g[i].attrs@, modified: true };
        with_outcome_push(done, prefix, outcome, o);
        if i < g0.len() {
            assert(g0[i].prefixes@.len() > 0);
            assert(g[i].attrs@ == g0[i].attrs@);
        } else {
            // A new group: no earlier prefix had these attributes.
            assert forall|k: int| 0 <= k < done.len() implies outcome(#[trigger] done[k]) != o by {
                if outcome(done[k]) == o {
                    assert(grouped(g0, outcome(done[k])));
                    let m = choose|m: int| 0 <= m < g0.len() && (#[trigger] g0[m]).attrs@ == g[i].attrs@;
                    assert(g0[m].attrs@ == g[i].attrs@);
                }
            }
            with_outcome_none(done, outcome, o);
            assert(Seq::<IpNetwork>::empty().push(prefix) =~= seq![prefix]);
        }
    }
    assert forall|k: int| 0 <= k < next.len() implies grouped(g, outcome(#[trigger] next[k])) by {
        if let Outcome::Accepted { attrs, modified: true } = outcome(next[k]) {
            if k < done.len() {
                assert(done[k] == next[k]);
                assert(grouped(g0, outcome(done[k])));
                let m = choose|m: int| 0 <= m < g0.len() && (#[trigger] g0[m]).attrs@ == attrs;
                assert(g[m].attrs@ == attrs);
            } else if g.len() == g0.len() {
                let m = choose|m: int| 0 <= m < g0.len() && (#[trigger] g0[m]).attrs@ == attrs;
                assert(g[m].attrs@ == attrs);
            } else {
                assert(g[g0.len() as int].attrs@ == attrs);
            }
        }
    }
}

} // verus!
