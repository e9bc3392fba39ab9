//! Path attributes.

use vstd::prelude::*;

use crate::collections::{Key, OrdSet};
use crate::ip::{IpAddr, Ipv6Addr};

verus! {

#[derive(Clone, Copy, Debug, PartialEq, Eq, Structural)]
pub enum Origin {
    Igp,
    Egp,
    Incomplete,
}

#[derive(Clone, Copy, Debug, PartialEq, Eq, Structural)]
pub enum AsPathSegmentType {
    AsSet,
    AsSequence,
}

#[derive(Debug)]
pub struct AsPathSegment {
    pub seg_type: AsPathSegmentType,
    pub members: Vec<u32>,
}

#[derive(Debug)]
pub struct AsPath {
    pub segments: Vec<AsPathSegment>,
}

/// The attributes that every route carries.
#[derive(Debug)]
pub struct BaseAttrs {
    pub origin: Origin,
    pub as_path: AsPath,
    pub nexthop: Option<IpAddr>,
    pub ll_nexthop: Option<Ipv6Addr>,
    pub med: Option<u32>,
    pub local_pref: Option<u32>,
}

/// A community of the kind that an IPv6 address specific extended community
/// attribute carries.
#[derive(Clone, Copy, Debug, PartialEq, Eq, Structural)]
pub struct Extv6Comm {
    pub high: u32,
    pub low: u128,
}

/// A list of communities, each of which occurs once.
pub struct CommList<T: Key>(pub OrdSet<T>);

pub type Comms = CommList<u32>;

pub type ExtComms = CommList<u64>;

pub type Extv6Comms = CommList<Extv6Comm>;

pub type LargeComms = CommList<u128>;

/// An attribute of a type that isn't recognized.
#[derive(Debug)]
pub struct UnknownAttr {
    pub attr_type: u8,
    pub flags: u8,
    pub value: Vec<u8>,
}

/// Unknown attributes carried along with a route.
#[derive(Debug)]
pub struct UnknownAttrs {
    pub list: Vec<UnknownAttr>,
}

/// The path attributes of a route.
pub struct Attrs {
    pub base: BaseAttrs,
    pub comm: Option<Comms>,
    pub ext_comm: Option<ExtComms>,
    pub extv6_comm: Option<Extv6Comms>,
    pub large_comm: Option<LargeComms>,
    pub unknown: Option<UnknownAttrs>,
}

// ===== views =====

#[verifier::ext_equal]
pub struct SegmentView {
    pub seg_type: AsPathSegmentType,
    pub members: Seq<u32>,
}

#[verifier::ext_equal]
pub struct BaseAttrsView {
    pub origin: Origin,
    pub as_path: Seq<SegmentView>,
    pub nexthop: Option<IpAddr>,
    pub ll_nexthop: Option<Ipv6Addr>,
    pub med: Option<u32>,
    pub local_pref: Option<u32>,
}

#[verifier::ext_equal]
pub struct UnknownAttrView {
    pub attr_type: u8,
    pub flags: u8,
    pub value: Seq<u8>,
}

#[verifier::ext_equal]
pub struct AttrsView {
    pub base: BaseAttrsView,
    pub comm: Option<Set<u32>>,
    pub ext_comm: Option<Set<u64>>,
    pub extv6_comm: Option<Set<Extv6Comm>>,
    pub large_comm: Option<Set<u128>>,
    pub unknown: Option<Seq<UnknownAttrView>>,
}

impl View for AsPathSegment {
    type V = SegmentView;

    open spec fn view(&self) -> SegmentView {
        SegmentView { seg_type: self.seg_type, members: self.members@ }
    }
}

impl View for AsPath {
    type V = Seq<SegmentView>;

    open spec fn view(&self) -> Seq<SegmentView> {
        Seq::new(self.segments@.len(), |i: int| self.segments@[i]@)
    }
}

impl View for BaseAttrs {
    type V = BaseAttrsView;

    open spec fn view(&self) -> BaseAttrsView {
        BaseAttrsView {
            origin: self.origin,
            as_path: self.as_path@,
            nexthop: self.nexthop,
            ll_nexthop: self.ll_nexthop,
            med: self.med,
            local_pref: self.local_pref,
        }
    }
}

impl View for Extv6Comm {
    type V = Extv6Comm;

    open spec fn view(&self) -> Extv6Comm {
        *self
    }
}

impl<T: Key> View for CommList<T> {
    type V = Set<T::V>;

    open spec fn view(&self) -> Set<T::V> {
        self.0@
    }
}

impl View for UnknownAttr {
    type V = UnknownAttrView;

    open spec fn view(&self) -> UnknownAttrView {
        UnknownAttrView { attr_type: self.attr_type, flags: self.flags, value: self.value@ }
    }
}

impl View for UnknownAttrs {
    type V = Seq<UnknownAttrView>;

    open spec fn view(&self) -> Seq<UnknownAttrView> {
        Seq::new(self.list@.len(), |i: int| self.list@[i]@)
    }
}

/// The view of an optional value.
pub open spec fn opt_view<T: View>(o: Option<T>) -> Option<T::V> {
    match o {
        Some(v) => Some(v@),
        None => None,
    }
}

impl View for Attrs {
    type V = AttrsView;

    open spec fn view(&self) -> AttrsView {
        AttrsView {
            base: self.base@,
            comm: opt_view(self.comm),
            ext_comm: opt_view(self.ext_comm),
            extv6_comm: opt_view(self.extv6_comm),
            large_comm: opt_view(self.large_comm),
            unknown: opt_view(self.unknown),
        }
    }
}

// ===== values that can be compared and copied =====

/// A part of the attributes that can be shared between routes.
pub trait AttrValue: View + Sized {
    fn same(&self, other: &Self) -> (b: bool)
        ensures
            b == (self@ == other@),
    ;

    fn dup(&self) -> (r: Self)
        ensures
            r@ == self@,
    ;
}

fn same_u32s(a: &Vec<u32>, b: &Vec<u32>) -> (r: bool)
    ensures
        r == (a@ == b@),
{
    if a.len() != b.len() {
        return false;
    }
    let mut i: usize = 0;
    while i < a.len()
        invariant
            i <= a@.len(),
            a@.len() == b@.len(),
            forall|j: int| 0 <= j < i ==> a@[j] == b@[j],
        decreases a@.len() - i,
    {
        if a[i] != b[i] {
            return false;
        }
        i += 1;
    }
    assert(a@ =~= b@);
    true
}

fn same_u8s(a: &Vec<u8>, b: &Vec<u8>) -> (r: bool)
    ensures
        r == (a@ == b@),
{
    if a.len() != b.len() {
        return false;
    }
    let mut i: usize = 0;
    while i < a.len()
        invariant
            i <= a@.len(),
            a@.len() == b@.len(),
            forall|j: int| 0 <= j < i ==> a@[j] == b@[j],
        decreases a@.len() - i,
    {
        if a[i] != b[i] {
            return false;
        }
        i += 1;
    }
    assert(a@ =~= b@);
    true
}

fn dup_u32s(a: &Vec<u32>) -> (r: Vec<u32>)
    ensures
        r@ == a@,
{
    let mut r: Vec<u32> = Vec::new();
    let mut i: usize = 0;
    while i < a.len()
        invariant
            i <= a@.len(),
            r@ == a@.take(i as int),
        decreases a@.len() - i,
    {
        r.push(a[i]);
        i += 1;
        assert(r@ =~= a@.take(i as int));
    }
    assert(r@ =~= a@);
    r
}

fn dup_u8s(a: &Vec<u8>) -> (r: Vec<u8>)
    ensures
        r@ == a@,
{
    let mut r: Vec<u8> = Vec::new();
    let mut i: usize = 0;
    while i < a.len()
        invariant
            i <= a@.len(),
            r@ == a@.take(i as int),
        decreases a@.len() - i,
    {
        r.push(a[i]);
        i += 1;
        assert(r@ =~= a@.take(i as int));
    }
    assert(r@ =~= a@);
    r
}

impl AttrValue for AsPathSegment {
    fn same(&self, other: &Self) -> bool {
        self.seg_type == other.seg_type && same_u32s(&self.members, &other.members)
    }

    fn dup(&self) -> AsPathSegment {
        AsPathSegment { seg_type: self.seg_type, members: dup_u32s(&self.members) }
    }
}

impl AttrValue for AsPath {
    fn same(&self, other: &Self) -> bool {
        if self.segments.len() != other.segments.len() {
            assert(self@.len() != other@.len());
            return false;
        }
        let mut i: usize = 0;
        while i < self.segments.len()
            invariant
                i <= self.segments@.len(),
                self.segments@.len() == other.segments@.len(),
                forall|j: int| 0 <= j < i ==> self@[j] == other@[j],
            decreases self.segments@.len() - i,
        {
            if !self.segments[i].same(&other.segments[i]) {
                assert(self@[i as int] != other@[i as int]);
                return false;
            }
            i += 1;
        }
        assert(self@ =~= other@);
        true
    }

    fn dup(&self) -> AsPath {
        let mut segments: Vec<AsPathSegment> = Vec::new();
        let mut i: usize = 0;
        while i < self.segments.len()
            invariant
                i <= self.segments@.len(),
                segments@.len() == i,
                forall|j: int| 0 <= j < i ==> (#[trigger] segments@[j])@ == self@[j],
            decreases self.segments@.len() - i,
        {
            segments.push(self.segments[i].dup());
            i += 1;
        }
        let r = AsPath { segments };
        assert(r@ =~= self@);
        r
    }
}

impl AttrValue for BaseAttrs {
    fn same(&self, other: &Self) -> bool {
        self.origin == other.origin && self.as_path.same(&other.as_path) && self.nexthop == other.nexthop
            && self.ll_nexthop == other.ll_nexthop && self.med == other.med && self.local_pref == other.local_pref
    }

    fn dup(&self) -> BaseAttrs {
        BaseAttrs {
            origin: self.origin,
            as_path: self.as_path.dup(),
            nexthop: self.nexthop,
            ll_nexthop: self.ll_nexthop,
            med: self.med,
            local_pref: self.local_pref,
        }
    }
}

impl Key for Extv6Comm {
    open spec fn code(v: Extv6Comm) -> Seq<u128> {
        seq![v.high as u128, v.low]
    }

    proof fn code_injective(a: Extv6Comm, b: Extv6Comm) {
        assert(Self::code(a)[0] == Self::code(b)[0]);
        assert(Self::code(a)[1] == Self::code(b)[1]);
    }

    fn to_code(&self) -> Vec<u128> {
        vec![self.high as u128, self.low]
    }

    fn copy_key(&self) -> Extv6Comm {
        *self
    }
}

impl<T: Key> AttrValue for CommList<T> {
    fn same(&self, other: &Self) -> bool {
        self.0.same(&other.0)
    }

    fn dup(&self) -> CommList<T> {
        CommList(self.0.copy())
    }
}

impl AttrValue for UnknownAttr {
    fn same(&self, other: &Self) -> bool {
        self.attr_type == other.attr_type && self.flags == other.flags && same_u8s(&self.value, &other.value)
    }

    fn dup(&self) -> UnknownAttr {
        UnknownAttr { attr_type: self.attr_type, flags: self.flags, value: dup_u8s(&self.value) }
    }
}

impl AttrValue for UnknownAttrs {
    fn same(&self, other: &Self) -> bool {
        if self.list.len() != other.list.len() {
            assert(self@.len() != other@.len());
            return false;
        }
        let mut i: usize = 0;
        while i < self.list.len()
            invariant
                i <= self.list@.len(),
                self.list@.len() == other.list@.len(),
                forall|j: int| 0 <= j < i ==> self@[j] == other@[j],
            decreases self.list@.len() - i,
        {
            if !self.list[i].same(&other.list[i]) {
                assert(self@[i as int] != other@[i as int]);
                return false;
            }
            i += 1;
        }
        assert(self@ =~= other@);
        true
    }

    fn dup(&self) -> UnknownAttrs {
        let mut list: Vec<UnknownAttr> = Vec::new();
        let mut i: usize = 0;
        while i < self.list.len()
            invariant
                i <= self.list@.len(),
                list@.len() == i,
                forall|j: int| 0 <= j < i ==> (#[trigger] list@[j])@ == self@[j],
            decreases self.list@.len() - i,
        {
            list.push(self.list[i].dup());
            i += 1;
        }
        let r = UnknownAttrs { list };
        assert(r@ =~= self@);
        r
    }
}

pub fn same_opt<T: AttrValue>(a: &Option<T>, b: &Option<T>) -> (r: bool)
    ensures
        r == (opt_view(*a) == opt_view(*b)),
{
    match (a, b) {
        (None, None) => true,
        (Some(x), Some(y)) => x.same(y),
        _ => false,
    }
}

pub fn dup_opt<T: AttrValue>(a: &Option<T>) -> (r: Option<T>)
    ensures
        opt_view(r) == opt_view(*a),
{
    match a {
        Some(x) => Some(x.dup()),
        None => None,
    }
}

impl AttrValue for Attrs {
    fn same(&self, other: &Self) -> bool {
        self.base.same(&other.base) && same_opt(&self.comm, &other.comm) && same_opt(&self.ext_comm, &other.ext_comm)
            && same_opt(&self.extv6_comm, &other.extv6_comm) && same_opt(&self.large_comm, &other.large_comm)
            && same_opt(&self.unknown, &other.unknown)
    }

    fn dup(&self) -> Attrs {
        Attrs {
            base: self.base.dup(),
            comm: dup_opt(&self.comm),
            ext_comm: dup_opt(&self.ext_comm),
            extv6_comm: dup_opt(&self.extv6_comm),
            large_comm: dup_opt(&self.large_comm),
            unknown: dup_opt(&self.unknown),
        }
    }
}

impl Default for BaseAttrs {
    fn default() -> (r: BaseAttrs)
        ensures
            r@ == (BaseAttrsView {
                origin: Origin::Incomplete,
                as_path: Seq::empty(),
                nexthop: None,
                ll_nexthop: None,
                med: None,
                local_pref: None,
            }),
    {
        let as_path = AsPath { segments: Vec::new() };
        assert(as_path@ =~= Seq::empty());
        BaseAttrs {
            origin: Origin::Incomplete,
            as_path,
            nexthop: None,
            ll_nexthop: None,
            med: None,
            local_pref: None,
        }
    }
}

impl Default for Attrs {
    fn default() -> (r: Attrs)
        ensures
            r.base@.med is None,
            r.base@.as_path == Seq::<SegmentView>::empty(),
            r.base@.nexthop is None,
            r.base@.ll_nexthop is None,
            r.base@.local_pref is None,
            r.base@.origin == Origin::Incomplete,
            r.comm is None,
            r.ext_comm is None,
            r.extv6_comm is None,
            r.large_comm is None,
            r.unknown is None,
    {
        Attrs {
            base: BaseAttrs::default(),
            comm: None,
            ext_comm: None,
            extv6_comm: None,
            large_comm: None,
            unknown: None,
        }
    }
}

// ===== impl Origin =====

impl Origin {
    pub open spec fn rank(self) -> int {
        match self {
            Origin::Igp => 0,
            Origin::Egp => 1,
            Origin::Incomplete => 2,
        }
    }

    /// Whether an origin comes before another: IGP, then EGP, then incomplete.
    pub fn is_before(&self, other: &Origin) -> (b: bool)
        ensures
            b == (self.rank() < other.rank()),
    {
        match (self, other) {
            (Origin::Igp, Origin::Igp) => false,
            (Origin::Igp, _) => true,
            (Origin::Egp, Origin::Incomplete) => true,
            _ => false,
        }
    }
}

// ===== impl AsPath =====

/// The largest number of members of an AS path segment.
pub const AS_PATH_SEG_MAX_LEN: usize = 255;

/// The number of hops that a segment counts for: a set is one hop.
pub open spec fn segment_hops(seg: SegmentView) -> nat {
    match seg.seg_type {
        AsPathSegmentType::AsSet => 1,
        AsPathSegmentType::AsSequence => seg.members.len(),
    }
}

/// The number of hops of an AS path.
pub open spec fn path_hops(path: Seq<SegmentView>) -> nat
    decreases path.len(),
{
    if path.len() == 0 {
        0
    } else {
        path_hops(path.drop_last()) + segment_hops(path.last())
    }
}

/// The number of hops of an AS path, as far as it can be counted.
pub open spec fn path_length(path: Seq<SegmentView>) -> u32 {
    if path_hops(path) <= u32::MAX {
        path_hops(path) as u32
    } else {
        u32::MAX
    }
}

/// The leftmost AS number of a path.
pub open spec fn path_first(path: Seq<SegmentView>) -> Option<u32> {
    if path.len() > 0 && path[0].members.len() > 0 {
        Some(path[0].members[0])
    } else {
        None
    }
}

/// Whether an AS number occurs in a path.
pub open spec fn path_contains(path: Seq<SegmentView>, asn: u32) -> bool {
    exists|i: int| 0 <= i < path.len() && (#[trigger] path[i]).members.contains(asn)
}

/// The path with an AS number prepended.
pub open spec fn path_prepend(path: Seq<SegmentView>, asn: u32) -> Seq<SegmentView> {
    if path.len() > 0 && path[0].seg_type == AsPathSegmentType::AsSequence && path[0].members.len()
        < AS_PATH_SEG_MAX_LEN {
        path.update(
            0,
            SegmentView { seg_type: AsPathSegmentType::AsSequence, members: seq![asn] + path[0].members },
        )
    } else {
        seq![SegmentView { seg_type: AsPathSegmentType::AsSequence, members: seq![asn] }] + path
    }
}

/// The path with an AS number prepended a number of times.
pub open spec fn path_prepend_n(path: Seq<SegmentView>, asn: u32, n: nat) -> Seq<SegmentView>
    decreases n,
{
    if n == 0 {
        path
    } else {
        path_prepend(path_prepend_n(path, asn, (n - 1) as nat), asn)
    }
}

/// The path with every occurrence of an AS number replaced by another.
pub open spec fn path_replace(path: Seq<SegmentView>, old_asn: u32, new_asn: u32) -> Seq<SegmentView> {
    path.map_values(
        |seg: SegmentView|
            SegmentView {
                seg_type: seg.seg_type,
                members: seg.members.map_values(|asn: u32| if asn == old_asn { new_asn } else { asn }),
            },
    )
}

impl AsPath {
    pub fn path_length(&self) -> (n: u32)
        ensures
            n == path_length(self@),
    {
        let mut n: u32 = 0;
        let mut i: usize = 0;
        while i < self.segments.len()
            invariant
                i <= self.segments@.len(),
                n == path_length(self@.take(i as int)),
            decreases self.segments@.len() - i,
        {
            let hops: usize = match self.segments[i].seg_type {
                AsPathSegmentType::AsSet => 1,
                AsPathSegmentType::AsSequence => self.segments[i].members.len(),
            };
            let hops: u32 = if hops > 0xffff_ffff {
                u32::MAX
            } else {
                hops as u32
            };
            n = n.saturating_add(hops);
            proof {
                let path = self@;
                assert(path.take(i + 1).drop_last() =~= path.take(i as int));
                assert(path.take(i + 1).last() == path[i as int]);
            }
            i += 1;
        }
        assert(self@.take(i as int) =~= self@);
        n
    }

    pub fn first(&self) -> (r: Option<u32>)
        ensures
            r == path_first(self@),
    {
        if self.segments.len() > 0 && self.segments[0].members.len() > 0 {
            Some(self.segments[0].members[0])
        } else {
            None
        }
    }

    pub fn contains(&self, asn: u32) -> (b: bool)
        ensures
            b == path_contains(self@, asn),
    {
        let mut i: usize = 0;
        while i < self.segments.len()
            invariant
                i <= self.segments@.len(),
                forall|j: int| 0 <= j < i ==> !(#[trigger] self@[j]).members.contains(asn),
            decreases self.segments@.len() - i,
        {
            let seg = &self.segments[i];
            let mut k: usize = 0;
            while k < seg.members.len()
                invariant
                    i < self.segments@.len(),
                    *seg == self.segments@[i as int],
                    k <= seg.members@.len(),
                    forall|j: int| 0 <= j < k ==> seg.members@[j] != asn,
                decreases seg.members@.len() - k,
            {
                if seg.members[k] == asn {
                    assert(self@[i as int].members.contains(asn));
                    return true;
                }
                k += 1;
            }
            assert(!self@[i as int].members.contains(asn));
            i += 1;
        }
        false
    }

    pub fn prepend(&mut self, asn: u32)
        ensures
            final(self)@ == path_prepend(old(self)@, asn),
    {
        let ghost path = self@;
        if self.segments.len() > 0 && self.segments[0].seg_type == AsPathSegmentType::AsSequence
            && self.segments[0].members.len() < AS_PATH_SEG_MAX_LEN {
            self.segments[0].members.insert(0, asn);
            assert(self@[0].members =~= seq![asn] + path[0].members);
            assert(self@ =~= path_prepend(path, asn));
        } else {
            self.segments.insert(
                0,
                AsPathSegment { seg_type: AsPathSegmentType::AsSequence, members: vec![asn] },
            );
            assert(self@[0].members =~= seq![asn]);
            assert(self@ =~= path_prepend(path, asn));
        }
    }

    /// Replaces every occurrence of an AS number.
    pub fn replace(&mut self, old_asn: u32, new_asn: u32)
        ensures
            final(self)@ == path_replace(old(self)@, old_asn, new_asn),
    {
        let ghost path = self@;
        let ghost goal = path_replace(path, old_asn, new_asn);
        let mut i: usize = 0;
        while i < self.segments.len()
            invariant
                i <= self.segments@.len(),
                self.segments@.len() == path.len(),
                goal == path_replace(path, old_asn, new_asn),
                forall|j: int| 0 <= j < i ==> self@[j] == goal[j],
                forall|j: int| i <= j < path.len() ==> self@[j] == path[j],
            decreases self.segments@.len() - i,
        {
            let ghost before = self@;
            let mut members: Vec<u32> = Vec::new();
            let mut k: usize = 0;
            while k < self.segments[i].members.len()
                invariant
                    i < self.segments@.len(),
                    k <= self.segments@[i as int].members@.len(),
                    members@.len() == k,
                    forall|j: int|
                        0 <= j < k ==> members@[j] == (if self.segments@[i as int].members@[j] == old_asn {
                            new_asn
                        } else {
                            self.segments@[i as int].members@[j]
                        }),
                decreases self.segments@[i as int].members@.len() - k,
            {
                let asn = self.segments[i].members[k];
                members.push(
                    if asn == old_asn {
                        new_asn
                    } else {
                        asn
                    },
                );
                k += 1;
            }
            self.segments[i].members = members;
            proof {
                assert(self@[i as int].members =~= goal[i as int].members);
                assert forall|j: int| 0 <= j < path.len() && j != i implies self@[j] == before[j] by {}
            }
            i += 1;
        }
        assert(self@ =~= goal);
    }
}

} // verus!
