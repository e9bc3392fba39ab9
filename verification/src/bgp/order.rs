//! The order of path attributes.
//!
//! Attributes are compared field by field, in the order in which the fields are
//! declared. A missing value comes before any other, and a list before those that
//! it is the beginning of.

use vstd::prelude::*;

use crate::bgp::attribute::{
    AsPathSegmentType, Attrs, AttrsView, BaseAttrs, CommList, Extv6Comm, Origin, SegmentView, UnknownAttr,
    UnknownAttrView,
};
use crate::collections::{code_lt, lex_irreflexive, lex_lt, lex_total, lex_transitive, Key};
use crate::ip::IpAddr;

verus! {

// ===== sets =====

/// Whether the items stand in ascending order.
pub open spec fn ascending_items<T: Key>(s: Seq<T::V>) -> bool {
    forall|i: int, j: int|
        0 <= i < j < s.len() ==> lex_lt(#[trigger] T::code(s[i]), #[trigger] T::code(s[j]))
}

/// The elements of a set, in ascending order.
pub open spec fn sorted<T: Key>(set: Set<T::V>) -> Seq<T::V> {
    choose|s: Seq<T::V>| #[trigger] s.to_set() == set && ascending_items::<T>(s)
}

/// There is one way to put a set in ascending order.
proof fn sorted_unique<T: Key>(a: Seq<T::V>, b: Seq<T::V>)
    requires
        ascending_items::<T>(a),
        ascending_items::<T>(b),
        a.to_set() == b.to_set(),
    ensures
        a == b,
    decreases a.len(),
{
    if a.len() == 0 {
        if b.len() > 0 {
            assert(b.to_set().contains(b[0]));
            assert(a.contains(b[0]));
        }
        assert(a =~= b);
    } else {
        assert(a.to_set().contains(a[0]));
        assert(b.contains(a[0]));
        let (m, n) = (a.len() - 1, b.len() - 1);
        let (x, y) = (a[m], b[n]);
        assert(a.to_set().contains(x) && b.to_set().contains(y));
        assert(b.contains(x) && a.contains(y));
        let j = choose|j: int| 0 <= j < b.len() && b[j] == x;
        let i = choose|i: int| 0 <= i < a.len() && a[i] == y;
        if x != y {
            assert(lex_lt(T::code(b[j]), T::code(b[n])));
            assert(lex_lt(T::code(a[i]), T::code(a[m])));
            lex_transitive(T::code(x), T::code(y), T::code(x));
            lex_irreflexive(T::code(x));
        }
        let (p, q) = (a.drop_last(), b.drop_last());
        assert forall|i: int, j: int| 0 <= i < j < p.len() implies lex_lt(
            #[trigger] T::code(p[i]),
            #[trigger] T::code(p[j]),
        ) by {
            assert(lex_lt(T::code(a[i]), T::code(a[j])));
        }
        assert forall|i: int, j: int| 0 <= i < j < q.len() implies lex_lt(
            #[trigger] T::code(q[i]),
            #[trigger] T::code(q[j]),
        ) by {
            assert(lex_lt(T::code(b[i]), T::code(b[j])));
        }
        assert(p.to_set() =~= q.to_set()) by {
            assert forall|z: T::V| p.contains(z) == q.contains(z) by {
                if p.contains(z) {
                    let k = choose|k: int| 0 <= k < p.len() && p[k] == z;
                    assert(a[k] == z);
                    assert(a.to_set().contains(z));
                    assert(b.contains(z));
                    let l = choose|l: int| 0 <= l < b.len() && b[l] == z;
                    if l == n {
                        assert(lex_lt(T::code(a[k]), T::code(a[m])));
                        lex_irreflexive(T::code(x));
                    }
                    assert(q[l] == z);
                }
                if q.contains(z) {
                    let k = choose|k: int| 0 <= k < q.len() && q[k] == z;
                    assert(b[k] == z);
                    assert(b.to_set().contains(z));
                    assert(a.contains(z));
                    let l = choose|l: int| 0 <= l < a.len() && a[l] == z;
                    if l == m {
                        assert(lex_lt(T::code(b[k]), T::code(b[n])));
                        lex_irreflexive(T::code(y));
                    }
                    assert(p[l] == z);
                }
            }
        }
        sorted_unique::<T>(p, q);
        assert(a =~= p.push(x));
        assert(b =~= q.push(y));
    }
}

// ===== codes =====

/// The numbers by which lists are compared: each item after a one, and a zero at
/// the end.
pub open spec fn items_code<T: Key>(s: Seq<T::V>) -> Seq<u128>
    decreases s.len(),
{
    if s.len() == 0 {
        seq![0u128]
    } else {
        seq![1u128] + T::code(s[0]) + items_code::<T>(s.skip(1))
    }
}

pub open spec fn segment_rank(t: AsPathSegmentType) -> u128 {
    match t {
        AsPathSegmentType::AsSet => 0,
        AsPathSegmentType::AsSequence => 1,
    }
}

pub open spec fn path_code(s: Seq<SegmentView>) -> Seq<u128>
    decreases s.len(),
{
    if s.len() == 0 {
        seq![0u128]
    } else {
        seq![1u128, segment_rank(s[0].seg_type)] + items_code::<u32>(s[0].members) + path_code(s.skip(1))
    }
}

pub open spec fn unknown_code(s: Seq<UnknownAttrView>) -> Seq<u128>
    decreases s.len(),
{
    if s.len() == 0 {
        seq![0u128]
    } else {
        seq![1u128, s[0].attr_type as u128, s[0].flags as u128] + items_code::<u8>(s[0].value) + unknown_code(s.skip(1))
    }
}

pub open spec fn opt_unknown_code(o: Option<Seq<UnknownAttrView>>) -> Seq<u128> {
    match o {
        Some(s) => seq![1u128] + unknown_code(s),
        None => seq![0u128],
    }
}

pub open spec fn comm_code<T: Key>(o: Option<Set<T::V>>) -> Seq<u128> {
    match o {
        Some(set) => seq![1u128] + items_code::<T>(sorted::<T>(set)),
        None => seq![0u128],
    }
}

pub open spec fn u32_code(o: Option<u32>) -> Seq<u128> {
    match o {
        Some(n) => seq![1u128, n as u128],
        None => seq![0u128],
    }
}

pub open spec fn u128_code(o: Option<u128>) -> Seq<u128> {
    match o {
        Some(n) => seq![1u128, n],
        None => seq![0u128],
    }
}

pub open spec fn addr_code(o: Option<IpAddr>) -> Seq<u128> {
    match o {
        Some(IpAddr::V4(a)) => seq![1u128, 0, a as u128],
        Some(IpAddr::V6(a)) => seq![1u128, 1, a],
        None => seq![0u128],
    }
}

pub open spec fn origin_code(o: Origin) -> Seq<u128> {
    match o {
        Origin::Igp => seq![0u128],
        Origin::Egp => seq![1u128],
        Origin::Incomplete => seq![2u128],
    }
}

/// The numbers by which attributes are compared.
pub open spec fn attrs_code(a: AttrsView) -> Seq<u128> {
    origin_code(a.base.origin) + (path_code(a.base.as_path) + (addr_code(a.base.nexthop) + (u128_code(a.base.ll_nexthop)
        + (u32_code(a.base.med) + (u32_code(a.base.local_pref) + (comm_code::<u32>(a.comm) + (comm_code::<u64>(
        a.ext_comm,
    ) + (comm_code::<Extv6Comm>(a.extv6_comm) + (comm_code::<u128>(a.large_comm) + opt_unknown_code(
        a.unknown,
    ))))))))))
}

/// Whether attributes come before others.
pub open spec fn attrs_before(a: AttrsView, b: AttrsView) -> bool {
    lex_lt(attrs_code(a), attrs_code(b))
}

// ===== codes tell values apart =====

/// Sequences that start with parts of the same length agree part by part.
proof fn split(a: Seq<u128>, r: Seq<u128>, b: Seq<u128>, q: Seq<u128>)
    requires
        a.len() == b.len(),
        a + r == b + q,
    ensures
        a == b,
        r == q,
{
    let x = a + r;
    let y = b + q;
    assert(a =~= x.take(a.len() as int));
    assert(b =~= y.take(a.len() as int));
    assert(r =~= x.skip(a.len() as int));
    assert(q =~= y.skip(a.len() as int));
}

proof fn items_tail<T: Key>(s: Seq<T::V>, r: Seq<u128>, t: Seq<T::V>, q: Seq<u128>, n: nat)
    requires
        forall|v: T::V| #[trigger] T::code(v).len() == n,
        items_code::<T>(s) + r == items_code::<T>(t) + q,
    ensures
        s == t,
        r == q,
    decreases s.len(),
{
    let x = items_code::<T>(s) + r;
    let y = items_code::<T>(t) + q;
    assert(x[0] == items_code::<T>(s)[0] && y[0] == items_code::<T>(t)[0]);
    if s.len() == 0 || t.len() == 0 {
        split(seq![0u128], r, seq![0u128], q);
        assert(s =~= t);
    } else {
        let (u, v) = (items_code::<T>(s.skip(1)), items_code::<T>(t.skip(1)));
        assert(x =~= (seq![1u128] + T::code(s[0])) + (u + r));
        assert(y =~= (seq![1u128] + T::code(t[0])) + (v + q));
        split(seq![1u128] + T::code(s[0]), u + r, seq![1u128] + T::code(t[0]), v + q);
        split(seq![1u128], T::code(s[0]), seq![1u128], T::code(t[0]));
        T::code_injective(s[0], t[0]);
        items_tail::<T>(s.skip(1), r, t.skip(1), q, n);
        assert(s =~= seq![s[0]] + s.skip(1));
        assert(t =~= seq![t[0]] + t.skip(1));
    }
}

proof fn path_tail(s: Seq<SegmentView>, r: Seq<u128>, t: Seq<SegmentView>, q: Seq<u128>)
    requires
        path_code(s) + r == path_code(t) + q,
    ensures
        s == t,
        r == q,
    decreases s.len(),
{
    let x = path_code(s) + r;
    let y = path_code(t) + q;
    assert(x[0] == path_code(s)[0] && y[0] == path_code(t)[0]);
    if s.len() == 0 || t.len() == 0 {
        split(seq![0u128], r, seq![0u128], q);
        assert(s =~= t);
    } else {
        let (u, v) = (path_code(s.skip(1)), path_code(t.skip(1)));
        let a = seq![1u128, segment_rank(s[0].seg_type)];
        let b = seq![1u128, segment_rank(t[0].seg_type)];
        let (c, d) = (items_code::<u32>(s[0].members), items_code::<u32>(t[0].members));
        assert(x =~= a + (c + (u + r)));
        assert(y =~= b + (d + (v + q)));
        split(a, c + (u + r), b, d + (v + q));
        assert(a[1] == b[1]);
        items_tail::<u32>(s[0].members, u + r, t[0].members, v + q, 1);
        assert(s[0] == t[0]);
        path_tail(s.skip(1), r, t.skip(1), q);
        assert(s =~= seq![s[0]] + s.skip(1));
        assert(t =~= seq![t[0]] + t.skip(1));
    }
}

proof fn unknown_tail(s: Seq<UnknownAttrView>, r: Seq<u128>, t: Seq<UnknownAttrView>, q: Seq<u128>)
    requires
        unknown_code(s) + r == unknown_code(t) + q,
    ensures
        s == t,
        r == q,
    decreases s.len(),
{
    let x = unknown_code(s) + r;
    let y = unknown_code(t) + q;
    assert(x[0] == unknown_code(s)[0] && y[0] == unknown_code(t)[0]);
    if s.len() == 0 || t.len() == 0 {
        split(seq![0u128], r, seq![0u128], q);
        assert(s =~= t);
    } else {
        let (u, v) = (unknown_code(s.skip(1)), unknown_code(t.skip(1)));
        let a = seq![1u128, s[0].attr_type as u128, s[0].flags as u128];
        let b = seq![1u128, t[0].attr_type as u128, t[0].flags as u128];
        let (c, d) = (items_code::<u8>(s[0].value), items_code::<u8>(t[0].value));
        assert(x =~= a + (c + (u + r)));
        assert(y =~= b + (d + (v + q)));
        split(a, c + (u + r), b, d + (v + q));
        assert(a[1] == b[1] && a[2] == b[2]);
        items_tail::<u8>(s[0].value, u + r, t[0].value, v + q, 1);
        assert(s[0] == t[0]);
        unknown_tail(s.skip(1), r, t.skip(1), q);
        assert(s =~= seq![s[0]] + s.skip(1));
        assert(t =~= seq![t[0]] + t.skip(1));
    }
}

proof fn comm_tail<T: Key>(s: Option<Set<T::V>>, r: Seq<u128>, t: Option<Set<T::V>>, q: Seq<u128>, n: nat)
    requires
        forall|v: T::V| #[trigger] T::code(v).len() == n,
        s matches Some(set) ==> sorted::<T>(set).to_set() == set,
        t matches Some(set) ==> sorted::<T>(set).to_set() == set,
        comm_code::<T>(s) + r == comm_code::<T>(t) + q,
    ensures
        s == t,
        r == q,
{
    let x = comm_code::<T>(s) + r;
    let y = comm_code::<T>(t) + q;
    assert(x[0] == comm_code::<T>(s)[0] && y[0] == comm_code::<T>(t)[0]);
    if s is None || t is None {
        split(seq![0u128], r, seq![0u128], q);
    } else {
        let (c, d) = (items_code::<T>(sorted::<T>(s->0)), items_code::<T>(sorted::<T>(t->0)));
        assert(x =~= seq![1u128] + (c + r));
        assert(y =~= seq![1u128] + (d + q));
        split(seq![1u128], c + r, seq![1u128], d + q);
        items_tail::<T>(sorted::<T>(s->0), r, sorted::<T>(t->0), q, n);
    }
}

/// Whether the communities of attributes can be put in order, which those of
/// attributes in use always can.
pub open spec fn orderable(a: AttrsView) -> bool {
    &&& a.comm matches Some(set) ==> sorted::<u32>(set).to_set() == set
    &&& a.ext_comm matches Some(set) ==> sorted::<u64>(set).to_set() == set
    &&& a.extv6_comm matches Some(set) ==> sorted::<Extv6Comm>(set).to_set() == set
    &&& a.large_comm matches Some(set) ==> sorted::<u128>(set).to_set() == set
}

/// Attributes that differ are told apart by their codes.
pub proof fn attrs_code_injective(a: AttrsView, b: AttrsView)
    requires
        orderable(a),
        orderable(b),
        attrs_code(a) == attrs_code(b),
    ensures
        a == b,
{
    let a10 = opt_unknown_code(a.unknown);
    let b10 = opt_unknown_code(b.unknown);
    let a9 = comm_code::<u128>(a.large_comm) + a10;
    let b9 = comm_code::<u128>(b.large_comm) + b10;
    let a8 = comm_code::<Extv6Comm>(a.extv6_comm) + a9;
    let b8 = comm_code::<Extv6Comm>(b.extv6_comm) + b9;
    let a7 = comm_code::<u64>(a.ext_comm) + a8;
    let b7 = comm_code::<u64>(b.ext_comm) + b8;
    let a6 = comm_code::<u32>(a.comm) + a7;
    let b6 = comm_code::<u32>(b.comm) + b7;
    let a5 = u32_code(a.base.local_pref) + a6;
    let b5 = u32_code(b.base.local_pref) + b6;
    let a4 = u32_code(a.base.med) + a5;
    let b4 = u32_code(b.base.med) + b5;
    let a3 = u128_code(a.base.ll_nexthop) + a4;
    let b3 = u128_code(b.base.ll_nexthop) + b4;
    let a2 = addr_code(a.base.nexthop) + a3;
    let b2 = addr_code(b.base.nexthop) + b3;
    let a1 = path_code(a.base.as_path) + a2;
    let b1 = path_code(b.base.as_path) + b2;
    split(origin_code(a.base.origin), a1, origin_code(b.base.origin), b1);
    assert(origin_code(a.base.origin)[0] == origin_code(b.base.origin)[0]);
    path_tail(a.base.as_path, a2, b.base.as_path, b2);
    addr_tail(a.base.nexthop, a3, b.base.nexthop, b3);
    u128_tail(a.base.ll_nexthop, a4, b.base.ll_nexthop, b4);
    u32_tail(a.base.med, a5, b.base.med, b5);
    u32_tail(a.base.local_pref, a6, b.base.local_pref, b6);
    comm_tail::<u32>(a.comm, a7, b.comm, b7, 1);
    comm_tail::<u64>(a.ext_comm, a8, b.ext_comm, b8, 1);
    comm_tail::<Extv6Comm>(a.extv6_comm, a9, b.extv6_comm, b9, 2);
    comm_tail::<u128>(a.large_comm, a10, b.large_comm, b10, 1);
    assert(a10[0] == b10[0]);
    if a.unknown is Some && b.unknown is Some {
        let (c, d) = (unknown_code(a.unknown->0), unknown_code(b.unknown->0));
        split(seq![1u128], c, seq![1u128], d);
        assert(c + Seq::<u128>::empty() =~= c && d + Seq::<u128>::empty() =~= d);
        unknown_tail(a.unknown->0, Seq::empty(), b.unknown->0, Seq::empty());
    }
}

proof fn addr_tail(s: Option<IpAddr>, r: Seq<u128>, t: Option<IpAddr>, q: Seq<u128>)
    requires
        addr_code(s) + r == addr_code(t) + q,
    ensures
        s == t,
        r == q,
{
    let (a, b) = (addr_code(s), addr_code(t));
    assert((a + r)[0] == a[0] && (b + q)[0] == b[0]);
    split(a, r, b, q);
    if s is Some {
        assert(a[1] == b[1] && a[2] == b[2]);
    }
}

proof fn u32_tail(s: Option<u32>, r: Seq<u128>, t: Option<u32>, q: Seq<u128>)
    requires
        u32_code(s) + r == u32_code(t) + q,
    ensures
        s == t,
        r == q,
{
    let (a, b) = (u32_code(s), u32_code(t));
    assert((a + r)[0] == a[0] && (b + q)[0] == b[0]);
    split(a, r, b, q);
    if s is Some {
        assert(a[1] == b[1]);
    }
}

proof fn u128_tail(s: Option<u128>, r: Seq<u128>, t: Option<u128>, q: Seq<u128>)
    requires
        u128_code(s) + r == u128_code(t) + q,
    ensures
        s == t,
        r == q,
{
    let (a, b) = (u128_code(s), u128_code(t));
    assert((a + r)[0] == a[0] && (b + q)[0] == b[0]);
    split(a, r, b, q);
    if s is Some {
        assert(a[1] == b[1]);
    }
}

// ===== computing codes =====

fn push_items<T: Key>(c: &mut Vec<u128>, items: &Vec<T>, Ghost(s): Ghost<Seq<T::V>>)
    requires
        s.len() == items@.len(),
        forall|i: int| 0 <= i < s.len() ==> (#[trigger] items@[i])@ == s[i],
    ensures
        final(c)@ == old(c)@ + items_code::<T>(s),
{
    let ghost start = c@;
    let mut i: usize = 0;
    assert(s.skip(0) =~= s);
    while i < items.len()
        invariant
            i <= items@.len(),
            s.len() == items@.len(),
            forall|i: int| 0 <= i < s.len() ==> (#[trigger] items@[i])@ == s[i],
            c@ + items_code::<T>(s.skip(i as int)) == start + items_code::<T>(s),
        decreases items@.len() - i,
    {
        let ghost before = c@;
        let mut code = items[i].to_code();
        c.push(1);
        let ghost item = code@;
        c.append(&mut code);
        proof {
            assert(s.skip(i as int).skip(1) =~= s.skip(i + 1));
            assert(s.skip(i as int)[0] == s[i as int]);
            assert(c@ =~= before + (seq![1u128] + item));
            assert(c@ + items_code::<T>(s.skip(i + 1)) =~= before + items_code::<T>(s.skip(i as int)));
        }
        i += 1;
    }
    c.push(0);
    assert(s.skip(i as int).len() == 0);
    assert(c@ =~= start + items_code::<T>(s));
}

fn push_comm<T: Key>(c: &mut Vec<u128>, o: &Option<CommList<T>>)
    ensures
        final(c)@ == old(c)@ + comm_code::<T>(crate::bgp::attribute::opt_view(*o)),
        *o matches Some(list) ==> sorted::<T>(list@).to_set() == list@,
{
    let ghost start = c@;
    match o {
        Some(list) => {
            let items = list.0.to_vec();
            let ghost s = list.0.items();
            proof {
                assert(s.to_set() == list@ && ascending_items::<T>(s));
                sorted_unique::<T>(s, sorted::<T>(list@));
            }
            c.push(1);
            push_items::<T>(c, &items, Ghost(s));
            assert(c@ =~= start + comm_code::<T>(crate::bgp::attribute::opt_view(*o)));
        },
        None => {
            c.push(0);
            assert(c@ =~= start + comm_code::<T>(crate::bgp::attribute::opt_view(*o)));
        },
    }
}

fn push_path(c: &mut Vec<u128>, base: &BaseAttrs)
    ensures
        final(c)@ == old(c)@ + path_code(base@.as_path),
{
    let ghost start = c@;
    let ghost s = base.as_path@;
    let mut i: usize = 0;
    assert(s.skip(0) =~= s);
    while i < base.as_path.segments.len()
        invariant
            i <= s.len(),
            s == base.as_path@,
            s.len() == base.as_path.segments@.len(),
            c@ + path_code(s.skip(i as int)) == start + path_code(s),
        decreases s.len() - i,
    {
        let ghost before = c@;
        let segment = &base.as_path.segments[i];
        assert(s[i as int] == segment@);
        c.push(1);
        c.push(
            match segment.seg_type {
                AsPathSegmentType::AsSet => 0,
                AsPathSegmentType::AsSequence => 1,
            },
        );
        let ghost head = seq![1u128, segment_rank(segment.seg_type)];
        assert(c@ =~= before + head);
        push_items::<u32>(c, &segment.members, Ghost(segment.members@));
        proof {
            assert(s.skip(i as int).skip(1) =~= s.skip(i + 1));
            assert(c@ + path_code(s.skip(i + 1)) =~= before + path_code(s.skip(i as int)));
        }
        i += 1;
    }
    c.push(0);
    assert(s.skip(i as int).len() == 0);
    assert(c@ =~= start + path_code(s));
}

fn push_unknown(c: &mut Vec<u128>, list: &Vec<UnknownAttr>, Ghost(s): Ghost<Seq<UnknownAttrView>>)
    requires
        s.len() == list@.len(),
        forall|i: int| 0 <= i < s.len() ==> (#[trigger] list@[i])@ == s[i],
    ensures
        final(c)@ == old(c)@ + unknown_code(s),
{
    let ghost start = c@;
    let mut i: usize = 0;
    assert(s.skip(0) =~= s);
    while i < list.len()
        invariant
            i <= s.len(),
            s.len() == list@.len(),
            forall|i: int| 0 <= i < s.len() ==> (#[trigger] list@[i])@ == s[i],
            c@ + unknown_code(s.skip(i as int)) == start + unknown_code(s),
        decreases s.len() - i,
    {
        let ghost before = c@;
        let attr = &list[i];
        assert(s[i as int] == attr@);
        c.push(1);
        c.push(attr.attr_type as u128);
        c.push(attr.flags as u128);
        let ghost head = seq![1u128, attr.attr_type as u128, attr.flags as u128];
        assert(c@ =~= before + head);
        push_items::<u8>(c, &attr.value, Ghost(attr.value@));
        proof {
            assert(s.skip(i as int).skip(1) =~= s.skip(i + 1));
            assert(c@ + unknown_code(s.skip(i + 1)) =~= before + unknown_code(s.skip(i as int)));
        }
        i += 1;
    }
    c.push(0);
    assert(s.skip(i as int).len() == 0);
    assert(c@ =~= start + unknown_code(s));
}

fn push_u32(c: &mut Vec<u128>, o: Option<u32>)
    ensures
        final(c)@ == old(c)@ + u32_code(o),
{
    let ghost start = c@;
    match o {
        Some(n) => {
            c.push(1);
            c.push(n as u128);
        },
        None => {
            c.push(0);
        },
    }
    assert(c@ =~= start + u32_code(o));
}

fn push_u128(c: &mut Vec<u128>, o: Option<u128>)
    ensures
        final(c)@ == old(c)@ + u128_code(o),
{
    let ghost start = c@;
    match o {
        Some(n) => {
            c.push(1);
            c.push(n);
        },
        None => {
            c.push(0);
        },
    }
    assert(c@ =~= start + u128_code(o));
}

fn push_addr(c: &mut Vec<u128>, o: Option<IpAddr>)
    ensures
        final(c)@ == old(c)@ + addr_code(o),
{
    let ghost start = c@;
    match o {
        Some(IpAddr::V4(a)) => {
            c.push(1);
            c.push(0);
            c.push(a as u128);
        },
        Some(IpAddr::V6(a)) => {
            c.push(1);
            c.push(1);
            c.push(a);
        },
        None => {
            c.push(0);
        },
    }
    assert(c@ =~= start + addr_code(o));
}

proof fn regroup(a: Seq<u128>, b: Seq<u128>, c: Seq<u128>)
    ensures
        (a + b) + c == a + (b + c),
{
    assert((a + b) + c =~= a + (b + c));
}

/// The numbers by which attributes are compared.
#[verifier::spinoff_prover]
pub(crate) fn attrs_to_code(a: &Attrs) -> (c: Vec<u128>)
    ensures
        c@ == attrs_code(a@),
        orderable(a@),
{
    let mut c: Vec<u128> = Vec::new();
    c.push(
        match a.base.origin {
            Origin::Igp => 0,
            Origin::Egp => 1,
            Origin::Incomplete => 2,
        },
    );
    assert(c@ =~= origin_code(a@.base.origin));
    let ghost c0 = c@;
    push_path(&mut c, &a.base);
    let ghost c1 = c@;
    push_addr(&mut c, a.base.nexthop);
    let ghost c2 = c@;
    push_u128(&mut c, a.base.ll_nexthop);
    let ghost c3 = c@;
    push_u32(&mut c, a.base.med);
    let ghost c4 = c@;
    push_u32(&mut c, a.base.local_pref);
    let ghost c5 = c@;
    push_comm(&mut c, &a.comm);
    let ghost c6 = c@;
    push_comm(&mut c, &a.ext_comm);
    let ghost c7 = c@;
    push_comm(&mut c, &a.extv6_comm);
    let ghost c8 = c@;
    push_comm(&mut c, &a.large_comm);
    let ghost start = c@;
    match &a.unknown {
        Some(unknown) => {
            c.push(1);
            push_unknown(&mut c, &unknown.list, Ghost(unknown@));
            proof {
                regroup(start, seq![1u128], unknown_code(unknown@));
            }
            assert(c@ == start + opt_unknown_code(a@.unknown));
        },
        None => {
            c.push(0);
            assert(c@ =~= start + opt_unknown_code(a@.unknown));
        },
    }
    proof {
        let v = a@;
        let r9 = opt_unknown_code(v.unknown);
        regroup(c8, comm_code::<u128>(v.large_comm), r9);
        let r8 = comm_code::<u128>(v.large_comm) + r9;
        regroup(c7, comm_code::<Extv6Comm>(v.extv6_comm), r8);
        let r7 = comm_code::<Extv6Comm>(v.extv6_comm) + r8;
        regroup(c6, comm_code::<u64>(v.ext_comm), r7);
        let r6 = comm_code::<u64>(v.ext_comm) + r7;
        regroup(c5, comm_code::<u32>(v.comm), r6);
        let r5 = comm_code::<u32>(v.comm) + r6;
        regroup(c4, u32_code(v.base.local_pref), r5);
        let r4 = u32_code(v.base.local_pref) + r5;
        regroup(c3, u32_code(v.base.med), r4);
        let r3 = u32_code(v.base.med) + r4;
        regroup(c2, u128_code(v.base.ll_nexthop), r3);
        let r2 = u128_code(v.base.ll_nexthop) + r3;
        regroup(c1, addr_code(v.base.nexthop), r2);
        let r1 = addr_code(v.base.nexthop) + r2;
        regroup(c0, path_code(v.base.as_path), r1);
    }
    c
}

/// Whether attributes come before others.
pub(crate) fn attrs_lt(a: &Attrs, b: &Attrs) -> (r: bool)
    ensures
        r == attrs_before(a@, b@),
        orderable(a@),
        orderable(b@),
{
    let x = attrs_to_code(a);
    let y = attrs_to_code(b);
    code_lt(&x, &y)
}

// ===== laws =====

/// Of two attributes that differ, exactly one comes before the other.
pub proof fn attrs_order_total(a: AttrsView, b: AttrsView)
    requires
        orderable(a),
        orderable(b),
    ensures
        a != b ==> attrs_before(a, b) != attrs_before(b, a),
        a == b ==> !attrs_before(a, b),
{
    let (x, y) = (attrs_code(a), attrs_code(b));
    lex_irreflexive(x);
    lex_total(x, y);
    if x == y {
        attrs_code_injective(a, b);
    }
    if lex_lt(x, y) && lex_lt(y, x) {
        lex_transitive(x, y, x);
    }
}

/// What comes before attributes comes before those that follow them.
pub proof fn attrs_order_transitive(a: AttrsView, b: AttrsView, c: AttrsView)
    requires
        attrs_before(a, b),
        attrs_before(b, c),
    ensures
        attrs_before(a, c),
{
    lex_transitive(attrs_code(a), attrs_code(b), attrs_code(c));
}

} // verus!
