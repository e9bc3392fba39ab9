//! Interned attribute sets.
//!
//! Routes that carry the same attributes share one copy of them. Each set of
//! attributes is known by an index, and a combination of sets by the indices
//! of its members.

use std::sync::Arc;

use vstd::prelude::*;

use crate::bgp::attribute::{
    opt_view, AttrValue, Attrs, AttrsView, BaseAttrs, Comms, ExtComms, Extv6Comms, LargeComms, UnknownAttrs,
};
use crate::sync::share;

verus! {

/// Calls `Arc::strong_count`. The pointer that is passed counts itself; how many
/// more holders a value has depends on the rest of the program.
#[verifier::external_body]
fn holders<T>(a: &Arc<T>) -> (n: usize)
    ensures
        n >= 1,
{
    Arc::strong_count(a)
}

pub struct AttrSet<T> {
    pub index: u64,
    pub value: T,
}

/// The interned values of one kind of attributes.
pub struct AttrSets<T: AttrValue> {
    tree: Vec<Arc<AttrSet<T>>>,
    next_index: u64,
    assigned: Ghost<Map<u64, T::V>>,
}

/// The attributes of a route, made of interned sets.
pub struct RouteAttrs {
    pub base: Arc<AttrSet<BaseAttrs>>,
    pub comm: Option<Arc<AttrSet<Comms>>>,
    pub ext_comm: Option<Arc<AttrSet<ExtComms>>>,
    pub extv6_comm: Option<Arc<AttrSet<Extv6Comms>>>,
    pub large_comm: Option<Arc<AttrSet<LargeComms>>>,
    pub unknown: Option<Arc<AttrSet<UnknownAttrs>>>,
}

/// Key identifying a unique combination of interned attribute sets by the
/// index of each per-category set. Indices are always nonzero.
#[derive(Clone, Copy, Debug, PartialEq, Eq, Structural)]
pub struct RouteAttrsKey {
    pub base: u64,
    pub comm: Option<u64>,
    pub ext_comm: Option<u64>,
    pub extv6_comm: Option<u64>,
    pub large_comm: Option<u64>,
    pub unknown: Option<u64>,
}

pub struct AttrSetsCxt {
    pub base: AttrSets<BaseAttrs>,
    pub comm: AttrSets<Comms>,
    pub ext_comm: AttrSets<ExtComms>,
    pub extv6_comm: AttrSets<Extv6Comms>,
    pub large_comm: AttrSets<LargeComms>,
    pub unknown: AttrSets<UnknownAttrs>,
    pub route: Vec<Arc<RouteAttrs>>,
}

// ===== entries that are kept =====

/// The entries with more than one holder, in order, given how many holders each
/// one has.
pub open spec fn kept<E>(entries: Seq<E>, counts: Seq<usize>) -> Seq<E>
    decreases entries.len(),
{
    if entries.len() == 0 {
        Seq::empty()
    } else {
        let rest = kept(entries.drop_last(), counts);
        if counts[entries.len() - 1] > 1 {
            rest.push(entries.last())
        } else {
            rest
        }
    }
}

/// An entry is kept exactly if it has more than one holder.
proof fn kept_members<E>(entries: Seq<E>, counts: Seq<usize>)
    ensures
        kept(entries, counts).len() <= entries.len(),
        forall|i: int|
            #![trigger entries[i]]
            0 <= i < entries.len() && counts[i] > 1 ==> kept(entries, counts).contains(entries[i]),
        forall|k: int|
            #![trigger kept(entries, counts)[k]]
            0 <= k < kept(entries, counts).len() ==> exists|i: int|
                0 <= i < entries.len() && counts[i] > 1 && #[trigger] entries[i] == kept(entries, counts)[k],
    decreases entries.len(),
{
    if entries.len() > 0 {
        let front = entries.drop_last();
        let rest = kept(front, counts);
        let all = kept(entries, counts);
        kept_members(front, counts);
        let n = entries.len() - 1;
        assert forall|i: int| #![trigger entries[i]] 0 <= i < entries.len() && counts[i] > 1 implies all.contains(
            entries[i],
        ) by {
            if i < n {
                assert(front[i] == entries[i]);
                let k = choose|k: int| 0 <= k < rest.len() && rest[k] == front[i];
                assert(all[k] == entries[i]);
            } else {
                assert(all[all.len() - 1] == entries[i]);
            }
        }
        assert forall|k: int| #![trigger all[k]] 0 <= k < all.len() implies exists|i: int|
            0 <= i < entries.len() && counts[i] > 1 && #[trigger] entries[i] == all[k] by {
            if k < rest.len() {
                assert(rest[k] == all[k]);
                let i = choose|i: int| 0 <= i < front.len() && counts[i] > 1 && #[trigger] front[i] == rest[k];
                assert(entries[i] == all[k]);
            } else {
                assert(entries[n] == all[k]);
            }
        }
    }
}

/// Entries that differ in something still do.
proof fn kept_distinct<E, F>(entries: Seq<E>, counts: Seq<usize>, f: spec_fn(E) -> F)
    requires
        forall|i: int, j: int|
            #![trigger entries[i], entries[j]]
            0 <= i < j < entries.len() ==> f(entries[i]) != f(entries[j]),
    ensures
        forall|i: int, j: int|
            #![trigger kept(entries, counts)[i], kept(entries, counts)[j]]
            0 <= i < j < kept(entries, counts).len() ==> f(kept(entries, counts)[i]) != f(kept(entries, counts)[j]),
    decreases entries.len(),
{
    if entries.len() > 0 {
        let front = entries.drop_last();
        let rest = kept(front, counts);
        let all = kept(entries, counts);
        let n = entries.len() - 1;
        assert forall|i: int, j: int| #![trigger front[i], front[j]] 0 <= i < j < front.len() implies f(front[i])
            != f(front[j]) by {
            assert(front[i] == entries[i] && front[j] == entries[j]);
        }
        kept_distinct(front, counts, f);
        kept_members(front, counts);
        assert forall|i: int, j: int| #![trigger all[i], all[j]] 0 <= i < j < all.len() implies f(all[i]) != f(
            all[j],
        ) by {
            assert(rest[i] == all[i]);
            if j < rest.len() {
                assert(rest[j] == all[j]);
            } else {
                let k = choose|k: int| 0 <= k < front.len() && counts[k] > 1 && #[trigger] front[k] == rest[i];
                assert(entries[k] == rest[i] && entries[n] == all[j]);
            }
        }
    }
}

/// Without other holders nothing is kept.
proof fn kept_none<E>(entries: Seq<E>, counts: Seq<usize>)
    requires
        forall|i: int| 0 <= i < entries.len() ==> #[trigger] counts[i] <= 1,
    ensures
        kept(entries, counts).len() == 0,
    decreases entries.len(),
{
    if entries.len() > 0 {
        kept_none(entries.drop_last(), counts);
        assert(counts[entries.len() - 1] <= 1);
    }
}

/// Counts the holders of each entry.
fn count_holders<E>(entries: &Vec<Arc<E>>) -> (counts: Vec<usize>)
    ensures
        counts@.len() == entries@.len(),
{
    let mut counts: Vec<usize> = Vec::new();
    let mut i: usize = 0;
    while i < entries.len()
        invariant
            i <= entries@.len(),
            counts@.len() == i,
        decreases entries@.len() - i,
    {
        counts.push(holders(&entries[i]));
        i += 1;
    }
    counts
}

/// Drops the entries that have no other holder.
fn retain_entries<E>(entries: &mut Vec<Arc<E>>, counts: &Vec<usize>)
    requires
        counts@.len() == old(entries)@.len(),
    ensures
        final(entries)@ == kept(old(entries)@, counts@),
{
    let ghost all = entries@;
    let n: usize = entries.len();
    let mut i: usize = 0;
    let mut j: usize = 0;
    assert(entries@ =~= kept(all.take(0), counts@) + all.skip(0));
    while j < n
        invariant
            j <= n,
            n == all.len(),
            counts@.len() == n,
            i <= j,
            i == kept(all.take(j as int), counts@).len(),
            entries@ == kept(all.take(j as int), counts@) + all.skip(j as int),
        decreases n - j,
    {
        proof {
            assert(all.take(j + 1).drop_last() =~= all.take(j as int));
            assert(entries@[i as int] == all[j as int]);
        }
        let ghost before = entries@;
        if is_referenced(counts[j]) {
            i += 1;
            assert(entries@ =~= kept(all.take(j + 1), counts@) + all.skip(j + 1));
        } else {
            let _ = entries.remove(i);
            assert(entries@ =~= kept(all.take(j + 1), counts@) + all.skip(j + 1));
        }
        j += 1;
    }
    assert(all.take(j as int) =~= all);
    assert(entries@ =~= kept(all, counts@));
}

/// Whether a value is held by someone else than the structure that interns it.
fn is_referenced(holders: usize) -> (b: bool)
    ensures
        b == (holders > 1),
{
    holders > 1
}

// ===== impl AttrSets =====

/// What interning a value comes to: nothing, if it is held, and a new entry with
/// a new index otherwise.
pub open spec fn interned<T: AttrValue>(before: AttrSets<T>, after: AttrSets<T>, v: T::V) -> bool {
    if before.lookup(v) is Some {
        after == before
    } else {
        &&& after.entries().len() == before.entries().len() + 1
        &&& after.entries().drop_last() == before.entries()
        &&& after.entries().last().value@ == v
        &&& after.entries().last().index == before.next()
        &&& after.next() == before.next() + 1
        &&& after.assigned() == before.assigned().insert(before.next(), v)
    }
}

/// What dropping the values without other holders comes to.
pub open spec fn retained<T: AttrValue>(before: AttrSets<T>, after: AttrSets<T>, counts: Seq<usize>) -> bool {
    &&& counts.len() == before.entries().len()
    &&& after.entries() == kept(before.entries(), counts)
    &&& after.next() == before.next()
    &&& after.assigned() == before.assigned()
}

impl<T: AttrValue> AttrSets<T> {
    /// The values that are held, with their indices.
    pub closed spec fn entries(self) -> Seq<Arc<AttrSet<T>>> {
        self.tree@
    }

    /// The value that each index was given to, including values that are no
    /// longer held.
    pub closed spec fn assigned(self) -> Map<u64, T::V> {
        self.assigned@
    }

    /// The index that the next new value will get.
    pub closed spec fn next(self) -> u64 {
        self.next_index
    }

    spec fn holds(self, v: T::V, i: int) -> bool {
        0 <= i < self.tree@.len() && self.tree@[i].value@ == v
    }

    /// The index under which a value is held.
    pub closed spec fn lookup(self, v: T::V) -> Option<u64> {
        if exists|i: int| self.holds(v, i) {
            Some(self.tree@[choose|i: int| self.holds(v, i)].index)
        } else {
            None
        }
    }

    pub closed spec fn wf(self) -> bool {
        &&& self.next_index >= 1
        &&& forall|n: u64| #[trigger] self.assigned@.contains_key(n) ==> 1 <= n < self.next_index
        &&& forall|i: int|
            #![trigger self.tree@[i]]
            0 <= i < self.tree@.len() ==> self.assigned@.contains_key(self.tree@[i].index)
                && self.assigned@[self.tree@[i].index] == self.tree@[i].value@
        &&& forall|i: int, j: int|
            #![trigger self.tree@[i], self.tree@[j]]
            0 <= i < j < self.tree@.len() ==> self.tree@[i].value@ != self.tree@[j].value@
    }

    proof fn lookup_at(self, v: T::V, i: int)
        requires
            self.wf(),
            self.holds(v, i),
        ensures
            self.lookup(v) == Some(self.tree@[i].index),
    {
        let j = choose|j: int| self.holds(v, j);
        assert(self.tree@[i].value@ == self.tree@[j].value@);
    }

    /// A value is held under an index that was given to it.
    pub proof fn lookup_assigned(self, v: T::V)
        requires
            self.wf(),
            self.lookup(v) is Some,
        ensures
            self.assigned().contains_key(self.lookup(v)->0),
            self.assigned()[self.lookup(v)->0] == v,
            1 <= self.lookup(v)->0 < self.next(),
    {
        let i = choose|i: int| self.holds(v, i);
        assert(self.tree@[i].value@ == v);
    }

    /// The values that are held are exactly the entries, under their indices.
    pub proof fn lookup_is_entry(self, v: T::V, n: u64)
        requires
            self.wf(),
        ensures
            self.lookup(v) == Some(n) <==> exists|i: int|
                0 <= i < self.entries().len() && (#[trigger] self.entries()[i]).value@ == v && self.entries()[i].index
                    == n,
    {
        if self.lookup(v) == Some(n) {
            let i = choose|i: int| self.holds(v, i);
            assert(self.entries()[i].value@ == v && self.entries()[i].index == n);
        }
        if exists|i: int|
            0 <= i < self.entries().len() && (#[trigger] self.entries()[i]).value@ == v && self.entries()[i].index == n {
            let i = choose|i: int|
                0 <= i < self.entries().len() && (#[trigger] self.entries()[i]).value@ == v && self.entries()[i].index
                    == n;
            assert(self.holds(v, i));
            self.lookup_at(v, i);
        }
    }

    /// No two entries have the same value or the same index.
    pub proof fn entries_distinct(self, i: int, j: int)
        requires
            self.wf(),
            0 <= i < j < self.entries().len(),
        ensures
            self.entries()[i].value@ != self.entries()[j].value@,
            self.entries()[i].index != self.entries()[j].index,
    {
        assert(self.tree@[i].value@ != self.tree@[j].value@);
    }

    /// An index that is given to a new value was never given before.
    pub proof fn next_is_new(self)
        requires
            self.wf(),
        ensures
            !self.assigned().contains_key(self.next()),
    {
    }

    /// Interning a value leaves all others under their indices.
    proof fn interned_lookup(before: Self, after: Self, v: T::V)
        requires
            before.wf(),
            after.wf(),
            interned(before, after, v),
        ensures
            after.lookup(v) is Some,
            forall|w: T::V| #[trigger] before.lookup(w) is Some ==> after.lookup(w) == before.lookup(w),
    {
        if before.lookup(v) is None {
            let n = before.entries().len() as int;
            assert(after.holds(v, n));
            after.lookup_at(v, n);
            assert forall|w: T::V| #[trigger] before.lookup(w) is Some implies after.lookup(w) == before.lookup(w) by {
                let k = choose|k: int| before.holds(w, k);
                assert(after.entries().drop_last()[k] == after.entries()[k]);
                assert(after.holds(w, k));
                after.lookup_at(w, k);
                before.lookup_at(w, k);
            }
        }
    }

    /// What is dropped leaves the rest under their indices.
    proof fn retained_lookup(before: Self, after: Self, counts: Seq<usize>, v: T::V)
        requires
            before.wf(),
            after.wf(),
            retained(before, after, counts),
        ensures
            after.lookup(v) is Some ==> after.lookup(v) == before.lookup(v),
            before.lookup(v) is Some && (forall|i: int|
                #![trigger before.entries()[i]]
                0 <= i < before.entries().len() && before.entries()[i].value@ == v ==> counts[i] > 1)
                ==> after.lookup(v) == before.lookup(v),
    {
        kept_members(before.entries(), counts);
        if after.lookup(v) is Some {
            let k = choose|k: int| after.holds(v, k);
            after.lookup_at(v, k);
            assert(after.entries()[k] == kept(before.entries(), counts)[k]);
            let i = choose|i: int|
                0 <= i < before.entries().len() && counts[i] > 1 && #[trigger] before.entries()[i] == kept(
                    before.entries(),
                    counts,
                )[k];
            assert(before.holds(v, i));
            before.lookup_at(v, i);
        }
        if before.lookup(v) is Some && (forall|i: int|
            #![trigger before.entries()[i]]
            0 <= i < before.entries().len() && before.entries()[i].value@ == v ==> counts[i] > 1) {
            let i = choose|i: int| before.holds(v, i);
            assert(before.entries()[i].value@ == v);
            let k = choose|k: int|
                0 <= k < kept(before.entries(), counts).len() && kept(before.entries(), counts)[k]
                    == before.entries()[i];
            assert(after.holds(v, k));
            after.lookup_at(v, k);
            before.lookup_at(v, i);
        }
    }

    pub fn new() -> (s: Self)
        ensures
            s.wf(),
            s.next() == 1,
            s.assigned() == Map::<u64, T::V>::empty(),
            s.entries() == Seq::<Arc<AttrSet<T>>>::empty(),
            forall|v: T::V| s.lookup(v) is None,
    {
        AttrSets { tree: Vec::new(), next_index: 1, assigned: Ghost(Map::empty()) }
    }

    /// The shared copy of a value. A value that isn't held yet gets a new
    /// index.
    pub fn get(&mut self, attr: &T) -> (r: Arc<AttrSet<T>>)
        requires
            old(self).wf(),
            old(self).next() < u64::MAX,
        ensures
            final(self).wf(),
            r.value@ == attr@,
            final(self).lookup(attr@) == Some(r.index),
            interned(*old(self), *final(self), attr@),
            old(self).lookup(attr@) matches Some(n) ==> {
                &&& r.index == n
                &&& *final(self) == *old(self)
                &&& old(self).entries().contains(r)
            },
            old(self).lookup(attr@) is None ==> {
                &&& final(self).entries() == old(self).entries().push(r)
                &&& !old(self).assigned().contains_key(r.index)
                &&& r.index == old(self).next()
                &&& final(self).next() == old(self).next() + 1
                &&& final(self).assigned() == old(self).assigned().insert(r.index, attr@)
            },
            forall|v: T::V| v != attr@ ==> #[trigger] final(self).lookup(v) == old(self).lookup(v),
    {
        let mut i: usize = 0;
        while i < self.tree.len()
            invariant
                self.wf(),
                *self == *old(self),
                i <= self.tree@.len(),
                forall|j: int| 0 <= j < i ==> !self.holds(attr@, j),
            decreases self.tree@.len() - i,
        {
            if self.tree[i].value.same(attr) {
                proof {
                    self.lookup_at(attr@, i as int);
                }
                return share(&self.tree[i]);
            }
            i += 1;
        }
        let ghost before = *self;
        assert forall|j: int| !self.holds(attr@, j) by {}
        let index = self.next_index;
        self.next_index = self.next_index + 1;
        let attr_set = Arc::new(AttrSet { index, value: attr.dup() });
        self.tree.push(share(&attr_set));
        self.assigned = Ghost(self.assigned@.insert(index, attr@));
        proof {
            let n = before.tree@.len() as int;
            assert(self.tree@[n] == attr_set);
            assert forall|i: int| 0 <= i < n implies #[trigger] self.tree@[i] == before.tree@[i] by {}
            assert forall|i: int, j: int|
                #![trigger self.tree@[i], self.tree@[j]]
                0 <= i < j < self.tree@.len() implies self.tree@[i].value@ != self.tree@[j].value@ by {
                if j == n {
                    assert(!before.holds(attr@, i));
                }
            }
            assert(self.wf());
            assert(self.entries() =~= before.entries().push(attr_set));
            assert(self.entries().drop_last() =~= before.entries());
            assert(self.holds(attr@, n));
            self.lookup_at(attr@, n);
            assert forall|v: T::V| v != attr@ implies #[trigger] self.lookup(v) == before.lookup(v) by {
                if before.lookup(v) is Some {
                    let k = choose|k: int| before.holds(v, k);
                    assert(self.holds(v, k));
                    self.lookup_at(v, k);
                    before.lookup_at(v, k);
                }
                if self.lookup(v) is Some {
                    let k = choose|k: int| self.holds(v, k);
                    assert(before.holds(v, k));
                }
            }
        }
        attr_set
    }

    /// Drops the values whose only remaining holder is this structure, given how
    /// many holders each entry has.
    pub fn retain_referenced(&mut self, counts: &Vec<usize>)
        requires
            old(self).wf(),
            counts@.len() == old(self).entries().len(),
        ensures
            final(self).wf(),
            final(self).next() == old(self).next(),
            final(self).assigned() == old(self).assigned(),
            final(self).entries() == kept(old(self).entries(), counts@),
    {
        let ghost before = *self;
        retain_entries(&mut self.tree, counts);
        proof {
            kept_members(before.tree@, counts@);
            assert forall|i: int|
                #![trigger self.tree@[i]]
                0 <= i < self.tree@.len() implies self.assigned@.contains_key(self.tree@[i].index)
                && self.assigned@[self.tree@[i].index] == self.tree@[i].value@ by {
                assert(self.tree@[i] == kept(before.tree@, counts@)[i]);
            }
            kept_distinct(before.tree@, counts@, |x: Arc<AttrSet<T>>| x.value@);
            assert forall|i: int, j: int|
                #![trigger self.tree@[i], self.tree@[j]]
                0 <= i < j < self.tree@.len() implies self.tree@[i].value@ != self.tree@[j].value@ by {
                let f = |x: Arc<AttrSet<T>>| x.value@;
                assert(f(kept(before.tree@, counts@)[i]) != f(kept(before.tree@, counts@)[j]));
            }
        }
    }

    /// Drops the values whose only remaining holder is this structure, meaning
    /// that no route references them anymore. How many holders there are is up to
    /// the rest of the program.
    pub fn sweep(&mut self)
        requires
            old(self).wf(),
        ensures
            final(self).wf(),
            exists|counts: Seq<usize>| #[trigger] retained(*old(self), *final(self), counts),
    {
        let counts = count_holders(&self.tree);
        self.retain_referenced(&counts);
        assert(retained(*old(self), *self, counts@));
    }
}

// ===== impl RouteAttrs =====

/// The index of an optional set.
pub open spec fn opt_index<T>(o: Option<Arc<AttrSet<T>>>) -> Option<u64> {
    match o {
        Some(set) => Some(set.index),
        None => None,
    }
}

/// The value of an optional set.
pub open spec fn opt_value<T: View>(o: Option<Arc<AttrSet<T>>>) -> Option<T::V> {
    match o {
        Some(set) => Some(set.value@),
        None => None,
    }
}

fn opt_index_exec<T>(o: &Option<Arc<AttrSet<T>>>) -> (r: Option<u64>)
    ensures
        r == opt_index(*o),
{
    match o {
        Some(set) => Some(set.index),
        None => None,
    }
}

fn opt_value_exec<T: AttrValue>(o: &Option<Arc<AttrSet<T>>>) -> (r: Option<T>)
    ensures
        opt_view(r) == opt_value(*o),
{
    match o {
        Some(set) => Some(set.value.dup()),
        None => None,
    }
}

impl RouteAttrs {
    pub open spec fn spec_key(self) -> RouteAttrsKey {
        RouteAttrsKey {
            base: self.base.index,
            comm: opt_index(self.comm),
            ext_comm: opt_index(self.ext_comm),
            extv6_comm: opt_index(self.extv6_comm),
            large_comm: opt_index(self.large_comm),
            unknown: opt_index(self.unknown),
        }
    }

    /// The attributes themselves.
    pub open spec fn attrs(self) -> AttrsView {
        AttrsView {
            base: self.base.value@,
            comm: opt_value(self.comm),
            ext_comm: opt_value(self.ext_comm),
            extv6_comm: opt_value(self.extv6_comm),
            large_comm: opt_value(self.large_comm),
            unknown: opt_value(self.unknown),
        }
    }

    pub fn key(&self) -> (k: RouteAttrsKey)
        ensures
            k == self.spec_key(),
    {
        RouteAttrsKey {
            base: self.base.index,
            comm: opt_index_exec(&self.comm),
            ext_comm: opt_index_exec(&self.ext_comm),
            extv6_comm: opt_index_exec(&self.extv6_comm),
            large_comm: opt_index_exec(&self.large_comm),
            unknown: opt_index_exec(&self.unknown),
        }
    }

    pub fn get(&self) -> (a: Attrs)
        ensures
            a@ == self.attrs(),
    {
        Attrs {
            base: self.base.value.dup(),
            comm: opt_value_exec(&self.comm),
            ext_comm: opt_value_exec(&self.ext_comm),
            extv6_comm: opt_value_exec(&self.extv6_comm),
            large_comm: opt_value_exec(&self.large_comm),
            unknown: opt_value_exec(&self.unknown),
        }
    }

    /// Whether two routes carry the same sets of attributes.
    pub fn same(&self, other: &RouteAttrs) -> (b: bool)
        ensures
            b == (self.spec_key() == other.spec_key() && self.attrs() == other.attrs()),
    {
        if self.key() != other.key() {
            return false;
        }
        let a = self.get();
        let b = other.get();
        a.same(&b)
    }
}

// ===== impl AttrSetsCxt =====

/// Whether an optional set is one that an interned value was given.
pub open spec fn opt_known<T: AttrValue>(sets: AttrSets<T>, o: Option<Arc<AttrSet<T>>>) -> bool {
    o matches Some(set) ==> sets.assigned().contains_key(set.index) && sets.assigned()[set.index] == set.value@
}

/// The index of an optional value.
pub open spec fn opt_lookup<T: AttrValue>(sets: AttrSets<T>, o: Option<T::V>) -> Option<u64> {
    match o {
        Some(v) => sets.lookup(v),
        None => None,
    }
}

/// Whether an optional value is held.
pub open spec fn opt_held<T: AttrValue>(sets: AttrSets<T>, o: Option<T::V>) -> bool {
    o matches Some(v) ==> sets.lookup(v) is Some
}

/// What interning an optional value comes to.
pub open spec fn opt_interned<T: AttrValue>(before: AttrSets<T>, after: AttrSets<T>, o: Option<T::V>) -> bool {
    match o {
        Some(v) => interned(before, after, v),
        None => after == before,
    }
}

/// Whether a set is held under its index.
pub open spec fn set_current<T: AttrValue>(sets: AttrSets<T>, set: Arc<AttrSet<T>>) -> bool {
    sets.lookup(set.value@) == Some(set.index)
}

pub open spec fn opt_current<T: AttrValue>(sets: AttrSets<T>, o: Option<Arc<AttrSet<T>>>) -> bool {
    o matches Some(set) ==> set_current(sets, set)
}

/// Whether a set has other holders, wherever it is an entry.
pub open spec fn set_referenced<T: AttrValue>(sets: AttrSets<T>, counts: Seq<usize>, set: Arc<AttrSet<T>>) -> bool {
    forall|i: int|
        #![trigger sets.entries()[i]]
        0 <= i < sets.entries().len() && sets.entries()[i].value@ == set.value@ ==> counts[i] > 1
}

pub open spec fn opt_referenced<T: AttrValue>(
    sets: AttrSets<T>,
    counts: Seq<usize>,
    o: Option<Arc<AttrSet<T>>>,
) -> bool {
    o matches Some(set) ==> set_referenced(sets, counts, set)
}

proof fn opt_interned_current<T: AttrValue>(before: AttrSets<T>, after: AttrSets<T>, v: Option<T::V>)
    requires
        before.wf(),
        after.wf(),
        opt_interned(before, after, v),
    ensures
        forall|o: Option<Arc<AttrSet<T>>>| #[trigger] opt_current(before, o) ==> opt_current(after, o),
{
    if v is Some {
        AttrSets::interned_lookup(before, after, v->0);
    }
}

proof fn set_retained_current<T: AttrValue>(before: AttrSets<T>, after: AttrSets<T>, counts: Seq<usize>)
    requires
        before.wf(),
        after.wf(),
        retained(before, after, counts),
    ensures
        forall|set: Arc<AttrSet<T>>| #[trigger]
            set_current(before, set) && set_referenced(before, counts, set) ==> set_current(after, set),
{
    assert forall|set: Arc<AttrSet<T>>| #[trigger]
        set_current(before, set) && set_referenced(before, counts, set) implies set_current(after, set) by {
        AttrSets::retained_lookup(before, after, counts, set.value@);
    }
}

proof fn opt_retained_current<T: AttrValue>(before: AttrSets<T>, after: AttrSets<T>, counts: Seq<usize>)
    requires
        before.wf(),
        after.wf(),
        retained(before, after, counts),
    ensures
        forall|o: Option<Arc<AttrSet<T>>>| #[trigger]
            opt_current(before, o) && opt_referenced(before, counts, o) ==> opt_current(after, o),
{
    set_retained_current(before, after, counts);
    assert forall|o: Option<Arc<AttrSet<T>>>| #[trigger]
        opt_current(before, o) && opt_referenced(before, counts, o) implies opt_current(after, o) by {
        if o is Some {
            assert(set_current(before, o->0));
        }
    }
}

fn opt_get<T: AttrValue>(sets: &mut AttrSets<T>, o: &Option<T>) -> (r: Option<Arc<AttrSet<T>>>)
    requires
        old(sets).wf(),
        old(sets).next() < u64::MAX,
    ensures
        final(sets).wf(),
        opt_value(r) == opt_view(*o),
        opt_index(r) == opt_lookup(*final(sets), opt_view(*o)),
        opt_held(*final(sets), opt_view(*o)),
        opt_interned(*old(sets), *final(sets), opt_view(*o)),
        opt_held(*old(sets), opt_view(*o)) ==> *final(sets) == *old(sets),
        opt_known(*final(sets), r),
        old(sets).next() <= final(sets).next() <= old(sets).next() + 1,
        forall|n: u64|
            #[trigger] old(sets).assigned().contains_key(n) ==> final(sets).assigned().contains_key(n)
                && final(sets).assigned()[n] == old(sets).assigned()[n],
        forall|v: T::V| #[trigger] old(sets).lookup(v) is Some ==> final(sets).lookup(v) == old(sets).lookup(v),
{
    match o {
        Some(v) => {
            let r = sets.get(v);
            proof {
                sets.lookup_assigned(v@);
                assert forall|n: u64| #[trigger] old(sets).assigned().contains_key(n) implies n < old(sets).next() by {}
            }
            Some(r)
        },
        None => None,
    }
}

impl AttrSetsCxt {
    /// Whether every set of some combination of sets was interned here.
    pub open spec fn knows(self, ra: RouteAttrs) -> bool {
        &&& self.base.assigned().contains_key(ra.base.index)
        &&& self.base.assigned()[ra.base.index] == ra.base.value@
        &&& opt_known(self.comm, ra.comm)
        &&& opt_known(self.ext_comm, ra.ext_comm)
        &&& opt_known(self.extv6_comm, ra.extv6_comm)
        &&& opt_known(self.large_comm, ra.large_comm)
        &&& opt_known(self.unknown, ra.unknown)
    }

    pub closed spec fn wf(self) -> bool {
        &&& self.base.wf()
        &&& self.comm.wf()
        &&& self.ext_comm.wf()
        &&& self.extv6_comm.wf()
        &&& self.large_comm.wf()
        &&& self.unknown.wf()
        &&& forall|i: int| 0 <= i < self.route@.len() ==> self.knows(*(#[trigger] self.route@[i]))
        &&& forall|i: int, j: int|
            #![trigger self.route@[i], self.route@[j]]
            0 <= i < j < self.route@.len() ==> self.route@[i].spec_key() != self.route@[j].spec_key()
    }

    /// Whether every set of some combination of sets is held under its index.
    pub open spec fn current(self, ra: RouteAttrs) -> bool {
        &&& set_current(self.base, ra.base)
        &&& opt_current(self.comm, ra.comm)
        &&& opt_current(self.ext_comm, ra.ext_comm)
        &&& opt_current(self.extv6_comm, ra.extv6_comm)
        &&& opt_current(self.large_comm, ra.large_comm)
        &&& opt_current(self.unknown, ra.unknown)
    }

    /// Whether a combination of sets is the shared one.
    pub open spec fn shares(self, r: Arc<RouteAttrs>) -> bool {
        self.route@.contains(r) && self.current(*r)
    }

    /// Whether there is a combination with the given key.
    pub open spec fn has_key(self, key: RouteAttrsKey) -> bool {
        exists|i: int| 0 <= i < self.route@.len() && (#[trigger] self.route@[i]).spec_key() == key
    }

    /// Whether a number of further values can be interned.
    pub open spec fn room(self, n: nat) -> bool {
        &&& self.base.next() + n <= u64::MAX
        &&& self.comm.next() + n <= u64::MAX
        &&& self.ext_comm.next() + n <= u64::MAX
        &&& self.extv6_comm.next() + n <= u64::MAX
        &&& self.large_comm.next() + n <= u64::MAX
        &&& self.unknown.next() + n <= u64::MAX
    }

    /// Whether every part of the attributes is held.
    pub open spec fn held(self, v: AttrsView) -> bool {
        &&& self.base.lookup(v.base) is Some
        &&& opt_held(self.comm, v.comm)
        &&& opt_held(self.ext_comm, v.ext_comm)
        &&& opt_held(self.extv6_comm, v.extv6_comm)
        &&& opt_held(self.large_comm, v.large_comm)
        &&& opt_held(self.unknown, v.unknown)
    }

    /// The key of attributes that are held.
    pub open spec fn key_of(self, v: AttrsView) -> RouteAttrsKey {
        RouteAttrsKey {
            base: self.base.lookup(v.base)->0,
            comm: opt_lookup(self.comm, v.comm),
            ext_comm: opt_lookup(self.ext_comm, v.ext_comm),
            extv6_comm: opt_lookup(self.extv6_comm, v.extv6_comm),
            large_comm: opt_lookup(self.large_comm, v.large_comm),
            unknown: opt_lookup(self.unknown, v.unknown),
        }
    }

    /// Attributes that differ have different keys.
    pub proof fn keys_distinct(self, v: AttrsView, w: AttrsView)
        requires
            self.wf(),
            self.held(v),
            self.held(w),
            self.key_of(v) == self.key_of(w),
        ensures
            v == w,
    {
        self.base.lookup_assigned(v.base);
        self.base.lookup_assigned(w.base);
        if v.comm is Some && w.comm is Some {
            self.comm.lookup_assigned(v.comm->0);
            self.comm.lookup_assigned(w.comm->0);
        }
        if v.ext_comm is Some && w.ext_comm is Some {
            self.ext_comm.lookup_assigned(v.ext_comm->0);
            self.ext_comm.lookup_assigned(w.ext_comm->0);
        }
        if v.extv6_comm is Some && w.extv6_comm is Some {
            self.extv6_comm.lookup_assigned(v.extv6_comm->0);
            self.extv6_comm.lookup_assigned(w.extv6_comm->0);
        }
        if v.large_comm is Some && w.large_comm is Some {
            self.large_comm.lookup_assigned(v.large_comm->0);
            self.large_comm.lookup_assigned(w.large_comm->0);
        }
        if v.unknown is Some && w.unknown is Some {
            self.unknown.lookup_assigned(v.unknown->0);
            self.unknown.lookup_assigned(w.unknown->0);
        }
    }

    pub fn new() -> (c: AttrSetsCxt)
        ensures
            c.wf(),
            c.room((u64::MAX - 1) as nat),
            c.route@ == Seq::<Arc<RouteAttrs>>::empty(),
            forall|v: AttrsView| !#[trigger] c.held(v),
            forall|ra: RouteAttrs| !#[trigger] c.knows(ra),
    {
        AttrSetsCxt {
            base: AttrSets::new(),
            comm: AttrSets::new(),
            ext_comm: AttrSets::new(),
            extv6_comm: AttrSets::new(),
            large_comm: AttrSets::new(),
            unknown: AttrSets::new(),
            route: Vec::new(),
        }
    }

    /// The shared copy of the given attributes.
    pub fn get_route_attr_sets(&mut self, attrs: &Attrs) -> (r: Arc<RouteAttrs>)
        requires
            old(self).wf(),
            old(self).room(1),
        ensures
            final(self).wf(),
            r.attrs() == attrs@,
            r.spec_key() == final(self).key_of(attrs@),
            final(self).held(attrs@),
            final(self).knows(*r),
            got(*old(self), *final(self), attrs@, r),
            old(self).held(attrs@) && old(self).has_key(old(self).key_of(attrs@)) ==> *final(self) == *old(self),
            forall|ra: RouteAttrs| #[trigger] old(self).knows(ra) ==> final(self).knows(ra),
            forall|v: AttrsView| #[
                trigger
            ] old(self).held(v) ==> final(self).held(v) && final(self).key_of(v) == old(self).key_of(v),
            forall|n: nat| n >= 1 && #[trigger] old(self).room(n) ==> final(self).room((n - 1) as nat),
    {
        let ghost before = *self;
        let route_attrs = RouteAttrs {
            base: self.base.get(&attrs.base),
            comm: opt_get(&mut self.comm, &attrs.comm),
            ext_comm: opt_get(&mut self.ext_comm, &attrs.ext_comm),
            extv6_comm: opt_get(&mut self.extv6_comm, &attrs.extv6_comm),
            large_comm: opt_get(&mut self.large_comm, &attrs.large_comm),
            unknown: opt_get(&mut self.unknown, &attrs.unknown),
        };
        proof {
            self.base.lookup_assigned(attrs@.base);
            assert(self.knows(route_attrs));
            assert forall|ra: RouteAttrs| #[trigger] before.knows(ra) implies self.knows(ra) by {}
            assert(self.wf());
            assert(self.current(route_attrs));
        }
        let ghost mid = *self;
        let key = route_attrs.key();
        let mut i: usize = 0;
        while i < self.route.len()
            invariant
                self.wf(),
                *self == mid,
                before == *old(self),
                before.wf(),
                self.route == before.route,
                self.current(route_attrs),
                interned(before.base, self.base, attrs@.base),
                opt_interned(before.comm, self.comm, attrs@.comm),
                opt_interned(before.ext_comm, self.ext_comm, attrs@.ext_comm),
                opt_interned(before.extv6_comm, self.extv6_comm, attrs@.extv6_comm),
                opt_interned(before.large_comm, self.large_comm, attrs@.large_comm),
                opt_interned(before.unknown, self.unknown, attrs@.unknown),
                forall|ra: RouteAttrs| #[trigger] before.knows(ra) ==> self.knows(ra),
                i <= self.route@.len(),
                forall|k: int| 0 <= k < i ==> (#[trigger] self.route@[k]).spec_key() != key,
                key == route_attrs.spec_key(),
                self.knows(route_attrs),
                route_attrs.attrs() == attrs@,
                route_attrs.spec_key() == self.key_of(attrs@),
                self.held(attrs@),
                forall|v: AttrsView| #[
                    trigger
                ] old(self).held(v) ==> self.held(v) && self.key_of(v) == old(self).key_of(v),
                forall|n: nat| n >= 1 && #[trigger] old(self).room(n) ==> self.room((n - 1) as nat),
            decreases self.route@.len() - i,
        {
            if self.route[i].key() == key {
                proof {
                    assert(self.knows(*self.route@[i as int]));
                    let found = *self.route@[i as int];
                    assert(found.attrs() == route_attrs.attrs());
                    assert(before.has_key(key));
                }
                return share(&self.route[i]);
            }
            i += 1;
        }
        assert(!before.has_key(key));
        let route_attrs = Arc::new(route_attrs);
        self.route.push(share(&route_attrs));
        proof {
            assert(self.route@.last() == route_attrs);
            assert forall|k: int| 0 <= k < self.route@.len() implies self.knows(*(#[trigger] self.route@[k])) by {
                if k < before.route@.len() {
                    assert(mid.knows(*mid.route@[k]));
                }
            }
        }
        route_attrs
    }

    /// Drops the combinations whose only remaining holder is this structure,
    /// given how many holders each has.
    pub fn retain_routes(&mut self, counts: &Vec<usize>)
        requires
            old(self).wf(),
            counts@.len() == old(self).route@.len(),
        ensures
            final(self).wf(),
            final(self).route@ == kept(old(self).route@, counts@),
            final(self).base == old(self).base,
            final(self).comm == old(self).comm,
            final(self).ext_comm == old(self).ext_comm,
            final(self).extv6_comm == old(self).extv6_comm,
            final(self).large_comm == old(self).large_comm,
            final(self).unknown == old(self).unknown,
    {
        let ghost before = *self;
        retain_entries(&mut self.route, counts);
        proof {
            let f = |x: Arc<RouteAttrs>| x.spec_key();
            kept_members(before.route@, counts@);
            kept_distinct(before.route@, counts@, f);
            assert forall|k: int| 0 <= k < self.route@.len() implies self.knows(*(#[trigger] self.route@[k])) by {
                assert(self.route@[k] == kept(before.route@, counts@)[k]);
                let i = choose|i: int|
                    0 <= i < before.route@.len() && counts@[i] > 1 && #[trigger] before.route@[i] == kept(
                        before.route@,
                        counts@,
                    )[k];
                assert(before.knows(*before.route@[i]));
            }
            assert forall|i: int, j: int|
                #![trigger self.route@[i], self.route@[j]]
                0 <= i < j < self.route@.len() implies self.route@[i].spec_key() != self.route@[j].spec_key() by {
                assert(f(kept(before.route@, counts@)[i]) != f(kept(before.route@, counts@)[j]));
            }
        }
    }

    /// Releases interned attribute sets that are no longer referenced by any
    /// route. The combinations are swept first so the per-category sets they
    /// hold are released too. How many holders there are is up to the rest of the
    /// program.
    pub fn sweep(&mut self)
        requires
            old(self).wf(),
        ensures
            final(self).wf(),
            exists|counts: Counts| #[trigger] swept(*old(self), *final(self), counts),
            forall|n: nat| #[trigger] final(self).room(n) == old(self).room(n),
            forall|ra: RouteAttrs| #[trigger] final(self).knows(ra) == old(self).knows(ra),
    {
        let ghost before = *self;
        let route = count_holders(&self.route);
        self.retain_routes(&route);
        let ghost mid = *self;
        self.base.sweep();
        self.comm.sweep();
        self.ext_comm.sweep();
        self.extv6_comm.sweep();
        self.large_comm.sweep();
        self.unknown.sweep();
        proof {
            assert forall|k: int| 0 <= k < self.route@.len() implies self.knows(*(#[trigger] self.route@[k])) by {
                assert(mid.knows(*mid.route@[k]));
            }
            let counts = Counts {
                route: route@,
                base: choose|c: Seq<usize>| #[trigger] retained(mid.base, self.base, c),
                comm: choose|c: Seq<usize>| #[trigger] retained(mid.comm, self.comm, c),
                ext_comm: choose|c: Seq<usize>| #[trigger] retained(mid.ext_comm, self.ext_comm, c),
                extv6_comm: choose|c: Seq<usize>| #[trigger] retained(mid.extv6_comm, self.extv6_comm, c),
                large_comm: choose|c: Seq<usize>| #[trigger] retained(mid.large_comm, self.large_comm, c),
                unknown: choose|c: Seq<usize>| #[trigger] retained(mid.unknown, self.unknown, c),
            };
            assert(swept(before, *self, counts));
        }
    }
}

// ===== laws =====

/// What interning attributes comes to: the shared combination of their sets,
/// which is a new one only if there was none with its key.
pub open spec fn got(before: AttrSetsCxt, after: AttrSetsCxt, attrs: AttrsView, r: Arc<RouteAttrs>) -> bool {
    &&& r.attrs() == attrs
    &&& after.shares(r)
    &&& interned(before.base, after.base, attrs.base)
    &&& opt_interned(before.comm, after.comm, attrs.comm)
    &&& opt_interned(before.ext_comm, after.ext_comm, attrs.ext_comm)
    &&& opt_interned(before.extv6_comm, after.extv6_comm, attrs.extv6_comm)
    &&& opt_interned(before.large_comm, after.large_comm, attrs.large_comm)
    &&& opt_interned(before.unknown, after.unknown, attrs.unknown)
    &&& if before.has_key(r.spec_key()) {
        after.route == before.route
    } else {
        after.route@ == before.route@.push(r)
    }
}

/// Whether each state follows from the one before by interning the attributes of
/// the next combination, which is what that gave.
pub open spec fn interning(states: Seq<AttrSetsCxt>, list: Seq<Arc<RouteAttrs>>) -> bool {
    &&& states.len() == list.len() + 1
    &&& forall|i: int|
        #![trigger list[i]]
        0 <= i < list.len() ==> states[i + 1].wf() && got(states[i], states[i + 1], list[i].attrs(), list[i])
}

/// Whether combinations are what interning attributes gave, one after the other,
/// and nothing else was interned.
pub open spec fn got_all(before: AttrSetsCxt, after: AttrSetsCxt, list: Seq<Arc<RouteAttrs>>) -> bool {
    exists|states: Seq<AttrSetsCxt>| #[trigger]
        interning(states, list) && states[0] == before && states.last() == after
}

/// Whether every shared combination is still shared.
pub open spec fn keeps_shared(before: AttrSetsCxt, after: AttrSetsCxt) -> bool {
    forall|r: Arc<RouteAttrs>| #[trigger] before.shares(r) ==> after.shares(r)
}

/// Whether all combinations are shared.
pub open spec fn all_shared(cxt: AttrSetsCxt, list: Seq<Arc<RouteAttrs>>) -> bool {
    forall|i: int| 0 <= i < list.len() ==> cxt.shares(#[trigger] list[i])
}

/// Whether at most that many values were interned.
pub open spec fn spends(a: AttrSetsCxt, b: AttrSetsCxt, k: nat) -> bool {
    forall|n: nat| n >= k && #[trigger] a.room(n) ==> b.room((n - k) as nat)
}

/// A higher bound holds too.
pub(crate) proof fn spends_less(a: AttrSetsCxt, b: AttrSetsCxt, k: nat, n: nat)
    requires
        spends(a, b, k),
        k <= n,
    ensures
        spends(a, b, n),
{
    assert forall|m: nat| m >= n && #[trigger] a.room(m) implies b.room((m - n) as nat) by {
        assert(b.room((m - k) as nat));
    }
}

/// Nothing is interned.
pub(crate) proof fn got_none(cxt: AttrSetsCxt)
    ensures
        got_all(cxt, cxt, Seq::empty()),
{
    assert(interning(seq![cxt], Seq::<Arc<RouteAttrs>>::empty()));
}

/// One more combination is interned.
pub(crate) proof fn got_more(
    before: AttrSetsCxt,
    mid: AttrSetsCxt,
    after: AttrSetsCxt,
    list: Seq<Arc<RouteAttrs>>,
    r: Arc<RouteAttrs>,
)
    requires
        got_all(before, mid, list),
        got(mid, after, r.attrs(), r),
        after.wf(),
    ensures
        got_all(before, after, list.push(r)),
{
    let states = choose|states: Seq<AttrSetsCxt>| #[trigger]
        interning(states, list) && states[0] == before && states.last() == mid;
    let more = list.push(r);
    let next = states.push(after);
    assert forall|i: int| #![trigger more[i]] 0 <= i < more.len() implies next[i + 1].wf() && got(
        next[i],
        next[i + 1],
        more[i].attrs(),
        more[i],
    ) by {
        if i < list.len() {
            assert(more[i] == list[i]);
        }
    }
    assert(interning(next, more));
}

/// Interning attributes, one after the other, makes all of them shared, keeps
/// what was shared before, and takes no more room than there are attributes.
pub proof fn interning_shares(before: AttrSetsCxt, after: AttrSetsCxt, list: Seq<Arc<RouteAttrs>>)
    requires
        before.wf(),
        got_all(before, after, list),
    ensures
        after.wf(),
        all_shared(after, list),
        keeps_shared(before, after),
        spends(before, after, list.len()),
    decreases list.len(),
{
    if list.len() == 0 {
        let states = choose|states: Seq<AttrSetsCxt>| #[trigger]
            interning(states, list) && states[0] == before && states.last() == after;
        assert(states.len() == 1);
    } else {
        let front = list.drop_last();
        let q = list.last();
        let states = choose|states: Seq<AttrSetsCxt>| #[trigger]
            interning(states, list) && states[0] == before && states.last() == after;
        let mid = states[front.len() as int];
        assert(interning(states.drop_last(), front)) by {
            assert forall|i: int| #![trigger front[i]] 0 <= i < front.len() implies states.drop_last()[i + 1].wf()
                && got(states.drop_last()[i], states.drop_last()[i + 1], front[i].attrs(), front[i]) by {
                assert(front[i] == list[i]);
            }
        }
        interning_shares(before, mid, front);
        assert(list[front.len() as int] == q);
        assert forall|r: Arc<RouteAttrs>| #[trigger] mid.shares(r) implies after.shares(r) by {
            interning_keeps_shared_by(mid, after, q, r);
        }
        assert forall|i: int| 0 <= i < list.len() implies after.shares(#[trigger] list[i]) by {
            if i < front.len() {
                assert(mid.shares(front[i]));
            }
        }
        assert forall|n: nat| n >= list.len() && #[trigger] before.room(n) implies after.room(
            (n - list.len()) as nat,
        ) by {
            assert(mid.room((n - front.len()) as nat));
        }
    }
}

proof fn interning_keeps_shared_by(
    before: AttrSetsCxt,
    after: AttrSetsCxt,
    q: Arc<RouteAttrs>,
    r: Arc<RouteAttrs>,
)
    requires
        before.wf(),
        after.wf(),
        before.shares(r),
        got(before, after, q.attrs(), q),
    ensures
        after.shares(r),
{
    let attrs = choose|attrs: AttrsView| #[trigger] got(before, after, attrs, q);
    interning_keeps_shared(before, after, attrs, q, r);
}

/// Among the combinations that were interned one after the other, two have the
/// same key exactly if they carry the same attributes.
pub proof fn interned_keys_identify(
    before: AttrSetsCxt,
    after: AttrSetsCxt,
    list: Seq<Arc<RouteAttrs>>,
    i: int,
    j: int,
)
    requires
        before.wf(),
        got_all(before, after, list),
        0 <= i < list.len(),
        0 <= j < list.len(),
    ensures
        list[i].spec_key() == list[j].spec_key() <==> list[i].attrs() == list[j].attrs(),
{
    interning_shares(before, after, list);
    assert(after.shares(list[i]) && after.shares(list[j]));
    keys_identify(after, list[i], list[j]);
}

/// How many holders each entry has.
pub struct Counts {
    pub route: Seq<usize>,
    pub base: Seq<usize>,
    pub comm: Seq<usize>,
    pub ext_comm: Seq<usize>,
    pub extv6_comm: Seq<usize>,
    pub large_comm: Seq<usize>,
    pub unknown: Seq<usize>,
}

/// What a sweep comes to: exactly the combinations and sets with other holders
/// are kept, in order. The sets are counted once the combinations are dropped.
pub open spec fn swept(before: AttrSetsCxt, after: AttrSetsCxt, counts: Counts) -> bool {
    &&& counts.route.len() == before.route@.len()
    &&& after.route@ == kept(before.route@, counts.route)
    &&& retained(before.base, after.base, counts.base)
    &&& retained(before.comm, after.comm, counts.comm)
    &&& retained(before.ext_comm, after.ext_comm, counts.ext_comm)
    &&& retained(before.extv6_comm, after.extv6_comm, counts.extv6_comm)
    &&& retained(before.large_comm, after.large_comm, counts.large_comm)
    &&& retained(before.unknown, after.unknown, counts.unknown)
}

/// Whether a combination and its sets have other holders during a sweep, as those
/// of a value that is in use do.
pub open spec fn referenced(before: AttrSetsCxt, counts: Counts, r: Arc<RouteAttrs>) -> bool {
    &&& forall|i: int|
        #![trigger before.route@[i]]
        0 <= i < before.route@.len() && before.route@[i] == r ==> counts.route[i] > 1
    &&& set_referenced(before.base, counts.base, r.base)
    &&& opt_referenced(before.comm, counts.comm, r.comm)
    &&& opt_referenced(before.ext_comm, counts.ext_comm, r.ext_comm)
    &&& opt_referenced(before.extv6_comm, counts.extv6_comm, r.extv6_comm)
    &&& opt_referenced(before.large_comm, counts.large_comm, r.large_comm)
    &&& opt_referenced(before.unknown, counts.unknown, r.unknown)
}

/// Whether two combinations carry the same attributes.
pub open spec fn same_attrs(a: Arc<RouteAttrs>, b: Arc<RouteAttrs>) -> bool {
    a.attrs() == b.attrs()
}

/// Whether a combination carries the given attributes.
pub open spec fn carries(r: Arc<RouteAttrs>, attrs: AttrsView) -> bool {
    r.attrs() == attrs
}

/// Two shared combinations have the same key exactly if they carry the same
/// attributes, and are then the same.
pub proof fn keys_identify(cxt: AttrSetsCxt, a: Arc<RouteAttrs>, b: Arc<RouteAttrs>)
    requires
        cxt.wf(),
        cxt.shares(a),
        cxt.shares(b),
    ensures
        a.spec_key() == b.spec_key() <==> a.attrs() == b.attrs(),
        a == b <==> a.attrs() == b.attrs(),
{
    let i = choose|i: int| 0 <= i < cxt.route@.len() && cxt.route@[i] == a;
    let j = choose|j: int| 0 <= j < cxt.route@.len() && cxt.route@[j] == b;
    assert(cxt.knows(*cxt.route@[i]) && cxt.knows(*cxt.route@[j]));
    if same_attrs(a, b) {
        assert(a.spec_key() == b.spec_key());
        if i < j {
            assert(cxt.route@[i].spec_key() != cxt.route@[j].spec_key());
        } else if j < i {
            assert(cxt.route@[j].spec_key() != cxt.route@[i].spec_key());
        }
    }
}

/// A shared combination stays shared when attributes are interned.
pub proof fn interning_keeps_shared(
    before: AttrSetsCxt,
    after: AttrSetsCxt,
    attrs: AttrsView,
    q: Arc<RouteAttrs>,
    r: Arc<RouteAttrs>,
)
    requires
        before.wf(),
        after.wf(),
        before.shares(r),
        got(before, after, attrs, q),
    ensures
        after.shares(r),
{
    let i = choose|i: int| 0 <= i < before.route@.len() && before.route@[i] == r;
    assert(after.route@[i] == r);
    AttrSets::interned_lookup(before.base, after.base, attrs.base);
    opt_interned_current(before.comm, after.comm, attrs.comm);
    opt_interned_current(before.ext_comm, after.ext_comm, attrs.ext_comm);
    opt_interned_current(before.extv6_comm, after.extv6_comm, attrs.extv6_comm);
    opt_interned_current(before.large_comm, after.large_comm, attrs.large_comm);
    opt_interned_current(before.unknown, after.unknown, attrs.unknown);
}

/// A shared combination that is in use stays shared in a sweep.
pub proof fn sweep_keeps_referenced(before: AttrSetsCxt, after: AttrSetsCxt, counts: Counts, r: Arc<RouteAttrs>)
    requires
        before.wf(),
        after.wf(),
        before.shares(r),
        swept(before, after, counts),
        referenced(before, counts, r),
    ensures
        after.shares(r),
{
    kept_members(before.route@, counts.route);
    let i = choose|i: int| 0 <= i < before.route@.len() && before.route@[i] == r;
    assert(before.route@[i] == r);
    set_retained_current(before.base, after.base, counts.base);
    opt_retained_current(before.comm, after.comm, counts.comm);
    opt_retained_current(before.ext_comm, after.ext_comm, counts.ext_comm);
    opt_retained_current(before.extv6_comm, after.extv6_comm, counts.extv6_comm);
    opt_retained_current(before.large_comm, after.large_comm, counts.large_comm);
    opt_retained_current(before.unknown, after.unknown, counts.unknown);
}

/// A sweep releases everything once nothing is in use anymore.
pub proof fn sweep_releases_all(before: AttrSetsCxt, after: AttrSetsCxt, counts: Counts)
    requires
        swept(before, after, counts),
        forall|i: int| 0 <= i < counts.route.len() ==> #[trigger] counts.route[i] <= 1,
        forall|i: int| 0 <= i < counts.base.len() ==> #[trigger] counts.base[i] <= 1,
        forall|i: int| 0 <= i < counts.comm.len() ==> #[trigger] counts.comm[i] <= 1,
        forall|i: int| 0 <= i < counts.ext_comm.len() ==> #[trigger] counts.ext_comm[i] <= 1,
        forall|i: int| 0 <= i < counts.extv6_comm.len() ==> #[trigger] counts.extv6_comm[i] <= 1,
        forall|i: int| 0 <= i < counts.large_comm.len() ==> #[trigger] counts.large_comm[i] <= 1,
        forall|i: int| 0 <= i < counts.unknown.len() ==> #[trigger] counts.unknown[i] <= 1,
    ensures
        after.route@.len() == 0,
        after.base.entries().len() == 0,
        after.comm.entries().len() == 0,
        after.ext_comm.entries().len() == 0,
        after.extv6_comm.entries().len() == 0,
        after.large_comm.entries().len() == 0,
        after.unknown.entries().len() == 0,
{
    kept_none(before.route@, counts.route);
    kept_none(before.base.entries(), counts.base);
    kept_none(before.comm.entries(), counts.comm);
    kept_none(before.ext_comm.entries(), counts.ext_comm);
    kept_none(before.extv6_comm.entries(), counts.extv6_comm);
    kept_none(before.large_comm.entries(), counts.large_comm);
    kept_none(before.unknown.entries(), counts.unknown);
}

/// Whether one state follows from another by interning some attributes, or by a
/// sweep while a combination is in use.
pub open spec fn follows(before: AttrSetsCxt, after: AttrSetsCxt, r: Arc<RouteAttrs>) -> bool {
    ||| exists|attrs: AttrsView, q: Arc<RouteAttrs>| #[trigger] got(before, after, attrs, q)
    ||| exists|counts: Counts| #[trigger] swept(before, after, counts) && referenced(before, counts, r)
}

/// Whether the states follow from each other while a combination is in use.
pub open spec fn history(states: Seq<AttrSetsCxt>, r: Arc<RouteAttrs>) -> bool {
    &&& states.len() > 0
    &&& forall|i: int| 0 <= i < states.len() ==> (#[trigger] states[i]).wf()
    &&& forall|i: int|
        #![trigger states[i]]
        0 <= i < states.len() - 1 ==> follows(states[i], states[i + 1], r)
}

/// A combination stays shared as long as it is in use.
pub proof fn shared_while_used(states: Seq<AttrSetsCxt>, r: Arc<RouteAttrs>)
    requires
        history(states, r),
        states[0].shares(r),
    ensures
        states.last().shares(r),
    decreases states.len(),
{
    if states.len() > 1 {
        let front = states.drop_last();
        assert forall|i: int| 0 <= i < front.len() implies (#[trigger] front[i]).wf() by {
            assert(states[i].wf());
        }
        assert forall|i: int|
            #![trigger front[i]]
            0 <= i < front.len() - 1 implies follows(front[i], front[i + 1], r) by {
            assert(states[i] == front[i]);
        }
        shared_while_used(front, r);
        let n = states.len() - 2;
        let before = states[n];
        let after = states[n + 1];
        assert(follows(before, after, r));
        if exists|attrs: AttrsView, q: Arc<RouteAttrs>| #[trigger] got(before, after, attrs, q) {
            let (attrs, q) = choose|attrs: AttrsView, q: Arc<RouteAttrs>| #[trigger] got(before, after, attrs, q);
            interning_keeps_shared(before, after, attrs, q, r);
        } else {
            let counts = choose|counts: Counts| #[trigger]
                swept(before, after, counts) && referenced(before, counts, r);
            sweep_keeps_referenced(before, after, counts, r);
        }
    }
}

/// Whatever was interned and swept in between, interning attributes gives the
/// shared combination that is in use exactly if it carries them, and then adds
/// nothing.
pub proof fn used_attrs_are_shared(
    states: Seq<AttrSetsCxt>,
    after: AttrSetsCxt,
    r: Arc<RouteAttrs>,
    attrs: AttrsView,
    q: Arc<RouteAttrs>,
)
    requires
        history(states, r),
        states[0].shares(r),
        after.wf(),
        got(states.last(), after, attrs, q),
    ensures
        q == r <==> attrs == r.attrs(),
        q.spec_key() == r.spec_key() <==> attrs == r.attrs(),
        attrs == r.attrs() ==> after == states.last(),
{
    shared_while_used(states, r);
    let before = states.last();
    interning_keeps_shared(before, after, attrs, q, r);
    keys_identify(after, q, r);
    if carries(r, attrs) {
        let i = choose|i: int| 0 <= i < before.route@.len() && before.route@[i] == r;
        assert(before.route@[i].spec_key() == q.spec_key());
        assert(before.has_key(q.spec_key()));
    }
}

} // verus!
