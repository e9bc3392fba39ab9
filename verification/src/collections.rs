//! Ordered collections.

use vstd::prelude::*;

verus! {

/// Whether `a` comes before `b` in lexicographic order.
pub open spec fn lex_lt(a: Seq<u128>, b: Seq<u128>) -> bool
    decreases a.len(),
{
    if b.len() == 0 {
        false
    } else if a.len() == 0 {
        true
    } else if a[0] != b[0] {
        a[0] < b[0]
    } else {
        lex_lt(a.skip(1), b.skip(1))
    }
}

pub proof fn lex_irreflexive(a: Seq<u128>)
    ensures
        !lex_lt(a, a),
    decreases a.len(),
{
    if a.len() > 0 {
        lex_irreflexive(a.skip(1));
    }
}

pub proof fn lex_transitive(a: Seq<u128>, b: Seq<u128>, c: Seq<u128>)
    requires
        lex_lt(a, b),
        lex_lt(b, c),
    ensures
        lex_lt(a, c),
    decreases a.len(),
{
    if a.len() > 0 && a[0] == b[0] && b[0] == c[0] {
        lex_transitive(a.skip(1), b.skip(1), c.skip(1));
    }
}

pub proof fn lex_total(a: Seq<u128>, b: Seq<u128>)
    ensures
        a == b || lex_lt(a, b) || lex_lt(b, a),
    decreases a.len(),
{
    if a.len() == 0 || b.len() == 0 {
        assert(a.len() == b.len() ==> a =~= b);
    } else if a[0] == b[0] {
        lex_total(a.skip(1), b.skip(1));
        if a.skip(1) == b.skip(1) {
            assert(a =~= seq![a[0]] + a.skip(1));
            assert(b =~= seq![b[0]] + b.skip(1));
        }
    }
}

/// A value by which entries of a [`Table`] are found and ordered.
pub trait Key: View + Sized {
    /// The numbers by which two keys are compared, most significant first.
    spec fn code(v: Self::V) -> Seq<u128>;

    /// Different keys have different codes.
    proof fn code_injective(a: Self::V, b: Self::V)
        requires
            Self::code(a) == Self::code(b),
        ensures
            a == b,
    ;

    fn to_code(&self) -> (c: Vec<u128>)
        ensures
            c@ == Self::code(self@),
    ;

    fn copy_key(&self) -> (k: Self)
        ensures
            k@ == self@,
    ;
}

/// Compares two codes.
pub(crate) fn code_lt(a: &Vec<u128>, b: &Vec<u128>) -> (r: bool)
    ensures
        r == lex_lt(a@, b@),
{
    let mut i: usize = 0;
    assert(a@.skip(0) =~= a@);
    assert(b@.skip(0) =~= b@);
    while i < a.len() && i < b.len()
        invariant
            i <= a@.len(),
            i <= b@.len(),
            lex_lt(a@, b@) == lex_lt(a@.skip(i as int), b@.skip(i as int)),
        decreases a@.len() - i,
    {
        proof {
            assert(a@.skip(i as int).skip(1) =~= a@.skip(i + 1));
            assert(b@.skip(i as int).skip(1) =~= b@.skip(i + 1));
        }
        if a[i] != b[i] {
            return a[i] < b[i];
        }
        i += 1;
    }
    b.len() > i
}

/// A map whose entries are kept in the order of their keys.
pub struct Table<K: Key, T> {
    keys: Vec<K>,
    vals: Vec<T>,
}

impl<K: Key, T> View for Table<K, T> {
    type V = Map<K::V, T>;

    closed spec fn view(&self) -> Map<K::V, T> {
        Map::new(
            |k: K::V| exists|i: int| self.holds(k, i),
            |k: K::V| self.vals@[choose|i: int| self.holds(k, i)],
        )
    }
}

impl<K: Key, T> Table<K, T> {
    spec fn code_at(self, i: int) -> Seq<u128> {
        K::code(self.keys@[i]@)
    }

    spec fn ascending(keys: Seq<K>) -> bool {
        forall|i: int, j: int|
            0 <= i < j < keys.len() ==> lex_lt(#[trigger] K::code(keys[i]@), #[trigger] K::code(keys[j]@))
    }

    #[verifier::type_invariant]
    spec fn sorted(self) -> bool {
        &&& self.keys@.len() == self.vals@.len()
        &&& Self::ascending(self.keys@)
    }

    spec fn holds(self, k: K::V, i: int) -> bool {
        0 <= i < self.keys@.len() && self.keys@[i]@ == k
    }

    /// The keys, in ascending order.
    pub closed spec fn keys(self) -> Seq<K::V> {
        Seq::new(self.keys@.len(), |i: int| self.keys@[i]@)
    }

    /// A key stands at one place only.
    proof fn unique(&self, k: K::V, i: int, j: int)
        requires
            self.sorted(),
            self.holds(k, i),
            self.holds(k, j),
        ensures
            i == j,
    {
        lex_irreflexive(K::code(k));
        if i < j {
            assert(lex_lt(self.code_at(i), self.code_at(j)));
        }
        if j < i {
            assert(lex_lt(self.code_at(j), self.code_at(i)));
        }
    }

    proof fn entry(&self, k: K::V, i: int)
        requires
            self.sorted(),
            self.holds(k, i),
        ensures
            self@.contains_key(k),
            self@[k] == self.vals@[i],
    {
        let j = choose|j: int| self.holds(k, j);
        self.unique(k, i, j);
    }

    /// Whether the keys in order are those of the map, each once, in ascending
    /// order of their codes.
    pub open spec fn keys_sorted(self) -> bool {
        &&& self.keys().to_set() == self@.dom()
        &&& self.keys().no_duplicates()
        &&& self@.dom().finite()
        &&& forall|i: int, j: int|
            0 <= i < j < self.keys().len() ==> lex_lt(
                #[trigger] K::code(self.keys()[i]),
                #[trigger] K::code(self.keys()[j]),
            )
    }

    proof fn lemma_keys_sorted(&self)
        requires
            self.sorted(),
        ensures
            self.keys_sorted(),
    {
        assert forall|k: K::V| self.keys().contains(k) <==> self@.contains_key(k) by {
            if self.keys().contains(k) {
                let i = choose|i: int| 0 <= i < self.keys().len() && self.keys()[i] == k;
                self.entry(k, i);
            }
            if self@.contains_key(k) {
                let i = choose|i: int| self.holds(k, i);
                assert(self.keys()[i] == k);
            }
        }
        assert(self.keys().to_set() =~= self@.dom());
        assert forall|i: int, j: int|
            0 <= i < j < self.keys().len() implies lex_lt(
            #[trigger] K::code(self.keys()[i]),
            #[trigger] K::code(self.keys()[j]),
        ) by {
            assert(lex_lt(self.code_at(i), self.code_at(j)));
        }
        assert forall|i: int, j: int|
            0 <= i < self.keys().len() && 0 <= j < self.keys().len() && i != j implies self.keys()[i]
            != self.keys()[j] by {
            if self.keys()[i] == self.keys()[j] {
                self.unique(self.keys()[i], i, j);
            }
        }
        vstd::seq_lib::seq_to_set_is_finite(self.keys());
    }

    pub fn new() -> (t: Self)
        ensures
            t@ == Map::<K::V, T>::empty(),
            t.keys() == Seq::<K::V>::empty(),
    {
        let t = Table { keys: Vec::new(), vals: Vec::new() };
        assert(t@ =~= Map::<K::V, T>::empty());
        t
    }

    pub fn len(&self) -> (n: usize)
        ensures
            n == self.keys().len(),
            self.keys_sorted(),
    {
        proof {
            use_type_invariant(self);
            self.lemma_keys_sorted();
        }
        self.keys.len()
    }

    /// The place at which the key stands, or at which it would be inserted.
    fn search(&self, k: &K) -> (r: (bool, usize))
        ensures
            r.0 == self@.contains_key(k@),
            r.0 ==> self.holds(k@, r.1 as int),
            r.1 <= self.keys@.len(),
            forall|i: int| 0 <= i < r.1 ==> lex_lt(#[trigger] self.code_at(i), K::code(k@)),
            !r.0 ==> forall|i: int| r.1 <= i < self.keys@.len() ==> lex_lt(K::code(k@), #[trigger] self.code_at(i)),
    {
        proof {
            use_type_invariant(self);
        }
        let code = k.to_code();
        let mut i: usize = 0;
        while i < self.keys.len()
            invariant
                i <= self.keys@.len(),
                self.sorted(),
                code@ == K::code(k@),
                forall|j: int| 0 <= j < i ==> lex_lt(#[trigger] self.code_at(j), K::code(k@)),
            decreases self.keys@.len() - i,
        {
            let other = self.keys[i].to_code();
            if code_lt(&other, &code) {
                i += 1;
            } else {
                let before = code_lt(&code, &other);
                proof {
                    lex_total(code@, other@);
                    assert(self.code_at(i as int) == other@);
                    if before {
                        assert forall|j: int| i <= j < self.keys@.len() implies lex_lt(
                            K::code(k@),
                            #[trigger] self.code_at(j),
                        ) by {
                            if j > i {
                                lex_transitive(K::code(k@), self.code_at(i as int), self.code_at(j));
                            }
                        }
                        self.absent(k@, i as int);
                    } else {
                        K::code_injective(k@, self.keys@[i as int]@);
                        self.entry(k@, i as int);
                    }
                }
                return (!before, i);
            }
        }
        proof {
            self.absent(k@, i as int);
        }
        (false, i)
    }

    /// A key that falls between two neighbours is not in the table.
    proof fn absent(&self, k: K::V, n: int)
        requires
            0 <= n <= self.keys@.len(),
            forall|i: int| 0 <= i < n ==> lex_lt(#[trigger] self.code_at(i), K::code(k)),
            forall|i: int| n <= i < self.keys@.len() ==> lex_lt(K::code(k), #[trigger] self.code_at(i)),
        ensures
            !self@.contains_key(k),
    {
        lex_irreflexive(K::code(k));
        assert forall|i: int| !self.holds(k, i) by {
            if self.holds(k, i) {
                assert(self.code_at(i) == K::code(k));
            }
        }
    }

    pub fn contains_key(&self, k: &K) -> (b: bool)
        ensures
            b == self@.contains_key(k@),
    {
        self.search(k).0
    }

    pub fn get(&self, k: &K) -> (r: Option<&T>)
        ensures
            r == (if self@.contains_key(k@) { Some(&self@[k@]) } else { None }),
    {
        let (found, i) = self.search(k);
        proof {
            use_type_invariant(self);
        }
        if found {
            proof {
                self.entry(k@, i as int);
            }
            Some(&self.vals[i])
        } else {
            None
        }
    }

    pub fn get_mut(&mut self, k: &K) -> (r: Option<&mut T>)
        ensures
            final(self).keys() == old(self).keys(),
            match r {
                Some(v) => {
                    &&& old(self)@.contains_key(k@)
                    &&& *v == old(self)@[k@]
                    &&& final(self)@ == old(self)@.insert(k@, *final(v))
                },
                None => !old(self)@.contains_key(k@) && final(self)@ == old(self)@,
            },
    {
        let (found, i) = self.search(k);
        proof {
            use_type_invariant(&*self);
        }
        if found {
            proof {
                self.entry(k@, i as int);
                assert forall|t: Self|
                    t.keys == self.keys && #[trigger] t.vals@.len() == self.vals@.len() && (forall|j: int|
                        0 <= j < t.vals@.len() && j != i ==> t.vals@[j] == self.vals@[j]) implies t@
                    == self@.insert(k@, t.vals@[i as int]) by {
                    Self::updated(*self, t, k@, i as int);
                }
            }
            Some(&mut self.vals[i])
        } else {
            None
        }
    }

    /// Replacing the value at one place replaces the value of that key.
    proof fn updated(s: Self, t: Self, k: K::V, i: int)
        requires
            s.sorted(),
            s.holds(k, i),
            t.keys == s.keys,
            t.vals@.len() == s.vals@.len(),
            forall|j: int| 0 <= j < t.vals@.len() && j != i ==> t.vals@[j] == s.vals@[j],
        ensures
            t@ == s@.insert(k, t.vals@[i]),
    {
        assert forall|j: int| #![trigger t.code_at(j)] t.code_at(j) == s.code_at(j) by {}
        assert(t.sorted()) by {
            assert forall|i: int, j: int| 0 <= i < j < t.keys@.len() implies lex_lt(
                #[trigger] t.code_at(i),
                #[trigger] t.code_at(j),
            ) by {
                assert(lex_lt(s.code_at(i), s.code_at(j)));
            }
        }
        assert forall|x: K::V, j: int| t.holds(x, j) == s.holds(x, j) by {}
        let m = s@.insert(k, t.vals@[i]);
        assert forall|x: K::V| t@.contains_key(x) == m.contains_key(x) by {
            s.entry(k, i);
            if s@.contains_key(x) {
                let j = choose|j: int| s.holds(x, j);
                t.entry(x, j);
            }
        }
        assert forall|x: K::V| t@.contains_key(x) implies t@[x] == m[x] by {
            let j = choose|j: int| t.holds(x, j);
            t.entry(x, j);
            s.entry(x, j);
            if x == k {
                s.unique(k, i, j);
            }
        }
        assert(t@ =~= m);
    }

    pub fn insert(&mut self, k: K, v: T) -> (r: Option<T>)
        ensures
            final(self)@ == old(self)@.insert(k@, v),
            r == (if old(self)@.contains_key(k@) { Some(old(self)@[k@]) } else { None }),
            old(self)@.contains_key(k@) ==> final(self).keys() == old(self).keys(),
    {
        let (found, i) = self.search(&k);
        proof {
            use_type_invariant(&*self);
        }
        let ghost s = *self;
        if found {
            proof {
                self.entry(k@, i as int);
            }
            let mut val = v;
            std::mem::swap(&mut self.vals[i], &mut val);
            proof {
                Self::updated(s, *self, k@, i as int);
            }
            Some(val)
        } else {
            let mut t: Self = Table::new();
            std::mem::swap(self, &mut t);
            let Table { keys: mut keys, vals: mut vals } = t;
            keys.insert(i, k);
            vals.insert(i, v);
            proof {
                Self::inserted(s, Table { keys, vals }, k@, i as int);
            }
            *self = Table { keys, vals };
            None
        }
    }

    /// Making room for a new key between its neighbours adds that key.
    proof fn inserted(s: Self, t: Self, k: K::V, n: int)
        requires
            s.sorted(),
            0 <= n <= s.keys@.len(),
            !s@.contains_key(k),
            forall|i: int| 0 <= i < n ==> lex_lt(#[trigger] s.code_at(i), K::code(k)),
            forall|i: int| n <= i < s.keys@.len() ==> lex_lt(K::code(k), #[trigger] s.code_at(i)),
            t.keys@ == s.keys@.insert(n, t.keys@[n]),
            t.keys@[n]@ == k,
            t.vals@ == s.vals@.insert(n, t.vals@[n]),
        ensures
            t.sorted(),
            t@ == s@.insert(k, t.vals@[n]),
    {
        let old_place = |i: int| if i < n { i } else { i - 1 };
        assert forall|i: int| 0 <= i < t.keys@.len() && i != n implies #[trigger] t.code_at(i) == s.code_at(
            old_place(i),
        ) by {}
        assert(t.code_at(n) == K::code(k));
        assert forall|i: int, j: int| 0 <= i < j < t.keys@.len() implies lex_lt(
            #[trigger] K::code(t.keys@[i]@),
            #[trigger] K::code(t.keys@[j]@),
        ) by {
            assert(t.code_at(i) == K::code(t.keys@[i]@));
            assert(t.code_at(j) == K::code(t.keys@[j]@));
            if i == n {
                assert(lex_lt(K::code(k), s.code_at(old_place(j))));
            } else if j == n {
                assert(lex_lt(s.code_at(old_place(i)), K::code(k)));
            } else {
                assert(lex_lt(s.code_at(old_place(i)), s.code_at(old_place(j))));
            }
        }
        let m = s@.insert(k, t.vals@[n]);
        assert(t.holds(k, n));
        t.entry(k, n);
        assert forall|x: K::V| #![trigger t@.contains_key(x)] x != k implies t@.contains_key(x) == s@.contains_key(x)
            && (s@.contains_key(x) ==> t@[x] == s@[x]) by {
            if s@.contains_key(x) {
                let i = choose|i: int| s.holds(x, i);
                let j = if i < n { i } else { i + 1 };
                assert(t.holds(x, j));
                t.entry(x, j);
                s.entry(x, i);
            }
            if t@.contains_key(x) {
                let j = choose|j: int| t.holds(x, j);
                assert(s.holds(x, old_place(j)));
            }
        }
        assert(t@ =~= m);
    }

    pub fn remove(&mut self, k: &K) -> (r: Option<T>)
        ensures
            final(self)@ == old(self)@.remove(k@),
            r == (if old(self)@.contains_key(k@) { Some(old(self)@[k@]) } else { None }),
            !old(self)@.contains_key(k@) ==> final(self).keys() == old(self).keys(),
    {
        let (found, i) = self.search(k);
        proof {
            use_type_invariant(&*self);
        }
        let ghost s = *self;
        if found {
            proof {
                self.entry(k@, i as int);
            }
            let mut t: Self = Table::new();
            std::mem::swap(self, &mut t);
            let Table { keys: mut keys, vals: mut vals } = t;
            let _ = keys.remove(i);
            let val = vals.remove(i);
            proof {
                Self::removed(s, Table { keys, vals }, k@, i as int);
            }
            *self = Table { keys, vals };
            Some(val)
        } else {
            assert(self@.remove(k@) =~= self@);
            None
        }
    }

    /// Closing the gap that a key leaves removes that key.
    proof fn removed(s: Self, t: Self, k: K::V, n: int)
        requires
            s.sorted(),
            s.holds(k, n),
            t.keys@ == s.keys@.remove(n),
            t.vals@ == s.vals@.remove(n),
        ensures
            t.sorted(),
            t@ == s@.remove(k),
    {
        let old_place = |i: int| if i < n { i } else { i + 1 };
        assert forall|i: int| 0 <= i < t.keys@.len() implies #[trigger] t.code_at(i) == s.code_at(old_place(i)) by {}
        assert forall|i: int, j: int| 0 <= i < j < t.keys@.len() implies lex_lt(
            #[trigger] K::code(t.keys@[i]@),
            #[trigger] K::code(t.keys@[j]@),
        ) by {
            assert(t.code_at(i) == K::code(t.keys@[i]@));
            assert(t.code_at(j) == K::code(t.keys@[j]@));
            assert(lex_lt(s.code_at(old_place(i)), s.code_at(old_place(j))));
        }
        assert forall|x: K::V| #![trigger t@.contains_key(x)] t@.contains_key(x) == (x != k && s@.contains_key(x))
            && (t@.contains_key(x) ==> t@[x] == s@[x]) by {
            if s@.contains_key(x) && x != k {
                let i = choose|i: int| s.holds(x, i);
                let j = if i < n { i } else { i - 1 };
                assert(t.holds(x, j));
                t.entry(x, j);
                s.entry(x, i);
            }
            if t@.contains_key(x) {
                let j = choose|j: int| t.holds(x, j);
                assert(s.holds(x, old_place(j)));
                s.entry(x, old_place(j));
                if x == k {
                    s.unique(k, n, old_place(j));
                }
            }
        }
        assert(t@ =~= s@.remove(k));
    }

    pub fn key_at(&self, i: usize) -> (k: &K)
        requires
            i < self.keys().len(),
        ensures
            k@ == self.keys()[i as int],
            self@.contains_key(k@),
    {
        proof {
            use_type_invariant(self);
            self.entry(self.keys()[i as int], i as int);
        }
        &self.keys[i]
    }

    pub fn value_at(&self, i: usize) -> (v: &T)
        requires
            i < self.keys().len(),
        ensures
            self@.contains_key(self.keys()[i as int]),
            *v == self@[self.keys()[i as int]],
    {
        proof {
            use_type_invariant(self);
            self.entry(self.keys()[i as int], i as int);
        }
        &self.vals[i]
    }

    pub fn value_at_mut(&mut self, i: usize) -> (v: &mut T)
        requires
            i < old(self).keys().len(),
        ensures
            old(self)@.contains_key(old(self).keys()[i as int]),
            *v == old(self)@[old(self).keys()[i as int]],
            final(self).keys() == old(self).keys(),
            final(self)@ == old(self)@.insert(old(self).keys()[i as int], *final(v)),
    {
        proof {
            use_type_invariant(&*self);
            let k = self.keys()[i as int];
            self.entry(k, i as int);
            assert forall|t: Self|
                t.keys == self.keys && #[trigger] t.vals@.len() == self.vals@.len() && (forall|j: int|
                    0 <= j < t.vals@.len() && j != i ==> t.vals@[j] == self.vals@[j]) implies t@ == self@.insert(
                k,
                t.vals@[i as int],
            ) by {
                Self::updated(*self, t, k, i as int);
            }
        }
        &mut self.vals[i]
    }
}

/// What a function finds in the elements of a sequence, in order.
pub open spec fn filter_map<A, B>(s: Seq<A>, f: spec_fn(A) -> Option<B>) -> Seq<B>
    decreases s.len(),
{
    if s.len() == 0 {
        Seq::empty()
    } else {
        let r = filter_map(s.drop_last(), f);
        match f(s.last()) {
            Some(b) => r.push(b),
            None => r,
        }
    }
}

/// What one more element adds.
pub proof fn filter_map_step<A, B>(s: Seq<A>, i: int, f: spec_fn(A) -> Option<B>)
    requires
        0 <= i < s.len(),
    ensures
        filter_map(s.take(i + 1), f) == (match f(s[i]) {
            Some(b) => filter_map(s.take(i), f).push(b),
            None => filter_map(s.take(i), f),
        }),
{
    assert(s.take(i + 1).drop_last() =~= s.take(i));
    assert(s.take(i + 1).last() == s[i]);
}

/// What a function gives for the elements of a sequence, in order, joined.
pub open spec fn flat_map<A, B>(s: Seq<A>, f: spec_fn(A) -> Seq<B>) -> Seq<B>
    decreases s.len(),
{
    if s.len() == 0 {
        Seq::empty()
    } else {
        flat_map(s.drop_last(), f) + f(s.last())
    }
}

/// What one more element adds.
pub proof fn flat_map_step<A, B>(s: Seq<A>, i: int, f: spec_fn(A) -> Seq<B>)
    requires
        0 <= i < s.len(),
    ensures
        flat_map(s.take(i + 1), f) == flat_map(s.take(i), f) + f(s[i]),
{
    assert(s.take(i + 1).drop_last() =~= s.take(i));
}

/// A truth value as a number.
pub open spec fn flag(b: bool) -> u128 {
    if b {
        1
    } else {
        0
    }
}

pub(crate) fn to_flag(b: bool) -> (n: u128)
    ensures
        n == flag(b),
{
    if b {
        1
    } else {
        0
    }
}

/// The views of the values of a map.
pub open spec fn views<K, T: View>(m: Map<K, T>) -> Map<K, T::V> {
    m.map_values(|t: T| t@)
}

/// Adding a value adds its view.
pub proof fn views_insert<K, T: View>(m: Map<K, T>, k: K, t: T)
    ensures
        views(m.insert(k, t)) == views(m).insert(k, t@),
{
    assert(views(m.insert(k, t)) =~= views(m).insert(k, t@));
}

/// Removing a value removes its view.
pub proof fn views_remove<K, T: View>(m: Map<K, T>, k: K)
    ensures
        views(m.remove(k)) == views(m).remove(k),
{
    assert(views(m.remove(k)) =~= views(m).remove(k));
}

/// A set whose elements are kept in ascending order.
pub struct OrdSet<K: Key> {
    table: Table<K, ()>,
}

impl<K: Key> View for OrdSet<K> {
    type V = Set<K::V>;

    closed spec fn view(&self) -> Set<K::V> {
        self.table@.dom()
    }
}

impl<K: Key> OrdSet<K> {
    /// The elements, in ascending order.
    pub closed spec fn items(self) -> Seq<K::V> {
        self.table.keys()
    }

    /// Whether the elements in order are those of the set, each once, in
    /// ascending order of their codes.
    pub open spec fn items_sorted(self) -> bool {
        &&& self.items().to_set() == self@
        &&& self.items().no_duplicates()
        &&& self@.finite()
        &&& forall|i: int, j: int|
            0 <= i < j < self.items().len() ==> lex_lt(
                #[trigger] K::code(self.items()[i]),
                #[trigger] K::code(self.items()[j]),
            )
    }

    pub fn new() -> (s: Self)
        ensures
            s@ == Set::<K::V>::empty(),
            s.items() == Seq::<K::V>::empty(),
    {
        let s = OrdSet { table: Table::new() };
        assert(s@ =~= Set::<K::V>::empty());
        s
    }

    pub fn len(&self) -> (n: usize)
        ensures
            n == self.items().len(),
            n == self@.len(),
            self.items_sorted(),
    {
        let n = self.table.len();
        proof {
            self.items().unique_seq_to_set();
        }
        n
    }

    pub fn is_empty(&self) -> (b: bool)
        ensures
            b == (self@ == Set::<K::V>::empty()),
    {
        let n = self.len();
        proof {
            if n == 0 {
                assert(self@ =~= Set::<K::V>::empty());
            }
        }
        n == 0
    }

    pub fn contains(&self, k: &K) -> (b: bool)
        ensures
            b == self@.contains(k@),
    {
        self.table.contains_key(k)
    }

    /// Adds an element, and says whether it was new.
    pub fn insert(&mut self, k: K) -> (b: bool)
        ensures
            final(self)@ == old(self)@.insert(k@),
            b == !old(self)@.contains(k@),
    {
        let r = self.table.insert(k, ());
        assert(self@ =~= old(self)@.insert(k@));
        r.is_none()
    }

    /// Removes an element, and says whether it was there.
    pub fn remove(&mut self, k: &K) -> (b: bool)
        ensures
            final(self)@ == old(self)@.remove(k@),
            b == old(self)@.contains(k@),
    {
        let r = self.table.remove(k);
        assert(self@ =~= old(self)@.remove(k@));
        r.is_some()
    }

    pub fn at(&self, i: usize) -> (k: &K)
        requires
            i < self.items().len(),
        ensures
            k@ == self.items()[i as int],
            self@.contains(k@),
    {
        self.table.key_at(i)
    }

    /// The elements, in ascending order.
    pub fn to_vec(&self) -> (v: Vec<K>)
        ensures
            v@.len() == self.items().len(),
            forall|i: int| 0 <= i < v@.len() ==> (#[trigger] v@[i])@ == self.items()[i],
            self.items_sorted(),
    {
        let n = self.len();
        let mut v: Vec<K> = Vec::new();
        let mut i: usize = 0;
        while i < n
            invariant
                i <= n,
                n == self.items().len(),
                v@.len() == i,
                forall|j: int| 0 <= j < i ==> (#[trigger] v@[j])@ == self.items()[j],
            decreases n - i,
        {
            v.push(self.at(i).copy_key());
            i += 1;
        }
        v
    }

    /// Adds every element of another set.
    pub fn extend(&mut self, other: &Self)
        ensures
            final(self)@ == old(self)@.union(other@),
    {
        let n = other.len();
        let mut i: usize = 0;
        while i < n
            invariant
                i <= n,
                n == other.items().len(),
                other.items_sorted(),
                self@ == old(self)@.union(other.items().take(i as int).to_set()),
            decreases n - i,
        {
            let k = other.at(i);
            self.insert(k.copy_key());
            proof {
                let s = other.items();
                assert(s.take(i + 1) =~= s.take(i as int).push(s[i as int]));
                assert(s.take(i + 1).to_set() =~= s.take(i as int).to_set().insert(s[i as int])) by {
                    assert(s.take(i + 1)[i as int] == s[i as int]);
                    assert forall|x: K::V| s.take(i + 1).contains(x) == (s.take(i as int).contains(x) || x == s[i as int]) by {
                        if s.take(i as int).contains(x) {
                            let j = choose|j: int| 0 <= j < i && s.take(i as int)[j] == x;
                            assert(s.take(i + 1)[j] == x);
                        }
                    }
                }
                assert(self@ =~= old(self)@.union(s.take(i + 1).to_set()));
            }
            i += 1;
        }
        proof {
            assert(other.items().take(n as int) =~= other.items());
            assert(self@ =~= old(self)@.union(other@));
        }
    }

    /// Removes every element of another set.
    pub fn subtract(&mut self, other: &Self)
        ensures
            final(self)@ == old(self)@.difference(other@),
    {
        let n = other.len();
        let mut i: usize = 0;
        assert(self@ =~= old(self)@.difference(Set::empty()));
        assert(other.items().take(0).to_set() =~= Set::<K::V>::empty());
        while i < n
            invariant
                i <= n,
                n == other.items().len(),
                other.items_sorted(),
                self@ == old(self)@.difference(other.items().take(i as int).to_set()),
            decreases n - i,
        {
            let k = other.at(i);
            self.remove(k);
            proof {
                let s = other.items();
                assert(s.take(i + 1).to_set() =~= s.take(i as int).to_set().insert(s[i as int])) by {
                    assert(s.take(i + 1)[i as int] == s[i as int]);
                    assert forall|x: K::V| s.take(i + 1).contains(x) == (s.take(i as int).contains(x) || x == s[i as int]) by {
                        if s.take(i as int).contains(x) {
                            let j = choose|j: int| 0 <= j < i && s.take(i as int)[j] == x;
                            assert(s.take(i + 1)[j] == x);
                        }
                    }
                }
                assert(self@ =~= old(self)@.difference(s.take(i + 1).to_set()));
            }
            i += 1;
        }
        proof {
            assert(other.items().take(n as int) =~= other.items());
        }
    }

    /// Whether every element is one of another set.
    pub fn is_subset(&self, other: &Self) -> (b: bool)
        ensures
            b == self@.subset_of(other@),
    {
        let n = self.len();
        let mut i: usize = 0;
        while i < n
            invariant
                i <= n,
                n == self.items().len(),
                self.items_sorted(),
                forall|j: int| 0 <= j < i ==> other@.contains(#[trigger] self.items()[j]),
            decreases n - i,
        {
            if !other.contains(self.at(i)) {
                return false;
            }
            i += 1;
        }
        proof {
            assert forall|x: K::V| self@.contains(x) implies other@.contains(x) by {
                assert(self.items().to_set().contains(x));
                let j = choose|j: int| 0 <= j < self.items().len() && self.items()[j] == x;
                assert(other@.contains(self.items()[j]));
            }
        }
        true
    }

    /// Whether some element is one of another set.
    pub fn intersects(&self, other: &Self) -> (b: bool)
        ensures
            b == exists|x: K::V| self@.contains(x) && other@.contains(x),
    {
        let n = self.len();
        let mut i: usize = 0;
        while i < n
            invariant
                i <= n,
                n == self.items().len(),
                self.items_sorted(),
                forall|j: int| 0 <= j < i ==> !other@.contains(#[trigger] self.items()[j]),
            decreases n - i,
        {
            if other.contains(self.at(i)) {
                return true;
            }
            i += 1;
        }
        proof {
            assert forall|x: K::V| self@.contains(x) implies !other@.contains(x) by {
                assert(self.items().to_set().contains(x));
                let j = choose|j: int| 0 <= j < self.items().len() && self.items()[j] == x;
                assert(!other@.contains(self.items()[j]));
            }
        }
        false
    }

    pub fn same(&self, other: &Self) -> (b: bool)
        ensures
            b == (self@ == other@),
    {
        let a = self.is_subset(other);
        let b = other.is_subset(self);
        proof {
            if a && b {
                assert(self@ =~= other@);
            }
        }
        a && b
    }

    pub fn copy(&self) -> (s: Self)
        ensures
            s@ == self@,
    {
        let mut s: Self = OrdSet::new();
        s.extend(self);
        assert(s@ =~= self@);
        s
    }
}

// ===== keys =====

impl Key for u8 {
    open spec fn code(v: u8) -> Seq<u128> {
        seq![v as u128]
    }

    proof fn code_injective(a: u8, b: u8) {
        assert(Self::code(a)[0] == a as u128);
        assert(Self::code(b)[0] == b as u128);
    }

    fn to_code(&self) -> Vec<u128> {
        vec![*self as u128]
    }

    fn copy_key(&self) -> u8 {
        *self
    }
}

impl Key for u16 {
    open spec fn code(v: u16) -> Seq<u128> {
        seq![v as u128]
    }

    proof fn code_injective(a: u16, b: u16) {
        assert(Self::code(a)[0] == a as u128);
        assert(Self::code(b)[0] == b as u128);
    }

    fn to_code(&self) -> Vec<u128> {
        vec![*self as u128]
    }

    fn copy_key(&self) -> u16 {
        *self
    }
}

impl Key for u32 {
    open spec fn code(v: u32) -> Seq<u128> {
        seq![v as u128]
    }

    proof fn code_injective(a: u32, b: u32) {
        assert(Self::code(a)[0] == a as u128);
        assert(Self::code(b)[0] == b as u128);
    }

    fn to_code(&self) -> Vec<u128> {
        vec![*self as u128]
    }

    fn copy_key(&self) -> u32 {
        *self
    }
}

impl Key for u64 {
    open spec fn code(v: u64) -> Seq<u128> {
        seq![v as u128]
    }

    proof fn code_injective(a: u64, b: u64) {
        assert(Self::code(a)[0] == a as u128);
        assert(Self::code(b)[0] == b as u128);
    }

    fn to_code(&self) -> Vec<u128> {
        vec![*self as u128]
    }

    fn copy_key(&self) -> u64 {
        *self
    }
}

impl Key for u128 {
    open spec fn code(v: u128) -> Seq<u128> {
        seq![v]
    }

    proof fn code_injective(a: u128, b: u128) {
        assert(Self::code(a)[0] == a as u128);
        assert(Self::code(b)[0] == b as u128);
    }

    fn to_code(&self) -> Vec<u128> {
        vec![*self]
    }

    fn copy_key(&self) -> u128 {
        *self
    }
}

/// The code of a text: its characters.
pub open spec fn text_code(s: Seq<char>) -> Seq<u128> {
    Seq::new(s.len(), |i: int| s[i] as u128)
}

proof fn char_code_bound(x: char)
    ensures
        x as u128 <= 0x10ffff,
{
}

proof fn char_code_injective(x: char, y: char)
    requires
        x as u128 == y as u128,
    ensures
        x == y,
{
}

pub proof fn text_code_injective(a: Seq<char>, b: Seq<char>)
    requires
        text_code(a) == text_code(b),
    ensures
        a == b,
{
    assert(text_code(a).len() == a.len());
    assert(text_code(b).len() == b.len());
    assert forall|i: int| 0 <= i < a.len() implies a[i] == b[i] by {
        assert(text_code(a)[i] == a[i] as u128);
        assert(text_code(b)[i] == b[i] as u128);
        char_code_injective(a[i], b[i]);
    }
    assert(a =~= b);
}

/// Adds the code of a text to a code.
pub fn push_text_code(c: &mut Vec<u128>, s: &String)
    ensures
        final(c)@ == old(c)@ + text_code(s@),
{
    let t = s.as_str();
    let n = t.unicode_len();
    let mut i: usize = 0;
    while i < n
        invariant
            i <= n,
            n == s@.len(),
            t@ == s@,
            c@ == old(c)@ + text_code(s@.take(i as int)),
        decreases n - i,
    {
        c.push(t.get_char(i) as u128);
        assert(c@ =~= old(c)@ + text_code(s@.take(i + 1)));
        i += 1;
    }
    assert(s@.take(n as int) =~= s@);
}

impl Key for String {
    open spec fn code(v: Seq<char>) -> Seq<u128> {
        text_code(v)
    }

    proof fn code_injective(a: Seq<char>, b: Seq<char>) {
        text_code_injective(a, b);
    }

    fn to_code(&self) -> Vec<u128> {
        let mut c: Vec<u128> = Vec::new();
        push_text_code(&mut c, self);
        assert(c@ =~= text_code(self@));
        c
    }

    fn copy_key(&self) -> String {
        self.clone()
    }
}

/// The code of a text that other numbers follow: a zero ends it.
pub open spec fn text_key(s: Seq<char>) -> Seq<u128> {
    Seq::new(
        s.len() + 1,
        |i: int|
            if i < s.len() {
                (s[i] as u128 + 1) as u128
            } else {
                0
            },
    )
}

/// What follows a text does not blur it.
pub proof fn text_key_injective(a: Seq<char>, x: Seq<u128>, b: Seq<char>, y: Seq<u128>)
    requires
        text_key(a) + x == text_key(b) + y,
    ensures
        a == b,
        x == y,
{
    let (l, r) = (text_key(a) + x, text_key(b) + y);
    assert(l[a.len() as int] == 0);
    assert(r[b.len() as int] == 0);
    if a.len() < b.len() {
        assert(r[a.len() as int] == (b[a.len() as int] as u128 + 1) as u128);
        char_code_bound(b[a.len() as int]);
        assert(false);
    }
    if b.len() < a.len() {
        assert(l[b.len() as int] == (a[b.len() as int] as u128 + 1) as u128);
        char_code_bound(a[b.len() as int]);
        assert(false);
    }
    assert forall|i: int| 0 <= i < a.len() implies a[i] == b[i] by {
        assert(l[i] == (a[i] as u128 + 1) as u128);
        assert(r[i] == (b[i] as u128 + 1) as u128);
        char_code_bound(a[i]);
        char_code_bound(b[i]);
        char_code_injective(a[i], b[i]);
    }
    assert(a =~= b);
    assert(x =~= l.skip(a.len() as int + 1));
    assert(y =~= r.skip(b.len() as int + 1));
}

pub(crate) fn push_text_key(c: &mut Vec<u128>, s: &String)
    ensures
        final(c)@ == old(c)@ + text_key(s@),
{
    let ghost before = c@;
    let n: usize = s.as_str().unicode_len();
    let mut i: usize = 0;
    while i < n
        invariant
            i <= n,
            n == s@.len(),
            c@ == before + text_key(s@).take(i as int),
        decreases n - i,
    {
        let x: u128 = s.as_str().get_char(i) as u128;
        c.push(x + 1);
        i = i + 1;
        assert(c@ =~= before + text_key(s@).take(i as int));
    }
    c.push(0);
    assert(c@ =~= before + text_key(s@));
}

/// The keys of a table of numbers stand in ascending order.
pub proof fn ascending<T>(t: Table<u32, T>)
    requires
        t.keys_sorted(),
    ensures
        forall|i: int, j: int| 0 <= i < j < t.keys().len() ==> #[trigger] t.keys()[i] < #[trigger] t.keys()[j],
        forall|k: u32| #[trigger] t@.contains_key(k) ==> exists|i: int| 0 <= i < t.keys().len() && t.keys()[i] == k,
{
    assert forall|i: int, j: int| 0 <= i < j < t.keys().len() implies #[trigger] t.keys()[i]
        < #[trigger] t.keys()[j] by {
        let (a, b) = (u32::code(t.keys()[i]), u32::code(t.keys()[j]));
        assert(a[0] == t.keys()[i] as u128 && b[0] == t.keys()[j] as u128);
        assert(lex_lt(a, b));
        reveal_with_fuel(lex_lt, 2);
    }
    assert forall|k: u32| #[trigger] t@.contains_key(k) implies exists|i: int|
        0 <= i < t.keys().len() && t.keys()[i] == k by {
        assert(t.keys().to_set().contains(k));
        assert(t.keys().contains(k));
    }
}

} // verus!
