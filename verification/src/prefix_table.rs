//! Maps keyed by IP networks.

use prefix_trie::joint::JointPrefixMap;
use vstd::arithmetic::power2::lemma_pow2_pos;
use vstd::prelude::*;

use crate::ip::{v4_block, v4_network, v6_block, v6_network, IpAddr, IpNetwork};

verus! {

/// A `prefix_trie::joint::JointPrefixMap` that keeps a number under each
/// network.
#[verifier::external_body]
pub struct PrefixTrie {
    map: JointPrefixMap<ipnetwork::IpNetwork, u64>,
}

/// The networks that a trie holds, each with the bits behind its prefix length
/// zeroed, and the number kept under each.
pub uninterp spec fn trie_contents(trie: PrefixTrie) -> Map<IpNetwork, u64>;

/// Calls `JointPrefixMap::new`: the trie is empty.
#[verifier::external_body]
fn trie_new() -> (trie: PrefixTrie)
    ensures
        trie_contents(trie).dom() == Set::<IpNetwork>::empty(),
{
    PrefixTrie { map: JointPrefixMap::new() }
}

/// Calls `JointPrefixMap::get`: the number kept under exactly this network,
/// whatever its bits behind the prefix length.
#[verifier::external_body]
fn trie_get(trie: &PrefixTrie, net: &IpNetwork) -> (r: Option<u64>)
    requires
        net.valid(),
    ensures
        r == trie_contents(*trie).get(net.masked()),
{
    let key = match net.addr {
        IpAddr::V4(addr) => ipnetwork::IpNetwork::V4(ipnetwork::Ipv4Network::new(addr.into(), net.plen).unwrap()),
        IpAddr::V6(addr) => ipnetwork::IpNetwork::V6(ipnetwork::Ipv6Network::new(addr.into(), net.plen).unwrap()),
    };
    trie.map.get(&key).copied()
}

/// Calls `JointPrefixMap::insert`: the number is kept under the network, in
/// place of the one returned.
#[verifier::external_body]
fn trie_insert(trie: &mut PrefixTrie, net: &IpNetwork, n: u64) -> (r: Option<u64>)
    requires
        net.valid(),
    ensures
        trie_contents(*final(trie)) == trie_contents(*old(trie)).insert(net.masked(), n),
        r == trie_contents(*old(trie)).get(net.masked()),
{
    let key = match net.addr {
        IpAddr::V4(addr) => ipnetwork::IpNetwork::V4(ipnetwork::Ipv4Network::new(addr.into(), net.plen).unwrap()),
        IpAddr::V6(addr) => ipnetwork::IpNetwork::V6(ipnetwork::Ipv6Network::new(addr.into(), net.plen).unwrap()),
    };
    trie.map.insert(key, n)
}

/// Calls `JointPrefixMap::remove`: the network is taken out, and the number
/// that was kept under it returned.
#[verifier::external_body]
fn trie_remove(trie: &mut PrefixTrie, net: &IpNetwork) -> (r: Option<u64>)
    requires
        net.valid(),
    ensures
        trie_contents(*final(trie)) == trie_contents(*old(trie)).remove(net.masked()),
        r == trie_contents(*old(trie)).get(net.masked()),
{
    let key = match net.addr {
        IpAddr::V4(addr) => ipnetwork::IpNetwork::V4(ipnetwork::Ipv4Network::new(addr.into(), net.plen).unwrap()),
        IpAddr::V6(addr) => ipnetwork::IpNetwork::V6(ipnetwork::Ipv6Network::new(addr.into(), net.plen).unwrap()),
    };
    trie.map.remove(&key)
}

/// Zeroing the bits behind the prefix length twice is the same as once.
pub proof fn masked_idempotent(net: IpNetwork)
    requires
        net.valid(),
    ensures
        net.masked().valid(),
        net.masked().masked() == net.masked(),
{
    match net.addr {
        IpAddr::V4(a) => {
            let b = v4_block(net.plen);
            lemma_pow2_pos((32 - net.plen) as nat);
            let n = v4_network(a, net.plen);
            assert(0 <= n <= a && n % b == 0) by (nonlinear_arith)
                requires
                    b > 0,
                    a >= 0,
                    n == a - a as int % b,
            ;
        },
        IpAddr::V6(a) => {
            let b = v6_block(net.plen);
            lemma_pow2_pos((128 - net.plen) as nat);
            let n = v6_network(a, net.plen);
            assert(0 <= n <= a && n % b == 0) by (nonlinear_arith)
                requires
                    b > 0,
                    a >= 0,
                    n == a - a as int % b,
            ;
        },
    }
}

/// A map from networks to values. Networks that differ only in the bits behind
/// the prefix length are the same key.
pub struct PrefixTable<T> {
    trie: PrefixTrie,
    nets: Vec<IpNetwork>,
    vals: Vec<T>,
}

impl<T> View for PrefixTable<T> {
    type V = Map<IpNetwork, T>;

    closed spec fn view(&self) -> Map<IpNetwork, T> {
        Map::new(
            |k: IpNetwork| trie_contents(self.trie).contains_key(k),
            |k: IpNetwork| self.vals@[trie_contents(self.trie)[k] as int],
        )
    }
}

impl<T> PrefixTable<T> {
    spec fn linked(trie: Map<IpNetwork, u64>, nets: Seq<IpNetwork>) -> bool {
        &&& forall|i: int|
            #![trigger nets[i]]
            0 <= i < nets.len() ==> {
                &&& nets[i].valid()
                &&& nets[i].masked() == nets[i]
                &&& trie.contains_key(nets[i])
                &&& trie[nets[i]] == i
            }
        &&& forall|k: IpNetwork|
            #![trigger trie.contains_key(k)]
            trie.contains_key(k) ==> trie[k] < nets.len() && nets[trie[k] as int] == k
    }

    #[verifier::type_invariant]
    spec fn inv(self) -> bool {
        &&& self.nets@.len() == self.vals@.len()
        &&& Self::linked(trie_contents(self.trie), self.nets@)
    }

    pub fn new() -> (t: Self)
        ensures
            t@ == Map::<IpNetwork, T>::empty(),
    {
        let t = PrefixTable { trie: trie_new(), nets: Vec::new(), vals: Vec::new() };
        assert(t@ =~= Map::<IpNetwork, T>::empty());
        t
    }

    pub fn contains_key(&self, net: &IpNetwork) -> (b: bool)
        requires
            net.valid(),
        ensures
            b == self@.contains_key(net.masked()),
    {
        trie_get(&self.trie, net).is_some()
    }

    pub fn get(&self, net: &IpNetwork) -> (r: Option<&T>)
        requires
            net.valid(),
        ensures
            r == (if self@.contains_key(net.masked()) { Some(&self@[net.masked()]) } else { None }),
    {
        proof {
            use_type_invariant(self);
        }
        let len = self.vals.len();
        match trie_get(&self.trie, net) {
            Some(n) => {
                assert(trie_contents(self.trie).contains_key(net.masked()) && n < len);
                Some(&self.vals[n as usize])
            },
            None => None,
        }
    }

    pub fn get_mut(&mut self, net: &IpNetwork) -> (r: Option<&mut T>)
        requires
            net.valid(),
        ensures
            match r {
                Some(v) => {
                    &&& old(self)@.contains_key(net.masked())
                    &&& *v == old(self)@[net.masked()]
                    &&& final(self)@ == old(self)@.insert(net.masked(), *final(v))
                },
                None => !old(self)@.contains_key(net.masked()) && final(self)@ == old(self)@,
            },
    {
        proof {
            use_type_invariant(&*self);
        }
        let len = self.vals.len();
        match trie_get(&self.trie, net) {
            Some(n) => {
                let ghost k = net.masked();
                proof {
                    assert(trie_contents(self.trie).contains_key(k) && n < len);
                    assert forall|t: Self|
                        t.trie == self.trie && #[trigger] t.vals@.len() == self.vals@.len() && (forall|j: int|
                            0 <= j < t.vals@.len() && j != n ==> t.vals@[j] == self.vals@[j]) implies t@
                        == self@.insert(k, t.vals@[n as int]) by {
                        Self::updated(*self, t, k);
                    }
                }
                Some(&mut self.vals[n as usize])
            },
            None => None,
        }
    }

    proof fn updated(s: Self, t: Self, k: IpNetwork)
        requires
            s.inv(),
            trie_contents(s.trie).contains_key(k),
            t.trie == s.trie,
            t.vals@.len() == s.vals@.len(),
            forall|j: int|
                0 <= j < t.vals@.len() && j != trie_contents(s.trie)[k] ==> t.vals@[j] == s.vals@[j],
        ensures
            t@ == s@.insert(k, t.vals@[trie_contents(s.trie)[k] as int]),
    {
        let m = s@.insert(k, t.vals@[trie_contents(s.trie)[k] as int]);
        assert forall|x: IpNetwork| #[trigger] t@.contains_key(x) implies t@[x] == m[x] by {
            assert(trie_contents(s.trie).contains_key(x));
        }
        assert(t@ =~= m);
    }

    pub fn insert(&mut self, net: &IpNetwork, v: T) -> (r: Option<T>)
        requires
            net.valid(),
        ensures
            final(self)@ == old(self)@.insert(net.masked(), v),
            r == (if old(self)@.contains_key(net.masked()) { Some(old(self)@[net.masked()]) } else { None }),
    {
        proof {
            use_type_invariant(&*self);
            masked_idempotent(*net);
        }
        let ghost s = *self;
        let ghost k = net.masked();
        let len = self.vals.len();
        match trie_get(&self.trie, net) {
            Some(n) => {
                assert(trie_contents(self.trie).contains_key(k) && n < len);
                let mut val = v;
                std::mem::swap(&mut self.vals[n as usize], &mut val);
                proof {
                    Self::updated(s, *self, k);
                }
                Some(val)
            },
            None => {
                let mut t: Self = PrefixTable::new();
                std::mem::swap(self, &mut t);
                let PrefixTable { trie: mut trie, nets: mut nets, vals: mut vals } = t;
                let n = nets.len();
                let _ = trie_insert(&mut trie, net, n as u64);
                nets.push(net.apply_mask());
                vals.push(v);
                proof {
                    let a = trie_contents(s.trie);
                    let b = trie_contents(trie);
                    assert forall|i: int| #![trigger nets@[i]] 0 <= i < nets@.len() implies {
                        &&& nets@[i].valid()
                        &&& nets@[i].masked() == nets@[i]
                        &&& b.contains_key(nets@[i])
                        &&& b[nets@[i]] == i
                    } by {
                        if i < n {
                            assert(nets@[i] == s.nets@[i]);
                        }
                    }
                    assert forall|x: IpNetwork| #![
                        trigger b.contains_key(x),
                    ] b.contains_key(x) implies b[x] < nets@.len()
                        && nets@[b[x] as int] == x by {
                        if x != k {
                            assert(a.contains_key(x));
                        }
                    }
                    let new = PrefixTable { trie, nets, vals };
                    assert forall|x: IpNetwork| #[trigger] new@.contains_key(x) implies new@[x] == s@.insert(k, v)[x] by {
                        assert(b.contains_key(x));
                        if x != k {
                            assert(a.contains_key(x));
                        }
                    }
                    assert(new@ =~= s@.insert(k, v));
                }
                *self = PrefixTable { trie, nets, vals };
                None
            },
        }
    }

    /// The networks in the table, in no particular order.
    pub closed spec fn nets(&self) -> Seq<IpNetwork> {
        self.nets@
    }

    /// Whether the networks are those that the table has values for, each once.
    pub open spec fn nets_listed(self) -> bool {
        &&& self.nets().no_duplicates()
        &&& forall|k: IpNetwork| #[trigger] self@.contains_key(k) == self.nets().contains(k)
        &&& forall|i: int| 0 <= i < self.nets().len() ==> (#[trigger] self.nets()[i]).valid()
    }

    pub fn len(&self) -> (n: usize)
        ensures
            n == self.nets().len(),
            self.nets_listed(),
    {
        proof {
            use_type_invariant(self);
            assert forall|k: IpNetwork| #[trigger] self@.contains_key(k) == self.nets().contains(k) by {
                if self@.contains_key(k) {
                    assert(trie_contents(self.trie).contains_key(k));
                    assert(self.nets@[trie_contents(self.trie)[k] as int] == k);
                }
            }
        }
        self.nets.len()
    }

    pub fn net_at(&self, i: usize) -> (net: IpNetwork)
        requires
            i < self.nets().len(),
        ensures
            net == self.nets()[i as int],
    {
        self.nets[i]
    }

    pub fn value_at_mut(&mut self, i: usize) -> (v: &mut T)
        requires
            i < old(self).nets().len(),
        ensures
            *v == old(self)@[old(self).nets()[i as int]],
            final(self)@ == old(self)@.insert(old(self).nets()[i as int], *final(v)),
            final(self).nets() == old(self).nets(),
    {
        proof {
            use_type_invariant(&*self);
            let k = self.nets@[i as int];
            assert(trie_contents(self.trie).contains_key(k));
            assert forall|t: Self|
                t.trie == self.trie && #[trigger] t.vals@.len() == self.vals@.len() && (forall|j: int|
                    0 <= j < t.vals@.len() && j != i ==> t.vals@[j] == self.vals@[j]) implies t@ == self@.insert(
                k,
                t.vals@[i as int],
            ) by {
                Self::updated(*self, t, k);
            }
        }
        &mut self.vals[i]
    }

    pub fn remove(&mut self, net: &IpNetwork) -> (r: Option<T>)
        requires
            net.valid(),
        ensures
            final(self)@ == old(self)@.remove(net.masked()),
            r == (if old(self)@.contains_key(net.masked()) { Some(old(self)@[net.masked()]) } else { None }),
    {
        proof {
            use_type_invariant(&*self);
        }
        let ghost s = *self;
        let ghost k = net.masked();
        let len = self.vals.len();
        let n = match trie_get(&self.trie, net) {
            Some(n) => {
                assert(trie_contents(self.trie).contains_key(k) && n < len);
                n as usize
            },
            None => {
                assert(self@.remove(k) =~= self@);
                return None;
            },
        };
        let mut t: Self = PrefixTable::new();
        std::mem::swap(self, &mut t);
        let PrefixTable { trie: mut trie, nets: mut nets, vals: mut vals } = t;
        assert(trie_contents(trie).contains_key(k));
        let _ = trie_remove(&mut trie, net);
        let _ = nets.swap_remove(n);
        let val = vals.swap_remove(n);
        let ghost a = trie_contents(s.trie);
        if n < nets.len() {
            // The last network has moved into the gap.
            let moved = nets[n];
            assert(moved == s.nets@.last());
            let _ = trie_insert(&mut trie, &moved, n as u64);
        }
        proof {
            let b = trie_contents(trie);
            let last = s.nets@.last();
            assert(s.nets@[s.nets@.len() - 1] == last);
            assert(s.nets@[n as int] == k);
            assert forall|x: IpNetwork| #![trigger b.contains_key(x)] b.contains_key(x) == (
                x != k && a.contains_key(x)
            ) by {}
            assert forall|x: IpNetwork| #![trigger b.contains_key(x)] b.contains_key(x) implies {
                &&& a.contains_key(x)
                &&& b[x] == (if x == last { n as u64 } else { a[x] })
                &&& b[x] < nets@.len()
                &&& nets@[b[x] as int] == x
                &&& vals@[b[x] as int] == s.vals@[a[x] as int]
            } by {
                assert(a.contains_key(x));
            }
            assert forall|i: int| #![trigger nets@[i]] 0 <= i < nets@.len() implies {
                &&& nets@[i].valid()
                &&& nets@[i].masked() == nets@[i]
                &&& b.contains_key(nets@[i])
                &&& b[nets@[i]] == i
            } by {
                if i != n {
                    assert(nets@[i] == s.nets@[i]);
                }
            }
            let new = PrefixTable { trie, nets, vals };
            assert(new@ =~= s@.remove(k));
        }
        *self = PrefixTable { trie, nets, vals };
        Some(val)
    }
}

} // verus!
