//! What UPDATE messages to neighbors promise: which messages are sent for what waits to be
//! advertised or withdrawn, and that they fit.

use vstd::prelude::*;

use crate::bgp::af::{
    entry_updates, nlri_batches, nlri_possible, nlri_room, nlri_size, nlri_total, reach_too_long,
    reach_updates, unreach_updates, AddressFamily, AttrsTooLongView, Ipv4Unicast, Ipv6Unicast,
};
use crate::bgp::attribute::{AttrsView, BaseAttrsView};
use crate::bgp::neighbor::{
    MpReachView, MpUnreachView, NeighborUpdateQueue, NeighborUpdateQueues, ReachQueue,
};
use crate::bgp::rib::{RoutingTable, RoutingTables};
use crate::bgp::types::AfiSafi;
use crate::ip::{AddressFamily as IpFamily, IpAddr, IpNetwork, Ipv4Addr, Ipv6Addr};

verus! {

// ===== sizes =====

/// A prefix takes an octet for its length, and as many more as its significant bits need.
pub proof fn prefixes_take_their_significant_octets(p: IpNetwork)
    ensures
        8 * (nlri_size(p) - 1) >= p.plen,
        8 * (nlri_size(p) - 1) < p.plen + 8,
        p.plen == 0 ==> nlri_size(p) == 1,
        p.plen == 24 ==> nlri_size(p) == 4,
        p.plen == 25 ==> nlri_size(p) == 5,
        p.plen == 128 ==> nlri_size(p) == 17,
{
}

/// Prefixes take what each of them takes.
pub proof fn sizes_add_up(s: Seq<IpNetwork>, p: IpNetwork)
    ensures
        nlri_total(Seq::empty()) == 0,
        nlri_total(s.push(p)) == nlri_total(s) + nlri_size(p),
{
    assert(s.push(p).drop_last() =~= s);
}

/// A message holds 4096 octets, of which 23 are taken before any attribute. Prefixes are
/// sent as long as the longest one of the family fits.
pub proof fn messages_hold_4096_octets(n: u16)
    ensures
        23 + n + nlri_room(n) == 4096,
        nlri_possible(IpFamily::Ipv4, n) == (n <= 4096 - 23 - 5),
        nlri_possible(IpFamily::Ipv6, n) == (n <= 4096 - 23 - 17),
{
}

/// The next hop of IPv4 takes 7 octets. That of IPv6 takes an attribute with a header of 4
/// octets, 5 octets, and 16 or, with a link-local one, 32. Withdrawing takes no octets
/// besides the prefixes for IPv4 and 7 for IPv6.
pub proof fn nexthops_take_their_octets(base: BaseAttrsView, len: u16)
    ensures
        Ipv4Unicast::attrs_size(base, len) == len + 7,
        base.ll_nexthop is None ==> Ipv6Unicast::attrs_size(base, len) == len + 25,
        base.ll_nexthop is Some ==> Ipv6Unicast::attrs_size(base, len) == len + 41,
        Ipv4Unicast::withdraw_size() == 0,
        Ipv6Unicast::withdraw_size() == 7,
{
}

// ===== messages =====

/// IPv4 prefixes are advertised in the message itself, with the attributes and their next
/// hop; IPv6 prefixes in an attribute, with both next hops.
pub proof fn prefixes_are_advertised_with_their_nexthop(
    attrs: AttrsView,
    prefixes: Seq<IpNetwork>,
    v4: Ipv4Addr,
    v6: Ipv6Addr,
)
    ensures
        attrs.base.nexthop == Some(IpAddr::V4(v4)) ==> {
            let m = Ipv4Unicast::reach_msg(attrs, prefixes);
            &&& m.reach == Some((prefixes, v4)) && m.attrs == Some(attrs)
            &&& m.unreach is None && m.mp_reach is None && m.mp_unreach is None
        },
        attrs.base.nexthop == Some(IpAddr::V6(v6)) ==> {
            let m = Ipv6Unicast::reach_msg(attrs, prefixes);
            &&& m.mp_reach == Some(
                MpReachView::Ipv6Unicast { prefixes, nexthop: v6, ll_nexthop: attrs.base.ll_nexthop },
            )
            &&& m.attrs == Some(attrs) && m.reach is None && m.unreach is None && m.mp_unreach is None
        },
{
}

/// Routes can be advertised with a next hop of their own family, and with no other one.
pub proof fn routes_need_a_nexthop_of_their_family(base: BaseAttrsView, v4: Ipv4Addr, v6: Ipv6Addr)
    ensures
        base.nexthop == Some(IpAddr::V4(v4)) ==> Ipv4Unicast::sendable(base) && !Ipv6Unicast::sendable(base),
        base.nexthop == Some(IpAddr::V6(v6)) ==> Ipv6Unicast::sendable(base) && !Ipv4Unicast::sendable(base),
        base.nexthop is None ==> !Ipv4Unicast::sendable(base) && !Ipv6Unicast::sendable(base),
{
}

/// Prefixes are withdrawn without attributes: those of IPv4 in the message itself, those of
/// IPv6 in an attribute of their own.
pub proof fn prefixes_are_withdrawn_without_attributes(prefixes: Seq<IpNetwork>)
    ensures
        ({
            let m = Ipv4Unicast::unreach_msg(prefixes);
            &&& m.unreach == Some(prefixes) && m.attrs is None
            &&& m.reach is None && m.mp_reach is None && m.mp_unreach is None
        }),
        ({
            let m = Ipv6Unicast::unreach_msg(prefixes);
            &&& m.mp_unreach == Some(MpUnreachView::Ipv6Unicast { prefixes }) && m.attrs is None
            &&& m.reach is None && m.unreach is None && m.mp_reach is None
        }),
{
}

/// What waits is advertised entry by entry, in order; what does not fit any message at all
/// is left out, and told with the size of its attributes.
pub proof fn entries_are_advertised_in_order<A: AddressFamily>(
    reach: Seq<ReachQueue>,
    entry: ReachQueue,
    lens: Seq<u16>,
    len: u16,
)
    requires
        lens.len() == reach.len(),
        A::attrs_size(entry.attrs.base@, len) <= u16::MAX,
        0 <= A::attrs_size(entry.attrs.base@, len),
    ensures
        ({
            let size = A::attrs_size(entry.attrs.base@, len) as u16;
            let longest = match A::family() {
                AfiSafi::Ipv4Unicast => 5int,
                AfiSafi::Ipv6Unicast => 17int,
            };
            let fits = 23 + size + longest <= 4096;
            let msgs = reach_updates::<A>(reach.push(entry), lens.push(len));
            let before = reach_updates::<A>(reach, lens);
            let batches = nlri_batches(entry.prefixes.items(), 4096 - 23 - size);
            let left = reach_too_long::<A>(reach.push(entry), lens.push(len));
            &&& fits ==> {
                &&& msgs.len() == before.len() + batches.len()
                &&& msgs.take(before.len() as int) == before
                &&& forall|b: int|
                    0 <= b < batches.len() ==> #[trigger] msgs[before.len() + b] == A::reach_msg(
                        entry.attrs@,
                        batches[b],
                    )
                &&& left == reach_too_long::<A>(reach, lens)
            }
            &&& !fits ==> {
                &&& msgs == before
                &&& left == reach_too_long::<A>(reach, lens).push(
                    AttrsTooLongView {
                        attrs: entry.attrs@,
                        prefixes: entry.prefixes.items(),
                        attrs_len: size as int,
                    },
                )
            }
        }),
        reach_updates::<A>(Seq::empty(), lens).len() == 0,
        reach_too_long::<A>(Seq::empty(), lens).len() == 0,
{
    let r = reach.push(entry);
    let l = lens.push(len);
    assert(r.drop_last() =~= reach);
    updates_need_their_lengths::<A>(reach, lens, l);
    assert(l[r.len() - 1] == len);
    let size = A::attrs_size(entry.attrs.base@, len) as u16;
    let msgs = reach_updates::<A>(r, l);
    let before = reach_updates::<A>(reach, lens);
    let own = entry_updates::<A>(entry, len);
    assert(msgs == before + own);
    assert(msgs.take(before.len() as int) =~= before);
    if !nlri_possible(crate::bgp::af::ip_family(A::family()), size) {
        assert(msgs =~= before);
    }
}

/// Only the lengths of the entries themselves count.
proof fn updates_need_their_lengths<A: AddressFamily>(reach: Seq<ReachQueue>, a: Seq<u16>, b: Seq<u16>)
    requires
        reach.len() <= a.len(),
        reach.len() <= b.len(),
        forall|i: int| 0 <= i < reach.len() ==> a[i] == b[i],
    ensures
        reach_updates::<A>(reach, a) == reach_updates::<A>(reach, b),
        reach_too_long::<A>(reach, a) == reach_too_long::<A>(reach, b),
    decreases reach.len(),
{
    if reach.len() > 0 {
        updates_need_their_lengths::<A>(reach.drop_last(), a, b);
        assert(a[reach.len() - 1] == b[reach.len() - 1]);
    }
}

/// Withdrawals are sent in batches that fill a message.
pub proof fn withdrawals_fill_messages(unreach: Seq<IpNetwork>, b: int)
    ensures
        ({
            let v4 = unreach_updates::<Ipv4Unicast>(unreach);
            let batches = nlri_batches(unreach, 4096 - 23);
            &&& v4.len() == batches.len()
            &&& 0 <= b < v4.len() ==> v4[b] == Ipv4Unicast::unreach_msg(batches[b])
        }),
        ({
            let v6 = unreach_updates::<Ipv6Unicast>(unreach);
            let batches = nlri_batches(unreach, 4096 - 23 - 7);
            &&& v6.len() == batches.len()
            &&& 0 <= b < v6.len() ==> v6[b] == Ipv6Unicast::unreach_msg(batches[b])
        }),
{
}

/// Batches are cut off the front: as many of the first prefixes as fit together make up
/// the first batch, and what follows is cut up in the same way.
pub proof fn batches_are_cut_off_the_front(s: Seq<IpNetwork>, size: int, n: int)
    requires
        size >= 0,
        0 < n <= s.len(),
        nlri_total(s.take(n)) <= size,
        n < s.len() ==> nlri_total(s.take(n + 1)) > size,
    ensures
        nlri_batches(s, size).len() > 0,
        nlri_batches(s, size)[0] == s.take(n),
        nlri_batches(s, size).skip(1) == nlri_batches(s.skip(n), size),
{
    fit_is_the_longest(s, size, n);
    let all = nlri_batches(s, size);
    assert(all.skip(1) =~= nlri_batches(s.skip(n), size));
}

proof fn total_of_first(s: Seq<IpNetwork>, n: int)
    requires
        0 < n <= s.len(),
    ensures
        nlri_total(s.take(n)) == nlri_size(s[0]) + nlri_total(s.skip(1).take(n - 1)),
    decreases n,
{
    if n == 1 {
        assert(s.take(1).drop_last() =~= Seq::empty());
        assert(s.skip(1).take(0) =~= Seq::empty());
        assert(nlri_total(Seq::<IpNetwork>::empty()) == 0);
    } else {
        total_of_first(s, n - 1);
        assert(s.take(n).drop_last() =~= s.take(n - 1));
        assert(s.skip(1).take(n - 1).drop_last() =~= s.skip(1).take(n - 2));
        assert(s.skip(1).take(n - 1).last() == s[n - 1]);
    }
}

proof fn totals_are_natural(s: Seq<IpNetwork>)
    ensures
        nlri_total(s) >= 0,
    decreases s.len(),
{
    if s.len() > 0 {
        totals_are_natural(s.drop_last());
    }
}

proof fn fit_is_the_longest(s: Seq<IpNetwork>, size: int, n: int)
    requires
        size >= 0,
        0 <= n <= s.len(),
        nlri_total(s.take(n)) <= size,
        n < s.len() ==> nlri_total(s.take(n + 1)) > size,
    ensures
        crate::bgp::af::nlri_fit(s, size) == n,
    decreases s.len(),
{
    if s.len() > 0 {
        let rest = s.skip(1);
        if n == 0 {
            total_of_first(s, 1);
            assert(rest.take(0) =~= Seq::empty());
            assert(nlri_total(Seq::<IpNetwork>::empty()) == 0);
        } else {
            total_of_first(s, n);
            totals_are_natural(rest.take(n - 1));
            if n < s.len() {
                total_of_first(s, n + 1);
            }
            fit_is_the_longest(rest, size - nlri_size(s[0]), n - 1);
        }
    }
}

// ===== tables and queues =====

/// Each address family has its own table and queue, and the other one stays when it is
/// replaced.
pub proof fn families_have_their_own_tables(
    t: RoutingTables,
    x: RoutingTable,
    q: NeighborUpdateQueues,
    y: NeighborUpdateQueue,
)
    ensures
        Ipv4Unicast::family() == AfiSafi::Ipv4Unicast,
        Ipv6Unicast::family() == AfiSafi::Ipv6Unicast,
        Ipv4Unicast::table_of(t) == t.ipv4_unicast,
        Ipv6Unicast::table_of(t) == t.ipv6_unicast,
        Ipv4Unicast::with_table(t, x).ipv4_unicast == x && Ipv4Unicast::with_table(t, x).ipv6_unicast
            == t.ipv6_unicast,
        Ipv6Unicast::with_table(t, x).ipv6_unicast == x && Ipv6Unicast::with_table(t, x).ipv4_unicast
            == t.ipv4_unicast,
        Ipv4Unicast::queue_of(q) == q.ipv4_unicast,
        Ipv6Unicast::queue_of(q) == q.ipv6_unicast,
        Ipv4Unicast::with_queue(q, y).ipv4_unicast == y && Ipv4Unicast::with_queue(q, y).ipv6_unicast
            == q.ipv6_unicast,
        Ipv6Unicast::with_queue(q, y).ipv6_unicast == y && Ipv6Unicast::with_queue(q, y).ipv4_unicast
            == q.ipv4_unicast,
{
}

} // verus!
