//! BGP address-family specific code.

use vstd::prelude::*;

use crate::bgp::attribute::{AttrValue, Attrs, AttrsView, BaseAttrs, BaseAttrsView};
use crate::bgp::neighbor::{
    MpReachNlri, MpReachView, MpUnreachNlri, MpUnreachView, NeighborUpdateQueue, NeighborUpdateQueues,
    ReachNlri, ReachQueue, Session, UnreachNlri,
    UpdateMsg, UpdateView,
};
use crate::bgp::rib::{RoutingTable, RoutingTables};
use crate::bgp::types::{AfiSafi, PeerType};
use crate::collections::OrdSet;
use crate::ip::{AddressFamily as IpFamily, IpAddr, IpNetwork, Ipv4Addr, Ipv6Addr};

verus! {

/// Largest size of a message.
pub const MSG_MAX_LEN: u16 = 4096;

/// Size of an UPDATE message that carries nothing.
pub const UPDATE_MIN_LEN: u16 = 23;

/// Size of the header of an attribute with the extended length bit set.
pub const ATTR_MIN_LEN_EXT: u16 = 4;

/// Size of a NEXT_HOP attribute.
pub const ATTR_NEXTHOP_LEN: u16 = 7;

/// Size of an MP_REACH_NLRI attribute without next hops and prefixes.
pub const MP_REACH_MIN_LEN: u16 = 5;

/// Size of an MP_UNREACH_NLRI attribute without prefixes.
pub const MP_UNREACH_MIN_LEN: u16 = 3;

#[derive(Debug)]
pub struct Ipv4Unicast;

#[derive(Debug)]
pub struct Ipv6Unicast;

/// The source address of a session, as an IPv4 address.
pub open spec fn session_src_v4(addr: IpAddr) -> IpAddr {
    match addr {
        IpAddr::V4(_) => addr,
        IpAddr::V6(_) => IpAddr::V4(0),
    }
}

/// The IPv4-mapped IPv6 address of an IPv4 address.
pub open spec fn ipv6_mapped(addr: Ipv4Addr) -> Ipv6Addr {
    (0xffff_0000_0000 + addr) as u128
}

/// The source address of a session, as an IPv6 address.
pub open spec fn session_src_v6(addr: IpAddr) -> IpAddr {
    match addr {
        IpAddr::V4(a) => IpAddr::V6(ipv6_mapped(a)),
        IpAddr::V6(_) => addr,
    }
}

/// Whether the next hop is replaced by the source address of the session.
pub open spec fn nexthop_replaced(nbr: Session, nexthop_self: bool) -> bool {
    nexthop_self || (nbr.peer_type == PeerType::External && !nbr.shared_subnet)
}

pub trait AddressFamily: Sized {
    /// The address family.
    spec fn family() -> AfiSafi;

    fn afi_safi() -> (r: AfiSafi)
        ensures
            r == Self::family(),
    ;

    /// The next hop of the received attributes.
    spec fn nexthop_rx(base: BaseAttrsView) -> IpAddr;

    /// Extract the next hop IP address from the received BGP attributes.
    fn nexthop_rx_extract(attrs: &BaseAttrs) -> (r: IpAddr)
        requires
            attrs.nexthop is Some,
        ensures
            r == Self::nexthop_rx(attrs@),
    ;

    /// The attributes with their next hop(s) as they are transmitted.
    spec fn nexthop_tx(nbr: Session, nexthop_self: bool, base: BaseAttrsView) -> BaseAttrsView;

    /// Modify the next hop(s) for transmission.
    fn nexthop_tx_change(nbr: &Session, nexthop_self: bool, attrs: &mut BaseAttrs)
        requires
            nbr.conn_info is Some,
        ensures
            final(attrs)@ == Self::nexthop_tx(*nbr, nexthop_self, old(attrs)@),
    ;

    /// The update queue of this address family.
    spec fn queue_of(queues: NeighborUpdateQueues) -> NeighborUpdateQueue;

    /// The queues with the one of this address family replaced.
    spec fn with_queue(queues: NeighborUpdateQueues, queue: NeighborUpdateQueue) -> NeighborUpdateQueues;

    fn update_queue(queues: &mut NeighborUpdateQueues) -> (r: &mut NeighborUpdateQueue)
        ensures
            *r == Self::queue_of(*old(queues)),
            *final(queues) == Self::with_queue(*old(queues), *final(r)),
    ;

    /// The routing table of this address family.
    spec fn table_of(tables: RoutingTables) -> RoutingTable;

    /// The tables with the one of this address family replaced.
    spec fn with_table(tables: RoutingTables, table: RoutingTable) -> RoutingTables;

    /// The table that was put in place is the one of this address family.
    proof fn table_replaced(tables: RoutingTables, table: RoutingTable)
        ensures
            Self::table_of(Self::with_table(tables, table)) == table,
    ;

    /// Putting the table back in place changes nothing.
    proof fn table_restored(tables: RoutingTables)
        ensures
            Self::with_table(tables, Self::table_of(tables)) == tables,
    ;

    /// Of two tables put in place one after the other, the second stays.
    proof fn table_replaced_twice(tables: RoutingTables, a: RoutingTable, b: RoutingTable)
        ensures
            Self::with_table(Self::with_table(tables, a), b) == Self::with_table(tables, b),
    ;

    fn table(tables: &mut RoutingTables) -> (r: &mut RoutingTable)
        ensures
            *r == Self::table_of(*old(tables)),
            *final(tables) == Self::with_table(*old(tables), *final(r)),
    ;

    /// Number of bytes that the attributes of a route occupy in an UPDATE
    /// message, where `len` are those of the attributes other than next hops.
    spec fn attrs_size(base: BaseAttrsView, len: u16) -> int;

    /// Whether a route can be advertised with the given attributes.
    spec fn sendable(base: BaseAttrsView) -> bool;

    /// The message that advertises a batch of prefixes.
    spec fn reach_msg(attrs: AttrsView, prefixes: Seq<IpNetwork>) -> UpdateView;

    /// Number of bytes that the withdrawal of prefixes occupies besides them.
    spec fn withdraw_size() -> u16;

    /// The message that withdraws a batch of prefixes.
    spec fn unreach_msg(prefixes: Seq<IpNetwork>) -> UpdateView;

    fn attrs_len(attrs: &BaseAttrs, len: u16) -> (n: u16)
        requires
            Self::attrs_size(attrs@, len) <= u16::MAX,
        ensures
            n == Self::attrs_size(attrs@, len),
    ;

    fn withdraw_len() -> (n: u16)
        ensures
            n == Self::withdraw_size(),
    ;

    fn build_reach(attrs: &Attrs, prefixes: Vec<IpNetwork>) -> (msg: UpdateMsg)
        requires
            Self::sendable(attrs.base@),
        ensures
            msg@ == Self::reach_msg(attrs@, prefixes@),
    ;

    fn build_unreach(prefixes: Vec<IpNetwork>) -> (msg: UpdateMsg)
        ensures
            msg@ == Self::unreach_msg(prefixes@),
    ;
}

/// The IP address family of an address family.
pub open spec fn ip_family(af: AfiSafi) -> IpFamily {
    match af {
        AfiSafi::Ipv4Unicast => IpFamily::Ipv4,
        AfiSafi::Ipv6Unicast => IpFamily::Ipv6,
    }
}

impl AddressFamily for Ipv4Unicast {
    open spec fn family() -> AfiSafi {
        AfiSafi::Ipv4Unicast
    }

    fn afi_safi() -> AfiSafi {
        AfiSafi::Ipv4Unicast
    }

    open spec fn nexthop_rx(base: BaseAttrsView) -> IpAddr {
        base.nexthop->0
    }

    fn nexthop_rx_extract(attrs: &BaseAttrs) -> IpAddr {
        attrs.nexthop.unwrap()
    }

    open spec fn nexthop_tx(nbr: Session, nexthop_self: bool, base: BaseAttrsView) -> BaseAttrsView {
        if nexthop_replaced(nbr, nexthop_self) {
            BaseAttrsView { nexthop: Some(session_src_v4((nbr.conn_info->0).local_addr)), ..base }
        } else {
            base
        }
    }

    fn nexthop_tx_change(nbr: &Session, nexthop_self: bool, attrs: &mut BaseAttrs) {
        // Get source address of the BGP session.
        let session_src: Ipv4Addr = match nbr.conn_info.unwrap().local_addr {
            // BGP over IPv4.
            IpAddr::V4(addr) => addr,
            // BGP over IPv6.
            IpAddr::V6(_) => 0,
        };

        // Use the source address of the session as next hop.
        if nexthop_self {
            attrs.nexthop = Some(IpAddr::V4(session_src));
            return;
        }
        match nbr.peer_type {
            PeerType::Internal => {
                // Next hop isn't modified.
            },
            PeerType::External => {
                if !nbr.shared_subnet {
                    // Update next hop using the source address of the eBGP
                    // session.
                    attrs.nexthop = Some(IpAddr::V4(session_src));
                }
            },
        }
    }

    open spec fn queue_of(queues: NeighborUpdateQueues) -> NeighborUpdateQueue {
        queues.ipv4_unicast
    }

    open spec fn with_queue(queues: NeighborUpdateQueues, queue: NeighborUpdateQueue) -> NeighborUpdateQueues {
        NeighborUpdateQueues { ipv4_unicast: queue, ..queues }
    }

    fn update_queue(queues: &mut NeighborUpdateQueues) -> &mut NeighborUpdateQueue {
        &mut queues.ipv4_unicast
    }

    open spec fn table_of(tables: RoutingTables) -> RoutingTable {
        tables.ipv4_unicast
    }

    open spec fn with_table(tables: RoutingTables, table: RoutingTable) -> RoutingTables {
        RoutingTables { ipv4_unicast: table, ..tables }
    }

    proof fn table_replaced(tables: RoutingTables, table: RoutingTable) {
    }

    proof fn table_restored(tables: RoutingTables) {
    }

    proof fn table_replaced_twice(tables: RoutingTables, a: RoutingTable, b: RoutingTable) {
    }

    fn table(tables: &mut RoutingTables) -> &mut RoutingTable {
        &mut tables.ipv4_unicast
    }

    open spec fn attrs_size(base: BaseAttrsView, len: u16) -> int {
        len + ATTR_NEXTHOP_LEN
    }

    open spec fn sendable(base: BaseAttrsView) -> bool {
        base.nexthop matches Some(IpAddr::V4(_))
    }

    open spec fn reach_msg(attrs: AttrsView, prefixes: Seq<IpNetwork>) -> UpdateView {
        UpdateView {
            reach: Some((prefixes, (attrs.base.nexthop->0)->V4_0)),
            unreach: None,
            mp_reach: None,
            mp_unreach: None,
            attrs: Some(attrs),
        }
    }

    open spec fn withdraw_size() -> u16 {
        0
    }

    open spec fn unreach_msg(prefixes: Seq<IpNetwork>) -> UpdateView {
        UpdateView { reach: None, unreach: Some(prefixes), mp_reach: None, mp_unreach: None, attrs: None }
    }

    fn attrs_len(attrs: &BaseAttrs, len: u16) -> u16 {
        len + ATTR_NEXTHOP_LEN
    }

    fn withdraw_len() -> u16 {
        0
    }

    fn build_reach(attrs: &Attrs, prefixes: Vec<IpNetwork>) -> UpdateMsg {
        let nexthop: Ipv4Addr = match attrs.base.nexthop {
            Some(IpAddr::V4(addr)) => addr,
            _ => 0,
        };
        UpdateMsg {
            reach: Some(ReachNlri { prefixes, nexthop }),
            unreach: None,
            mp_reach: None,
            mp_unreach: None,
            attrs: Some(attrs.dup()),
        }
    }

    fn build_unreach(prefixes: Vec<IpNetwork>) -> UpdateMsg {
        UpdateMsg {
            reach: None,
            unreach: Some(UnreachNlri { prefixes }),
            mp_reach: None,
            mp_unreach: None,
            attrs: None,
        }
    }
}

impl AddressFamily for Ipv6Unicast {
    open spec fn family() -> AfiSafi {
        AfiSafi::Ipv6Unicast
    }

    fn afi_safi() -> AfiSafi {
        AfiSafi::Ipv6Unicast
    }

    open spec fn nexthop_rx(base: BaseAttrsView) -> IpAddr {
        match base.ll_nexthop {
            Some(addr) => IpAddr::V6(addr),
            None => base.nexthop->0,
        }
    }

    fn nexthop_rx_extract(attrs: &BaseAttrs) -> IpAddr {
        match attrs.ll_nexthop {
            Some(addr) => IpAddr::V6(addr),
            None => attrs.nexthop.unwrap(),
        }
    }

    open spec fn nexthop_tx(nbr: Session, nexthop_self: bool, base: BaseAttrsView) -> BaseAttrsView {
        if nexthop_replaced(nbr, nexthop_self) {
            BaseAttrsView {
                nexthop: Some(session_src_v6((nbr.conn_info->0).local_addr)),
                // The link-local next hop stays when the router itself is the
                // next hop.
                ll_nexthop: if nexthop_self {
                    base.ll_nexthop
                } else {
                    None
                },
                ..base
            }
        } else {
            base
        }
    }

    fn nexthop_tx_change(nbr: &Session, nexthop_self: bool, attrs: &mut BaseAttrs) {
        // Get source address of the BGP session.
        let session_src: Ipv6Addr = match nbr.conn_info.unwrap().local_addr {
            // BGP over IPv4 (IPv4-mapped IPv6 address).
            IpAddr::V4(addr) => 0xffff_0000_0000u128 + addr as u128,
            // BGP over IPv6.
            IpAddr::V6(addr) => addr,
        };

        // Use the source address of the session as next hop.
        if nexthop_self {
            attrs.nexthop = Some(IpAddr::V6(session_src));
            return;
        }
        match nbr.peer_type {
            PeerType::Internal => {
                // Global next hop isn't modified.
            },
            PeerType::External => {
                if !nbr.shared_subnet {
                    // Update global next hop using the source address of the
                    // eBGP session.
                    attrs.nexthop = Some(IpAddr::V6(session_src));

                    // Unset link-local next hop.
                    attrs.ll_nexthop = None;
                }
            },
        }
    }

    open spec fn queue_of(queues: NeighborUpdateQueues) -> NeighborUpdateQueue {
        queues.ipv6_unicast
    }

    open spec fn with_queue(queues: NeighborUpdateQueues, queue: NeighborUpdateQueue) -> NeighborUpdateQueues {
        NeighborUpdateQueues { ipv6_unicast: queue, ..queues }
    }

    fn update_queue(queues: &mut NeighborUpdateQueues) -> &mut NeighborUpdateQueue {
        &mut queues.ipv6_unicast
    }

    open spec fn table_of(tables: RoutingTables) -> RoutingTable {
        tables.ipv6_unicast
    }

    open spec fn with_table(tables: RoutingTables, table: RoutingTable) -> RoutingTables {
        RoutingTables { ipv6_unicast: table, ..tables }
    }

    proof fn table_replaced(tables: RoutingTables, table: RoutingTable) {
    }

    proof fn table_restored(tables: RoutingTables) {
    }

    proof fn table_replaced_twice(tables: RoutingTables, a: RoutingTable, b: RoutingTable) {
    }

    fn table(tables: &mut RoutingTables) -> &mut RoutingTable {
        &mut tables.ipv6_unicast
    }

    open spec fn attrs_size(base: BaseAttrsView, len: u16) -> int {
        len + ATTR_MIN_LEN_EXT + MP_REACH_MIN_LEN + if base.ll_nexthop is Some {
            32int
        } else {
            16int
        }
    }

    open spec fn sendable(base: BaseAttrsView) -> bool {
        base.nexthop matches Some(IpAddr::V6(_))
    }

    open spec fn reach_msg(attrs: AttrsView, prefixes: Seq<IpNetwork>) -> UpdateView {
        UpdateView {
            reach: None,
            unreach: None,
            mp_reach: Some(
                MpReachView::Ipv6Unicast {
                    prefixes,
                    nexthop: (attrs.base.nexthop->0)->V6_0,
                    ll_nexthop: attrs.base.ll_nexthop,
                },
            ),
            mp_unreach: None,
            attrs: Some(attrs),
        }
    }

    open spec fn withdraw_size() -> u16 {
        (ATTR_MIN_LEN_EXT + MP_UNREACH_MIN_LEN) as u16
    }

    open spec fn unreach_msg(prefixes: Seq<IpNetwork>) -> UpdateView {
        UpdateView {
            reach: None,
            unreach: None,
            mp_reach: None,
            mp_unreach: Some(MpUnreachView::Ipv6Unicast { prefixes }),
            attrs: None,
        }
    }

    fn attrs_len(attrs: &BaseAttrs, len: u16) -> u16 {
        let nexthop_len: u16 = if attrs.ll_nexthop.is_some() {
            32
        } else {
            16
        };
        len + ATTR_MIN_LEN_EXT + MP_REACH_MIN_LEN + nexthop_len
    }

    fn withdraw_len() -> u16 {
        ATTR_MIN_LEN_EXT + MP_UNREACH_MIN_LEN
    }

    fn build_reach(attrs: &Attrs, prefixes: Vec<IpNetwork>) -> UpdateMsg {
        let nexthop: Ipv6Addr = match attrs.base.nexthop {
            Some(IpAddr::V6(addr)) => addr,
            _ => 0,
        };
        UpdateMsg {
            reach: None,
            unreach: None,
            mp_reach: Some(
                MpReachNlri::Ipv6Unicast { prefixes, nexthop, ll_nexthop: attrs.base.ll_nexthop },
            ),
            mp_unreach: None,
            attrs: Some(attrs.dup()),
        }
    }

    fn build_unreach(prefixes: Vec<IpNetwork>) -> UpdateMsg {
        UpdateMsg {
            reach: None,
            unreach: None,
            mp_reach: None,
            mp_unreach: Some(MpUnreachNlri::Ipv6Unicast { prefixes }),
            attrs: None,
        }
    }
}

// ===== batches of prefixes =====

/// Number of bytes occupied by a prefix encoded as NLRI: one octet for the
/// prefix length, followed by the significant bytes of the prefix address.
pub open spec fn nlri_size(prefix: IpNetwork) -> int {
    1 + (prefix.plen + 7) / 8
}

/// Number of bytes occupied by a sequence of prefixes.
pub open spec fn nlri_total(prefixes: Seq<IpNetwork>) -> int
    decreases prefixes.len(),
{
    if prefixes.len() == 0 {
        0
    } else {
        nlri_total(prefixes.drop_last()) + nlri_size(prefixes.last())
    }
}

/// How many of the leading prefixes fit into a number of bytes.
pub open spec fn nlri_fit(prefixes: Seq<IpNetwork>, size: int) -> nat
    decreases prefixes.len(),
{
    if prefixes.len() == 0 || nlri_size(prefixes[0]) > size {
        0
    } else {
        1 + nlri_fit(prefixes.skip(1), size - nlri_size(prefixes[0]))
    }
}

/// The prefixes in batches, each of which is filled as much as possible.
pub open spec fn nlri_batches(prefixes: Seq<IpNetwork>, size: int) -> Seq<Seq<IpNetwork>>
    decreases prefixes.len(),
{
    let n = nlri_fit(prefixes, size);
    if n == 0 || n > prefixes.len() {
        Seq::empty()
    } else {
        seq![prefixes.take(n as int)] + nlri_batches(prefixes.skip(n as int), size)
    }
}

/// The largest prefix length of a family.
pub open spec fn max_plen(af: IpFamily) -> int {
    match af {
        IpFamily::Ipv4 => 32,
        IpFamily::Ipv6 => 128,
    }
}

/// The room that the attributes of an UPDATE message leave to prefixes.
pub open spec fn nlri_room(attr_len: u16) -> int {
    MSG_MAX_LEN - UPDATE_MIN_LEN - attr_len
}

/// Whether the attributes leave room for a prefix of maximum length.
pub open spec fn nlri_possible(af: IpFamily, attr_len: u16) -> bool {
    nlri_room(attr_len) >= 1 + max_plen(af) / 8
}

/// All batches, one after the other.
pub open spec fn concat(batches: Seq<Seq<IpNetwork>>) -> Seq<IpNetwork>
    decreases batches.len(),
{
    if batches.len() == 0 {
        Seq::empty()
    } else {
        batches[0] + concat(batches.skip(1))
    }
}

/// No more prefixes are taken than there are, and those taken fit.
pub proof fn nlri_fit_fits(prefixes: Seq<IpNetwork>, size: int)
    requires
        size >= 0,
    ensures
        nlri_fit(prefixes, size) <= prefixes.len(),
        nlri_total(prefixes.take(nlri_fit(prefixes, size) as int)) <= size,
        nlri_fit(prefixes, size) < prefixes.len() ==> nlri_total(prefixes.take(nlri_fit(prefixes, size) as int))
            + nlri_size(prefixes[nlri_fit(prefixes, size) as int]) > size,
    decreases prefixes.len(),
{
    let n = nlri_fit(prefixes, size);
    if n == 0 {
        assert(prefixes.take(0) =~= Seq::empty());
    } else {
        let rest = prefixes.skip(1);
        let left = size - nlri_size(prefixes[0]);
        nlri_fit_fits(rest, left);
        assert(prefixes.take(n as int) =~= seq![prefixes[0]] + rest.take(n - 1));
        nlri_total_cons(prefixes[0], rest.take(n - 1));
    }
}

proof fn nlri_total_cons(p: IpNetwork, s: Seq<IpNetwork>)
    ensures
        nlri_total(seq![p] + s) == nlri_size(p) + nlri_total(s),
    decreases s.len(),
{
    if s.len() == 0 {
        assert((seq![p] + s).drop_last() =~= Seq::empty());
        assert((seq![p] + s).last() == p);
        assert(nlri_total(Seq::<IpNetwork>::empty()) == 0);
    } else {
        assert((seq![p] + s).drop_last() =~= seq![p] + s.drop_last());
        nlri_total_cons(p, s.drop_last());
    }
}

/// Every prefix is in exactly one batch, in the order given; every batch
/// holds at least one prefix and fits; and none could have taken one more.
pub proof fn nlri_batches_partition(prefixes: Seq<IpNetwork>, size: int)
    requires
        forall|i: int| 0 <= i < prefixes.len() ==> nlri_size(#[trigger] prefixes[i]) <= size,
    ensures
        concat(nlri_batches(prefixes, size)) == prefixes,
        forall|k: int|
            #![trigger nlri_batches(prefixes, size)[k]]
            0 <= k < nlri_batches(prefixes, size).len() ==> {
                &&& nlri_batches(prefixes, size)[k].len() > 0
                &&& nlri_total(nlri_batches(prefixes, size)[k]) <= size
            },
        forall|k: int|
            #![trigger nlri_batches(prefixes, size)[k]]
            0 <= k < nlri_batches(prefixes, size).len() - 1 ==> nlri_total(nlri_batches(prefixes, size)[k])
                + nlri_size(nlri_batches(prefixes, size)[k + 1][0]) > size,
    decreases prefixes.len(),
{
    if prefixes.len() == 0 {
        assert(concat(nlri_batches(prefixes, size)) =~= prefixes);
    } else {
        assert(nlri_size(prefixes[0]) <= size);
        nlri_fit_fits(prefixes, size);
        let n = nlri_fit(prefixes, size) as int;
        assert(n >= 1);
        let rest = prefixes.skip(n);
        assert forall|i: int| 0 <= i < rest.len() implies nlri_size(#[trigger] rest[i]) <= size by {
            assert(rest[i] == prefixes[n + i]);
        }
        nlri_batches_partition(rest, size);
        let all = nlri_batches(prefixes, size);
        let tail = nlri_batches(rest, size);
        assert(all.skip(1) =~= tail);
        assert(all[0] == prefixes.take(n));
        assert(prefixes.take(n) + rest =~= prefixes);
        assert forall|k: int| 1 <= k < all.len() implies #[trigger] all[k] == tail[k - 1] by {}
        assert forall|k: int| #![trigger all[k]] 0 <= k < all.len() - 1 implies nlri_total(all[k]) + nlri_size(
            all[k + 1][0],
        ) > size by {
            if k == 0 {
                assert(rest.len() > 0);
                let m = nlri_fit(rest, size) as int;
                assert(tail[0] == rest.take(m));
                assert(all[1] == tail[0]);
                assert(rest.take(m)[0] == prefixes[n]);
            } else {
                assert(all[k] == tail[k - 1]);
                assert(all[k + 1] == tail[k]);
            }
        }
    }
}

pub fn nlri_len(prefix: &IpNetwork) -> (n: u16)
    ensures
        n == nlri_size(*prefix),
{
    1 + (prefix.plen as u16 + 7) / 8
}

/// The prefixes of each batch.
pub open spec fn batches_view(batches: Seq<Vec<IpNetwork>>) -> Seq<Seq<IpNetwork>> {
    batches.map_values(|b: Vec<IpNetwork>| b@)
}

/// Groups the given prefixes into batches that fill an UPDATE message as much
/// as possible, where `attr_len` is the number of bytes occupied by the path
/// attributes, excluding any NLRI they carry.
///
/// Returns `None` when the attributes leave no room for a prefix of maximum
/// length, in which case the prefixes can't be advertised at all.
pub fn nlri_chunks(prefixes: &Vec<IpNetwork>, af: IpFamily, attr_len: u16) -> (r: Option<Vec<Vec<IpNetwork>>>)
    requires
        forall|i: int|
            0 <= i < prefixes@.len() ==> (#[trigger] prefixes@[i]).valid() && prefixes@[i].family() == af,
    ensures
        r is Some <==> nlri_possible(af, attr_len),
        r matches Some(chunks) ==> batches_view(chunks@) == nlri_batches(prefixes@, nlri_room(attr_len)),
{
    let max: u16 = match af {
        IpFamily::Ipv4 => 32,
        IpFamily::Ipv6 => 128,
    };
    let total: u16 = MSG_MAX_LEN - UPDATE_MIN_LEN;
    if attr_len > total {
        return None;
    }
    let size: u16 = total - attr_len;
    if size < 1 + max / 8 {
        return None;
    }
    let mut chunks: Vec<Vec<IpNetwork>> = Vec::new();
    let mut i: usize = 0;
    let ghost all = nlri_batches(prefixes@, size as int);
    proof {
        assert forall|i: int| 0 <= i < prefixes@.len() implies nlri_size(#[trigger] prefixes@[i]) <= size by {
            assert(prefixes@[i].valid());
        }
        assert(prefixes@.skip(0) =~= prefixes@);
        assert(batches_view(chunks@) + nlri_batches(prefixes@.skip(0), size as int) =~= all);
    }
    while i < prefixes.len()
        invariant
            i <= prefixes@.len(),
            size == nlri_room(attr_len),
            all == nlri_batches(prefixes@, size as int),
            forall|i: int| 0 <= i < prefixes@.len() ==> nlri_size(#[trigger] prefixes@[i]) <= size,
            batches_view(chunks@) + nlri_batches(prefixes@.skip(i as int), size as int) == all,
        decreases prefixes@.len() - i,
    {
        let mut available: u16 = size;
        let mut chunk: Vec<IpNetwork> = Vec::new();
        let ghost rest = prefixes@.skip(i as int);
        let ghost start = i;
        assert(rest.take(0) =~= chunk@);
        assert(rest.skip(0) =~= rest);
        while i < prefixes.len() && nlri_len(&prefixes[i]) <= available
            invariant
                start <= i <= prefixes@.len(),
                rest == prefixes@.skip(start as int),
                chunk@ == rest.take(i - start),
                nlri_fit(rest, size as int) == (i - start) + nlri_fit(prefixes@.skip(i as int), available as int),
            decreases prefixes@.len() - i,
        {
            proof {
                assert(prefixes@.skip(i as int)[0] == prefixes@[i as int]);
                assert(prefixes@.skip(i as int).skip(1) =~= prefixes@.skip(i + 1));
                assert(rest.take(i + 1 - start) =~= rest.take(i - start).push(prefixes@[i as int]));
            }
            available = available - nlri_len(&prefixes[i]);
            chunk.push(prefixes[i]);
            i += 1;
        }
        proof {
            let n = (i - start) as nat;
            if i < prefixes@.len() {
                assert(prefixes@.skip(i as int)[0] == prefixes@[i as int]);
            }
            assert(nlri_fit(rest, size as int) == n);
            if n == 0 {
                assert(rest[0] == prefixes@[start as int]);
                assert(nlri_size(rest[0]) <= size);
                assert(nlri_fit(rest, size as int) > 0);
            }
            assert(rest.skip(n as int) =~= prefixes@.skip(i as int));
            assert(nlri_batches(rest, size as int) == seq![rest.take(n as int)] + nlri_batches(
                prefixes@.skip(i as int),
                size as int,
            ));
        }
        let ghost done = batches_view(chunks@);
        chunks.push(chunk);
        proof {
            assert(batches_view(chunks@) =~= done.push(chunk@));
            assert(batches_view(chunks@) + nlri_batches(prefixes@.skip(i as int), size as int) =~= all);
        }
    }
    proof {
        assert(prefixes@.skip(i as int).len() == 0);
        assert(nlri_batches(prefixes@.skip(i as int), size as int) =~= Seq::empty());
        assert(batches_view(chunks@) =~= all);
    }
    Some(chunks)
}

// ===== UPDATE messages =====

/// The messages that advertise the prefixes of one queue entry.
pub open spec fn entry_updates<A: AddressFamily>(entry: ReachQueue, len: u16) -> Seq<UpdateView> {
    let size = A::attrs_size(entry.attrs.base@, len) as u16;
    if nlri_possible(ip_family(A::family()), size) {
        nlri_batches(entry.prefixes.items(), nlri_room(size)).map_values(
            |b: Seq<IpNetwork>| A::reach_msg(entry.attrs@, b),
        )
    } else {
        Seq::empty()
    }
}

/// The messages that advertise the prefixes of all queue entries.
pub open spec fn reach_updates<A: AddressFamily>(reach: Seq<ReachQueue>, lens: Seq<u16>) -> Seq<UpdateView>
    decreases reach.len(),
{
    if reach.len() == 0 {
        Seq::empty()
    } else {
        reach_updates::<A>(reach.drop_last(), lens) + entry_updates::<A>(reach.last(), lens[reach.len() - 1])
    }
}

/// The messages that withdraw prefixes.
pub open spec fn unreach_updates<A: AddressFamily>(unreach: Seq<IpNetwork>) -> Seq<UpdateView> {
    if nlri_possible(ip_family(A::family()), A::withdraw_size()) {
        nlri_batches(unreach, nlri_room(A::withdraw_size())).map_values(|b: Seq<IpNetwork>| A::unreach_msg(b))
    } else {
        Seq::empty()
    }
}

/// Whether every element of a set is a network of an address family.
pub open spec fn nets_of(nets: Set<IpNetwork>, af: IpFamily) -> bool {
    forall|n: IpNetwork| #[trigger] nets.contains(n) ==> n.valid() && n.family() == af
}

/// Whether the entries of an update queue can be sent.
pub open spec fn queue_ready<A: AddressFamily>(queue: NeighborUpdateQueue, lens: Seq<u16>) -> bool {
    &&& lens.len() == queue.reach@.len()
    &&& nets_of(queue.unreach@, ip_family(A::family()))
    &&& forall|i: int|
        #![trigger queue.reach@[i]]
        0 <= i < queue.reach@.len() ==> {
            &&& A::sendable(queue.reach@[i].attrs.base@)
            &&& A::attrs_size(queue.reach@[i].attrs.base@, lens[i]) <= u16::MAX
            &&& nets_of(queue.reach@[i].prefixes@, ip_family(A::family()))
        }
}

/// The messages themselves.
pub open spec fn msgs_view(msgs: Seq<UpdateMsg>) -> Seq<UpdateView> {
    msgs.map_values(|m: UpdateMsg| m@)
}

/// The elements of a set of networks.
fn nets_to_vec(nets: &OrdSet<IpNetwork>, af: IpFamily) -> (v: Vec<IpNetwork>)
    requires
        nets_of(nets@, af),
    ensures
        v@ == nets.items(),
        forall|i: int| 0 <= i < v@.len() ==> (#[trigger] v@[i]).valid() && v@[i].family() == af,
{
    let v = nets.to_vec();
    proof {
        assert(v@ =~= nets.items()) by {
            assert forall|i: int| 0 <= i < v@.len() implies v@[i] == nets.items()[i] by {
                assert(v@[i]@ == nets.items()[i]);
            }
        }
        assert forall|i: int| 0 <= i < v@.len() implies (#[trigger] v@[i]).valid() && v@[i].family() == af by {
            assert(nets.items().to_set().contains(nets.items()[i]));
            assert(nets@.contains(v@[i]));
        }
    }
    v
}

/// Prefixes that cannot be advertised, as their attributes leave no room for them.
pub struct AttrsTooLong {
    pub attrs: Attrs,
    pub prefixes: Vec<IpNetwork>,
    /// Number of bytes that the attributes occupy.
    pub attrs_len: u16,
}

pub struct AttrsTooLongView {
    pub attrs: AttrsView,
    pub prefixes: Seq<IpNetwork>,
    pub attrs_len: int,
}

impl View for AttrsTooLong {
    type V = AttrsTooLongView;

    open spec fn view(&self) -> AttrsTooLongView {
        AttrsTooLongView { attrs: self.attrs@, prefixes: self.prefixes@, attrs_len: self.attrs_len as int }
    }
}

/// The queue entries that cannot be advertised.
pub open spec fn reach_too_long<A: AddressFamily>(reach: Seq<ReachQueue>, lens: Seq<u16>) -> Seq<AttrsTooLongView>
    decreases reach.len(),
{
    if reach.len() == 0 {
        Seq::empty()
    } else {
        let rest = reach_too_long::<A>(reach.drop_last(), lens);
        let entry = reach.last();
        let size = A::attrs_size(entry.attrs.base@, lens[reach.len() - 1]);
        if nlri_possible(ip_family(A::family()), size as u16) {
            rest
        } else {
            rest.push(AttrsTooLongView { attrs: entry.attrs@, prefixes: entry.prefixes.items(), attrs_len: size })
        }
    }
}

pub open spec fn too_long_view(list: Seq<AttrsTooLong>) -> Seq<AttrsTooLongView> {
    list.map_values(|e: AttrsTooLong| e@)
}

/// The messages of an update queue, and what cannot be sent.
pub struct Updates {
    pub msgs: Vec<UpdateMsg>,
    pub too_long: Vec<AttrsTooLong>,
}

/// Builds the UPDATE messages of an update queue, and empties the queue.
/// `lens` holds the number of bytes that the attributes of each entry occupy,
/// next hops excluded. An entry whose attributes leave no room for prefixes is
/// handed back.
pub fn build_updates<A: AddressFamily>(queue: &mut NeighborUpdateQueue, lens: &Vec<u16>) -> (r: Updates)
    requires
        queue_ready::<A>(*old(queue), lens@),
    ensures
        msgs_view(r.msgs@) == reach_updates::<A>(old(queue).reach@, lens@) + unreach_updates::<A>(
            old(queue).unreach.items(),
        ),
        too_long_view(r.too_long@) == reach_too_long::<A>(old(queue).reach@, lens@),
        final(queue).reach@.len() == 0,
        final(queue).unreach@ == Set::<IpNetwork>::empty(),
{
    let af = match A::afi_safi() {
        AfiSafi::Ipv4Unicast => IpFamily::Ipv4,
        AfiSafi::Ipv6Unicast => IpFamily::Ipv6,
    };
    let mut reach: Vec<ReachQueue> = Vec::new();
    let mut unreach: OrdSet<IpNetwork> = OrdSet::new();
    std::mem::swap(&mut reach, &mut queue.reach);
    std::mem::swap(&mut unreach, &mut queue.unreach);
    let mut msgs: Vec<UpdateMsg> = Vec::new();
    let mut too_long: Vec<AttrsTooLong> = Vec::new();

    // Reachable prefixes.
    let mut i: usize = 0;
    assert(reach@.take(0) =~= Seq::empty());
    assert(too_long_view(too_long@) =~= Seq::empty());
    assert(msgs_view(msgs@) =~= Seq::empty());
    while i < reach.len()
        invariant
            i <= reach@.len(),
            queue_ready::<A>(*old(queue), lens@),
            reach@ == old(queue).reach@,
            af == ip_family(A::family()),
            msgs_view(msgs@) == reach_updates::<A>(reach@.take(i as int), lens@),
            too_long_view(too_long@) == reach_too_long::<A>(reach@.take(i as int), lens@),
        decreases reach@.len() - i,
    {
        let ghost prev = msgs_view(msgs@);
        let ghost dropped = too_long_view(too_long@);
        let entry = &reach[i];
        assert(old(queue).reach@[i as int] == *entry);
        let attrs_len = A::attrs_len(&entry.attrs.base, lens[i]);
        let prefixes = nets_to_vec(&entry.prefixes, af);
        if let Some(chunks) = nlri_chunks(&prefixes, af, attrs_len) {
            let ghost batches = batches_view(chunks@);
            let mut k: usize = 0;
            assert(batches.take(0) =~= Seq::empty());
            while k < chunks.len()
                invariant
                    k <= chunks@.len(),
                    batches == batches_view(chunks@),
                    A::sendable(entry.attrs.base@),
                    msgs_view(msgs@) =~= prev + batches.take(k as int).map_values(
                        |b: Seq<IpNetwork>| A::reach_msg(entry.attrs@, b),
                    ),
                decreases chunks@.len() - k,
            {
                let chunk = copy_nets(&chunks[k]);
                let ghost before = msgs_view(msgs@);
                let msg = A::build_reach(&entry.attrs, chunk);
                msgs.push(msg);
                proof {
                    assert(msgs_view(msgs@) =~= before.push(msg@));
                    assert(batches[k as int] == chunks@[k as int]@);
                    assert(batches.take(k + 1) =~= batches.take(k as int).push(batches[k as int]));
                }
                k += 1;
            }
            assert(batches.take(k as int) =~= batches);
            assert(msgs_view(msgs@) =~= prev + entry_updates::<A>(*entry, lens@[i as int]));
        } else {
            let error = AttrsTooLong { attrs: entry.attrs.dup(), prefixes, attrs_len };
            too_long.push(error);
            assert(too_long_view(too_long@) =~= dropped.push(error@));
            assert(msgs_view(msgs@) =~= prev + entry_updates::<A>(*entry, lens@[i as int]));
        }
        proof {
            assert(reach@.take(i + 1).drop_last() =~= reach@.take(i as int));
            assert(reach@.take(i + 1).last() == *entry);
        }
        i += 1;
    }
    assert(reach@.take(i as int) =~= reach@);

    // Unreachable prefixes.
    let ghost prev = msgs_view(msgs@);
    let prefixes = nets_to_vec(&unreach, af);
    if let Some(chunks) = nlri_chunks(&prefixes, af, A::withdraw_len()) {
        let ghost batches = batches_view(chunks@);
        let mut k: usize = 0;
        assert(batches.take(0) =~= Seq::empty());
        while k < chunks.len()
            invariant
                k <= chunks@.len(),
                batches == batches_view(chunks@),
                msgs_view(msgs@) =~= prev + batches.take(k as int).map_values(|b: Seq<IpNetwork>| A::unreach_msg(b)),
            decreases chunks@.len() - k,
        {
            let chunk = copy_nets(&chunks[k]);
            let ghost before = msgs_view(msgs@);
            let msg = A::build_unreach(chunk);
            msgs.push(msg);
            proof {
                assert(msgs_view(msgs@) =~= before.push(msg@));
                assert(batches[k as int] == chunks@[k as int]@);
                assert(batches.take(k + 1) =~= batches.take(k as int).push(batches[k as int]));
            }
            k += 1;
        }
        assert(batches.take(k as int) =~= batches);
    }
    assert(msgs_view(msgs@) =~= prev + unreach_updates::<A>(unreach.items()));
    Updates { msgs, too_long }
}

pub(crate) fn copy_nets(nets: &Vec<IpNetwork>) -> (r: Vec<IpNetwork>)
    ensures
        r@ == nets@,
{
    let mut r: Vec<IpNetwork> = Vec::new();
    let mut i: usize = 0;
    while i < nets.len()
        invariant
            i <= nets@.len(),
            r@ == nets@.take(i as int),
        decreases nets@.len() - i,
    {
        r.push(nets[i]);
        i += 1;
        assert(r@ =~= nets@.take(i as int));
    }
    assert(r@ =~= nets@);
    r
}

} // verus!
