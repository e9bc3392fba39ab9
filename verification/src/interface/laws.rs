//! What the interfaces of the system promise: which requests go to the kernel, who
//! is told what, and which Router ID is taken.

use vstd::prelude::*;

use crate::collections::{filter_map, flat_map, lex_lt, Key, Table};
use crate::interface::arena::Index;
use crate::interface::configuration::{
    address_changed, entry_changed, event_requests, interface_changed, target_of, vrrp_started, AddressChange, Event,
    EventView, InterfaceCfg, InterfaceCfgView, InterfaceChange, InterfaceEntryChange,
};
use crate::interface::interfaces::{
    addr_dels, addr_flags, all_told, config_requests, configured, discovered, is_known, is_loopback, is_router_id,
    link_added, link_msg, link_removed, link_updated, lost_notes, offers, owner_left, router_id_notes,
    suits_router_id, told, unconfig_requests, update_msg, update_target, vlan_requests, IbusMsgView, Interface,
    InterfaceAddress, InterfaceFlags, InterfaceSub, InterfaceView, InterfacesView, LinkState, NetlinkRequestView,
    NoteView, Owner, SenderId, VrrpHandle,
};
use crate::ip::{AddressFamily, IpAddr, IpNetwork, Ipv4Addr};

verus! {

// ===== sequences =====

proof fn flat_map_holds<A, B>(s: Seq<A>, f: spec_fn(A) -> Seq<B>, i: int, b: B)
    requires
        0 <= i < s.len(),
        f(s[i]).contains(b),
    ensures
        flat_map(s, f).contains(b),
    decreases s.len(),
{
    let rest = flat_map(s.drop_last(), f);
    if i < s.len() - 1 {
        flat_map_holds(s.drop_last(), f, i, b);
        let k = choose|k: int| 0 <= k < rest.len() && rest[k] == b;
        assert(flat_map(s, f)[k] == b);
    } else {
        let last = f(s[i]);
        let k = choose|k: int| 0 <= k < last.len() && last[k] == b;
        assert(flat_map(s, f)[rest.len() + k] == b);
    }
}

proof fn flat_map_holds_only<A, B>(s: Seq<A>, f: spec_fn(A) -> Seq<B>, b: B)
    requires
        flat_map(s, f).contains(b),
    ensures
        exists|i: int| 0 <= i < s.len() && f(#[trigger] s[i]).contains(b),
    decreases s.len(),
{
    if s.len() > 0 {
        let rest = flat_map(s.drop_last(), f);
        let k = choose|k: int| 0 <= k < flat_map(s, f).len() && flat_map(s, f)[k] == b;
        if k < rest.len() {
            assert(rest[k] == b);
            flat_map_holds_only(s.drop_last(), f, b);
            let i = choose|i: int| 0 <= i < s.len() - 1 && f(#[trigger] s.drop_last()[i]).contains(b);
            assert(f(s[i]).contains(b));
        } else {
            assert(f(s.last())[k - rest.len()] == b);
            assert(f(s[s.len() - 1]).contains(b));
        }
    }
}

proof fn filter_map_holds<A, B>(s: Seq<A>, f: spec_fn(A) -> Option<B>, i: int, b: B)
    requires
        0 <= i < s.len(),
        f(s[i]) == Some(b),
    ensures
        filter_map(s, f).contains(b),
    decreases s.len(),
{
    let rest = filter_map(s.drop_last(), f);
    if i < s.len() - 1 {
        filter_map_holds(s.drop_last(), f, i, b);
        let k = choose|k: int| 0 <= k < rest.len() && rest[k] == b;
        assert(filter_map(s, f)[k] == b);
    } else {
        assert(filter_map(s, f)[rest.len() as int] == b);
    }
}

proof fn filter_map_holds_only<A, B>(s: Seq<A>, f: spec_fn(A) -> Option<B>, b: B)
    requires
        filter_map(s, f).contains(b),
    ensures
        exists|i: int| 0 <= i < s.len() && f(#[trigger] s[i]) == Some(b),
    decreases s.len(),
{
    if s.len() > 0 {
        let rest = filter_map(s.drop_last(), f);
        let k = choose|k: int| 0 <= k < filter_map(s, f).len() && filter_map(s, f)[k] == b;
        if k < rest.len() {
            assert(rest[k] == b);
            filter_map_holds_only(s.drop_last(), f, b);
            let i = choose|i: int| 0 <= i < s.len() - 1 && f(#[trigger] s.drop_last()[i]) == Some(b);
            assert(f(s[i]) == Some(b));
        } else {
            assert(f(s[s.len() - 1]) == Some(b));
        }
    }
}

// ===== requests =====

/// Applying the configuration of an interface asks first for its administrative
/// status, on its ifindex and as it is configured, and asks for that only once.
pub proof fn configured_status_is_requested(v: InterfacesView, f: Interface, ifindex: u32)
    ensures
        config_requests(v, f, ifindex).len() > 0,
        config_requests(v, f, ifindex)[0] == (NetlinkRequestView::AdminStatusChange {
            ifindex,
            enabled: f.config.enabled,
        }),
        forall|i: int|
            0 < i < config_requests(v, f, ifindex).len() ==> !(#[trigger] config_requests(
                v,
                f,
                ifindex,
            )[i] is AdminStatusChange),
{
    let c = config_requests(v, f, ifindex);
    let installs = flat_map(
        f.config.addr_list.keys(),
        crate::interface::interfaces::install_fn(ifindex, f.config.addr_list@),
    );
    assert forall|i: int| 0 < i < c.len() implies !(#[trigger] c[i] is AdminStatusChange) by {
        let n = c.len() - installs.len();
        if i >= n {
            assert(installs[i - n] == c[i]);
            assert(installs.contains(c[i]));
            flat_map_holds_only(
                f.config.addr_list.keys(),
                crate::interface::interfaces::install_fn(ifindex, f.config.addr_list@),
                c[i],
            );
        }
    }
}

/// Applying the configuration of an interface asks for the configured MTU, on its
/// ifindex, and for none if none is configured.
pub proof fn configured_mtu_is_requested(v: InterfacesView, f: Interface, ifindex: u32, mtu: u32, other: u32)
    ensures
        f.config.mtu == Some(mtu) ==> config_requests(v, f, ifindex).contains(
            NetlinkRequestView::MtuChange { ifindex, mtu },
        ),
        f.config.mtu != Some(mtu) || other != ifindex ==> !config_requests(v, f, ifindex).contains(
            NetlinkRequestView::MtuChange { ifindex: other, mtu },
        ),
{
    let c = config_requests(v, f, ifindex);
    let k = f.config.addr_list.keys();
    let g = crate::interface::interfaces::install_fn(ifindex, f.config.addr_list@);
    let installs = flat_map(k, g);
    let vlans = vlan_requests(v, f@, f.config.vlan_id);
    if f.config.mtu == Some(mtu) {
        assert(c[1 + vlans.len() as int] == (NetlinkRequestView::MtuChange { ifindex, mtu }));
    }
    let r = NetlinkRequestView::MtuChange { ifindex: other, mtu };
    if c.contains(r) && (f.config.mtu != Some(mtu) || other != ifindex) {
        let i = choose|i: int| 0 <= i < c.len() && c[i] == r;
        let n = c.len() - installs.len();
        assert(i >= n);
        assert(installs[i - n] == r);
        assert(installs.contains(r));
        flat_map_holds_only(k, g, r);
        assert(false);
    }
}

/// Applying the configuration of an interface asks for each configured address with
/// its prefix length, on its ifindex, and for no other address. It takes none away.
pub proof fn configured_addresses_are_requested(
    v: InterfacesView,
    f: Interface,
    ifindex: u32,
    i: int,
    net: IpNetwork,
    other: u32,
)
    ensures
        0 <= i < f.config.addr_list.keys().len() ==> config_requests(v, f, ifindex).contains(
            NetlinkRequestView::AddrInstall {
                ifindex,
                addr: IpNetwork {
                    addr: f.config.addr_list.keys()[i],
                    plen: f.config.addr_list@[f.config.addr_list.keys()[i]],
                },
            },
        ),
        config_requests(v, f, ifindex).contains(NetlinkRequestView::AddrInstall { ifindex: other, addr: net })
            ==> other == ifindex && f.config.addr_list.keys().contains(net.addr) && f.config.addr_list@[net.addr]
            == net.plen,
        !config_requests(v, f, ifindex).contains(NetlinkRequestView::AddrUninstall { ifindex: other, addr: net }),
{
    let c = config_requests(v, f, ifindex);
    let k = f.config.addr_list.keys();
    let g = crate::interface::interfaces::install_fn(ifindex, f.config.addr_list@);
    let installs = flat_map(k, g);
    let n = c.len() - installs.len();
    if 0 <= i < k.len() {
        let r = NetlinkRequestView::AddrInstall {
            ifindex,
            addr: IpNetwork { addr: k[i], plen: f.config.addr_list@[k[i]] },
        };
        assert(g(k[i])[0] == r);
        flat_map_holds(k, g, i, r);
        let j = choose|j: int| 0 <= j < installs.len() && installs[j] == r;
        assert(c[n + j] == r);
    }
    let a = NetlinkRequestView::AddrInstall { ifindex: other, addr: net };
    if c.contains(a) {
        let j = choose|j: int| 0 <= j < c.len() && c[j] == a;
        assert(installs[j - n] == a);
        assert(installs.contains(a));
        flat_map_holds_only(k, g, a);
        let x = choose|x: int| 0 <= x < k.len() && g(#[trigger] k[x]).contains(a);
        assert(g(k[x])[0] == a);
        assert(k[x] == net.addr);
    }
    let u = NetlinkRequestView::AddrUninstall { ifindex: other, addr: net };
    if c.contains(u) {
        let j = choose|j: int| 0 <= j < c.len() && c[j] == u;
        assert(installs[j - n] == u);
        assert(installs.contains(u));
        flat_map_holds_only(k, g, u);
        assert(false);
    }
}

/// A VLAN is asked for under the interface's name, on the ifindex of its parent and
/// with the given identifier, exactly if the system has the parent and does not yet
/// have the interface.
pub proof fn vlans_are_requested_on_their_parent(
    v: InterfacesView,
    f: InterfaceView,
    vlan_id: u16,
    parent: Seq<char>,
    parent_ifindex: u32,
)
    ensures
        vlan_requests(v, f, None).len() == 0,
        f.ifindex is Some ==> vlan_requests(v, f, Some(vlan_id)).len() == 0,
        f.config.parent is None ==> vlan_requests(v, f, Some(vlan_id)).len() == 0,
        f.config.parent == Some(parent) && !v.names.contains_key(parent) ==> vlan_requests(
            v,
            f,
            Some(vlan_id),
        ).len() == 0,
        f.config.parent == Some(parent) && v.names.contains_key(parent) && v.arena[v.names[parent]].ifindex is None
            ==> vlan_requests(v, f, Some(vlan_id)).len() == 0,
        f.ifindex is None && f.config.parent == Some(parent) && v.names.contains_key(parent)
            && v.arena[v.names[parent]].ifindex == Some(parent_ifindex) ==> vlan_requests(v, f, Some(vlan_id))
            == seq![NetlinkRequestView::VlanCreate { name: f.name, parent_ifindex, vlan_id }],
{
}

/// An interface that leaves the configuration has each of its configured addresses
/// taken away, and nothing else is asked for. One that the system loses needs nothing.
pub proof fn unconfigured_addresses_are_removed(f: Interface, ifindex: u32, i: int, r: NetlinkRequestView)
    requires
        f.ifindex == Some(ifindex),
    ensures
        0 <= i < f.config.addr_list.keys().len() ==> unconfig_requests(
            f,
            Owner { config: true, system: false },
        ).contains(
            NetlinkRequestView::AddrUninstall {
                ifindex,
                addr: IpNetwork {
                    addr: f.config.addr_list.keys()[i],
                    plen: f.config.addr_list@[f.config.addr_list.keys()[i]],
                },
            },
        ),
        unconfig_requests(f, Owner { config: true, system: false }).contains(r) ==> {
            &&& r is AddrUninstall
            &&& r->AddrUninstall_ifindex == ifindex
            &&& f.config.addr_list.keys().contains(r->AddrUninstall_addr.addr)
        },
        unconfig_requests(f, Owner { config: false, system: true }).len() == 0,
{
    let k = f.config.addr_list.keys();
    let g = crate::interface::interfaces::uninstall_fn(ifindex, f.config.addr_list@);
    if 0 <= i < k.len() {
        let u = NetlinkRequestView::AddrUninstall {
            ifindex,
            addr: IpNetwork { addr: k[i], plen: f.config.addr_list@[k[i]] },
        };
        assert(g(k[i])[0] == u);
        flat_map_holds(k, g, i, u);
    }
    if flat_map(k, g).contains(r) {
        flat_map_holds_only(k, g, r);
        let x = choose|x: int| 0 <= x < k.len() && g(#[trigger] k[x]).contains(r);
        assert(g(k[x])[0] == r);
    }
}

/// Queued events ask for what they name, on the ifindex of the interface of that name
/// if the system has it; otherwise nothing is asked for.
pub proof fn events_ask_for_what_they_name(
    v: InterfacesView,
    name: Seq<char>,
    ifindex: u32,
    enabled: bool,
    mtu: u32,
    addr: IpAddr,
    plen: u8,
)
    requires
        v.names.contains_key(name),
        v.arena[v.names[name]].ifindex == Some(ifindex),
    ensures
        event_requests(v, EventView::AdminStatusChange(name, enabled)) == seq![
            NetlinkRequestView::AdminStatusChange { ifindex, enabled },
        ],
        event_requests(v, EventView::MtuChange(name, mtu)) == seq![NetlinkRequestView::MtuChange { ifindex, mtu }],
        event_requests(v, EventView::AddressInstall(name, addr, plen)) == seq![
            NetlinkRequestView::AddrInstall { ifindex, addr: IpNetwork { addr, plen } },
        ],
        event_requests(v, EventView::AddressUninstall(name, addr, plen)) == seq![
            NetlinkRequestView::AddrUninstall { ifindex, addr: IpNetwork { addr, plen } },
        ],
        event_requests(v, EventView::VrrpStart(name)).len() == 0,
{
}

/// Nothing is asked for about an interface that the system does not have, but for a
/// VLAN that is to be created.
pub proof fn absent_interfaces_ask_for_nothing(v: InterfacesView, e: EventView, name: Seq<char>)
    requires
        e.name() == name,
    ensures
        !v.names.contains_key(name) ==> event_requests(v, e).len() == 0,
        v.names.contains_key(name) && v.arena[v.names[name]].ifindex is None && !(e is VlanCreate) ==> event_requests(
            v,
            e,
        ).len() == 0,
        v.names.contains_key(name) && e is VlanCreate ==> event_requests(v, e) == vlan_requests(
            v,
            v.arena[v.names[name]],
            Some(e->VlanCreate_1),
        ),
{
}

/// Queued events are processed with deletions first, then status, MTU, VLANs,
/// addresses to install and to uninstall, and VRRP last.
pub proof fn events_are_processed_by_kind(
    a: Seq<char>,
    b: Seq<char>,
    enabled: bool,
    mtu: u32,
    vlan_id: u16,
    addr: IpAddr,
    plen: u8,
)
    ensures
        lex_lt(
            Event::code(EventView::InterfaceDelete(a)),
            Event::code(EventView::AdminStatusChange(b, enabled)),
        ),
        lex_lt(
            Event::code(EventView::AdminStatusChange(a, enabled)),
            Event::code(EventView::MtuChange(b, mtu)),
        ),
        lex_lt(Event::code(EventView::MtuChange(a, mtu)), Event::code(EventView::VlanCreate(b, vlan_id))),
        lex_lt(
            Event::code(EventView::VlanCreate(a, vlan_id)),
            Event::code(EventView::AddressInstall(b, addr, plen)),
        ),
        lex_lt(
            Event::code(EventView::AddressInstall(a, addr, plen)),
            Event::code(EventView::AddressUninstall(b, addr, plen)),
        ),
        lex_lt(
            Event::code(EventView::AddressUninstall(a, addr, plen)),
            Event::code(EventView::VrrpStart(b)),
        ),
{
}

// ===== subscribers =====

/// Each subscriber hears of an interface. Of an address, those hear that asked for
/// its family. The message goes out unchanged, and nothing else does.
pub proof fn subscribers_are_told(
    subs: Table<u64, InterfaceSub>,
    own: Table<u64, InterfaceSub>,
    msg: IbusMsgView,
    af: AddressFamily,
    i: int,
    note: NoteView,
)
    ensures
        0 <= i < subs.keys().len() ==> all_told(subs, own, None, msg).contains(
            NoteView { tx: subs@[subs.keys()[i]].tx, msg },
        ),
        0 <= i < own.keys().len() ==> all_told(subs, own, None, msg).contains(
            NoteView { tx: own@[own.keys()[i]].tx, msg },
        ),
        0 <= i < subs.keys().len() && subs@[subs.keys()[i]].afs@.contains(af) ==> all_told(
            subs,
            own,
            Some(af),
            msg,
        ).contains(NoteView { tx: subs@[subs.keys()[i]].tx, msg }),
        0 <= i < own.keys().len() && own@[own.keys()[i]].afs@.contains(af) ==> all_told(
            subs,
            own,
            Some(af),
            msg,
        ).contains(NoteView { tx: own@[own.keys()[i]].tx, msg }),
        all_told(subs, own, None, msg).contains(note) ==> note.msg == msg,
        all_told(subs, own, Some(af), msg).contains(note) ==> note.msg == msg && asked_for(subs, own, af, note.tx),
{
    told_holds(subs, None, msg, i, note);
    told_holds(own, None, msg, i, note);
    told_holds(subs, Some(af), msg, i, note);
    told_holds(own, Some(af), msg, i, note);
    joined_holds(told(subs, None, msg), told(own, None, msg));
    joined_holds(told(subs, Some(af), msg), told(own, Some(af), msg));
}

/// Whether some subscription to addresses of a family has that sender.
pub open spec fn asked_for(
    subs: Table<u64, InterfaceSub>,
    own: Table<u64, InterfaceSub>,
    af: AddressFamily,
    tx: SenderId,
) -> bool {
    ||| exists|i: int|
        0 <= i < subs.keys().len() && subs@[#[trigger] subs.keys()[i]].afs@.contains(af) && subs@[subs.keys()[i]].tx
            == tx
    ||| exists|i: int|
        0 <= i < own.keys().len() && own@[#[trigger] own.keys()[i]].afs@.contains(af) && own@[own.keys()[i]].tx == tx
}

proof fn joined_holds<A>(a: Seq<A>, b: Seq<A>)
    ensures
        forall|x: A| #[trigger] (a + b).contains(x) <==> a.contains(x) || b.contains(x),
{
    assert forall|x: A| #[trigger] (a + b).contains(x) <==> a.contains(x) || b.contains(x) by {
        if a.contains(x) {
            let i = choose|i: int| 0 <= i < a.len() && a[i] == x;
            assert((a + b)[i] == x);
        }
        if b.contains(x) {
            let i = choose|i: int| 0 <= i < b.len() && b[i] == x;
            assert((a + b)[a.len() + i] == x);
        }
        if (a + b).contains(x) {
            let i = choose|i: int| 0 <= i < (a + b).len() && (a + b)[i] == x;
            if i < a.len() {
                assert(a[i] == x);
            } else {
                assert(b[i - a.len()] == x);
            }
        }
    }
}

proof fn told_holds(subs: Table<u64, InterfaceSub>, af: Option<AddressFamily>, msg: IbusMsgView, i: int, note: NoteView)
    ensures
        0 <= i < subs.keys().len() && (af is None || subs@[subs.keys()[i]].afs@.contains(af->0)) ==> told(
            subs,
            af,
            msg,
        ).contains(NoteView { tx: subs@[subs.keys()[i]].tx, msg }),
        told(subs, af, msg).contains(note) ==> note.msg == msg && exists|k: int|
            0 <= k < subs.keys().len() && (af is None || subs@[#[trigger] subs.keys()[k]].afs@.contains(af->0))
                && subs@[subs.keys()[k]].tx == note.tx,
{
    let f = crate::interface::interfaces::sub_fn(subs@, af, msg);
    let keys = subs.keys();
    if 0 <= i < keys.len() && (af is None || subs@[keys[i]].afs@.contains(af->0)) {
        let b = NoteView { tx: subs@[keys[i]].tx, msg };
        assert(f(keys[i]) == Some(b));
        filter_map_holds(keys, f, i, b);
    }
    if told(subs, af, msg).contains(note) {
        filter_map_holds_only(keys, f, note);
        let k = choose|k: int| 0 <= k < keys.len() && f(#[trigger] keys[k]) == Some(note);
        assert(f(keys[k]) == Some(note));
    }
}

/// What is told of an interface is what is known of it.
pub proof fn updates_say_what_is_known(f: InterfaceView, ifname: Seq<char>, link: LinkState)
    ensures
        update_msg(f) == (IbusMsgView::InterfaceUpd {
            ifname: f.name,
            ifindex: f.ifindex,
            mtu: f.mtu,
            flags: f.flags,
            mac_address: f.mac_address,
        }),
        link_msg(ifname, link) == (IbusMsgView::InterfaceUpd {
            ifname,
            ifindex: Some(link.ifindex),
            mtu: Some(link.mtu),
            flags: link.flags,
            mac_address: link.mac_address,
        }),
        is_known(f, ifname, link) ==> update_msg(f) == link_msg(ifname, link),
{
}

/// When the system loses an interface that is still configured, all subscribers hear
/// that it is not operative, and each of its addresses is withdrawn from those that
/// asked for its family.
pub proof fn lost_interfaces_are_withdrawn(v: InterfacesView, f: Interface, i: int, j: int, af: AddressFamily)
    requires
        0 <= j < f.addresses.keys().len(),
        0 <= i < v.subscriptions.keys().len(),
        af == if f.addresses.keys()[j].addr is V4 {
            AddressFamily::Ipv4
        } else {
            AddressFamily::Ipv6
        },
    ensures
        lost_notes(v, f).contains(
            NoteView {
                tx: v.subscriptions@[v.subscriptions.keys()[i]].tx,
                msg: IbusMsgView::InterfaceUpd {
                    ifname: f.name@,
                    ifindex: f.ifindex,
                    mtu: f.mtu,
                    flags: InterfaceFlags { loopback: false, operative: false, broadcast: false },
                    mac_address: f.mac_address,
                },
            },
        ),
        v.subscriptions@[v.subscriptions.keys()[i]].afs@.contains(af) ==> lost_notes(v, f).contains(
            NoteView {
                tx: v.subscriptions@[v.subscriptions.keys()[i]].tx,
                msg: IbusMsgView::InterfaceAddressDel {
                    ifname: f.name@,
                    addr: f.addresses@[f.addresses.keys()[j]].addr,
                    addr_flags: f.addresses@[f.addresses.keys()[j]].flags,
                },
            },
        ),
{
    let subs = v.subscriptions;
    let upd = update_msg(InterfaceView { flags: InterfaceFlags::none(), ..f@ });
    let first = all_told(subs, f.subscriptions, None, upd);
    let some_note = NoteView { tx: 0, msg: upd };
    subscribers_are_told(subs, f.subscriptions, upd, af, i, some_note);
    joined_holds(first, addr_dels(subs, f));
    if subs@[subs.keys()[i]].afs@.contains(af) {
        let keys = f.addresses.keys();
        let a = f.addresses@[keys[j]];
        let msg = IbusMsgView::InterfaceAddressDel { ifname: f.name@, addr: a.addr, addr_flags: a.flags };
        let note = NoteView { tx: subs@[subs.keys()[i]].tx, msg };
        let g = crate::interface::interfaces::addr_del_fn(subs, f.subscriptions, f.name@, f.addresses@);
        subscribers_are_told(subs, f.subscriptions, msg, af, i, note);
        assert(g(keys[j]).contains(note));
        flat_map_holds(keys, g, j, note);
    }
}

// ===== what the system says =====

/// What the system says of an interface is then known of it, under its name and its
/// ifindex. Its configuration, its addresses and all other interfaces stay.
pub proof fn link_updates_are_recorded(
    v: InterfacesView,
    k: Index,
    ifname: Seq<char>,
    link: LinkState,
    other: Index,
)
    requires
        v.wf(),
        v.arena.contains_key(k),
        other != k,
    ensures
        ({
            let w = link_updated(v, k, ifname, link);
            let f = w.arena[k];
            &&& f.name == ifname
            &&& f.ifindex == Some(link.ifindex)
            &&& f.mtu == Some(link.mtu)
            &&& f.flags == link.flags
            &&& f.mac_address == link.mac_address
            &&& f.owner.system && f.owner.config == v.arena[k].owner.config
            &&& f.config == v.arena[k].config
            &&& f.addresses == v.arena[k].addresses
            &&& f.vrrp == v.arena[k].vrrp
            &&& f.subscriptions == v.arena[k].subscriptions
            &&& w.arena[other] == v.arena[other]
            &&& w.arena.contains_key(other) == v.arena.contains_key(other)
            &&& w.router_id == v.router_id
            &&& w.subscriptions == v.subscriptions
            &&& w.router_id_subscriptions == v.router_id_subscriptions
            &&& ifname != v.arena[k].name ==> w.names.contains_key(ifname) && w.names[ifname] == k
                && !w.names.contains_key(v.arena[k].name)
            &&& w.ifindexes.contains_key(link.ifindex) && w.ifindexes[link.ifindex] == k
        }),
{
}

/// An update of the system is about the interface with that ifindex; only where there
/// is none does the name count.
pub proof fn ifindex_goes_before_the_name(v: InterfacesView, ifname: Seq<char>, ifindex: u32)
    ensures
        v.ifindexes.contains_key(ifindex) ==> update_target(v, ifname, ifindex) == Some(v.ifindexes[ifindex]),
        !v.ifindexes.contains_key(ifindex) && v.names.contains_key(ifname) ==> update_target(v, ifname, ifindex)
            == Some(v.names[ifname]),
        !v.ifindexes.contains_key(ifindex) && !v.names.contains_key(ifname) ==> update_target(v, ifname, ifindex)
            is None,
{
}

/// The system says nothing new exactly if all of it is known already.
pub proof fn any_difference_is_news(f: InterfaceView, ifname: Seq<char>, link: LinkState)
    ensures
        f.name != ifname ==> !is_known(f, ifname, link),
        f.ifindex != Some(link.ifindex) ==> !is_known(f, ifname, link),
        f.mtu != Some(link.mtu) ==> !is_known(f, ifname, link),
        f.flags != link.flags ==> !is_known(f, ifname, link),
        f.mac_address != link.mac_address ==> !is_known(f, ifname, link),
        f.name == ifname && f.ifindex == Some(link.ifindex) && f.mtu == Some(link.mtu) && f.flags == link.flags
            && f.mac_address == link.mac_address ==> is_known(f, ifname, link),
{
}

/// A new interface is found by its name, and by its ifindex if it has one. It starts
/// out unconfigured, without addresses; one of the system has what the system says.
pub proof fn new_interfaces_start_out_blank(
    v: InterfacesView,
    w: InterfacesView,
    k: Index,
    f: InterfaceView,
    ifname: Seq<char>,
    link: LinkState,
    enabled: bool,
    other: Index,
)
    requires
        other != k,
    ensures
        link_added(v, w, k, f, ifname, None) || link_added(v, w, k, f, ifname, Some(link.ifindex)) ==> {
            &&& w.arena.contains_key(k) && w.arena[k] == f && !v.arena.contains_key(k)
            &&& w.names.contains_key(ifname) && w.names[ifname] == k
            &&& w.arena[other] == v.arena[other] && w.arena.contains_key(other) == v.arena.contains_key(other)
            &&& w.router_id == v.router_id
        },
        link_added(v, w, k, f, ifname, Some(link.ifindex)) ==> w.ifindexes.contains_key(link.ifindex)
            && w.ifindexes[link.ifindex] == k,
        link_added(v, w, k, f, ifname, None) ==> w.ifindexes == v.ifindexes,
        configured(f, ifname, enabled) || discovered(f, ifname, link, enabled) ==> {
            &&& f.name == ifname
            &&& f.config.enabled == enabled
            &&& f.config.mtu is None && f.config.parent is None && f.config.vlan_id is None
            &&& f.config.addr_list == Map::<IpAddr, u8>::empty()
            &&& f.addresses == Map::<IpNetwork, InterfaceAddress>::empty()
            &&& f.vrrp is None
        },
        configured(f, ifname, enabled) ==> f.owner.config && !f.owner.system && f.ifindex is None && f.mtu is None,
        discovered(f, ifname, link, enabled) ==> f.owner.system && !f.owner.config && f.ifindex == Some(link.ifindex)
            && f.mtu == Some(link.mtu) && f.flags == link.flags && f.mac_address == link.mac_address,
{
}

/// An interface that lost its last owner is gone, and found neither by its name nor
/// by its ifindex. The others stay.
pub proof fn removed_interfaces_are_gone(v: InterfacesView, k: Index, other: Index)
    requires
        v.arena.contains_key(k),
        other != k,
    ensures
        ({
            let w = link_removed(v, k);
            &&& !w.arena.contains_key(k)
            &&& !w.names.contains_key(v.arena[k].name)
            &&& v.arena[k].ifindex matches Some(i) ==> !w.ifindexes.contains_key(i)
            &&& w.arena[other] == v.arena[other] && w.arena.contains_key(other) == v.arena.contains_key(other)
            &&& w.subscriptions == v.subscriptions && w.router_id == v.router_id
        }),
{
}

/// Owners come and go one by one: each leaves the other as it is.
pub proof fn owners_come_and_go(v: InterfacesView, k: Index, o: Owner)
    ensures
        o.with(Owner { config: true, system: false }) == (Owner { config: true, system: o.system }),
        o.with(Owner { config: false, system: true }) == (Owner { config: o.config, system: true }),
        o.without(Owner { config: true, system: false }) == (Owner { config: false, system: o.system }),
        o.without(Owner { config: false, system: true }) == (Owner { config: o.config, system: false }),
        Owner::of_config() == (Owner { config: true, system: false }),
        Owner::of_system() == (Owner { config: false, system: true }),
        ({
            let f = owner_left(v, k, o).arena[k];
            &&& f.owner.config == (v.arena[k].owner.config && !o.config)
            &&& f.owner.system == (v.arena[k].owner.system && !o.system)
            &&& f.name == v.arena[k].name && f.config == v.arena[k].config && f.ifindex == v.arena[k].ifindex
            &&& f.addresses == v.arena[k].addresses
        }),
{
}

/// A host address of IPv4 leaves an interface unnumbered, unless it is a loopback
/// interface. No other address does.
pub proof fn host_addresses_are_unnumbered(flags: InterfaceFlags, a: u32, b: u128, plen: u8)
    ensures
        addr_flags(flags, IpNetwork { addr: IpAddr::V4(a), plen: 32 }).unnumbered == !flags.loopback,
        plen != 32 ==> !addr_flags(flags, IpNetwork { addr: IpAddr::V4(a), plen }).unnumbered,
        !addr_flags(flags, IpNetwork { addr: IpAddr::V6(b), plen }).unnumbered,
{
}

/// Loopback addresses are 127.0.0.0 to 127.255.255.255, and ::1.
pub proof fn loopback_addresses(a: u32, b: u128)
    ensures
        is_loopback(IpAddr::V4(a)) <==> 0x7f00_0000 <= a <= 0x7fff_ffff,
        is_loopback(IpAddr::V6(b)) <==> b == 1,
{
}

// ===== Router ID =====

/// An address may serve as Router ID unless it is a loopback (127.0.0.0/8),
/// link-local (169.254.0.0/16), multicast (224.0.0.0/4) or broadcast address.
pub proof fn special_addresses_are_no_router_id(addr: Ipv4Addr)
    ensures
        suits_router_id(addr) <==> {
            &&& !(0x7f00_0000 <= addr <= 0x7fff_ffff)
            &&& !(0xa9fe_0000 <= addr <= 0xa9fe_ffff)
            &&& !(0xe000_0000 <= addr <= 0xefff_ffff)
            &&& addr != 0xffff_ffff
        },
{
}

/// Whether a named interface has an address that may serve as Router ID.
pub open spec fn has_address(v: InterfacesView, name: Seq<char>, net: IpNetwork, addr: Ipv4Addr) -> bool {
    &&& v.names.contains_key(name)
    &&& v.arena[v.names[name]].addresses.contains_key(net)
    &&& v.arena[v.names[name]].addresses[net].addr.addr == IpAddr::V4(addr)
    &&& suits_router_id(addr)
}

/// The Router ID is at least as high as any suitable address of a loopback interface.
/// Where there is none, it is at least as high as any other suitable address.
pub proof fn router_id_is_the_highest(
    v: InterfacesView,
    r: Option<Ipv4Addr>,
    name: Seq<char>,
    net: IpNetwork,
    addr: Ipv4Addr,
)
    requires
        is_router_id(v, r),
        has_address(v, name, net, addr),
    ensures
        r is Some,
        v.arena[v.names[name]].flags.loopback ==> r->0 >= addr,
        (forall|n: Seq<char>, m: IpNetwork, a: Ipv4Addr|
            #[trigger] has_address(v, n, m, a) ==> !v.arena[v.names[n]].flags.loopback) ==> r->0 >= addr,
{
    let f = v.arena[v.names[name]];
    assert(f.addresses.contains_key(net));
    assert(offers(f, addr));
    assert(crate::interface::interfaces::offered(v, f.flags.loopback, addr));
    if forall|n: Seq<char>, m: IpNetwork, a: Ipv4Addr|
        #[trigger] has_address(v, n, m, a) ==> !v.arena[v.names[n]].flags.loopback {
        assert forall|a: Ipv4Addr| !#[trigger] crate::interface::interfaces::offered(v, true, a) by {
            if crate::interface::interfaces::offered(v, true, a) {
                let n = choose|n: Seq<char>| #[trigger]
                    v.names.contains_key(n) && v.arena[v.names[n]].flags.loopback == true && offers(
                        v.arena[v.names[n]],
                        a,
                    );
                let g = v.arena[v.names[n]];
                let m = choose|m: IpNetwork| #[trigger]
                    g.addresses.contains_key(m) && g.addresses[m].addr.addr == IpAddr::V4(a);
                assert(has_address(v, n, m, a));
            }
        }
    }
}

/// The Router ID is a suitable address of one of the interfaces, of a loopback
/// interface if any of them has one.
pub proof fn router_id_is_an_address(v: InterfacesView, r: Ipv4Addr)
    requires
        is_router_id(v, Some(r)),
    ensures
        exists|name: Seq<char>, net: IpNetwork| #[trigger] has_address(v, name, net, r),
        forall|name: Seq<char>, net: IpNetwork, a: Ipv4Addr| #[trigger]
            has_address(v, name, net, a) && v.arena[v.names[name]].flags.loopback ==> exists|n: Seq<char>, m: IpNetwork|
                #[trigger] has_address(v, n, m, r) && v.arena[v.names[n]].flags.loopback,
{
    let loopback = exists|a: Ipv4Addr| #[trigger] crate::interface::interfaces::offered(v, true, a);
    assert(crate::interface::interfaces::offered(v, loopback, r));
    let n = choose|n: Seq<char>| #[trigger]
        v.names.contains_key(n) && v.arena[v.names[n]].flags.loopback == loopback && offers(v.arena[v.names[n]], r);
    let g = v.arena[v.names[n]];
    let m = choose|m: IpNetwork| #[trigger] g.addresses.contains_key(m) && g.addresses[m].addr.addr == IpAddr::V4(r);
    assert(has_address(v, n, m, r));
    assert forall|name: Seq<char>, net: IpNetwork, a: Ipv4Addr| #[trigger]
        has_address(v, name, net, a) && v.arena[v.names[name]].flags.loopback implies exists|
        n: Seq<char>,
        m: IpNetwork,
    | #[trigger] has_address(v, n, m, r) && v.arena[v.names[n]].flags.loopback by {
        assert(offers(v.arena[v.names[name]], a));
        assert(crate::interface::interfaces::offered(v, true, a));
        assert(has_address(v, n, m, r) && g.flags.loopback);
    }
}

/// Everyone who asked for it hears of a new Router ID. An unchanged one is not told.
pub proof fn new_router_ids_are_told(v: InterfacesView, r: Option<Ipv4Addr>, i: int, note: NoteView)
    ensures
        v.router_id == r ==> router_id_notes(v, r).len() == 0,
        v.router_id != r && 0 <= i < v.router_id_subscriptions.keys().len() ==> router_id_notes(v, r).contains(
            NoteView {
                tx: v.router_id_subscriptions@[v.router_id_subscriptions.keys()[i]],
                msg: IbusMsgView::RouterIdUpdate(r),
            },
        ),
        router_id_notes(v, r).contains(note) ==> note.msg == IbusMsgView::RouterIdUpdate(r),
{
    let keys = v.router_id_subscriptions.keys();
    let f = crate::interface::interfaces::router_id_fn(v.router_id_subscriptions@, r);
    if v.router_id != r {
        if 0 <= i < keys.len() {
            let b = NoteView { tx: v.router_id_subscriptions@[keys[i]], msg: IbusMsgView::RouterIdUpdate(r) };
            assert(f(keys[i]) == Some(b));
            filter_map_holds(keys, f, i, b);
        }
        if router_id_notes(v, r).contains(note) {
            filter_map_holds_only(keys, f, note);
        }
    }
}

// ===== configuration =====

/// A leaf of an interface takes the configured value, no other one changes, and the
/// kernel is to be asked for it.
pub proof fn interface_leaves_take_their_value(
    c: InterfaceCfgView,
    q: Set<EventView>,
    name: Seq<char>,
    enabled: bool,
    vlan_id: u16,
    mtu: u32,
    mtu4: u16,
    parent: String,
)
    ensures
        entry_changed(c, q, name, InterfaceEntryChange::Enabled(enabled)) == (
            InterfaceCfgView { enabled, ..c },
            q.insert(EventView::AdminStatusChange(name, enabled)),
        ),
        entry_changed(c, q, name, InterfaceEntryChange::EncapsulationDot1qVlanOuterTagVlanId(vlan_id)) == (
            InterfaceCfgView { vlan_id: Some(vlan_id), ..c },
            q.insert(EventView::VlanCreate(name, vlan_id)),
        ),
        entry_changed(c, q, name, InterfaceEntryChange::Ipv6Mtu(Some(mtu))) == (
            InterfaceCfgView { mtu: Some(mtu), ..c },
            q.insert(EventView::MtuChange(name, mtu)),
        ),
        entry_changed(c, q, name, InterfaceEntryChange::Ipv4Mtu(Some(mtu4))) == (
            InterfaceCfgView { mtu: Some(mtu4 as u32), ..c },
            q.insert(EventView::MtuChange(name, mtu4 as u32)),
        ),
        entry_changed(c, q, name, InterfaceEntryChange::Ipv6Mtu(None)) == (InterfaceCfgView { mtu: None, ..c }, q),
        entry_changed(c, q, name, InterfaceEntryChange::Ipv4Mtu(None)) == (InterfaceCfgView { mtu: None, ..c }, q),
        entry_changed(c, q, name, InterfaceEntryChange::ParentInterface(Some(parent))) == (
            InterfaceCfgView { parent: Some(parent@), ..c },
            q,
        ),
        entry_changed(c, q, name, InterfaceEntryChange::ParentInterface(None)) == (
            InterfaceCfgView { parent: None, ..c },
            q,
        ),
        entry_changed(c, q, name, InterfaceEntryChange::Ipv4(enabled)) == (c, q),
        entry_changed(c, q, name, InterfaceEntryChange::Ipv6(enabled)) == (c, q),
        entry_changed(c, q, name, InterfaceEntryChange::Ipv4Enabled(enabled)) == (c, q),
        entry_changed(c, q, name, InterfaceEntryChange::Ipv6Enabled(enabled)) == (c, q),
        entry_changed(c, q, name, InterfaceEntryChange::Type(parent)) == (c, q),
        entry_changed(c, q, name, InterfaceEntryChange::Description(Some(parent))) == (c, q),
{
}

/// An address of either family is configured with its prefix length and is to be
/// installed, in place of one with another length. A deleted one is to be uninstalled
/// with the length it had. Other addresses and leaves stay.
pub proof fn addresses_follow_their_configuration(
    c: InterfaceCfgView,
    q: Set<EventView>,
    name: Seq<char>,
    a: u32,
    b: u128,
    addr: IpAddr,
    change: AddressChange,
    plen: u8,
    other: IpAddr,
)
    requires
        other != addr,
    ensures
        entry_changed(c, q, name, InterfaceEntryChange::Ipv4Address(a, change)) == address_changed(
            c,
            q,
            name,
            IpAddr::V4(a),
            change,
        ),
        entry_changed(c, q, name, InterfaceEntryChange::Ipv6Address(b, change)) == address_changed(
            c,
            q,
            name,
            IpAddr::V6(b),
            change,
        ),
        address_changed(c, q, name, addr, AddressChange::Create) == (c, q),
        ({
            let (d, p) = address_changed(c, q, name, addr, AddressChange::PrefixLength(Some(plen)));
            &&& d.addr_list.contains_key(addr) && d.addr_list[addr] == plen
            &&& d.addr_list.contains_key(other) == c.addr_list.contains_key(other) && d.addr_list[other]
                == c.addr_list[other]
            &&& d.enabled == c.enabled && d.mtu == c.mtu && d.parent == c.parent && d.vlan_id == c.vlan_id
            &&& p.contains(EventView::AddressInstall(name, addr, plen))
            &&& c.addr_list.contains_key(addr) && c.addr_list[addr] != plen ==> p
                == q.insert(EventView::AddressUninstall(name, addr, c.addr_list[addr])).insert(
                EventView::AddressInstall(name, addr, plen),
            )
            &&& !c.addr_list.contains_key(addr) ==> p == q.insert(EventView::AddressInstall(name, addr, plen))
        }),
        ({
            let (d, p) = address_changed(c, q, name, addr, AddressChange::Delete);
            &&& !d.addr_list.contains_key(addr)
            &&& d.addr_list.contains_key(other) == c.addr_list.contains_key(other) && d.addr_list[other]
                == c.addr_list[other]
            &&& d.enabled == c.enabled && d.mtu == c.mtu && d.parent == c.parent && d.vlan_id == c.vlan_id
            &&& c.addr_list.contains_key(addr) ==> p == q.insert(
                EventView::AddressUninstall(name, addr, c.addr_list[addr]),
            )
            &&& !c.addr_list.contains_key(addr) ==> p == q
        }),
{
}

/// A change within an interface concerns the interface of that name only, and needs
/// it to be there. A deletion waits for its event.
pub proof fn changes_concern_the_named_interface(
    v: InterfacesView,
    q: Set<EventView>,
    name: Seq<char>,
    change: InterfaceEntryChange,
    other: Index,
)
    requires
        v.names.contains_key(name) ==> other != v.names[name],
    ensures
        interface_changed(v, q, name, InterfaceChange::Create) == Some((v, q)),
        interface_changed(v, q, name, InterfaceChange::Delete) == Some((v, q.insert(EventView::InterfaceDelete(name)))),
        !v.names.contains_key(name) ==> interface_changed(v, q, name, InterfaceChange::Entry(change)) is None,
        v.names.contains_key(name) ==> {
            let r = interface_changed(v, q, name, InterfaceChange::Entry(change));
            let (w, p) = r->0;
            let k = v.names[name];
            &&& r is Some
            &&& (w.arena[k].config, p) == entry_changed(v.arena[k].config, q, name, change)
            &&& w.arena[k] == (InterfaceView { config: w.arena[k].config, ..v.arena[k] })
            &&& w.arena[other] == v.arena[other]
            &&& w.names == v.names && w.ifindexes == v.ifindexes && w.router_id == v.router_id
        },
{
}

/// Changes for an interface go to the VRRP task that was started on it last; without
/// one they go nowhere.
pub proof fn vrrp_changes_go_to_its_task(v: InterfacesView, name: Seq<char>, other: Seq<char>, vrrp: VrrpHandle)
    requires
        v.wf(),
        other != name,
    ensures
        v.names.contains_key(name) ==> target_of(vrrp_started(v, name, vrrp), name) == Some(vrrp.nb_tx),
        !v.names.contains_key(name) ==> target_of(v, name) is None && vrrp_started(v, name, vrrp) == v,
        v.names.contains_key(name) && v.arena[v.names[name]].vrrp is None ==> target_of(v, name) is None,
        target_of(vrrp_started(v, name, vrrp), other) == target_of(v, other),
{
    if v.names.contains_key(other) && v.names.contains_key(name) {
        assert(v.arena[v.names[other]].name == other);
        assert(v.arena[v.names[name]].name == name);
    }
}

/// An interface starts out with nothing configured but what the schema says of its
/// status.
pub proof fn interfaces_start_out_unconfigured(enabled: bool)
    ensures
        InterfaceCfg::initial(enabled).enabled == enabled,
        InterfaceCfg::initial(enabled).mtu is None,
        InterfaceCfg::initial(enabled).parent is None,
        InterfaceCfg::initial(enabled).vlan_id is None,
        InterfaceCfg::initial(enabled).addr_list.dom() == Set::<IpAddr>::empty(),
{
}

} // verus!
