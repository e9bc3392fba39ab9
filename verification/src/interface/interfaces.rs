//! The table of interfaces: those that are configured and those that the system
//! has.

use generational_arena::Arena;
use vstd::prelude::*;

use crate::collections::{filter_map, filter_map_step, flat_map, flat_map_step, OrdSet, Table};
use crate::interface::arena::{arena_contents, arena_get, arena_get_mut, arena_insert, arena_new, arena_remove, Index};
use crate::interface::configuration::{InterfaceCfg, InterfaceCfgView};
use crate::ip::{AddressFamily, IpAddr, IpNetwork, Ipv4Addr};

verus! {

/// The six octets of a MAC address, most significant first.
pub type MacAddr = u64;

/// Stands for the sending end of a channel to a subscriber.
pub type SenderId = u64;

#[derive(Clone, Copy, Debug, PartialEq, Eq, Structural)]
pub struct InterfaceFlags {
    pub loopback: bool,
    pub operative: bool,
    pub broadcast: bool,
}

impl InterfaceFlags {
    /// No flags.
    pub open spec fn none() -> InterfaceFlags {
        InterfaceFlags { loopback: false, operative: false, broadcast: false }
    }
}

impl Default for InterfaceFlags {
    fn default() -> (r: InterfaceFlags)
        ensures
            r == InterfaceFlags::none(),
    {
        InterfaceFlags { loopback: false, operative: false, broadcast: false }
    }
}

#[derive(Clone, Copy, Debug, PartialEq, Eq, Structural)]
pub struct AddressFlags {
    pub unnumbered: bool,
}

/// Who an interface is there for.
#[derive(Clone, Copy, Debug, PartialEq, Eq, Structural)]
pub struct Owner {
    pub config: bool,
    pub system: bool,
}

impl Owner {
    /// The configuration only.
    pub open spec fn of_config() -> Owner {
        Owner { config: true, system: false }
    }

    /// The system only.
    pub open spec fn of_system() -> Owner {
        Owner { config: false, system: true }
    }

    pub open spec fn with(self, other: Owner) -> Owner {
        Owner { config: self.config || other.config, system: self.system || other.system }
    }

    pub open spec fn without(self, other: Owner) -> Owner {
        Owner { config: self.config && !other.config, system: self.system && !other.system }
    }

    pub fn config() -> (r: Owner)
        ensures
            r == Owner::of_config(),
    {
        Owner { config: true, system: false }
    }

    pub fn system() -> (r: Owner)
        ensures
            r == Owner::of_system(),
    {
        Owner { config: false, system: true }
    }

    pub fn insert(&mut self, other: Owner)
        ensures
            *final(self) == old(self).with(other),
    {
        self.config = self.config || other.config;
        self.system = self.system || other.system;
    }

    pub fn remove(&mut self, other: Owner)
        ensures
            *final(self) == old(self).without(other),
    {
        self.config = self.config && !other.config;
        self.system = self.system && !other.system;
    }

    pub fn is_empty(&self) -> (b: bool)
        ensures
            b == (!self.config && !self.system),
    {
        !self.config && !self.system
    }
}

#[derive(Clone, Copy, Debug, PartialEq, Eq, Structural)]
pub struct InterfaceAddress {
    pub addr: IpNetwork,
    pub flags: AddressFlags,
}

/// A running VRRP task.
#[derive(Clone, Copy, Debug, PartialEq, Eq, Structural)]
pub struct VrrpHandle {
    pub nb_tx: SenderId,
    pub ibus_tx: SenderId,
}

/// A subscription to interfaces, and to their addresses of some address
/// families.
pub struct InterfaceSub {
    pub afs: OrdSet<AddressFamily>,
    pub tx: SenderId,
}

pub struct InterfaceSubView {
    pub afs: Set<AddressFamily>,
    pub tx: SenderId,
}

impl View for InterfaceSub {
    type V = InterfaceSubView;

    open spec fn view(&self) -> InterfaceSubView {
        InterfaceSubView { afs: self.afs@, tx: self.tx }
    }
}

impl InterfaceSub {
    pub fn new(afs: OrdSet<AddressFamily>, tx: SenderId) -> (r: InterfaceSub)
        ensures
            r@ == (InterfaceSubView { afs: afs@, tx }),
    {
        InterfaceSub { afs, tx }
    }
}

pub struct Interface {
    pub name: String,
    pub config: InterfaceCfg,
    pub ifindex: Option<u32>,
    pub mtu: Option<u32>,
    pub flags: InterfaceFlags,
    pub addresses: Table<IpNetwork, InterfaceAddress>,
    pub mac_address: MacAddr,
    pub owner: Owner,
    pub vrrp: Option<VrrpHandle>,
    pub subscriptions: Table<u64, InterfaceSub>,
}

pub struct InterfaceView {
    pub name: Seq<char>,
    pub config: InterfaceCfgView,
    pub ifindex: Option<u32>,
    pub mtu: Option<u32>,
    pub flags: InterfaceFlags,
    pub addresses: Map<IpNetwork, InterfaceAddress>,
    pub mac_address: MacAddr,
    pub owner: Owner,
    pub vrrp: Option<VrrpHandle>,
    pub subscriptions: Table<u64, InterfaceSub>,
}

impl View for Interface {
    type V = InterfaceView;

    open spec fn view(&self) -> InterfaceView {
        InterfaceView {
            name: self.name@,
            config: self.config@,
            ifindex: self.ifindex,
            mtu: self.mtu,
            flags: self.flags,
            addresses: self.addresses@,
            mac_address: self.mac_address,
            owner: self.owner,
            vrrp: self.vrrp,
            subscriptions: self.subscriptions,
        }
    }
}

// ===== effects =====

/// What subscribers are told.
#[allow(inconsistent_fields)]
pub enum IbusMsg {
    InterfaceUpd {
        ifname: String,
        ifindex: Option<u32>,
        mtu: Option<u32>,
        flags: InterfaceFlags,
        mac_address: MacAddr,
    },
    InterfaceDel(String),
    InterfaceAddressAdd { ifname: String, addr: IpNetwork, addr_flags: AddressFlags },
    InterfaceAddressDel { ifname: String, addr: IpNetwork, addr_flags: AddressFlags },
    RouterIdUpdate(Option<Ipv4Addr>),
}

#[allow(inconsistent_fields)]
pub enum IbusMsgView {
    InterfaceUpd {
        ifname: Seq<char>,
        ifindex: Option<u32>,
        mtu: Option<u32>,
        flags: InterfaceFlags,
        mac_address: MacAddr,
    },
    InterfaceDel(Seq<char>),
    InterfaceAddressAdd { ifname: Seq<char>, addr: IpNetwork, addr_flags: AddressFlags },
    InterfaceAddressDel { ifname: Seq<char>, addr: IpNetwork, addr_flags: AddressFlags },
    RouterIdUpdate(Option<Ipv4Addr>),
}

impl View for IbusMsg {
    type V = IbusMsgView;

    open spec fn view(&self) -> IbusMsgView {
        match *self {
            IbusMsg::InterfaceUpd { ifname, ifindex, mtu, flags, mac_address } => IbusMsgView::InterfaceUpd {
                ifname: ifname@,
                ifindex,
                mtu,
                flags,
                mac_address,
            },
            IbusMsg::InterfaceDel(ifname) => IbusMsgView::InterfaceDel(ifname@),
            IbusMsg::InterfaceAddressAdd { ifname, addr, addr_flags } => IbusMsgView::InterfaceAddressAdd {
                ifname: ifname@,
                addr,
                addr_flags,
            },
            IbusMsg::InterfaceAddressDel { ifname, addr, addr_flags } => IbusMsgView::InterfaceAddressDel {
                ifname: ifname@,
                addr,
                addr_flags,
            },
            IbusMsg::RouterIdUpdate(router_id) => IbusMsgView::RouterIdUpdate(router_id),
        }
    }
}

impl IbusMsg {
    fn copy(&self) -> (r: IbusMsg)
        ensures
            r@ == self@,
    {
        match self {
            IbusMsg::InterfaceUpd { ifname, ifindex, mtu, flags, mac_address } => IbusMsg::InterfaceUpd {
                ifname: ifname.clone(),
                ifindex: *ifindex,
                mtu: *mtu,
                flags: *flags,
                mac_address: *mac_address,
            },
            IbusMsg::InterfaceDel(ifname) => IbusMsg::InterfaceDel(ifname.clone()),
            IbusMsg::InterfaceAddressAdd { ifname, addr, addr_flags } => IbusMsg::InterfaceAddressAdd {
                ifname: ifname.clone(),
                addr: *addr,
                addr_flags: *addr_flags,
            },
            IbusMsg::InterfaceAddressDel { ifname, addr, addr_flags } => IbusMsg::InterfaceAddressDel {
                ifname: ifname.clone(),
                addr: *addr,
                addr_flags: *addr_flags,
            },
            IbusMsg::RouterIdUpdate(router_id) => IbusMsg::RouterIdUpdate(*router_id),
        }
    }
}

/// A message to a subscriber.
pub struct Note {
    pub tx: SenderId,
    pub msg: IbusMsg,
}

pub struct NoteView {
    pub tx: SenderId,
    pub msg: IbusMsgView,
}

impl View for Note {
    type V = NoteView;

    open spec fn view(&self) -> NoteView {
        NoteView { tx: self.tx, msg: self.msg@ }
    }
}

/// What the kernel is asked for.
#[allow(inconsistent_fields)]
pub enum NetlinkRequest {
    AdminStatusChange { ifindex: u32, enabled: bool },
    MtuChange { ifindex: u32, mtu: u32 },
    VlanCreate { name: String, parent_ifindex: u32, vlan_id: u16 },
    AddrInstall { ifindex: u32, addr: IpNetwork },
    AddrUninstall { ifindex: u32, addr: IpNetwork },
}

#[allow(inconsistent_fields)]
pub enum NetlinkRequestView {
    AdminStatusChange { ifindex: u32, enabled: bool },
    MtuChange { ifindex: u32, mtu: u32 },
    VlanCreate { name: Seq<char>, parent_ifindex: u32, vlan_id: u16 },
    AddrInstall { ifindex: u32, addr: IpNetwork },
    AddrUninstall { ifindex: u32, addr: IpNetwork },
}

impl View for NetlinkRequest {
    type V = NetlinkRequestView;

    open spec fn view(&self) -> NetlinkRequestView {
        match *self {
            NetlinkRequest::AdminStatusChange { ifindex, enabled } => NetlinkRequestView::AdminStatusChange {
                ifindex,
                enabled,
            },
            NetlinkRequest::MtuChange { ifindex, mtu } => NetlinkRequestView::MtuChange { ifindex, mtu },
            NetlinkRequest::VlanCreate { name, parent_ifindex, vlan_id } => NetlinkRequestView::VlanCreate {
                name: name@,
                parent_ifindex,
                vlan_id,
            },
            NetlinkRequest::AddrInstall { ifindex, addr } => NetlinkRequestView::AddrInstall { ifindex, addr },
            NetlinkRequest::AddrUninstall { ifindex, addr } => NetlinkRequestView::AddrUninstall { ifindex, addr },
        }
    }
}

/// What an operation leaves to be sent: messages to subscribers and requests to
/// the kernel, each in order.
pub struct Effects {
    pub notes: Vec<Note>,
    pub requests: Vec<NetlinkRequest>,
}

pub open spec fn note_views(s: Seq<Note>) -> Seq<NoteView> {
    Seq::new(s.len(), |j: int| s[j]@)
}

pub open spec fn request_views(s: Seq<NetlinkRequest>) -> Seq<NetlinkRequestView> {
    Seq::new(s.len(), |j: int| s[j]@)
}

impl Effects {
    /// Whether these, and nothing else, are to be sent.
    pub open spec fn are(self, notes: Seq<NoteView>, requests: Seq<NetlinkRequestView>) -> bool {
        &&& note_views(self.notes@) == notes
        &&& request_views(self.requests@) == requests
    }

    pub(crate) fn nothing() -> (r: Effects)
        ensures
            r.are(Seq::empty(), Seq::empty()),
    {
        let r = Effects { notes: Vec::new(), requests: Vec::new() };
        assert(note_views(r.notes@) =~= Seq::empty());
        assert(request_views(r.requests@) =~= Seq::empty());
        r
    }
}

fn push_note(notes: &mut Vec<Note>, tx: SenderId, msg: IbusMsg)
    ensures
        note_views(final(notes)@) == note_views(old(notes)@).push(NoteView { tx, msg: msg@ }),
{
    let ghost before = notes@;
    let note = Note { tx, msg };
    notes.push(note);
    assert(note_views(notes@) =~= note_views(before).push(NoteView { tx, msg: msg@ }));
}

pub(crate) fn push_request(requests: &mut Vec<NetlinkRequest>, request: NetlinkRequest)
    ensures
        request_views(final(requests)@) == request_views(old(requests)@).push(request@),
{
    let ghost before = requests@;
    requests.push(request);
    assert(request_views(requests@) =~= request_views(before).push(request@));
}

// ===== subscriptions =====

/// Whether a subscriber is told: all are of interfaces, and those that asked for
/// its address family of an address.
pub open spec fn is_told(sub: InterfaceSubView, af: Option<AddressFamily>) -> bool {
    af matches Some(af) ==> sub.afs.contains(af)
}

pub open spec fn sub_fn(subs: Map<u64, InterfaceSub>, af: Option<AddressFamily>, msg: IbusMsgView) -> spec_fn(
    u64,
) -> Option<NoteView> {
    |k: u64|
        if is_told(subs[k]@, af) {
            Some(NoteView { tx: subs[k].tx, msg })
        } else {
            None
        }
}

/// The message, to each subscriber that is told.
pub open spec fn told(subs: Table<u64, InterfaceSub>, af: Option<AddressFamily>, msg: IbusMsgView) -> Seq<NoteView> {
    filter_map(subs.keys(), sub_fn(subs@, af, msg))
}

fn tell(subs: &Table<u64, InterfaceSub>, af: Option<AddressFamily>, msg: &IbusMsg, notes: &mut Vec<Note>)
    ensures
        note_views(final(notes)@) == note_views(old(notes)@) + told(*subs, af, msg@),
{
    let ghost before = note_views(notes@);
    let ghost keys = subs.keys();
    let ghost f = sub_fn(subs@, af, msg@);
    let n: usize = subs.len();
    let mut j: usize = 0;
    assert(keys.take(0) =~= Seq::empty());
    assert(note_views(notes@) =~= before + Seq::<NoteView>::empty());
    while j < n
        invariant
            j <= n,
            n == subs.keys().len(),
            keys == subs.keys(),
            f == sub_fn(subs@, af, msg@),
            note_views(notes@) == before + filter_map(keys.take(j as int), f),
        decreases n - j,
    {
        proof {
            filter_map_step(keys, j as int, f);
        }
        let sub = subs.value_at(j);
        let asked = match af {
            Some(af) => sub.afs.contains(&af),
            None => true,
        };
        if asked {
            push_note(notes, sub.tx, msg.copy());
        }
        assert(note_views(notes@) =~= before + filter_map(keys.take(j + 1), f));
        j = j + 1;
    }
    assert(keys.take(j as int) =~= keys);
}

/// The message, to all subscribers to interfaces and to those to this one.
pub open spec fn all_told(
    subs: Table<u64, InterfaceSub>,
    own: Table<u64, InterfaceSub>,
    af: Option<AddressFamily>,
    msg: IbusMsgView,
) -> Seq<NoteView> {
    told(subs, af, msg) + told(own, af, msg)
}

fn tell_all(
    subs: &Table<u64, InterfaceSub>,
    own: &Table<u64, InterfaceSub>,
    af: Option<AddressFamily>,
    msg: &IbusMsg,
    notes: &mut Vec<Note>,
)
    ensures
        note_views(final(notes)@) == note_views(old(notes)@) + all_told(*subs, *own, af, msg@),
{
    let ghost before = note_views(notes@);
    tell(subs, af, msg, notes);
    tell(own, af, msg, notes);
    assert(note_views(notes@) =~= before + all_told(*subs, *own, af, msg@));
}

/// What is told of an interface.
pub open spec fn update_msg(f: InterfaceView) -> IbusMsgView {
    IbusMsgView::InterfaceUpd {
        ifname: f.name,
        ifindex: f.ifindex,
        mtu: f.mtu,
        flags: f.flags,
        mac_address: f.mac_address,
    }
}

impl Interface {
    fn update_msg(&self) -> (msg: IbusMsg)
        ensures
            msg@ == update_msg(self@),
    {
        IbusMsg::InterfaceUpd {
            ifname: self.name.clone(),
            ifindex: self.ifindex,
            mtu: self.mtu,
            flags: self.flags,
            mac_address: self.mac_address,
        }
    }
}

/// The withdrawal of an address.
pub open spec fn addr_del_msg(name: Seq<char>, a: InterfaceAddress) -> IbusMsgView {
    IbusMsgView::InterfaceAddressDel { ifname: name, addr: a.addr, addr_flags: a.flags }
}

pub open spec fn addr_del_fn(
    subs: Table<u64, InterfaceSub>,
    own: Table<u64, InterfaceSub>,
    name: Seq<char>,
    addresses: Map<IpNetwork, InterfaceAddress>,
) -> spec_fn(IpNetwork) -> Seq<NoteView> {
    |net: IpNetwork| all_told(subs, own, Some(net.addr.family()), addr_del_msg(name, addresses[net]))
}

/// The withdrawals of all addresses of an interface, in the order of the
/// addresses.
pub open spec fn addr_dels(subs: Table<u64, InterfaceSub>, f: Interface) -> Seq<NoteView> {
    flat_map(f.addresses.keys(), addr_del_fn(subs, f.subscriptions, f.name@, f.addresses@))
}

fn tell_addr_dels(subs: &Table<u64, InterfaceSub>, iface: &Interface, notes: &mut Vec<Note>)
    ensures
        note_views(final(notes)@) == note_views(old(notes)@) + addr_dels(*subs, *iface),
{
    let ghost before = note_views(notes@);
    let ghost keys = iface.addresses.keys();
    let ghost f = addr_del_fn(*subs, iface.subscriptions, iface.name@, iface.addresses@);
    let n: usize = iface.addresses.len();
    let mut j: usize = 0;
    assert(keys.take(0) =~= Seq::empty());
    assert(note_views(notes@) =~= before + Seq::<NoteView>::empty());
    while j < n
        invariant
            j <= n,
            n == iface.addresses.keys().len(),
            keys == iface.addresses.keys(),
            f == addr_del_fn(*subs, iface.subscriptions, iface.name@, iface.addresses@),
            note_views(notes@) == before + flat_map(keys.take(j as int), f),
        decreases n - j,
    {
        proof {
            flat_map_step(keys, j as int, f);
        }
        let net = *iface.addresses.key_at(j);
        let addr = *iface.addresses.value_at(j);
        let msg = IbusMsg::InterfaceAddressDel {
            ifname: iface.name.clone(),
            addr: addr.addr,
            addr_flags: addr.flags,
        };
        tell_all(subs, &iface.subscriptions, Some(net.addr.address_family()), &msg, notes);
        assert(note_views(notes@) =~= before + flat_map(keys.take(j + 1), f));
        j = j + 1;
    }
    assert(keys.take(j as int) =~= keys);
}

// ===== requests =====

/// Whether the prefix length of each configured address is one that its family
/// has.
pub open spec fn addrs_valid(addr_list: Map<IpAddr, u8>) -> bool {
    forall|addr: IpAddr| #[trigger]
        addr_list.contains_key(addr) ==> (IpNetwork { addr, plen: addr_list[addr] }).valid()
}

pub open spec fn install_fn(ifindex: u32, addr_list: Map<IpAddr, u8>) -> spec_fn(IpAddr) -> Seq<NetlinkRequestView> {
    |addr: IpAddr|
        seq![NetlinkRequestView::AddrInstall { ifindex, addr: IpNetwork { addr, plen: addr_list[addr] } }]
}

pub open spec fn uninstall_fn(ifindex: u32, addr_list: Map<IpAddr, u8>) -> spec_fn(IpAddr) -> Seq<NetlinkRequestView> {
    |addr: IpAddr|
        seq![NetlinkRequestView::AddrUninstall { ifindex, addr: IpNetwork { addr, plen: addr_list[addr] } }]
}

fn request_addrs(ifindex: u32, addr_list: &Table<IpAddr, u8>, install: bool, requests: &mut Vec<NetlinkRequest>)
    ensures
        request_views(final(requests)@) == request_views(old(requests)@) + flat_map(
            addr_list.keys(),
            if install {
                install_fn(ifindex, addr_list@)
            } else {
                uninstall_fn(ifindex, addr_list@)
            },
        ),
{
    let ghost before = request_views(requests@);
    let ghost keys = addr_list.keys();
    let ghost f = if install {
        install_fn(ifindex, addr_list@)
    } else {
        uninstall_fn(ifindex, addr_list@)
    };
    let n: usize = addr_list.len();
    let mut j: usize = 0;
    assert(keys.take(0) =~= Seq::empty());
    assert(request_views(requests@) =~= before + Seq::<NetlinkRequestView>::empty());
    while j < n
        invariant
            j <= n,
            n == addr_list.keys().len(),
            keys == addr_list.keys(),
            f == (if install {
                install_fn(ifindex, addr_list@)
            } else {
                uninstall_fn(ifindex, addr_list@)
            }),
            request_views(requests@) == before + flat_map(keys.take(j as int), f),
        decreases n - j,
    {
        proof {
            flat_map_step(keys, j as int, f);
        }
        let addr = IpNetwork { addr: *addr_list.key_at(j), plen: *addr_list.value_at(j) };
        if install {
            push_request(requests, NetlinkRequest::AddrInstall { ifindex, addr });
        } else {
            push_request(requests, NetlinkRequest::AddrUninstall { ifindex, addr });
        }
        assert(request_views(requests@) =~= before + flat_map(keys.take(j + 1), f));
        j = j + 1;
    }
    assert(keys.take(j as int) =~= keys);
}

/// The ifindex of the interface that a subinterface belongs to.
pub open spec fn parent_ifindex(v: InterfacesView, parent: Option<Seq<char>>) -> Option<u32> {
    match parent {
        Some(parent) => if v.names.contains_key(parent) {
            v.arena[v.names[parent]].ifindex
        } else {
            None
        },
        None => None,
    }
}

/// The request for a VLAN subinterface: once its parent is there, as long as it
/// is not there itself.
pub open spec fn vlan_requests(v: InterfacesView, f: InterfaceView, vlan_id: Option<u16>) -> Seq<NetlinkRequestView> {
    match (vlan_id, f.ifindex, parent_ifindex(v, f.config.parent)) {
        (Some(vlan_id), None, Some(parent_ifindex)) => seq![
            NetlinkRequestView::VlanCreate { name: f.name, parent_ifindex, vlan_id },
        ],
        _ => Seq::empty(),
    }
}

/// The requests that put the configuration of an interface in force.
pub open spec fn config_requests(v: InterfacesView, f: Interface, ifindex: u32) -> Seq<NetlinkRequestView> {
    seq![NetlinkRequestView::AdminStatusChange { ifindex, enabled: f.config.enabled }] + vlan_requests(
        v,
        f@,
        f.config.vlan_id,
    ) + (match f.config.mtu {
        Some(mtu) => seq![NetlinkRequestView::MtuChange { ifindex, mtu }],
        None => Seq::empty(),
    }) + flat_map(f.config.addr_list.keys(), install_fn(ifindex, f.config.addr_list@))
}

// ===== interfaces =====

pub struct Interfaces {
    /// Interface arena.
    pub arena: Arena<Interface>,
    /// Interface table keyed by name.
    pub name_tree: Table<String, Index>,
    /// Interface table keyed by ifindex.
    pub ifindex_tree: Table<u32, Index>,
    /// Auto-generated Router ID.
    pub router_id: Option<Ipv4Addr>,
    /// Interface subscriptions.
    pub subscriptions: Table<u64, InterfaceSub>,
    /// Router ID subscriptions.
    pub router_id_subscriptions: Table<u64, SenderId>,
}

pub struct InterfacesView {
    pub arena: Map<Index, InterfaceView>,
    pub names: Map<Seq<char>, Index>,
    pub ifindexes: Map<u32, Index>,
    pub router_id: Option<Ipv4Addr>,
    pub subscriptions: Table<u64, InterfaceSub>,
    pub router_id_subscriptions: Table<u64, SenderId>,
}

/// The views of the interfaces of an arena.
pub open spec fn arena_views(m: Map<Index, Interface>) -> Map<Index, InterfaceView> {
    Map::new(|k: Index| m.contains_key(k), |k: Index| m[k]@)
}

impl View for Interfaces {
    type V = InterfacesView;

    open spec fn view(&self) -> InterfacesView {
        InterfacesView {
            arena: arena_views(arena_contents(self.arena)),
            names: self.name_tree@,
            ifindexes: self.ifindex_tree@,
            router_id: self.router_id,
            subscriptions: self.subscriptions,
            router_id_subscriptions: self.router_id_subscriptions,
        }
    }
}

impl InterfacesView {
    /// Both tables lead to interfaces that are there and have that name or
    /// ifindex, every interface with an ifindex is found by it, and the
    /// configured addresses are valid.
    pub open spec fn wf(self) -> bool {
        &&& forall|name: Seq<char>| #[trigger]
            self.names.contains_key(name) ==> self.arena.contains_key(self.names[name])
                && self.arena[self.names[name]].name == name
        &&& forall|ifindex: u32| #[trigger]
            self.ifindexes.contains_key(ifindex) ==> self.arena.contains_key(self.ifindexes[ifindex])
                && self.arena[self.ifindexes[ifindex]].ifindex == Some(ifindex)
        &&& forall|k: Index| #[trigger]
            self.arena.contains_key(k) && self.arena[k].ifindex is Some ==> self.ifindexes.contains_key(
                self.arena[k].ifindex->0,
            ) && self.ifindexes[self.arena[k].ifindex->0] == k
        &&& forall|k: Index| #[trigger] self.arena.contains_key(k) ==> addrs_valid(self.arena[k].config.addr_list)
    }

    /// Every interface is found by its name, so that no two share one.
    pub open spec fn names_complete(self) -> bool {
        forall|k: Index| #[trigger]
            self.arena.contains_key(k) ==> self.names.contains_key(self.arena[k].name) && self.names[self.arena[k].name]
                == k
    }

    /// The interface of that name.
    pub open spec fn named(self, name: Seq<char>) -> Option<InterfaceView> {
        if self.names.contains_key(name) {
            Some(self.arena[self.names[name]])
        } else {
            None
        }
    }

    /// The interface with that ifindex.
    pub open spec fn indexed(self, ifindex: u32) -> Option<InterfaceView> {
        if self.ifindexes.contains_key(ifindex) {
            Some(self.arena[self.ifindexes[ifindex]])
        } else {
            None
        }
    }

    /// With one interface changed.
    pub open spec fn with(self, k: Index, f: InterfaceView) -> InterfacesView {
        InterfacesView { arena: self.arena.insert(k, f), ..self }
    }
}

proof fn arena_insert_view(m: Map<Index, Interface>, k: Index, f: Interface)
    ensures
        arena_views(m.insert(k, f)) == arena_views(m).insert(k, f@),
{
    assert(arena_views(m.insert(k, f)) =~= arena_views(m).insert(k, f@));
}

proof fn arena_remove_view(m: Map<Index, Interface>, k: Index)
    ensures
        arena_views(m.remove(k)) == arena_views(m).remove(k),
{
    assert(arena_views(m.remove(k)) =~= arena_views(m).remove(k));
}

// ===== Router ID =====

/// Whether an address may serve as Router ID: it is none of those with a
/// special meaning.
pub open spec fn suits_router_id(addr: Ipv4Addr) -> bool {
    let loopback = addr / 0x100_0000 == 127;
    let link_local = addr / 0x1_0000 == 0xa9fe;
    let multicast = addr / 0x1000_0000 == 14;
    let broadcast = addr == 0xffff_ffff;
    !loopback && !link_local && !multicast && !broadcast
}

fn router_id_suits(addr: Ipv4Addr) -> (b: bool)
    ensures
        b == suits_router_id(addr),
{
    addr / 0x100_0000 != 127 && addr / 0x1_0000 != 0xa9fe && addr / 0x1000_0000 != 14 && addr != 0xffff_ffff
}

/// Whether an interface has the address, and it may serve as Router ID.
pub open spec fn offers(f: InterfaceView, addr: Ipv4Addr) -> bool {
    suits_router_id(addr) && exists|net: IpNetwork| #[trigger]
        f.addresses.contains_key(net) && f.addresses[net].addr.addr == IpAddr::V4(addr)
}

/// Whether some loopback interface, or some other one, offers the address.
pub open spec fn offered(v: InterfacesView, loopback: bool, addr: Ipv4Addr) -> bool {
    exists|name: Seq<char>| #[trigger]
        v.names.contains_key(name) && v.arena[v.names[name]].flags.loopback == loopback && offers(
            v.arena[v.names[name]],
            addr,
        )
}

/// Whether it is the highest address that is offered, if any is.
pub open spec fn is_highest(v: InterfacesView, loopback: bool, r: Option<Ipv4Addr>) -> bool {
    match r {
        Some(addr) => offered(v, loopback, addr) && forall|a: Ipv4Addr| #[trigger]
            offered(v, loopback, a) ==> a <= addr,
        None => forall|a: Ipv4Addr| !#[trigger] offered(v, loopback, a),
    }
}

/// Whether it is the Router ID that the addresses give: the highest one of the
/// loopback interfaces, or else of the others.
pub open spec fn is_router_id(v: InterfacesView, r: Option<Ipv4Addr>) -> bool {
    if exists|a: Ipv4Addr| #[trigger] offered(v, true, a) {
        is_highest(v, true, r)
    } else {
        is_highest(v, false, r)
    }
}

/// Greatest of an address and what was found before.
spec fn at_least(r: Option<Ipv4Addr>, a: Ipv4Addr) -> bool {
    r matches Some(m) && a <= m
}

fn highest_of(iface: &Interface, best: Option<Ipv4Addr>) -> (r: Option<Ipv4Addr>)
    ensures
        r == best || (r matches Some(a) && offers(iface@, a)),
        best matches Some(b) ==> at_least(r, b),
        forall|a: Ipv4Addr| #[trigger] offers(iface@, a) ==> at_least(r, a),
{
    let ghost keys = iface.addresses.keys();
    let n: usize = iface.addresses.len();
    let mut r: Option<Ipv4Addr> = best;
    let mut j: usize = 0;
    while j < n
        invariant
            j <= n,
            n == iface.addresses.keys().len(),
            keys == iface.addresses.keys(),
            r == best || (r matches Some(a) && offers(iface@, a)),
            best matches Some(b) ==> at_least(r, b),
            forall|x: int, a: Ipv4Addr|
                0 <= x < j && iface.addresses@[#[trigger] keys[x]].addr.addr == IpAddr::V4(a) && #[trigger] suits_router_id(
                    a,
                ) ==> at_least(r, a),
        decreases n - j,
    {
        let net = *iface.addresses.key_at(j);
        if let IpAddr::V4(addr) = iface.addresses.value_at(j).addr.addr {
            if router_id_suits(addr) {
                let higher = match r {
                    Some(best) => addr > best,
                    None => true,
                };
                if higher {
                    assert(iface@.addresses.contains_key(net));
                    r = Some(addr);
                }
            }
        }
        j = j + 1;
    }
    proof {
        assert(iface.addresses.keys_sorted());
        assert forall|a: Ipv4Addr| #[trigger] offers(iface@, a) implies at_least(r, a) by {
            let net = choose|net: IpNetwork| #[trigger]
                iface@.addresses.contains_key(net) && iface@.addresses[net].addr.addr == IpAddr::V4(a);
            assert(keys.to_set().contains(net));
            let x = choose|x: int| 0 <= x < keys.len() && keys[x] == net;
            assert(iface.addresses@[keys[x]].addr.addr == IpAddr::V4(a) && suits_router_id(a));
        }
    }
    r
}

impl Interfaces {
    /// Tables without any interface.
    pub fn new() -> (r: Interfaces)
        ensures
            r@.wf(),
            r@.names_complete(),
            r@.arena == Map::<Index, InterfaceView>::empty(),
            r@.names == Map::<Seq<char>, Index>::empty(),
            r@.ifindexes == Map::<u32, Index>::empty(),
            r@.router_id is None,
            r@.subscriptions@ == Map::<u64, InterfaceSub>::empty(),
            r@.router_id_subscriptions@ == Map::<u64, SenderId>::empty(),
    {
        let r = Interfaces {
            arena: arena_new(),
            name_tree: Table::new(),
            ifindex_tree: Table::new(),
            router_id: None,
            subscriptions: Table::new(),
            router_id_subscriptions: Table::new(),
        };
        assert(r@.arena =~= Map::<Index, InterfaceView>::empty());
        r
    }

    fn highest_ipv4_addr(&self, loopback: bool) -> (r: Option<Ipv4Addr>)
        requires
            self@.wf(),
        ensures
            is_highest(self@, loopback, r),
    {
        let ghost names = self.name_tree.keys();
        let n: usize = self.name_tree.len();
        let mut r: Option<Ipv4Addr> = None;
        let mut j: usize = 0;
        while j < n
            invariant
                j <= n,
                n == self.name_tree.keys().len(),
                names == self.name_tree.keys(),
                self@.wf(),
                r matches Some(a) ==> offered(self@, loopback, a),
                forall|x: int, a: Ipv4Addr|
                    0 <= x < j && self@.arena[self@.names[#[trigger] names[x]]].flags.loopback == loopback
                        && #[trigger] offers(self@.arena[self@.names[names[x]]], a) ==> at_least(r, a),
            decreases n - j,
        {
            let idx = *self.name_tree.value_at(j);
            proof {
                assert(self@.names.contains_key(names[j as int]));
            }
            if let Some(iface) = arena_get(&self.arena, idx) {
                if iface.flags.loopback == loopback {
                    let ghost r0 = r;
                    r = highest_of(iface, r);
                    assert(r matches Some(a) ==> offered(self@, loopback, a));
                }
            }
            j = j + 1;
        }
        proof {
            assert(self.name_tree.keys_sorted());
            assert forall|a: Ipv4Addr| #[trigger] offered(self@, loopback, a) implies at_least(r, a) by {
                let name = choose|name: Seq<char>| #[trigger]
                    self@.names.contains_key(name) && self@.arena[self@.names[name]].flags.loopback == loopback
                        && offers(self@.arena[self@.names[name]], a);
                assert(names.to_set().contains(name));
                let x = choose|x: int| 0 <= x < names.len() && names[x] == name;
                assert(offers(self@.arena[self@.names[names[x]]], a));
            }
        }
        r
    }

    /// Updates the auto-generated Router ID.
    fn update_router_id(&mut self, notes: &mut Vec<Note>)
        requires
            old(self)@.wf(),
        ensures
            ({
                let r = final(self)@.router_id;
                &&& final(self)@ == (InterfacesView { router_id: r, ..old(self)@ })
                &&& is_router_id(old(self)@, r)
                &&& note_views(final(notes)@) == note_views(old(notes)@) + router_id_notes(old(self)@, r)
            }),
    {
        // First, check for the highest IPv4 address on loopback interfaces.
        // If none exist or lack IPv4 addresses, try the non-loopback
        // interfaces.
        let best = self.highest_ipv4_addr(true);
        let router_id = match best {
            Some(addr) => Some(addr),
            None => self.highest_ipv4_addr(false),
        };
        proof {
            assert(is_router_id(self@, router_id));
        }
        let same = match (self.router_id, router_id) {
            (Some(a), Some(b)) => a == b,
            (None, None) => true,
            _ => false,
        };
        let ghost v0 = self@;
        let ghost before = note_views(notes@);
        if !same {
            // Update the Router ID with the new value.
            self.router_id = router_id;

            // Notify subscribers about the Router ID update.
            let ghost keys = self.router_id_subscriptions.keys();
            let ghost f = router_id_fn(self.router_id_subscriptions@, router_id);
            let n: usize = self.router_id_subscriptions.len();
            let mut j: usize = 0;
            assert(keys.take(0) =~= Seq::empty());
            assert(note_views(notes@) =~= before + Seq::<NoteView>::empty());
            while j < n
                invariant
                    j <= n,
                    n == self.router_id_subscriptions.keys().len(),
                    keys == self.router_id_subscriptions.keys(),
                    f == router_id_fn(self.router_id_subscriptions@, router_id),
                    note_views(notes@) == before + filter_map(keys.take(j as int), f),
                decreases n - j,
            {
                proof {
                    filter_map_step(keys, j as int, f);
                }
                let tx: SenderId = *self.router_id_subscriptions.value_at(j);
                push_note(notes, tx, IbusMsg::RouterIdUpdate(router_id));
                assert(note_views(notes@) =~= before + filter_map(keys.take(j + 1), f));
                j = j + 1;
            }
            assert(keys.take(j as int) =~= keys);
        }
        assert(note_views(notes@) =~= before + router_id_notes(v0, router_id));
    }
}

pub open spec fn router_id_fn(subs: Map<u64, SenderId>, r: Option<Ipv4Addr>) -> spec_fn(u64) -> Option<NoteView> {
    |k: u64| Some(NoteView { tx: subs[k], msg: IbusMsgView::RouterIdUpdate(r) })
}

/// What is told of the Router ID: a new one, to all who asked for it.
pub open spec fn router_id_notes(v: InterfacesView, r: Option<Ipv4Addr>) -> Seq<NoteView> {
    if v.router_id == r {
        Seq::empty()
    } else {
        filter_map(v.router_id_subscriptions.keys(), router_id_fn(v.router_id_subscriptions@, r))
    }
}

// ===== lookup =====

impl Interfaces {
    /// Returns the auto-generated Router ID.
    pub fn router_id(&self) -> (r: Option<Ipv4Addr>)
        ensures
            r == self@.router_id,
    {
        self.router_id
    }

    /// Returns a reference to the interface corresponding to the given name.
    pub fn get_by_name(&self, ifname: &String) -> (r: Option<&Interface>)
        requires
            self@.wf(),
        ensures
            match r {
                Some(iface) => self@.named(ifname@) == Some(iface@) && *iface == arena_contents(
                    self.arena,
                )[self@.names[ifname@]],
                None => self@.named(ifname@) is None,
            },
    {
        match self.name_tree.get(ifname) {
            Some(idx) => {
                assert(self@.names.contains_key(ifname@));
                arena_get(&self.arena, *idx)
            },
            None => None,
        }
    }

    /// Returns a reference to the interface corresponding to the given ifindex.
    pub fn get_by_ifindex(&self, ifindex: u32) -> (r: Option<&Interface>)
        requires
            self@.wf(),
        ensures
            match r {
                Some(iface) => self@.indexed(ifindex) == Some(iface@),
                None => self@.indexed(ifindex) is None,
            },
    {
        match self.ifindex_tree.get(&ifindex) {
            Some(idx) => {
                assert(self@.ifindexes.contains_key(ifindex));
                arena_get(&self.arena, *idx)
            },
            None => None,
        }
    }

    /// Returns a mutable reference to the interface corresponding to the given
    /// name.
    pub fn get_mut_by_name(&mut self, ifname: &String) -> (r: Option<&mut Interface>)
        requires
            old(self)@.wf(),
        ensures
            match r {
                Some(iface) => {
                    &&& old(self)@.names.contains_key(ifname@)
                    &&& iface@ == old(self)@.arena[old(self)@.names[ifname@]]
                    &&& final(self)@ == old(self)@.with(old(self)@.names[ifname@], final(iface)@)
                },
                None => !old(self)@.names.contains_key(ifname@) && final(self)@ == old(self)@,
            },
    {
        let ghost m = arena_contents(self.arena);
        match self.name_tree.get(ifname) {
            Some(idx) => {
                let idx = *idx;
                proof {
                    assert(self@.names.contains_key(ifname@));
                    assert forall|f: Interface| arena_views(#[trigger] m.insert(idx, f)) == arena_views(m).insert(
                        idx,
                        f@,
                    ) by {
                        arena_insert_view(m, idx, f);
                    }
                }
                arena_get_mut(&mut self.arena, idx)
            },
            None => None,
        }
    }

    /// Returns the names of all interfaces, in order.
    pub fn names(&self) -> (r: Vec<String>)
        ensures
            r@.len() == self.name_tree.keys().len(),
            forall|j: int| 0 <= j < r@.len() ==> (#[trigger] r@[j])@ == self.name_tree.keys()[j],
            self.name_tree.keys_sorted(),
    {
        let n: usize = self.name_tree.len();
        let mut r: Vec<String> = Vec::new();
        let mut j: usize = 0;
        while j < n
            invariant
                j <= n,
                n == self.name_tree.keys().len(),
                r@.len() == j,
                forall|x: int| 0 <= x < j ==> (#[trigger] r@[x])@ == self.name_tree.keys()[x],
            decreases n - j,
        {
            r.push(self.name_tree.key_at(j).clone());
            j = j + 1;
        }
        r
    }
}

// ===== operations =====

impl Interface {
    /// An interface that nothing is known of but its name.
    pub open spec fn is_blank(self, enabled: bool) -> bool {
        &&& self.config@ == InterfaceCfg::initial(enabled)
        &&& self.addresses@ == Map::<IpNetwork, InterfaceAddress>::empty()
        &&& self.vrrp is None
        &&& self.subscriptions@ == Map::<u64, InterfaceSub>::empty()
    }

    fn blank(name: String, enabled: bool) -> (r: Interface)
        ensures
            r.is_blank(enabled),
            r.name == name,
            r.ifindex is None,
            r.mtu is None,
            r.flags == InterfaceFlags::none(),
            r.mac_address == 0,
            r.owner == (Owner { config: false, system: false }),
    {
        Interface {
            name,
            config: InterfaceCfg::new(enabled),
            ifindex: None,
            mtu: None,
            flags: InterfaceFlags::default(),
            addresses: Table::new(),
            mac_address: 0,
            owner: Owner { config: false, system: false },
            vrrp: None,
            subscriptions: Table::new(),
        }
    }

    /// Applies the interface configuration.
    ///
    /// This method should only be called after the interface has been created
    /// at the OS-level.
    fn apply_config(&self, ifindex: u32, interfaces: &Interfaces, requests: &mut Vec<NetlinkRequest>)
        requires
            interfaces@.wf(),
        ensures
            request_views(final(requests)@) == request_views(old(requests)@) + config_requests(
                interfaces@,
                *self,
                ifindex,
            ),
    {
        let ghost before = request_views(requests@);
        // Set administrative status.
        push_request(requests, NetlinkRequest::AdminStatusChange { ifindex, enabled: self.config.enabled });

        // Create VLAN subinterface.
        interfaces.request_vlan(self, self.config.vlan_id, requests);

        // Set MTU.
        if let Some(mtu) = self.config.mtu {
            push_request(requests, NetlinkRequest::MtuChange { ifindex, mtu });
        }

        // Install interface addresses.
        request_addrs(ifindex, &self.config.addr_list, true, requests);
        assert(request_views(requests@) =~= before + config_requests(interfaces@, *self, ifindex));
    }
}

/// The interface that an update of the system is about: the one with that
/// ifindex, or else that name.
pub open spec fn update_target(v: InterfacesView, ifname: Seq<char>, ifindex: u32) -> Option<Index> {
    if v.ifindexes.contains_key(ifindex) {
        Some(v.ifindexes[ifindex])
    } else if v.names.contains_key(ifname) {
        Some(v.names[ifname])
    } else {
        None
    }
}

/// What the system says of an interface.
#[derive(Clone, Copy, Debug, PartialEq, Eq, Structural)]
pub struct LinkState {
    pub ifindex: u32,
    pub mtu: u32,
    pub flags: InterfaceFlags,
    pub mac_address: MacAddr,
}

/// Whether the system says nothing new.
pub open spec fn is_known(f: InterfaceView, ifname: Seq<char>, link: LinkState) -> bool {
    &&& f.name == ifname
    &&& f.ifindex == Some(link.ifindex)
    &&& f.mtu == Some(link.mtu)
    &&& f.flags == link.flags
    &&& f.mac_address == link.mac_address
}

/// An interface, after the system told of it.
pub open spec fn with_link(f: InterfaceView, ifname: Seq<char>, link: LinkState) -> InterfaceView {
    InterfaceView {
        name: ifname,
        ifindex: Some(link.ifindex),
        mtu: Some(link.mtu),
        flags: link.flags,
        mac_address: link.mac_address,
        owner: f.owner.with(Owner::of_system()),
        ..f
    }
}

/// The interfaces, after the system told of one of them.
pub open spec fn link_updated(v: InterfacesView, k: Index, ifname: Seq<char>, link: LinkState) -> InterfacesView {
    let f = v.arena[k];
    InterfacesView {
        arena: v.arena.insert(k, with_link(f, ifname, link)),
        names: if f.name == ifname {
            v.names
        } else {
            v.names.remove(f.name).insert(ifname, k)
        },
        ifindexes: if f.ifindex == Some(link.ifindex) {
            v.ifindexes
        } else {
            (match f.ifindex {
                Some(old_ifindex) => v.ifindexes.remove(old_ifindex),
                None => v.ifindexes,
            }).insert(link.ifindex, k)
        },
        ..v
    }
}

/// Whether the interfaces are those from before and one more.
pub open spec fn link_added(
    v: InterfacesView,
    w: InterfacesView,
    k: Index,
    f: InterfaceView,
    ifname: Seq<char>,
    ifindex: Option<u32>,
) -> bool {
    &&& !v.arena.contains_key(k)
    &&& w == (InterfacesView {
        arena: v.arena.insert(k, f),
        names: v.names.insert(ifname, k),
        ifindexes: match ifindex {
            Some(ifindex) => v.ifindexes.insert(ifindex, k),
            None => v.ifindexes,
        },
        ..v
    })
}

/// A blank interface, as the system or the configuration creates it.
pub open spec fn blank_view(f: InterfaceView, ifname: Seq<char>, enabled: bool) -> bool {
    &&& f.name == ifname
    &&& f.config == InterfaceCfg::initial(enabled)
    &&& f.addresses == Map::<IpNetwork, InterfaceAddress>::empty()
    &&& f.vrrp is None
    &&& f.subscriptions@ == Map::<u64, InterfaceSub>::empty()
}

/// A new interface of the configuration.
pub open spec fn configured(f: InterfaceView, ifname: Seq<char>, enabled: bool) -> bool {
    &&& blank_view(f, ifname, enabled)
    &&& f.ifindex is None
    &&& f.mtu is None
    &&& f.flags == InterfaceFlags::none()
    &&& f.mac_address == 0
    &&& f.owner == Owner::of_config()
}

/// A new interface of the system.
pub open spec fn discovered(f: InterfaceView, ifname: Seq<char>, link: LinkState, enabled: bool) -> bool {
    &&& blank_view(f, ifname, enabled)
    &&& f.ifindex == Some(link.ifindex)
    &&& f.mtu == Some(link.mtu)
    &&& f.flags == link.flags
    &&& f.mac_address == link.mac_address
    &&& f.owner == Owner::of_system()
}

/// Whether a new interface was added for the configuration.
pub open spec fn config_added(v: InterfacesView, w: InterfacesView, ifname: Seq<char>, enabled: bool) -> bool {
    exists|k: Index, f: InterfaceView| #[trigger]
        link_added(v, w, k, f, ifname, None) && configured(f, ifname, enabled)
}

/// Whether a new interface was added for the system.
pub open spec fn system_added(
    v: InterfacesView,
    w: InterfacesView,
    ifname: Seq<char>,
    link: LinkState,
    enabled: bool,
) -> bool {
    exists|k: Index, f: InterfaceView| #[trigger]
        link_added(v, w, k, f, ifname, Some(link.ifindex)) && discovered(f, ifname, link, enabled)
}

/// What is told of a new interface of the system.
pub open spec fn link_msg(ifname: Seq<char>, link: LinkState) -> IbusMsgView {
    IbusMsgView::InterfaceUpd {
        ifname,
        ifindex: Some(link.ifindex),
        mtu: Some(link.mtu),
        flags: link.flags,
        mac_address: link.mac_address,
    }
}

/// The interfaces, after one lost an owner that was not its last, or its only
/// owner.
pub open spec fn owner_left(v: InterfacesView, k: Index, owner: Owner) -> InterfacesView {
    let f = v.arena[k];
    v.with(k, InterfaceView { owner: f.owner.without(owner), ..f })
}

/// The interfaces, after the system lost one that is still configured: all
/// that came from the system is gone.
pub open spec fn link_lost(v: InterfacesView, k: Index) -> InterfacesView {
    let f = v.arena[k];
    InterfacesView {
        arena: v.arena.insert(
            k,
            InterfaceView {
                owner: f.owner.without(Owner::of_system()),
                flags: InterfaceFlags::none(),
                addresses: Map::empty(),
                ifindex: None,
                mtu: None,
                ..f
            },
        ),
        ifindexes: match f.ifindex {
            Some(ifindex) => v.ifindexes.remove(ifindex),
            None => v.ifindexes,
        },
        ..v
    }
}

/// The interfaces, without one of them.
pub open spec fn link_removed(v: InterfacesView, k: Index) -> InterfacesView {
    let f = v.arena[k];
    InterfacesView {
        arena: v.arena.remove(k),
        names: v.names.remove(f.name),
        ifindexes: match f.ifindex {
            Some(ifindex) => v.ifindexes.remove(ifindex),
            None => v.ifindexes,
        },
        ..v
    }
}

/// The requests that remove the configured addresses of an interface from the
/// kernel, once it is no longer configured.
pub open spec fn unconfig_requests(f: Interface, owner: Owner) -> Seq<NetlinkRequestView> {
    match f.ifindex {
        Some(ifindex) => if owner == Owner::of_config() {
            flat_map(f.config.addr_list.keys(), uninstall_fn(ifindex, f.config.addr_list@))
        } else {
            Seq::empty()
        },
        None => Seq::empty(),
    }
}

/// What is told when the system lost an interface that is still configured: it
/// is no longer operative, while it still holds its old ifindex, and its
/// addresses are withdrawn.
pub open spec fn lost_notes(v: InterfacesView, f: Interface) -> Seq<NoteView> {
    all_told(
        v.subscriptions,
        f.subscriptions,
        None,
        update_msg(InterfaceView { flags: InterfaceFlags::none(), ..f@ }),
    ) + addr_dels(v.subscriptions, f)
}

/// Whether an owner was removed from an interface, and the interface with the
/// last one, and what that leaves to be sent.
pub open spec fn owner_removed(
    o: Interfaces,
    n: Interfaces,
    ifname: Seq<char>,
    owner: Owner,
    effects: Effects,
) -> bool {
    if o@.names.contains_key(ifname) {
        let k = o@.names[ifname];
        let f = arena_contents(o.arena)[k];
        let left = f.owner.without(owner);
        let r = n@.router_id;
        &&& request_views(effects.requests@) == unconfig_requests(f, owner)
        &&& if left.config || left.system {
            if owner == Owner::of_system() {
                let v = link_lost(o@, k);
                &&& n@ == (InterfacesView { router_id: r, ..v })
                &&& is_router_id(v, r)
                &&& note_views(effects.notes@) == lost_notes(o@, f) + router_id_notes(v, r)
            } else {
                &&& n@ == owner_left(o@, k, owner)
                &&& note_views(effects.notes@) == Seq::<NoteView>::empty()
            }
        } else {
            let v = link_removed(o@, k);
            &&& n@ == (InterfacesView { router_id: r, ..v })
            &&& is_router_id(v, r)
            &&& note_views(effects.notes@) == all_told(
                o@.subscriptions,
                f.subscriptions,
                None,
                IbusMsgView::InterfaceDel(f.name@),
            ) + router_id_notes(v, r)
        }
    } else {
        n@ == o@ && effects.are(Seq::empty(), Seq::empty())
    }
}

impl Interfaces {
    pub(crate) fn request_vlan(&self, iface: &Interface, vlan_id: Option<u16>, requests: &mut Vec<NetlinkRequest>)
        requires
            self@.wf(),
        ensures
            request_views(final(requests)@) == request_views(old(requests)@) + vlan_requests(self@, iface@, vlan_id),
    {
        let ghost before = request_views(requests@);
        if let (Some(vlan_id), None, Some(parent)) = (vlan_id, iface.ifindex, &iface.config.parent) {
            if let Some(parent) = self.get_by_name(parent) {
                if let Some(parent_ifindex) = parent.ifindex {
                    push_request(
                        requests,
                        NetlinkRequest::VlanCreate { name: iface.name.clone(), parent_ifindex, vlan_id },
                    );
                }
            }
        }
        assert(request_views(requests@) =~= before + vlan_requests(self@, iface@, vlan_id));
    }

    /// Adds an interface to the configuration. The argument says whether it is
    /// enabled by default.
    pub fn add(&mut self, ifname: String, enabled: bool)
        requires
            old(self)@.wf(),
        ensures
            final(self)@.wf(),
            if old(self)@.names.contains_key(ifname@) {
                let k = old(self)@.names[ifname@];
                let f = old(self)@.arena[k];
                final(self)@ == old(self)@.with(k, InterfaceView { owner: f.owner.with(Owner::of_config()), ..f })
            } else {
                config_added(old(self)@, final(self)@, ifname@, enabled)
            },
    {
        let ghost v = self@;
        if let Some(iface) = self.get_mut_by_name(&ifname) {
            iface.owner.insert(Owner::config());
            proof {
                with_keeps_wf(v, v.names[ifname@], iface@);
            }
            return;
        }

        // If the interface does not exist, create a new entry.
        let mut iface = Interface::blank(ifname.clone(), enabled);
        iface.owner.insert(Owner::config());
        let ghost m = arena_contents(self.arena);
        let iface_idx = arena_insert(&mut self.arena, iface);
        proof {
            arena_insert_view(m, iface_idx, iface);
        }
        self.name_tree.insert(ifname, iface_idx);
        proof {
            assert(iface@.config.addr_list =~= Map::<IpAddr, u8>::empty());
            assert(link_added(v, self@, iface_idx, iface@, ifname@, None));
            added_keeps_wf(v, self@, iface_idx, iface@, ifname@, None);
        }
    }

    /// Adds or updates the interface with the specified attributes. The last
    /// argument says whether interfaces are enabled by default.
    #[verifier::rlimit(100)]
    pub fn update(&mut self, ifname: String, link: LinkState, enabled: bool) -> (effects: Effects)
        requires
            old(self)@.wf(),
        ensures
            final(self)@.wf(),
            match update_target(old(self)@, ifname@, link.ifindex) {
                Some(k) => {
                    let f = arena_contents(old(self).arena)[k];
                    if is_known(f@, ifname@, link) {
                        final(self)@ == old(self)@ && effects.are(Seq::empty(), Seq::empty())
                    } else {
                        &&& final(self)@ == link_updated(old(self)@, k, ifname@, link)
                        &&& note_views(effects.notes@) == all_told(
                            old(self)@.subscriptions,
                            f.subscriptions,
                            None,
                            link_msg(ifname@, link),
                        )
                        &&& request_views(effects.requests@) == (if f.ifindex == Some(link.ifindex) {
                            Seq::empty()
                        } else {
                            config_requests(
                                final(self)@,
                                arena_contents(final(self).arena)[k],
                                link.ifindex,
                            )
                        })
                    }
                },
                None => {
                    &&& system_added(old(self)@, final(self)@, ifname@, link, enabled)
                    &&& note_views(effects.notes@) == told(old(self)@.subscriptions, None, link_msg(ifname@, link))
                    &&& request_views(effects.requests@) == Seq::<NetlinkRequestView>::empty()
                },
            },
    {
        let mut effects = Effects::nothing();
        let ghost v = self@;
        let ghost m = arena_contents(self.arena);
        let target = match self.ifindex_tree.get(&link.ifindex) {
            Some(idx) => Some(*idx),
            None => match self.name_tree.get(&ifname) {
                Some(idx) => Some(*idx),
                None => None,
            },
        };
        assert(target == update_target(v, ifname@, link.ifindex));
        match target {
            Some(iface_idx) => {
                assert(v.arena.contains_key(iface_idx));
                let ghost f = m[iface_idx];
                let mut ifindex_changed = false;
                if let Some(iface) = arena_get_mut(&mut self.arena, iface_idx) {
                    // The netdev might be a new one reusing the name of a
                    // netdev that is gone (e.g. a re-enumerated USB NIC), in
                    // which case the ifindex needs to be rebound.
                    ifindex_changed = match iface.ifindex {
                        Some(ifindex) => ifindex != link.ifindex,
                        None => true,
                    };
                    let same_mtu = match iface.mtu {
                        Some(mtu) => mtu == link.mtu,
                        None => false,
                    };

                    // If nothing of interest has changed, return early.
                    if !ifindex_changed && iface.name == ifname && same_mtu && iface.flags == link.flags
                        && iface.mac_address == link.mac_address {
                        proof {
                            arena_insert_view(m, iface_idx, f);
                            assert(arena_views(m).insert(iface_idx, f@) =~= arena_views(m));
                        }
                        return effects;
                    }

                    // Update the existing interface with the new information.
                    if iface.name != ifname {
                        self.name_tree.remove(&iface.name);
                        iface.name = ifname.clone();
                        self.name_tree.insert(ifname.clone(), iface_idx);
                    }
                    if ifindex_changed {
                        if let Some(old_ifindex) = iface.ifindex {
                            self.ifindex_tree.remove(&old_ifindex);
                        }
                        iface.ifindex = Some(link.ifindex);
                        self.ifindex_tree.insert(link.ifindex, iface_idx);
                    }
                    iface.owner.insert(Owner::system());
                    iface.mtu = Some(link.mtu);
                    iface.flags = link.flags;
                    iface.mac_address = link.mac_address;

                    // Notify subscribers about the interface update.
                    let msg = iface.update_msg();
                    tell_all(&self.subscriptions, &iface.subscriptions, None, &msg, &mut effects.notes);
                    proof {
                        arena_insert_view(m, iface_idx, *iface);
                    }
                }
                proof {
                    assert(self@.arena =~= link_updated(v, iface_idx, ifname@, link).arena);
                    assert(self@ == link_updated(v, iface_idx, ifname@, link));
                    updated_keeps_wf(v, iface_idx, ifname@, link);
                    assert(note_views(effects.notes@) =~= all_told(
                        v.subscriptions,
                        f.subscriptions,
                        None,
                        link_msg(ifname@, link),
                    ));
                }

                // Whenever the interface is bound to a new ifindex, apply any
                // pre-existing configuration options to the new netdev.
                if ifindex_changed {
                    if let Some(iface) = arena_get(&self.arena, iface_idx) {
                        iface.apply_config(link.ifindex, self, &mut effects.requests);
                        assert(request_views(effects.requests@) =~= config_requests(self@, *iface, link.ifindex));
                    }
                }
            },
            None => {
                // If the interface does not exist, create a new entry.
                let mut iface = Interface::blank(ifname.clone(), enabled);
                iface.ifindex = Some(link.ifindex);
                iface.mtu = Some(link.mtu);
                iface.flags = link.flags;
                iface.mac_address = link.mac_address;
                iface.owner.insert(Owner::system());

                // Notify subscribers about the interface update.
                let msg = iface.update_msg();
                tell(&self.subscriptions, None, &msg, &mut effects.notes);
                assert(note_views(effects.notes@) =~= told(v.subscriptions, None, link_msg(ifname@, link)));

                let iface_idx = arena_insert(&mut self.arena, iface);
                proof {
                    arena_insert_view(m, iface_idx, iface);
                }
                self.name_tree.insert(ifname.clone(), iface_idx);
                self.ifindex_tree.insert(link.ifindex, iface_idx);
                proof {
                    assert(iface@.config.addr_list =~= Map::<IpAddr, u8>::empty());
                    assert(link_added(v, self@, iface_idx, iface@, ifname@, Some(link.ifindex)));
                    added_keeps_wf(v, self@, iface_idx, iface@, ifname@, Some(link.ifindex));
                }
            },
        }
        effects
    }

    /// Removes one of its owners from the specified interface, and the interface
    /// with the last one.
    #[verifier::rlimit(100)]
    pub fn remove(&mut self, ifname: &String, owner: Owner) -> (effects: Effects)
        requires
            old(self)@.wf(),
        ensures
            final(self)@.wf(),
            owner_removed(*old(self), *final(self), ifname@, owner, effects),
    {
        let mut effects = Effects::nothing();
        let ghost v = self@;
        let ghost m = arena_contents(self.arena);
        let iface_idx = match self.name_tree.get(ifname) {
            Some(idx) => *idx,
            None => {
                return effects;
            },
        };
        assert(v.names.contains_key(ifname@));
        let ghost f = m[iface_idx];
        let system = !owner.config && owner.system;
        let config = owner.config && !owner.system;
        let mut emptied = false;
        let mut ifindex: Option<u32> = None;
        if let Some(iface) = arena_get_mut(&mut self.arena, iface_idx) {
            ifindex = iface.ifindex;
            // When the interface is unconfigured, uninstall all configured
            // addresses associated with it.
            if config {
                if let Some(ifindex) = iface.ifindex {
                    request_addrs(ifindex, &iface.config.addr_list, false, &mut effects.requests);
                }
            }
            assert(request_views(effects.requests@) =~= unconfig_requests(f, owner));

            // Remove interface only when it's both not present in the
            // configuration and not available in the kernel.
            iface.owner.remove(owner);
            emptied = iface.owner.is_empty();
            if !emptied && system {
                // The netdev is gone but the interface is still configured.
                // Notify subscribers that the interface is no longer
                // operative, while it still holds its old ifindex, so the
                // update is indistinguishable from a link-down of a known
                // interface.
                iface.flags = InterfaceFlags::default();
                let msg = iface.update_msg();
                tell_all(&self.subscriptions, &iface.subscriptions, None, &msg, &mut effects.notes);

                // Withdraw all addresses of the netdev that is gone.
                tell_addr_dels(&self.subscriptions, iface, &mut effects.notes);
                assert(note_views(effects.notes@) =~= lost_notes(v, f));
                iface.addresses = Table::new();

                // Discard the remaining kernel-derived state, as a netdev
                // created later with the same name will have a different
                // ifindex.
                iface.ifindex = None;
                iface.mtu = None;
            }
            if emptied {
                // Notify subscribers about the interface removal.
                let msg = IbusMsg::InterfaceDel(iface.name.clone());
                tell_all(&self.subscriptions, &iface.subscriptions, None, &msg, &mut effects.notes);
                assert(note_views(effects.notes@) =~= all_told(
                    v.subscriptions,
                    f.subscriptions,
                    None,
                    IbusMsgView::InterfaceDel(f.name@),
                ));
            }
            proof {
                arena_insert_view(m, iface_idx, *iface);
            }
        }
        if !emptied {
            if system {
                if let Some(ifindex) = ifindex {
                    self.ifindex_tree.remove(&ifindex);
                }
                proof {
                    assert(self@.arena[iface_idx].addresses =~= Map::<IpNetwork, InterfaceAddress>::empty());
                    assert(self@ == link_lost(v, iface_idx));
                    lost_keeps_wf(v, iface_idx);
                }

                // Check if the Router ID needs to be updated.
                self.update_router_id(&mut effects.notes);
            } else {
                proof {
                    assert(self@ == owner_left(v, iface_idx, owner));
                    with_keeps_wf(v, iface_idx, self@.arena[iface_idx]);
                }
            }
            return effects;
        }

        // Remove interface.
        let ghost n = arena_contents(self.arena);
        self.name_tree.remove(ifname);
        if let Some(ifindex) = ifindex {
            self.ifindex_tree.remove(&ifindex);
        }
        arena_remove(&mut self.arena, iface_idx);
        proof {
            arena_remove_view(n, iface_idx);
            assert(self@.arena =~= v.arena.remove(iface_idx));
            assert(self@ == link_removed(v, iface_idx));
            removed_keeps_wf(v, iface_idx);
        }

        // Check if the Router ID needs to be updated.
        self.update_router_id(&mut effects.notes);
        effects
    }

    /// Adds the specified address to the interface identified by its ifindex.
    pub fn addr_add(&mut self, ifindex: u32, addr: IpNetwork) -> (effects: Effects)
        requires
            old(self)@.wf(),
        ensures
            final(self)@.wf(),
            request_views(effects.requests@) == Seq::<NetlinkRequestView>::empty(),
            if !is_loopback(addr.addr) && old(self)@.ifindexes.contains_key(ifindex) {
                let k = old(self)@.ifindexes[ifindex];
                let f = arena_contents(old(self).arena)[k];
                let flags = addr_flags(f.flags, addr);
                let v = old(self)@.with(
                    k,
                    InterfaceView { addresses: f@.addresses.insert(addr, InterfaceAddress { addr, flags }), ..f@ },
                );
                let r = final(self)@.router_id;
                &&& final(self)@ == (InterfacesView { router_id: r, ..v })
                &&& is_router_id(v, r)
                &&& note_views(effects.notes@) == all_told(
                    old(self)@.subscriptions,
                    f.subscriptions,
                    Some(addr.addr.family()),
                    IbusMsgView::InterfaceAddressAdd { ifname: f.name@, addr, addr_flags: flags },
                ) + router_id_notes(v, r)
            } else {
                final(self)@ == old(self)@ && note_views(effects.notes@) == Seq::<NoteView>::empty()
            },
    {
        let mut effects = Effects::nothing();
        // Ignore loopback addresses.
        if loopback_addr(&addr.addr) {
            return effects;
        }

        // Lookup interface.
        let ghost v = self@;
        let ghost m = arena_contents(self.arena);
        let iface_idx = match self.ifindex_tree.get(&ifindex) {
            Some(idx) => *idx,
            None => {
                return effects;
            },
        };
        assert(v.ifindexes.contains_key(ifindex));
        if let Some(iface) = arena_get_mut(&mut self.arena, iface_idx) {
            let ghost f = *iface;
            // Add address to the interface.
            let host_v4 = match addr.addr {
                IpAddr::V4(_) => addr.plen == 32,
                IpAddr::V6(_) => false,
            };
            let flags = AddressFlags { unnumbered: !iface.flags.loopback && host_v4 };
            iface.addresses.insert(addr, InterfaceAddress { addr, flags });

            // Notify subscribers about the address addition.
            let msg = IbusMsg::InterfaceAddressAdd { ifname: iface.name.clone(), addr, addr_flags: flags };
            tell_all(
                &self.subscriptions,
                &iface.subscriptions,
                Some(addr.addr.address_family()),
                &msg,
                &mut effects.notes,
            );
            proof {
                arena_insert_view(m, iface_idx, *iface);
                with_keeps_wf(v, iface_idx, iface@);
                assert(note_views(effects.notes@) =~= all_told(
                    v.subscriptions,
                    f.subscriptions,
                    Some(addr.addr.family()),
                    msg@,
                ));
            }
        }

        // Check if the Router ID needs to be updated.
        self.update_router_id(&mut effects.notes);
        effects
    }

    /// Removes the specified address from the interface identified by its
    /// ifindex.
    pub fn addr_del(&mut self, ifindex: u32, addr: IpNetwork) -> (effects: Effects)
        requires
            old(self)@.wf(),
        ensures
            final(self)@.wf(),
            request_views(effects.requests@) == Seq::<NetlinkRequestView>::empty(),
            ({
                let k = old(self)@.ifindexes[ifindex];
                let f = arena_contents(old(self).arena)[k];
                if old(self)@.ifindexes.contains_key(ifindex) && f@.addresses.contains_key(addr) {
                    let v = old(self)@.with(k, InterfaceView { addresses: f@.addresses.remove(addr), ..f@ });
                    let r = final(self)@.router_id;
                    &&& final(self)@ == (InterfacesView { router_id: r, ..v })
                    &&& is_router_id(v, r)
                    &&& note_views(effects.notes@) == all_told(
                        old(self)@.subscriptions,
                        f.subscriptions,
                        Some(addr.addr.family()),
                        addr_del_msg(f.name@, f@.addresses[addr]),
                    ) + router_id_notes(v, r)
                } else {
                    final(self)@ == old(self)@ && note_views(effects.notes@) == Seq::<NoteView>::empty()
                }
            }),
    {
        let mut effects = Effects::nothing();
        // Lookup interface.
        let ghost v = self@;
        let ghost m = arena_contents(self.arena);
        let iface_idx = match self.ifindex_tree.get(&ifindex) {
            Some(idx) => *idx,
            None => {
                return effects;
            },
        };
        assert(v.ifindexes.contains_key(ifindex));
        let ghost f = m[iface_idx];
        let mut removed = false;
        if let Some(iface) = arena_get_mut(&mut self.arena, iface_idx) {
            // Remove address from the interface.
            if let Some(iface_addr) = iface.addresses.remove(&addr) {
                removed = true;
                // Notify subscribers about the address removal.
                let msg = IbusMsg::InterfaceAddressDel {
                    ifname: iface.name.clone(),
                    addr: iface_addr.addr,
                    addr_flags: iface_addr.flags,
                };
                tell_all(
                    &self.subscriptions,
                    &iface.subscriptions,
                    Some(addr.addr.address_family()),
                    &msg,
                    &mut effects.notes,
                );
                assert(note_views(effects.notes@) =~= all_told(
                    v.subscriptions,
                    f.subscriptions,
                    Some(addr.addr.family()),
                    msg@,
                ));
            }
            proof {
                arena_insert_view(m, iface_idx, *iface);
                with_keeps_wf(v, iface_idx, iface@);
                if !removed {
                    assert(iface@.addresses =~= f@.addresses);
                    assert(v.arena.insert(iface_idx, iface@) =~= v.arena);
                }
            }
        }
        if removed {
            // Check if the Router ID needs to be updated.
            self.update_router_id(&mut effects.notes);
        }
        effects
    }
}

/// Whether the address is a loopback address.
pub open spec fn is_loopback(addr: IpAddr) -> bool {
    match addr {
        IpAddr::V4(addr) => addr / 0x100_0000 == 127,
        IpAddr::V6(addr) => addr == 1,
    }
}

fn loopback_addr(addr: &IpAddr) -> (b: bool)
    ensures
        b == is_loopback(*addr),
{
    match addr {
        IpAddr::V4(addr) => *addr / 0x100_0000 == 127,
        IpAddr::V6(addr) => *addr == 1,
    }
}

/// The flags of an address: host prefixes of IPv4 leave an interface unnumbered,
/// unless it is a loopback interface.
pub open spec fn addr_flags(flags: InterfaceFlags, addr: IpNetwork) -> AddressFlags {
    AddressFlags { unnumbered: !flags.loopback && addr.addr is V4 && addr.plen == 32 }
}

// ===== the tables stay sound =====

/// A change of an interface that keeps its name and ifindex keeps the tables
/// sound.
pub proof fn with_keeps_wf(v: InterfacesView, k: Index, f: InterfaceView)
    requires
        v.wf(),
        v.arena.contains_key(k),
        f.name == v.arena[k].name,
        f.ifindex == v.arena[k].ifindex,
        addrs_valid(f.config.addr_list),
    ensures
        v.with(k, f).wf(),
        v.names_complete() ==> v.with(k, f).names_complete(),
{
    let w = v.with(k, f);
    assert forall|name: Seq<char>| #[trigger] w.names.contains_key(name) implies w.arena.contains_key(w.names[name])
        && w.arena[w.names[name]].name == name by {
        assert(v.names.contains_key(name));
    }
    assert forall|ifindex: u32| #[trigger] w.ifindexes.contains_key(ifindex) implies w.arena.contains_key(
        w.ifindexes[ifindex],
    ) && w.arena[w.ifindexes[ifindex]].ifindex == Some(ifindex) by {
        assert(v.ifindexes.contains_key(ifindex));
    }
    assert forall|j: Index| #[trigger] w.arena.contains_key(j) implies v.arena.contains_key(j) by {}
}

proof fn added_keeps_wf(
    v: InterfacesView,
    w: InterfacesView,
    k: Index,
    f: InterfaceView,
    ifname: Seq<char>,
    ifindex: Option<u32>,
)
    requires
        v.wf(),
        link_added(v, w, k, f, ifname, ifindex),
        f.name == ifname,
        f.ifindex == ifindex,
        addrs_valid(f.config.addr_list),
        !v.names.contains_key(ifname),
        ifindex matches Some(i) ==> !v.ifindexes.contains_key(i),
    ensures
        w.wf(),
        v.names_complete() ==> w.names_complete(),
{
    assert forall|name: Seq<char>| #[trigger] w.names.contains_key(name) implies w.arena.contains_key(w.names[name])
        && w.arena[w.names[name]].name == name by {
        if name != ifname {
            assert(v.names.contains_key(name));
        }
    }
    assert forall|i: u32| #[trigger] w.ifindexes.contains_key(i) implies w.arena.contains_key(w.ifindexes[i])
        && w.arena[w.ifindexes[i]].ifindex == Some(i) by {
        if ifindex != Some(i) {
            assert(v.ifindexes.contains_key(i));
        }
    }
    assert forall|j: Index| #[trigger] w.arena.contains_key(j) && w.arena[j].ifindex is Some implies w.ifindexes.contains_key(
        w.arena[j].ifindex->0,
    ) && w.ifindexes[w.arena[j].ifindex->0] == j by {
        if j != k {
            assert(v.arena.contains_key(j));
        }
    }
    assert forall|j: Index| #[trigger] w.arena.contains_key(j) implies addrs_valid(w.arena[j].config.addr_list) by {
        if j != k {
            assert(v.arena.contains_key(j));
        }
    }
    if v.names_complete() {
        assert forall|j: Index| #[trigger] w.arena.contains_key(j) implies w.names.contains_key(w.arena[j].name)
            && w.names[w.arena[j].name] == j by {
            if j != k {
                assert(v.arena.contains_key(j));
            }
        }
    }
}

proof fn updated_keeps_wf(v: InterfacesView, k: Index, ifname: Seq<char>, link: LinkState)
    requires
        v.wf(),
        update_target(v, ifname, link.ifindex) == Some(k),
    ensures
        link_updated(v, k, ifname, link).wf(),
        v.names_complete() && (v.names.contains_key(ifname) ==> v.names[ifname] == k) ==> link_updated(
            v,
            k,
            ifname,
            link,
        ).names_complete(),
{
    let w = link_updated(v, k, ifname, link);
    let f = v.arena[k];
    if v.ifindexes.contains_key(link.ifindex) {
        assert(f.ifindex == Some(link.ifindex));
    } else {
        assert(v.names.contains_key(ifname));
        assert(f.name == ifname);
    }
    assert(v.arena.contains_key(k));
    assert forall|name: Seq<char>| #[trigger] w.names.contains_key(name) implies w.arena.contains_key(w.names[name])
        && w.arena[w.names[name]].name == name by {
        if name != ifname {
            assert(v.names.contains_key(name));
        }
    }
    assert forall|i: u32| #[trigger] w.ifindexes.contains_key(i) implies w.arena.contains_key(w.ifindexes[i])
        && w.arena[w.ifindexes[i]].ifindex == Some(i) by {
        if i != link.ifindex {
            assert(v.ifindexes.contains_key(i));
        }
    }
    assert forall|j: Index| #[trigger] w.arena.contains_key(j) && w.arena[j].ifindex is Some implies w.ifindexes.contains_key(
        w.arena[j].ifindex->0,
    ) && w.ifindexes[w.arena[j].ifindex->0] == j by {
        assert(v.arena.contains_key(j));
    }
    assert forall|j: Index| #[trigger] w.arena.contains_key(j) implies addrs_valid(w.arena[j].config.addr_list) by {
        assert(v.arena.contains_key(j));
    }
    if v.names_complete() && (v.names.contains_key(ifname) ==> v.names[ifname] == k) {
        assert forall|j: Index| #[trigger] w.arena.contains_key(j) implies w.names.contains_key(w.arena[j].name)
            && w.names[w.arena[j].name] == j by {
            assert(v.arena.contains_key(j));
            if j != k {
                assert(v.names[v.arena[j].name] == j);
            }
        }
    }
}

proof fn lost_keeps_wf(v: InterfacesView, k: Index)
    requires
        v.wf(),
        v.arena.contains_key(k),
    ensures
        link_lost(v, k).wf(),
        v.names_complete() ==> link_lost(v, k).names_complete(),
{
    let w = link_lost(v, k);
    assert forall|name: Seq<char>| #[trigger] w.names.contains_key(name) implies w.arena.contains_key(w.names[name])
        && w.arena[w.names[name]].name == name by {
        assert(v.names.contains_key(name));
    }
    assert forall|i: u32| #[trigger] w.ifindexes.contains_key(i) implies w.arena.contains_key(w.ifindexes[i])
        && w.arena[w.ifindexes[i]].ifindex == Some(i) by {
        assert(v.ifindexes.contains_key(i));
    }
    assert forall|j: Index| #[trigger] w.arena.contains_key(j) && w.arena[j].ifindex is Some implies w.ifindexes.contains_key(
        w.arena[j].ifindex->0,
    ) && w.ifindexes[w.arena[j].ifindex->0] == j by {
        assert(v.arena.contains_key(j));
    }
    assert forall|j: Index| #[trigger] w.arena.contains_key(j) implies v.arena.contains_key(j) by {}
}

proof fn removed_keeps_wf(v: InterfacesView, k: Index)
    requires
        v.wf(),
        v.arena.contains_key(k),
        v.names.contains_key(v.arena[k].name),
        v.names[v.arena[k].name] == k,
    ensures
        link_removed(v, k).wf(),
        v.names_complete() ==> link_removed(v, k).names_complete(),
{
    let w = link_removed(v, k);
    assert forall|name: Seq<char>| #[trigger] w.names.contains_key(name) implies w.arena.contains_key(w.names[name])
        && w.arena[w.names[name]].name == name by {
        assert(v.names.contains_key(name));
    }
    assert forall|i: u32| #[trigger] w.ifindexes.contains_key(i) implies w.arena.contains_key(w.ifindexes[i])
        && w.arena[w.ifindexes[i]].ifindex == Some(i) by {
        assert(v.ifindexes.contains_key(i));
    }
    assert forall|j: Index| #[trigger] w.arena.contains_key(j) && w.arena[j].ifindex is Some implies w.ifindexes.contains_key(
        w.arena[j].ifindex->0,
    ) && w.ifindexes[w.arena[j].ifindex->0] == j by {
        assert(v.arena.contains_key(j));
    }
    assert forall|j: Index| #[trigger] w.arena.contains_key(j) implies v.arena.contains_key(j) by {}
    if v.names_complete() {
        assert forall|j: Index| #[trigger] w.arena.contains_key(j) implies w.names.contains_key(w.arena[j].name)
            && w.names[w.arena[j].name] == j by {
            assert(v.arena.contains_key(j));
        }
    }
}

// ===== laws =====

/// No two interfaces share an ifindex.
pub proof fn ifindex_is_unique(v: InterfacesView, a: Index, b: Index)
    requires
        v.wf(),
        v.arena.contains_key(a),
        v.arena.contains_key(b),
        v.arena[a].ifindex is Some,
        v.arena[a].ifindex == v.arena[b].ifindex,
    ensures
        a == b,
{
}

/// Every interface stays to be found by its name through all operations, as long
/// as the system gives no interface the name of another one.
pub proof fn names_stay_complete(v: InterfacesView, k: Index, ifname: Seq<char>, link: LinkState)
    requires
        v.wf(),
        v.names_complete(),
        v.arena.contains_key(k),
    ensures
        link_lost(v, k).names_complete(),
        link_removed(v, k).names_complete(),
        update_target(v, ifname, link.ifindex) == Some(k) && (v.names.contains_key(ifname) ==> v.names[ifname] == k)
            ==> link_updated(v, k, ifname, link).names_complete(),
{
    lost_keeps_wf(v, k);
    removed_keeps_wf(v, k);
    if update_target(v, ifname, link.ifindex) == Some(k) {
        updated_keeps_wf(v, k, ifname, link);
    }
}

/// After the system lost an interface that is still configured, nothing of what
/// came from the system is left, neither in it nor in the table of ifindexes.
pub proof fn lost_interface_is_clean(v: InterfacesView, k: Index)
    requires
        v.wf(),
        v.arena.contains_key(k),
    ensures
        ({
            let w = link_lost(v, k);
            let f = w.arena[k];
            &&& f.ifindex is None
            &&& f.mtu is None
            &&& f.flags == InterfaceFlags::none()
            &&& f.addresses == Map::<IpNetwork, InterfaceAddress>::empty()
            &&& !f.owner.system
            &&& f.config == v.arena[k].config
            &&& v.arena[k].ifindex matches Some(i) ==> w.indexed(i) is None
        }),
{
}

/// An interface that comes back with another ifindex is found by the new one
/// and no longer by the old one.
pub proof fn rebinding_moves_ifindex(v: InterfacesView, k: Index, link: LinkState)
    requires
        v.wf(),
        v.arena.contains_key(k),
        v.names.contains_key(v.arena[k].name),
        v.names[v.arena[k].name] == k,
        !v.ifindexes.contains_key(link.ifindex),
    ensures
        ({
            let name = v.arena[k].name;
            let w = link_updated(v, k, name, link);
            &&& update_target(v, name, link.ifindex) == Some(k)
            &&& w.indexed(link.ifindex) == Some(w.arena[k])
            &&& w.named(name) == Some(w.arena[k])
            &&& v.arena[k].ifindex matches Some(i) ==> w.indexed(i) is None
            &&& w.arena[k].config == v.arena[k].config
        }),
{
}

/// The Router ID is unique.
pub proof fn router_id_is_unique(v: InterfacesView, a: Option<Ipv4Addr>, b: Option<Ipv4Addr>)
    requires
        is_router_id(v, a),
        is_router_id(v, b),
    ensures
        a == b,
{
    let loopback = exists|a: Ipv4Addr| #[trigger] offered(v, true, a);
    if let Some(x) = a {
        assert(offered(v, loopback, x));
    }
    if let Some(y) = b {
        assert(offered(v, loopback, y));
    }
}

/// An address of a loopback interface is preferred to any other one.
pub proof fn loopback_preferred(v: InterfacesView, r: Option<Ipv4Addr>, addr: Ipv4Addr)
    requires
        is_router_id(v, r),
        offered(v, true, addr),
    ensures
        r matches Some(a) && offered(v, true, a) && addr <= a,
{
}

} // verus!
