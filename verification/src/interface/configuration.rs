//! Configuration of interfaces.

use vstd::prelude::*;

use crate::collections::{flag, push_text_key, text_key, text_key_injective, to_flag, Key, OrdSet, Table};
use crate::interface::interfaces::{
    addrs_valid, config_added, owner_removed, push_request, request_views, vlan_requests, with_keeps_wf, Effects,
    InterfaceView, Interfaces, InterfacesView, NetlinkRequest, NetlinkRequestView, Owner, SenderId, VrrpHandle,
};
use crate::ip::{IpAddr, IpNetwork};
use crate::northbound::error::ApplyError;
use crate::text::opt_text;

verus! {

/// Resources that changes need: none, so none can be made.
#[derive(Debug)]
pub struct Resource(());

/// What is to be done once the configuration is fully updated, in this order.
pub enum Event {
    InterfaceDelete(String),
    AdminStatusChange(String, bool),
    MtuChange(String, u32),
    VlanCreate(String, u16),
    AddressInstall(String, IpAddr, u8),
    AddressUninstall(String, IpAddr, u8),
    VrrpStart(String),
}

pub enum EventView {
    InterfaceDelete(Seq<char>),
    AdminStatusChange(Seq<char>, bool),
    MtuChange(Seq<char>, u32),
    VlanCreate(Seq<char>, u16),
    AddressInstall(Seq<char>, IpAddr, u8),
    AddressUninstall(Seq<char>, IpAddr, u8),
    VrrpStart(Seq<char>),
}

impl View for Event {
    type V = EventView;

    open spec fn view(&self) -> EventView {
        match *self {
            Event::InterfaceDelete(name) => EventView::InterfaceDelete(name@),
            Event::AdminStatusChange(name, a) => EventView::AdminStatusChange(name@, a),
            Event::MtuChange(name, a) => EventView::MtuChange(name@, a),
            Event::VlanCreate(name, a) => EventView::VlanCreate(name@, a),
            Event::AddressInstall(name, a, b) => EventView::AddressInstall(name@, a, b),
            Event::AddressUninstall(name, a, b) => EventView::AddressUninstall(name@, a, b),
            Event::VrrpStart(name) => EventView::VrrpStart(name@),
        }
    }
}

impl EventView {
    pub open spec fn rank(self) -> u128 {
        match self {
            EventView::InterfaceDelete(..) => 0,
            EventView::AdminStatusChange(..) => 1,
            EventView::MtuChange(..) => 2,
            EventView::VlanCreate(..) => 3,
            EventView::AddressInstall(..) => 4,
            EventView::AddressUninstall(..) => 5,
            EventView::VrrpStart(..) => 6,
        }
    }

    /// The interface that the event is about.
    pub open spec fn name(self) -> Seq<char> {
        match self {
            EventView::InterfaceDelete(name) => name,
            EventView::AdminStatusChange(name, _) => name,
            EventView::MtuChange(name, _) => name,
            EventView::VlanCreate(name, _) => name,
            EventView::AddressInstall(name, _, _) => name,
            EventView::AddressUninstall(name, _, _) => name,
            EventView::VrrpStart(name) => name,
        }
    }

    /// The numbers by which events of the same kind on an interface are ordered.
    pub open spec fn args(self) -> Seq<u128> {
        match self {
            EventView::InterfaceDelete(_) => seq![0u128, 0u128, 0u128],
            EventView::AdminStatusChange(_, a) => seq![flag(a), 0u128, 0u128],
            EventView::MtuChange(_, a) => seq![a as u128, 0u128, 0u128],
            EventView::VlanCreate(_, a) => seq![a as u128, 0u128, 0u128],
            EventView::AddressInstall(_, a, b) => seq![a.parts().0, a.parts().1, b as u128],
            EventView::AddressUninstall(_, a, b) => seq![a.parts().0, a.parts().1, b as u128],
            EventView::VrrpStart(_) => seq![0u128, 0u128, 0u128],
        }
    }
}

impl Key for Event {
    open spec fn code(v: EventView) -> Seq<u128> {
        seq![v.rank()] + (text_key(v.name()) + v.args())
    }

    proof fn code_injective(a: EventView, b: EventView) {
        let (x, y) = (Self::code(a), Self::code(b));
        assert(x[0] == a.rank() && y[0] == b.rank());
        assert(x.skip(1) =~= text_key(a.name()) + a.args());
        assert(y.skip(1) =~= text_key(b.name()) + b.args());
        text_key_injective(a.name(), a.args(), b.name(), b.args());
        assert(a.args()[0] == b.args()[0] && a.args()[1] == b.args()[1] && a.args()[2] == b.args()[2]);
    }

    fn to_code(&self) -> Vec<u128> {
        let (rank, name, args): (u128, &String, Vec<u128>) = match self {
            Event::InterfaceDelete(name) => (0, name, vec![0, 0, 0]),
            Event::AdminStatusChange(name, a) => (1, name, vec![to_flag(*a), 0, 0]),
            Event::MtuChange(name, a) => (2, name, vec![*a as u128, 0, 0]),
            Event::VlanCreate(name, a) => (3, name, vec![*a as u128, 0, 0]),
            Event::AddressInstall(name, a, b) => {
                let p = a.to_parts();
                (4, name, vec![p.0, p.1, *b as u128])
            },
            Event::AddressUninstall(name, a, b) => {
                let p = a.to_parts();
                (5, name, vec![p.0, p.1, *b as u128])
            },
            Event::VrrpStart(name) => (6, name, vec![0, 0, 0]),
        };
        assert(args@ =~= self@.args());
        let mut c: Vec<u128> = Vec::new();
        c.push(rank);
        push_text_key(&mut c, name);
        c.push(args[0]);
        c.push(args[1]);
        c.push(args[2]);
        assert(c@ =~= Self::code(self@));
        c
    }

    fn copy_key(&self) -> Event {
        match self {
            Event::InterfaceDelete(name) => Event::InterfaceDelete(name.clone()),
            Event::AdminStatusChange(name, a) => Event::AdminStatusChange(name.clone(), *a),
            Event::MtuChange(name, a) => Event::MtuChange(name.clone(), *a),
            Event::VlanCreate(name, a) => Event::VlanCreate(name.clone(), *a),
            Event::AddressInstall(name, a, b) => Event::AddressInstall(name.clone(), *a, *b),
            Event::AddressUninstall(name, a, b) => Event::AddressUninstall(name.clone(), *a, *b),
            Event::VrrpStart(name) => Event::VrrpStart(name.clone()),
        }
    }
}

// ===== configuration structs =====

pub struct InterfaceCfg {
    pub enabled: bool,
    pub mtu: Option<u32>,
    pub parent: Option<String>,
    pub vlan_id: Option<u16>,
    pub addr_list: Table<IpAddr, u8>,
}

pub struct InterfaceCfgView {
    pub enabled: bool,
    pub mtu: Option<u32>,
    pub parent: Option<Seq<char>>,
    pub vlan_id: Option<u16>,
    pub addr_list: Map<IpAddr, u8>,
}

impl View for InterfaceCfg {
    type V = InterfaceCfgView;

    open spec fn view(&self) -> InterfaceCfgView {
        InterfaceCfgView {
            enabled: self.enabled,
            mtu: self.mtu,
            parent: opt_text(self.parent),
            vlan_id: self.vlan_id,
            addr_list: self.addr_list@,
        }
    }
}

// ===== changes =====

/// Change of an address.
#[derive(Clone, Copy, Debug, PartialEq, Eq, Structural)]
pub enum AddressChange {
    Create,
    Delete,
    PrefixLength(Option<u8>),
}

/// Change within an interface.
pub enum InterfaceEntryChange {
    Description(Option<String>),
    Type(String),
    Ipv4(bool),
    Ipv4Enabled(bool),
    Ipv6(bool),
    Ipv6Enabled(bool),
    Enabled(bool),
    ParentInterface(Option<String>),
    EncapsulationDot1qVlanOuterTagVlanId(u16),
    Ipv4Mtu(Option<u16>),
    Ipv6Mtu(Option<u32>),
    Ipv4Address(u32, AddressChange),
    Ipv6Address(u128, AddressChange),
}

/// Change of an interface.
pub enum InterfaceChange {
    Create,
    Delete,
    Entry(InterfaceEntryChange),
}

/// Change of the configuration.
pub enum ConfigChange {
    Interface(String, InterfaceChange),
}

/// The configuration of an interface and the queued events, after a change of
/// one of its addresses. An address is there once its prefix length is known.
pub open spec fn address_changed(
    c: InterfaceCfgView,
    q: Set<EventView>,
    name: Seq<char>,
    addr: IpAddr,
    change: AddressChange,
) -> (InterfaceCfgView, Set<EventView>) {
    match change {
        AddressChange::Create | AddressChange::PrefixLength(None) => (c, q),
        AddressChange::Delete => (
            InterfaceCfgView { addr_list: c.addr_list.remove(addr), ..c },
            if c.addr_list.contains_key(addr) {
                q.insert(EventView::AddressUninstall(name, addr, c.addr_list[addr]))
            } else {
                q
            },
        ),
        AddressChange::PrefixLength(Some(plen)) => (
            InterfaceCfgView { addr_list: c.addr_list.insert(addr, plen), ..c },
            (if c.addr_list.contains_key(addr) && c.addr_list[addr] != plen {
                q.insert(EventView::AddressUninstall(name, addr, c.addr_list[addr]))
            } else {
                q
            }).insert(EventView::AddressInstall(name, addr, plen)),
        ),
    }
}

fn apply_interface_address(
    cfg: &mut InterfaceCfg,
    ifname: String,
    addr: IpAddr,
    change: AddressChange,
    event_queue: &mut OrdSet<Event>,
)
    requires
        change matches AddressChange::PrefixLength(Some(plen)) ==> (IpNetwork { addr, plen }).valid(),
        addrs_valid(old(cfg)@.addr_list),
    ensures
        (final(cfg)@, final(event_queue)@) == address_changed(old(cfg)@, old(event_queue)@, ifname@, addr, change),
        addrs_valid(final(cfg)@.addr_list),
{
    match change {
        // The address is added to the configuration once its prefix length is
        // known.
        AddressChange::Create => {},
        AddressChange::Delete => {
            let ghost before = cfg.addr_list@;
            if let Some(plen) = cfg.addr_list.remove(&addr) {
                event_queue.insert(Event::AddressUninstall(ifname, addr, plen));
            } else {
                assert(before.remove(addr) =~= before);
            }
        },
        AddressChange::PrefixLength(plen) => {
            let plen: u8 = match plen {
                Some(plen) => plen,
                None => {
                    return;
                },
            };
            let old_plen = cfg.addr_list.insert(addr, plen);
            if let Some(old_plen) = old_plen {
                if old_plen != plen {
                    event_queue.insert(Event::AddressUninstall(ifname.clone(), addr, old_plen));
                }
            }
            event_queue.insert(Event::AddressInstall(ifname, addr, plen));
        },
    }
}

/// The configuration of an interface and the queued events, after a change
/// within it.
pub open spec fn entry_changed(
    c: InterfaceCfgView,
    q: Set<EventView>,
    name: Seq<char>,
    change: InterfaceEntryChange,
) -> (InterfaceCfgView, Set<EventView>) {
    match change {
        InterfaceEntryChange::Enabled(enabled) => (
            InterfaceCfgView { enabled, ..c },
            q.insert(EventView::AdminStatusChange(name, enabled)),
        ),
        InterfaceEntryChange::ParentInterface(parent) => (InterfaceCfgView { parent: opt_text(parent), ..c }, q),
        InterfaceEntryChange::EncapsulationDot1qVlanOuterTagVlanId(vlan_id) => (
            InterfaceCfgView { vlan_id: Some(vlan_id), ..c },
            q.insert(EventView::VlanCreate(name, vlan_id)),
        ),
        InterfaceEntryChange::Ipv4Mtu(None) | InterfaceEntryChange::Ipv6Mtu(None) => (
            InterfaceCfgView { mtu: None, ..c },
            q,
        ),
        InterfaceEntryChange::Ipv4Mtu(Some(mtu)) => (
            InterfaceCfgView { mtu: Some(mtu as u32), ..c },
            q.insert(EventView::MtuChange(name, mtu as u32)),
        ),
        InterfaceEntryChange::Ipv6Mtu(Some(mtu)) => (
            InterfaceCfgView { mtu: Some(mtu), ..c },
            q.insert(EventView::MtuChange(name, mtu)),
        ),
        InterfaceEntryChange::Ipv4Address(addr, change) => address_changed(c, q, name, IpAddr::V4(addr), change),
        InterfaceEntryChange::Ipv6Address(addr, change) => address_changed(c, q, name, IpAddr::V6(addr), change),
        _ => (c, q),
    }
}

/// Whether prefix lengths are ones that the family of the address has.
pub open spec fn entry_valid(change: InterfaceEntryChange) -> bool {
    match change {
        InterfaceEntryChange::Ipv4Address(_, AddressChange::PrefixLength(Some(plen))) => plen <= 32,
        InterfaceEntryChange::Ipv6Address(_, AddressChange::PrefixLength(Some(plen))) => plen <= 128,
        _ => true,
    }
}

fn apply_entry(cfg: &mut InterfaceCfg, ifname: String, change: InterfaceEntryChange, event_queue: &mut OrdSet<Event>)
    requires
        entry_valid(change),
        addrs_valid(old(cfg)@.addr_list),
    ensures
        (final(cfg)@, final(event_queue)@) == entry_changed(old(cfg)@, old(event_queue)@, ifname@, change),
        addrs_valid(final(cfg)@.addr_list),
{
    match change {
        InterfaceEntryChange::Enabled(enabled) => {
            cfg.enabled = enabled;
            event_queue.insert(Event::AdminStatusChange(ifname, enabled));
        },
        InterfaceEntryChange::ParentInterface(parent) => {
            cfg.parent = parent;
        },
        InterfaceEntryChange::EncapsulationDot1qVlanOuterTagVlanId(vlan_id) => {
            cfg.vlan_id = Some(vlan_id);
            event_queue.insert(Event::VlanCreate(ifname, vlan_id));
        },
        InterfaceEntryChange::Ipv4Mtu(mtu) => {
            cfg.mtu = match mtu {
                Some(mtu) => Some(mtu as u32),
                None => None,
            };
            if let Some(mtu) = cfg.mtu {
                event_queue.insert(Event::MtuChange(ifname, mtu));
            }
        },
        InterfaceEntryChange::Ipv6Mtu(mtu) => {
            cfg.mtu = mtu;
            if let Some(mtu) = mtu {
                event_queue.insert(Event::MtuChange(ifname, mtu));
            }
        },
        InterfaceEntryChange::Ipv4Address(addr, change) => {
            apply_interface_address(cfg, ifname, IpAddr::V4(addr), change, event_queue);
        },
        InterfaceEntryChange::Ipv6Address(addr, change) => {
            apply_interface_address(cfg, ifname, IpAddr::V6(addr), change, event_queue);
        },
        // Nothing to do.
        _ => {},
    }
}

/// What the interfaces and the queued events are after a change was prepared.
pub open spec fn interface_prepared(
    v: InterfacesView,
    next: InterfacesView,
    change: ConfigChange,
    events: Set<EventView>,
    next_events: Set<EventView>,
    enabled: bool,
) -> bool {
    match change {
        ConfigChange::Interface(name, InterfaceChange::Create) => {
            &&& next_events == events.insert(EventView::VrrpStart(name@))
            &&& if v.names.contains_key(name@) {
                let k = v.names[name@];
                next == v.with(
                    k,
                    InterfaceView { owner: v.arena[k].owner.with(Owner::of_config()), ..v.arena[k] },
                )
            } else {
                config_added(v, next, name@, enabled)
            }
        },
        _ => next == v && next_events == events,
    }
}

/// Prepares a change. Interfaces are created during the Prepare phase so that
/// VRRP instance configuration can be relayed to the spawned VRRP tasks within
/// the same commit. The last argument says whether interfaces are enabled by
/// default.
pub fn prepare_master(
    interfaces: &mut Interfaces,
    change: &ConfigChange,
    event_queue: &mut OrdSet<Event>,
    enabled: bool,
)
    requires
        old(interfaces)@.wf(),
    ensures
        final(interfaces)@.wf(),
        interface_prepared(
            old(interfaces)@,
            final(interfaces)@,
            *change,
            old(event_queue)@,
            final(event_queue)@,
            enabled,
        ),
{
    if let ConfigChange::Interface(name, InterfaceChange::Create) = change {
        interfaces.add(name.clone(), enabled);
        event_queue.insert(Event::VrrpStart(name.clone()));
    }
}

/// The interfaces and the queued events, after a change of the configuration of
/// one of them. Changes within one that does not exist cannot be applied. One
/// that is to be deleted goes when the queued event is processed.
pub open spec fn interface_changed(
    v: InterfacesView,
    q: Set<EventView>,
    name: Seq<char>,
    change: InterfaceChange,
) -> Option<(InterfacesView, Set<EventView>)> {
    match change {
        InterfaceChange::Create => Some((v, q)),
        InterfaceChange::Delete => Some((v, q.insert(EventView::InterfaceDelete(name)))),
        InterfaceChange::Entry(change) => if v.names.contains_key(name) {
            let k = v.names[name];
            let r = entry_changed(v.arena[k].config, q, name, change);
            Some((v.with(k, InterfaceView { config: r.0, ..v.arena[k] }), r.1))
        } else {
            None
        },
    }
}

/// Whether prefix lengths are ones that the family of the address has.
pub open spec fn change_valid(change: ConfigChange) -> bool {
    match change {
        ConfigChange::Interface(_, InterfaceChange::Entry(change)) => entry_valid(change),
        _ => true,
    }
}

/// Applies a change of the configuration, and queues what is to be done about
/// it.
pub fn apply_master(interfaces: &mut Interfaces, change: ConfigChange, event_queue: &mut OrdSet<Event>) -> (r: Result<
    (),
    ApplyError,
>)
    requires
        old(interfaces)@.wf(),
        change_valid(change),
    ensures
        final(interfaces)@.wf(),
        ({
            let ConfigChange::Interface(name, change) = change;
            match interface_changed(old(interfaces)@, old(event_queue)@, name@, change) {
                Some(s) => r is Ok && (final(interfaces)@, final(event_queue)@) == s,
                None => r == Err::<(), ApplyError>(ApplyError::EntryNotFound) && final(interfaces)@ == old(
                    interfaces,
                )@ && final(event_queue)@ == old(event_queue)@,
            }
        }),
{
    let ConfigChange::Interface(ifname, change) = change;
    match change {
        // Handled during the Prepare phase.
        InterfaceChange::Create => {},
        InterfaceChange::Delete => {
            event_queue.insert(Event::InterfaceDelete(ifname));
        },
        InterfaceChange::Entry(change) => {
            let ghost v = interfaces@;
            match interfaces.get_mut_by_name(&ifname) {
                Some(iface) => {
                    apply_entry(&mut iface.config, ifname, change, event_queue);
                    proof {
                        with_keeps_wf(v, v.names[ifname@], iface@);
                    }
                },
                None => {
                    return Err(ApplyError::EntryNotFound);
                },
            }
        },
    }
    Ok(())
}

// ===== events =====

/// What the kernel is asked for about an interface, if the system has it.
pub open spec fn event_request(e: EventView, ifindex: u32) -> Seq<NetlinkRequestView> {
    match e {
        EventView::AdminStatusChange(_, enabled) => seq![NetlinkRequestView::AdminStatusChange { ifindex, enabled }],
        EventView::MtuChange(_, mtu) => seq![NetlinkRequestView::MtuChange { ifindex, mtu }],
        EventView::AddressInstall(_, addr, plen) => seq![
            NetlinkRequestView::AddrInstall { ifindex, addr: IpNetwork { addr, plen } },
        ],
        EventView::AddressUninstall(_, addr, plen) => seq![
            NetlinkRequestView::AddrUninstall { ifindex, addr: IpNetwork { addr, plen } },
        ],
        _ => Seq::empty(),
    }
}

/// What the kernel is asked for about an event.
pub open spec fn event_requests(v: InterfacesView, e: EventView) -> Seq<NetlinkRequestView> {
    match v.named(e.name()) {
        Some(f) => match e {
            EventView::VlanCreate(_, vlan_id) => vlan_requests(v, f, Some(vlan_id)),
            e => match f.ifindex {
                Some(ifindex) => event_request(e, ifindex),
                None => Seq::empty(),
            },
        },
        None => Seq::empty(),
    }
}

/// Processes a queued event other than the deletion of an interface and the
/// start of VRRP. Returns what the kernel is asked for.
pub fn netlink_requests(interfaces: &Interfaces, event: &Event) -> (requests: Vec<NetlinkRequest>)
    requires
        interfaces@.wf(),
    ensures
        request_views(requests@) == event_requests(interfaces@, event@),
{
    let mut requests: Vec<NetlinkRequest> = Vec::new();
    assert(request_views(requests@) =~= Seq::empty());
    let name = match event {
        Event::InterfaceDelete(name) => name,
        Event::AdminStatusChange(name, _) => name,
        Event::MtuChange(name, _) => name,
        Event::VlanCreate(name, _) => name,
        Event::AddressInstall(name, _, _) => name,
        Event::AddressUninstall(name, _, _) => name,
        Event::VrrpStart(name) => name,
    };
    if let Some(iface) = interfaces.get_by_name(name) {
        if let Event::VlanCreate(_, vlan_id) = event {
            // If the parent interface is active, create VLAN subinterface via
            // netlink.
            interfaces.request_vlan(iface, Some(*vlan_id), &mut requests);
        } else if let Some(ifindex) = iface.ifindex {
            match event {
                Event::AdminStatusChange(_, enabled) => {
                    push_request(&mut requests, NetlinkRequest::AdminStatusChange { ifindex, enabled: *enabled });
                },
                Event::MtuChange(_, mtu) => {
                    push_request(&mut requests, NetlinkRequest::MtuChange { ifindex, mtu: *mtu });
                },
                Event::AddressInstall(_, addr, plen) => {
                    let addr = IpNetwork { addr: *addr, plen: *plen };
                    push_request(&mut requests, NetlinkRequest::AddrInstall { ifindex, addr });
                },
                Event::AddressUninstall(_, addr, plen) => {
                    let addr = IpNetwork { addr: *addr, plen: *plen };
                    push_request(&mut requests, NetlinkRequest::AddrUninstall { ifindex, addr });
                },
                _ => {},
            }
        }
    }
    assert(request_views(requests@) =~= event_requests(interfaces@, event@));
    requests
}

/// The interfaces, after VRRP was started on one of them.
pub open spec fn vrrp_started(v: InterfacesView, name: Seq<char>, vrrp: VrrpHandle) -> InterfacesView {
    if v.names.contains_key(name) {
        let k = v.names[name];
        v.with(k, InterfaceView { vrrp: Some(vrrp), ..v.arena[k] })
    } else {
        v
    }
}

/// Notes the VRRP task that was started on an interface.
pub fn process_vrrp_start(interfaces: &mut Interfaces, ifname: &String, vrrp: VrrpHandle)
    requires
        old(interfaces)@.wf(),
    ensures
        final(interfaces)@.wf(),
        final(interfaces)@ == vrrp_started(old(interfaces)@, ifname@, vrrp),
{
    let ghost v = interfaces@;
    if let Some(iface) = interfaces.get_mut_by_name(ifname) {
        iface.vrrp = Some(vrrp);
        proof {
            with_keeps_wf(v, v.names[ifname@], iface@);
        }
    }
}

/// What the interfaces are after an event was processed, and what is to be sent.
pub open spec fn event_handled(interfaces: Interfaces, next: Interfaces, event: EventView, effects: Effects) -> bool {
    match event {
        EventView::InterfaceDelete(name) => owner_removed(interfaces, next, name, Owner::of_config(), effects),
        e => next@ == interfaces@ && effects.are(Seq::empty(), event_requests(interfaces@, e)),
    }
}

/// Processes a queued event other than the start of VRRP. Returns what is to be
/// sent.
pub fn process_event(interfaces: &mut Interfaces, event: Event) -> (effects: Effects)
    requires
        old(interfaces)@.wf(),
    ensures
        final(interfaces)@.wf(),
        event_handled(*old(interfaces), *final(interfaces), event@, effects),
{
    match event {
        Event::InterfaceDelete(ifname) => interfaces.remove(&ifname, Owner::config()),
        event => {
            let mut effects = Effects::nothing();
            effects.requests = netlink_requests(interfaces, &event);
            effects
        },
    }
}

// ===== relaying =====

/// The VRRP task that changes for an interface go to.
pub open spec fn target_of(v: InterfacesView, name: Seq<char>) -> Option<SenderId> {
    match v.named(name) {
        Some(f) => match f.vrrp {
            Some(vrrp) => Some(vrrp.nb_tx),
            None => None,
        },
        None => None,
    }
}

fn relay_target(interfaces: &Interfaces, ifname: &String) -> (tx: Option<SenderId>)
    requires
        interfaces@.wf(),
    ensures
        tx == target_of(interfaces@, ifname@),
{
    match interfaces.get_by_name(ifname) {
        Some(iface) => match iface.vrrp {
            Some(vrrp) => Some(vrrp.nb_tx),
            None => None,
        },
        None => None,
    }
}

/// Whether the change at that place is for an interface.
pub open spec fn is_for(names: Seq<Option<String>>, name: Seq<char>, j: int) -> bool {
    0 <= j < names.len() && opt_text(names[j]) == Some(name)
}

/// Whether these are the places of the changes for an interface, in order.
pub open spec fn are_places(names: Seq<Option<String>>, name: Seq<char>, places: Seq<usize>) -> bool {
    &&& forall|x: int| 0 <= x < places.len() ==> is_for(names, name, #[trigger] places[x] as int)
    &&& forall|x: int, y: int| 0 <= x < y < places.len() ==> #[trigger] places[x] < #[trigger] places[y]
    &&& forall|j: int| #[trigger] is_for(names, name, j) ==> exists|x: int|
        0 <= x < places.len() && #[trigger] places[x] == j
}

/// Whether the bucket holds the changes for the interface of that name, and goes
/// to its VRRP task.
pub open spec fn is_bucket(
    v: InterfacesView,
    names: Seq<Option<String>>,
    name: Seq<char>,
    bucket: (Vec<usize>, SenderId),
) -> bool {
    &&& target_of(v, name) == Some(bucket.1)
    &&& are_places(names, name, bucket.0@)
    &&& bucket.0@.len() > 0
}

fn places_of(names: &Vec<Option<String>>, name: &String) -> (places: Vec<usize>)
    ensures
        are_places(names@, name@, places@),
{
    let mut places: Vec<usize> = Vec::new();
    let mut j: usize = 0;
    while j < names.len()
        invariant
            j <= names@.len(),
            forall|x: int|
                0 <= x < places@.len() ==> is_for(names@, name@, #[trigger] places@[x] as int) && places@[x] < j,
            forall|x: int, y: int| 0 <= x < y < places@.len() ==> #[trigger] places@[x] < #[trigger] places@[y],
            forall|k: int| #[trigger] is_for(names@, name@, k) && k < j ==> exists|x: int|
                0 <= x < places@.len() && #[trigger] places@[x] == k,
        decreases names@.len() - j,
    {
        let same = match &names[j] {
            Some(n) => *n == *name,
            None => false,
        };
        let ghost before = places@;
        if same {
            places.push(j);
        }
        proof {
            assert forall|k: int| #[trigger] is_for(names@, name@, k) && k < j + 1 implies exists|x: int|
                0 <= x < places@.len() && #[trigger] places@[x] == k by {
                if k < j {
                    let x = choose|x: int| 0 <= x < before.len() && #[trigger] before[x] == k;
                    assert(places@[x] == k);
                } else {
                    assert(places@[before.len() as int] == k);
                }
            }
        }
        j = j + 1;
    }
    places
}

/// Whether an interface of that name stands before.
pub open spec fn seen(names: Seq<Option<String>>, name: Seq<char>, n: int) -> bool {
    exists|j: int| 0 <= j < n && #[trigger] is_for(names, name, j)
}

fn seen_before(names: &Vec<Option<String>>, name: &String, n: usize) -> (b: bool)
    requires
        n <= names@.len(),
    ensures
        b == seen(names@, name@, n as int),
{
    let mut j: usize = 0;
    while j < n
        invariant
            j <= n <= names@.len(),
            forall|k: int| 0 <= k < j ==> !#[trigger] is_for(names@, name@, k),
        decreases n - j,
    {
        let same = match &names[j] {
            Some(x) => *x == *name,
            None => false,
        };
        if same {
            assert(is_for(names@, name@, j as int));
            return true;
        }
        j = j + 1;
    }
    false
}

/// The name in the first change of a bucket.
pub open spec fn bucket_name(names: Seq<Option<String>>, bucket: (Vec<usize>, SenderId)) -> Option<Seq<char>> {
    opt_text(names[bucket.0@[0] as int])
}

/// Sorts changes into buckets by the VRRP tasks that they go to, given the name
/// of the interface that the path of each holds. Changes for interfaces without
/// such a task, or for none, are left out. A bucket holds the places of its
/// changes.
pub fn relay_changes(interfaces: &Interfaces, names: &Vec<Option<String>>) -> (buckets: Vec<(Vec<usize>, SenderId)>)
    requires
        interfaces@.wf(),
    ensures
        forall|i: int|
            0 <= i < buckets@.len() ==> bucket_name(names@, #[trigger] buckets@[i]) is Some && is_bucket(
                interfaces@,
                names@,
                bucket_name(names@, buckets@[i])->0,
                buckets@[i],
            ),
        forall|i: int, k: int|
            0 <= i < k < buckets@.len() ==> bucket_name(names@, #[trigger] buckets@[i]) != bucket_name(
                names@,
                #[trigger] buckets@[k],
            ),
        forall|name: Seq<char>| #[trigger]
            seen(names@, name, names@.len() as int) && target_of(interfaces@, name) is Some ==> exists|i: int|
                0 <= i < buckets@.len() && bucket_name(names@, #[trigger] buckets@[i]) == Some(name),
{
    let mut buckets: Vec<(Vec<usize>, SenderId)> = Vec::new();
    let mut n: usize = 0;
    while n < names.len()
        invariant
            n <= names@.len(),
            interfaces@.wf(),
            forall|i: int|
                0 <= i < buckets@.len() ==> {
                    &&& bucket_name(names@, #[trigger] buckets@[i]) is Some
                    &&& is_bucket(interfaces@, names@, bucket_name(names@, buckets@[i])->0, buckets@[i])
                    &&& seen(names@, bucket_name(names@, buckets@[i])->0, n as int)
                },
            forall|i: int, k: int|
                0 <= i < k < buckets@.len() ==> bucket_name(names@, #[trigger] buckets@[i]) != bucket_name(
                    names@,
                    #[trigger] buckets@[k],
                ),
            forall|name: Seq<char>| #[trigger]
                seen(names@, name, n as int) && target_of(interfaces@, name) is Some ==> exists|i: int|
                    0 <= i < buckets@.len() && bucket_name(names@, #[trigger] buckets@[i]) == Some(name),
        decreases names@.len() - n,
    {
        let ghost before = buckets@;
        if let Some(name) = &names[n] {
            assert(is_for(names@, name@, n as int));
            if !seen_before(names, name, n) {
                if let Some(tx) = relay_target(interfaces, name) {
                    // Move the changes to the appropriate interface bucket.
                    let places = places_of(names, name);
                    proof {
                        let x = choose|x: int| 0 <= x < places@.len() && #[trigger] places@[x] == n;
                        assert(is_for(names@, name@, places@[0] as int));
                    }
                    let bucket = (places, tx);
                    assert(bucket_name(names@, bucket) == Some(name@));
                    buckets.push(bucket);
                    assert(buckets@[before.len() as int] == bucket);
                }
            }
        }
        proof {
            assert forall|name: Seq<char>| seen(names@, name, n as int) implies #[trigger] seen(names@, name, n + 1) by {
                let j = choose|j: int| 0 <= j < n && #[trigger] is_for(names@, name, j);
                assert(is_for(names@, name, j));
            }
            assert forall|i: int| 0 <= i < buckets@.len() implies seen(
                names@,
                bucket_name(names@, #[trigger] buckets@[i])->0,
                n + 1,
            ) by {
                if i < before.len() {
                    assert(buckets@[i] == before[i]);
                    assert(seen(names@, bucket_name(names@, before[i])->0, n as int));
                } else {
                    assert(is_for(names@, bucket_name(names@, buckets@[i])->0, n as int));
                }
            }
            assert forall|name: Seq<char>| #[trigger]
                seen(names@, name, n + 1) && target_of(interfaces@, name) is Some implies exists|i: int|
                0 <= i < buckets@.len() && bucket_name(names@, #[trigger] buckets@[i]) == Some(name) by {
                if seen(names@, name, n as int) {
                    let i = choose|i: int|
                        0 <= i < before.len() && bucket_name(names@, #[trigger] before[i]) == Some(name);
                    assert(buckets@[i] == before[i]);
                } else {
                    let j = choose|j: int| 0 <= j < n + 1 && #[trigger] is_for(names@, name, j);
                    if j < n {
                        assert(seen(names@, name, n as int));
                    }
                    assert(bucket_name(names@, buckets@[before.len() as int]) == Some(name));
                }
            }
        }
        n = n + 1;
    }
    buckets
}

// ===== configuration defaults =====

impl InterfaceCfg {
    /// The values without any configuration. Whether interfaces are then enabled
    /// is up to the schema.
    pub open spec fn initial(enabled: bool) -> InterfaceCfgView {
        InterfaceCfgView { enabled, mtu: None, parent: None, vlan_id: None, addr_list: Map::empty() }
    }

    pub fn new(enabled: bool) -> (r: InterfaceCfg)
        ensures
            r@ == InterfaceCfg::initial(enabled),
    {
        InterfaceCfg { enabled, mtu: None, parent: None, vlan_id: None, addr_list: Table::new() }
    }
}

// ===== laws =====

/// A new prefix length of an address replaces the old one, which is uninstalled.
pub proof fn plen_change_replaces(c: InterfaceCfgView, name: Seq<char>, addr: IpAddr, old_plen: u8, plen: u8)
    requires
        c.addr_list.contains_key(addr),
        c.addr_list[addr] == old_plen,
        old_plen != plen,
    ensures
        ({
            let r = address_changed(c, Set::empty(), name, addr, AddressChange::PrefixLength(Some(plen)));
            &&& r.0.addr_list[addr] == plen
            &&& r.1 == Set::empty().insert(EventView::AddressUninstall(name, addr, old_plen)).insert(
                EventView::AddressInstall(name, addr, plen),
            )
        }),
{
}

/// Deleting an address undoes its addition.
pub proof fn address_delete_undoes_add(c: InterfaceCfgView, q: Set<EventView>, name: Seq<char>, addr: IpAddr, plen: u8)
    requires
        !c.addr_list.contains_key(addr),
    ensures
        ({
            let r = address_changed(c, q, name, addr, AddressChange::PrefixLength(Some(plen)));
            address_changed(r.0, r.1, name, addr, AddressChange::Delete).0 == c
        }),
{
    assert(c.addr_list.insert(addr, plen).remove(addr) =~= c.addr_list);
}

} // verus!
