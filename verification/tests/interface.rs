use holo::collections::OrdSet;
use holo::interface::configuration::{
    apply_master, netlink_requests, prepare_master, process_event, process_vrrp_start, relay_changes, AddressChange,
    ConfigChange, Event, InterfaceChange, InterfaceEntryChange,
};
use holo::interface::interfaces::{
    Effects, IbusMsg, InterfaceFlags, InterfaceSub, Interfaces, LinkState, NetlinkRequest, Owner, VrrpHandle,
};
use holo::ip::{AddressFamily, IpAddr, IpNetwork};
use holo::northbound::error::ApplyError;

// Returns a set of interfaces holding a single configured interface.
fn setup(ifname: &str) -> Interfaces {
    let mut interfaces = Interfaces::new();
    let mut afs = OrdSet::new();
    afs.insert(AddressFamily::Ipv4);
    afs.insert(AddressFamily::Ipv6);
    interfaces.subscriptions.insert(0, InterfaceSub::new(afs, 1));
    interfaces.add(ifname.to_owned(), true);
    interfaces
}

fn flags_up() -> InterfaceFlags {
    InterfaceFlags { loopback: false, operative: true, broadcast: true }
}

fn up(ifindex: u32) -> LinkState {
    LinkState { ifindex, mtu: 1500, flags: flags_up(), mac_address: 0 }
}

fn eth0() -> String {
    "eth0".to_owned()
}

fn net4(a: u8, b: u8, c: u8, d: u8, plen: u8) -> IpNetwork {
    IpNetwork { addr: IpAddr::V4(u32::from_be_bytes([a, b, c, d])), plen }
}

// Returns the ifindex and flags of the last interface update notification.
fn last_upd(effects: &Effects) -> Option<(Option<u32>, InterfaceFlags)> {
    effects.notes.iter().rev().find_map(|note| match &note.msg {
        IbusMsg::InterfaceUpd { ifindex, flags, .. } => Some((*ifindex, *flags)),
        _ => None,
    })
}

// Returns the ifindex carried by the last interface update notification.
fn last_upd_ifindex(effects: &Effects) -> Option<u32> {
    last_upd(effects).and_then(|(ifindex, _)| ifindex)
}

// Returns the addresses carried by the address removal notifications.
fn addr_dels(effects: &Effects) -> Vec<IpNetwork> {
    effects
        .notes
        .iter()
        .filter_map(|note| match &note.msg {
            IbusMsg::InterfaceAddressDel { addr, .. } => Some(*addr),
            _ => None,
        })
        .collect()
}

#[test]
fn netdev_removal_clears_kernel_state() {
    let mut interfaces = setup("eth0");

    let effects = interfaces.update(eth0(), up(10), true);
    assert_eq!(interfaces.get_by_name(&eth0()).unwrap().ifindex, Some(10));
    assert!(interfaces.get_by_ifindex(10).is_some());
    assert_eq!(last_upd_ifindex(&effects), Some(10));

    let addr4 = net4(10, 0, 0, 1, 24);
    let addr6 = IpNetwork { addr: IpAddr::V6(0x2001_0db8_0000_0000_0000_0000_0000_0001), plen: 64 };
    interfaces.addr_add(10, addr4);
    interfaces.addr_add(10, addr6);

    let effects = interfaces.remove(&eth0(), Owner::system());

    // The interface survives since it's still configured, but all
    // kernel-derived state is gone.
    let iface = interfaces.get_by_name(&eth0()).unwrap();
    assert_eq!(iface.owner, Owner::config());
    assert_eq!(iface.ifindex, None);
    assert_eq!(iface.mtu, None);
    assert_eq!(iface.flags, InterfaceFlags::default());
    assert_eq!(iface.addresses.len(), 0);
    assert!(interfaces.get_by_ifindex(10).is_none());

    // Subscribers are told the interface is no longer operative, and the
    // notification carries the old ifindex, never zero.
    assert_eq!(last_upd(&effects), Some((Some(10), InterfaceFlags::default())));

    // Each address of the interface is withdrawn.
    assert_eq!(addr_dels(&effects), vec![addr4, addr6]);
}

#[test]
fn netdev_recreated_with_new_ifindex() {
    let mut interfaces = setup("eth0");

    interfaces.update(eth0(), up(10), true);
    interfaces.remove(&eth0(), Owner::system());

    let effects = interfaces.update(eth0(), up(11), true);

    let iface = interfaces.get_by_name(&eth0()).unwrap();
    assert_eq!(iface.ifindex, Some(11));
    assert_eq!(iface.owner, Owner { config: true, system: true });
    assert_eq!(interfaces.get_by_ifindex(11).map(|iface| &iface.name), Some(&eth0()));
    assert!(interfaces.get_by_ifindex(10).is_none());

    // The notification carries the new ifindex.
    assert_eq!(last_upd_ifindex(&effects), Some(11));
}

#[test]
fn ifindex_change_without_removal_rebinds() {
    let mut interfaces = setup("eth0");

    interfaces.update(eth0(), up(10), true);
    let effects = interfaces.update(eth0(), up(11), true);

    assert_eq!(interfaces.get_by_name(&eth0()).unwrap().ifindex, Some(11));
    assert_eq!(interfaces.get_by_ifindex(11).map(|iface| &iface.name), Some(&eth0()));
    assert!(interfaces.get_by_ifindex(10).is_none());
    assert_eq!(last_upd_ifindex(&effects), Some(11));
}

#[test]
fn address_installed_on_new_ifindex() {
    let mut interfaces = setup("eth0");

    interfaces.update(eth0(), up(10), true);
    interfaces.remove(&eth0(), Owner::system());
    interfaces.update(eth0(), up(11), true);

    let addr = net4(10, 0, 0, 1, 24);
    interfaces.addr_add(11, addr);

    let iface = interfaces.get_by_name(&eth0()).unwrap();
    assert!(iface.addresses.contains_key(&addr));
}

// The Router ID is the highest address of a loopback interface, or else of any
// interface.
#[test]
fn loopback_addresses_are_preferred() {
    let mut interfaces = setup("eth0");
    interfaces.update(eth0(), up(10), true);
    let effects = interfaces.addr_add(10, net4(192, 0, 2, 1, 24));
    assert_eq!(interfaces.router_id(), Some(u32::from_be_bytes([192, 0, 2, 1])));
    assert!(effects
        .notes
        .iter()
        .any(|note| matches!(note.msg, IbusMsg::InterfaceAddressAdd { .. })));

    let lo = LinkState {
        ifindex: 1,
        mtu: 65536,
        flags: InterfaceFlags { loopback: true, operative: true, broadcast: false },
        mac_address: 0,
    };
    interfaces.update("lo".to_owned(), lo, true);
    interfaces.addr_add(1, net4(1, 1, 1, 1, 32));
    assert_eq!(interfaces.router_id(), Some(u32::from_be_bytes([1, 1, 1, 1])));

    interfaces.addr_del(1, net4(1, 1, 1, 1, 32));
    assert_eq!(interfaces.router_id(), Some(u32::from_be_bytes([192, 0, 2, 1])));
}

// An interface that no one needs any more is gone.
#[test]
fn last_owner_takes_the_interface_along() {
    let mut interfaces = setup("eth0");
    interfaces.update(eth0(), up(10), true);
    interfaces.remove(&eth0(), Owner::config());
    assert!(interfaces.get_by_name(&eth0()).is_some());
    let effects = interfaces.remove(&eth0(), Owner::system());
    assert!(interfaces.get_by_name(&eth0()).is_none());
    assert!(interfaces.get_by_ifindex(10).is_none());
    assert!(effects.notes.iter().any(|note| matches!(note.msg, IbusMsg::InterfaceDel(_))));
    assert_eq!(interfaces.names().len(), 0);
}

// What the kernel says to an interface that was configured before it existed.
#[test]
fn configuration_reaches_a_new_netdev() {
    let mut interfaces = setup("eth0");
    if let Some(iface) = interfaces.get_mut_by_name(&eth0()) {
        iface.config.mtu = Some(9000);
        iface.config.addr_list.insert(IpAddr::V4(u32::from_be_bytes([10, 0, 0, 1])), 24);
    }
    let effects = interfaces.update(eth0(), up(10), true);
    assert!(effects
        .requests
        .iter()
        .any(|request| matches!(request, NetlinkRequest::MtuChange { ifindex: 10, mtu: 9000 })));
    assert!(effects.requests.iter().any(|request| match request {
        NetlinkRequest::AddrInstall { ifindex, addr } => *ifindex == 10 && *addr == net4(10, 0, 0, 1, 24),
        _ => false,
    }));
}

// ===== configuration =====

fn address(change: AddressChange) -> ConfigChange {
    let addr = u32::from_be_bytes([10, 0, 0, 1]);
    ConfigChange::Interface(eth0(), InterfaceChange::Entry(InterfaceEntryChange::Ipv4Address(addr, change)))
}

#[test]
fn new_prefix_length_replaces_the_old_one() {
    let mut interfaces = setup("eth0");
    interfaces.update(eth0(), up(10), true);
    let addr = IpAddr::V4(u32::from_be_bytes([10, 0, 0, 1]));
    let mut events = OrdSet::new();
    apply_master(&mut interfaces, address(AddressChange::Create), &mut events).unwrap();
    assert!(events.is_empty());
    apply_master(&mut interfaces, address(AddressChange::PrefixLength(Some(24))), &mut events).unwrap();
    assert!(events.contains(&Event::AddressInstall(eth0(), addr, 24)));

    let mut events = OrdSet::new();
    apply_master(&mut interfaces, address(AddressChange::PrefixLength(Some(25))), &mut events).unwrap();
    assert_eq!(events.len(), 2);
    assert!(events.contains(&Event::AddressUninstall(eth0(), addr, 24)));
    assert!(events.contains(&Event::AddressInstall(eth0(), addr, 25)));
    let requests = netlink_requests(&interfaces, &Event::AddressInstall(eth0(), addr, 25));
    assert_eq!(requests.len(), 1);
    assert!(matches!(requests[0], NetlinkRequest::AddrInstall { ifindex: 10, addr } if addr == net4(10, 0, 0, 1, 25)));

    apply_master(&mut interfaces, address(AddressChange::Delete), &mut events).unwrap();
    assert_eq!(interfaces.get_by_name(&eth0()).unwrap().config.addr_list.len(), 0);
}

#[test]
fn created_interfaces_start_vrrp() {
    let mut interfaces = Interfaces::new();
    let mut events = OrdSet::new();
    let change = ConfigChange::Interface(eth0(), InterfaceChange::Create);
    prepare_master(&mut interfaces, &change, &mut events, true);
    assert!(events.contains(&Event::VrrpStart(eth0())));
    assert_eq!(interfaces.get_by_name(&eth0()).unwrap().owner, Owner::config());

    apply_master(&mut interfaces, ConfigChange::Interface(eth0(), InterfaceChange::Delete), &mut events).unwrap();
    process_event(&mut interfaces, Event::InterfaceDelete(eth0()));
    assert!(interfaces.get_by_name(&eth0()).is_none());
}

#[test]
fn unknown_interfaces_cannot_be_configured() {
    let mut interfaces = Interfaces::new();
    let mut events = OrdSet::new();
    let change = address(AddressChange::PrefixLength(Some(24)));
    assert_eq!(apply_master(&mut interfaces, change, &mut events), Err(ApplyError::EntryNotFound));
}

#[test]
fn changes_are_relayed_to_their_vrrp_task() {
    let mut interfaces = setup("eth0");
    interfaces.add("eth1".to_owned(), true);
    interfaces.add("eth2".to_owned(), true);
    process_vrrp_start(&mut interfaces, &eth0(), VrrpHandle { nb_tx: 100, ibus_tx: 101 });
    process_vrrp_start(&mut interfaces, &"eth1".to_owned(), VrrpHandle { nb_tx: 200, ibus_tx: 201 });
    let name = |s: &str| Some(s.to_owned());
    let names = vec![name("eth1"), name("eth0"), None, name("eth2"), name("eth1")];
    let mut buckets = relay_changes(&interfaces, &names);
    buckets.sort();
    assert_eq!(buckets, vec![(vec![0, 4], 200), (vec![1], 100)]);
}
