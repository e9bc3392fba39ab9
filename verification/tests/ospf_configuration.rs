use holo::bfd::client::ClientCfg;
use holo::collections::{OrdSet, Table};
use holo::ip::{AddressFamily, IpAddr, IpNetwork};
use holo::northbound::error::ApplyError;
use holo::northbound::trace::TraceOptionPacketType;
use holo::ospf::configuration::{
    apply_instance, process_event, remove_nexthops, validate, vlink_name, Action, AreaChange, AreaEntryChange,
    AreaInterfaceChange, AreaInterfaceEntryChange, AreaRangeChange, AreaType, ConfigChange, Defaults, Event, Instance,
    InstanceCfg, NameNode, Version,
};
use holo::ospf::spf::{InterfaceType, Nexthop, NexthopKey};

fn instance() -> Instance {
    let defaults = Defaults {
        enabled: false,
        preference: 110,
        helper_enabled: true,
        helper_strict_lsa_checking: true,
        max_paths: 16,
        spf_initial_delay: 50,
        spf_short_delay: 200,
        spf_long_delay: 5000,
        spf_hold_down: 10000,
        spf_time_to_learn: 500,
        extended_lsa: false,
        sr_enabled: false,
        instance_id: 0,
        bier_enabled: false,
        bier_advertise: true,
        bier_receive: true,
        area_type: AreaType::Normal,
        area_summary: true,
        area_default_cost: 1,
        range_advertise: true,
        if_type: InterfaceType::Broadcast,
        passive: false,
        priority: 1,
        hello_interval: 10,
        dead_interval: 40,
        retransmit_interval: 5,
        transmit_delay: 1,
        iface_enabled: true,
        cost: 10,
        mtu_ignore: false,
        node_flag: false,
        anycast_flag: false,
        bfd_enabled: false,
        bfd_params: ClientCfg { local_multiplier: 3, min_tx: 1_000_000, min_rx: 1_000_000 },
        lls_enabled: false,
        nbr_poll_interval: 120,
        nbr_priority: 1,
        trace: TraceOptionPacketType { tx: true, rx: true },
    };
    Instance {
        config: InstanceCfg::new(&defaults),
        areas: Table::new(),
        interfaces: Table::new(),
        next_area: 0,
        next_interface: 0,
        version: Version::Ospfv2,
        address_family: AddressFamily::Ipv4,
        system_router_id: Some(1),
        up: true,
        defaults,
    }
}

fn apply(instance: &mut Instance, events: &mut OrdSet<Event>, change: ConfigChange) {
    assert!(apply_instance(instance, change, events).is_ok());
}

fn area(id: u32, change: AreaEntryChange) -> ConfigChange {
    ConfigChange::Area(id, AreaChange::Entry(change))
}

fn iface(id: u32, name: &str, change: AreaInterfaceChange) -> ConfigChange {
    area(id, AreaEntryChange::Interface(name.to_owned(), change))
}

fn with_areas() -> (Instance, OrdSet<Event>) {
    let mut instance = instance();
    let mut events = OrdSet::new();
    for id in [0, 7] {
        apply(&mut instance, &mut events, ConfigChange::Area(id, AreaChange::Create));
    }
    apply(&mut instance, &mut events, iface(0, "eth0", AreaInterfaceChange::Create));
    apply(&mut instance, &mut events, iface(7, "eth1", AreaInterfaceChange::Create));
    (instance, events)
}

#[test]
fn areas_go_with_their_interfaces() {
    let (mut instance, mut events) = with_areas();
    assert!(events.contains(&Event::AreaCreate(0)));
    apply(&mut instance, &mut events, ConfigChange::Area(7, AreaChange::Delete));
    assert!(events.contains(&Event::AreaDelete(1)));
    assert_eq!(instance.areas.len(), 2);
    process_event(&mut instance, Event::AreaDelete(1));
    assert_eq!(instance.areas.len(), 1);
    assert_eq!(instance.interfaces.len(), 1);
    assert_eq!(instance.interfaces.get(&0).unwrap().name, "eth0");
}

#[test]
fn indexes_are_not_used_again() {
    let (mut instance, mut events) = with_areas();
    process_event(&mut instance, Event::AreaDelete(1));
    apply(&mut instance, &mut events, ConfigChange::Area(9, AreaChange::Create));
    assert_eq!(instance.areas.get(&2).map(|area| area.id), Some(9));
    assert!(instance.areas.get(&1).is_none());
}

#[test]
fn interfaces_inherit_the_instance_id() {
    let (mut instance, mut events) = with_areas();
    let change = AreaInterfaceChange::Entry(AreaInterfaceEntryChange::InstanceId(Some(4)));
    apply(&mut instance, &mut events, iface(7, "eth1", change));
    apply(&mut instance, &mut events, ConfigChange::InstanceId(Some(2)));
    assert!(events.contains(&Event::InstanceIdUpdate));
    process_event(&mut instance, Event::InstanceIdUpdate);
    assert_eq!(instance.interfaces.get(&0).unwrap().config.instance_id.resolved, 2);
    assert_eq!(instance.interfaces.get(&1).unwrap().config.instance_id.resolved, 4);
}

#[test]
fn area_types_reset_what_depends_on_them() {
    let (mut instance, mut events) = with_areas();
    apply(&mut instance, &mut events, area(7, AreaEntryChange::AreaType(AreaType::Stub)));
    apply(&mut instance, &mut events, area(7, AreaEntryChange::DefaultCost(Some(30))));
    apply(&mut instance, &mut events, area(7, AreaEntryChange::Summary(Some(false))));
    assert_eq!(instance.areas.get(&1).unwrap().config.default_cost, 30);
    apply(&mut instance, &mut events, area(7, AreaEntryChange::AreaType(AreaType::Nssa)));
    let config = instance.areas.get(&1).unwrap().config;
    assert_eq!((config.area_type, config.summary, config.default_cost), (AreaType::Nssa, true, 1));
    assert!(events.contains(&Event::AreaTypeChange(1)));
}

#[test]
fn ranges_belong_to_their_area() {
    let (mut instance, mut events) = with_areas();
    let range = IpNetwork { addr: IpAddr::V4(0x0a00_0000), plen: 8 };
    apply(&mut instance, &mut events, area(7, AreaEntryChange::Range(range, AreaRangeChange::Create)));
    assert!(instance.areas.get(&1).unwrap().ranges.contains_key(&range));
    assert!(!instance.areas.get(&0).unwrap().ranges.contains_key(&range));
    apply(&mut instance, &mut events, area(7, AreaEntryChange::Range(range, AreaRangeChange::Delete)));
    assert_eq!(instance.areas.get(&1).unwrap().ranges.len(), 0);
}

#[test]
fn unknown_ospf_entries_cannot_change() {
    let (mut instance, mut events) = with_areas();
    let before = events.len();
    let change = area(5, AreaEntryChange::AreaType(AreaType::Stub));
    assert_eq!(apply_instance(&mut instance, change, &mut events), Err(ApplyError::EntryNotFound));
    let change = iface(0, "eth1", AreaInterfaceChange::Entry(AreaInterfaceEntryChange::Cost(3)));
    assert_eq!(apply_instance(&mut instance, change, &mut events), Err(ApplyError::EntryNotFound));
    assert_eq!(events.len(), before);
}

#[test]
fn virtual_links_have_names() {
    assert_eq!(vlink_name(0x0000_0001, 0x0a00_0102), "vlink-0.0.0.1-10.0.1.2");
}

#[test]
fn deleted_interfaces_are_shut_down() {
    let (mut instance, mut events) = with_areas();
    apply(&mut instance, &mut events, iface(0, "eth0", AreaInterfaceChange::Delete));
    assert!(events.contains(&Event::InterfaceDelete(0, 0)));
    let actions = process_event(&mut instance, Event::InterfaceDelete(0, 0));
    assert!(actions.iter().any(|action| matches!(action, Action::InterfaceUnsub(name) if name == "eth0")));
    assert!(actions.iter().any(|action| matches!(action, Action::InterfaceDown(0, 0))));
    assert!(instance.interfaces.get(&0).is_none());
}

#[test]
fn nexthops_go_with_their_interface() {
    let mut nexthops = Table::new();
    for (iface_idx, addr) in [(0, 1), (1, 2), (0, 3)] {
        nexthops.insert(NexthopKey::new(iface_idx, Some(addr)), Nexthop::new(iface_idx, Some(addr), None));
    }
    remove_nexthops(&mut nexthops, 0);
    assert_eq!(nexthops.len(), 1);
    assert_eq!(nexthops.value_at(0).addr, Some(2));
}

#[test]
fn interface_names_must_not_repeat() {
    let node = |path: &str, name: &str| NameNode { path: path.to_owned(), name: name.to_owned() };
    let fine = vec![node("/a", "eth0"), node("/b", "eth1")];
    let bad = vec![node("/c", "eth0"), node("/d", "eth1"), node("/e", "eth1")];
    match validate(&vec![fine, bad]) {
        Err(error) => assert_eq!(error.path, "/e"),
        Ok(()) => panic!("repeated name was accepted"),
    }
    assert!(validate(&vec![vec![node("/a", "x")], vec![node("/b", "x")]]).is_ok());
}
