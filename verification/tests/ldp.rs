use holo::collections::{OrdSet, Table};
use holo::ip::IpAddr;
use holo::ldp::{
    apply_instance, process_event, Action, ConfigChange, Defaults, Event, Instance, InstanceCfg, InterfaceChange,
    InterfaceEntryChange, Neighbor, PeerChange, PeerEntryChange, TargetChange,
};
use holo::northbound::configuration::ConfigOp;
use holo::northbound::error::ApplyError;

fn ldp_instance() -> Instance {
    let defaults = Defaults {
        session_ka_holdtime: 180,
        session_ka_interval: 60,
        interface_hello_holdtime: 15,
        interface_hello_interval: 5,
        targeted_hello_holdtime: 45,
        targeted_hello_interval: 15,
        targeted_hello_accept: false,
        ipv4_enabled: true,
        interface_ipv4_enabled: true,
    };
    Instance {
        config: InstanceCfg::new(&defaults),
        interfaces: Table::new(),
        next_interface: 0,
        tneighbors: Table::new(),
        next_tneighbor: 0,
        neighbors: vec![
            Neighbor { lsr_id: 1, trans_addr: IpAddr::V4(11), existent: true },
            Neighbor { lsr_id: 2, trans_addr: IpAddr::V4(12), existent: false },
        ],
        up: true,
        defaults,
    }
}

fn apply(instance: &mut Instance, events: &mut OrdSet<Event>, change: ConfigChange) {
    assert!(apply_instance(instance, change, events).is_ok());
}

fn iface(change: InterfaceChange) -> ConfigChange {
    ConfigChange::DiscoveryInterfacesInterface("eth0".to_owned(), change)
}

fn target(addr: u32, change: TargetChange) -> ConfigChange {
    ConfigChange::DiscoveryTargetedAddressFamiliesIpv4Target(addr, change)
}

#[test]
fn ldp_hello_timers_reach_all_interfaces() {
    let mut instance = ldp_instance();
    let mut events = OrdSet::new();
    apply(&mut instance, &mut events, iface(InterfaceChange::Create));
    assert!(events.contains(&Event::InterfaceIbusSub("eth0".to_owned())));
    assert!(events.contains(&Event::InterfaceUpdate(0)));
    assert!(events.contains(&Event::CfgSeqNumberUpdate));
    assert_eq!(instance.interfaces.get(&0).unwrap().config.hello_holdtime, 15);

    apply(&mut instance, &mut events, ConfigChange::DiscoveryInterfacesHelloHoldtime(30));
    apply(&mut instance, &mut events, ConfigChange::DiscoveryInterfacesHelloInterval(10));
    assert_eq!(instance.config.interface_hello_holdtime, 30);
    let config = &instance.interfaces.get(&0).unwrap().config;
    assert_eq!((config.hello_holdtime, config.hello_interval), (30, 10));
}

#[test]
fn ldp_interface_goes_with_its_event() {
    let mut instance = ldp_instance();
    let mut events = OrdSet::new();
    apply(&mut instance, &mut events, iface(InterfaceChange::Create));
    let change = InterfaceEntryChange::AddressFamiliesIpv4(ConfigOp::Create);
    apply(&mut instance, &mut events, iface(InterfaceChange::Entry(change)));
    assert!(instance.interfaces.get(&0).unwrap().config.ipv4.is_some());
    apply(&mut instance, &mut events, iface(InterfaceChange::Delete));
    assert!(events.contains(&Event::InterfaceDelete(0)));
    assert_eq!(instance.interfaces.len(), 1);

    if let Some(iface) = instance.interfaces.get_mut(&0) {
        iface.active = true;
    }
    let actions = process_event(&mut instance, Event::InterfaceDelete(0));
    assert_eq!(actions.len(), 2);
    assert!(matches!(&actions[0], Action::InterfaceUnsub(name) if name == "eth0"));
    assert!(matches!(actions[1], Action::InterfaceStop(0)));
    assert_eq!(instance.interfaces.len(), 0);
}

#[test]
fn targets_go_with_targeted_discovery() {
    let mut instance = ldp_instance();
    let mut events = OrdSet::new();
    apply(&mut instance, &mut events, target(9, TargetChange::Create));
    apply(&mut instance, &mut events, target(10, TargetChange::Create));
    apply(&mut instance, &mut events, target(9, TargetChange::Enabled(true)));
    if let Some(tnbr) = instance.tneighbors.get_mut(&1) {
        tnbr.dynamic = true;
    }
    let mut events = OrdSet::new();
    apply(&mut instance, &mut events, ConfigChange::DiscoveryTargetedAddressFamiliesIpv4(ConfigOp::Delete));
    assert!(events.contains(&Event::TargetedNbrRemoveCheck(0)));
    assert!(events.contains(&Event::TargetedNbrRemoveCheck(1)));
    assert!(!instance.tneighbors.get(&0).unwrap().config.enabled);

    process_event(&mut instance, Event::TargetedNbrRemoveCheck(0));
    process_event(&mut instance, Event::TargetedNbrRemoveCheck(1));
    assert!(instance.tneighbors.get(&0).is_none());

    // The other one asked for Hello messages itself.
    assert!(instance.tneighbors.get(&1).is_some());
    let actions = process_event(&mut instance, Event::TargetedNbrRemoveDynamic);
    assert!(matches!(actions[..], [Action::TargetedNbrUpdate(1)]));
    assert!(!instance.tneighbors.get(&1).unwrap().dynamic);
}

#[test]
fn existing_target_is_taken_over() {
    let mut instance = ldp_instance();
    let mut events = OrdSet::new();
    apply(&mut instance, &mut events, target(9, TargetChange::Create));
    apply(&mut instance, &mut events, target(9, TargetChange::Delete));
    assert!(!instance.tneighbors.get(&0).unwrap().configured);
    apply(&mut instance, &mut events, target(9, TargetChange::Create));
    assert_eq!(instance.tneighbors.len(), 1);
    assert!(instance.tneighbors.get(&0).unwrap().configured);
}

#[test]
fn peer_passwords_override() {
    let mut instance = ldp_instance();
    let mut events = OrdSet::new();
    let global = Some("all".to_owned());
    apply(&mut instance, &mut events, ConfigChange::PeersAuthenticationKey(global.clone()));
    assert!(events.contains(&Event::UpdateNeighborsAuth));
    apply(&mut instance, &mut events, ConfigChange::PeersPeer(1, PeerChange::Create));
    assert_eq!(instance.config.get_neighbor_password(1), global);
    let change = PeerChange::Entry(PeerEntryChange::AuthenticationKey(Some("one".to_owned())));
    apply(&mut instance, &mut events, ConfigChange::PeersPeer(1, change));
    assert!(events.contains(&Event::ResetNeighbor(1)));
    assert_eq!(instance.config.get_neighbor_password(1), Some("one".to_owned()));
    assert_eq!(instance.config.get_neighbor_password(2), global);

    let actions = process_event(&mut instance, Event::UpdateNeighborsAuth);
    assert_eq!(actions.len(), 2);
    assert!(matches!(&actions[0], Action::Md5sigUpdate(IpAddr::V4(11), Some(key)) if key == "one"));
    assert!(matches!(&actions[1], Action::Md5sigUpdate(IpAddr::V4(12), Some(key)) if key == "all"));
}

#[test]
fn neighbors_are_reset() {
    let mut instance = ldp_instance();
    let actions = process_event(&mut instance, Event::ResetNeighbors);
    assert!(matches!(
        actions[..],
        [Action::ShutdownSend(1), Action::ConnectStop(1), Action::ConnectStop(2)]
    ));
    let actions = process_event(&mut instance, Event::ResetNeighbor(2));
    assert!(matches!(actions[..], [Action::ConnectStop(2)]));
    assert!(process_event(&mut instance, Event::ResetNeighbor(3)).is_empty());
    instance.up = false;
    assert!(process_event(&mut instance, Event::ResetNeighbors).is_empty());
}

#[test]
fn unknown_ldp_entries_cannot_change() {
    let mut instance = ldp_instance();
    let mut events = OrdSet::new();
    for change in [
        iface(InterfaceChange::Delete),
        target(9, TargetChange::Enabled(false)),
        ConfigChange::PeersPeer(1, PeerChange::Entry(PeerEntryChange::AuthenticationKey(None))),
    ] {
        assert_eq!(apply_instance(&mut instance, change, &mut events), Err(ApplyError::EntryNotFound));
    }
    assert!(events.is_empty());
}

#[test]
fn new_sequence_number_is_announced() {
    let mut instance = ldp_instance();
    let mut events = OrdSet::new();
    apply(&mut instance, &mut events, iface(InterfaceChange::Create));
    apply(&mut instance, &mut events, target(9, TargetChange::Create));
    if let Some(tnbr) = instance.tneighbors.get_mut(&0) {
        tnbr.active = true;
    }
    let actions = process_event(&mut instance, Event::CfgSeqNumberUpdate);
    assert!(matches!(actions[..], [Action::CfgSeqNumberIncrement, Action::TargetedNbrSyncHelloTx(0)]));
}
