use holo::collections::{OrdSet, Table};
use holo::igmp::{
    apply_instance, process_event, Action, ConfigChange, Defaults, Event, Instance, InstanceCfg, InterfaceChange,
    InterfaceEntryChange,
};
use holo::northbound::error::ApplyError;

fn igmp_instance() -> Instance {
    Instance {
        config: InstanceCfg::default(),
        interfaces: Table::new(),
        up: true,
        actions: vec![],
        defaults: Defaults {
            last_member_query_interval: 1,
            query_interval: 125,
            query_max_response_time: 10,
            robustness_variable: 2,
            enabled: false,
        },
    }
}

fn on(name: &str, change: InterfaceChange) -> ConfigChange {
    ConfigChange::Interface(name.to_owned(), change)
}

#[test]
fn igmp_interface_starts_with_the_defaults() {
    let mut instance = igmp_instance();
    let mut events = OrdSet::new();
    assert!(apply_instance(&mut instance, on("eth0", InterfaceChange::Create), &mut events).is_ok());
    let iface = instance.interfaces.get(&"eth0".to_owned()).unwrap();
    assert_eq!(iface.config.query_interval, 125);
    assert_eq!(iface.config.robustness_variable, 2);
    assert!(events.contains(&Event::InterfaceUpdate("eth0".to_owned())));
    assert!(events.contains(&Event::InterfaceIbusSub("eth0".to_owned())));

    process_event(&mut instance, Event::InterfaceUpdate("eth0".to_owned()));
    process_event(&mut instance, Event::InterfaceIbusSub("eth0".to_owned()));
    process_event(&mut instance, Event::InterfaceIbusSub("eth1".to_owned()));
    assert_eq!(instance.actions.len(), 2);
    assert!(matches!(&instance.actions[0], Action::InterfaceUpdate(name) if name == "eth0"));
    assert!(matches!(&instance.actions[1], Action::InterfaceSub(name) if name == "eth0"));
    instance.up = false;
    process_event(&mut instance, Event::InterfaceUpdate("eth0".to_owned()));
    assert_eq!(instance.actions.len(), 2);
}

#[test]
fn igmp_interface_delete_undoes_create() {
    let mut instance = igmp_instance();
    let mut events = OrdSet::new();
    apply_instance(&mut instance, on("eth0", InterfaceChange::Create), &mut events).unwrap();
    apply_instance(&mut instance, on("eth1", InterfaceChange::Create), &mut events).unwrap();
    apply_instance(&mut instance, on("eth0", InterfaceChange::Delete), &mut events).unwrap();
    assert_eq!(instance.interfaces.len(), 1);
    assert!(instance.interfaces.contains_key(&"eth1".to_owned()));
}

#[test]
fn igmp_changes_are_local_to_an_interface() {
    let mut instance = igmp_instance();
    let mut events = OrdSet::new();
    apply_instance(&mut instance, on("eth0", InterfaceChange::Create), &mut events).unwrap();
    apply_instance(&mut instance, on("eth1", InterfaceChange::Create), &mut events).unwrap();
    let change = InterfaceEntryChange::QueryInterval(60);
    apply_instance(&mut instance, on("eth1", InterfaceChange::Entry(change)), &mut events).unwrap();
    assert_eq!(instance.interfaces.get(&"eth0".to_owned()).unwrap().config.query_interval, 125);
    assert_eq!(instance.interfaces.get(&"eth1".to_owned()).unwrap().config.query_interval, 60);
}

#[test]
fn unknown_igmp_interface_cannot_change() {
    let mut instance = igmp_instance();
    let mut events = OrdSet::new();
    let change = on("eth0", InterfaceChange::Entry(InterfaceEntryChange::QueryInterval(60)));
    assert_eq!(apply_instance(&mut instance, change, &mut events), Err(ApplyError::EntryNotFound));
}
