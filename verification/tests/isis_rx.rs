use holo::bfd::client::{ClientCfg, SessionKey, State};
use holo::collections::{OrdSet, Table};
use holo::crypto::CryptoAlgo;
use holo::ip::{AddressFamily, IpAddr, IpNetwork};
use holo::isis::configuration::{
    apply_instance, lsps_to_refresh, process_event, Action, AddressFamilyCfg, Adjacency, AdjacencyAction, AuthCfg,
    AuthMethod, BfdSession, ConfigChange, Defaults, Event, Instance, InstanceCfg, InstanceSys, InterfaceChange,
    InterfaceEntryChange, LspInfo, MetricType, RedistributionCfg, RouteSys,
};
use holo::isis::rx::{
    process_addr_add, process_addr_del, process_bfd_state_update, process_bier_cfg_update, process_hostname_update,
    process_iface_update, process_keychain_update, process_msd_update, process_route_add, process_route_del,
    process_router_id_update, process_sr_cfg_update, AddressMsg, InterfaceUpdateMsg, RouteKeyMsg, RouteMsg,
};
use holo::isis::types::{FloodingAlgo, InterfaceType, LevelNumber, LevelType, RedistributionKey};
use holo::northbound::error::ApplyError;
use holo::northbound::trace::TraceOptionPacketType;
use holo::protocol::Protocol;

fn defaults() -> Defaults {
    Defaults {
        enabled: false,
        level_type: LevelType::All,
        lsp_mtu: 1492,
        lsp_lifetime: 1200,
        lsp_refresh: 900,
        purge_originator: false,
        metric_type: MetricType::Wide,
        default_metric: 10,
        max_paths: 16,
        spf_initial_delay: 50,
        spf_short_delay: 200,
        spf_long_delay: 5000,
        spf_hold_down: 10000,
        spf_time_to_learn: 500,
        preference: 115,
        overload_status: false,
        flooding_algo: FloodingAlgo::ZeroPruner,
        att_suppress: false,
        att_ignore: false,
        sr_enabled: false,
        bier_enabled: false,
        bier_advertise: true,
        bier_receive: true,
        mt_enabled: true,
        mt_default_metric: 10,
        isid_transmit: false,
        isid_receive: false,
        af_enabled: true,
        iface_enabled: true,
        iface_level_type: LevelType::All,
        lsp_pacing_interval: 33,
        lsp_rxmt_interval: 5,
        passive: false,
        csnp_interval: 10,
        csnp_disable: false,
        hello_padding: true,
        interface_type: InterfaceType::Broadcast,
        node_flag: false,
        hello_interval: 9,
        hello_multiplier: 3,
        priority: 64,
        metric: 10,
        bfd_enabled: false,
        bfd_params: ClientCfg { local_multiplier: 3, min_tx: 1_000_000, min_rx: 1_000_000 },
        iface_mt_enabled: true,
        iface_mt_metric: 10,
        trace: TraceOptionPacketType { tx: true, rx: true },
    }
}

fn prefix() -> IpNetwork {
    IpNetwork { addr: IpAddr::V4(u32::from_be_bytes([10, 249, 0, 1])), plen: 32 }
}

// Builds an instance whose IPv4 address family redistributes both static and
// OSPFv2 routes at level 2, holding one redistributed route for `prefix` learned
// from `protocol`.
fn test_instance(prefix: IpNetwork, protocol: Protocol) -> Instance {
    let defaults = defaults();
    let mut instance = Instance {
        config: InstanceCfg::new(&defaults),
        interfaces: Table::new(),
        next_interface: 0,
        system: InstanceSys {
            router_id: None,
            node_msd: Table::new(),
            routes_l1: Table::new(),
            routes_l2: Table::new(),
        },
        keychains: Table::new(),
        hostname: None,
        up: true,
        defaults,
    };
    instance.config.level_type = LevelType::L2;
    let mut af_cfg = AddressFamilyCfg::new(&defaults);
    for protocol in [Protocol::STATIC, Protocol::OSPFV2] {
        af_cfg
            .redistribution
            .insert(RedistributionKey { level: LevelNumber::L2, protocol }, RedistributionCfg {});
    }
    instance.config.afs.insert(AddressFamily::Ipv4, af_cfg);
    instance
        .system
        .routes_l2
        .insert(prefix, RouteSys { protocol, metric: 10, tag: None, opaque_attrs: None });
    instance
}

// The RIB sends a redistribute delete per protocol, but a prefix is held here
// once. When the best route for a prefix changes protocol the RIB sends an add
// for the new protocol followed by a delete for the old one; a delete that
// ignored the protocol would drop the entry the add just installed and withdraw
// the prefix from the LSP.
#[test]
fn route_del_of_another_protocol_keeps_the_route() {
    let prefix = prefix();
    let mut instance = test_instance(prefix, Protocol::OSPFV2);

    process_route_del(&mut instance, RouteKeyMsg { protocol: Protocol::STATIC, prefix, routable: true });

    let route = instance
        .system
        .routes_l2
        .get(&prefix)
        .expect("route of another protocol must not be removed");
    assert_eq!(route.protocol, Protocol::OSPFV2);
}

// The guard must not stop the delete that does own the route.
#[test]
fn route_del_of_the_advertised_protocol_removes_the_route() {
    let prefix = prefix();
    let mut instance = test_instance(prefix, Protocol::OSPFV2);

    process_route_del(&mut instance, RouteKeyMsg { protocol: Protocol::OSPFV2, prefix, routable: true });

    assert!(instance.system.routes_l2.get(&prefix).is_none());
}

#[test]
fn delete_undoes_add_of_a_route() {
    let prefix = prefix();
    let other = IpNetwork { addr: IpAddr::V4(u32::from_be_bytes([10, 1, 0, 0])), plen: 16 };
    let mut instance = test_instance(prefix, Protocol::OSPFV2);
    let msg = RouteMsg {
        protocol: Protocol::STATIC,
        prefix: other,
        routable: true,
        metric: 7,
        tag: Some(1),
        opaque_attrs: None,
    };

    let actions = process_route_add(&mut instance, msg);
    assert_eq!(instance.system.routes_l2.get(&other).map(|route| route.metric), Some(7));
    assert!(instance.system.routes_l1.get(&other).is_none());
    assert_eq!(actions.len(), 1);

    process_route_del(&mut instance, RouteKeyMsg { protocol: Protocol::STATIC, prefix: other, routable: true });
    assert!(instance.system.routes_l2.get(&other).is_none());
    assert!(instance.system.routes_l2.get(&prefix).is_some());
}

// When a route changes protocol, the add comes before the delete.
#[test]
fn protocol_change_keeps_the_new_route() {
    let prefix = prefix();
    let mut instance = test_instance(prefix, Protocol::OSPFV2);
    let msg = RouteMsg {
        protocol: Protocol::STATIC,
        prefix,
        routable: true,
        metric: 3,
        tag: None,
        opaque_attrs: None,
    };

    process_route_add(&mut instance, msg);
    process_route_del(&mut instance, RouteKeyMsg { protocol: Protocol::OSPFV2, prefix, routable: true });

    let route = instance.system.routes_l2.get(&prefix).unwrap();
    assert_eq!(route.protocol, Protocol::STATIC);
    assert_eq!(route.metric, 3);
}

// ===== the system =====

/// An instance with an active interface.
fn with_interface() -> Instance {
    let mut instance = test_instance(prefix(), Protocol::OSPFV2);
    let change = ConfigChange::Interface("eth0".to_owned(), InterfaceChange::Create);
    assert!(apply_instance(&mut instance, change, &mut OrdSet::new()).is_ok());
    if let Some(iface) = instance.interfaces.get_mut(&0) {
        iface.active = true;
    }
    instance
}

fn iface_msg(ifname: &str, mtu: u32) -> InterfaceUpdateMsg {
    InterfaceUpdateMsg {
        ifname: ifname.to_owned(),
        ifindex: 4,
        mtu,
        flags: 1,
        mac_address: 0x0102,
        msd: Table::new(),
    }
}

#[test]
fn values_of_the_system_are_advertised_while_up() {
    let mut instance = with_interface();
    let actions = process_router_id_update(&mut instance, Some(7));
    assert_eq!(instance.system.router_id, Some(7));
    assert!(matches!(&actions[..], [Action::LspOriginate(LevelType::All)]));
    let actions = process_hostname_update(&mut instance, Some("r1".to_owned()));
    assert_eq!(instance.hostname.as_deref(), Some("r1"));
    assert!(matches!(&actions[..], [Action::LspOriginate(LevelType::L2)]));
    let mut msd = Table::new();
    msd.insert(1, 10);
    assert_eq!(process_msd_update(&mut instance, msd).len(), 1);
    assert_eq!(instance.system.node_msd.get(&1), Some(&10));

    // Segment routing and BIER matter where they are enabled.
    assert!(process_sr_cfg_update(&instance).is_empty());
    assert!(process_bier_cfg_update(&instance).is_empty());
    instance.config.sr.enabled = true;
    instance.config.bier.enabled = true;
    assert_eq!(process_sr_cfg_update(&instance).len(), 1);
    assert_eq!(process_bier_cfg_update(&instance).len(), 1);
    instance.config.bier.advertise = false;
    assert!(process_bier_cfg_update(&instance).is_empty());

    instance.up = false;
    assert!(process_router_id_update(&mut instance, None).is_empty());
    assert_eq!(instance.system.router_id, None);
    assert!(process_sr_cfg_update(&instance).is_empty());
}

#[test]
fn padding_follows_the_mtu() {
    let mut instance = with_interface();
    let actions = process_iface_update(&mut instance, iface_msg("eth0", 1500));
    assert!(matches!(
        &actions[..],
        [Action::HelloIntervalStart(0, LevelType::All), Action::InterfaceUpdate(0)]
    ));
    let system = &instance.interfaces.get(&0).unwrap().system;
    assert_eq!((system.ifindex, system.mtu, system.flags), (Some(4), Some(1500), 1));
    let actions = process_iface_update(&mut instance, iface_msg("eth0", 1500));
    assert!(matches!(&actions[..], [Action::InterfaceUpdate(0)]));
    assert!(process_iface_update(&mut instance, iface_msg("eth1", 1500)).is_empty());
}

#[test]
fn addresses_come_and_go() {
    let mut instance = with_interface();
    let msg = |ifname: &str| AddressMsg { ifname: ifname.to_owned(), addr: prefix() };
    let actions = process_addr_add(&mut instance, msg("eth0"));
    assert!(matches!(
        &actions[..],
        [Action::HelloIntervalStart(0, LevelType::All), Action::LspOriginate(LevelType::All)]
    ));
    assert!(instance.interfaces.get(&0).unwrap().system.addr_list.contains(&prefix()));
    if let Some(iface) = instance.interfaces.get_mut(&0) {
        iface.passive = true;
    }
    let actions = process_addr_del(&mut instance, msg("eth0"));
    assert!(matches!(&actions[..], [Action::LspOriginate(LevelType::All)]));
    assert!(instance.interfaces.get(&0).unwrap().system.addr_list.is_empty());
    assert!(process_addr_add(&mut instance, msg("eth1")).is_empty());
}

#[test]
fn adjacencies_go_down_with_their_sessions() {
    let mut instance = with_interface();
    let key = |d: u8| SessionKey::IpSingleHop {
        ifname: "eth0".to_owned(),
        dst: IpAddr::V4(u32::from_be_bytes([10, 0, 0, d])),
    };
    let adjacency = |id, d| Adjacency {
        id,
        bfd: vec![None, Some(BfdSession { sess_key: key(d), state: Some(State::Up) })],
    };
    if let Some(iface) = instance.interfaces.get_mut(&0) {
        iface.adjacencies = vec![adjacency(1, 1), adjacency(2, 2), adjacency(3, 1)];
    }
    assert!(process_bfd_state_update(&mut instance, key(1), State::Up).is_empty());
    let actions = process_bfd_state_update(&mut instance, key(1), State::Down);
    assert!(matches!(
        &actions[..],
        [
            Action::Adjacency(AdjacencyAction::BfdDown, 0, 1),
            Action::Adjacency(AdjacencyAction::BfdDown, 0, 3),
            Action::LspOriginate(LevelType::L2)
        ]
    ));
    let states: Vec<_> = instance
        .interfaces
        .get(&0)
        .unwrap()
        .adjacencies
        .iter()
        .map(|adj| adj.bfd[1].as_ref().and_then(|session| session.state))
        .collect();
    assert_eq!(states, vec![Some(State::Down), Some(State::Up), Some(State::Down)]);
    let multihop = SessionKey::IpMultihop { src: IpAddr::V4(1), dst: IpAddr::V4(2) };
    assert!(process_bfd_state_update(&mut instance, multihop, State::Down).is_empty());
}

#[test]
fn updated_keychains_are_put_in_force() {
    let mut instance = with_interface();
    instance.config.auth.all.keychain = Some("kc".to_owned());
    if let Some(iface) = instance.interfaces.get_mut(&0) {
        iface.config.hello_auth.all.keychain = Some("other".to_owned());
        iface.config.hello_auth.all.key = Some("key".to_owned());
        iface.config.hello_auth.all.algo = Some(CryptoAlgo::HmacSha256);
    }
    let actions = process_keychain_update(&mut instance, "kc".to_owned());
    assert!(matches!(&actions[..], [Action::LspOriginate(LevelType::L2)]));
    assert!(instance.config.auth_resolved.is_none());
    assert!(instance.interfaces.get(&0).unwrap().config.hello_auth_resolved.is_none());
    assert!(process_keychain_update(&mut instance, "other".to_owned()).is_empty());
    assert!(matches!(
        instance.interfaces.get(&0).unwrap().config.hello_auth_resolved,
        Some(AuthMethod::ManualKey(_))
    ));
}

// ===== configuration =====

fn isis_apply(instance: &mut Instance, events: &mut OrdSet<Event>, change: ConfigChange) {
    assert!(apply_instance(instance, change, events).is_ok());
}

#[test]
fn instance_level_is_imposed() {
    let mut instance = test_instance(prefix(), Protocol::OSPFV2);
    let mut events = OrdSet::new();
    instance.config.level_type = LevelType::All;
    isis_apply(
        &mut instance,
        &mut events,
        ConfigChange::Interface("eth0".to_owned(), InterfaceChange::Create),
    );
    assert_eq!(instance.interfaces.get(&0).unwrap().config.level_type.resolved, LevelType::All);
    isis_apply(&mut instance, &mut events, ConfigChange::LevelType(LevelType::L1));
    assert!(events.contains(&Event::InstanceLevelTypeUpdate));
    process_event(&mut instance, Event::InstanceLevelTypeUpdate);
    let level_type = &instance.interfaces.get(&0).unwrap().config.level_type;
    assert_eq!((level_type.explicit, level_type.resolved), (Some(LevelType::All), LevelType::L1));
}

#[test]
fn values_of_one_level_override() {
    let mut instance = test_instance(prefix(), Protocol::OSPFV2);
    let mut events = OrdSet::new();
    isis_apply(&mut instance, &mut events, ConfigChange::DefaultMetricLevel1Value(Some(33)));
    assert_eq!(instance.config.default_metric.l1, Some(33));
    assert_eq!(instance.config.default_metric.all, 10);
    assert_eq!(instance.config.default_metric.get(LevelType::L1), 33);
    assert_eq!(instance.config.default_metric.get(LevelType::L2), 10);
}

#[test]
fn stopped_redistribution_leaves_nothing() {
    let mut instance = test_instance(prefix(), Protocol::OSPFV2);
    let actions =
        process_event(&mut instance, Event::RedistributeDelete(AddressFamily::Ipv4, LevelNumber::L2, Protocol::STATIC));
    assert_eq!(actions.len(), 2);
    assert!(instance.system.routes_l2.get(&prefix()).is_some());
    process_event(&mut instance, Event::RedistributeDelete(AddressFamily::Ipv4, LevelNumber::L2, Protocol::OSPFV2));
    assert!(instance.system.routes_l2.get(&prefix()).is_none());
}

#[test]
fn configured_keys_come_before_keychains() {
    let auth = AuthCfg {
        keychain: Some("kc".to_owned()),
        key: Some("secret".to_owned()),
        key_id: Some(5),
        algo: Some(CryptoAlgo::HmacSha256),
    };
    match auth.method(&Table::new()) {
        Some(AuthMethod::ManualKey(key)) => {
            assert_eq!(key.id, 5);
            assert_eq!(key.string, b"secret".to_vec());
        }
        _ => panic!("key was not used"),
    }
    let auth = AuthCfg { key: None, ..auth };
    assert!(auth.method(&Table::new()).is_none());
}

#[test]
fn unknown_isis_interfaces_cannot_change() {
    let mut instance = test_instance(prefix(), Protocol::OSPFV2);
    let mut events = OrdSet::new();
    let change = InterfaceChange::Entry(InterfaceEntryChange::Passive(true));
    let change = ConfigChange::Interface("eth0".to_owned(), change);
    assert_eq!(apply_instance(&mut instance, change, &mut events), Err(ApplyError::EntryNotFound));
    assert!(events.is_empty());
}

#[test]
fn only_own_lsps_are_refreshed() {
    let lsp = |id, system_id, rem_lifetime| LspInfo { id, system_id, rem_lifetime };
    let lsdb = vec![lsp(1, 7, 100), lsp(2, 8, 100), lsp(3, 7, 0), lsp(4, 7, 1)];
    assert_eq!(lsps_to_refresh(&lsdb, 7), vec![1, 4]);
}

#[test]
fn levels_of_types() {
    assert_eq!(LevelType::All.to_vec(), vec![LevelNumber::L1, LevelNumber::L2]);
    assert_eq!(LevelType::L2.to_vec(), vec![LevelNumber::L2]);
    assert_eq!(LevelNumber::L1.to_level_type(), LevelType::L1);
}
