use holo::bgp::configuration as bgp;
use holo::bgp::intern::AttrSetsCxt;
use holo::bgp::policy::DefaultPolicyType;
use holo::bgp::rib::{Rib, RoutingTable, RoutingTables};
use holo::bgp::types::{DistanceCfg, MultipathCfg, PeerType};
use holo::collections::{OrdSet, Table};
use holo::components::{Bgp, Keychains, Links};
use holo::crypto::DigestSizes;
use holo::interface::configuration as interface;
use holo::interface::interfaces::{Interfaces, Owner};
use holo::ip::{AddressFamily, IpAddr};
use holo::keychain::{self, DateTime, KeyChainChange, KeyChainEntryChange, KeyChainKeyChange, Master};
use holo::northbound::configuration::{
    process_commit, ApplyFailure, ChangeKey, ChangeOp, CommitPhase, LocalChange, Provider,
};
use holo::northbound::error::ApplyError;
use holo::northbound::trace::TraceOptionPacketType;
use holo::prefix_table::PrefixTable;

fn local<P: Provider>(change: P::Change) -> LocalChange<P> {
    LocalChange {
        key: ChangeKey::new("/node".to_owned(), ChangeOp::Create),
        data_path: "/node".to_owned(),
        parsed: Ok(change),
    }
}

/// Takes changes through a whole transaction.
fn commit<P: Provider>(provider: &mut P, changes: Vec<P::Change>) -> Vec<ApplyFailure> {
    let mut pending = vec![];
    let changes = changes.into_iter().map(local).collect();
    assert!(process_commit(provider, CommitPhase::Prepare, changes, &mut pending).is_ok());
    match process_commit(provider, CommitPhase::Apply, vec![], &mut pending) {
        Ok(failures) => failures,
        Err(_) => panic!("transaction failed"),
    }
}

fn table() -> RoutingTable {
    RoutingTable {
        prefixes: PrefixTable::new(),
        queued_prefixes: OrdSet::new(),
        nht: Table::new(),
        prefix_counters: Table::new(),
    }
}

fn bgp_up() -> Bgp {
    let defaults = bgp::Defaults {
        reject_as_sets: false,
        distance: DistanceCfg { external: 20, internal: 200 },
        multipath: MultipathCfg {
            enabled: false,
            ebgp_allow_multiple_as: false,
            ebgp_max_paths: 1,
            ibgp_max_paths: 1,
        },
        policy: DefaultPolicyType::RejectRoute,
        nbr_enabled: true,
        log_neighbor_state_changes: true,
        connect_retry_interval: 30,
        holdtime: 90,
        ebgp_multihop_enabled: false,
        passive_mode: false,
        secure_session_enabled: false,
        nbr_afi_safi_enabled: false,
        trace: TraceOptionPacketType { tx: true, rx: true },
    };
    Bgp {
        instance: bgp::Instance {
            config: bgp::InstanceCfg::new(&defaults),
            neighbors: Table::new(),
            next_index: 0,
            defaults,
        },
        state: Some(bgp::InstanceState {
            rib: Rib {
                attr_sets: AttrSetsCxt::new(),
                tables: RoutingTables { ipv4_unicast: table(), ipv6_unicast: table() },
            },
            listeners: vec![AddressFamily::Ipv6, AddressFamily::Ipv4],
        }),
        actions: vec![],
    }
}

#[test]
fn neighbors_are_configured_in_a_transaction() {
    let addr = IpAddr::V4(0x0a00_0001);
    let other = IpAddr::V4(0x0a00_0002);
    let mut provider = bgp_up();
    let entry = |change| bgp::NeighborChange::Entry(change);
    let failures = commit(
        &mut provider,
        vec![
            bgp::ConfigChange::Neighbor(other, entry(bgp::NeighborEntryChange::Enabled(true))),
            bgp::ConfigChange::Neighbor(addr, bgp::NeighborChange::Create),
            bgp::ConfigChange::Neighbor(addr, entry(bgp::NeighborEntryChange::PeerAs(65001))),
            bgp::ConfigChange::GlobalAs(65000),
        ],
    );
    assert_eq!(failures.len(), 1);
    assert_eq!(failures[0].error, ApplyError::EntryNotFound);
    assert_eq!(provider.instance.config.asn, 65000);
    assert_eq!(provider.instance.neighbors.len(), 1);
    let session = &provider.instance.neighbors.get(&addr).unwrap().session;
    assert_eq!(session.peer_type, PeerType::External);

    // Events are processed in their order, each of them once.
    let reset = bgp::NotificationMsg { error_subcode: bgp::CeaseSubcode::OtherConfigurationChange };
    assert_eq!(provider.actions.len(), 3);
    assert!(matches!(provider.actions[0], bgp::Action::InstanceUpdate));
    assert!(matches!(provider.actions[1], bgp::Action::NeighborFsm(a, bgp::FsmEvent::Start) if a == addr));
    assert!(matches!(
        provider.actions[2],
        bgp::Action::NeighborFsm(a, bgp::FsmEvent::Stop(Some(msg))) if a == addr && msg == reset
    ));

    // A deleted neighbor is taken out of the listening sockets of its family, its
    // session is stopped, and only then does it go.
    provider.actions.clear();
    let failures = commit(&mut provider, vec![bgp::ConfigChange::Neighbor(addr, bgp::NeighborChange::Delete)]);
    assert!(failures.is_empty());
    let gone = bgp::NotificationMsg { error_subcode: bgp::CeaseSubcode::PeerDeConfigured };
    assert_eq!(provider.actions.len(), 3);
    assert!(matches!(
        &provider.actions[0],
        bgp::Action::Md5sigUpdate { listeners, addr: a, key: None } if *listeners == vec![1] && *a == addr
    ));
    assert!(matches!(
        provider.actions[1],
        bgp::Action::NeighborFsm(a, bgp::FsmEvent::Stop(Some(msg))) if a == addr && msg == gone
    ));
    assert!(matches!(provider.actions[2], bgp::Action::NeighborRemove(a) if a == addr));
}

#[test]
fn keychains_are_configured_in_a_transaction() {
    let now = DateTime { secs: 100, nanos: 0, offset: 0 };
    let mut provider = Keychains {
        master: Master {
            keychains: Table::new(),
            digest_sizes: DigestSizes {
                clear_text: 16,
                md5: 16,
                hmac_sha1: 20,
                hmac_sha256: 32,
                hmac_sha384: 48,
                hmac_sha512: 64,
            },
        },
        now,
        actions: vec![],
    };
    let change = |change| keychain::ConfigChange::KeyChain("kc".to_owned(), change);
    let key = KeyChainChange::Entry(KeyChainEntryChange::Key(1, KeyChainKeyChange::Create));
    let failures = commit(&mut provider, vec![change(KeyChainChange::Create), change(key)]);
    assert!(failures.is_empty());
    assert_eq!(provider.actions.len(), 1);
    match &provider.actions[0] {
        keychain::Action::KeychainUpd(keychain) => {
            assert_eq!(keychain.name, "kc");
            assert_eq!(keychain.keys.len(), 1);
        }
        _ => panic!("keychain was not announced"),
    }

    let failures = commit(&mut provider, vec![change(KeyChainChange::Delete)]);
    assert!(failures.is_empty());
    assert!(matches!(provider.actions.last(), Some(keychain::Action::KeychainDel(name)) if name == "kc"));
}

#[test]
fn interfaces_are_created_while_preparing() {
    let mut provider = Links { interfaces: Interfaces::new(), enabled: true, effects: vec![], vrrp: vec![] };
    let change = |change| interface::ConfigChange::Interface("eth0".to_owned(), change);
    let mut pending = vec![];
    let changes = vec![local(change(interface::InterfaceChange::Create))];
    assert!(process_commit(&mut provider, CommitPhase::Prepare, changes, &mut pending).is_ok());
    assert!(provider.interfaces.get_by_name(&"eth0".to_owned()).is_some());
    assert!(process_commit(&mut provider, CommitPhase::Apply, vec![], &mut pending).is_ok());
    let iface = provider.interfaces.get_by_name(&"eth0".to_owned()).unwrap();
    assert_eq!(iface.owner, Owner::config());
    assert!(iface.config.enabled);

    let failures = commit(&mut provider, vec![change(interface::InterfaceChange::Delete)]);
    assert!(failures.is_empty());
    assert!(provider.interfaces.get_by_name(&"eth0".to_owned()).is_none());
}
