use holo::bfd::client::{SessionKey, State};
use holo::bfd::configuration::{
    apply_master, process_event, Action, ConfigChange, Defaults, DiagnosticCode, Event, IpMhSessionGroupChange,
    IpMhSessionGroupEntryChange, IpShSessionChange, IpShSessionEntryChange, Master,
};
use holo::bfd::error::{rx_bind_failure, Detail, Error, IoError, SystemError};
use holo::bfd::network::{
    bind_step, get_packet_dst, holder_text, no_free_port, rx_error_step, rx_sockaddr, rx_socket_options, rx_step,
    socket_link, tx_socket_options, udp_socket_inode, udp_table, BfdSocketPolicy, BindOutcome, BindStep,
    ControlMessage, PacketInfo, PathType, Received, RxStep, SocketOption,
};
use holo::collections::{OrdSet, Table};
use holo::ip::{AddressFamily, IpAddr, SocketAddr};
use holo::northbound::error::ApplyError;

// A /proc/net/udp excerpt: FRR bfdd's wildcard 0.0.0.0:3784 (0EC8) and its
// Tx socket on 0.0.0.0:49152 (C000).
const PROC_NET_UDP: &str = "  sl  local_address rem_address   st tx_queue rx_queue tr tm->when retrnsmt   uid  timeout inode ref pointer drops\n 3784: 00000000:0EC8 00000000:0000 07 00000000:00000000 00:00000000 00000000     0        0 51423 2 0000000000000000 0\n49152: 00000000:C000 00000000:0000 07 00000000:00000000 00:00000000 00000000     0        0 51424 2 0000000000000000 0\n";

fn contents(text: &str) -> Option<Vec<char>> {
    Some(text.chars().collect())
}

#[test]
fn udp_socket_inode_finds_the_port() {
    let table = contents(PROC_NET_UDP);
    assert_eq!(udp_socket_inode(&table, 3784), Some(51423));
    assert_eq!(udp_socket_inode(&table, 49152), Some(51424));
    assert_eq!(udp_socket_inode(&table, 4784), None);
}

#[test]
fn udp_socket_inode_survives_garbage() {
    assert_eq!(udp_socket_inode(&None, 3784), None);
    assert_eq!(udp_socket_inode(&contents("header\nnonsense\n"), 3784), None);
}

#[test]
fn rx_sockaddr_follows_the_policy() {
    let policy = BfdSocketPolicy { single_hop_port: 3785, ..Default::default() };
    assert_eq!(
        rx_sockaddr(PathType::IpSingleHop, AddressFamily::Ipv4, &policy),
        SocketAddr { ip: IpAddr::V4(0), port: 3785 }
    );
    assert_eq!(
        rx_sockaddr(PathType::IpMultihop, AddressFamily::Ipv6, &policy),
        SocketAddr { ip: IpAddr::V6(0), port: 4784 }
    );
}

// ===== sockets =====

#[test]
fn standard_ports_are_the_default() {
    let policy = BfdSocketPolicy::default();
    assert_eq!(policy.port(PathType::IpSingleHop), 3784);
    assert_eq!(policy.port(PathType::IpMultihop), 4784);
}

#[test]
fn single_hop_sockets_check_the_ttl() {
    assert_eq!(
        rx_socket_options(PathType::IpSingleHop, AddressFamily::Ipv4),
        vec![SocketOption::Ipv4Pktinfo, SocketOption::Ipv4MinTtl(255)]
    );
    assert_eq!(
        rx_socket_options(PathType::IpMultihop, AddressFamily::Ipv6),
        vec![SocketOption::Ipv6Pktinfo]
    );
    assert_eq!(
        tx_socket_options(AddressFamily::Ipv6, 64),
        vec![SocketOption::Ipv6TclassInternetControl, SocketOption::Ipv6UnicastHops(64)]
    );
}

#[test]
fn busy_ports_are_passed_over() {
    assert_eq!(bind_step(49152, BindOutcome::AddrInUse), BindStep::Try(49153));
    assert_eq!(bind_step(49153, BindOutcome::Bound), BindStep::Done);
    assert_eq!(bind_step(65535, BindOutcome::AddrInUse), BindStep::Exhausted);
    assert_eq!(bind_step(50000, BindOutcome::Failed), BindStep::Fail);
    assert_eq!(
        no_free_port(&"10.0.0.1".to_owned(), &"in use".to_owned()),
        "no free BFD source port for 10.0.0.1 in 49152-65535: in use"
    );
}

#[test]
fn the_first_destination_counts() {
    let cmsgs = vec![
        ControlMessage::Other,
        ControlMessage::Ipv4PacketInfo(7),
        ControlMessage::Ipv6PacketInfo(8),
    ];
    assert_eq!(get_packet_dst(&cmsgs), Some(IpAddr::V4(7)));
    assert_eq!(get_packet_dst(&vec![ControlMessage::Other]), None);
}

#[test]
fn packets_are_sorted_out() {
    let src = SocketAddr { ip: IpAddr::V4(1), port: 50000 };
    let good = Received { src: Some(src), dst: Some(IpAddr::V4(2)), src_usable: true, decoded: true };

    match rx_step(PathType::IpMultihop, good) {
        RxStep::Deliver(info) => {
            assert_eq!(info, PacketInfo::IpMultihop { src: IpAddr::V4(1), dst: IpAddr::V4(2), ttl: 255 })
        }
        _ => panic!("packet was not delivered"),
    }
    match rx_step(PathType::IpSingleHop, good) {
        RxStep::Deliver(info) => assert_eq!(info, PacketInfo::IpSingleHop { src }),
        _ => panic!("packet was not delivered"),
    }
    assert!(matches!(
        rx_step(PathType::IpSingleHop, Received { src: None, ..good }),
        RxStep::Stop(IoError::UdpRecvMissingSourceAddr)
    ));
    assert!(matches!(
        rx_step(PathType::IpSingleHop, Received { dst: None, ..good }),
        RxStep::Stop(IoError::UdpRecvMissingAncillaryData)
    ));
    assert!(matches!(
        rx_step(PathType::IpSingleHop, Received { src_usable: false, ..good }),
        RxStep::Reject(Error::UdpInvalidSourceAddr(IpAddr::V4(1)))
    ));
    assert!(matches!(
        rx_step(PathType::IpSingleHop, Received { decoded: false, ..good }),
        RxStep::Skip
    ));
}

#[test]
fn interrupted_receives_are_repeated() {
    let error = || SystemError { text: "gone".to_owned(), sources: vec![] };
    assert!(matches!(rx_error_step(true, error()), RxStep::Skip));
    assert!(matches!(
        rx_error_step(false, error()),
        RxStep::Reject(Error::IoError(IoError::UdpRecvError(_)))
    ));
}

#[test]
fn holders_are_named() {
    let v4 = SocketAddr { ip: IpAddr::V4(0), port: 3784 };
    let v6 = SocketAddr { ip: IpAddr::V6(0), port: 3784 };
    assert_eq!(udp_table(&v4), "/proc/net/udp");
    assert_eq!(udp_table(&v6), "/proc/net/udp6");
    assert_eq!(holder_text(&"bfdd".to_owned(), 1234), "bfdd pid 1234");
    assert_eq!(socket_link(51423), "socket:[51423]");
    assert_eq!(
        rx_bind_failure(&"0.0.0.0:3784".to_owned(), true, Some("bfdd pid 1234".to_owned()), &"busy".to_owned()),
        "bfd: cannot bind udp 0.0.0.0:3784: address in use (held by bfdd pid 1234)"
    );
    assert_eq!(
        rx_bind_failure(&"0.0.0.0:3784".to_owned(), true, None, &"busy".to_owned()),
        "bfd: cannot bind udp 0.0.0.0:3784: address in use (holder unknown)"
    );
    assert_eq!(
        rx_bind_failure(&"0.0.0.0:3784".to_owned(), false, None, &"permission denied".to_owned()),
        "bfd: cannot bind udp 0.0.0.0:3784: permission denied"
    );
}

// ===== errors =====

#[test]
fn bfd_errors_say_what_happened() {
    let error = SystemError { text: "a".to_owned(), sources: vec!["b".to_owned(), "c".to_owned()] };
    let error: Error = IoError::UdpSendError(error).into();
    let record = error.log();
    assert_eq!(record.message, "failed to send UDP packet");
    match record.detail {
        Some(Detail::Error(text)) => assert_eq!(text, "a (b (c))"),
        _ => panic!("detail is missing"),
    }

    assert_eq!(IoError::UdpRecvMissingSourceAddr.message(), "failed to retrieve source address from received packet");
    assert_eq!(
        IoError::UdpRecvMissingAncillaryData.message(),
        "failed to retrieve ancillary data from received packet"
    );
    let plain = || SystemError { text: "x".to_owned(), sources: vec![] };
    assert_eq!(IoError::UdpSocketError(plain()).message(), "failed to create UDP socket");
    assert_eq!(IoError::UdpRecvError(plain()).message(), "failed to receive UDP packet");
    assert_eq!(Error::SessionIdNotFound(3).message(), "session ID not found");
    assert_eq!(Error::UdpInvalidSourceAddr(IpAddr::V4(0)).message(), "invalid source address");
    assert_eq!(Error::UdpPacketDecodeError(plain()).message(), "failed to decode packet");
    assert_eq!(Error::InvalidFlags(1).message(), "received invalid flags");
    assert_eq!(Error::InvalidYourDiscriminator(2).message(), "received invalid Your Discriminator");
    assert_eq!(Error::AuthError.message(), "failed to authenticate packet");
    let info = PacketInfo::IpMultihop { src: IpAddr::V4(1), dst: IpAddr::V4(2), ttl: 255 };
    assert_eq!(Error::SessionNoMatch(info, 9).message(), "failed to find session");
    assert!(matches!(Error::SessionNoMatch(info, 9).log().detail, Some(Detail::Unmatched(i, 9)) if i == info));
}

// ===== configuration =====

fn bfd_master() -> Master {
    let mut interfaces = Table::new();
    interfaces.insert("eth0".to_owned(), 4);
    Master {
        sessions: Table::new(),
        next_index: 0,
        interfaces,
        defaults: Defaults { local_multiplier: 3, min_tx: 1_000_000, min_rx: 1_000_000, admin_down: false },
    }
}

fn single_hop(change: IpShSessionChange) -> ConfigChange {
    ConfigChange::IpShSession { ifname: "eth0".to_owned(), dst: IpAddr::V4(9), change }
}

fn multihop(change: IpMhSessionGroupChange) -> ConfigChange {
    ConfigChange::IpMhSessionGroup { src: IpAddr::V4(1), dst: IpAddr::V4(9), change }
}

#[test]
fn bfd_session_is_created_once() {
    let mut master = bfd_master();
    let mut events = OrdSet::new();
    assert!(apply_master(&mut master, single_hop(IpShSessionChange::Create), &mut events).is_ok());
    assert!(apply_master(
        &mut master,
        single_hop(IpShSessionChange::Entry(IpShSessionEntryChange::LocalMultiplier(5))),
        &mut events
    )
    .is_ok());
    assert!(apply_master(&mut master, single_hop(IpShSessionChange::Create), &mut events).is_ok());

    assert_eq!(master.sessions.len(), 1);
    let session = master.sessions.get(&0).unwrap();
    assert_eq!(session.config.local_multiplier, 5);
    assert!(session.config_enabled);
    assert!(session.key.same(&SessionKey::IpSingleHop { ifname: "eth0".to_owned(), dst: IpAddr::V4(9) }));
    assert!(events.contains(&Event::UpdateRxSockets));
}

#[test]
fn deleted_bfd_session_stays_until_it_is_checked() {
    let mut master = bfd_master();
    let mut events = OrdSet::new();
    apply_master(&mut master, multihop(IpMhSessionGroupChange::Create), &mut events).unwrap();
    apply_master(&mut master, multihop(IpMhSessionGroupChange::Delete), &mut events).unwrap();

    assert!(!master.sessions.get(&0).unwrap().config_enabled);
    assert!(events.contains(&Event::SessionDeleteCheck(0)));
    assert_eq!(process_event(&master, Event::SessionDeleteCheck(0)), Action::DeleteCheck(0));
}

#[test]
fn changes_of_unknown_bfd_sessions_fail() {
    let mut master = bfd_master();
    let mut events = OrdSet::new();
    let change = multihop(IpMhSessionGroupChange::Entry(IpMhSessionGroupEntryChange::TxTtl(7)));
    assert_eq!(apply_master(&mut master, change, &mut events), Err(ApplyError::EntryNotFound));
    assert!(events.is_empty());
    let change = single_hop(IpShSessionChange::Delete);
    assert_eq!(apply_master(&mut master, change, &mut events), Err(ApplyError::EntryNotFound));
}

#[test]
fn admin_down_decides_the_state() {
    let mut master = bfd_master();
    let mut events = OrdSet::new();
    apply_master(&mut master, single_hop(IpShSessionChange::Create), &mut events).unwrap();
    assert_eq!(
        process_event(&master, Event::AdminDownChange(0)),
        Action::StateUpdate(0, State::Down, DiagnosticCode::Nothing)
    );
    let change = single_hop(IpShSessionChange::Entry(IpShSessionEntryChange::AdminDown(true)));
    apply_master(&mut master, change, &mut events).unwrap();
    assert!(events.contains(&Event::AdminDownChange(0)));
    assert_eq!(
        process_event(&master, Event::AdminDownChange(0)),
        Action::StateUpdate(0, State::AdminDown, DiagnosticCode::AdminDown)
    );
}
