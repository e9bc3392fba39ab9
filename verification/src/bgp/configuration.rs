//! Configuration of BGP.

use vstd::prelude::*;

use crate::bgp::neighbor::{Session, State};
use crate::bgp::policy::DefaultPolicyType;
use crate::bgp::rib::{Destination, Rib, RouteOrigin, RoutingTable};
use crate::bgp::types::{
    AfiSafi, DistanceCfg, MultipathCfg, PeerIndex, PeerType, RouteSelectionCfg,
};
use crate::collections::{views, views_insert, views_remove, Key, OrdSet, Table};
use crate::ip::{AddressFamily, IpAddr, IpNetwork, Ipv4Addr};
use crate::northbound::configuration::{member, ConfigOp};
use crate::northbound::error::ApplyError;
pub use crate::northbound::trace::TraceOptionPacketType;
use crate::northbound::trace::{
    apply_flag, apply_slot, flag_changed, resolve, resolved, slot_changed, slot_notes, TraceFlagChange,
};
use crate::protocol::Protocol;
use crate::text::{dup_text, opt_text};

verus! {

/// Resources that changes need: none, so none can be made.
#[derive(Debug)]
pub struct Resource(());

/// What is to be done once the configuration is fully updated, in this order.
#[derive(Clone, Copy, Debug, PartialEq, Eq, Structural)]
pub enum Event {
    InstanceUpdate,
    NeighborUpdate(IpAddr),
    NeighborDelete(IpAddr),
    NeighborReset(IpAddr, NotificationMsg),
    NeighborUpdateAuth(IpAddr),
    RedistributeIbusSub(Protocol, AddressFamily),
    RedistributeDelete(Protocol, AddressFamily, AfiSafi),
    UpdateTraceOptions,
}

impl View for Event {
    type V = Event;

    open spec fn view(&self) -> Event {
        *self
    }
}

impl Event {
    pub open spec fn rank(self) -> u128 {
        match self {
            Event::InstanceUpdate => 0,
            Event::NeighborUpdate(..) => 1,
            Event::NeighborDelete(..) => 2,
            Event::NeighborReset(..) => 3,
            Event::NeighborUpdateAuth(..) => 4,
            Event::RedistributeIbusSub(..) => 5,
            Event::RedistributeDelete(..) => 6,
            Event::UpdateTraceOptions => 7,
        }
    }

    /// The numbers by which events of the same kind are ordered.
    pub open spec fn arg(self, i: int) -> u128 {
        match self {
            Event::InstanceUpdate => 0,
            Event::NeighborUpdate(a) => if i == 0 {
                a.parts().0
            } else if i == 1 {
                a.parts().1
            } else {
                0
            },
            Event::NeighborDelete(a) => if i == 0 {
                a.parts().0
            } else if i == 1 {
                a.parts().1
            } else {
                0
            },
            Event::NeighborReset(a, b) => if i == 0 {
                a.parts().0
            } else if i == 1 {
                a.parts().1
            } else if i == 2 {
                b.rank()
            } else {
                0
            },
            Event::NeighborUpdateAuth(a) => if i == 0 {
                a.parts().0
            } else if i == 1 {
                a.parts().1
            } else {
                0
            },
            Event::RedistributeIbusSub(a, b) => if i == 0 {
                a.rank()
            } else if i == 1 {
                b.rank()
            } else {
                0
            },
            Event::RedistributeDelete(a, b, c) => if i == 0 {
                a.rank()
            } else if i == 1 {
                b.rank()
            } else if i == 2 {
                c.rank()
            } else {
                0
            },
            Event::UpdateTraceOptions => 0,
        }
    }
}

impl Key for Event {
    open spec fn code(v: Event) -> Seq<u128> {
        seq![v.rank(), v.arg(0), v.arg(1), v.arg(2)]
    }

    proof fn code_injective(a: Event, b: Event) {
        let (x, y) = (Self::code(a), Self::code(b));
        assert(x[0] == a.rank() && y[0] == b.rank());
        assert(x[1] == a.arg(0) && y[1] == b.arg(0));
        assert(x[2] == a.arg(1) && y[2] == b.arg(1));
        assert(x[3] == a.arg(2) && y[3] == b.arg(2));
    }

    fn to_code(&self) -> Vec<u128> {
        let c: Vec<u128> = match self {
            Event::InstanceUpdate => vec![0, 0, 0, 0],
            Event::NeighborUpdate(a) => {
                let p = a.to_parts();
                vec![1, p.0, p.1, 0]
            },
            Event::NeighborDelete(a) => {
                let p = a.to_parts();
                vec![2, p.0, p.1, 0]
            },
            Event::NeighborReset(a, b) => {
                let p = a.to_parts();
                vec![3, p.0, p.1, b.to_rank()]
            },
            Event::NeighborUpdateAuth(a) => {
                let p = a.to_parts();
                vec![4, p.0, p.1, 0]
            },
            Event::RedistributeIbusSub(a, b) => vec![5, a.to_rank(), b.to_rank(), 0],
            Event::RedistributeDelete(a, b, c) => vec![6, a.to_rank(), b.to_rank(), c.to_rank()],
            Event::UpdateTraceOptions => vec![7, 0, 0, 0],
        };
        assert(c@ =~= Self::code(self@));
        c
    }

    fn copy_key(&self) -> Event {
        *self
    }
}

/// Reasons to close a session for.
#[derive(Clone, Copy, Debug, PartialEq, Eq, Structural)]
pub enum CeaseSubcode {
    AdministrativeShutdown,
    PeerDeConfigured,
    OtherConfigurationChange,
}

/// A NOTIFICATION message that closes a session, with the error code Cease.
#[derive(Clone, Copy, Debug, PartialEq, Eq, Structural)]
pub struct NotificationMsg {
    pub error_subcode: CeaseSubcode,
}

impl NotificationMsg {
    pub open spec fn rank(self) -> u128 {
        match self.error_subcode {
            CeaseSubcode::AdministrativeShutdown => 2,
            CeaseSubcode::PeerDeConfigured => 3,
            CeaseSubcode::OtherConfigurationChange => 6,
        }
    }

    pub fn to_rank(&self) -> (r: u128)
        ensures
            r == self.rank(),
    {
        match self.error_subcode {
            CeaseSubcode::AdministrativeShutdown => 2,
            CeaseSubcode::PeerDeConfigured => 3,
            CeaseSubcode::OtherConfigurationChange => 6,
        }
    }
}

// ===== configuration structs =====

/// Policies that are applied to routes.
pub struct ApplyPolicyCfg {
    pub import_policy: OrdSet<String>,
    pub default_import_policy: DefaultPolicyType,
    pub export_policy: OrdSet<String>,
    pub default_export_policy: DefaultPolicyType,
}

pub struct InstanceCfg {
    pub asn: u32,
    pub identifier: Option<Ipv4Addr>,
    pub distance: DistanceCfg,
    pub multipath: MultipathCfg,
    pub route_selection: RouteSelectionCfg,
    pub apply_policy: ApplyPolicyCfg,
    pub afi_safi: Table<AfiSafi, InstanceAfiSafiCfg>,
    pub reject_as_sets: bool,
    pub trace_opts: InstanceTraceOptions,
}

pub struct InstanceAfiSafiCfg {
    pub enabled: bool,
    pub multipath: MultipathCfg,
    pub route_selection: RouteSelectionCfg,
    pub prefix_limit: PrefixLimitCfg,
    pub send_default_route: bool,
    pub apply_policy: ApplyPolicyCfg,
    pub redistribution: Table<Protocol, RedistributionCfg>,
}

#[derive(Clone, Copy, Debug, PartialEq, Eq, Structural)]
pub struct InstanceTraceOptions {
    pub events: bool,
    pub ibus: bool,
    pub nht: bool,
    pub packets: TraceOptionPacket,
    pub route: bool,
}

pub struct NeighborCfg {
    pub enabled: bool,
    pub peer_as: u32,
    pub local_as: Option<u32>,
    pub private_as_remove: Option<PrivateAsRemove>,
    pub timers: NeighborTimersCfg,
    pub transport: NeighborTransportCfg,
    pub log_neighbor_state_changes: bool,
    pub as_path_options: AsPathOptions,
    pub apply_policy: ApplyPolicyCfg,
    pub prefix_limit: PrefixLimitCfg,
    pub afi_safi: Table<AfiSafi, NeighborAfiSafiCfg>,
    pub trace_opts: NeighborTraceOptions,
}

#[derive(Clone, Copy, Debug, PartialEq, Eq, Structural)]
pub struct NeighborTimersCfg {
    pub connect_retry_interval: u16,
    pub holdtime: u16,
    pub keepalive: Option<u16>,
    pub min_as_orig_interval: Option<u16>,
    pub min_route_adv_interval: Option<u16>,
}

pub struct NeighborTransportCfg {
    pub local_addr: Option<IpAddr>,
    pub tcp_mss: Option<u16>,
    pub ebgp_multihop_enabled: bool,
    pub ebgp_multihop_ttl: Option<u8>,
    pub passive_mode: bool,
    pub ttl_security: Option<u8>,
    pub secure_session_enabled: bool,
    pub md5_key: Option<String>,
}

pub struct NeighborAfiSafiCfg {
    pub enabled: bool,
    pub prefix_limit: PrefixLimitCfg,
    pub send_default_route: bool,
    pub apply_policy: ApplyPolicyCfg,
}

#[derive(Clone, Copy, Debug, PartialEq, Eq, Structural)]
pub struct NeighborTraceOptions {
    pub events: Option<bool>,
    pub events_resolved: bool,
    pub packets: TraceOptionPacket,
    pub packets_resolved: TraceOptionPacketResolved,
}

#[derive(Clone, Copy, Debug, PartialEq, Eq, Structural)]
pub struct PrefixLimitCfg {
    pub max_prefixes: Option<u32>,
    pub warning_threshold_pct: Option<u8>,
    pub teardown: bool,
    pub idle_time: Option<u32>,
}

#[derive(Clone, Copy, Debug, PartialEq, Eq, Structural)]
pub struct RedistributionCfg {}

#[derive(Clone, Copy, Debug, PartialEq, Eq, Structural)]
pub struct AsPathOptions {
    pub allow_own_as: u8,
    pub replace_peer_as: bool,
    pub disable_peer_as_filter: bool,
}

#[derive(Clone, Copy, Debug, PartialEq, Eq, Structural)]
pub struct TraceOptionPacket {
    pub all: Option<TraceOptionPacketType>,
    pub open: Option<TraceOptionPacketType>,
    pub update: Option<TraceOptionPacketType>,
    pub notification: Option<TraceOptionPacketType>,
    pub keepalive: Option<TraceOptionPacketType>,
    pub refresh: Option<TraceOptionPacketType>,
}

#[derive(Clone, Copy, Debug, PartialEq, Eq, Structural)]
pub struct TraceOptionPacketResolved {
    pub open: TraceOptionPacketType,
    pub update: TraceOptionPacketType,
    pub notification: TraceOptionPacketType,
    pub keepalive: TraceOptionPacketType,
    pub refresh: TraceOptionPacketType,
}

#[derive(Clone, Copy, Debug, PartialEq, Eq, Structural)]
pub enum InstanceTraceOption {
    Events,
    InternalBus,
    Nht,
    PacketsAll,
    PacketsOpen,
    PacketsUpdate,
    PacketsNotification,
    PacketsKeepalive,
    PacketsRefresh,
    Route,
}

#[derive(Clone, Copy, Debug, PartialEq, Eq, Structural)]
pub enum NeighborTraceOption {
    Events,
    PacketsAll,
    PacketsOpen,
    PacketsUpdate,
    PacketsNotification,
    PacketsKeepalive,
    PacketsRefresh,
}

#[derive(Clone, Copy, Debug, PartialEq, Eq, Structural)]
pub enum PrivateAsRemove {
    RemoveAll,
    ReplaceAll,
}

// ===== views =====

pub struct ApplyPolicyCfgView {
    pub import_policy: Set<Seq<char>>,
    pub default_import_policy: DefaultPolicyType,
    pub export_policy: Set<Seq<char>>,
    pub default_export_policy: DefaultPolicyType,
}

impl View for ApplyPolicyCfg {
    type V = ApplyPolicyCfgView;

    open spec fn view(&self) -> ApplyPolicyCfgView {
        ApplyPolicyCfgView {
            import_policy: self.import_policy@,
            default_import_policy: self.default_import_policy,
            export_policy: self.export_policy@,
            default_export_policy: self.default_export_policy,
        }
    }
}

pub struct InstanceCfgView {
    pub asn: u32,
    pub identifier: Option<Ipv4Addr>,
    pub distance: DistanceCfg,
    pub multipath: MultipathCfg,
    pub route_selection: RouteSelectionCfg,
    pub apply_policy: ApplyPolicyCfgView,
    pub afi_safi: Map<AfiSafi, InstanceAfiSafiCfgView>,
    pub reject_as_sets: bool,
    pub trace_opts: InstanceTraceOptions,
}

impl View for InstanceCfg {
    type V = InstanceCfgView;

    open spec fn view(&self) -> InstanceCfgView {
        InstanceCfgView {
            asn: self.asn,
            identifier: self.identifier,
            distance: self.distance,
            multipath: self.multipath,
            route_selection: self.route_selection,
            apply_policy: self.apply_policy@,
            afi_safi: views(self.afi_safi@),
            reject_as_sets: self.reject_as_sets,
            trace_opts: self.trace_opts,
        }
    }
}

pub struct InstanceAfiSafiCfgView {
    pub enabled: bool,
    pub multipath: MultipathCfg,
    pub route_selection: RouteSelectionCfg,
    pub prefix_limit: PrefixLimitCfg,
    pub send_default_route: bool,
    pub apply_policy: ApplyPolicyCfgView,
    pub redistribution: Map<Protocol, RedistributionCfg>,
}

impl View for InstanceAfiSafiCfg {
    type V = InstanceAfiSafiCfgView;

    open spec fn view(&self) -> InstanceAfiSafiCfgView {
        InstanceAfiSafiCfgView {
            enabled: self.enabled,
            multipath: self.multipath,
            route_selection: self.route_selection,
            prefix_limit: self.prefix_limit,
            send_default_route: self.send_default_route,
            apply_policy: self.apply_policy@,
            redistribution: self.redistribution@,
        }
    }
}

pub struct NeighborCfgView {
    pub enabled: bool,
    pub peer_as: u32,
    pub local_as: Option<u32>,
    pub private_as_remove: Option<PrivateAsRemove>,
    pub timers: NeighborTimersCfg,
    pub transport: NeighborTransportCfgView,
    pub log_neighbor_state_changes: bool,
    pub as_path_options: AsPathOptions,
    pub apply_policy: ApplyPolicyCfgView,
    pub prefix_limit: PrefixLimitCfg,
    pub afi_safi: Map<AfiSafi, NeighborAfiSafiCfgView>,
    pub trace_opts: NeighborTraceOptions,
}

impl View for NeighborCfg {
    type V = NeighborCfgView;

    open spec fn view(&self) -> NeighborCfgView {
        NeighborCfgView {
            enabled: self.enabled,
            peer_as: self.peer_as,
            local_as: self.local_as,
            private_as_remove: self.private_as_remove,
            timers: self.timers,
            transport: self.transport@,
            log_neighbor_state_changes: self.log_neighbor_state_changes,
            as_path_options: self.as_path_options,
            apply_policy: self.apply_policy@,
            prefix_limit: self.prefix_limit,
            afi_safi: views(self.afi_safi@),
            trace_opts: self.trace_opts,
        }
    }
}

pub struct NeighborTransportCfgView {
    pub local_addr: Option<IpAddr>,
    pub tcp_mss: Option<u16>,
    pub ebgp_multihop_enabled: bool,
    pub ebgp_multihop_ttl: Option<u8>,
    pub passive_mode: bool,
    pub ttl_security: Option<u8>,
    pub secure_session_enabled: bool,
    pub md5_key: Option<Seq<char>>,
}

impl View for NeighborTransportCfg {
    type V = NeighborTransportCfgView;

    open spec fn view(&self) -> NeighborTransportCfgView {
        NeighborTransportCfgView {
            local_addr: self.local_addr,
            tcp_mss: self.tcp_mss,
            ebgp_multihop_enabled: self.ebgp_multihop_enabled,
            ebgp_multihop_ttl: self.ebgp_multihop_ttl,
            passive_mode: self.passive_mode,
            ttl_security: self.ttl_security,
            secure_session_enabled: self.secure_session_enabled,
            md5_key: opt_text(self.md5_key),
        }
    }
}

pub struct NeighborAfiSafiCfgView {
    pub enabled: bool,
    pub prefix_limit: PrefixLimitCfg,
    pub send_default_route: bool,
    pub apply_policy: ApplyPolicyCfgView,
}

impl View for NeighborAfiSafiCfg {
    type V = NeighborAfiSafiCfgView;

    open spec fn view(&self) -> NeighborAfiSafiCfgView {
        NeighborAfiSafiCfgView {
            enabled: self.enabled,
            prefix_limit: self.prefix_limit,
            send_default_route: self.send_default_route,
            apply_policy: self.apply_policy@,
        }
    }
}

/// A neighbor and its configuration.
pub struct Neighbor {
    pub session: Session,
    pub config: NeighborCfg,
}

pub struct NeighborView {
    pub session: Session,
    pub config: NeighborCfgView,
}

impl View for Neighbor {
    type V = NeighborView;

    open spec fn view(&self) -> NeighborView {
        NeighborView { session: self.session, config: self.config@ }
    }
}

/// What an instance has while it is up.
pub struct InstanceState {
    pub rib: Rib,
    /// The address family of each listening socket.
    pub listeners: Vec<AddressFamily>,
}

/// A BGP instance, as far as its configuration goes.
pub struct Instance {
    pub config: InstanceCfg,
    pub neighbors: Table<IpAddr, Neighbor>,
    /// The number that the next new neighbor gets.
    pub next_index: PeerIndex,
    /// Defaults of the schema.
    pub defaults: Defaults,
}

pub struct InstanceView {
    pub config: InstanceCfgView,
    pub neighbors: Map<IpAddr, NeighborView>,
    pub next_index: PeerIndex,
    pub defaults: Defaults,
}

impl View for Instance {
    type V = InstanceView;

    open spec fn view(&self) -> InstanceView {
        InstanceView {
            config: self.config@,
            neighbors: views(self.neighbors@),
            next_index: self.next_index,
            defaults: self.defaults,
        }
    }
}

// ===== configuration defaults =====

/// Default values that the schema gives.
#[derive(Clone, Copy, Debug, PartialEq, Eq, Structural)]
pub struct Defaults {
    pub reject_as_sets: bool,
    pub distance: DistanceCfg,
    pub multipath: MultipathCfg,
    pub policy: DefaultPolicyType,
    pub nbr_enabled: bool,
    pub log_neighbor_state_changes: bool,
    pub connect_retry_interval: u16,
    pub holdtime: u16,
    pub ebgp_multihop_enabled: bool,
    pub passive_mode: bool,
    pub secure_session_enabled: bool,
    pub nbr_afi_safi_enabled: bool,
    pub trace: TraceOptionPacketType,
}

impl RouteSelectionCfg {
    /// The values without any configuration.
    pub open spec fn initial() -> RouteSelectionCfg {
        RouteSelectionCfg {
            always_compare_med: false,
            ignore_as_path_length: false,
            external_compare_router_id: true,
            ignore_next_hop_igp_metric: false,
            enable_med: false,
        }
    }
}

impl Default for RouteSelectionCfg {
    fn default() -> (r: RouteSelectionCfg)
        ensures
            r == RouteSelectionCfg::initial(),
    {
        RouteSelectionCfg {
            always_compare_med: false,
            ignore_as_path_length: false,
            external_compare_router_id: true,
            ignore_next_hop_igp_metric: false,
            enable_med: false,
        }
    }
}

impl PrefixLimitCfg {
    /// The values without any configuration.
    pub open spec fn initial() -> PrefixLimitCfg {
        PrefixLimitCfg {
            max_prefixes: None,
            warning_threshold_pct: None,
            teardown: false,
            idle_time: None,
        }
    }
}

impl Default for PrefixLimitCfg {
    fn default() -> (r: PrefixLimitCfg)
        ensures
            r == PrefixLimitCfg::initial(),
    {
        PrefixLimitCfg {
            max_prefixes: None,
            warning_threshold_pct: None,
            teardown: false,
            idle_time: None,
        }
    }
}

impl AsPathOptions {
    /// The values without any configuration.
    pub open spec fn initial() -> AsPathOptions {
        AsPathOptions {
            allow_own_as: 0,
            replace_peer_as: false,
            disable_peer_as_filter: false,
        }
    }
}

impl Default for AsPathOptions {
    fn default() -> (r: AsPathOptions)
        ensures
            r == AsPathOptions::initial(),
    {
        AsPathOptions {
            allow_own_as: 0,
            replace_peer_as: false,
            disable_peer_as_filter: false,
        }
    }
}

impl TraceOptionPacket {
    /// The values without any configuration.
    pub open spec fn initial() -> TraceOptionPacket {
        TraceOptionPacket {
            all: None,
            open: None,
            update: None,
            notification: None,
            keepalive: None,
            refresh: None,
        }
    }
}

impl Default for TraceOptionPacket {
    fn default() -> (r: TraceOptionPacket)
        ensures
            r == TraceOptionPacket::initial(),
    {
        TraceOptionPacket {
            all: None,
            open: None,
            update: None,
            notification: None,
            keepalive: None,
            refresh: None,
        }
    }
}

impl TraceOptionPacketResolved {
    /// The values without any configuration.
    pub open spec fn initial() -> TraceOptionPacketResolved {
        TraceOptionPacketResolved {
            open: TraceOptionPacketType { tx: false, rx: false },
            update: TraceOptionPacketType { tx: false, rx: false },
            notification: TraceOptionPacketType { tx: false, rx: false },
            keepalive: TraceOptionPacketType { tx: false, rx: false },
            refresh: TraceOptionPacketType { tx: false, rx: false },
        }
    }
}

impl Default for TraceOptionPacketResolved {
    fn default() -> (r: TraceOptionPacketResolved)
        ensures
            r == TraceOptionPacketResolved::initial(),
    {
        TraceOptionPacketResolved {
            open: TraceOptionPacketType { tx: false, rx: false },
            update: TraceOptionPacketType { tx: false, rx: false },
            notification: TraceOptionPacketType { tx: false, rx: false },
            keepalive: TraceOptionPacketType { tx: false, rx: false },
            refresh: TraceOptionPacketType { tx: false, rx: false },
        }
    }
}

impl InstanceTraceOptions {
    /// The values without any configuration.
    pub open spec fn initial() -> InstanceTraceOptions {
        InstanceTraceOptions {
            events: false,
            ibus: false,
            nht: false,
            packets: TraceOptionPacket::initial(),
            route: false,
        }
    }
}

impl Default for InstanceTraceOptions {
    fn default() -> (r: InstanceTraceOptions)
        ensures
            r == InstanceTraceOptions::initial(),
    {
        InstanceTraceOptions {
            events: false,
            ibus: false,
            nht: false,
            packets: TraceOptionPacket::default(),
            route: false,
        }
    }
}

impl NeighborTraceOptions {
    /// The values without any configuration.
    pub open spec fn initial() -> NeighborTraceOptions {
        NeighborTraceOptions {
            events: None,
            events_resolved: false,
            packets: TraceOptionPacket::initial(),
            packets_resolved: TraceOptionPacketResolved::initial(),
        }
    }
}

impl Default for NeighborTraceOptions {
    fn default() -> (r: NeighborTraceOptions)
        ensures
            r == NeighborTraceOptions::initial(),
    {
        NeighborTraceOptions {
            events: None,
            events_resolved: false,
            packets: TraceOptionPacket::default(),
            packets_resolved: TraceOptionPacketResolved::default(),
        }
    }
}

impl ApplyPolicyCfg {
    /// The values without any configuration.
    pub open spec fn initial(d: Defaults) -> ApplyPolicyCfgView {
        ApplyPolicyCfgView {
            import_policy: Set::empty(),
            default_import_policy: d.policy,
            export_policy: Set::empty(),
            default_export_policy: d.policy,
        }
    }

    pub fn new(d: &Defaults) -> (r: ApplyPolicyCfg)
        ensures
            r@ == ApplyPolicyCfg::initial(*d),
    {
        ApplyPolicyCfg {
            import_policy: OrdSet::new(),
            default_import_policy: d.policy,
            export_policy: OrdSet::new(),
            default_export_policy: d.policy,
        }
    }
}

impl InstanceCfg {
    /// The values without any configuration.
    pub open spec fn initial(d: Defaults) -> InstanceCfgView {
        InstanceCfgView {
            asn: 0,
            identifier: None,
            distance: d.distance,
            multipath: d.multipath,
            route_selection: RouteSelectionCfg::initial(),
            apply_policy: ApplyPolicyCfg::initial(d),
            afi_safi: Map::empty(),
            reject_as_sets: d.reject_as_sets,
            trace_opts: InstanceTraceOptions::initial(),
        }
    }

    pub fn new(d: &Defaults) -> (r: InstanceCfg)
        ensures
            r@ == InstanceCfg::initial(*d),
    {
        let r = InstanceCfg {
            asn: 0,
            identifier: None,
            distance: d.distance,
            multipath: d.multipath,
            route_selection: RouteSelectionCfg::default(),
            apply_policy: ApplyPolicyCfg::new(d),
            afi_safi: Table::new(),
            reject_as_sets: d.reject_as_sets,
            trace_opts: InstanceTraceOptions::default(),
        };
        assert(r@.afi_safi =~= Map::empty());
        r
    }
}

impl InstanceAfiSafiCfg {
    /// The values without any configuration.
    pub open spec fn initial(d: Defaults) -> InstanceAfiSafiCfgView {
        InstanceAfiSafiCfgView {
            enabled: false,
            multipath: d.multipath,
            route_selection: RouteSelectionCfg::initial(),
            prefix_limit: PrefixLimitCfg::initial(),
            send_default_route: false,
            apply_policy: ApplyPolicyCfg::initial(d),
            redistribution: Map::empty(),
        }
    }

    pub fn new(d: &Defaults) -> (r: InstanceAfiSafiCfg)
        ensures
            r@ == InstanceAfiSafiCfg::initial(*d),
    {
        InstanceAfiSafiCfg {
            enabled: false,
            multipath: d.multipath,
            route_selection: RouteSelectionCfg::default(),
            prefix_limit: PrefixLimitCfg::default(),
            send_default_route: false,
            apply_policy: ApplyPolicyCfg::new(d),
            redistribution: Table::new(),
        }
    }
}

impl NeighborCfg {
    /// The values without any configuration.
    pub open spec fn initial(d: Defaults) -> NeighborCfgView {
        NeighborCfgView {
            enabled: d.nbr_enabled,
            peer_as: 0,
            local_as: None,
            private_as_remove: None,
            timers: NeighborTimersCfg::initial(d),
            transport: NeighborTransportCfg::initial(d),
            log_neighbor_state_changes: d.log_neighbor_state_changes,
            as_path_options: AsPathOptions::initial(),
            apply_policy: ApplyPolicyCfg::initial(d),
            prefix_limit: PrefixLimitCfg::initial(),
            afi_safi: Map::empty(),
            trace_opts: NeighborTraceOptions::initial(),
        }
    }

    pub fn new(d: &Defaults) -> (r: NeighborCfg)
        ensures
            r@ == NeighborCfg::initial(*d),
    {
        let r = NeighborCfg {
            enabled: d.nbr_enabled,
            peer_as: 0,
            local_as: None,
            private_as_remove: None,
            timers: NeighborTimersCfg::new(d),
            transport: NeighborTransportCfg::new(d),
            log_neighbor_state_changes: d.log_neighbor_state_changes,
            as_path_options: AsPathOptions::default(),
            apply_policy: ApplyPolicyCfg::new(d),
            prefix_limit: PrefixLimitCfg::default(),
            afi_safi: Table::new(),
            trace_opts: NeighborTraceOptions::default(),
        };
        assert(r@.afi_safi =~= Map::empty());
        r
    }
}

impl NeighborTimersCfg {
    /// The values without any configuration.
    pub open spec fn initial(d: Defaults) -> NeighborTimersCfg {
        NeighborTimersCfg {
            connect_retry_interval: d.connect_retry_interval,
            holdtime: d.holdtime,
            keepalive: None,
            min_as_orig_interval: None,
            min_route_adv_interval: None,
        }
    }

    pub fn new(d: &Defaults) -> (r: NeighborTimersCfg)
        ensures
            r == NeighborTimersCfg::initial(*d),
    {
        NeighborTimersCfg {
            connect_retry_interval: d.connect_retry_interval,
            holdtime: d.holdtime,
            keepalive: None,
            min_as_orig_interval: None,
            min_route_adv_interval: None,
        }
    }
}

impl NeighborTransportCfg {
    /// The values without any configuration.
    pub open spec fn initial(d: Defaults) -> NeighborTransportCfgView {
        NeighborTransportCfgView {
            local_addr: None,
            tcp_mss: None,
            ebgp_multihop_enabled: d.ebgp_multihop_enabled,
            ebgp_multihop_ttl: None,
            passive_mode: d.passive_mode,
            ttl_security: None,
            secure_session_enabled: d.secure_session_enabled,
            md5_key: None,
        }
    }

    pub fn new(d: &Defaults) -> (r: NeighborTransportCfg)
        ensures
            r@ == NeighborTransportCfg::initial(*d),
    {
        NeighborTransportCfg {
            local_addr: None,
            tcp_mss: None,
            ebgp_multihop_enabled: d.ebgp_multihop_enabled,
            ebgp_multihop_ttl: None,
            passive_mode: d.passive_mode,
            ttl_security: None,
            secure_session_enabled: d.secure_session_enabled,
            md5_key: None,
        }
    }
}

impl NeighborAfiSafiCfg {
    /// The values without any configuration.
    pub open spec fn initial(d: Defaults) -> NeighborAfiSafiCfgView {
        NeighborAfiSafiCfgView {
            enabled: d.nbr_afi_safi_enabled,
            prefix_limit: PrefixLimitCfg::initial(),
            send_default_route: false,
            apply_policy: ApplyPolicyCfg::initial(d),
        }
    }

    pub fn new(d: &Defaults) -> (r: NeighborAfiSafiCfg)
        ensures
            r@ == NeighborAfiSafiCfg::initial(*d),
    {
        NeighborAfiSafiCfg {
            enabled: d.nbr_afi_safi_enabled,
            prefix_limit: PrefixLimitCfg::default(),
            send_default_route: false,
            apply_policy: ApplyPolicyCfg::new(d),
        }
    }
}

// ===== changes =====

/// Change within an address family of the instance.
pub enum GlobalAfiSafiEntryChange {
    Enabled(bool),
    RouteSelectionOptionsAlwaysCompareMed(bool),
    RouteSelectionOptionsIgnoreAsPathLength(bool),
    RouteSelectionOptionsExternalCompareRouterId(bool),
    RouteSelectionOptionsIgnoreNextHopIgpMetric(bool),
    RouteSelectionOptionsEnableMed(bool),
    UseMultiplePathsEnabled(bool),
    UseMultiplePathsEbgpAllowMultipleAs(bool),
    UseMultiplePathsEbgpMaximumPaths(u32),
    UseMultiplePathsIbgpMaximumPaths(u32),
    ApplyPolicyImportPolicy(ConfigOp, String),
    ApplyPolicyDefaultImportPolicy(DefaultPolicyType),
    ApplyPolicyExportPolicy(ConfigOp, String),
    ApplyPolicyDefaultExportPolicy(DefaultPolicyType),
    Ipv4UnicastPrefixLimitMaxPrefixes(Option<u32>),
    Ipv6UnicastPrefixLimitMaxPrefixes(Option<u32>),
    Ipv4UnicastPrefixLimitWarningThresholdPct(Option<u8>),
    Ipv6UnicastPrefixLimitWarningThresholdPct(Option<u8>),
    Ipv4UnicastPrefixLimitTeardown(bool),
    Ipv6UnicastPrefixLimitTeardown(bool),
    Ipv4UnicastPrefixLimitIdleTime(Option<u32>),
    Ipv6UnicastPrefixLimitIdleTime(Option<u32>),
    Ipv4UnicastSendDefaultRoute(bool),
    Ipv6UnicastSendDefaultRoute(bool),
    Ipv4UnicastRedistribution(Protocol, ConfigOp),
    Ipv6UnicastRedistribution(Protocol, ConfigOp),
}

/// Change of an address family of the instance.
pub enum GlobalAfiSafiChange {
    Create,
    Delete,
    Entry(GlobalAfiSafiEntryChange),
}

/// Change within an address family of a neighbor.
pub enum NeighborAfiSafiEntryChange {
    Enabled(bool),
    ApplyPolicyImportPolicy(ConfigOp, String),
    ApplyPolicyDefaultImportPolicy(DefaultPolicyType),
    ApplyPolicyExportPolicy(ConfigOp, String),
    ApplyPolicyDefaultExportPolicy(DefaultPolicyType),
    Ipv4UnicastPrefixLimitMaxPrefixes(Option<u32>),
    Ipv6UnicastPrefixLimitMaxPrefixes(Option<u32>),
    Ipv4UnicastPrefixLimitWarningThresholdPct(Option<u8>),
    Ipv6UnicastPrefixLimitWarningThresholdPct(Option<u8>),
    Ipv4UnicastPrefixLimitTeardown(bool),
    Ipv6UnicastPrefixLimitTeardown(bool),
    Ipv4UnicastPrefixLimitIdleTime(Option<u32>),
    Ipv6UnicastPrefixLimitIdleTime(Option<u32>),
    Ipv4UnicastSendDefaultRoute(bool),
    Ipv6UnicastSendDefaultRoute(bool),
}

/// Change of an address family of a neighbor.
pub enum NeighborAfiSafiChange {
    Create,
    Delete,
    Entry(NeighborAfiSafiEntryChange),
}

/// Change within a neighbor.
pub enum NeighborEntryChange {
    Enabled(bool),
    LocalAs(Option<u32>),
    RemovePrivateAs(Option<PrivateAsRemove>),
    Description(String),
    TimersConnectRetryInterval(u16),
    TimersHoldTime(u16),
    TimersKeepalive(Option<u16>),
    TimersMinAsOriginationInterval(Option<u16>),
    TimersMinRouteAdvertisementInterval(Option<u16>),
    TransportLocalAddress(Option<IpAddr>),
    TransportTcpMss(Option<u16>),
    TransportEbgpMultihopEnabled(bool),
    TransportEbgpMultihopMultihopTtl(Option<u8>),
    TransportPassiveMode(bool),
    TransportTtlSecurity(u8),
    TransportSecureSessionEnabled(bool),
    TransportSecureSessionOptionsMd5KeyString(Option<String>),
    LoggingOptionsLogNeighborStateChanges(bool),
    AsPathOptionsAllowOwnAs(u8),
    AsPathOptionsReplacePeerAs(bool),
    AsPathOptionsDisablePeerAsFilter(bool),
    ApplyPolicyImportPolicy(ConfigOp, String),
    ApplyPolicyDefaultImportPolicy(DefaultPolicyType),
    ApplyPolicyExportPolicy(ConfigOp, String),
    ApplyPolicyDefaultExportPolicy(DefaultPolicyType),
    PrefixLimitMaxPrefixes(Option<u32>),
    PrefixLimitWarningThresholdPct(Option<u8>),
    PrefixLimitTeardown(bool),
    PrefixLimitIdleTime(Option<u32>),
    PeerAs(u32),
    AfiSafi(AfiSafi, NeighborAfiSafiChange),
    TraceOptionsFlag(NeighborTraceOption, TraceFlagChange),
}

/// Change of a neighbor.
pub enum NeighborChange {
    Create,
    Delete,
    Entry(NeighborEntryChange),
}

/// Change of the configuration of an instance.
pub enum ConfigChange {
    Global(ConfigOp),
    GlobalAs(u32),
    GlobalIdentifier(Option<Ipv4Addr>),
    GlobalDistanceExternal(u8),
    GlobalDistanceInternal(u8),
    GlobalUseMultiplePathsEnabled(bool),
    GlobalUseMultiplePathsEbgpAllowMultipleAs(bool),
    GlobalUseMultiplePathsEbgpMaximumPaths(u32),
    GlobalUseMultiplePathsIbgpMaximumPaths(u32),
    GlobalRouteSelectionOptionsAlwaysCompareMed(bool),
    GlobalRouteSelectionOptionsIgnoreAsPathLength(bool),
    GlobalRouteSelectionOptionsExternalCompareRouterId(bool),
    GlobalRouteSelectionOptionsIgnoreNextHopIgpMetric(bool),
    GlobalRouteSelectionOptionsEnableMed(bool),
    GlobalApplyPolicyImportPolicy(ConfigOp, String),
    GlobalApplyPolicyDefaultImportPolicy(DefaultPolicyType),
    GlobalApplyPolicyExportPolicy(ConfigOp, String),
    GlobalApplyPolicyDefaultExportPolicy(DefaultPolicyType),
    GlobalRejectAsSets(bool),
    GlobalAfiSafi(AfiSafi, GlobalAfiSafiChange),
    GlobalTraceOptionsFlag(InstanceTraceOption, TraceFlagChange),
    Neighbor(IpAddr, NeighborChange),
}

// ===== trace options =====

/// Kinds of packets that have a trace option.
#[derive(Clone, Copy, Debug, PartialEq, Eq, Structural)]
pub enum PacketKind {
    All,
    Open,
    Update,
    Notification,
    Keepalive,
    Refresh,
}

/// The options on packets, after a change of one of them.
#[verifier::opaque]
pub open spec fn packets_changed(
    p: TraceOptionPacket,
    kind: PacketKind,
    change: TraceFlagChange,
    dflt: TraceOptionPacketType,
) -> TraceOptionPacket {
    match kind {
        PacketKind::All => TraceOptionPacket { all: slot_changed(p.all, change, dflt), ..p },
        PacketKind::Open => TraceOptionPacket { open: slot_changed(p.open, change, dflt), ..p },
        PacketKind::Update => TraceOptionPacket { update: slot_changed(p.update, change, dflt), ..p },
        PacketKind::Notification => TraceOptionPacket { notification: slot_changed(p.notification, change, dflt), ..p },
        PacketKind::Keepalive => TraceOptionPacket { keepalive: slot_changed(p.keepalive, change, dflt), ..p },
        PacketKind::Refresh => TraceOptionPacket { refresh: slot_changed(p.refresh, change, dflt), ..p },
    }
}

/// The option on packets of one kind.
pub open spec fn packet_slot(p: TraceOptionPacket, kind: PacketKind) -> Option<TraceOptionPacketType> {
    match kind {
        PacketKind::All => p.all,
        PacketKind::Open => p.open,
        PacketKind::Update => p.update,
        PacketKind::Notification => p.notification,
        PacketKind::Keepalive => p.keepalive,
        PacketKind::Refresh => p.refresh,
    }
}

fn apply_packets(
    p: &mut TraceOptionPacket,
    kind: PacketKind,
    change: &TraceFlagChange,
    dflt: TraceOptionPacketType,
) -> (notes: bool)
    ensures
        *final(p) == packets_changed(*old(p), kind, *change, dflt),
        notes == slot_notes(packet_slot(*old(p), kind), *change),
{
    reveal(packets_changed);
    match kind {
        PacketKind::All => apply_slot(&mut p.all, change, dflt),
        PacketKind::Open => apply_slot(&mut p.open, change, dflt),
        PacketKind::Update => apply_slot(&mut p.update, change, dflt),
        PacketKind::Notification => apply_slot(&mut p.notification, change, dflt),
        PacketKind::Keepalive => apply_slot(&mut p.keepalive, change, dflt),
        PacketKind::Refresh => apply_slot(&mut p.refresh, change, dflt),
    }
}

impl InstanceTraceOption {
    /// The kind of packets that the option is about, if any.
    pub open spec fn packets(self) -> Option<PacketKind> {
        match self {
            InstanceTraceOption::PacketsAll => Some(PacketKind::All),
            InstanceTraceOption::PacketsOpen => Some(PacketKind::Open),
            InstanceTraceOption::PacketsUpdate => Some(PacketKind::Update),
            InstanceTraceOption::PacketsNotification => Some(PacketKind::Notification),
            InstanceTraceOption::PacketsKeepalive => Some(PacketKind::Keepalive),
            InstanceTraceOption::PacketsRefresh => Some(PacketKind::Refresh),
            _ => None,
        }
    }

    fn packet_kind(&self) -> (r: Option<PacketKind>)
        ensures
            r == self.packets(),
    {
        match self {
            InstanceTraceOption::PacketsAll => Some(PacketKind::All),
            InstanceTraceOption::PacketsOpen => Some(PacketKind::Open),
            InstanceTraceOption::PacketsUpdate => Some(PacketKind::Update),
            InstanceTraceOption::PacketsNotification => Some(PacketKind::Notification),
            InstanceTraceOption::PacketsKeepalive => Some(PacketKind::Keepalive),
            InstanceTraceOption::PacketsRefresh => Some(PacketKind::Refresh),
            _ => None,
        }
    }
}

/// The trace options of an instance, after a change of one of them.
pub open spec fn trace_options_changed(
    c: InstanceTraceOptions,
    option: InstanceTraceOption,
    change: TraceFlagChange,
    dflt: TraceOptionPacketType,
) -> InstanceTraceOptions {
    match option.packets() {
        Some(kind) => InstanceTraceOptions { packets: packets_changed(c.packets, kind, change, dflt), ..c },
        None => match option {
            InstanceTraceOption::Events => InstanceTraceOptions { events: flag_changed(c.events, change), ..c },
            InstanceTraceOption::InternalBus => InstanceTraceOptions { ibus: flag_changed(c.ibus, change), ..c },
            InstanceTraceOption::Nht => InstanceTraceOptions { nht: flag_changed(c.nht, change), ..c },
            InstanceTraceOption::Route => InstanceTraceOptions { route: flag_changed(c.route, change), ..c },
            _ => c,
        },
    }
}

/// Whether a change of one of the options has an effect to announce.
pub open spec fn trace_options_notes(
    c: InstanceTraceOptions,
    option: InstanceTraceOption,
    change: TraceFlagChange,
) -> bool {
    match option.packets() {
        Some(kind) => slot_notes(packet_slot(c.packets, kind), change),
        None => !(change is Entry),
    }
}

fn apply_trace_options(
    c: &mut InstanceTraceOptions,
    option: InstanceTraceOption,
    change: &TraceFlagChange,
    dflt: TraceOptionPacketType,
) -> (notes: bool)
    ensures
        *final(c) == trace_options_changed(*old(c), option, *change, dflt),
        notes == trace_options_notes(*old(c), option, *change),
{
    if let Some(kind) = option.packet_kind() {
        return apply_packets(&mut c.packets, kind, change, dflt);
    }
    match option {
        InstanceTraceOption::Events => apply_flag(&mut c.events, change),
        InstanceTraceOption::InternalBus => apply_flag(&mut c.ibus, change),
        InstanceTraceOption::Nht => apply_flag(&mut c.nht, change),
        InstanceTraceOption::Route => apply_flag(&mut c.route, change),
        _ => false,
    }
}

/// An option that is on or left to the instance, after a change.
#[verifier::opaque]
pub open spec fn opt_flag_changed(flag: Option<bool>, change: TraceFlagChange) -> Option<bool> {
    match change {
        TraceFlagChange::Create => Some(true),
        TraceFlagChange::Delete => None,
        TraceFlagChange::Entry(_) => flag,
    }
}

fn apply_opt_flag(flag: &mut Option<bool>, change: &TraceFlagChange) -> (notes: bool)
    ensures
        *final(flag) == opt_flag_changed(*old(flag), *change),
        notes == !(change is Entry),
{
    reveal(opt_flag_changed);
    match change {
        TraceFlagChange::Create => {
            *flag = Some(true);
            true
        },
        TraceFlagChange::Delete => {
            *flag = None;
            true
        },
        TraceFlagChange::Entry(_) => false,
    }
}

impl NeighborTraceOption {
    /// The kind of packets that the option is about, if any.
    pub open spec fn packets(self) -> Option<PacketKind> {
        match self {
            NeighborTraceOption::PacketsAll => Some(PacketKind::All),
            NeighborTraceOption::PacketsOpen => Some(PacketKind::Open),
            NeighborTraceOption::PacketsUpdate => Some(PacketKind::Update),
            NeighborTraceOption::PacketsNotification => Some(PacketKind::Notification),
            NeighborTraceOption::PacketsKeepalive => Some(PacketKind::Keepalive),
            NeighborTraceOption::PacketsRefresh => Some(PacketKind::Refresh),
            _ => None,
        }
    }

    fn packet_kind(&self) -> (r: Option<PacketKind>)
        ensures
            r == self.packets(),
    {
        match self {
            NeighborTraceOption::PacketsAll => Some(PacketKind::All),
            NeighborTraceOption::PacketsOpen => Some(PacketKind::Open),
            NeighborTraceOption::PacketsUpdate => Some(PacketKind::Update),
            NeighborTraceOption::PacketsNotification => Some(PacketKind::Notification),
            NeighborTraceOption::PacketsKeepalive => Some(PacketKind::Keepalive),
            NeighborTraceOption::PacketsRefresh => Some(PacketKind::Refresh),
            _ => None,
        }
    }
}

/// The trace options of a neighbor, after a change of one of them.
pub open spec fn neighbor_trace_options_changed(
    c: NeighborTraceOptions,
    option: NeighborTraceOption,
    change: TraceFlagChange,
    dflt: TraceOptionPacketType,
) -> NeighborTraceOptions {
    match option.packets() {
        Some(kind) => NeighborTraceOptions { packets: packets_changed(c.packets, kind, change, dflt), ..c },
        None => match option {
            NeighborTraceOption::Events => NeighborTraceOptions { events: opt_flag_changed(c.events, change), ..c },
            _ => c,
        },
    }
}

/// Whether a change of one of the options has an effect to announce.
pub open spec fn neighbor_trace_options_notes(
    c: NeighborTraceOptions,
    option: NeighborTraceOption,
    change: TraceFlagChange,
) -> bool {
    match option.packets() {
        Some(kind) => slot_notes(packet_slot(c.packets, kind), change),
        None => !(change is Entry),
    }
}

fn apply_neighbor_trace_options(
    c: &mut NeighborTraceOptions,
    option: NeighborTraceOption,
    change: &TraceFlagChange,
    dflt: TraceOptionPacketType,
) -> (notes: bool)
    ensures
        *final(c) == neighbor_trace_options_changed(*old(c), option, *change, dflt),
        notes == neighbor_trace_options_notes(*old(c), option, *change),
{
    if let Some(kind) = option.packet_kind() {
        return apply_packets(&mut c.packets, kind, change, dflt);
    }
    match option {
        NeighborTraceOption::Events => apply_opt_flag(&mut c.events, change),
        _ => false,
    }
}

/// The options on packets that are in force, given those of its own and those of the
/// instance.
pub open spec fn packets_in_force(own: TraceOptionPacket, instance: TraceOptionPacket) -> TraceOptionPacketResolved {
    TraceOptionPacketResolved {
        open: resolved(own.open, own.all, instance.open, instance.all),
        update: resolved(own.update, own.all, instance.update, instance.all),
        notification: resolved(own.notification, own.all, instance.notification, instance.all),
        keepalive: resolved(own.keepalive, own.all, instance.keepalive, instance.all),
        refresh: resolved(own.refresh, own.all, instance.refresh, instance.all),
    }
}

fn resolve_packets(own: &TraceOptionPacket, instance: &TraceOptionPacket) -> (r: TraceOptionPacketResolved)
    ensures
        r == packets_in_force(*own, *instance),
{
    TraceOptionPacketResolved {
        open: resolve(own.open, own.all, instance.open, instance.all),
        update: resolve(own.update, own.all, instance.update, instance.all),
        notification: resolve(own.notification, own.all, instance.notification, instance.all),
        keepalive: resolve(own.keepalive, own.all, instance.keepalive, instance.all),
        refresh: resolve(own.refresh, own.all, instance.refresh, instance.all),
    }
}

// ===== address families =====

/// Redistribution from a protocol, after it was created or deleted.
pub open spec fn redistribution_changed(
    c: InstanceAfiSafiCfgView,
    q: Set<Event>,
    protocol: Protocol,
    op: ConfigOp,
    af: AddressFamily,
    afi_safi: AfiSafi,
) -> (InstanceAfiSafiCfgView, Set<Event>) {
    match op {
        ConfigOp::Create => (
            InstanceAfiSafiCfgView {
                redistribution: c.redistribution.insert(protocol, RedistributionCfg {}),
                ..c
            },
            q.insert(Event::RedistributeIbusSub(protocol, af)),
        ),
        ConfigOp::Delete => (
            InstanceAfiSafiCfgView { redistribution: c.redistribution.remove(protocol), ..c },
            q.insert(Event::RedistributeDelete(protocol, af, afi_safi)),
        ),
    }
}

fn apply_redistribution(
    cfg: &mut InstanceAfiSafiCfg,
    protocol: Protocol,
    op: ConfigOp,
    af: AddressFamily,
    afi_safi: AfiSafi,
    event_queue: &mut OrdSet<Event>,
)
    ensures
        (final(cfg)@, final(event_queue)@) == redistribution_changed(
            old(cfg)@,
            old(event_queue)@,
            protocol,
            op,
            af,
            afi_safi,
        ),
{
    match op {
        ConfigOp::Create => {
            cfg.redistribution.insert(protocol, RedistributionCfg {});
            event_queue.insert(Event::RedistributeIbusSub(protocol, af));
        },
        ConfigOp::Delete => {
            cfg.redistribution.remove(&protocol);
            event_queue.insert(Event::RedistributeDelete(protocol, af, afi_safi));
        },
    }
}

/// An address family of the instance, after a change within it.
pub open spec fn afi_safi_entry_changed(
    c: InstanceAfiSafiCfgView,
    q: Set<Event>,
    change: GlobalAfiSafiEntryChange,
) -> (InstanceAfiSafiCfgView, Set<Event>) {
    match change {
        GlobalAfiSafiEntryChange::Enabled(enabled) => (InstanceAfiSafiCfgView { enabled, ..c }, q),
        GlobalAfiSafiEntryChange::RouteSelectionOptionsAlwaysCompareMed(compare) => (
            InstanceAfiSafiCfgView {
                route_selection: RouteSelectionCfg { always_compare_med: compare, ..c.route_selection },
                ..c
            },
            q,
        ),
        GlobalAfiSafiEntryChange::RouteSelectionOptionsIgnoreAsPathLength(ignore) => (
            InstanceAfiSafiCfgView {
                route_selection: RouteSelectionCfg { ignore_as_path_length: ignore, ..c.route_selection },
                ..c
            },
            q,
        ),
        GlobalAfiSafiEntryChange::RouteSelectionOptionsExternalCompareRouterId(compare) => (
            InstanceAfiSafiCfgView {
                route_selection: RouteSelectionCfg { external_compare_router_id: compare, ..c.route_selection },
                ..c
            },
            q,
        ),
        GlobalAfiSafiEntryChange::RouteSelectionOptionsIgnoreNextHopIgpMetric(ignore) => (
            InstanceAfiSafiCfgView {
                route_selection: RouteSelectionCfg { ignore_next_hop_igp_metric: ignore, ..c.route_selection },
                ..c
            },
            q,
        ),
        GlobalAfiSafiEntryChange::RouteSelectionOptionsEnableMed(enable) => (
            InstanceAfiSafiCfgView {
                route_selection: RouteSelectionCfg { enable_med: enable, ..c.route_selection },
                ..c
            },
            q,
        ),
        GlobalAfiSafiEntryChange::UseMultiplePathsEnabled(enabled) => (
            InstanceAfiSafiCfgView { multipath: MultipathCfg { enabled, ..c.multipath }, ..c },
            q,
        ),
        GlobalAfiSafiEntryChange::UseMultiplePathsEbgpAllowMultipleAs(allow) => (
            InstanceAfiSafiCfgView {
                multipath: MultipathCfg { ebgp_allow_multiple_as: allow, ..c.multipath },
                ..c
            },
            q,
        ),
        GlobalAfiSafiEntryChange::UseMultiplePathsEbgpMaximumPaths(max) => (
            InstanceAfiSafiCfgView { multipath: MultipathCfg { ebgp_max_paths: max, ..c.multipath }, ..c },
            q,
        ),
        GlobalAfiSafiEntryChange::UseMultiplePathsIbgpMaximumPaths(max) => (
            InstanceAfiSafiCfgView { multipath: MultipathCfg { ibgp_max_paths: max, ..c.multipath }, ..c },
            q,
        ),
        GlobalAfiSafiEntryChange::ApplyPolicyImportPolicy(op, policy) => (
            InstanceAfiSafiCfgView {
                apply_policy: ApplyPolicyCfgView {
                    import_policy: member(c.apply_policy.import_policy, op, policy@),
                    ..c.apply_policy
                },
                ..c
            },
            q,
        ),
        GlobalAfiSafiEntryChange::ApplyPolicyDefaultImportPolicy(default) => (
            InstanceAfiSafiCfgView {
                apply_policy: ApplyPolicyCfgView { default_import_policy: default, ..c.apply_policy },
                ..c
            },
            q,
        ),
        GlobalAfiSafiEntryChange::ApplyPolicyExportPolicy(op, policy) => (
            InstanceAfiSafiCfgView {
                apply_policy: ApplyPolicyCfgView {
                    export_policy: member(c.apply_policy.export_policy, op, policy@),
                    ..c.apply_policy
                },
                ..c
            },
            q,
        ),
        GlobalAfiSafiEntryChange::ApplyPolicyDefaultExportPolicy(default) => (
            InstanceAfiSafiCfgView {
                apply_policy: ApplyPolicyCfgView { default_export_policy: default, ..c.apply_policy },
                ..c
            },
            q,
        ),
        GlobalAfiSafiEntryChange::Ipv4UnicastPrefixLimitMaxPrefixes(max)
        | GlobalAfiSafiEntryChange::Ipv6UnicastPrefixLimitMaxPrefixes(max) => (
            InstanceAfiSafiCfgView {
                prefix_limit: PrefixLimitCfg { max_prefixes: max, ..c.prefix_limit },
                ..c
            },
            q,
        ),
        GlobalAfiSafiEntryChange::Ipv4UnicastPrefixLimitWarningThresholdPct(threshold)
        | GlobalAfiSafiEntryChange::Ipv6UnicastPrefixLimitWarningThresholdPct(threshold) => (
            InstanceAfiSafiCfgView {
                prefix_limit: PrefixLimitCfg { warning_threshold_pct: threshold, ..c.prefix_limit },
                ..c
            },
            q,
        ),
        GlobalAfiSafiEntryChange::Ipv4UnicastPrefixLimitTeardown(teardown)
        | GlobalAfiSafiEntryChange::Ipv6UnicastPrefixLimitTeardown(teardown) => (
            InstanceAfiSafiCfgView { prefix_limit: PrefixLimitCfg { teardown, ..c.prefix_limit }, ..c },
            q,
        ),
        GlobalAfiSafiEntryChange::Ipv4UnicastPrefixLimitIdleTime(idle_time)
        | GlobalAfiSafiEntryChange::Ipv6UnicastPrefixLimitIdleTime(idle_time) => (
            InstanceAfiSafiCfgView { prefix_limit: PrefixLimitCfg { idle_time, ..c.prefix_limit }, ..c },
            q,
        ),
        GlobalAfiSafiEntryChange::Ipv4UnicastSendDefaultRoute(send)
        | GlobalAfiSafiEntryChange::Ipv6UnicastSendDefaultRoute(send) => (
            InstanceAfiSafiCfgView { send_default_route: send, ..c },
            q,
        ),
        GlobalAfiSafiEntryChange::Ipv4UnicastRedistribution(protocol, op) => redistribution_changed(
            c,
            q,
            protocol,
            op,
            AddressFamily::Ipv4,
            AfiSafi::Ipv4Unicast,
        ),
        GlobalAfiSafiEntryChange::Ipv6UnicastRedistribution(protocol, op) => redistribution_changed(
            c,
            q,
            protocol,
            op,
            AddressFamily::Ipv6,
            AfiSafi::Ipv6Unicast,
        ),
    }
}

fn apply_afi_safi_entry(
    cfg: &mut InstanceAfiSafiCfg,
    change: GlobalAfiSafiEntryChange,
    event_queue: &mut OrdSet<Event>,
)
    ensures
        (final(cfg)@, final(event_queue)@) == afi_safi_entry_changed(old(cfg)@, old(event_queue)@, change),
{
    match change {
        GlobalAfiSafiEntryChange::Enabled(enabled) => {
            cfg.enabled = enabled;
        },
        GlobalAfiSafiEntryChange::RouteSelectionOptionsAlwaysCompareMed(compare) => {
            cfg.route_selection.always_compare_med = compare;
        },
        GlobalAfiSafiEntryChange::RouteSelectionOptionsIgnoreAsPathLength(ignore) => {
            cfg.route_selection.ignore_as_path_length = ignore;
        },
        GlobalAfiSafiEntryChange::RouteSelectionOptionsExternalCompareRouterId(compare) => {
            cfg.route_selection.external_compare_router_id = compare;
        },
        GlobalAfiSafiEntryChange::RouteSelectionOptionsIgnoreNextHopIgpMetric(ignore) => {
            cfg.route_selection.ignore_next_hop_igp_metric = ignore;
        },
        GlobalAfiSafiEntryChange::RouteSelectionOptionsEnableMed(enable) => {
            cfg.route_selection.enable_med = enable;
        },
        GlobalAfiSafiEntryChange::UseMultiplePathsEnabled(enabled) => {
            cfg.multipath.enabled = enabled;
        },
        GlobalAfiSafiEntryChange::UseMultiplePathsEbgpAllowMultipleAs(allow) => {
            cfg.multipath.ebgp_allow_multiple_as = allow;
        },
        GlobalAfiSafiEntryChange::UseMultiplePathsEbgpMaximumPaths(max) => {
            cfg.multipath.ebgp_max_paths = max;
        },
        GlobalAfiSafiEntryChange::UseMultiplePathsIbgpMaximumPaths(max) => {
            cfg.multipath.ibgp_max_paths = max;
        },
        GlobalAfiSafiEntryChange::ApplyPolicyImportPolicy(op, policy) => {
            match op {
                ConfigOp::Create => {
                    cfg.apply_policy.import_policy.insert(policy);
                },
                ConfigOp::Delete => {
                    cfg.apply_policy.import_policy.remove(&policy);
                },
            }
        },
        GlobalAfiSafiEntryChange::ApplyPolicyDefaultImportPolicy(default) => {
            cfg.apply_policy.default_import_policy = default;
        },
        GlobalAfiSafiEntryChange::ApplyPolicyExportPolicy(op, policy) => {
            match op {
                ConfigOp::Create => {
                    cfg.apply_policy.export_policy.insert(policy);
                },
                ConfigOp::Delete => {
                    cfg.apply_policy.export_policy.remove(&policy);
                },
            }
        },
        GlobalAfiSafiEntryChange::ApplyPolicyDefaultExportPolicy(default) => {
            cfg.apply_policy.default_export_policy = default;
        },
        GlobalAfiSafiEntryChange::Ipv4UnicastPrefixLimitMaxPrefixes(max)
        | GlobalAfiSafiEntryChange::Ipv6UnicastPrefixLimitMaxPrefixes(max) => {
            cfg.prefix_limit.max_prefixes = max;
        },
        GlobalAfiSafiEntryChange::Ipv4UnicastPrefixLimitWarningThresholdPct(threshold)
        | GlobalAfiSafiEntryChange::Ipv6UnicastPrefixLimitWarningThresholdPct(threshold) => {
            cfg.prefix_limit.warning_threshold_pct = threshold;
        },
        GlobalAfiSafiEntryChange::Ipv4UnicastPrefixLimitTeardown(teardown)
        | GlobalAfiSafiEntryChange::Ipv6UnicastPrefixLimitTeardown(teardown) => {
            cfg.prefix_limit.teardown = teardown;
        },
        GlobalAfiSafiEntryChange::Ipv4UnicastPrefixLimitIdleTime(idle_time)
        | GlobalAfiSafiEntryChange::Ipv6UnicastPrefixLimitIdleTime(idle_time) => {
            cfg.prefix_limit.idle_time = idle_time;
        },
        GlobalAfiSafiEntryChange::Ipv4UnicastSendDefaultRoute(send)
        | GlobalAfiSafiEntryChange::Ipv6UnicastSendDefaultRoute(send) => {
            cfg.send_default_route = send;
        },
        GlobalAfiSafiEntryChange::Ipv4UnicastRedistribution(protocol, op) => {
            apply_redistribution(cfg, protocol, op, AddressFamily::Ipv4, AfiSafi::Ipv4Unicast, event_queue);
        },
        GlobalAfiSafiEntryChange::Ipv6UnicastRedistribution(protocol, op) => {
            apply_redistribution(cfg, protocol, op, AddressFamily::Ipv6, AfiSafi::Ipv6Unicast, event_queue);
        },
    }
}

/// The configuration of an instance, after a change of one of its address
/// families. A change within one that does not exist cannot be applied.
pub open spec fn afi_safi_changed(
    c: InstanceCfgView,
    q: Set<Event>,
    d: Defaults,
    afi_safi: AfiSafi,
    change: GlobalAfiSafiChange,
) -> Option<(InstanceCfgView, Set<Event>)> {
    match change {
        GlobalAfiSafiChange::Create => Some(
            (InstanceCfgView { afi_safi: c.afi_safi.insert(afi_safi, InstanceAfiSafiCfg::initial(d)), ..c }, q),
        ),
        GlobalAfiSafiChange::Delete => Some((InstanceCfgView { afi_safi: c.afi_safi.remove(afi_safi), ..c }, q)),
        GlobalAfiSafiChange::Entry(change) => if c.afi_safi.contains_key(afi_safi) {
            let r = afi_safi_entry_changed(c.afi_safi[afi_safi], q, change);
            Some((InstanceCfgView { afi_safi: c.afi_safi.insert(afi_safi, r.0), ..c }, r.1))
        } else {
            None
        },
    }
}

fn apply_afi_safi(
    cfg: &mut InstanceCfg,
    defaults: &Defaults,
    afi_safi: AfiSafi,
    change: GlobalAfiSafiChange,
    event_queue: &mut OrdSet<Event>,
) -> (r: Result<(), ApplyError>)
    ensures
        match afi_safi_changed(old(cfg)@, old(event_queue)@, *defaults, afi_safi, change) {
            Some(s) => r is Ok && (final(cfg)@, final(event_queue)@) == s,
            None => r == Err::<(), ApplyError>(ApplyError::EntryNotFound) && final(cfg)@ == old(cfg)@
                && final(event_queue)@ == old(event_queue)@,
        },
{
    let ghost before = cfg.afi_safi@;
    match change {
        GlobalAfiSafiChange::Create => {
            let entry = InstanceAfiSafiCfg::new(defaults);
            proof {
                views_insert(before, afi_safi, entry);
            }
            cfg.afi_safi.insert(afi_safi, entry);
        },
        GlobalAfiSafiChange::Delete => {
            cfg.afi_safi.remove(&afi_safi);
            proof {
                views_remove(before, afi_safi);
            }
        },
        GlobalAfiSafiChange::Entry(change) => {
            let entry = match cfg.afi_safi.get_mut(&afi_safi) {
                Some(entry) => entry,
                None => {
                    return Err(ApplyError::EntryNotFound);
                },
            };
            apply_afi_safi_entry(entry, change, event_queue);
            proof {
                views_insert(before, afi_safi, *entry);
            }
        },
    }
    Ok(())
}

/// An address family of a neighbor, after a change within it.
pub open spec fn neighbor_afi_safi_entry_changed(
    c: NeighborAfiSafiCfgView,
    change: NeighborAfiSafiEntryChange,
) -> NeighborAfiSafiCfgView {
    match change {
        NeighborAfiSafiEntryChange::Enabled(enabled) => NeighborAfiSafiCfgView { enabled, ..c },
        NeighborAfiSafiEntryChange::ApplyPolicyImportPolicy(op, policy) => NeighborAfiSafiCfgView {
            apply_policy: ApplyPolicyCfgView {
                import_policy: member(c.apply_policy.import_policy, op, policy@),
                ..c.apply_policy
            },
            ..c
        },
        NeighborAfiSafiEntryChange::ApplyPolicyDefaultImportPolicy(default) => NeighborAfiSafiCfgView {
            apply_policy: ApplyPolicyCfgView { default_import_policy: default, ..c.apply_policy },
            ..c
        },
        NeighborAfiSafiEntryChange::ApplyPolicyExportPolicy(op, policy) => NeighborAfiSafiCfgView {
            apply_policy: ApplyPolicyCfgView {
                export_policy: member(c.apply_policy.export_policy, op, policy@),
                ..c.apply_policy
            },
            ..c
        },
        NeighborAfiSafiEntryChange::ApplyPolicyDefaultExportPolicy(default) => NeighborAfiSafiCfgView {
            apply_policy: ApplyPolicyCfgView { default_export_policy: default, ..c.apply_policy },
            ..c
        },
        NeighborAfiSafiEntryChange::Ipv4UnicastPrefixLimitMaxPrefixes(max)
        | NeighborAfiSafiEntryChange::Ipv6UnicastPrefixLimitMaxPrefixes(max) => NeighborAfiSafiCfgView {
            prefix_limit: PrefixLimitCfg { max_prefixes: max, ..c.prefix_limit },
            ..c
        },
        NeighborAfiSafiEntryChange::Ipv4UnicastPrefixLimitWarningThresholdPct(threshold)
        | NeighborAfiSafiEntryChange::Ipv6UnicastPrefixLimitWarningThresholdPct(threshold) => NeighborAfiSafiCfgView {
            prefix_limit: PrefixLimitCfg { warning_threshold_pct: threshold, ..c.prefix_limit },
            ..c
        },
        NeighborAfiSafiEntryChange::Ipv4UnicastPrefixLimitTeardown(teardown)
        | NeighborAfiSafiEntryChange::Ipv6UnicastPrefixLimitTeardown(teardown) => NeighborAfiSafiCfgView {
            prefix_limit: PrefixLimitCfg { teardown, ..c.prefix_limit },
            ..c
        },
        NeighborAfiSafiEntryChange::Ipv4UnicastPrefixLimitIdleTime(idle_time)
        | NeighborAfiSafiEntryChange::Ipv6UnicastPrefixLimitIdleTime(idle_time) => NeighborAfiSafiCfgView {
            prefix_limit: PrefixLimitCfg { idle_time, ..c.prefix_limit },
            ..c
        },
        NeighborAfiSafiEntryChange::Ipv4UnicastSendDefaultRoute(send)
        | NeighborAfiSafiEntryChange::Ipv6UnicastSendDefaultRoute(send) => NeighborAfiSafiCfgView {
            send_default_route: send,
            ..c
        },
    }
}

fn apply_neighbor_afi_safi_entry(cfg: &mut NeighborAfiSafiCfg, change: NeighborAfiSafiEntryChange)
    ensures
        final(cfg)@ == neighbor_afi_safi_entry_changed(old(cfg)@, change),
{
    match change {
        NeighborAfiSafiEntryChange::Enabled(enabled) => {
            cfg.enabled = enabled;
        },
        NeighborAfiSafiEntryChange::ApplyPolicyImportPolicy(op, policy) => {
            match op {
                ConfigOp::Create => {
                    cfg.apply_policy.import_policy.insert(policy);
                },
                ConfigOp::Delete => {
                    cfg.apply_policy.import_policy.remove(&policy);
                },
            }
        },
        NeighborAfiSafiEntryChange::ApplyPolicyDefaultImportPolicy(default) => {
            cfg.apply_policy.default_import_policy = default;
        },
        NeighborAfiSafiEntryChange::ApplyPolicyExportPolicy(op, policy) => {
            match op {
                ConfigOp::Create => {
                    cfg.apply_policy.export_policy.insert(policy);
                },
                ConfigOp::Delete => {
                    cfg.apply_policy.export_policy.remove(&policy);
                },
            }
        },
        NeighborAfiSafiEntryChange::ApplyPolicyDefaultExportPolicy(default) => {
            cfg.apply_policy.default_export_policy = default;
        },
        NeighborAfiSafiEntryChange::Ipv4UnicastPrefixLimitMaxPrefixes(max)
        | NeighborAfiSafiEntryChange::Ipv6UnicastPrefixLimitMaxPrefixes(max) => {
            cfg.prefix_limit.max_prefixes = max;
        },
        NeighborAfiSafiEntryChange::Ipv4UnicastPrefixLimitWarningThresholdPct(threshold)
        | NeighborAfiSafiEntryChange::Ipv6UnicastPrefixLimitWarningThresholdPct(threshold) => {
            cfg.prefix_limit.warning_threshold_pct = threshold;
        },
        NeighborAfiSafiEntryChange::Ipv4UnicastPrefixLimitTeardown(teardown)
        | NeighborAfiSafiEntryChange::Ipv6UnicastPrefixLimitTeardown(teardown) => {
            cfg.prefix_limit.teardown = teardown;
        },
        NeighborAfiSafiEntryChange::Ipv4UnicastPrefixLimitIdleTime(idle_time)
        | NeighborAfiSafiEntryChange::Ipv6UnicastPrefixLimitIdleTime(idle_time) => {
            cfg.prefix_limit.idle_time = idle_time;
        },
        NeighborAfiSafiEntryChange::Ipv4UnicastSendDefaultRoute(send)
        | NeighborAfiSafiEntryChange::Ipv6UnicastSendDefaultRoute(send) => {
            cfg.send_default_route = send;
        },
    }
}

/// The configuration of a neighbor, after a change of one of its address
/// families. A change within one that does not exist cannot be applied.
pub open spec fn neighbor_afi_safi_changed(
    c: NeighborCfgView,
    d: Defaults,
    afi_safi: AfiSafi,
    change: NeighborAfiSafiChange,
) -> Option<NeighborCfgView> {
    match change {
        NeighborAfiSafiChange::Create => Some(
            NeighborCfgView { afi_safi: c.afi_safi.insert(afi_safi, NeighborAfiSafiCfg::initial(d)), ..c },
        ),
        NeighborAfiSafiChange::Delete => Some(NeighborCfgView { afi_safi: c.afi_safi.remove(afi_safi), ..c }),
        NeighborAfiSafiChange::Entry(change) => if c.afi_safi.contains_key(afi_safi) {
            Some(
                NeighborCfgView {
                    afi_safi: c.afi_safi.insert(
                        afi_safi,
                        neighbor_afi_safi_entry_changed(c.afi_safi[afi_safi], change),
                    ),
                    ..c
                },
            )
        } else {
            None
        },
    }
}

fn apply_neighbor_afi_safi(
    cfg: &mut NeighborCfg,
    defaults: &Defaults,
    afi_safi: AfiSafi,
    change: NeighborAfiSafiChange,
) -> (r: Result<(), ApplyError>)
    ensures
        match neighbor_afi_safi_changed(old(cfg)@, *defaults, afi_safi, change) {
            Some(c) => r is Ok && final(cfg)@ == c,
            None => r == Err::<(), ApplyError>(ApplyError::EntryNotFound) && final(cfg)@ == old(cfg)@,
        },
{
    let ghost before = cfg.afi_safi@;
    match change {
        NeighborAfiSafiChange::Create => {
            let entry = NeighborAfiSafiCfg::new(defaults);
            proof {
                views_insert(before, afi_safi, entry);
            }
            cfg.afi_safi.insert(afi_safi, entry);
        },
        NeighborAfiSafiChange::Delete => {
            cfg.afi_safi.remove(&afi_safi);
            proof {
                views_remove(before, afi_safi);
            }
        },
        NeighborAfiSafiChange::Entry(change) => {
            let entry = match cfg.afi_safi.get_mut(&afi_safi) {
                Some(entry) => entry,
                None => {
                    return Err(ApplyError::EntryNotFound);
                },
            };
            apply_neighbor_afi_safi_entry(entry, change);
            proof {
                views_insert(before, afi_safi, *entry);
            }
        },
    }
    Ok(())
}

// ===== neighbors =====

/// A neighbor, after a change within it. The one change that may not apply is
/// one within an address family that does not exist.
pub open spec fn neighbor_entry_changed(
    n: NeighborView,
    q: Set<Event>,
    d: Defaults,
    asn: u32,
    change: NeighborEntryChange,
) -> Option<(NeighborView, Set<Event>)> {
    match change {
        NeighborEntryChange::PeerAs(peer_as) => Some(
            (
                NeighborView {
                    session: Session {
                        peer_type: if asn == peer_as {
                            PeerType::Internal
                        } else {
                            PeerType::External
                        },
                        ..n.session
                    },
                    config: NeighborCfgView { peer_as, ..n.config },
                },
                q.insert(
                    Event::NeighborReset(
                        n.session.remote_addr,
                        NotificationMsg { error_subcode: CeaseSubcode::OtherConfigurationChange },
                    ),
                ),
            ),
        ),
        NeighborEntryChange::AfiSafi(afi_safi, change) => match neighbor_afi_safi_changed(
            n.config,
            d,
            afi_safi,
            change,
        ) {
            Some(config) => Some((NeighborView { config, ..n }, q)),
            None => None,
        },
        NeighborEntryChange::TraceOptionsFlag(option, change) => Some(
            (
                NeighborView {
                    config: NeighborCfgView {
                        trace_opts: neighbor_trace_options_changed(n.config.trace_opts, option, change, d.trace),
                        ..n.config
                    },
                    ..n
                },
                if neighbor_trace_options_notes(n.config.trace_opts, option, change) {
                    q.insert(Event::UpdateTraceOptions)
                } else {
                    q
                },
            ),
        ),
        change => {
            let r = neighbor_cfg_changed(n.config, q, n.session.remote_addr, change);
            Some((NeighborView { config: r.0, ..n }, r.1))
        },
    }
}

/// The configuration of a neighbor, after a change of one of its own values.
pub open spec fn neighbor_cfg_changed(
    c: NeighborCfgView,
    q: Set<Event>,
    nbr_addr: IpAddr,
    change: NeighborEntryChange,
) -> (NeighborCfgView, Set<Event>) {
    match change {
        NeighborEntryChange::Enabled(enabled) => (
            NeighborCfgView { enabled, ..c },
            q.insert(Event::NeighborUpdate(nbr_addr)),
        ),
        NeighborEntryChange::LocalAs(local_as) => (NeighborCfgView { local_as, ..c }, q),
        NeighborEntryChange::RemovePrivateAs(private_as_remove) => (NeighborCfgView { private_as_remove, ..c }, q),
        NeighborEntryChange::Description(_) => (c, q),
        NeighborEntryChange::TimersConnectRetryInterval(interval) => (
            NeighborCfgView { timers: NeighborTimersCfg { connect_retry_interval: interval, ..c.timers }, ..c },
            q,
        ),
        NeighborEntryChange::TimersHoldTime(holdtime) => (
            NeighborCfgView { timers: NeighborTimersCfg { holdtime, ..c.timers }, ..c },
            q,
        ),
        NeighborEntryChange::TimersKeepalive(keepalive) => (
            NeighborCfgView { timers: NeighborTimersCfg { keepalive, ..c.timers }, ..c },
            q,
        ),
        NeighborEntryChange::TimersMinAsOriginationInterval(interval) => (
            NeighborCfgView { timers: NeighborTimersCfg { min_as_orig_interval: interval, ..c.timers }, ..c },
            q,
        ),
        NeighborEntryChange::TimersMinRouteAdvertisementInterval(interval) => (
            NeighborCfgView { timers: NeighborTimersCfg { min_route_adv_interval: interval, ..c.timers }, ..c },
            q,
        ),
        NeighborEntryChange::TransportLocalAddress(addr) => (
            NeighborCfgView { transport: NeighborTransportCfgView { local_addr: addr, ..c.transport }, ..c },
            q.insert(
                Event::NeighborReset(
                    nbr_addr,
                    NotificationMsg { error_subcode: CeaseSubcode::OtherConfigurationChange },
                ),
            ),
        ),
        NeighborEntryChange::TransportTcpMss(tcp_mss) => (
            NeighborCfgView { transport: NeighborTransportCfgView { tcp_mss, ..c.transport }, ..c },
            q,
        ),
        NeighborEntryChange::TransportEbgpMultihopEnabled(enabled) => (
            NeighborCfgView {
                transport: NeighborTransportCfgView { ebgp_multihop_enabled: enabled, ..c.transport },
                ..c
            },
            q.insert(
                Event::NeighborReset(
                    nbr_addr,
                    NotificationMsg { error_subcode: CeaseSubcode::OtherConfigurationChange },
                ),
            ),
        ),
        NeighborEntryChange::TransportEbgpMultihopMultihopTtl(ttl) => (
            NeighborCfgView {
                transport: NeighborTransportCfgView { ebgp_multihop_ttl: ttl, ..c.transport },
                ..c
            },
            q.insert(
                Event::NeighborReset(
                    nbr_addr,
                    NotificationMsg { error_subcode: CeaseSubcode::OtherConfigurationChange },
                ),
            ),
        ),
        NeighborEntryChange::TransportPassiveMode(passive_mode) => (
            NeighborCfgView { transport: NeighborTransportCfgView { passive_mode, ..c.transport }, ..c },
            q,
        ),
        NeighborEntryChange::TransportTtlSecurity(ttl_security) => (
            NeighborCfgView {
                transport: NeighborTransportCfgView { ttl_security: Some(ttl_security), ..c.transport },
                ..c
            },
            q.insert(
                Event::NeighborReset(
                    nbr_addr,
                    NotificationMsg { error_subcode: CeaseSubcode::OtherConfigurationChange },
                ),
            ),
        ),
        NeighborEntryChange::TransportSecureSessionEnabled(enabled) => (
            NeighborCfgView {
                transport: NeighborTransportCfgView { secure_session_enabled: enabled, ..c.transport },
                ..c
            },
            q.insert(
                Event::NeighborReset(
                    nbr_addr,
                    NotificationMsg { error_subcode: CeaseSubcode::OtherConfigurationChange },
                ),
            ).insert(Event::NeighborUpdateAuth(nbr_addr)),
        ),
        NeighborEntryChange::TransportSecureSessionOptionsMd5KeyString(key) => (
            NeighborCfgView {
                transport: NeighborTransportCfgView { md5_key: opt_text(key), ..c.transport },
                ..c
            },
            q.insert(
                Event::NeighborReset(
                    nbr_addr,
                    NotificationMsg { error_subcode: CeaseSubcode::OtherConfigurationChange },
                ),
            ).insert(Event::NeighborUpdateAuth(nbr_addr)),
        ),
        NeighborEntryChange::LoggingOptionsLogNeighborStateChanges(log) => (
            NeighborCfgView { log_neighbor_state_changes: log, ..c },
            q,
        ),
        NeighborEntryChange::AsPathOptionsAllowOwnAs(allow) => (
            NeighborCfgView {
                as_path_options: AsPathOptions { allow_own_as: allow, ..c.as_path_options },
                ..c
            },
            q,
        ),
        NeighborEntryChange::AsPathOptionsReplacePeerAs(replace) => (
            NeighborCfgView {
                as_path_options: AsPathOptions { replace_peer_as: replace, ..c.as_path_options },
                ..c
            },
            q,
        ),
        NeighborEntryChange::AsPathOptionsDisablePeerAsFilter(disable) => (
            NeighborCfgView {
                as_path_options: AsPathOptions { disable_peer_as_filter: disable, ..c.as_path_options },
                ..c
            },
            q,
        ),
        NeighborEntryChange::ApplyPolicyImportPolicy(op, policy) => (
            NeighborCfgView {
                apply_policy: ApplyPolicyCfgView {
                    import_policy: member(c.apply_policy.import_policy, op, policy@),
                    ..c.apply_policy
                },
                ..c
            },
            q,
        ),
        NeighborEntryChange::ApplyPolicyDefaultImportPolicy(default) => (
            NeighborCfgView {
                apply_policy: ApplyPolicyCfgView { default_import_policy: default, ..c.apply_policy },
                ..c
            },
            q,
        ),
        NeighborEntryChange::ApplyPolicyExportPolicy(op, policy) => (
            NeighborCfgView {
                apply_policy: ApplyPolicyCfgView {
                    export_policy: member(c.apply_policy.export_policy, op, policy@),
                    ..c.apply_policy
                },
                ..c
            },
            q,
        ),
        NeighborEntryChange::ApplyPolicyDefaultExportPolicy(default) => (
            NeighborCfgView {
                apply_policy: ApplyPolicyCfgView { default_export_policy: default, ..c.apply_policy },
                ..c
            },
            q,
        ),
        NeighborEntryChange::PrefixLimitMaxPrefixes(max) => (
            NeighborCfgView { prefix_limit: PrefixLimitCfg { max_prefixes: max, ..c.prefix_limit }, ..c },
            q,
        ),
        NeighborEntryChange::PrefixLimitWarningThresholdPct(threshold) => (
            NeighborCfgView {
                prefix_limit: PrefixLimitCfg { warning_threshold_pct: threshold, ..c.prefix_limit },
                ..c
            },
            q,
        ),
        NeighborEntryChange::PrefixLimitTeardown(teardown) => (
            NeighborCfgView { prefix_limit: PrefixLimitCfg { teardown, ..c.prefix_limit }, ..c },
            q,
        ),
        NeighborEntryChange::PrefixLimitIdleTime(idle_time) => (
            NeighborCfgView { prefix_limit: PrefixLimitCfg { idle_time, ..c.prefix_limit }, ..c },
            q,
        ),
        _ => (c, q),
    }
}

#[verifier::rlimit(100)]
fn apply_neighbor_cfg(
    cfg: &mut NeighborCfg,
    nbr_addr: IpAddr,
    change: NeighborEntryChange,
    event_queue: &mut OrdSet<Event>,
)
    ensures
        (final(cfg)@, final(event_queue)@) == neighbor_cfg_changed(old(cfg)@, old(event_queue)@, nbr_addr, change),
{
    match change {
        NeighborEntryChange::Enabled(enabled) => {
            cfg.enabled = enabled;
            event_queue.insert(Event::NeighborUpdate(nbr_addr));
        },
        NeighborEntryChange::LocalAs(local_as) => {
            cfg.local_as = local_as;
        },
        NeighborEntryChange::RemovePrivateAs(private_as_remove) => {
            cfg.private_as_remove = private_as_remove;
        },
        NeighborEntryChange::Description(_) => {},
        NeighborEntryChange::TimersConnectRetryInterval(interval) => {
            cfg.timers.connect_retry_interval = interval;
        },
        NeighborEntryChange::TimersHoldTime(holdtime) => {
            cfg.timers.holdtime = holdtime;
        },
        NeighborEntryChange::TimersKeepalive(keepalive) => {
            cfg.timers.keepalive = keepalive;
        },
        NeighborEntryChange::TimersMinAsOriginationInterval(interval) => {
            cfg.timers.min_as_orig_interval = interval;
        },
        NeighborEntryChange::TimersMinRouteAdvertisementInterval(interval) => {
            cfg.timers.min_route_adv_interval = interval;
        },
        NeighborEntryChange::TransportLocalAddress(addr) => {
            cfg.transport.local_addr = addr;
            event_queue.insert(
                Event::NeighborReset(
                    nbr_addr,
                    NotificationMsg { error_subcode: CeaseSubcode::OtherConfigurationChange },
                ),
            );
        },
        NeighborEntryChange::TransportTcpMss(tcp_mss) => {
            cfg.transport.tcp_mss = tcp_mss;
        },
        NeighborEntryChange::TransportEbgpMultihopEnabled(enabled) => {
            cfg.transport.ebgp_multihop_enabled = enabled;
            event_queue.insert(
                Event::NeighborReset(
                    nbr_addr,
                    NotificationMsg { error_subcode: CeaseSubcode::OtherConfigurationChange },
                ),
            );
        },
        NeighborEntryChange::TransportEbgpMultihopMultihopTtl(ttl) => {
            cfg.transport.ebgp_multihop_ttl = ttl;
            event_queue.insert(
                Event::NeighborReset(
                    nbr_addr,
                    NotificationMsg { error_subcode: CeaseSubcode::OtherConfigurationChange },
                ),
            );
        },
        NeighborEntryChange::TransportPassiveMode(passive_mode) => {
            cfg.transport.passive_mode = passive_mode;
        },
        NeighborEntryChange::TransportTtlSecurity(ttl_security) => {
            cfg.transport.ttl_security = Some(ttl_security);
            event_queue.insert(
                Event::NeighborReset(
                    nbr_addr,
                    NotificationMsg { error_subcode: CeaseSubcode::OtherConfigurationChange },
                ),
            );
        },
        NeighborEntryChange::TransportSecureSessionEnabled(enabled) => {
            cfg.transport.secure_session_enabled = enabled;
            event_queue.insert(
                Event::NeighborReset(
                    nbr_addr,
                    NotificationMsg { error_subcode: CeaseSubcode::OtherConfigurationChange },
                ),
            );
            event_queue.insert(Event::NeighborUpdateAuth(nbr_addr));
        },
        NeighborEntryChange::TransportSecureSessionOptionsMd5KeyString(key) => {
            cfg.transport.md5_key = key;
            event_queue.insert(
                Event::NeighborReset(
                    nbr_addr,
                    NotificationMsg { error_subcode: CeaseSubcode::OtherConfigurationChange },
                ),
            );
            event_queue.insert(Event::NeighborUpdateAuth(nbr_addr));
        },
        NeighborEntryChange::LoggingOptionsLogNeighborStateChanges(log) => {
            cfg.log_neighbor_state_changes = log;
        },
        NeighborEntryChange::AsPathOptionsAllowOwnAs(allow) => {
            cfg.as_path_options.allow_own_as = allow;
        },
        NeighborEntryChange::AsPathOptionsReplacePeerAs(replace) => {
            cfg.as_path_options.replace_peer_as = replace;
        },
        NeighborEntryChange::AsPathOptionsDisablePeerAsFilter(disable) => {
            cfg.as_path_options.disable_peer_as_filter = disable;
        },
        NeighborEntryChange::ApplyPolicyImportPolicy(op, policy) => {
            match op {
                ConfigOp::Create => {
                    cfg.apply_policy.import_policy.insert(policy);
                },
                ConfigOp::Delete => {
                    cfg.apply_policy.import_policy.remove(&policy);
                },
            }
        },
        NeighborEntryChange::ApplyPolicyDefaultImportPolicy(default) => {
            cfg.apply_policy.default_import_policy = default;
        },
        NeighborEntryChange::ApplyPolicyExportPolicy(op, policy) => {
            match op {
                ConfigOp::Create => {
                    cfg.apply_policy.export_policy.insert(policy);
                },
                ConfigOp::Delete => {
                    cfg.apply_policy.export_policy.remove(&policy);
                },
            }
        },
        NeighborEntryChange::ApplyPolicyDefaultExportPolicy(default) => {
            cfg.apply_policy.default_export_policy = default;
        },
        NeighborEntryChange::PrefixLimitMaxPrefixes(max) => {
            cfg.prefix_limit.max_prefixes = max;
        },
        NeighborEntryChange::PrefixLimitWarningThresholdPct(threshold) => {
            cfg.prefix_limit.warning_threshold_pct = threshold;
        },
        NeighborEntryChange::PrefixLimitTeardown(teardown) => {
            cfg.prefix_limit.teardown = teardown;
        },
        NeighborEntryChange::PrefixLimitIdleTime(idle_time) => {
            cfg.prefix_limit.idle_time = idle_time;
        },
        _ => {},
    }
}

fn apply_neighbor_entry(
    nbr: &mut Neighbor,
    defaults: &Defaults,
    asn: u32,
    change: NeighborEntryChange,
    event_queue: &mut OrdSet<Event>,
) -> (r: Result<(), ApplyError>)
    ensures
        match neighbor_entry_changed(old(nbr)@, old(event_queue)@, *defaults, asn, change) {
            Some(s) => r is Ok && (final(nbr)@, final(event_queue)@) == s,
            None => r == Err::<(), ApplyError>(ApplyError::EntryNotFound) && final(nbr)@ == old(nbr)@
                && final(event_queue)@ == old(event_queue)@,
        },
{
    match change {
        NeighborEntryChange::PeerAs(peer_as) => {
            nbr.config.peer_as = peer_as;
            nbr.session.peer_type = if asn == peer_as {
                PeerType::Internal
            } else {
                PeerType::External
            };
            let msg = NotificationMsg { error_subcode: CeaseSubcode::OtherConfigurationChange };
            event_queue.insert(Event::NeighborReset(nbr.session.remote_addr, msg));
        },
        NeighborEntryChange::AfiSafi(afi_safi, change) => {
            return apply_neighbor_afi_safi(&mut nbr.config, defaults, afi_safi, change);
        },
        NeighborEntryChange::TraceOptionsFlag(option, change) => {
            if apply_neighbor_trace_options(&mut nbr.config.trace_opts, option, &change, defaults.trace) {
                event_queue.insert(Event::UpdateTraceOptions);
            }
        },
        change => {
            apply_neighbor_cfg(&mut nbr.config, nbr.session.remote_addr, change, event_queue);
        },
    }
    Ok(())
}

impl Neighbor {
    /// A neighbor that was just created.
    pub open spec fn created(d: Defaults, index: PeerIndex, remote_addr: IpAddr, peer_type: PeerType) -> NeighborView {
        NeighborView {
            session: Session {
                index,
                remote_addr,
                peer_type,
                state: State::Idle,
                identifier: None,
                conn_info: None,
                shared_subnet: false,
                ipv4_unicast_enabled: false,
                ipv6_unicast_enabled: false,
            },
            config: NeighborCfg::initial(d),
        }
    }

    pub fn new(defaults: &Defaults, index: PeerIndex, remote_addr: IpAddr, peer_type: PeerType) -> (n: Neighbor)
        ensures
            n@ == Neighbor::created(*defaults, index, remote_addr, peer_type),
    {
        Neighbor {
            session: Session {
                index,
                remote_addr,
                peer_type,
                state: State::Idle,
                identifier: None,
                conn_info: None,
                shared_subnet: false,
                ipv4_unicast_enabled: false,
                ipv6_unicast_enabled: false,
            },
            config: NeighborCfg::new(defaults),
        }
    }
}

/// An instance, after a change of one of its neighbors. A neighbor that is to
/// be deleted goes when the queued event is processed.
pub open spec fn neighbor_changed(i: InstanceView, q: Set<Event>, addr: IpAddr, change: NeighborChange) -> Option<
    (InstanceView, Set<Event>),
> {
    match change {
        NeighborChange::Create => Some(
            (
                InstanceView {
                    neighbors: i.neighbors.insert(
                        addr,
                        Neighbor::created(i.defaults, i.next_index, addr, PeerType::Internal),
                    ),
                    next_index: (i.next_index + 1) as PeerIndex,
                    ..i
                },
                q.insert(Event::NeighborUpdate(addr)),
            ),
        ),
        NeighborChange::Delete => Some((i, q.insert(Event::NeighborDelete(addr)))),
        NeighborChange::Entry(change) => if i.neighbors.contains_key(addr) {
            match neighbor_entry_changed(i.neighbors[addr], q, i.defaults, i.config.asn, change) {
                Some(r) => Some((InstanceView { neighbors: i.neighbors.insert(addr, r.0), ..i }, r.1)),
                None => None,
            }
        } else {
            None
        },
    }
}

fn apply_neighbor(
    instance: &mut Instance,
    addr: IpAddr,
    change: NeighborChange,
    event_queue: &mut OrdSet<Event>,
) -> (r: Result<(), ApplyError>)
    requires
        change is Create ==> old(instance).next_index < PeerIndex::MAX,
    ensures
        match neighbor_changed(old(instance)@, old(event_queue)@, addr, change) {
            Some(s) => r is Ok && (final(instance)@, final(event_queue)@) == s,
            None => r == Err::<(), ApplyError>(ApplyError::EntryNotFound) && final(instance)@ == old(instance)@
                && final(event_queue)@ == old(event_queue)@,
        },
{
    let ghost before = instance.neighbors@;
    match change {
        NeighborChange::Create => {
            // The mandatory peer-as leaf is applied as a separate change
            // within the same commit, updating the peer type before any
            // event fires.
            let nbr = Neighbor::new(&instance.defaults, instance.next_index, addr, PeerType::Internal);
            proof {
                views_insert(before, addr, nbr);
            }
            instance.neighbors.insert(addr, nbr);
            instance.next_index = instance.next_index + 1;
            event_queue.insert(Event::NeighborUpdate(addr));
        },
        NeighborChange::Delete => {
            event_queue.insert(Event::NeighborDelete(addr));
        },
        NeighborChange::Entry(change) => {
            let asn = instance.config.asn;
            let defaults = instance.defaults;
            let nbr = match instance.neighbors.get_mut(&addr) {
                Some(nbr) => nbr,
                None => {
                    return Err(ApplyError::EntryNotFound);
                },
            };
            let ghost n0 = *nbr;
            let r = apply_neighbor_entry(nbr, &defaults, asn, change, event_queue);
            proof {
                views_insert(before, addr, *nbr);
                assert(views(before).insert(addr, n0@) =~= views(before));
            }
            return r;
        },
    }
    Ok(())
}

// ===== instance =====

/// The configuration of an instance, after a change of one of its own values.
pub open spec fn instance_cfg_changed(c: InstanceCfgView, q: Set<Event>, change: ConfigChange) -> (
    InstanceCfgView,
    Set<Event>,
) {
    match change {
        ConfigChange::Global(_) => (c, q),
        ConfigChange::GlobalAs(asn) => (InstanceCfgView { asn, ..c }, q.insert(Event::InstanceUpdate)),
        ConfigChange::GlobalIdentifier(identifier) => (
            InstanceCfgView { identifier, ..c },
            q.insert(Event::InstanceUpdate),
        ),
        ConfigChange::GlobalDistanceExternal(distance) => (
            InstanceCfgView { distance: DistanceCfg { external: distance, ..c.distance }, ..c },
            q,
        ),
        ConfigChange::GlobalDistanceInternal(distance) => (
            InstanceCfgView { distance: DistanceCfg { internal: distance, ..c.distance }, ..c },
            q,
        ),
        ConfigChange::GlobalUseMultiplePathsEnabled(enabled) => (
            InstanceCfgView { multipath: MultipathCfg { enabled, ..c.multipath }, ..c },
            q,
        ),
        ConfigChange::GlobalUseMultiplePathsEbgpAllowMultipleAs(allow) => (
            InstanceCfgView { multipath: MultipathCfg { ebgp_allow_multiple_as: allow, ..c.multipath }, ..c },
            q,
        ),
        ConfigChange::GlobalUseMultiplePathsEbgpMaximumPaths(max) => (
            InstanceCfgView { multipath: MultipathCfg { ebgp_max_paths: max, ..c.multipath }, ..c },
            q,
        ),
        ConfigChange::GlobalUseMultiplePathsIbgpMaximumPaths(max) => (
            InstanceCfgView { multipath: MultipathCfg { ibgp_max_paths: max, ..c.multipath }, ..c },
            q,
        ),
        ConfigChange::GlobalRouteSelectionOptionsAlwaysCompareMed(compare) => (
            InstanceCfgView {
                route_selection: RouteSelectionCfg { always_compare_med: compare, ..c.route_selection },
                ..c
            },
            q,
        ),
        ConfigChange::GlobalRouteSelectionOptionsIgnoreAsPathLength(ignore) => (
            InstanceCfgView {
                route_selection: RouteSelectionCfg { ignore_as_path_length: ignore, ..c.route_selection },
                ..c
            },
            q,
        ),
        ConfigChange::GlobalRouteSelectionOptionsExternalCompareRouterId(compare) => (
            InstanceCfgView {
                route_selection: RouteSelectionCfg { external_compare_router_id: compare, ..c.route_selection },
                ..c
            },
            q,
        ),
        ConfigChange::GlobalRouteSelectionOptionsIgnoreNextHopIgpMetric(ignore) => (
            InstanceCfgView {
                route_selection: RouteSelectionCfg { ignore_next_hop_igp_metric: ignore, ..c.route_selection },
                ..c
            },
            q,
        ),
        ConfigChange::GlobalRouteSelectionOptionsEnableMed(enable) => (
            InstanceCfgView {
                route_selection: RouteSelectionCfg { enable_med: enable, ..c.route_selection },
                ..c
            },
            q,
        ),
        ConfigChange::GlobalApplyPolicyImportPolicy(op, policy) => (
            InstanceCfgView {
                apply_policy: ApplyPolicyCfgView {
                    import_policy: member(c.apply_policy.import_policy, op, policy@),
                    ..c.apply_policy
                },
                ..c
            },
            q,
        ),
        ConfigChange::GlobalApplyPolicyDefaultImportPolicy(default) => (
            InstanceCfgView {
                apply_policy: ApplyPolicyCfgView { default_import_policy: default, ..c.apply_policy },
                ..c
            },
            q,
        ),
        ConfigChange::GlobalApplyPolicyExportPolicy(op, policy) => (
            InstanceCfgView {
                apply_policy: ApplyPolicyCfgView {
                    export_policy: member(c.apply_policy.export_policy, op, policy@),
                    ..c.apply_policy
                },
                ..c
            },
            q,
        ),
        ConfigChange::GlobalApplyPolicyDefaultExportPolicy(default) => (
            InstanceCfgView {
                apply_policy: ApplyPolicyCfgView { default_export_policy: default, ..c.apply_policy },
                ..c
            },
            q,
        ),
        ConfigChange::GlobalRejectAsSets(reject) => (InstanceCfgView { reject_as_sets: reject, ..c }, q),
        _ => (c, q),
    }
}

fn apply_instance_cfg(cfg: &mut InstanceCfg, change: ConfigChange, event_queue: &mut OrdSet<Event>)
    ensures
        (final(cfg)@, final(event_queue)@) == instance_cfg_changed(old(cfg)@, old(event_queue)@, change),
{
    match change {
        ConfigChange::Global(_) => {},
        ConfigChange::GlobalAs(asn) => {
            cfg.asn = asn;
            event_queue.insert(Event::InstanceUpdate);
        },
        ConfigChange::GlobalIdentifier(identifier) => {
            cfg.identifier = identifier;
            event_queue.insert(Event::InstanceUpdate);
        },
        ConfigChange::GlobalDistanceExternal(distance) => {
            cfg.distance.external = distance;
        },
        ConfigChange::GlobalDistanceInternal(distance) => {
            cfg.distance.internal = distance;
        },
        ConfigChange::GlobalUseMultiplePathsEnabled(enabled) => {
            cfg.multipath.enabled = enabled;
        },
        ConfigChange::GlobalUseMultiplePathsEbgpAllowMultipleAs(allow) => {
            cfg.multipath.ebgp_allow_multiple_as = allow;
        },
        ConfigChange::GlobalUseMultiplePathsEbgpMaximumPaths(max) => {
            cfg.multipath.ebgp_max_paths = max;
        },
        ConfigChange::GlobalUseMultiplePathsIbgpMaximumPaths(max) => {
            cfg.multipath.ibgp_max_paths = max;
        },
        ConfigChange::GlobalRouteSelectionOptionsAlwaysCompareMed(compare) => {
            cfg.route_selection.always_compare_med = compare;
        },
        ConfigChange::GlobalRouteSelectionOptionsIgnoreAsPathLength(ignore) => {
            cfg.route_selection.ignore_as_path_length = ignore;
        },
        ConfigChange::GlobalRouteSelectionOptionsExternalCompareRouterId(compare) => {
            cfg.route_selection.external_compare_router_id = compare;
        },
        ConfigChange::GlobalRouteSelectionOptionsIgnoreNextHopIgpMetric(ignore) => {
            cfg.route_selection.ignore_next_hop_igp_metric = ignore;
        },
        ConfigChange::GlobalRouteSelectionOptionsEnableMed(enable) => {
            cfg.route_selection.enable_med = enable;
        },
        ConfigChange::GlobalApplyPolicyImportPolicy(op, policy) => {
            match op {
                ConfigOp::Create => {
                    cfg.apply_policy.import_policy.insert(policy);
                },
                ConfigOp::Delete => {
                    cfg.apply_policy.import_policy.remove(&policy);
                },
            }
        },
        ConfigChange::GlobalApplyPolicyDefaultImportPolicy(default) => {
            cfg.apply_policy.default_import_policy = default;
        },
        ConfigChange::GlobalApplyPolicyExportPolicy(op, policy) => {
            match op {
                ConfigOp::Create => {
                    cfg.apply_policy.export_policy.insert(policy);
                },
                ConfigOp::Delete => {
                    cfg.apply_policy.export_policy.remove(&policy);
                },
            }
        },
        ConfigChange::GlobalApplyPolicyDefaultExportPolicy(default) => {
            cfg.apply_policy.default_export_policy = default;
        },
        ConfigChange::GlobalRejectAsSets(reject) => {
            cfg.reject_as_sets = reject;
        },
        _ => {},
    }
}

/// An instance and the queued events, after a change of the configuration.
/// Changes within entries that do not exist cannot be applied.
pub open spec fn instance_changed(i: InstanceView, q: Set<Event>, change: ConfigChange) -> Option<
    (InstanceView, Set<Event>),
> {
    match change {
        ConfigChange::GlobalAfiSafi(afi_safi, change) => match afi_safi_changed(
            i.config,
            q,
            i.defaults,
            afi_safi,
            change,
        ) {
            Some(r) => Some((InstanceView { config: r.0, ..i }, r.1)),
            None => None,
        },
        ConfigChange::GlobalTraceOptionsFlag(option, change) => Some(
            (
                InstanceView {
                    config: InstanceCfgView {
                        trace_opts: trace_options_changed(i.config.trace_opts, option, change, i.defaults.trace),
                        ..i.config
                    },
                    ..i
                },
                if trace_options_notes(i.config.trace_opts, option, change) {
                    q.insert(Event::UpdateTraceOptions)
                } else {
                    q
                },
            ),
        ),
        ConfigChange::Neighbor(addr, change) => neighbor_changed(i, q, addr, change),
        change => {
            let r = instance_cfg_changed(i.config, q, change);
            Some((InstanceView { config: r.0, ..i }, r.1))
        },
    }
}

/// Whether there is an index left for what a change creates.
pub open spec fn index_left(i: InstanceView, change: ConfigChange) -> bool {
    match change {
        ConfigChange::Neighbor(_, NeighborChange::Create) => i.next_index < PeerIndex::MAX,
        _ => true,
    }
}

/// Applies a change of the configuration, and queues what is to be done about
/// it.
pub fn apply_instance(instance: &mut Instance, change: ConfigChange, event_queue: &mut OrdSet<Event>) -> (r: Result<
    (),
    ApplyError,
>)
    requires
        index_left(old(instance)@, change),
    ensures
        match instance_changed(old(instance)@, old(event_queue)@, change) {
            Some(s) => r is Ok && (final(instance)@, final(event_queue)@) == s,
            None => r == Err::<(), ApplyError>(ApplyError::EntryNotFound) && final(instance)@ == old(instance)@
                && final(event_queue)@ == old(event_queue)@,
        },
{
    match change {
        ConfigChange::GlobalAfiSafi(afi_safi, change) => {
            return apply_afi_safi(&mut instance.config, &instance.defaults, afi_safi, change, event_queue);
        },
        ConfigChange::GlobalTraceOptionsFlag(option, change) => {
            if apply_trace_options(&mut instance.config.trace_opts, option, &change, instance.defaults.trace) {
                event_queue.insert(Event::UpdateTraceOptions);
            }
        },
        ConfigChange::Neighbor(addr, change) => {
            return apply_neighbor(instance, addr, change, event_queue);
        },
        change => {
            apply_instance_cfg(&mut instance.config, change, event_queue);
        },
    }
    Ok(())
}

// ===== events =====

/// Events of the session of a neighbor.
#[derive(Clone, Copy, Debug, PartialEq, Eq, Structural)]
pub enum FsmEvent {
    Start,
    Stop(Option<NotificationMsg>),
}

/// What remains to be done about an event, outside the configuration.
pub enum Action {
    InstanceUpdate,
    NeighborFsm(IpAddr, FsmEvent),
    NeighborRemove(IpAddr),
    /// Sets or unsets the password of a neighbor on listening sockets.
    Md5sigUpdate { listeners: Vec<usize>, addr: IpAddr, key: Option<String> },
    RedistributeSub(Protocol, AddressFamily),
    RedistributeUnsub(Protocol, AddressFamily),
    ScheduleDecisionProcess,
}

pub enum ActionView {
    InstanceUpdate,
    NeighborFsm(IpAddr, FsmEvent),
    NeighborRemove(IpAddr),
    Md5sigUpdate { listeners: Seq<usize>, addr: IpAddr, key: Option<Seq<char>> },
    RedistributeSub(Protocol, AddressFamily),
    RedistributeUnsub(Protocol, AddressFamily),
    ScheduleDecisionProcess,
}

impl View for Action {
    type V = ActionView;

    open spec fn view(&self) -> ActionView {
        match *self {
            Action::InstanceUpdate => ActionView::InstanceUpdate,
            Action::NeighborFsm(addr, event) => ActionView::NeighborFsm(addr, event),
            Action::NeighborRemove(addr) => ActionView::NeighborRemove(addr),
            Action::Md5sigUpdate { listeners, addr, key } => ActionView::Md5sigUpdate {
                listeners: listeners@,
                addr,
                key: opt_text(key),
            },
            Action::RedistributeSub(protocol, af) => ActionView::RedistributeSub(protocol, af),
            Action::RedistributeUnsub(protocol, af) => ActionView::RedistributeUnsub(protocol, af),
            Action::ScheduleDecisionProcess => ActionView::ScheduleDecisionProcess,
        }
    }
}

pub open spec fn actions_view(actions: Seq<Action>) -> Seq<ActionView> {
    actions.map_values(|a: Action| a@)
}

/// The sockets that listen on an address family, in order.
pub open spec fn listening_on(listeners: Seq<AddressFamily>, af: AddressFamily) -> Seq<usize>
    decreases listeners.len(),
{
    if listeners.len() == 0 {
        Seq::empty()
    } else {
        let rest = listening_on(listeners.drop_last(), af);
        if listeners.last() == af {
            rest.push((listeners.len() - 1) as usize)
        } else {
            rest
        }
    }
}

fn find_listeners(listeners: &Vec<AddressFamily>, af: AddressFamily) -> (r: Vec<usize>)
    ensures
        r@ == listening_on(listeners@, af),
{
    let mut r: Vec<usize> = Vec::new();
    let mut i: usize = 0;
    assert(listeners@.take(0) =~= Seq::empty());
    while i < listeners.len()
        invariant
            i <= listeners@.len(),
            r@ == listening_on(listeners@.take(i as int), af),
        decreases listeners@.len() - i,
    {
        if listeners[i] == af {
            r.push(i);
        }
        proof {
            assert(listeners@.take(i + 1).drop_last() =~= listeners@.take(i as int));
            assert(listeners@.take(i + 1).last() == listeners@[i as int]);
        }
        i += 1;
    }
    assert(listeners@.take(i as int) =~= listeners@);
    r
}

/// The password of a neighbor, if its sessions are to be secured.
pub open spec fn session_key(transport: NeighborTransportCfgView) -> Option<Seq<char>> {
    if transport.secure_session_enabled {
        transport.md5_key
    } else {
        None
    }
}

/// The neighbor that an event is about, where the event needs it to exist.
pub open spec fn event_neighbor(event: Event) -> Option<IpAddr> {
    match event {
        Event::NeighborUpdate(addr) => Some(addr),
        Event::NeighborDelete(addr) => Some(addr),
        Event::NeighborReset(addr, _) => Some(addr),
        Event::NeighborUpdateAuth(addr) => Some(addr),
        _ => None,
    }
}

/// What remains to be done about an event. `listeners` are the listening
/// sockets of the instance, if it is up.
pub open spec fn event_actions(i: InstanceView, listeners: Option<Seq<AddressFamily>>, event: Event) -> Seq<ActionView> {
    match (event, listeners) {
        (Event::InstanceUpdate, _) => seq![ActionView::InstanceUpdate],
        (Event::NeighborUpdate(addr), Some(_)) => seq![
            ActionView::NeighborFsm(
                addr,
                if i.neighbors[addr].config.enabled {
                    FsmEvent::Start
                } else {
                    FsmEvent::Stop(Some(NotificationMsg { error_subcode: CeaseSubcode::AdministrativeShutdown }))
                },
            ),
        ],
        (Event::NeighborDelete(addr), Some(afs)) => seq![
            ActionView::Md5sigUpdate { listeners: listening_on(afs, addr.family()), addr, key: None },
            ActionView::NeighborFsm(
                addr,
                FsmEvent::Stop(Some(NotificationMsg { error_subcode: CeaseSubcode::PeerDeConfigured })),
            ),
            ActionView::NeighborRemove(addr),
        ],
        (Event::NeighborReset(addr, msg), Some(_)) => seq![ActionView::NeighborFsm(addr, FsmEvent::Stop(Some(msg)))],
        (Event::NeighborUpdateAuth(addr), Some(afs)) => seq![
            ActionView::Md5sigUpdate {
                listeners: listening_on(afs, addr.family()),
                addr,
                key: session_key(i.neighbors[addr].config.transport),
            },
        ],
        (Event::RedistributeIbusSub(protocol, af), _) => seq![ActionView::RedistributeSub(protocol, af)],
        (Event::RedistributeDelete(protocol, af, _), None) => seq![ActionView::RedistributeUnsub(protocol, af)],
        (Event::RedistributeDelete(protocol, af, _), Some(_)) => seq![
            ActionView::RedistributeUnsub(protocol, af),
            ActionView::ScheduleDecisionProcess,
        ],
        _ => Seq::empty(),
    }
}

/// Whether the route that is redistributed to a destination comes from a
/// protocol.
pub open spec fn redistributed_from(dest: Destination, protocol: Protocol) -> bool {
    dest.redistribute matches Some(r) && r.origin == RouteOrigin::Protocol(protocol)
}

/// Whether a table is as before except that the routes redistributed from a
/// protocol are gone, with their prefixes queued for the Decision Process.
pub open spec fn redistribute_deleted(table: RoutingTable, old_table: RoutingTable, protocol: Protocol) -> bool {
    &&& table.prefixes@.dom() == old_table.prefixes@.dom()
    &&& forall|k: IpNetwork| #[trigger]
        old_table.prefixes@.contains_key(k) ==> table.prefixes@[k] == if redistributed_from(
            old_table.prefixes@[k],
            protocol,
        ) {
            Destination { redistribute: None, ..old_table.prefixes@[k] }
        } else {
            old_table.prefixes@[k]
        }
    &&& forall|k: IpNetwork| #[trigger]
        table.queued_prefixes@.contains(k) == (old_table.queued_prefixes@.contains(k) || (
        old_table.prefixes@.contains_key(k) && redistributed_from(old_table.prefixes@[k], protocol)))
    &&& table.nht == old_table.nht
    &&& table.prefix_counters == old_table.prefix_counters
}

/// Removes the routes redistributed from a protocol.
pub fn redistribute_delete(table: &mut RoutingTable, protocol: Protocol)
    ensures
        redistribute_deleted(*final(table), *old(table), protocol),
{
    let ghost t0 = *table;
    let n = table.prefixes.len();
    let ghost nets = table.prefixes.nets();
    let mut i: usize = 0;
    while i < n
        invariant
            i <= n,
            n == nets.len(),
            nets == table.prefixes.nets(),
            t0 == *old(table),
            t0.prefixes.nets() == nets,
            t0.prefixes.nets_listed(),
            table.nht == t0.nht,
            table.prefix_counters == t0.prefix_counters,
            table.prefixes@.dom() == t0.prefixes@.dom(),
            forall|j: int|
                #![trigger nets[j]]
                0 <= j < n ==> table.prefixes@[nets[j]] == (if j < i && redistributed_from(
                    t0.prefixes@[nets[j]],
                    protocol,
                ) {
                    Destination { redistribute: None, ..t0.prefixes@[nets[j]] }
                } else {
                    t0.prefixes@[nets[j]]
                }),
            forall|k: IpNetwork| #[trigger]
                table.queued_prefixes@.contains(k) == (t0.queued_prefixes@.contains(k) || exists|j: int|
                    0 <= j < i && (#[trigger] nets[j]) == k && redistributed_from(t0.prefixes@[k], protocol)),
        decreases n - i,
    {
        let prefix = table.prefixes.net_at(i);
        let ghost before = table.prefixes@;
        let dest = table.prefixes.value_at_mut(i);
        let ghost d0 = *dest;
        assert(d0 == t0.prefixes@[prefix]);
        let matched = match &dest.redistribute {
            Some(route) => match route.origin {
                RouteOrigin::Protocol(p) => p == protocol,
                _ => false,
            },
            None => false,
        };
        if matched {
            // Remove redistributed route.
            dest.redistribute = None;

            // Enqueue prefix for the BGP Decision Process.
            table.queued_prefixes.insert(prefix);
        }
        proof {
            assert(nets.contains(prefix));
            assert(before.contains_key(prefix));
            assert(table.prefixes@.dom() =~= before.dom());
            assert forall|k: IpNetwork| #[trigger] table.queued_prefixes@.contains(k) == (t0.queued_prefixes@.contains(k)
                || exists|j: int|
                0 <= j < i + 1 && (#[trigger] nets[j]) == k && redistributed_from(t0.prefixes@[k], protocol)) by {
                if k == prefix {
                    assert(nets[i as int] == k);
                }
            }
        }
        i += 1;
    }
    proof {
        assert forall|k: IpNetwork| #[trigger] t0.prefixes@.contains_key(k) implies nets.contains(k) by {}
        assert forall|k: IpNetwork| #[trigger] table.queued_prefixes@.contains(k) == (t0.queued_prefixes@.contains(k)
            || (t0.prefixes@.contains_key(k) && redistributed_from(t0.prefixes@[k], protocol))) by {
            if t0.prefixes@.contains_key(k) {
                assert(nets.contains(k));
            }
        }
    }
}

/// Whether the options of every neighbor are resolved against those of the
/// instance, everything else being as before.
pub open spec fn trace_options_resolved(
    neighbors: Map<IpAddr, NeighborView>,
    old_neighbors: Map<IpAddr, NeighborView>,
    instance: InstanceTraceOptions,
) -> bool {
    &&& neighbors.dom() == old_neighbors.dom()
    &&& forall|addr: IpAddr| #[trigger]
        old_neighbors.contains_key(addr) ==> neighbors[addr] == neighbor_resolved(old_neighbors[addr], instance)
}

/// A neighbor with its trace options resolved against those of the instance.
pub open spec fn neighbor_resolved(n: NeighborView, instance: InstanceTraceOptions) -> NeighborView {
    NeighborView {
        config: NeighborCfgView {
            trace_opts: NeighborTraceOptions {
                events_resolved: n.config.trace_opts.events.unwrap_or(instance.events),
                packets_resolved: packets_in_force(n.config.trace_opts.packets, instance.packets),
                ..n.config.trace_opts
            },
            ..n.config
        },
        ..n
    }
}

fn update_trace_options(instance: &mut Instance)
    ensures
        final(instance)@.config == old(instance)@.config,
        final(instance)@.next_index == old(instance)@.next_index,
        final(instance)@.defaults == old(instance)@.defaults,
        trace_options_resolved(final(instance)@.neighbors, old(instance)@.neighbors, old(instance)@.config.trace_opts),
{
    let ghost i0 = *instance;
    let trace_opts = instance.config.trace_opts;
    let n = instance.neighbors.len();
    let ghost keys = instance.neighbors.keys();
    let mut i: usize = 0;
    while i < n
        invariant
            i <= n,
            n == keys.len(),
            i0 == *old(instance),
            trace_opts == i0.config.trace_opts,
            keys == i0.neighbors.keys(),
            i0.neighbors.keys_sorted(),
            instance.neighbors.keys() == keys,
            instance.neighbors@.dom() == i0.neighbors@.dom(),
            instance.config == i0.config,
            instance.next_index == i0.next_index,
            instance.defaults == i0.defaults,
            forall|j: int|
                #![trigger keys[j]]
                0 <= j < n ==> instance.neighbors@[keys[j]]@ == (if j < i {
                    neighbor_resolved(i0.neighbors@[keys[j]]@, trace_opts)
                } else {
                    i0.neighbors@[keys[j]]@
                }),
        decreases n - i,
    {
        let ghost before = instance.neighbors@;
        let nbr = instance.neighbors.value_at_mut(i);
        let ghost n0 = *nbr;
        let resolved = resolve_packets(&nbr.config.trace_opts.packets, &trace_opts.packets);
        nbr.config.trace_opts.events_resolved = match nbr.config.trace_opts.events {
            Some(events) => events,
            None => trace_opts.events,
        };
        nbr.config.trace_opts.packets_resolved = resolved;
        proof {
            assert(nbr@ == neighbor_resolved(n0@, trace_opts));
            assert(i0.neighbors.keys().to_set().contains(keys[i as int]));
            assert(instance.neighbors@.dom() =~= before.dom());
        }
        i += 1;
    }
    proof {
        assert(views(instance.neighbors@).dom() =~= views(i0.neighbors@).dom());
        assert forall|addr: IpAddr| #[trigger] views(i0.neighbors@).contains_key(addr) implies views(
            instance.neighbors@,
        )[addr] == neighbor_resolved(views(i0.neighbors@)[addr], trace_opts) by {
            assert(keys.to_set().contains(addr));
            let j = choose|j: int| 0 <= j < keys.len() && keys[j] == addr;
            assert(instance.neighbors@[keys[j]]@ == neighbor_resolved(i0.neighbors@[keys[j]]@, trace_opts));
        }
    }
}

/// The routing table of an address family.
pub open spec fn table_of(rib: Rib, afi_safi: AfiSafi) -> RoutingTable {
    match afi_safi {
        AfiSafi::Ipv4Unicast => rib.tables.ipv4_unicast,
        AfiSafi::Ipv6Unicast => rib.tables.ipv6_unicast,
    }
}

/// The other address family.
pub open spec fn other_family(afi_safi: AfiSafi) -> AfiSafi {
    match afi_safi {
        AfiSafi::Ipv4Unicast => AfiSafi::Ipv6Unicast,
        AfiSafi::Ipv6Unicast => AfiSafi::Ipv4Unicast,
    }
}

/// What an event does to the routes of an instance that is up.
pub open spec fn event_routes(state: InstanceState, old_state: InstanceState, event: Event) -> bool {
    match event {
        Event::RedistributeDelete(protocol, _, afi_safi) => {
            &&& redistribute_deleted(
                table_of(state.rib, afi_safi),
                table_of(old_state.rib, afi_safi),
                protocol,
            )
            &&& table_of(state.rib, other_family(afi_safi)) == table_of(old_state.rib, other_family(afi_safi))
            &&& state.rib.attr_sets == old_state.rib.attr_sets
            &&& state.listeners == old_state.listeners
        },
        _ => state == old_state,
    }
}

/// Whether an event can be processed: the neighbor that it concerns exists, if
/// the instance is up.
pub open spec fn event_expected(i: InstanceView, up: bool, event: Event) -> bool {
    up ==> (event_neighbor(event) matches Some(addr) ==> i.neighbors.contains_key(addr))
}

/// The sockets that listen while an instance is up.
pub open spec fn listeners_of(state: Option<InstanceState>) -> Option<Seq<AddressFamily>> {
    match state {
        Some(s) => Some(s.listeners@),
        None => None,
    }
}

/// What an instance is after an event was processed.
pub open spec fn event_handled(
    i: InstanceView,
    state: Option<InstanceState>,
    next: InstanceView,
    next_state: Option<InstanceState>,
    event: Event,
) -> bool {
    &&& next.config == i.config
    &&& next.next_index == i.next_index
    &&& next.defaults == i.defaults
    &&& if event == Event::UpdateTraceOptions {
        trace_options_resolved(next.neighbors, i.neighbors, i.config.trace_opts)
    } else {
        next.neighbors == i.neighbors
    }
    &&& match (next_state, state) {
        (Some(s), Some(s0)) => event_routes(s, s0, event),
        (None, None) => true,
        _ => false,
    }
}

/// Processes a queued event. Returns what remains to be done about it, in
/// order.
pub fn process_event(instance: &mut Instance, state: &mut Option<InstanceState>, event: Event) -> (actions: Vec<Action>)
    requires
        event_expected(old(instance)@, *old(state) is Some, event),
    ensures
        actions_view(actions@) == event_actions(old(instance)@, listeners_of(*old(state)), event),
        event_handled(old(instance)@, *old(state), final(instance)@, *final(state), event),
{
    let mut actions: Vec<Action> = Vec::new();
    match event {
        Event::InstanceUpdate => {
            actions.push(Action::InstanceUpdate);
        },
        Event::NeighborUpdate(addr) => {
            if state.is_some() {
                if let Some(nbr) = instance.neighbors.get(&addr) {
                    let event = if nbr.config.enabled {
                        FsmEvent::Start
                    } else {
                        FsmEvent::Stop(Some(NotificationMsg { error_subcode: CeaseSubcode::AdministrativeShutdown }))
                    };
                    actions.push(Action::NeighborFsm(addr, event));
                }
            }
        },
        Event::NeighborDelete(addr) => {
            if let Some(state) = &*state {
                // Unset neighbor's password in the listening sockets.
                let listeners = find_listeners(&state.listeners, addr.address_family());
                actions.push(Action::Md5sigUpdate { listeners, addr, key: None });

                // Delete neighbor.
                let msg = NotificationMsg { error_subcode: CeaseSubcode::PeerDeConfigured };
                actions.push(Action::NeighborFsm(addr, FsmEvent::Stop(Some(msg))));
                actions.push(Action::NeighborRemove(addr));
            }
        },
        Event::NeighborReset(addr, msg) => {
            if state.is_some() {
                actions.push(Action::NeighborFsm(addr, FsmEvent::Stop(Some(msg))));
            }
        },
        Event::NeighborUpdateAuth(addr) => {
            if let Some(state) = &*state {
                if let Some(nbr) = instance.neighbors.get(&addr) {
                    // Get neighbor password.
                    let key = if nbr.config.transport.secure_session_enabled {
                        dup_text(&nbr.config.transport.md5_key)
                    } else {
                        None
                    };

                    // Set/unset password in the listening sockets.
                    let listeners = find_listeners(&state.listeners, addr.address_family());
                    actions.push(Action::Md5sigUpdate { listeners, addr, key });
                }
            }
        },
        Event::RedistributeIbusSub(protocol, af) => {
            actions.push(Action::RedistributeSub(protocol, af));
        },
        Event::RedistributeDelete(protocol, af, afi_safi) => {
            actions.push(Action::RedistributeUnsub(protocol, af));
            if let Some(state) = state {
                match afi_safi {
                    AfiSafi::Ipv4Unicast => {
                        redistribute_delete(&mut state.rib.tables.ipv4_unicast, protocol);
                    },
                    AfiSafi::Ipv6Unicast => {
                        redistribute_delete(&mut state.rib.tables.ipv6_unicast, protocol);
                    },
                }

                // Schedule the BGP Decision Process.
                actions.push(Action::ScheduleDecisionProcess);
            }
        },
        Event::UpdateTraceOptions => {
            update_trace_options(instance);
        },
    }
    assert(actions_view(actions@) =~= event_actions(
        old(instance)@,
        match *old(state) {
            Some(s) => Some(s.listeners@),
            None => None,
        },
        event,
    ));
    actions
}

// ===== configuration helpers =====

/// Kinds of messages.
#[derive(Clone, Copy, Debug, PartialEq, Eq, Structural)]
pub enum MessageType {
    Open,
    Update,
    Notification,
    Keepalive,
    RouteRefresh,
}

impl TraceOptionPacketResolved {
    pub open spec fn option(self, msg: MessageType) -> TraceOptionPacketType {
        match msg {
            MessageType::Open => self.open,
            MessageType::Update => self.update,
            MessageType::Notification => self.notification,
            MessageType::Keepalive => self.keepalive,
            MessageType::RouteRefresh => self.refresh,
        }
    }

    /// Whether a message is traced when it is sent.
    pub fn tx(&self, msg: MessageType) -> (r: bool)
        ensures
            r == self.option(msg).tx,
    {
        match msg {
            MessageType::Open => self.open.tx,
            MessageType::Update => self.update.tx,
            MessageType::Notification => self.notification.tx,
            MessageType::Keepalive => self.keepalive.tx,
            MessageType::RouteRefresh => self.refresh.tx,
        }
    }

    /// Whether a message is traced when it is received.
    pub fn rx(&self, msg: MessageType) -> (r: bool)
        ensures
            r == self.option(msg).rx,
    {
        match msg {
            MessageType::Open => self.open.rx,
            MessageType::Update => self.update.rx,
            MessageType::Notification => self.notification.rx,
            MessageType::Keepalive => self.keepalive.rx,
            MessageType::RouteRefresh => self.refresh.rx,
        }
    }
}

// ===== laws =====

/// Deleting an address family right after creating it leaves the others as
/// they were.
pub proof fn afi_safi_delete_undoes_create(c: InstanceCfgView, q: Set<Event>, d: Defaults, afi_safi: AfiSafi)
    ensures
        afi_safi_changed(c, q, d, afi_safi, GlobalAfiSafiChange::Create) matches Some(a) && afi_safi_changed(
            a.0,
            a.1,
            d,
            afi_safi,
            GlobalAfiSafiChange::Delete,
        ) matches Some(b) && b.0 == (InstanceCfgView { afi_safi: c.afi_safi.remove(afi_safi), ..c }) && b.1 == q,
{
    assert(
        c.afi_safi.insert(
            afi_safi,
            InstanceAfiSafiCfg::initial(d),
        ).remove(afi_safi) =~= c.afi_safi.remove(afi_safi)
    );
}

/// The type of a neighbor follows from its AS number: it is internal exactly
/// if it has that of the instance.
pub proof fn peer_type_follows_peer_as(n: NeighborView, q: Set<Event>, d: Defaults, asn: u32, peer_as: u32)
    ensures
        neighbor_entry_changed(n, q, d, asn, NeighborEntryChange::PeerAs(peer_as)) matches Some(r) && {
            &&& r.0.config.peer_as == peer_as
            &&& (r.0.session.peer_type == PeerType::Internal) == (peer_as == asn)
        },
{
}

/// A change within a neighbor concerns no other neighbor, nor the values of the
/// instance.
pub proof fn neighbor_changes_are_local(
    i: InstanceView,
    q: Set<Event>,
    addr: IpAddr,
    change: NeighborChange,
    other: IpAddr,
)
    requires
        other != addr,
    ensures
        neighbor_changed(i, q, addr, change) matches Some(r) ==> {
            &&& r.0.config == i.config
            &&& r.0.neighbors.contains_key(other) == i.neighbors.contains_key(other)
            &&& i.neighbors.contains_key(other) ==> r.0.neighbors[other] == i.neighbors[other]
        },
{
}

} // verus!
