//! Configuration of IS-IS.

use std::sync::Arc;

use vstd::prelude::*;

use crate::bfd::client::{ClientCfg, SessionKey, State};
use crate::bgp::policy::RouteOpaqueAttrs;
use crate::collections::{
    ascending, filter_map, filter_map_step, flag, flat_map, flat_map_step, to_flag, views, views_insert,
    views_remove, Key, OrdSet,
    Table,
};
use crate::crypto::CryptoAlgo;
use crate::ip::{AddressFamily, IpNetwork, Ipv4Addr, Ipv6Addr};
use crate::isis::types::{
    AreaAddr, FloodingAlgo, InterfaceIndex, InterfaceType, LevelNumber, LevelType, MacAddr, MtId, PduType,
    RedistributionKey, SpbServiceKey, StandardApp, SystemId,
};
use crate::keychain::{Keychain, KeyView};
use crate::northbound::configuration::{member, ConfigOp, InheritableConfig};
use crate::northbound::error::ApplyError;
pub use crate::northbound::trace::TraceOptionPacketType;
use crate::northbound::trace::{
    apply_flag, apply_slot, flag_changed, resolve, resolved, slot_changed, slot_notes, TraceFlagChange,
};
use crate::prefix_table::PrefixTable;
use crate::protocol::Protocol;
use crate::sync::share;
use crate::text::opt_text;

verus! {

/// Resources that changes need: none, so none can be made.
#[derive(Debug)]
pub struct Resource(());

/// What is to be done once the configuration is fully updated, in this order.
#[derive(Clone, Copy, Debug, PartialEq, Eq, Structural)]
pub enum Event {
    InstanceReset,
    InstanceUpdate,
    InterfaceUpdate(InterfaceIndex),
    InstanceLevelTypeUpdate,
    InstanceTopologyUpdate,
    InterfaceDelete(InterfaceIndex),
    InterfaceReset(InterfaceIndex),
    InterfaceRestartNetwork(InterfaceIndex),
    InstanceUpdateAuth,
    InterfaceUpdateAuth(InterfaceIndex),
    InterfacePriorityChange(InterfaceIndex, LevelNumber),
    InterfaceUpdateHelloInterval(InterfaceIndex, LevelNumber),
    InterfaceUpdateCsnpInterval(InterfaceIndex),
    InterfaceBfdChange(InterfaceIndex),
    InterfaceUpdateTraceOptions(InterfaceIndex),
    InterfaceIbusSub(InterfaceIndex),
    ReoriginateLsps(LevelNumber),
    RefreshLsps,
    RerunSpf,
    ReinstallRoutes,
    OverloadChange(bool),
    SrEnabledChange(bool),
    RedistributeAdd(AddressFamily, Protocol),
    RedistributeDelete(AddressFamily, LevelNumber, Protocol),
    UpdateTraceOptions,
}

impl View for Event {
    type V = Event;

    open spec fn view(&self) -> Event {
        *self
    }
}

impl Event {
    pub open spec fn rank(self) -> u128 {
        match self {
            Event::InstanceReset => 0,
            Event::InstanceUpdate => 1,
            Event::InterfaceUpdate(..) => 2,
            Event::InstanceLevelTypeUpdate => 3,
            Event::InstanceTopologyUpdate => 4,
            Event::InterfaceDelete(..) => 5,
            Event::InterfaceReset(..) => 6,
            Event::InterfaceRestartNetwork(..) => 7,
            Event::InstanceUpdateAuth => 8,
            Event::InterfaceUpdateAuth(..) => 9,
            Event::InterfacePriorityChange(..) => 10,
            Event::InterfaceUpdateHelloInterval(..) => 11,
            Event::InterfaceUpdateCsnpInterval(..) => 12,
            Event::InterfaceBfdChange(..) => 13,
            Event::InterfaceUpdateTraceOptions(..) => 14,
            Event::InterfaceIbusSub(..) => 15,
            Event::ReoriginateLsps(..) => 16,
            Event::RefreshLsps => 17,
            Event::RerunSpf => 18,
            Event::ReinstallRoutes => 19,
            Event::OverloadChange(..) => 20,
            Event::SrEnabledChange(..) => 21,
            Event::RedistributeAdd(..) => 22,
            Event::RedistributeDelete(..) => 23,
            Event::UpdateTraceOptions => 24,
        }
    }

    /// The numbers by which events of the same kind are ordered.
    pub open spec fn arg(self, i: int) -> u128 {
        match self {
            Event::InstanceReset => 0,
            Event::InstanceUpdate => 0,
            Event::InterfaceUpdate(a) => if i == 0 {
                a as u128
            } else {
                0
            },
            Event::InstanceLevelTypeUpdate => 0,
            Event::InstanceTopologyUpdate => 0,
            Event::InterfaceDelete(a) => if i == 0 {
                a as u128
            } else {
                0
            },
            Event::InterfaceReset(a) => if i == 0 {
                a as u128
            } else {
                0
            },
            Event::InterfaceRestartNetwork(a) => if i == 0 {
                a as u128
            } else {
                0
            },
            Event::InstanceUpdateAuth => 0,
            Event::InterfaceUpdateAuth(a) => if i == 0 {
                a as u128
            } else {
                0
            },
            Event::InterfacePriorityChange(a, b) => if i == 0 {
                a as u128
            } else if i == 1 {
                b.rank()
            } else {
                0
            },
            Event::InterfaceUpdateHelloInterval(a, b) => if i == 0 {
                a as u128
            } else if i == 1 {
                b.rank()
            } else {
                0
            },
            Event::InterfaceUpdateCsnpInterval(a) => if i == 0 {
                a as u128
            } else {
                0
            },
            Event::InterfaceBfdChange(a) => if i == 0 {
                a as u128
            } else {
                0
            },
            Event::InterfaceUpdateTraceOptions(a) => if i == 0 {
                a as u128
            } else {
                0
            },
            Event::InterfaceIbusSub(a) => if i == 0 {
                a as u128
            } else {
                0
            },
            Event::ReoriginateLsps(a) => if i == 0 {
                a.rank()
            } else {
                0
            },
            Event::RefreshLsps => 0,
            Event::RerunSpf => 0,
            Event::ReinstallRoutes => 0,
            Event::OverloadChange(a) => if i == 0 {
                flag(a)
            } else {
                0
            },
            Event::SrEnabledChange(a) => if i == 0 {
                flag(a)
            } else {
                0
            },
            Event::RedistributeAdd(a, b) => if i == 0 {
                a.rank()
            } else if i == 1 {
                b.rank()
            } else {
                0
            },
            Event::RedistributeDelete(a, b, c) => if i == 0 {
                a.rank()
            } else if i == 1 {
                b.rank()
            } else if i == 2 {
                c.rank()
            } else {
                0
            },
            Event::UpdateTraceOptions => 0,
        }
    }
}

impl Key for Event {
    open spec fn code(v: Event) -> Seq<u128> {
        seq![v.rank(), v.arg(0), v.arg(1), v.arg(2)]
    }

    proof fn code_injective(a: Event, b: Event) {
        let (x, y) = (Self::code(a), Self::code(b));
        assert(x[0] == a.rank() && y[0] == b.rank());
        assert(x[1] == a.arg(0) && y[1] == b.arg(0));
        assert(x[2] == a.arg(1) && y[2] == b.arg(1));
        assert(x[3] == a.arg(2) && y[3] == b.arg(2));
    }

    fn to_code(&self) -> Vec<u128> {
        let c: Vec<u128> = match self {
            Event::InstanceReset => vec![0, 0, 0, 0],
            Event::InstanceUpdate => vec![1, 0, 0, 0],
            Event::InterfaceUpdate(a) => vec![2, *a as u128, 0, 0],
            Event::InstanceLevelTypeUpdate => vec![3, 0, 0, 0],
            Event::InstanceTopologyUpdate => vec![4, 0, 0, 0],
            Event::InterfaceDelete(a) => vec![5, *a as u128, 0, 0],
            Event::InterfaceReset(a) => vec![6, *a as u128, 0, 0],
            Event::InterfaceRestartNetwork(a) => vec![7, *a as u128, 0, 0],
            Event::InstanceUpdateAuth => vec![8, 0, 0, 0],
            Event::InterfaceUpdateAuth(a) => vec![9, *a as u128, 0, 0],
            Event::InterfacePriorityChange(a, b) => vec![10, *a as u128, b.to_rank(), 0],
            Event::InterfaceUpdateHelloInterval(a, b) => vec![11, *a as u128, b.to_rank(), 0],
            Event::InterfaceUpdateCsnpInterval(a) => vec![12, *a as u128, 0, 0],
            Event::InterfaceBfdChange(a) => vec![13, *a as u128, 0, 0],
            Event::InterfaceUpdateTraceOptions(a) => vec![14, *a as u128, 0, 0],
            Event::InterfaceIbusSub(a) => vec![15, *a as u128, 0, 0],
            Event::ReoriginateLsps(a) => vec![16, a.to_rank(), 0, 0],
            Event::RefreshLsps => vec![17, 0, 0, 0],
            Event::RerunSpf => vec![18, 0, 0, 0],
            Event::ReinstallRoutes => vec![19, 0, 0, 0],
            Event::OverloadChange(a) => vec![20, to_flag(*a), 0, 0],
            Event::SrEnabledChange(a) => vec![21, to_flag(*a), 0, 0],
            Event::RedistributeAdd(a, b) => vec![22, a.to_rank(), b.to_rank(), 0],
            Event::RedistributeDelete(a, b, c) => vec![23, a.to_rank(), b.to_rank(), c.to_rank()],
            Event::UpdateTraceOptions => vec![24, 0, 0, 0],
        };
        assert(c@ =~= Self::code(self@));
        c
    }

    fn copy_key(&self) -> Event {
        *self
    }
}

// ===== configuration structs =====

pub struct InstanceCfg {
    pub enabled: bool,
    pub level_type: LevelType,
    pub system_id: Option<SystemId>,
    pub area_addrs: OrdSet<AreaAddr>,
    pub lsp_mtu: u16,
    pub lsp_lifetime: u16,
    pub lsp_refresh: u16,
    pub purge_originator: bool,
    pub node_tags: OrdSet<u32>,
    pub metric_type: LevelsCfgWithDefault<MetricType>,
    pub default_metric: LevelsCfgWithDefault<u32>,
    pub auth: LevelsCfg<AuthCfg>,
    pub auth_resolved: Option<AuthMethod>,
    pub ipv4_router_id: Option<Ipv4Addr>,
    pub ipv6_router_id: Option<Ipv6Addr>,
    pub max_paths: u16,
    pub afs: Table<AddressFamily, AddressFamilyCfg>,
    pub spf_initial_delay: u32,
    pub spf_short_delay: u32,
    pub spf_long_delay: u32,
    pub spf_hold_down: u32,
    pub spf_time_to_learn: u32,
    pub preference: Preference,
    pub overload_status: bool,
    pub mt: Table<MtId, InstanceMtCfg>,
    pub link_attr_mode: LinkAttrMode,
    pub summaries: PrefixTable<SummaryCfg>,
    pub flooding_reduction: InstanceFloodingReductionCfg,
    pub att_suppress: bool,
    pub att_ignore: bool,
    pub sr: InstanceSrCfg,
    pub bier: InstanceBierCfg,
    pub spb: InstanceSpbCfg,
    pub trace_opts: InstanceTraceOptions,
}

#[derive(Clone, Copy, Debug, PartialEq, Eq, Structural)]
pub struct InstanceMtCfg {
    pub enabled: bool,
    pub default_metric: LevelsCfgWithDefault<u32>,
}

/// Per-application application-specific link attributes configuration.
#[derive(Clone, Copy, Debug, PartialEq, Eq, Structural)]
pub struct InterfaceAslaCfg {
    pub te_metric: Option<u32>,
    pub admin_group: Option<u32>,
}

#[derive(Clone, Copy, Debug, PartialEq, Eq, Structural)]
pub struct InstanceFloodingReductionCfg {
    pub algo: FloodingAlgo,
}

#[derive(Clone, Copy, Debug, PartialEq, Eq, Structural)]
pub struct InstanceSrCfg {
    pub enabled: bool,
}

#[derive(Clone, Copy, Debug, PartialEq, Eq, Structural)]
pub struct InstanceBierCfg {
    pub mt_id: u8,
    pub enabled: bool,
    pub advertise: bool,
    pub receive: bool,
}

pub struct InstanceSpbCfg {
    pub enabled: bool,
    pub services: Table<SpbServiceKey, SpbServiceCfg>,
}

/// Configuration for an SPB service entry.
pub struct SpbServiceCfg {
    pub isids: Table<u32, SpbIsidCfg>,
}

/// Configuration for an I-SID entry.
#[derive(Clone, Copy, Debug, PartialEq, Eq, Structural)]
pub struct SpbIsidCfg {
    pub transmit: bool,
    pub receive: bool,
}

#[derive(Clone, Copy, Debug, PartialEq, Eq, Structural)]
pub struct InstanceTraceOptions {
    pub flood_reduction: bool,
    pub ibus: bool,
    pub lsdb: bool,
    pub packets: TraceOptionPacket,
    pub spf: bool,
}

pub struct AddressFamilyCfg {
    pub enabled: bool,
    pub redistribution: Table<RedistributionKey, RedistributionCfg>,
}

#[derive(Clone, Copy, Debug, PartialEq, Eq, Structural)]
pub struct Preference {
    pub internal: u8,
    pub external: u8,
}

#[derive(Clone, Copy, Debug, PartialEq, Eq, Structural)]
pub struct RedistributionCfg {}

#[derive(Clone, Copy, Debug, PartialEq, Eq, Structural)]
pub struct SummaryCfg {
    pub metric: Option<u32>,
}

pub struct InterfaceCfg {
    pub enabled: bool,
    pub level_type: InheritableConfig<LevelType>,
    pub lsp_pacing_interval: u32,
    pub lsp_rxmt_interval: u16,
    pub passive: bool,
    pub csnp_interval: u16,
    pub csnp_disable: bool,
    pub hello_padding: bool,
    pub interface_type: InterfaceType,
    pub node_flag: bool,
    pub hello_auth: LevelsCfg<AuthCfg>,
    pub hello_auth_resolved: Option<AuthMethod>,
    pub hello_interval: LevelsCfgWithDefault<u16>,
    pub hello_multiplier: LevelsCfgWithDefault<u16>,
    pub priority: LevelsCfgWithDefault<u8>,
    pub metric: LevelsCfgWithDefault<u32>,
    pub bfd_enabled: bool,
    pub bfd_params: ClientCfg,
    pub afs: OrdSet<AddressFamily>,
    pub mt: Table<MtId, InterfaceMtCfg>,
    pub asla: Table<StandardApp, InterfaceAslaCfg>,
    pub ext_seqnum_mode: LevelsCfg<Option<ExtendedSeqNumMode>>,
    pub trace_opts: InterfaceTraceOptions,
}

#[derive(Clone, Copy, Debug, PartialEq, Eq, Structural)]
pub struct InterfaceMtCfg {
    pub enabled: bool,
    pub metric: LevelsCfgWithDefault<u32>,
}

#[derive(Clone, Copy, Debug, PartialEq, Eq, Structural)]
pub struct InterfaceTraceOptions {
    pub packets: TraceOptionPacket,
    pub packets_resolved: TraceOptionPacketResolved,
}

pub struct AuthCfg {
    pub keychain: Option<String>,
    pub key: Option<String>,
    pub key_id: Option<u16>,
    pub algo: Option<CryptoAlgo>,
}

#[derive(Clone, Copy, Debug, PartialEq, Eq, Structural)]
pub struct TraceOptionPacket {
    pub all: Option<TraceOptionPacketType>,
    pub hello: Option<TraceOptionPacketType>,
    pub psnp: Option<TraceOptionPacketType>,
    pub csnp: Option<TraceOptionPacketType>,
    pub lsp: Option<TraceOptionPacketType>,
}

#[derive(Clone, Copy, Debug, PartialEq, Eq, Structural)]
pub struct TraceOptionPacketResolved {
    pub hello: TraceOptionPacketType,
    pub psnp: TraceOptionPacketType,
    pub csnp: TraceOptionPacketType,
    pub lsp: TraceOptionPacketType,
}

/// A value for all levels, and those that override it at one level.
#[derive(Clone, Copy, Debug, PartialEq, Eq, Structural)]
pub struct LevelsCfgWithDefault<T> {
    pub all: T,
    pub l1: Option<T>,
    pub l2: Option<T>,
}

/// A value for all levels, and those at one level.
pub struct LevelsCfg<T> {
    pub all: T,
    pub l1: T,
    pub l2: T,
}

/// Operation mode for link attribute advertisements (RFC 9479).
#[derive(Clone, Copy, Debug, PartialEq, Eq, Structural)]
pub enum LinkAttrMode {
    /// Advertise only legacy link attributes.
    Legacy,
    /// Advertise both legacy and application-specific link attributes.
    Transition,
    /// Advertise only application-specific link attributes.
    AppSpecific,
}

#[derive(Clone, Copy, Debug, PartialEq, Eq, Structural)]
pub enum MetricType {
    Standard,
    Wide,
    Both,
}

#[derive(Clone, Copy, Debug, PartialEq, Eq, Structural)]
pub enum ExtendedSeqNumMode {
    SendOnly,
    SendAndVerify,
}

#[derive(Clone, Copy, Debug, PartialEq, Eq, Structural)]
pub enum InstanceTraceOption {
    FloodReduction,
    InternalBus,
    Lsdb,
    PacketsAll,
    PacketsHello,
    PacketsPsnp,
    PacketsCsnp,
    PacketsLsp,
    Spf,
}

#[derive(Clone, Copy, Debug, PartialEq, Eq, Structural)]
pub enum InterfaceTraceOption {
    PacketsAll,
    PacketsHello,
    PacketsPsnp,
    PacketsCsnp,
    PacketsLsp,
}

/// How PDUs are authenticated.
pub enum AuthMethod {
    ManualKey(crate::keychain::Key),
    Keychain(Arc<Keychain>),
}

#[allow(inconsistent_fields)]
pub enum AuthMethodView {
    ManualKey(KeyView),
    Keychain(Arc<Keychain>),
}

impl View for AuthMethod {
    type V = AuthMethodView;

    open spec fn view(&self) -> AuthMethodView {
        match *self {
            AuthMethod::ManualKey(key) => AuthMethodView::ManualKey(key@),
            AuthMethod::Keychain(keychain) => AuthMethodView::Keychain(keychain),
        }
    }
}

pub open spec fn auth_view(auth: Option<AuthMethod>) -> Option<AuthMethodView> {
    match auth {
        Some(auth) => Some(auth@),
        None => None,
    }
}

// ===== views =====

impl View for LevelsCfg<AuthCfg> {
    type V = LevelsCfg<AuthCfgView>;

    open spec fn view(&self) -> LevelsCfg<AuthCfgView> {
        LevelsCfg { all: self.all@, l1: self.l1@, l2: self.l2@ }
    }
}

pub struct AuthCfgView {
    pub keychain: Option<Seq<char>>,
    pub key: Option<Seq<char>>,
    pub key_id: Option<u16>,
    pub algo: Option<CryptoAlgo>,
}

impl View for AuthCfg {
    type V = AuthCfgView;

    open spec fn view(&self) -> AuthCfgView {
        AuthCfgView {
            keychain: opt_text(self.keychain),
            key: opt_text(self.key),
            key_id: self.key_id,
            algo: self.algo,
        }
    }
}

pub struct SpbServiceCfgView {
    pub isids: Map<u32, SpbIsidCfg>,
}

impl View for SpbServiceCfg {
    type V = SpbServiceCfgView;

    open spec fn view(&self) -> SpbServiceCfgView {
        SpbServiceCfgView {
            isids: self.isids@,
        }
    }
}

pub struct InstanceSpbCfgView {
    pub enabled: bool,
    pub services: Map<SpbServiceKey, SpbServiceCfgView>,
}

impl View for InstanceSpbCfg {
    type V = InstanceSpbCfgView;

    open spec fn view(&self) -> InstanceSpbCfgView {
        InstanceSpbCfgView {
            enabled: self.enabled,
            services: views(self.services@),
        }
    }
}

pub struct AddressFamilyCfgView {
    pub enabled: bool,
    pub redistribution: Map<RedistributionKey, RedistributionCfg>,
}

impl View for AddressFamilyCfg {
    type V = AddressFamilyCfgView;

    open spec fn view(&self) -> AddressFamilyCfgView {
        AddressFamilyCfgView {
            enabled: self.enabled,
            redistribution: self.redistribution@,
        }
    }
}

pub struct InstanceCfgView {
    pub enabled: bool,
    pub level_type: LevelType,
    pub system_id: Option<SystemId>,
    pub area_addrs: Set<AreaAddr>,
    pub lsp_mtu: u16,
    pub lsp_lifetime: u16,
    pub lsp_refresh: u16,
    pub purge_originator: bool,
    pub node_tags: Set<u32>,
    pub metric_type: LevelsCfgWithDefault<MetricType>,
    pub default_metric: LevelsCfgWithDefault<u32>,
    pub auth: LevelsCfg<AuthCfgView>,
    pub auth_resolved: Option<AuthMethodView>,
    pub ipv4_router_id: Option<Ipv4Addr>,
    pub ipv6_router_id: Option<Ipv6Addr>,
    pub max_paths: u16,
    pub afs: Map<AddressFamily, AddressFamilyCfgView>,
    pub spf_initial_delay: u32,
    pub spf_short_delay: u32,
    pub spf_long_delay: u32,
    pub spf_hold_down: u32,
    pub spf_time_to_learn: u32,
    pub preference: Preference,
    pub overload_status: bool,
    pub mt: Map<MtId, InstanceMtCfg>,
    pub link_attr_mode: LinkAttrMode,
    pub summaries: Map<IpNetwork, SummaryCfg>,
    pub flooding_reduction: InstanceFloodingReductionCfg,
    pub att_suppress: bool,
    pub att_ignore: bool,
    pub sr: InstanceSrCfg,
    pub bier: InstanceBierCfg,
    pub spb: InstanceSpbCfgView,
    pub trace_opts: InstanceTraceOptions,
}

impl View for InstanceCfg {
    type V = InstanceCfgView;

    open spec fn view(&self) -> InstanceCfgView {
        InstanceCfgView {
            enabled: self.enabled,
            level_type: self.level_type,
            system_id: self.system_id,
            area_addrs: self.area_addrs@,
            lsp_mtu: self.lsp_mtu,
            lsp_lifetime: self.lsp_lifetime,
            lsp_refresh: self.lsp_refresh,
            purge_originator: self.purge_originator,
            node_tags: self.node_tags@,
            metric_type: self.metric_type,
            default_metric: self.default_metric,
            auth: self.auth@,
            auth_resolved: auth_view(self.auth_resolved),
            ipv4_router_id: self.ipv4_router_id,
            ipv6_router_id: self.ipv6_router_id,
            max_paths: self.max_paths,
            afs: views(self.afs@),
            spf_initial_delay: self.spf_initial_delay,
            spf_short_delay: self.spf_short_delay,
            spf_long_delay: self.spf_long_delay,
            spf_hold_down: self.spf_hold_down,
            spf_time_to_learn: self.spf_time_to_learn,
            preference: self.preference,
            overload_status: self.overload_status,
            mt: self.mt@,
            link_attr_mode: self.link_attr_mode,
            summaries: self.summaries@,
            flooding_reduction: self.flooding_reduction,
            att_suppress: self.att_suppress,
            att_ignore: self.att_ignore,
            sr: self.sr,
            bier: self.bier,
            spb: self.spb@,
            trace_opts: self.trace_opts,
        }
    }
}

pub struct InterfaceCfgView {
    pub enabled: bool,
    pub level_type: InheritableConfig<LevelType>,
    pub lsp_pacing_interval: u32,
    pub lsp_rxmt_interval: u16,
    pub passive: bool,
    pub csnp_interval: u16,
    pub csnp_disable: bool,
    pub hello_padding: bool,
    pub interface_type: InterfaceType,
    pub node_flag: bool,
    pub hello_auth: LevelsCfg<AuthCfgView>,
    pub hello_auth_resolved: Option<AuthMethodView>,
    pub hello_interval: LevelsCfgWithDefault<u16>,
    pub hello_multiplier: LevelsCfgWithDefault<u16>,
    pub priority: LevelsCfgWithDefault<u8>,
    pub metric: LevelsCfgWithDefault<u32>,
    pub bfd_enabled: bool,
    pub bfd_params: ClientCfg,
    pub afs: Set<AddressFamily>,
    pub mt: Map<MtId, InterfaceMtCfg>,
    pub asla: Map<StandardApp, InterfaceAslaCfg>,
    pub ext_seqnum_mode: LevelsCfg<Option<ExtendedSeqNumMode>>,
    pub trace_opts: InterfaceTraceOptions,
}

impl View for InterfaceCfg {
    type V = InterfaceCfgView;

    open spec fn view(&self) -> InterfaceCfgView {
        InterfaceCfgView {
            enabled: self.enabled,
            level_type: self.level_type,
            lsp_pacing_interval: self.lsp_pacing_interval,
            lsp_rxmt_interval: self.lsp_rxmt_interval,
            passive: self.passive,
            csnp_interval: self.csnp_interval,
            csnp_disable: self.csnp_disable,
            hello_padding: self.hello_padding,
            interface_type: self.interface_type,
            node_flag: self.node_flag,
            hello_auth: self.hello_auth@,
            hello_auth_resolved: auth_view(self.hello_auth_resolved),
            hello_interval: self.hello_interval,
            hello_multiplier: self.hello_multiplier,
            priority: self.priority,
            metric: self.metric,
            bfd_enabled: self.bfd_enabled,
            bfd_params: self.bfd_params,
            afs: self.afs@,
            mt: self.mt@,
            asla: self.asla@,
            ext_seqnum_mode: self.ext_seqnum_mode,
            trace_opts: self.trace_opts,
        }
    }
}

// ===== instances and interfaces =====

/// A BFD session of an adjacency.
pub struct BfdSession {
    pub sess_key: SessionKey,
    pub state: Option<State>,
}

/// What the handling of events reads of an adjacency.
pub struct Adjacency {
    pub id: u64,
    /// The session of each address family, where there is one.
    pub bfd: Vec<Option<BfdSession>>,
}

/// What the system says of an interface.
pub struct InterfaceSys {
    pub flags: u32,
    pub ifindex: Option<u32>,
    pub mtu: Option<u32>,
    /// Maximum SID depths, by their type.
    pub msd: Table<u8, u8>,
    pub mac_addr: Option<MacAddr>,
    pub addr_list: OrdSet<IpNetwork>,
}

pub struct InterfaceSysView {
    pub flags: u32,
    pub ifindex: Option<u32>,
    pub mtu: Option<u32>,
    pub msd: Map<u8, u8>,
    pub mac_addr: Option<MacAddr>,
    pub addr_list: Set<IpNetwork>,
}

impl View for InterfaceSys {
    type V = InterfaceSysView;

    open spec fn view(&self) -> InterfaceSysView {
        InterfaceSysView {
            flags: self.flags,
            ifindex: self.ifindex,
            mtu: self.mtu,
            msd: self.msd@,
            mac_addr: self.mac_addr,
            addr_list: self.addr_list@,
        }
    }
}

pub struct Interface {
    pub name: String,
    pub config: InterfaceCfg,
    pub system: InterfaceSys,
    /// Whether the interface is operational.
    pub active: bool,
    /// Whether no adjacencies are formed on the interface.
    pub passive: bool,
    pub adjacencies: Vec<Adjacency>,
}

pub struct InterfaceView {
    pub name: Seq<char>,
    pub config: InterfaceCfgView,
    pub system: InterfaceSysView,
    pub active: bool,
    pub passive: bool,
    pub adjacencies: Seq<Adjacency>,
}

impl View for Interface {
    type V = InterfaceView;

    open spec fn view(&self) -> InterfaceView {
        InterfaceView {
            name: self.name@,
            config: self.config@,
            system: self.system@,
            active: self.active,
            passive: self.passive,
            adjacencies: self.adjacencies@,
        }
    }
}

impl Interface {
    /// An interface that was just created.
    pub open spec fn created(d: Defaults, name: Seq<char>, instance_level_type: LevelType) -> InterfaceView {
        let config = InterfaceCfg::initial(d);
        InterfaceView {
            name,
            config: InterfaceCfgView {
                level_type: InheritableConfig {
                    resolved: level_type_in_force(config.level_type.explicit, instance_level_type),
                    ..config.level_type
                },
                ..config
            },
            system: InterfaceSysView {
                flags: 0,
                ifindex: None,
                mtu: None,
                msd: Map::empty(),
                mac_addr: None,
                addr_list: Set::empty(),
            },
            active: false,
            passive: false,
            adjacencies: Seq::empty(),
        }
    }

    pub fn new(defaults: &Defaults, name: String, instance_level_type: LevelType) -> (r: Interface)
        ensures
            r@ == Interface::created(*defaults, name@, instance_level_type),
    {
        let mut config = InterfaceCfg::new(defaults);
        config.level_type.resolved = config.resolved_level_type(instance_level_type);
        Interface {
            name,
            config,
            system: InterfaceSys {
                flags: 0,
                ifindex: None,
                mtu: None,
                msd: Table::new(),
                mac_addr: None,
                addr_list: OrdSet::new(),
            },
            active: false,
            passive: false,
            adjacencies: Vec::new(),
        }
    }
}

/// A route of another protocol that is redistributed.
#[derive(Clone, Copy, Debug, PartialEq, Eq, Structural)]
pub struct RouteSys {
    pub protocol: Protocol,
    pub metric: u32,
    pub tag: Option<u32>,
    /// Attributes that only some protocols understand.
    pub opaque_attrs: Option<RouteOpaqueAttrs>,
}

/// What the system says to an instance.
pub struct InstanceSys {
    pub router_id: Option<Ipv4Addr>,
    /// Maximum SID depths of the node, by their type.
    pub node_msd: Table<u8, u8>,
    /// Routes that are redistributed into level 1.
    pub routes_l1: Table<IpNetwork, RouteSys>,
    /// Routes that are redistributed into level 2.
    pub routes_l2: Table<IpNetwork, RouteSys>,
}

pub struct InstanceSysView {
    pub router_id: Option<Ipv4Addr>,
    pub node_msd: Map<u8, u8>,
    pub routes_l1: Map<IpNetwork, RouteSys>,
    pub routes_l2: Map<IpNetwork, RouteSys>,
}

impl View for InstanceSys {
    type V = InstanceSysView;

    open spec fn view(&self) -> InstanceSysView {
        InstanceSysView {
            router_id: self.router_id,
            node_msd: self.node_msd@,
            routes_l1: self.routes_l1@,
            routes_l2: self.routes_l2@,
        }
    }
}

impl InstanceSysView {
    /// The redistributed routes of a level.
    pub open spec fn routes(self, level: LevelNumber) -> Map<IpNetwork, RouteSys> {
        match level {
            LevelNumber::L1 => self.routes_l1,
            LevelNumber::L2 => self.routes_l2,
        }
    }

    pub open spec fn with_routes(self, level: LevelNumber, routes: Map<IpNetwork, RouteSys>) -> InstanceSysView {
        match level {
            LevelNumber::L1 => InstanceSysView { routes_l1: routes, ..self },
            LevelNumber::L2 => InstanceSysView { routes_l2: routes, ..self },
        }
    }
}

impl InstanceSys {
    pub fn get_mut(&mut self, level: LevelNumber) -> (r: &mut Table<IpNetwork, RouteSys>)
        ensures
            r@ == old(self)@.routes(level),
            final(self)@ == old(self)@.with_routes(level, final(r)@),
    {
        match level {
            LevelNumber::L1 => &mut self.routes_l1,
            LevelNumber::L2 => &mut self.routes_l2,
        }
    }
}

/// An IS-IS instance, as far as its configuration and the system go.
pub struct Instance {
    pub config: InstanceCfg,
    pub interfaces: Table<InterfaceIndex, Interface>,
    /// The index that the next new interface gets.
    pub next_interface: InterfaceIndex,
    pub system: InstanceSys,
    pub keychains: Table<String, Arc<Keychain>>,
    pub hostname: Option<String>,
    /// Whether the instance is up.
    pub up: bool,
    /// Defaults of the schema.
    pub defaults: Defaults,
}

pub struct InstanceView {
    pub config: InstanceCfgView,
    pub interfaces: Map<InterfaceIndex, InterfaceView>,
    pub next_interface: InterfaceIndex,
    pub system: InstanceSysView,
    pub keychains: Map<Seq<char>, Arc<Keychain>>,
    pub hostname: Option<Seq<char>>,
    pub up: bool,
    pub defaults: Defaults,
}

impl View for Instance {
    type V = InstanceView;

    open spec fn view(&self) -> InstanceView {
        InstanceView {
            config: self.config@,
            interfaces: views(self.interfaces@),
            next_interface: self.next_interface,
            system: self.system@,
            keychains: self.keychains@,
            hostname: opt_text(self.hostname),
            up: self.up,
            defaults: self.defaults,
        }
    }
}

// ===== configuration defaults =====

/// Default values that the schema gives.
#[derive(Clone, Copy, Debug, PartialEq, Eq, Structural)]
pub struct Defaults {
    pub enabled: bool,
    pub level_type: LevelType,
    pub lsp_mtu: u16,
    pub lsp_lifetime: u16,
    pub lsp_refresh: u16,
    pub purge_originator: bool,
    pub metric_type: MetricType,
    pub default_metric: u32,
    pub max_paths: u16,
    pub spf_initial_delay: u32,
    pub spf_short_delay: u32,
    pub spf_long_delay: u32,
    pub spf_hold_down: u32,
    pub spf_time_to_learn: u32,
    pub preference: u8,
    pub overload_status: bool,
    pub flooding_algo: FloodingAlgo,
    pub att_suppress: bool,
    pub att_ignore: bool,
    pub sr_enabled: bool,
    pub bier_enabled: bool,
    pub bier_advertise: bool,
    pub bier_receive: bool,
    pub mt_enabled: bool,
    pub mt_default_metric: u32,
    pub isid_transmit: bool,
    pub isid_receive: bool,
    pub af_enabled: bool,
    pub iface_enabled: bool,
    pub iface_level_type: LevelType,
    pub lsp_pacing_interval: u32,
    pub lsp_rxmt_interval: u16,
    pub passive: bool,
    pub csnp_interval: u16,
    pub csnp_disable: bool,
    pub hello_padding: bool,
    pub interface_type: InterfaceType,
    pub node_flag: bool,
    pub hello_interval: u16,
    pub hello_multiplier: u16,
    pub priority: u8,
    pub metric: u32,
    pub bfd_enabled: bool,
    pub bfd_params: ClientCfg,
    pub iface_mt_enabled: bool,
    pub iface_mt_metric: u32,
    pub trace: TraceOptionPacketType,
}

impl TraceOptionPacket {
    /// The values without any configuration.
    pub open spec fn initial() -> TraceOptionPacket {
        TraceOptionPacket {
            all: None,
            hello: None,
            psnp: None,
            csnp: None,
            lsp: None,
        }
    }
}

impl Default for TraceOptionPacket {
    fn default() -> (r: TraceOptionPacket)
        ensures
            r == TraceOptionPacket::initial(),
    {
        TraceOptionPacket {
            all: None,
            hello: None,
            psnp: None,
            csnp: None,
            lsp: None,
        }
    }
}

impl TraceOptionPacketResolved {
    /// The values without any configuration.
    pub open spec fn initial() -> TraceOptionPacketResolved {
        TraceOptionPacketResolved {
            hello: TraceOptionPacketType { tx: false, rx: false },
            psnp: TraceOptionPacketType { tx: false, rx: false },
            csnp: TraceOptionPacketType { tx: false, rx: false },
            lsp: TraceOptionPacketType { tx: false, rx: false },
        }
    }
}

impl Default for TraceOptionPacketResolved {
    fn default() -> (r: TraceOptionPacketResolved)
        ensures
            r == TraceOptionPacketResolved::initial(),
    {
        TraceOptionPacketResolved {
            hello: TraceOptionPacketType { tx: false, rx: false },
            psnp: TraceOptionPacketType { tx: false, rx: false },
            csnp: TraceOptionPacketType { tx: false, rx: false },
            lsp: TraceOptionPacketType { tx: false, rx: false },
        }
    }
}

impl InstanceTraceOptions {
    /// The values without any configuration.
    pub open spec fn initial() -> InstanceTraceOptions {
        InstanceTraceOptions {
            flood_reduction: false,
            ibus: false,
            lsdb: false,
            packets: TraceOptionPacket::initial(),
            spf: false,
        }
    }
}

impl Default for InstanceTraceOptions {
    fn default() -> (r: InstanceTraceOptions)
        ensures
            r == InstanceTraceOptions::initial(),
    {
        InstanceTraceOptions {
            flood_reduction: false,
            ibus: false,
            lsdb: false,
            packets: TraceOptionPacket::default(),
            spf: false,
        }
    }
}

impl InterfaceTraceOptions {
    /// The values without any configuration.
    pub open spec fn initial() -> InterfaceTraceOptions {
        InterfaceTraceOptions {
            packets: TraceOptionPacket::initial(),
            packets_resolved: TraceOptionPacketResolved::initial(),
        }
    }
}

impl Default for InterfaceTraceOptions {
    fn default() -> (r: InterfaceTraceOptions)
        ensures
            r == InterfaceTraceOptions::initial(),
    {
        InterfaceTraceOptions {
            packets: TraceOptionPacket::default(),
            packets_resolved: TraceOptionPacketResolved::default(),
        }
    }
}

impl InterfaceAslaCfg {
    /// The values without any configuration.
    pub open spec fn initial() -> InterfaceAslaCfg {
        InterfaceAslaCfg {
            te_metric: None,
            admin_group: None,
        }
    }
}

impl Default for InterfaceAslaCfg {
    fn default() -> (r: InterfaceAslaCfg)
        ensures
            r == InterfaceAslaCfg::initial(),
    {
        InterfaceAslaCfg {
            te_metric: None,
            admin_group: None,
        }
    }
}

impl SummaryCfg {
    /// The values without any configuration.
    pub open spec fn initial() -> SummaryCfg {
        SummaryCfg {
            metric: None,
        }
    }
}

impl Default for SummaryCfg {
    fn default() -> (r: SummaryCfg)
        ensures
            r == SummaryCfg::initial(),
    {
        SummaryCfg {
            metric: None,
        }
    }
}

impl InstanceMtCfg {
    /// The values without any configuration.
    pub open spec fn initial(d: Defaults) -> InstanceMtCfg {
        InstanceMtCfg {
            enabled: d.mt_enabled,
            default_metric: LevelsCfgWithDefault { all: d.mt_default_metric, l1: None, l2: None },
        }
    }

    pub fn new(d: &Defaults) -> (r: InstanceMtCfg)
        ensures
            r == InstanceMtCfg::initial(*d),
    {
        InstanceMtCfg {
            enabled: d.mt_enabled,
            default_metric: LevelsCfgWithDefault { all: d.mt_default_metric, l1: None, l2: None },
        }
    }
}

impl InstanceFloodingReductionCfg {
    /// The values without any configuration.
    pub open spec fn initial(d: Defaults) -> InstanceFloodingReductionCfg {
        InstanceFloodingReductionCfg {
            algo: d.flooding_algo,
        }
    }

    pub fn new(d: &Defaults) -> (r: InstanceFloodingReductionCfg)
        ensures
            r == InstanceFloodingReductionCfg::initial(*d),
    {
        InstanceFloodingReductionCfg {
            algo: d.flooding_algo,
        }
    }
}

impl InstanceSrCfg {
    /// The values without any configuration.
    pub open spec fn initial(d: Defaults) -> InstanceSrCfg {
        InstanceSrCfg {
            enabled: d.sr_enabled,
        }
    }

    pub fn new(d: &Defaults) -> (r: InstanceSrCfg)
        ensures
            r == InstanceSrCfg::initial(*d),
    {
        InstanceSrCfg {
            enabled: d.sr_enabled,
        }
    }
}

impl InstanceBierCfg {
    /// The values without any configuration.
    pub open spec fn initial(d: Defaults) -> InstanceBierCfg {
        InstanceBierCfg {
            mt_id: 0,
            enabled: d.bier_enabled,
            advertise: d.bier_advertise,
            receive: d.bier_receive,
        }
    }

    pub fn new(d: &Defaults) -> (r: InstanceBierCfg)
        ensures
            r == InstanceBierCfg::initial(*d),
    {
        InstanceBierCfg {
            mt_id: 0,
            enabled: d.bier_enabled,
            advertise: d.bier_advertise,
            receive: d.bier_receive,
        }
    }
}

impl SpbIsidCfg {
    /// The values without any configuration.
    pub open spec fn initial(d: Defaults) -> SpbIsidCfg {
        SpbIsidCfg {
            transmit: d.isid_transmit,
            receive: d.isid_receive,
        }
    }

    pub fn new(d: &Defaults) -> (r: SpbIsidCfg)
        ensures
            r == SpbIsidCfg::initial(*d),
    {
        SpbIsidCfg {
            transmit: d.isid_transmit,
            receive: d.isid_receive,
        }
    }
}

impl AddressFamilyCfg {
    /// The values without any configuration.
    pub open spec fn initial(d: Defaults) -> AddressFamilyCfgView {
        AddressFamilyCfgView {
            enabled: d.af_enabled,
            redistribution: Map::empty(),
        }
    }

    pub fn new(d: &Defaults) -> (r: AddressFamilyCfg)
        ensures
            r@ == AddressFamilyCfg::initial(*d),
    {
        AddressFamilyCfg {
            enabled: d.af_enabled,
            redistribution: Table::new(),
        }
    }
}

impl Preference {
    /// The values without any configuration.
    pub open spec fn initial(d: Defaults) -> Preference {
        Preference {
            internal: d.preference,
            external: d.preference,
        }
    }

    pub fn new(d: &Defaults) -> (r: Preference)
        ensures
            r == Preference::initial(*d),
    {
        Preference {
            internal: d.preference,
            external: d.preference,
        }
    }
}

impl InstanceCfg {
    /// The values without any configuration.
    pub open spec fn initial(d: Defaults) -> InstanceCfgView {
        InstanceCfgView {
            enabled: d.enabled,
            level_type: d.level_type,
            system_id: None,
            area_addrs: Set::empty(),
            lsp_mtu: d.lsp_mtu,
            lsp_lifetime: d.lsp_lifetime,
            lsp_refresh: d.lsp_refresh,
            purge_originator: d.purge_originator,
            node_tags: Set::empty(),
            metric_type: LevelsCfgWithDefault { all: d.metric_type, l1: None, l2: None },
            default_metric: LevelsCfgWithDefault { all: d.default_metric, l1: None, l2: None },
            auth: LevelsCfg { all: AuthCfg::initial(), l1: AuthCfg::initial(), l2: AuthCfg::initial() },
            auth_resolved: None,
            ipv4_router_id: None,
            ipv6_router_id: None,
            max_paths: d.max_paths,
            afs: Map::empty(),
            spf_initial_delay: d.spf_initial_delay,
            spf_short_delay: d.spf_short_delay,
            spf_long_delay: d.spf_long_delay,
            spf_hold_down: d.spf_hold_down,
            spf_time_to_learn: d.spf_time_to_learn,
            preference: Preference::initial(d),
            overload_status: d.overload_status,
            mt: Map::empty(),
            link_attr_mode: LinkAttrMode::Legacy,
            summaries: Map::empty(),
            flooding_reduction: InstanceFloodingReductionCfg::initial(d),
            att_suppress: d.att_suppress,
            att_ignore: d.att_ignore,
            sr: InstanceSrCfg::initial(d),
            bier: InstanceBierCfg::initial(d),
            spb: InstanceSpbCfg::initial(),
            trace_opts: InstanceTraceOptions::initial(),
        }
    }

    pub fn new(d: &Defaults) -> (r: InstanceCfg)
        ensures
            r@ == InstanceCfg::initial(*d),
    {
        let r = InstanceCfg {
            enabled: d.enabled,
            level_type: d.level_type,
            system_id: None,
            area_addrs: OrdSet::new(),
            lsp_mtu: d.lsp_mtu,
            lsp_lifetime: d.lsp_lifetime,
            lsp_refresh: d.lsp_refresh,
            purge_originator: d.purge_originator,
            node_tags: OrdSet::new(),
            metric_type: LevelsCfgWithDefault { all: d.metric_type, l1: None, l2: None },
            default_metric: LevelsCfgWithDefault { all: d.default_metric, l1: None, l2: None },
            auth: LevelsCfg { all: AuthCfg::default(), l1: AuthCfg::default(), l2: AuthCfg::default() },
            auth_resolved: None,
            ipv4_router_id: None,
            ipv6_router_id: None,
            max_paths: d.max_paths,
            afs: Table::new(),
            spf_initial_delay: d.spf_initial_delay,
            spf_short_delay: d.spf_short_delay,
            spf_long_delay: d.spf_long_delay,
            spf_hold_down: d.spf_hold_down,
            spf_time_to_learn: d.spf_time_to_learn,
            preference: Preference::new(d),
            overload_status: d.overload_status,
            mt: Table::new(),
            link_attr_mode: LinkAttrMode::Legacy,
            summaries: PrefixTable::new(),
            flooding_reduction: InstanceFloodingReductionCfg::new(d),
            att_suppress: d.att_suppress,
            att_ignore: d.att_ignore,
            sr: InstanceSrCfg::new(d),
            bier: InstanceBierCfg::new(d),
            spb: InstanceSpbCfg::default(),
            trace_opts: InstanceTraceOptions::default(),
        };
        assert(r@.afs =~= Map::empty());
        r
    }
}

impl InterfaceMtCfg {
    /// The values without any configuration.
    pub open spec fn initial(d: Defaults) -> InterfaceMtCfg {
        InterfaceMtCfg {
            enabled: d.iface_mt_enabled,
            metric: LevelsCfgWithDefault { all: d.iface_mt_metric, l1: None, l2: None },
        }
    }

    pub fn new(d: &Defaults) -> (r: InterfaceMtCfg)
        ensures
            r == InterfaceMtCfg::initial(*d),
    {
        InterfaceMtCfg {
            enabled: d.iface_mt_enabled,
            metric: LevelsCfgWithDefault { all: d.iface_mt_metric, l1: None, l2: None },
        }
    }
}

impl InterfaceCfg {
    /// The values without any configuration.
    pub open spec fn initial(d: Defaults) -> InterfaceCfgView {
        InterfaceCfgView {
            enabled: d.iface_enabled,
            level_type: InheritableConfig { explicit: Some(d.iface_level_type), resolved: d.iface_level_type },
            lsp_pacing_interval: d.lsp_pacing_interval,
            lsp_rxmt_interval: d.lsp_rxmt_interval,
            passive: d.passive,
            csnp_interval: d.csnp_interval,
            csnp_disable: d.csnp_disable,
            hello_padding: d.hello_padding,
            interface_type: d.interface_type,
            node_flag: d.node_flag,
            hello_auth: LevelsCfg { all: AuthCfg::initial(), l1: AuthCfg::initial(), l2: AuthCfg::initial() },
            hello_auth_resolved: None,
            hello_interval: LevelsCfgWithDefault { all: d.hello_interval, l1: None, l2: None },
            hello_multiplier: LevelsCfgWithDefault { all: d.hello_multiplier, l1: None, l2: None },
            priority: LevelsCfgWithDefault { all: d.priority, l1: None, l2: None },
            metric: LevelsCfgWithDefault { all: d.metric, l1: None, l2: None },
            bfd_enabled: d.bfd_enabled,
            bfd_params: d.bfd_params,
            afs: Set::empty(),
            mt: Map::empty(),
            asla: Map::empty(),
            ext_seqnum_mode: LevelsCfg { all: None, l1: None, l2: None },
            trace_opts: InterfaceTraceOptions::initial(),
        }
    }

    pub fn new(d: &Defaults) -> (r: InterfaceCfg)
        ensures
            r@ == InterfaceCfg::initial(*d),
    {
        InterfaceCfg {
            enabled: d.iface_enabled,
            level_type: InheritableConfig { explicit: Some(d.iface_level_type), resolved: d.iface_level_type },
            lsp_pacing_interval: d.lsp_pacing_interval,
            lsp_rxmt_interval: d.lsp_rxmt_interval,
            passive: d.passive,
            csnp_interval: d.csnp_interval,
            csnp_disable: d.csnp_disable,
            hello_padding: d.hello_padding,
            interface_type: d.interface_type,
            node_flag: d.node_flag,
            hello_auth: LevelsCfg { all: AuthCfg::default(), l1: AuthCfg::default(), l2: AuthCfg::default() },
            hello_auth_resolved: None,
            hello_interval: LevelsCfgWithDefault { all: d.hello_interval, l1: None, l2: None },
            hello_multiplier: LevelsCfgWithDefault { all: d.hello_multiplier, l1: None, l2: None },
            priority: LevelsCfgWithDefault { all: d.priority, l1: None, l2: None },
            metric: LevelsCfgWithDefault { all: d.metric, l1: None, l2: None },
            bfd_enabled: d.bfd_enabled,
            bfd_params: d.bfd_params,
            afs: OrdSet::new(),
            mt: Table::new(),
            asla: Table::new(),
            ext_seqnum_mode: LevelsCfg { all: None, l1: None, l2: None },
            trace_opts: InterfaceTraceOptions::default(),
        }
    }
}

impl AuthCfg {
    /// The values without any configuration.
    pub open spec fn initial() -> AuthCfgView {
        AuthCfgView { keychain: None, key: None, key_id: None, algo: None }
    }
}

impl Default for AuthCfg {
    fn default() -> (r: AuthCfg)
        ensures
            r@ == AuthCfg::initial(),
    {
        AuthCfg { keychain: None, key: None, key_id: None, algo: None }
    }
}

impl InstanceSpbCfg {
    /// The values without any configuration.
    pub open spec fn initial() -> InstanceSpbCfgView {
        InstanceSpbCfgView { enabled: false, services: Map::empty() }
    }
}

impl Default for InstanceSpbCfg {
    fn default() -> (r: InstanceSpbCfg)
        ensures
            r@ == InstanceSpbCfg::initial(),
    {
        let r = InstanceSpbCfg { enabled: false, services: Table::new() };
        assert(r@.services =~= Map::empty());
        r
    }
}

// ===== changes =====

/// Change within a topology of the instance.
pub enum TopologyEntryChange {
    Enabled(bool),
    DefaultMetricValue(u32),
    DefaultMetricLevel1Value(Option<u32>),
    DefaultMetricLevel2Value(Option<u32>),
}

/// Change within a topology of an interface.
pub enum InterfaceTopologyEntryChange {
    Enabled(bool),
    MetricValue(u32),
    MetricLevel1Value(Option<u32>),
    MetricLevel2Value(Option<u32>),
}

/// Change within an interface.
pub enum InterfaceEntryChange {
    Enabled(bool),
    LevelType(LevelType),
    LspPacingInterval(u32),
    LspRetransmitInterval(u16),
    Passive(bool),
    CsnpInterval(u16),
    CsnpDisable(Option<bool>),
    HelloPaddingEnabled(bool),
    InterfaceType(InterfaceType),
    NodeFlag(bool),
    HelloAuthenticationKeyChain(Option<String>),
    HelloAuthenticationKey(Option<String>),
    HelloAuthenticationKeyId(Option<u16>),
    HelloAuthenticationCryptoAlgorithm(Option<CryptoAlgo>),
    HelloAuthenticationLevel1KeyChain(Option<String>),
    HelloAuthenticationLevel1Key(Option<String>),
    HelloAuthenticationLevel1KeyId(Option<u16>),
    HelloAuthenticationLevel1CryptoAlgorithm(Option<CryptoAlgo>),
    HelloAuthenticationLevel2KeyChain(Option<String>),
    HelloAuthenticationLevel2Key(Option<String>),
    HelloAuthenticationLevel2KeyId(Option<u16>),
    HelloAuthenticationLevel2CryptoAlgorithm(Option<CryptoAlgo>),
    HelloIntervalValue(u16),
    HelloIntervalLevel1Value(Option<u16>),
    HelloIntervalLevel2Value(Option<u16>),
    HelloMultiplierValue(u16),
    HelloMultiplierLevel1Value(Option<u16>),
    HelloMultiplierLevel2Value(Option<u16>),
    PriorityValue(u8),
    PriorityLevel1Value(Option<u8>),
    PriorityLevel2Value(Option<u8>),
    MetricValue(u32),
    MetricLevel1Value(Option<u32>),
    MetricLevel2Value(Option<u32>),
    BfdEnabled(bool),
    BfdLocalMultiplier(u8),
    BfdDesiredMinTxInterval(Option<u32>),
    BfdRequiredMinRxInterval(Option<u32>),
    BfdMinInterval(Option<u32>),
    ExtendedSequenceNumberMode(Option<ExtendedSeqNumMode>),
    ExtendedSequenceNumberLevel1Mode(Option<ExtendedSeqNumMode>),
    ExtendedSequenceNumberLevel2Mode(Option<ExtendedSeqNumMode>),
    AddressFamilyList(AddressFamily, ConfigOp),
    Topology(MtId, InterfaceTopologyChange),
    IsisAslaInterfaceAsla(StandardApp, InterfaceAslaChange),
    TraceOptionsFlag(InterfaceTraceOption, TraceFlagChange),
}

/// Change of the configuration of an instance.
pub enum ConfigChange {
    Enabled(bool),
    LevelType(LevelType),
    SystemId(Option<SystemId>),
    AreaAddress(ConfigOp, AreaAddr),
    LspMtu(u16),
    LspLifetime(u16),
    LspRefresh(u16),
    PoiTlv(bool),
    MetricTypeValue(MetricType),
    MetricTypeLevel1Value(Option<MetricType>),
    MetricTypeLevel2Value(Option<MetricType>),
    DefaultMetricValue(u32),
    DefaultMetricLevel1Value(Option<u32>),
    DefaultMetricLevel2Value(Option<u32>),
    AuthenticationKeyChain(Option<String>),
    AuthenticationKey(Option<String>),
    AuthenticationKeyId(Option<u16>),
    AuthenticationCryptoAlgorithm(Option<CryptoAlgo>),
    AuthenticationLevel1KeyChain(Option<String>),
    AuthenticationLevel1Key(Option<String>),
    AuthenticationLevel1KeyId(Option<u16>),
    AuthenticationLevel1CryptoAlgorithm(Option<CryptoAlgo>),
    AuthenticationLevel2KeyChain(Option<String>),
    AuthenticationLevel2Key(Option<String>),
    AuthenticationLevel2KeyId(Option<u16>),
    AuthenticationLevel2CryptoAlgorithm(Option<CryptoAlgo>),
    MplsTeRidIpv4RouterId(Option<Ipv4Addr>),
    MplsTeRidIpv6RouterId(Option<Ipv6Addr>),
    SpfControlPaths(u16),
    SpfControlIetfSpfDelayInitialDelay(u32),
    SpfControlIetfSpfDelayShortDelay(u32),
    SpfControlIetfSpfDelayLongDelay(u32),
    SpfControlIetfSpfDelayHoldDown(u32),
    SpfControlIetfSpfDelayTimeToLearn(u32),
    PreferenceInternal(Option<u8>),
    PreferenceExternal(Option<u8>),
    PreferenceDefault(Option<u8>),
    OverloadStatus(bool),
    BierMtId(Option<u8>),
    BierBierEnable(bool),
    BierBierAdvertise(bool),
    BierBierReceive(bool),
    AttachedBitSuppressAdvertisement(bool),
    AttachedBitIgnoreReception(bool),
    FloodingReductionAlgorithm(FloodingAlgo),
    SpbEnable(bool),
    IsisLinkAttrLegacy(ConfigOp),
    IsisLinkAttrTransition(ConfigOp),
    IsisLinkAttrAppSpecific(ConfigOp),
    SegmentRoutingEnabled(bool),
    NodeTag(u32, ConfigOp),
    AddressFamilyList(AddressFamily, AddressFamilyListChange),
    Topology(MtId, TopologyChange),
    Interface(String, InterfaceChange),
    InterLevelPropagationPoliciesLevel1ToLevel2SummaryPrefixes(IpNetwork, SummaryPrefixesChange),
    TraceOptionsFlag(InstanceTraceOption, TraceFlagChange),
    /// An address that cannot be parsed is left out.
    SpbService { bmac: Option<MacAddr>, base_vid: u16, change: SpbServiceChange },
}

// ===== trace options =====

/// Kinds of packets that have a trace option.
#[derive(Clone, Copy, Debug, PartialEq, Eq, Structural)]
pub enum PacketKind {
    All,
    Hello,
    Psnp,
    Csnp,
    Lsp,
}

/// The options on packets, after a change of one of them.
#[verifier::opaque]
pub open spec fn packets_changed(
    p: TraceOptionPacket,
    kind: PacketKind,
    change: TraceFlagChange,
    dflt: TraceOptionPacketType,
) -> TraceOptionPacket {
    match kind {
        PacketKind::All => TraceOptionPacket { all: slot_changed(p.all, change, dflt), ..p },
        PacketKind::Hello => TraceOptionPacket { hello: slot_changed(p.hello, change, dflt), ..p },
        PacketKind::Psnp => TraceOptionPacket { psnp: slot_changed(p.psnp, change, dflt), ..p },
        PacketKind::Csnp => TraceOptionPacket { csnp: slot_changed(p.csnp, change, dflt), ..p },
        PacketKind::Lsp => TraceOptionPacket { lsp: slot_changed(p.lsp, change, dflt), ..p },
    }
}

/// The option on packets of one kind.
pub open spec fn packet_slot(p: TraceOptionPacket, kind: PacketKind) -> Option<TraceOptionPacketType> {
    match kind {
        PacketKind::All => p.all,
        PacketKind::Hello => p.hello,
        PacketKind::Psnp => p.psnp,
        PacketKind::Csnp => p.csnp,
        PacketKind::Lsp => p.lsp,
    }
}

fn apply_packets(
    p: &mut TraceOptionPacket,
    kind: PacketKind,
    change: &TraceFlagChange,
    dflt: TraceOptionPacketType,
) -> (notes: bool)
    ensures
        *final(p) == packets_changed(*old(p), kind, *change, dflt),
        notes == slot_notes(packet_slot(*old(p), kind), *change),
{
    reveal(packets_changed);
    match kind {
        PacketKind::All => apply_slot(&mut p.all, change, dflt),
        PacketKind::Hello => apply_slot(&mut p.hello, change, dflt),
        PacketKind::Psnp => apply_slot(&mut p.psnp, change, dflt),
        PacketKind::Csnp => apply_slot(&mut p.csnp, change, dflt),
        PacketKind::Lsp => apply_slot(&mut p.lsp, change, dflt),
    }
}

impl InstanceTraceOption {
    /// The kind of packets that the option is about, if any.
    pub open spec fn packets(self) -> Option<PacketKind> {
        match self {
            InstanceTraceOption::PacketsAll => Some(PacketKind::All),
            InstanceTraceOption::PacketsHello => Some(PacketKind::Hello),
            InstanceTraceOption::PacketsPsnp => Some(PacketKind::Psnp),
            InstanceTraceOption::PacketsCsnp => Some(PacketKind::Csnp),
            InstanceTraceOption::PacketsLsp => Some(PacketKind::Lsp),
            _ => None,
        }
    }

    fn packet_kind(&self) -> (r: Option<PacketKind>)
        ensures
            r == self.packets(),
    {
        match self {
            InstanceTraceOption::PacketsAll => Some(PacketKind::All),
            InstanceTraceOption::PacketsHello => Some(PacketKind::Hello),
            InstanceTraceOption::PacketsPsnp => Some(PacketKind::Psnp),
            InstanceTraceOption::PacketsCsnp => Some(PacketKind::Csnp),
            InstanceTraceOption::PacketsLsp => Some(PacketKind::Lsp),
            _ => None,
        }
    }
}

/// The trace options of an instance, after a change of one of them.
pub open spec fn trace_options_changed(
    c: InstanceTraceOptions,
    option: InstanceTraceOption,
    change: TraceFlagChange,
    dflt: TraceOptionPacketType,
) -> InstanceTraceOptions {
    match option.packets() {
        Some(kind) => InstanceTraceOptions { packets: packets_changed(c.packets, kind, change, dflt), ..c },
        None => match option {
            InstanceTraceOption::FloodReduction => InstanceTraceOptions {
                flood_reduction: flag_changed(c.flood_reduction, change),
                ..c
            },
            InstanceTraceOption::InternalBus => InstanceTraceOptions { ibus: flag_changed(c.ibus, change), ..c },
            InstanceTraceOption::Lsdb => InstanceTraceOptions { lsdb: flag_changed(c.lsdb, change), ..c },
            InstanceTraceOption::Spf => InstanceTraceOptions { spf: flag_changed(c.spf, change), ..c },
            _ => c,
        },
    }
}

/// Whether a change of one of the options has an effect to announce.
pub open spec fn trace_options_notes(
    c: InstanceTraceOptions,
    option: InstanceTraceOption,
    change: TraceFlagChange,
) -> bool {
    match option.packets() {
        Some(kind) => slot_notes(packet_slot(c.packets, kind), change),
        None => !(change is Entry),
    }
}

fn apply_trace_options(
    c: &mut InstanceTraceOptions,
    option: InstanceTraceOption,
    change: &TraceFlagChange,
    dflt: TraceOptionPacketType,
) -> (notes: bool)
    ensures
        *final(c) == trace_options_changed(*old(c), option, *change, dflt),
        notes == trace_options_notes(*old(c), option, *change),
{
    if let Some(kind) = option.packet_kind() {
        return apply_packets(&mut c.packets, kind, change, dflt);
    }
    match option {
        InstanceTraceOption::FloodReduction => apply_flag(&mut c.flood_reduction, change),
        InstanceTraceOption::InternalBus => apply_flag(&mut c.ibus, change),
        InstanceTraceOption::Lsdb => apply_flag(&mut c.lsdb, change),
        InstanceTraceOption::Spf => apply_flag(&mut c.spf, change),
        _ => false,
    }
}

impl InterfaceTraceOption {
    /// The kind of packets that the option is about, if any.
    pub open spec fn packets(self) -> Option<PacketKind> {
        match self {
            InterfaceTraceOption::PacketsAll => Some(PacketKind::All),
            InterfaceTraceOption::PacketsHello => Some(PacketKind::Hello),
            InterfaceTraceOption::PacketsPsnp => Some(PacketKind::Psnp),
            InterfaceTraceOption::PacketsCsnp => Some(PacketKind::Csnp),
            InterfaceTraceOption::PacketsLsp => Some(PacketKind::Lsp),
        }
    }

    fn packet_kind(&self) -> (r: Option<PacketKind>)
        ensures
            r == self.packets(),
    {
        match self {
            InterfaceTraceOption::PacketsAll => Some(PacketKind::All),
            InterfaceTraceOption::PacketsHello => Some(PacketKind::Hello),
            InterfaceTraceOption::PacketsPsnp => Some(PacketKind::Psnp),
            InterfaceTraceOption::PacketsCsnp => Some(PacketKind::Csnp),
            InterfaceTraceOption::PacketsLsp => Some(PacketKind::Lsp),
        }
    }
}

/// The trace options of an interface, after a change of one of them.
pub open spec fn interface_trace_options_changed(
    c: InterfaceTraceOptions,
    option: InterfaceTraceOption,
    change: TraceFlagChange,
    dflt: TraceOptionPacketType,
) -> InterfaceTraceOptions {
    match option.packets() {
        Some(kind) => InterfaceTraceOptions { packets: packets_changed(c.packets, kind, change, dflt), ..c },
        None => c,
    }
}

/// Whether a change of one of the options has an effect to announce.
pub open spec fn interface_trace_options_notes(
    c: InterfaceTraceOptions,
    option: InterfaceTraceOption,
    change: TraceFlagChange,
) -> bool {
    match option.packets() {
        Some(kind) => slot_notes(packet_slot(c.packets, kind), change),
        None => !(change is Entry),
    }
}

fn apply_interface_trace_options(
    c: &mut InterfaceTraceOptions,
    option: InterfaceTraceOption,
    change: &TraceFlagChange,
    dflt: TraceOptionPacketType,
) -> (notes: bool)
    ensures
        *final(c) == interface_trace_options_changed(*old(c), option, *change, dflt),
        notes == interface_trace_options_notes(*old(c), option, *change),
{
    if let Some(kind) = option.packet_kind() {
        return apply_packets(&mut c.packets, kind, change, dflt);
    }
    false
}

/// The options on packets that are in force, given those of its own and those of the
/// instance.
pub open spec fn packets_in_force(own: TraceOptionPacket, instance: TraceOptionPacket) -> TraceOptionPacketResolved {
    TraceOptionPacketResolved {
        hello: resolved(own.hello, own.all, instance.hello, instance.all),
        psnp: resolved(own.psnp, own.all, instance.psnp, instance.all),
        csnp: resolved(own.csnp, own.all, instance.csnp, instance.all),
        lsp: resolved(own.lsp, own.all, instance.lsp, instance.all),
    }
}

fn resolve_packets(own: &TraceOptionPacket, instance: &TraceOptionPacket) -> (r: TraceOptionPacketResolved)
    ensures
        r == packets_in_force(*own, *instance),
{
    TraceOptionPacketResolved {
        hello: resolve(own.hello, own.all, instance.hello, instance.all),
        psnp: resolve(own.psnp, own.all, instance.psnp, instance.all),
        csnp: resolve(own.csnp, own.all, instance.csnp, instance.all),
        lsp: resolve(own.lsp, own.all, instance.lsp, instance.all),
    }
}

/// Change of a topology of the instance.
pub enum TopologyChange {
    Create,
    Delete,
    Entry(TopologyEntryChange),
}

/// Change of a topology of an interface.
pub enum InterfaceTopologyChange {
    Create,
    Delete,
    Entry(InterfaceTopologyEntryChange),
}

/// Change of the link attributes for an application.
pub enum InterfaceAslaChange {
    Create,
    Delete,
    Entry(InterfaceAslaEntryChange),
}

pub enum InterfaceAslaEntryChange {
    TeMetric(Option<u32>),
    AdminGroup(Option<Vec<u8>>),
}

/// Change of an interface.
pub enum InterfaceChange {
    Create,
    Delete,
    Entry(InterfaceEntryChange),
}

/// Change of an address family of the instance.
pub enum AddressFamilyListChange {
    Create,
    Delete,
    Entry(AddressFamilyListEntryChange),
}

pub enum AddressFamilyListEntryChange {
    Enabled(bool),
    Redistribution(RedistributionKey, ConfigOp),
}

/// Change of a summary prefix.
pub enum SummaryPrefixesChange {
    Create,
    Delete,
    Metric(Option<u32>),
}

/// Change of an SPB service.
pub enum SpbServiceChange {
    Create,
    Delete,
    Isid(u32, SpbServiceIsidChange),
}

/// Change of an I-SID.
pub enum SpbServiceIsidChange {
    Create,
    Delete,
    Entry(SpbServiceIsidEntryChange),
}

pub enum SpbServiceIsidEntryChange {
    Transmit(bool),
    Receive(bool),
}

// ===== configuration helpers =====

/// The events queued when both levels are to originate their LSPs again.
pub open spec fn reoriginate(q: Set<Event>) -> Set<Event> {
    q.insert(Event::ReoriginateLsps(LevelNumber::L1)).insert(Event::ReoriginateLsps(LevelNumber::L2))
}

fn queue_reoriginate(event_queue: &mut OrdSet<Event>)
    ensures
        final(event_queue)@ == reoriginate(old(event_queue)@),
{
    event_queue.insert(Event::ReoriginateLsps(LevelNumber::L1));
    event_queue.insert(Event::ReoriginateLsps(LevelNumber::L2));
}

impl<T: Copy> LevelsCfgWithDefault<T> {
    /// The value for the specified level.
    pub open spec fn at(self, level: LevelType) -> T {
        match level {
            LevelType::L1 => match self.l1 {
                Some(v) => v,
                None => self.all,
            },
            LevelType::L2 => match self.l2 {
                Some(v) => v,
                None => self.all,
            },
            LevelType::All => self.all,
        }
    }

    /// Retrieves the configuration value for the specified level.
    pub fn get(&self, level: LevelType) -> (r: T)
        ensures
            r == self.at(level),
    {
        match level {
            LevelType::L1 => match self.l1 {
                Some(v) => v,
                None => self.all,
            },
            LevelType::L2 => match self.l2 {
                Some(v) => v,
                None => self.all,
            },
            LevelType::All => self.all,
        }
    }
}

impl<T: Copy> LevelsCfg<Option<T>> {
    /// The value for the specified level.
    pub open spec fn at(self, level: LevelType) -> Option<T> {
        match level {
            LevelType::L1 => if self.l1 is Some {
                self.l1
            } else {
                self.all
            },
            LevelType::L2 => if self.l2 is Some {
                self.l2
            } else {
                self.all
            },
            LevelType::All => self.all,
        }
    }

    /// Retrieves the configuration value for the specified level.
    pub fn get(&self, level: LevelType) -> (r: Option<T>)
        ensures
            r == self.at(level),
    {
        match level {
            LevelType::L1 => if self.l1.is_some() {
                self.l1
            } else {
                self.all
            },
            LevelType::L2 => if self.l2.is_some() {
                self.l2
            } else {
                self.all
            },
            LevelType::All => self.all,
        }
    }
}

impl MetricType {
    /// Checks if standard metric support is enabled.
    pub fn is_standard_enabled(&self) -> (b: bool)
        ensures
            b == (*self is Standard || *self is Both),
    {
        matches!(self, MetricType::Standard | MetricType::Both)
    }

    /// Checks if wide metric support is enabled.
    pub fn is_wide_enabled(&self) -> (b: bool)
        ensures
            b == (*self is Wide || *self is Both),
    {
        matches!(self, MetricType::Wide | MetricType::Both)
    }
}

impl AuthCfgView {
    /// How PDUs are authenticated: with the configured key before a keychain,
    /// if there is such a keychain.
    pub open spec fn auth(self, keychains: Map<Seq<char>, Arc<Keychain>>) -> Option<AuthMethodView> {
        match (self.key, self.algo) {
            (Some(key), Some(algo)) => Some(
                AuthMethodView::ManualKey(
                    KeyView {
                        id: match self.key_id {
                            Some(key_id) => key_id as u64,
                            None => 0,
                        },
                        algo,
                        string: vstd::utf8::encode_utf8(key),
                    },
                ),
            ),
            _ => match self.keychain {
                Some(name) => if keychains.contains_key(name) {
                    Some(AuthMethodView::Keychain(keychains[name]))
                } else {
                    None
                },
                None => None,
            },
        }
    }
}

impl AuthCfg {
    pub fn method(&self, keychains: &Table<String, Arc<Keychain>>) -> (r: Option<AuthMethod>)
        ensures
            auth_view(r) == self@.auth(keychains@),
    {
        if let (Some(key), Some(algo)) = (&self.key, self.algo) {
            let key_id: u64 = match self.key_id {
                Some(key_id) => key_id as u64,
                None => 0,
            };
            let auth_key = crate::keychain::Key::new(key_id, algo, key.as_str().as_bytes_vec());
            return Some(AuthMethod::ManualKey(auth_key));
        }
        if let Some(name) = &self.keychain {
            if let Some(keychain) = keychains.get(name) {
                return Some(AuthMethod::Keychain(share(keychain)));
            }
        }
        None
    }
}

/// Whether an address family is enabled: it is unless configured otherwise.
pub open spec fn af_enabled(afs: Map<AddressFamily, AddressFamilyCfgView>, af: AddressFamily) -> bool {
    afs.contains_key(af) ==> afs[af].enabled
}

impl InstanceCfgView {
    /// Whether a topology is enabled: the standard one always is, others only
    /// where configured.
    pub open spec fn topology_enabled(self, mt_id: MtId) -> bool {
        mt_id is Standard || (self.mt.contains_key(mt_id) && self.mt[mt_id].enabled)
    }
}

impl InstanceCfg {
    /// Checks if the specified address family is enabled.
    pub fn is_af_enabled(&self, af: AddressFamily) -> (b: bool)
        ensures
            b == af_enabled(self@.afs, af),
    {
        if let Some(af_cfg) = self.afs.get(&af) {
            return af_cfg.enabled;
        }
        true
    }

    /// Checks if the specified topology is enabled.
    pub fn is_topology_enabled(&self, mt_id: MtId) -> (b: bool)
        ensures
            b == self@.topology_enabled(mt_id),
    {
        if let MtId::Standard = mt_id {
            return true;
        }
        if let Some(mt_cfg) = self.mt.get(&mt_id) {
            return mt_cfg.enabled;
        }
        false
    }

    /// Returns the levels supported by the instance.
    pub fn levels(&self) -> (r: Vec<LevelNumber>)
        ensures
            r@ == self@.level_type.levels(),
    {
        self.level_type.to_vec()
    }

    /// Returns the set of enabled topology IDs for the instance.
    pub fn topologies(&self) -> (r: OrdSet<MtId>)
        ensures
            forall|mt_id: MtId| #[trigger] r@.contains(mt_id) <==> self@.topology_enabled(mt_id),
    {
        let mut topologies: OrdSet<MtId> = OrdSet::new();
        topologies.insert(MtId::Standard);
        let ghost ids = self.mt.keys();
        let n: usize = self.mt.len();
        let mut i: usize = 0;
        while i < n
            invariant
                i <= n,
                n == self.mt.keys().len(),
                ids == self.mt.keys(),
                topologies@.contains(MtId::Standard),
                forall|mt_id: MtId| #[trigger] topologies@.contains(mt_id) ==> self@.topology_enabled(mt_id),
                forall|x: int| 0 <= x < i && self@.topology_enabled(#[trigger] ids[x]) ==> topologies@.contains(ids[x]),
            decreases n - i,
        {
            let mt_id = *self.mt.key_at(i);
            if self.mt.value_at(i).enabled {
                topologies.insert(mt_id);
            }
            i = i + 1;
        }
        proof {
            assert(self.mt.keys_sorted());
            assert forall|mt_id: MtId| self@.topology_enabled(mt_id) implies #[trigger] topologies@.contains(mt_id) by {
                if !(mt_id is Standard) {
                    assert(ids.to_set().contains(mt_id));
                    let x = choose|x: int| 0 <= x < ids.len() && ids[x] == mt_id;
                    assert(self@.topology_enabled(ids[x]));
                }
            }
        }
        topologies
    }
}

/// The levels of an interface: those of an instance that supports one level
/// only, and else its own.
pub open spec fn level_type_in_force(explicit: Option<LevelType>, instance_level_type: LevelType) -> LevelType {
    match instance_level_type {
        LevelType::All => explicit->0,
        level_type => level_type,
    }
}

impl InterfaceCfgView {
    /// Whether a topology is enabled: it is unless configured otherwise, and
    /// the standard one always is.
    pub open spec fn topology_enabled(self, mt_id: MtId) -> bool {
        mt_id is Standard || !self.mt.contains_key(mt_id) || self.mt[mt_id].enabled
    }

    /// The hold time that Hello PDUs carry.
    pub open spec fn holdtime(self, level: LevelType) -> int {
        self.hello_interval.at(level) * self.hello_multiplier.at(level)
    }
}

impl InterfaceCfg {
    /// Checks if the specified address family is enabled.
    pub fn is_af_enabled(&self, af: AddressFamily, instance_cfg: &InstanceCfg) -> (b: bool)
        ensures
            b == (self@.afs.contains(af) && af_enabled(instance_cfg@.afs, af)),
    {
        if !self.afs.contains(&af) {
            return false;
        }
        instance_cfg.is_af_enabled(af)
    }

    /// Checks if the specified topology is enabled.
    pub fn is_topology_enabled(&self, mt_id: MtId) -> (b: bool)
        ensures
            b == self@.topology_enabled(mt_id),
    {
        if let MtId::Standard = mt_id {
            return true;
        }
        if let Some(mt_cfg) = self.mt.get(&mt_id) {
            return mt_cfg.enabled;
        }
        true
    }

    /// Returns the levels supported by the interface.
    pub fn levels(&self) -> (r: Vec<LevelNumber>)
        ensures
            r@ == self@.level_type.resolved.levels(),
    {
        self.level_type.resolved.to_vec()
    }

    /// Returns the set of enabled topology IDs for the interface.
    pub fn topologies(&self, instance_cfg: &InstanceCfg) -> (r: OrdSet<MtId>)
        ensures
            forall|mt_id: MtId| #[trigger]
                r@.contains(mt_id) <==> instance_cfg@.topology_enabled(mt_id) && self@.topology_enabled(mt_id),
    {
        let all = instance_cfg.topologies();
        let ghost ids = all.items();
        let n: usize = all.len();
        let mut topologies: OrdSet<MtId> = OrdSet::new();
        let mut i: usize = 0;
        while i < n
            invariant
                i <= n,
                n == all.items().len(),
                ids == all.items(),
                all.items_sorted(),
                forall|mt_id: MtId| #[trigger] all@.contains(mt_id) <==> instance_cfg@.topology_enabled(mt_id),
                forall|mt_id: MtId| #[trigger]
                    topologies@.contains(mt_id) ==> instance_cfg@.topology_enabled(mt_id) && self@.topology_enabled(
                        mt_id,
                    ),
                forall|x: int| 0 <= x < i && self@.topology_enabled(#[trigger] ids[x]) ==> topologies@.contains(ids[x]),
            decreases n - i,
        {
            let mt_id = *all.at(i);
            assert(all@.contains(mt_id)) by {
                assert(ids.to_set().contains(ids[i as int]));
            }
            if self.is_topology_enabled(mt_id) {
                topologies.insert(mt_id);
            }
            i = i + 1;
        }
        proof {
            assert forall|mt_id: MtId|
                instance_cfg@.topology_enabled(mt_id) && self@.topology_enabled(mt_id) implies #[trigger] topologies@.contains(
                mt_id,
            ) by {
                assert(all@.contains(mt_id));
                assert(ids.to_set().contains(mt_id));
                let x = choose|x: int| 0 <= x < ids.len() && ids[x] == mt_id;
                assert(self@.topology_enabled(ids[x]));
            }
        }
        topologies
    }

    /// Calculates the hello hold time for a given level by multiplying the
    /// hello interval and multiplier.
    pub fn hello_holdtime(&self, level: LevelType) -> (r: u16)
        requires
            self@.holdtime(level) <= u16::MAX,
        ensures
            r == self@.holdtime(level),
    {
        let interval: u16 = self.hello_interval.get(level);
        let multiplier: u16 = self.hello_multiplier.get(level);
        interval * multiplier
    }

    /// Resolves the level type.
    fn resolved_level_type(&self, instance_level_type: LevelType) -> (r: LevelType)
        requires
            instance_level_type is All ==> self.level_type.explicit is Some,
        ensures
            r == level_type_in_force(self.level_type.explicit, instance_level_type),
    {
        match (instance_level_type, self.level_type.explicit) {
            (LevelType::All, Some(level_type)) => level_type,
            (level_type, _) => level_type,
        }
    }

    /// Returns the metric for a given topology and level, or the default if no
    /// specific configuration exists.
    pub fn topology_metric(&self, defaults: &Defaults, mt_id: MtId, level: LevelType) -> (r: u32)
        ensures
            r == (if self@.mt.contains_key(mt_id) {
                self@.mt[mt_id].metric.at(level)
            } else {
                defaults.iface_mt_metric
            }),
    {
        match self.mt.get(&mt_id) {
            Some(mt_cfg) => mt_cfg.metric.get(level),
            None => defaults.iface_mt_metric,
        }
    }

    /// Resolves packet trace options by merging interface-specific and
    /// instance-level options. Interface options override instance options,
    /// and per-packet options override "all" options.
    pub fn update_trace_options(&mut self, instance_trace_opts: &InstanceTraceOptions)
        ensures
            final(self)@ == trace_resolved(old(self)@, *instance_trace_opts),
    {
        self.trace_opts.packets_resolved = resolve_packets(&self.trace_opts.packets, &instance_trace_opts.packets);
    }
}

/// The configuration of an interface, with the packet trace options that are
/// in force.
pub open spec fn trace_resolved(c: InterfaceCfgView, t: InstanceTraceOptions) -> InterfaceCfgView {
    InterfaceCfgView {
        trace_opts: InterfaceTraceOptions {
            packets_resolved: packets_in_force(c.trace_opts.packets, t.packets),
            ..c.trace_opts
        },
        ..c
    }
}

impl TraceOptionPacketResolved {
    /// The option on PDUs of one type.
    pub open spec fn on(self, pdu_type: PduType) -> TraceOptionPacketType {
        match pdu_type {
            PduType::HelloP2P | PduType::HelloLanL1 | PduType::HelloLanL2 => self.hello,
            PduType::LspL1 | PduType::LspL2 => self.lsp,
            PduType::CsnpL1 | PduType::CsnpL2 => self.csnp,
            PduType::PsnpL1 | PduType::PsnpL2 => self.psnp,
        }
    }

    pub fn tx(&self, pdu_type: PduType) -> (b: bool)
        ensures
            b == self.on(pdu_type).tx,
    {
        match pdu_type {
            PduType::HelloP2P | PduType::HelloLanL1 | PduType::HelloLanL2 => self.hello.tx,
            PduType::LspL1 | PduType::LspL2 => self.lsp.tx,
            PduType::CsnpL1 | PduType::CsnpL2 => self.csnp.tx,
            PduType::PsnpL1 | PduType::PsnpL2 => self.psnp.tx,
        }
    }

    pub fn rx(&self, pdu_type: PduType) -> (b: bool)
        ensures
            b == self.on(pdu_type).rx,
    {
        match pdu_type {
            PduType::HelloP2P | PduType::HelloLanL1 | PduType::HelloLanL2 => self.hello.rx,
            PduType::LspL1 | PduType::LspL2 => self.lsp.rx,
            PduType::CsnpL1 | PduType::CsnpL2 => self.csnp.rx,
            PduType::PsnpL1 | PduType::PsnpL2 => self.psnp.rx,
        }
    }
}

// ===== address families =====

/// An address family of the instance and the queued events, after a change
/// within it.
pub open spec fn af_entry_changed(
    c: AddressFamilyCfgView,
    q: Set<Event>,
    af: AddressFamily,
    change: AddressFamilyListEntryChange,
) -> (AddressFamilyCfgView, Set<Event>) {
    match change {
        AddressFamilyListEntryChange::Enabled(enabled) => (AddressFamilyCfgView { enabled, ..c }, reoriginate(q)),
        AddressFamilyListEntryChange::Redistribution(key, ConfigOp::Create) => (
            AddressFamilyCfgView { redistribution: c.redistribution.insert(key, RedistributionCfg {}), ..c },
            q.insert(Event::RedistributeAdd(af, key.protocol)),
        ),
        AddressFamilyListEntryChange::Redistribution(key, ConfigOp::Delete) => (
            AddressFamilyCfgView { redistribution: c.redistribution.remove(key), ..c },
            q.insert(Event::RedistributeDelete(af, key.level, key.protocol)),
        ),
    }
}

fn apply_af_entry(
    cfg: &mut AddressFamilyCfg,
    af: AddressFamily,
    change: AddressFamilyListEntryChange,
    event_queue: &mut OrdSet<Event>,
)
    ensures
        (final(cfg)@, final(event_queue)@) == af_entry_changed(old(cfg)@, old(event_queue)@, af, change),
{
    match change {
        AddressFamilyListEntryChange::Enabled(enabled) => {
            cfg.enabled = enabled;
            queue_reoriginate(event_queue);
        },
        AddressFamilyListEntryChange::Redistribution(key, op) => match op {
            ConfigOp::Create => {
                cfg.redistribution.insert(key, RedistributionCfg {});
                event_queue.insert(Event::RedistributeAdd(af, key.protocol));
            },
            ConfigOp::Delete => {
                cfg.redistribution.remove(&key);
                event_queue.insert(Event::RedistributeDelete(af, key.level, key.protocol));
            },
        },
    }
}

/// The address families of the instance and the queued events, after a change
/// of one of them. A change within one that does not exist cannot be applied.
pub open spec fn afs_changed(
    afs: Map<AddressFamily, AddressFamilyCfgView>,
    q: Set<Event>,
    d: Defaults,
    af: AddressFamily,
    change: AddressFamilyListChange,
) -> Option<(Map<AddressFamily, AddressFamilyCfgView>, Set<Event>)> {
    match change {
        AddressFamilyListChange::Create => Some((afs.insert(af, AddressFamilyCfg::initial(d)), reoriginate(q))),
        AddressFamilyListChange::Delete => Some((afs.remove(af), reoriginate(q))),
        AddressFamilyListChange::Entry(change) => if afs.contains_key(af) {
            let r = af_entry_changed(afs[af], q, af, change);
            Some((afs.insert(af, r.0), r.1))
        } else {
            None
        },
    }
}

fn apply_address_family(
    afs: &mut Table<AddressFamily, AddressFamilyCfg>,
    defaults: &Defaults,
    af: AddressFamily,
    change: AddressFamilyListChange,
    event_queue: &mut OrdSet<Event>,
) -> (r: Result<(), ApplyError>)
    ensures
        match afs_changed(views(old(afs)@), old(event_queue)@, *defaults, af, change) {
            Some(s) => r is Ok && (views(final(afs)@), final(event_queue)@) == s,
            None => r == Err::<(), ApplyError>(ApplyError::EntryNotFound) && final(afs)@ == old(afs)@
                && final(event_queue)@ == old(event_queue)@,
        },
{
    let ghost before = afs@;
    match change {
        AddressFamilyListChange::Create => {
            let cfg = AddressFamilyCfg::new(defaults);
            proof {
                views_insert(before, af, cfg);
            }
            afs.insert(af, cfg);
            queue_reoriginate(event_queue);
        },
        AddressFamilyListChange::Delete => {
            afs.remove(&af);
            proof {
                views_remove(before, af);
            }
            queue_reoriginate(event_queue);
        },
        AddressFamilyListChange::Entry(change) => {
            let cfg = match afs.get_mut(&af) {
                Some(cfg) => cfg,
                None => {
                    return Err(ApplyError::EntryNotFound);
                },
            };
            apply_af_entry(cfg, af, change, event_queue);
            proof {
                views_insert(before, af, *cfg);
            }
        },
    }
    Ok(())
}

// ===== topologies =====

/// A topology of the instance and the queued events, after a change within it.
pub open spec fn topology_entry_changed(c: InstanceMtCfg, q: Set<Event>, change: TopologyEntryChange) -> (
    InstanceMtCfg,
    Set<Event>,
) {
    match change {
        TopologyEntryChange::Enabled(enabled) => (
            InstanceMtCfg { enabled, ..c },
            q.insert(Event::InstanceTopologyUpdate).insert(
                Event::ReoriginateLsps(LevelNumber::L1),
            ).insert(Event::ReoriginateLsps(LevelNumber::L2)),
        ),
        TopologyEntryChange::DefaultMetricValue(metric) => (
            InstanceMtCfg { default_metric: LevelsCfgWithDefault { all: metric, ..c.default_metric }, ..c },
            q,
        ),
        TopologyEntryChange::DefaultMetricLevel1Value(metric) => (
            InstanceMtCfg { default_metric: LevelsCfgWithDefault { l1: metric, ..c.default_metric }, ..c },
            q,
        ),
        TopologyEntryChange::DefaultMetricLevel2Value(metric) => (
            InstanceMtCfg { default_metric: LevelsCfgWithDefault { l2: metric, ..c.default_metric }, ..c },
            q,
        ),
    }
}

fn apply_topology_entry(cfg: &mut InstanceMtCfg, change: TopologyEntryChange, event_queue: &mut OrdSet<Event>)
    ensures
        (*final(cfg), final(event_queue)@) == topology_entry_changed(*old(cfg), old(event_queue)@, change),
{
    match change {
        TopologyEntryChange::Enabled(enabled) => {
            cfg.enabled = enabled;
            event_queue.insert(Event::InstanceTopologyUpdate);
            event_queue.insert(Event::ReoriginateLsps(LevelNumber::L1));
            event_queue.insert(Event::ReoriginateLsps(LevelNumber::L2));
        },
        TopologyEntryChange::DefaultMetricValue(metric) => {
            cfg.default_metric.all = metric;
        },
        TopologyEntryChange::DefaultMetricLevel1Value(metric) => {
            cfg.default_metric.l1 = metric;
        },
        TopologyEntryChange::DefaultMetricLevel2Value(metric) => {
            cfg.default_metric.l2 = metric;
        },
    }
}

/// The topologies of the instance and the queued events, after a change of one
/// of them. A change within one that does not exist cannot be applied.
pub open spec fn topologies_changed(
    mt: Map<MtId, InstanceMtCfg>,
    q: Set<Event>,
    d: Defaults,
    mt_id: MtId,
    change: TopologyChange,
) -> Option<(Map<MtId, InstanceMtCfg>, Set<Event>)> {
    match change {
        TopologyChange::Create => Some(
            (mt.insert(mt_id, InstanceMtCfg::initial(d)), reoriginate(q.insert(Event::InstanceTopologyUpdate))),
        ),
        TopologyChange::Delete => Some((mt.remove(mt_id), reoriginate(q.insert(Event::InstanceTopologyUpdate)))),
        TopologyChange::Entry(change) => if mt.contains_key(mt_id) {
            let r = topology_entry_changed(mt[mt_id], q, change);
            Some((mt.insert(mt_id, r.0), r.1))
        } else {
            None
        },
    }
}

fn apply_topology(
    mt: &mut Table<MtId, InstanceMtCfg>,
    defaults: &Defaults,
    mt_id: MtId,
    change: TopologyChange,
    event_queue: &mut OrdSet<Event>,
) -> (r: Result<(), ApplyError>)
    ensures
        match topologies_changed(old(mt)@, old(event_queue)@, *defaults, mt_id, change) {
            Some(s) => r is Ok && (final(mt)@, final(event_queue)@) == s,
            None => r == Err::<(), ApplyError>(ApplyError::EntryNotFound) && final(mt)@ == old(mt)@
                && final(event_queue)@ == old(event_queue)@,
        },
{
    match change {
        TopologyChange::Create => {
            mt.insert(mt_id, InstanceMtCfg::new(defaults));
            event_queue.insert(Event::InstanceTopologyUpdate);
            queue_reoriginate(event_queue);
        },
        TopologyChange::Delete => {
            mt.remove(&mt_id);
            event_queue.insert(Event::InstanceTopologyUpdate);
            queue_reoriginate(event_queue);
        },
        TopologyChange::Entry(change) => {
            let cfg = match mt.get_mut(&mt_id) {
                Some(cfg) => cfg,
                None => {
                    return Err(ApplyError::EntryNotFound);
                },
            };
            apply_topology_entry(cfg, change, event_queue);
        },
    }
    Ok(())
}

/// A topology of an interface and the queued events, after a change within it.
pub open spec fn interface_topology_entry_changed(
    c: InterfaceMtCfg,
    q: Set<Event>,
    iface_idx: InterfaceIndex,
    change: InterfaceTopologyEntryChange,
) -> (InterfaceMtCfg, Set<Event>) {
    match change {
        InterfaceTopologyEntryChange::Enabled(enabled) => (
            InterfaceMtCfg { enabled, ..c },
            q.insert(
                Event::InterfaceUpdateHelloInterval(iface_idx, LevelNumber::L1),
            ).insert(Event::ReoriginateLsps(LevelNumber::L1))
            .insert(Event::InterfaceUpdateHelloInterval(iface_idx, LevelNumber::L2))
            .insert(Event::ReoriginateLsps(LevelNumber::L2)),
        ),
        InterfaceTopologyEntryChange::MetricValue(metric) => (
            InterfaceMtCfg { metric: LevelsCfgWithDefault { all: metric, ..c.metric }, ..c },
            q.insert(Event::ReoriginateLsps(LevelNumber::L1)).insert(Event::ReoriginateLsps(LevelNumber::L2)),
        ),
        InterfaceTopologyEntryChange::MetricLevel1Value(metric) => (
            InterfaceMtCfg { metric: LevelsCfgWithDefault { l1: metric, ..c.metric }, ..c },
            q.insert(Event::ReoriginateLsps(LevelNumber::L1)).insert(Event::ReoriginateLsps(LevelNumber::L2)),
        ),
        InterfaceTopologyEntryChange::MetricLevel2Value(metric) => (
            InterfaceMtCfg { metric: LevelsCfgWithDefault { l2: metric, ..c.metric }, ..c },
            q.insert(Event::ReoriginateLsps(LevelNumber::L1)).insert(Event::ReoriginateLsps(LevelNumber::L2)),
        ),
    }
}

fn apply_interface_topology_entry(
    cfg: &mut InterfaceMtCfg,
    iface_idx: InterfaceIndex,
    change: InterfaceTopologyEntryChange,
    event_queue: &mut OrdSet<Event>,
)
    ensures
        (*final(cfg), final(event_queue)@) == interface_topology_entry_changed(
            *old(cfg),
            old(event_queue)@,
            iface_idx,
            change,
        ),
{
    match change {
        InterfaceTopologyEntryChange::Enabled(enabled) => {
            cfg.enabled = enabled;
            event_queue.insert(Event::InterfaceUpdateHelloInterval(iface_idx, LevelNumber::L1));
            event_queue.insert(Event::ReoriginateLsps(LevelNumber::L1));
            event_queue.insert(Event::InterfaceUpdateHelloInterval(iface_idx, LevelNumber::L2));
            event_queue.insert(Event::ReoriginateLsps(LevelNumber::L2));
        },
        InterfaceTopologyEntryChange::MetricValue(metric) => {
            cfg.metric.all = metric;
            event_queue.insert(Event::ReoriginateLsps(LevelNumber::L1));
            event_queue.insert(Event::ReoriginateLsps(LevelNumber::L2));
        },
        InterfaceTopologyEntryChange::MetricLevel1Value(metric) => {
            cfg.metric.l1 = metric;
            event_queue.insert(Event::ReoriginateLsps(LevelNumber::L1));
            event_queue.insert(Event::ReoriginateLsps(LevelNumber::L2));
        },
        InterfaceTopologyEntryChange::MetricLevel2Value(metric) => {
            cfg.metric.l2 = metric;
            event_queue.insert(Event::ReoriginateLsps(LevelNumber::L1));
            event_queue.insert(Event::ReoriginateLsps(LevelNumber::L2));
        },
    }
}

/// The events queued when the topologies of an interface change.
pub open spec fn renew(q: Set<Event>, iface_idx: InterfaceIndex) -> Set<Event> {
    q.insert(Event::InterfaceUpdateHelloInterval(iface_idx, LevelNumber::L1)).insert(
        Event::ReoriginateLsps(LevelNumber::L1),
    ).insert(Event::InterfaceUpdateHelloInterval(iface_idx, LevelNumber::L2)).insert(
        Event::ReoriginateLsps(LevelNumber::L2),
    )
}

fn queue_renew(event_queue: &mut OrdSet<Event>, iface_idx: InterfaceIndex)
    ensures
        final(event_queue)@ == renew(old(event_queue)@, iface_idx),
{
    event_queue.insert(Event::InterfaceUpdateHelloInterval(iface_idx, LevelNumber::L1));
    event_queue.insert(Event::ReoriginateLsps(LevelNumber::L1));
    event_queue.insert(Event::InterfaceUpdateHelloInterval(iface_idx, LevelNumber::L2));
    event_queue.insert(Event::ReoriginateLsps(LevelNumber::L2));
}

/// The topologies of an interface and the queued events, after a change of one
/// of them. A change within one that does not exist cannot be applied.
pub open spec fn interface_topologies_changed(
    mt: Map<MtId, InterfaceMtCfg>,
    q: Set<Event>,
    d: Defaults,
    iface_idx: InterfaceIndex,
    mt_id: MtId,
    change: InterfaceTopologyChange,
) -> Option<(Map<MtId, InterfaceMtCfg>, Set<Event>)> {
    match change {
        InterfaceTopologyChange::Create => Some((mt.insert(mt_id, InterfaceMtCfg::initial(d)), renew(q, iface_idx))),
        InterfaceTopologyChange::Delete => Some((mt.remove(mt_id), renew(q, iface_idx))),
        InterfaceTopologyChange::Entry(change) => if mt.contains_key(mt_id) {
            let r = interface_topology_entry_changed(mt[mt_id], q, iface_idx, change);
            Some((mt.insert(mt_id, r.0), r.1))
        } else {
            None
        },
    }
}

fn apply_interface_topology(
    mt: &mut Table<MtId, InterfaceMtCfg>,
    defaults: &Defaults,
    iface_idx: InterfaceIndex,
    mt_id: MtId,
    change: InterfaceTopologyChange,
    event_queue: &mut OrdSet<Event>,
) -> (r: Result<(), ApplyError>)
    ensures
        match interface_topologies_changed(old(mt)@, old(event_queue)@, *defaults, iface_idx, mt_id, change) {
            Some(s) => r is Ok && (final(mt)@, final(event_queue)@) == s,
            None => r == Err::<(), ApplyError>(ApplyError::EntryNotFound) && final(mt)@ == old(mt)@
                && final(event_queue)@ == old(event_queue)@,
        },
{
    match change {
        InterfaceTopologyChange::Create => {
            mt.insert(mt_id, InterfaceMtCfg::new(defaults));
            queue_renew(event_queue, iface_idx);
        },
        InterfaceTopologyChange::Delete => {
            mt.remove(&mt_id);
            queue_renew(event_queue, iface_idx);
        },
        InterfaceTopologyChange::Entry(change) => {
            let cfg = match mt.get_mut(&mt_id) {
                Some(cfg) => cfg,
                None => {
                    return Err(ApplyError::EntryNotFound);
                },
            };
            apply_interface_topology_entry(cfg, iface_idx, change, event_queue);
        },
    }
    Ok(())
}

// ===== application-specific link attributes =====

/// The number that octets stand for, most significant first, as far as it fits
/// in 32 bits.
pub open spec fn octets_value(s: Seq<u8>) -> u32
    decreases s.len(),
{
    if s.len() == 0 {
        0
    } else {
        ((octets_value(s.drop_last()) * 256 + s.last()) % 0x1_0000_0000) as u32
    }
}

fn octets_to_u32(s: &Vec<u8>) -> (r: u32)
    ensures
        r == octets_value(s@),
{
    let mut acc: u32 = 0;
    let mut i: usize = 0;
    assert(s@.take(0) =~= Seq::empty());
    while i < s.len()
        invariant
            i <= s@.len(),
            acc == octets_value(s@.take(i as int)),
        decreases s@.len() - i,
    {
        let b: u8 = s[i];
        assert(((acc << 8u32) | (b as u32)) as int == (acc * 256 + b) % 0x1_0000_0000) by (bit_vector);
        assert(s@.take(i + 1).drop_last() =~= s@.take(i as int));
        acc = (acc << 8u32) | (b as u32);
        i = i + 1;
    }
    assert(s@.take(i as int) =~= s@);
    acc
}

/// The link attributes of an interface, after a change of those for one
/// application. A change within those that do not exist cannot be applied.
pub open spec fn asla_changed(
    asla: Map<StandardApp, InterfaceAslaCfg>,
    app: StandardApp,
    change: InterfaceAslaChange,
) -> Option<Map<StandardApp, InterfaceAslaCfg>> {
    match change {
        InterfaceAslaChange::Create => Some(asla.insert(app, InterfaceAslaCfg::initial())),
        InterfaceAslaChange::Delete => Some(asla.remove(app)),
        InterfaceAslaChange::Entry(change) => if asla.contains_key(app) {
            Some(
                asla.insert(
                    app,
                    match change {
                        InterfaceAslaEntryChange::TeMetric(te_metric) => InterfaceAslaCfg { te_metric, ..asla[app] },
                        InterfaceAslaEntryChange::AdminGroup(admin_group) => InterfaceAslaCfg {
                            admin_group: match admin_group {
                                Some(admin_group) => Some(octets_value(admin_group@)),
                                None => None,
                            },
                            ..asla[app]
                        },
                    },
                ),
            )
        } else {
            None
        },
    }
}

fn apply_interface_asla(
    asla: &mut Table<StandardApp, InterfaceAslaCfg>,
    app: StandardApp,
    change: InterfaceAslaChange,
    event_queue: &mut OrdSet<Event>,
) -> (r: Result<(), ApplyError>)
    ensures
        match asla_changed(old(asla)@, app, change) {
            Some(m) => r is Ok && final(asla)@ == m && final(event_queue)@ == reoriginate(old(event_queue)@),
            None => r == Err::<(), ApplyError>(ApplyError::EntryNotFound) && final(asla)@ == old(asla)@
                && final(event_queue)@ == old(event_queue)@,
        },
{
    match change {
        InterfaceAslaChange::Create => {
            asla.insert(app, InterfaceAslaCfg::default());
        },
        InterfaceAslaChange::Delete => {
            asla.remove(&app);
        },
        InterfaceAslaChange::Entry(change) => {
            let cfg = match asla.get_mut(&app) {
                Some(cfg) => cfg,
                None => {
                    return Err(ApplyError::EntryNotFound);
                },
            };
            match change {
                InterfaceAslaEntryChange::TeMetric(metric) => {
                    cfg.te_metric = metric;
                },
                InterfaceAslaEntryChange::AdminGroup(admin_group) => {
                    cfg.admin_group = match admin_group {
                        Some(admin_group) => Some(octets_to_u32(&admin_group)),
                        None => None,
                    };
                },
            }
        },
    }
    queue_reoriginate(event_queue);
    Ok(())
}

// ===== interfaces =====

/// The configuration of an interface, after a change of its authentication.
#[verifier::opaque]
pub open spec fn interface_cfg_auth_changed(
    c: InterfaceCfgView,
    q: Set<Event>,
    instance_level_type: LevelType,
    iface_idx: InterfaceIndex,
    change: InterfaceEntryChange,
) -> (InterfaceCfgView, Set<Event>) {
    match change {
        InterfaceEntryChange::HelloAuthenticationKeyChain(keychain) => (
            InterfaceCfgView {
                hello_auth: LevelsCfg {
                    all: AuthCfgView { keychain: opt_text(keychain), ..c.hello_auth.all },
                    ..c.hello_auth
                },
                ..c
            },
            q.insert(Event::InterfaceUpdateAuth(iface_idx)),
        ),
        InterfaceEntryChange::HelloAuthenticationKey(key) => (
            InterfaceCfgView {
                hello_auth: LevelsCfg {
                    all: AuthCfgView { key: opt_text(key), ..c.hello_auth.all },
                    ..c.hello_auth
                },
                ..c
            },
            q.insert(Event::InterfaceUpdateAuth(iface_idx)),
        ),
        InterfaceEntryChange::HelloAuthenticationKeyId(key_id) => (
            InterfaceCfgView {
                hello_auth: LevelsCfg { all: AuthCfgView { key_id, ..c.hello_auth.all }, ..c.hello_auth },
                ..c
            },
            q.insert(Event::InterfaceUpdateAuth(iface_idx)),
        ),
        InterfaceEntryChange::HelloAuthenticationCryptoAlgorithm(algo) => (
            InterfaceCfgView {
                hello_auth: LevelsCfg { all: AuthCfgView { algo, ..c.hello_auth.all }, ..c.hello_auth },
                ..c
            },
            q.insert(Event::InterfaceUpdateAuth(iface_idx)),
        ),
        InterfaceEntryChange::HelloAuthenticationLevel1KeyChain(keychain) => (
            InterfaceCfgView {
                hello_auth: LevelsCfg {
                    l1: AuthCfgView { keychain: opt_text(keychain), ..c.hello_auth.l1 },
                    ..c.hello_auth
                },
                ..c
            },
            q.insert(Event::InterfaceUpdateAuth(iface_idx)),
        ),
        InterfaceEntryChange::HelloAuthenticationLevel1Key(key) => (
            InterfaceCfgView {
                hello_auth: LevelsCfg {
                    l1: AuthCfgView { key: opt_text(key), ..c.hello_auth.l1 },
                    ..c.hello_auth
                },
                ..c
            },
            q.insert(Event::InterfaceUpdateAuth(iface_idx)),
        ),
        InterfaceEntryChange::HelloAuthenticationLevel1KeyId(key_id) => (
            InterfaceCfgView {
                hello_auth: LevelsCfg { l1: AuthCfgView { key_id, ..c.hello_auth.l1 }, ..c.hello_auth },
                ..c
            },
            q.insert(Event::InterfaceUpdateAuth(iface_idx)),
        ),
        InterfaceEntryChange::HelloAuthenticationLevel1CryptoAlgorithm(algo) => (
            InterfaceCfgView {
                hello_auth: LevelsCfg { l1: AuthCfgView { algo, ..c.hello_auth.l1 }, ..c.hello_auth },
                ..c
            },
            q.insert(Event::InterfaceUpdateAuth(iface_idx)),
        ),
        InterfaceEntryChange::HelloAuthenticationLevel2KeyChain(keychain) => (
            InterfaceCfgView {
                hello_auth: LevelsCfg {
                    l2: AuthCfgView { keychain: opt_text(keychain), ..c.hello_auth.l2 },
                    ..c.hello_auth
                },
                ..c
            },
            q.insert(Event::InterfaceUpdateAuth(iface_idx)),
        ),
        InterfaceEntryChange::HelloAuthenticationLevel2Key(key) => (
            InterfaceCfgView {
                hello_auth: LevelsCfg {
                    l2: AuthCfgView { key: opt_text(key), ..c.hello_auth.l2 },
                    ..c.hello_auth
                },
                ..c
            },
            q.insert(Event::InterfaceUpdateAuth(iface_idx)),
        ),
        InterfaceEntryChange::HelloAuthenticationLevel2KeyId(key_id) => (
            InterfaceCfgView {
                hello_auth: LevelsCfg { l2: AuthCfgView { key_id, ..c.hello_auth.l2 }, ..c.hello_auth },
                ..c
            },
            q.insert(Event::InterfaceUpdateAuth(iface_idx)),
        ),
        InterfaceEntryChange::HelloAuthenticationLevel2CryptoAlgorithm(algo) => (
            InterfaceCfgView {
                hello_auth: LevelsCfg { l2: AuthCfgView { algo, ..c.hello_auth.l2 }, ..c.hello_auth },
                ..c
            },
            q.insert(Event::InterfaceUpdateAuth(iface_idx)),
        ),
        _ => (c, q),
    }
}

#[verifier::rlimit(100)]
fn apply_interface_cfg_auth(
    cfg: &mut InterfaceCfg,
    instance_level_type: LevelType,
    iface_idx: InterfaceIndex,
    change: InterfaceEntryChange,
    event_queue: &mut OrdSet<Event>,
)
    ensures
        (final(cfg)@, final(event_queue)@) == interface_cfg_auth_changed(
            old(cfg)@,
            old(event_queue)@,
            instance_level_type,
            iface_idx,
            change,
        ),
{
    reveal(interface_cfg_auth_changed);
    match change {
        InterfaceEntryChange::HelloAuthenticationKeyChain(keychain) => {
            cfg.hello_auth.all.keychain = keychain;
            event_queue.insert(Event::InterfaceUpdateAuth(iface_idx));
        },
        InterfaceEntryChange::HelloAuthenticationKey(key) => {
            cfg.hello_auth.all.key = key;
            event_queue.insert(Event::InterfaceUpdateAuth(iface_idx));
        },
        InterfaceEntryChange::HelloAuthenticationKeyId(key_id) => {
            cfg.hello_auth.all.key_id = key_id;
            event_queue.insert(Event::InterfaceUpdateAuth(iface_idx));
        },
        InterfaceEntryChange::HelloAuthenticationCryptoAlgorithm(algo) => {
            cfg.hello_auth.all.algo = algo;
            event_queue.insert(Event::InterfaceUpdateAuth(iface_idx));
        },
        InterfaceEntryChange::HelloAuthenticationLevel1KeyChain(keychain) => {
            cfg.hello_auth.l1.keychain = keychain;
            event_queue.insert(Event::InterfaceUpdateAuth(iface_idx));
        },
        InterfaceEntryChange::HelloAuthenticationLevel1Key(key) => {
            cfg.hello_auth.l1.key = key;
            event_queue.insert(Event::InterfaceUpdateAuth(iface_idx));
        },
        InterfaceEntryChange::HelloAuthenticationLevel1KeyId(key_id) => {
            cfg.hello_auth.l1.key_id = key_id;
            event_queue.insert(Event::InterfaceUpdateAuth(iface_idx));
        },
        InterfaceEntryChange::HelloAuthenticationLevel1CryptoAlgorithm(algo) => {
            cfg.hello_auth.l1.algo = algo;
            event_queue.insert(Event::InterfaceUpdateAuth(iface_idx));
        },
        InterfaceEntryChange::HelloAuthenticationLevel2KeyChain(keychain) => {
            cfg.hello_auth.l2.keychain = keychain;
            event_queue.insert(Event::InterfaceUpdateAuth(iface_idx));
        },
        InterfaceEntryChange::HelloAuthenticationLevel2Key(key) => {
            cfg.hello_auth.l2.key = key;
            event_queue.insert(Event::InterfaceUpdateAuth(iface_idx));
        },
        InterfaceEntryChange::HelloAuthenticationLevel2KeyId(key_id) => {
            cfg.hello_auth.l2.key_id = key_id;
            event_queue.insert(Event::InterfaceUpdateAuth(iface_idx));
        },
        InterfaceEntryChange::HelloAuthenticationLevel2CryptoAlgorithm(algo) => {
            cfg.hello_auth.l2.algo = algo;
            event_queue.insert(Event::InterfaceUpdateAuth(iface_idx));
        },
        _ => {},
    }
}

/// The configuration of an interface, after a change of what it sends.
#[verifier::opaque]
pub open spec fn interface_cfg_hello_changed(
    c: InterfaceCfgView,
    q: Set<Event>,
    instance_level_type: LevelType,
    iface_idx: InterfaceIndex,
    change: InterfaceEntryChange,
) -> (InterfaceCfgView, Set<Event>) {
    match change {
        InterfaceEntryChange::LspPacingInterval(lsp_pacing_interval) => (
            InterfaceCfgView { lsp_pacing_interval, ..c },
            q,
        ),
        InterfaceEntryChange::LspRetransmitInterval(lsp_rxmt_interval) => (
            InterfaceCfgView { lsp_rxmt_interval, ..c },
            q,
        ),
        InterfaceEntryChange::CsnpInterval(csnp_interval) => (
            InterfaceCfgView { csnp_interval, ..c },
            q.insert(Event::InterfaceUpdateCsnpInterval(iface_idx)),
        ),
        InterfaceEntryChange::CsnpDisable(csnp_disable) => match csnp_disable {
            Some(csnp_disable) => (
                InterfaceCfgView { csnp_disable, ..c },
                q.insert(Event::InterfaceUpdateCsnpInterval(iface_idx)),
            ),
            None => (c, q),
        },
        InterfaceEntryChange::HelloPaddingEnabled(hello_padding) => (
            InterfaceCfgView { hello_padding, ..c },
            q.insert(Event::InterfaceRestartNetwork(iface_idx)),
        ),
        InterfaceEntryChange::HelloIntervalValue(hello_interval) => (
            InterfaceCfgView {
                hello_interval: LevelsCfgWithDefault { all: hello_interval, ..c.hello_interval },
                ..c
            },
            q.insert(
                Event::InterfaceUpdateHelloInterval(iface_idx, LevelNumber::L1),
            ).insert(Event::InterfaceUpdateHelloInterval(iface_idx, LevelNumber::L2)),
        ),
        InterfaceEntryChange::HelloIntervalLevel1Value(hello_interval) => (
            InterfaceCfgView {
                hello_interval: LevelsCfgWithDefault { l1: hello_interval, ..c.hello_interval },
                ..c
            },
            q.insert(Event::InterfaceUpdateHelloInterval(iface_idx, LevelNumber::L1)),
        ),
        InterfaceEntryChange::HelloIntervalLevel2Value(hello_interval) => (
            InterfaceCfgView {
                hello_interval: LevelsCfgWithDefault { l2: hello_interval, ..c.hello_interval },
                ..c
            },
            q.insert(Event::InterfaceUpdateHelloInterval(iface_idx, LevelNumber::L2)),
        ),
        InterfaceEntryChange::HelloMultiplierValue(hello_multiplier) => (
            InterfaceCfgView {
                hello_multiplier: LevelsCfgWithDefault { all: hello_multiplier, ..c.hello_multiplier },
                ..c
            },
            q.insert(
                Event::InterfaceUpdateHelloInterval(iface_idx, LevelNumber::L1),
            ).insert(Event::InterfaceUpdateHelloInterval(iface_idx, LevelNumber::L2)),
        ),
        InterfaceEntryChange::HelloMultiplierLevel1Value(hello_multiplier) => (
            InterfaceCfgView {
                hello_multiplier: LevelsCfgWithDefault { l1: hello_multiplier, ..c.hello_multiplier },
                ..c
            },
            q.insert(Event::InterfaceUpdateHelloInterval(iface_idx, LevelNumber::L1)),
        ),
        InterfaceEntryChange::HelloMultiplierLevel2Value(hello_multiplier) => (
            InterfaceCfgView {
                hello_multiplier: LevelsCfgWithDefault { l2: hello_multiplier, ..c.hello_multiplier },
                ..c
            },
            q.insert(Event::InterfaceUpdateHelloInterval(iface_idx, LevelNumber::L2)),
        ),
        InterfaceEntryChange::PriorityValue(priority) => (
            InterfaceCfgView { priority: LevelsCfgWithDefault { all: priority, ..c.priority }, ..c },
            q.insert(Event::InterfacePriorityChange(iface_idx, LevelNumber::L1)).insert(
                Event::InterfaceUpdateHelloInterval(iface_idx, LevelNumber::L1),
            ).insert(Event::InterfacePriorityChange(iface_idx, LevelNumber::L2))
            .insert(Event::InterfaceUpdateHelloInterval(iface_idx, LevelNumber::L2)),
        ),
        InterfaceEntryChange::PriorityLevel1Value(priority) => (
            InterfaceCfgView { priority: LevelsCfgWithDefault { l1: priority, ..c.priority }, ..c },
            q.insert(Event::InterfacePriorityChange(iface_idx, LevelNumber::L1)).insert(
                Event::InterfaceUpdateHelloInterval(iface_idx, LevelNumber::L1),
            ),
        ),
        InterfaceEntryChange::PriorityLevel2Value(priority) => (
            InterfaceCfgView { priority: LevelsCfgWithDefault { l2: priority, ..c.priority }, ..c },
            q.insert(Event::InterfacePriorityChange(iface_idx, LevelNumber::L2)).insert(
                Event::InterfaceUpdateHelloInterval(iface_idx, LevelNumber::L2),
            ),
        ),
        InterfaceEntryChange::ExtendedSequenceNumberMode(mode) => (
            InterfaceCfgView { ext_seqnum_mode: LevelsCfg { all: mode, ..c.ext_seqnum_mode }, ..c },
            q.insert(
                Event::InterfaceUpdateHelloInterval(iface_idx, LevelNumber::L1),
            ).insert(Event::InterfaceUpdateHelloInterval(iface_idx, LevelNumber::L2)),
        ),
        InterfaceEntryChange::ExtendedSequenceNumberLevel1Mode(mode) => (
            InterfaceCfgView { ext_seqnum_mode: LevelsCfg { l1: mode, ..c.ext_seqnum_mode }, ..c },
            q.insert(Event::InterfaceUpdateHelloInterval(iface_idx, LevelNumber::L1)),
        ),
        InterfaceEntryChange::ExtendedSequenceNumberLevel2Mode(mode) => (
            InterfaceCfgView { ext_seqnum_mode: LevelsCfg { l2: mode, ..c.ext_seqnum_mode }, ..c },
            q.insert(Event::InterfaceUpdateHelloInterval(iface_idx, LevelNumber::L2)),
        ),
        _ => (c, q),
    }
}

#[verifier::rlimit(100)]
fn apply_interface_cfg_hello(
    cfg: &mut InterfaceCfg,
    instance_level_type: LevelType,
    iface_idx: InterfaceIndex,
    change: InterfaceEntryChange,
    event_queue: &mut OrdSet<Event>,
)
    ensures
        (final(cfg)@, final(event_queue)@) == interface_cfg_hello_changed(
            old(cfg)@,
            old(event_queue)@,
            instance_level_type,
            iface_idx,
            change,
        ),
{
    reveal(interface_cfg_hello_changed);
    match change {
        InterfaceEntryChange::LspPacingInterval(lsp_pacing_interval) => {
            cfg.lsp_pacing_interval = lsp_pacing_interval;
        },
        InterfaceEntryChange::LspRetransmitInterval(lsp_rxmt_interval) => {
            cfg.lsp_rxmt_interval = lsp_rxmt_interval;
        },
        InterfaceEntryChange::CsnpInterval(csnp_interval) => {
            cfg.csnp_interval = csnp_interval;
            event_queue.insert(Event::InterfaceUpdateCsnpInterval(iface_idx));
        },
        InterfaceEntryChange::CsnpDisable(csnp_disable) => {
            if let Some(csnp_disable) = csnp_disable {
                cfg.csnp_disable = csnp_disable;
                event_queue.insert(Event::InterfaceUpdateCsnpInterval(iface_idx));
            }
        },
        InterfaceEntryChange::HelloPaddingEnabled(hello_padding) => {
            cfg.hello_padding = hello_padding;
            event_queue.insert(Event::InterfaceRestartNetwork(iface_idx));
        },
        InterfaceEntryChange::HelloIntervalValue(hello_interval) => {
            cfg.hello_interval.all = hello_interval;
            event_queue.insert(Event::InterfaceUpdateHelloInterval(iface_idx, LevelNumber::L1));
            event_queue.insert(Event::InterfaceUpdateHelloInterval(iface_idx, LevelNumber::L2));
        },
        InterfaceEntryChange::HelloIntervalLevel1Value(hello_interval) => {
            cfg.hello_interval.l1 = hello_interval;
            event_queue.insert(Event::InterfaceUpdateHelloInterval(iface_idx, LevelNumber::L1));
        },
        InterfaceEntryChange::HelloIntervalLevel2Value(hello_interval) => {
            cfg.hello_interval.l2 = hello_interval;
            event_queue.insert(Event::InterfaceUpdateHelloInterval(iface_idx, LevelNumber::L2));
        },
        InterfaceEntryChange::HelloMultiplierValue(hello_multiplier) => {
            cfg.hello_multiplier.all = hello_multiplier;
            event_queue.insert(Event::InterfaceUpdateHelloInterval(iface_idx, LevelNumber::L1));
            event_queue.insert(Event::InterfaceUpdateHelloInterval(iface_idx, LevelNumber::L2));
        },
        InterfaceEntryChange::HelloMultiplierLevel1Value(hello_multiplier) => {
            cfg.hello_multiplier.l1 = hello_multiplier;
            event_queue.insert(Event::InterfaceUpdateHelloInterval(iface_idx, LevelNumber::L1));
        },
        InterfaceEntryChange::HelloMultiplierLevel2Value(hello_multiplier) => {
            cfg.hello_multiplier.l2 = hello_multiplier;
            event_queue.insert(Event::InterfaceUpdateHelloInterval(iface_idx, LevelNumber::L2));
        },
        InterfaceEntryChange::PriorityValue(priority) => {
            cfg.priority.all = priority;
            event_queue.insert(Event::InterfacePriorityChange(iface_idx, LevelNumber::L1));
            event_queue.insert(Event::InterfaceUpdateHelloInterval(iface_idx, LevelNumber::L1));
            event_queue.insert(Event::InterfacePriorityChange(iface_idx, LevelNumber::L2));
            event_queue.insert(Event::InterfaceUpdateHelloInterval(iface_idx, LevelNumber::L2));
        },
        InterfaceEntryChange::PriorityLevel1Value(priority) => {
            cfg.priority.l1 = priority;
            event_queue.insert(Event::InterfacePriorityChange(iface_idx, LevelNumber::L1));
            event_queue.insert(Event::InterfaceUpdateHelloInterval(iface_idx, LevelNumber::L1));
        },
        InterfaceEntryChange::PriorityLevel2Value(priority) => {
            cfg.priority.l2 = priority;
            event_queue.insert(Event::InterfacePriorityChange(iface_idx, LevelNumber::L2));
            event_queue.insert(Event::InterfaceUpdateHelloInterval(iface_idx, LevelNumber::L2));
        },
        InterfaceEntryChange::ExtendedSequenceNumberMode(mode) => {
            cfg.ext_seqnum_mode.all = mode;
            event_queue.insert(Event::InterfaceUpdateHelloInterval(iface_idx, LevelNumber::L1));
            event_queue.insert(Event::InterfaceUpdateHelloInterval(iface_idx, LevelNumber::L2));
        },
        InterfaceEntryChange::ExtendedSequenceNumberLevel1Mode(mode) => {
            cfg.ext_seqnum_mode.l1 = mode;
            event_queue.insert(Event::InterfaceUpdateHelloInterval(iface_idx, LevelNumber::L1));
        },
        InterfaceEntryChange::ExtendedSequenceNumberLevel2Mode(mode) => {
            cfg.ext_seqnum_mode.l2 = mode;
            event_queue.insert(Event::InterfaceUpdateHelloInterval(iface_idx, LevelNumber::L2));
        },
        _ => {},
    }
}

/// The configuration of an interface, after a change of other values.
#[verifier::opaque]
pub open spec fn interface_cfg_general_changed(
    c: InterfaceCfgView,
    q: Set<Event>,
    instance_level_type: LevelType,
    iface_idx: InterfaceIndex,
    change: InterfaceEntryChange,
) -> (InterfaceCfgView, Set<Event>) {
    match change {
        InterfaceEntryChange::Enabled(enabled) => (
            InterfaceCfgView { enabled, ..c },
            q.insert(Event::InterfaceUpdate(iface_idx)),
        ),
        InterfaceEntryChange::LevelType(level_type) => (
            InterfaceCfgView {
                level_type: InheritableConfig {
                    explicit: Some(level_type),
                    resolved: level_type_in_force(Some(level_type), instance_level_type),
                },
                ..c
            },
            q.insert(Event::InterfaceReset(iface_idx)),
        ),
        InterfaceEntryChange::Passive(passive) => (
            InterfaceCfgView { passive, ..c },
            q.insert(Event::InterfaceReset(iface_idx)),
        ),
        InterfaceEntryChange::InterfaceType(interface_type) => (
            InterfaceCfgView { interface_type, ..c },
            q.insert(Event::InterfaceReset(iface_idx)),
        ),
        InterfaceEntryChange::NodeFlag(enabled) => (
            InterfaceCfgView { node_flag: enabled, ..c },
            q.insert(Event::ReoriginateLsps(LevelNumber::L1)).insert(Event::ReoriginateLsps(LevelNumber::L2)),
        ),
        InterfaceEntryChange::MetricValue(metric) => (
            InterfaceCfgView { metric: LevelsCfgWithDefault { all: metric, ..c.metric }, ..c },
            q.insert(Event::ReoriginateLsps(LevelNumber::L1)).insert(Event::ReoriginateLsps(LevelNumber::L2)),
        ),
        InterfaceEntryChange::MetricLevel1Value(metric) => (
            InterfaceCfgView { metric: LevelsCfgWithDefault { l1: metric, ..c.metric }, ..c },
            q.insert(Event::ReoriginateLsps(LevelNumber::L1)),
        ),
        InterfaceEntryChange::MetricLevel2Value(metric) => (
            InterfaceCfgView { metric: LevelsCfgWithDefault { l2: metric, ..c.metric }, ..c },
            q.insert(Event::ReoriginateLsps(LevelNumber::L2)),
        ),
        InterfaceEntryChange::BfdEnabled(enabled) => (
            InterfaceCfgView { bfd_enabled: enabled, ..c },
            q.insert(Event::InterfaceBfdChange(iface_idx)),
        ),
        InterfaceEntryChange::BfdLocalMultiplier(local_multiplier) => (
            InterfaceCfgView { bfd_params: ClientCfg { local_multiplier, ..c.bfd_params }, ..c },
            q.insert(Event::InterfaceBfdChange(iface_idx)),
        ),
        InterfaceEntryChange::BfdDesiredMinTxInterval(min_tx) => match min_tx {
            Some(min_tx) => (
                InterfaceCfgView { bfd_params: ClientCfg { min_tx, ..c.bfd_params }, ..c },
                q.insert(Event::InterfaceBfdChange(iface_idx)),
            ),
            None => (c, q),
        },
        InterfaceEntryChange::BfdRequiredMinRxInterval(min_rx) => match min_rx {
            Some(min_rx) => (
                InterfaceCfgView { bfd_params: ClientCfg { min_rx, ..c.bfd_params }, ..c },
                q.insert(Event::InterfaceBfdChange(iface_idx)),
            ),
            None => (c, q),
        },
        InterfaceEntryChange::BfdMinInterval(min_interval) => match min_interval {
            Some(min_interval) => (
                InterfaceCfgView {
                    bfd_params: ClientCfg { min_tx: min_interval, min_rx: min_interval, ..c.bfd_params },
                    ..c
                },
                q.insert(Event::InterfaceBfdChange(iface_idx)),
            ),
            None => (c, q),
        },
        _ => (c, q),
    }
}

#[verifier::rlimit(100)]
fn apply_interface_cfg_general(
    cfg: &mut InterfaceCfg,
    instance_level_type: LevelType,
    iface_idx: InterfaceIndex,
    change: InterfaceEntryChange,
    event_queue: &mut OrdSet<Event>,
)
    ensures
        (final(cfg)@, final(event_queue)@) == interface_cfg_general_changed(
            old(cfg)@,
            old(event_queue)@,
            instance_level_type,
            iface_idx,
            change,
        ),
{
    reveal(interface_cfg_general_changed);
    match change {
        InterfaceEntryChange::Enabled(enabled) => {
            cfg.enabled = enabled;
            event_queue.insert(Event::InterfaceUpdate(iface_idx));
        },
        InterfaceEntryChange::LevelType(level_type) => {
            cfg.level_type.explicit = Some(level_type);
            cfg.level_type.resolved = cfg.resolved_level_type(instance_level_type);
            event_queue.insert(Event::InterfaceReset(iface_idx));
        },
        InterfaceEntryChange::Passive(passive) => {
            cfg.passive = passive;
            event_queue.insert(Event::InterfaceReset(iface_idx));
        },
        InterfaceEntryChange::InterfaceType(interface_type) => {
            cfg.interface_type = interface_type;
            event_queue.insert(Event::InterfaceReset(iface_idx));
        },
        InterfaceEntryChange::NodeFlag(enabled) => {
            cfg.node_flag = enabled;
            event_queue.insert(Event::ReoriginateLsps(LevelNumber::L1));
            event_queue.insert(Event::ReoriginateLsps(LevelNumber::L2));
        },
        InterfaceEntryChange::MetricValue(metric) => {
            cfg.metric.all = metric;
            event_queue.insert(Event::ReoriginateLsps(LevelNumber::L1));
            event_queue.insert(Event::ReoriginateLsps(LevelNumber::L2));
        },
        InterfaceEntryChange::MetricLevel1Value(metric) => {
            cfg.metric.l1 = metric;
            event_queue.insert(Event::ReoriginateLsps(LevelNumber::L1));
        },
        InterfaceEntryChange::MetricLevel2Value(metric) => {
            cfg.metric.l2 = metric;
            event_queue.insert(Event::ReoriginateLsps(LevelNumber::L2));
        },
        InterfaceEntryChange::BfdEnabled(enabled) => {
            cfg.bfd_enabled = enabled;
            event_queue.insert(Event::InterfaceBfdChange(iface_idx));
        },
        InterfaceEntryChange::BfdLocalMultiplier(local_multiplier) => {
            cfg.bfd_params.local_multiplier = local_multiplier;
            event_queue.insert(Event::InterfaceBfdChange(iface_idx));
        },
        InterfaceEntryChange::BfdDesiredMinTxInterval(min_tx) => {
            if let Some(min_tx) = min_tx {
                cfg.bfd_params.min_tx = min_tx;
                event_queue.insert(Event::InterfaceBfdChange(iface_idx));
            }
        },
        InterfaceEntryChange::BfdRequiredMinRxInterval(min_rx) => {
            if let Some(min_rx) = min_rx {
                cfg.bfd_params.min_rx = min_rx;
                event_queue.insert(Event::InterfaceBfdChange(iface_idx));
            }
        },
        InterfaceEntryChange::BfdMinInterval(min_interval) => {
            if let Some(min_interval) = min_interval {
                cfg.bfd_params.min_tx = min_interval;
                cfg.bfd_params.min_rx = min_interval;
                event_queue.insert(Event::InterfaceBfdChange(iface_idx));
            }
        },
        _ => {},
    }
}

/// The configuration of an interface, after a change of one of its own values.
pub open spec fn interface_cfg_changed(
    c: InterfaceCfgView,
    q: Set<Event>,
    instance_level_type: LevelType,
    iface_idx: InterfaceIndex,
    change: InterfaceEntryChange,
) -> (InterfaceCfgView, Set<Event>) {
    match change {
        InterfaceEntryChange::HelloAuthenticationKeyChain(_)
        | InterfaceEntryChange::HelloAuthenticationKey(_)
        | InterfaceEntryChange::HelloAuthenticationKeyId(_)
        | InterfaceEntryChange::HelloAuthenticationCryptoAlgorithm(_)
        | InterfaceEntryChange::HelloAuthenticationLevel1KeyChain(_)
        | InterfaceEntryChange::HelloAuthenticationLevel1Key(_)
        | InterfaceEntryChange::HelloAuthenticationLevel1KeyId(_)
        | InterfaceEntryChange::HelloAuthenticationLevel1CryptoAlgorithm(_)
        | InterfaceEntryChange::HelloAuthenticationLevel2KeyChain(_)
        | InterfaceEntryChange::HelloAuthenticationLevel2Key(_)
        | InterfaceEntryChange::HelloAuthenticationLevel2KeyId(_)
        | InterfaceEntryChange::HelloAuthenticationLevel2CryptoAlgorithm(_) => interface_cfg_auth_changed(
            c,
            q,
            instance_level_type,
            iface_idx,
            change,
        ),
        InterfaceEntryChange::LspPacingInterval(_)
        | InterfaceEntryChange::LspRetransmitInterval(_)
        | InterfaceEntryChange::CsnpInterval(_)
        | InterfaceEntryChange::CsnpDisable(_)
        | InterfaceEntryChange::HelloPaddingEnabled(_)
        | InterfaceEntryChange::HelloIntervalValue(_)
        | InterfaceEntryChange::HelloIntervalLevel1Value(_)
        | InterfaceEntryChange::HelloIntervalLevel2Value(_)
        | InterfaceEntryChange::HelloMultiplierValue(_)
        | InterfaceEntryChange::HelloMultiplierLevel1Value(_)
        | InterfaceEntryChange::HelloMultiplierLevel2Value(_)
        | InterfaceEntryChange::PriorityValue(_)
        | InterfaceEntryChange::PriorityLevel1Value(_)
        | InterfaceEntryChange::PriorityLevel2Value(_)
        | InterfaceEntryChange::ExtendedSequenceNumberMode(_)
        | InterfaceEntryChange::ExtendedSequenceNumberLevel1Mode(_)
        | InterfaceEntryChange::ExtendedSequenceNumberLevel2Mode(_) => interface_cfg_hello_changed(
            c,
            q,
            instance_level_type,
            iface_idx,
            change,
        ),
        InterfaceEntryChange::Enabled(_)
        | InterfaceEntryChange::LevelType(_)
        | InterfaceEntryChange::Passive(_)
        | InterfaceEntryChange::InterfaceType(_)
        | InterfaceEntryChange::NodeFlag(_)
        | InterfaceEntryChange::MetricValue(_)
        | InterfaceEntryChange::MetricLevel1Value(_)
        | InterfaceEntryChange::MetricLevel2Value(_)
        | InterfaceEntryChange::BfdEnabled(_)
        | InterfaceEntryChange::BfdLocalMultiplier(_)
        | InterfaceEntryChange::BfdDesiredMinTxInterval(_)
        | InterfaceEntryChange::BfdRequiredMinRxInterval(_)
        | InterfaceEntryChange::BfdMinInterval(_) => interface_cfg_general_changed(
            c,
            q,
            instance_level_type,
            iface_idx,
            change,
        ),
        _ => (c, q),
    }
}

fn apply_interface_cfg(
    cfg: &mut InterfaceCfg,
    instance_level_type: LevelType,
    iface_idx: InterfaceIndex,
    change: InterfaceEntryChange,
    event_queue: &mut OrdSet<Event>,
)
    ensures
        (final(cfg)@, final(event_queue)@) == interface_cfg_changed(
            old(cfg)@,
            old(event_queue)@,
            instance_level_type,
            iface_idx,
            change,
        ),
{
    match change {
        InterfaceEntryChange::HelloAuthenticationKeyChain(_)
        | InterfaceEntryChange::HelloAuthenticationKey(_)
        | InterfaceEntryChange::HelloAuthenticationKeyId(_)
        | InterfaceEntryChange::HelloAuthenticationCryptoAlgorithm(_)
        | InterfaceEntryChange::HelloAuthenticationLevel1KeyChain(_)
        | InterfaceEntryChange::HelloAuthenticationLevel1Key(_)
        | InterfaceEntryChange::HelloAuthenticationLevel1KeyId(_)
        | InterfaceEntryChange::HelloAuthenticationLevel1CryptoAlgorithm(_)
        | InterfaceEntryChange::HelloAuthenticationLevel2KeyChain(_)
        | InterfaceEntryChange::HelloAuthenticationLevel2Key(_)
        | InterfaceEntryChange::HelloAuthenticationLevel2KeyId(_)
        | InterfaceEntryChange::HelloAuthenticationLevel2CryptoAlgorithm(_) => {
            apply_interface_cfg_auth(cfg, instance_level_type, iface_idx, change, event_queue);
        },
        InterfaceEntryChange::LspPacingInterval(_)
        | InterfaceEntryChange::LspRetransmitInterval(_)
        | InterfaceEntryChange::CsnpInterval(_)
        | InterfaceEntryChange::CsnpDisable(_)
        | InterfaceEntryChange::HelloPaddingEnabled(_)
        | InterfaceEntryChange::HelloIntervalValue(_)
        | InterfaceEntryChange::HelloIntervalLevel1Value(_)
        | InterfaceEntryChange::HelloIntervalLevel2Value(_)
        | InterfaceEntryChange::HelloMultiplierValue(_)
        | InterfaceEntryChange::HelloMultiplierLevel1Value(_)
        | InterfaceEntryChange::HelloMultiplierLevel2Value(_)
        | InterfaceEntryChange::PriorityValue(_)
        | InterfaceEntryChange::PriorityLevel1Value(_)
        | InterfaceEntryChange::PriorityLevel2Value(_)
        | InterfaceEntryChange::ExtendedSequenceNumberMode(_)
        | InterfaceEntryChange::ExtendedSequenceNumberLevel1Mode(_)
        | InterfaceEntryChange::ExtendedSequenceNumberLevel2Mode(_) => {
            apply_interface_cfg_hello(cfg, instance_level_type, iface_idx, change, event_queue);
        },
        InterfaceEntryChange::Enabled(_)
        | InterfaceEntryChange::LevelType(_)
        | InterfaceEntryChange::Passive(_)
        | InterfaceEntryChange::InterfaceType(_)
        | InterfaceEntryChange::NodeFlag(_)
        | InterfaceEntryChange::MetricValue(_)
        | InterfaceEntryChange::MetricLevel1Value(_)
        | InterfaceEntryChange::MetricLevel2Value(_)
        | InterfaceEntryChange::BfdEnabled(_)
        | InterfaceEntryChange::BfdLocalMultiplier(_)
        | InterfaceEntryChange::BfdDesiredMinTxInterval(_)
        | InterfaceEntryChange::BfdRequiredMinRxInterval(_)
        | InterfaceEntryChange::BfdMinInterval(_) => {
            apply_interface_cfg_general(cfg, instance_level_type, iface_idx, change, event_queue);
        },
        _ => {},
    }
}

/// The configuration of an interface and the queued events, after a change
/// within it.
pub open spec fn interface_entry_changed(
    c: InterfaceCfgView,
    q: Set<Event>,
    d: Defaults,
    instance_level_type: LevelType,
    iface_idx: InterfaceIndex,
    change: InterfaceEntryChange,
) -> Option<(InterfaceCfgView, Set<Event>)> {
    match change {
        InterfaceEntryChange::AddressFamilyList(af, op) => Some(
            (InterfaceCfgView { afs: member(c.afs, op, af), ..c }, reoriginate(q)),
        ),
        InterfaceEntryChange::Topology(mt_id, change) => match interface_topologies_changed(
            c.mt,
            q,
            d,
            iface_idx,
            mt_id,
            change,
        ) {
            Some(r) => Some((InterfaceCfgView { mt: r.0, ..c }, r.1)),
            None => None,
        },
        InterfaceEntryChange::IsisAslaInterfaceAsla(app, change) => match asla_changed(c.asla, app, change) {
            Some(asla) => Some((InterfaceCfgView { asla, ..c }, reoriginate(q))),
            None => None,
        },
        InterfaceEntryChange::TraceOptionsFlag(option, change) => Some(
            (
                InterfaceCfgView {
                    trace_opts: interface_trace_options_changed(c.trace_opts, option, change, d.trace),
                    ..c
                },
                if interface_trace_options_notes(c.trace_opts, option, change) {
                    q.insert(Event::InterfaceUpdateTraceOptions(iface_idx))
                } else {
                    q
                },
            ),
        ),
        change => Some(interface_cfg_changed(c, q, instance_level_type, iface_idx, change)),
    }
}

fn apply_interface_entry(
    cfg: &mut InterfaceCfg,
    defaults: &Defaults,
    instance_level_type: LevelType,
    iface_idx: InterfaceIndex,
    change: InterfaceEntryChange,
    event_queue: &mut OrdSet<Event>,
) -> (r: Result<(), ApplyError>)
    ensures
        match interface_entry_changed(
            old(cfg)@,
            old(event_queue)@,
            *defaults,
            instance_level_type,
            iface_idx,
            change,
        ) {
            Some(s) => r is Ok && (final(cfg)@, final(event_queue)@) == s,
            None => r == Err::<(), ApplyError>(ApplyError::EntryNotFound) && final(cfg)@ == old(cfg)@
                && final(event_queue)@ == old(event_queue)@,
        },
{
    match change {
        InterfaceEntryChange::AddressFamilyList(af, op) => {
            match op {
                ConfigOp::Create => {
                    cfg.afs.insert(af);
                },
                ConfigOp::Delete => {
                    cfg.afs.remove(&af);
                },
            }
            queue_reoriginate(event_queue);
        },
        InterfaceEntryChange::Topology(mt_id, change) => {
            return apply_interface_topology(&mut cfg.mt, defaults, iface_idx, mt_id, change, event_queue);
        },
        InterfaceEntryChange::IsisAslaInterfaceAsla(app, change) => {
            return apply_interface_asla(&mut cfg.asla, app, change, event_queue);
        },
        InterfaceEntryChange::TraceOptionsFlag(option, change) => {
            if apply_interface_trace_options(&mut cfg.trace_opts, option, &change, defaults.trace) {
                event_queue.insert(Event::InterfaceUpdateTraceOptions(iface_idx));
            }
        },
        change => {
            apply_interface_cfg(cfg, instance_level_type, iface_idx, change, event_queue);
        },
    }
    Ok(())
}

/// Whether the entry is the first one of an interface of that name.
pub open spec fn first_named(
    interfaces: Map<InterfaceIndex, InterfaceView>,
    name: Seq<char>,
    k: InterfaceIndex,
) -> bool {
    &&& interfaces.contains_key(k)
    &&& interfaces[k].name == name
    &&& forall|j: InterfaceIndex| #[trigger] interfaces.contains_key(j) && j < k ==> interfaces[j].name != name
}

/// The interface of that name.
pub open spec fn interface_named(interfaces: Map<InterfaceIndex, InterfaceView>, name: Seq<char>) -> Option<
    InterfaceIndex,
> {
    if exists|k: InterfaceIndex| first_named(interfaces, name, k) {
        Some(choose|k: InterfaceIndex| first_named(interfaces, name, k))
    } else {
        None
    }
}

pub(crate) fn find_interface(
    interfaces: &Table<InterfaceIndex,
    Interface>,
    name: &String,
) -> (r: Option<InterfaceIndex>)
    ensures
        r == interface_named(views(interfaces@), name@),
        r matches Some(k) ==> interfaces@.contains_key(k),
{
    let ghost m = views(interfaces@);
    let n: usize = interfaces.len();
    proof {
        ascending(*interfaces);
    }
    let mut i: usize = 0;
    while i < n
        invariant
            i <= n,
            n == interfaces.keys().len(),
            interfaces.keys_sorted(),
            m == views(interfaces@),
            forall|a: int, b: int|
                0 <= a < b < interfaces.keys().len() ==> #[trigger] interfaces.keys()[a]
                    < #[trigger] interfaces.keys()[b],
            forall|k: u32| #[trigger]
                interfaces@.contains_key(k) ==> exists|x: int|
                    0 <= x < interfaces.keys().len() && interfaces.keys()[x] == k,
            forall|x: int| 0 <= x < i ==> interfaces@[#[trigger] interfaces.keys()[x]].name@ != name@,
        decreases n - i,
    {
        let iface = interfaces.value_at(i);
        if iface.name == *name {
            let k = *interfaces.key_at(i);
            assert(first_named(m, name@, k)) by {
                assert forall|j: InterfaceIndex| #[trigger] m.contains_key(j) && j < k implies m[j].name != name@ by {
                    assert(interfaces@.contains_key(j));
                    let x = choose|x: int| 0 <= x < interfaces.keys().len() && interfaces.keys()[x] == j;
                    if x > i {
                        assert(interfaces.keys()[i as int] < interfaces.keys()[x]);
                    }
                }
            }
            assert(interface_named(m, name@) == Some(k)) by {
                let c = choose|c: InterfaceIndex| first_named(m, name@, c);
                assert(first_named(m, name@, c));
                assert(m.contains_key(c) && m.contains_key(k));
            }
            return Some(k);
        }
        i = i + 1;
    }
    proof {
        assert forall|k: InterfaceIndex| !first_named(m, name@, k) by {
            if m.contains_key(k) {
                assert(interfaces@.contains_key(k));
                let x = choose|x: int| 0 <= x < interfaces.keys().len() && interfaces.keys()[x] == k;
                assert(interfaces@[interfaces.keys()[x]].name@ != name@);
            }
        }
    }
    None
}

/// An instance and the queued events, after a change of one of its interfaces.
/// An interface that is to be deleted goes when the queued event is processed.
pub open spec fn interface_changed(i: InstanceView, q: Set<Event>, name: Seq<char>, change: InterfaceChange) -> Option<
    (InstanceView, Set<Event>),
> {
    match change {
        InterfaceChange::Create => Some(
            (
                InstanceView {
                    interfaces: i.interfaces.insert(
                        i.next_interface,
                        Interface::created(i.defaults, name, i.config.level_type),
                    ),
                    next_interface: (i.next_interface + 1) as InterfaceIndex,
                    ..i
                },
                q.insert(Event::InterfaceUpdate(i.next_interface)).insert(
                    Event::InterfaceUpdateTraceOptions(i.next_interface),
                ).insert(Event::InterfaceIbusSub(i.next_interface)),
            ),
        ),
        InterfaceChange::Delete => match interface_named(i.interfaces, name) {
            Some(k) => Some((i, q.insert(Event::InterfaceDelete(k)))),
            None => None,
        },
        InterfaceChange::Entry(change) => match interface_named(i.interfaces, name) {
            Some(k) => match interface_entry_changed(
                i.interfaces[k].config,
                q,
                i.defaults,
                i.config.level_type,
                k,
                change,
            ) {
                Some(r) => Some(
                    (
                        InstanceView {
                            interfaces: i.interfaces.insert(k, InterfaceView { config: r.0, ..i.interfaces[k] }),
                            ..i
                        },
                        r.1,
                    ),
                ),
                None => None,
            },
            None => None,
        },
    }
}

fn apply_interface(
    instance: &mut Instance,
    ifname: String,
    change: InterfaceChange,
    event_queue: &mut OrdSet<Event>,
) -> (r: Result<(), ApplyError>)
    requires
        change is Create ==> old(instance).next_interface < InterfaceIndex::MAX,
    ensures
        match interface_changed(old(instance)@, old(event_queue)@, ifname@, change) {
            Some(s) => r is Ok && (final(instance)@, final(event_queue)@) == s,
            None => r == Err::<(), ApplyError>(ApplyError::EntryNotFound) && final(instance)@ == old(instance)@
                && final(event_queue)@ == old(event_queue)@,
        },
{
    let ghost before = instance.interfaces@;
    match change {
        InterfaceChange::Create => {
            let iface_idx = instance.next_interface;
            let iface = Interface::new(&instance.defaults, ifname, instance.config.level_type);
            proof {
                views_insert(before, iface_idx, iface);
            }
            instance.interfaces.insert(iface_idx, iface);
            instance.next_interface = iface_idx + 1;

            event_queue.insert(Event::InterfaceUpdate(iface_idx));
            event_queue.insert(Event::InterfaceUpdateTraceOptions(iface_idx));
            event_queue.insert(Event::InterfaceIbusSub(iface_idx));
        },
        InterfaceChange::Delete => {
            let iface_idx = match find_interface(&instance.interfaces, &ifname) {
                Some(iface_idx) => iface_idx,
                None => {
                    return Err(ApplyError::EntryNotFound);
                },
            };
            event_queue.insert(Event::InterfaceDelete(iface_idx));
        },
        InterfaceChange::Entry(change) => {
            let iface_idx = match find_interface(&instance.interfaces, &ifname) {
                Some(iface_idx) => iface_idx,
                None => {
                    return Err(ApplyError::EntryNotFound);
                },
            };
            let defaults = instance.defaults;
            let level_type = instance.config.level_type;
            if let Some(iface) = instance.interfaces.get_mut(&iface_idx) {
                let ghost i0 = *iface;
                let r = apply_interface_entry(
                    &mut iface.config,
                    &defaults,
                    level_type,
                    iface_idx,
                    change,
                    event_queue,
                );
                proof {
                    views_insert(before, iface_idx, *iface);
                    assert(views(before).insert(iface_idx, i0@) =~= views(before));
                }
                return r;
            }
        },
    }
    Ok(())
}

// ===== summaries =====

/// The summary prefixes, after a change of one of them. A change within one
/// that does not exist cannot be applied.
pub open spec fn summaries_changed(
    summaries: Map<IpNetwork, SummaryCfg>,
    prefix: IpNetwork,
    change: SummaryPrefixesChange,
) -> Option<Map<IpNetwork, SummaryCfg>> {
    match change {
        SummaryPrefixesChange::Create => Some(summaries.insert(prefix, SummaryCfg::initial())),
        SummaryPrefixesChange::Delete => Some(summaries.remove(prefix)),
        SummaryPrefixesChange::Metric(metric) => if summaries.contains_key(prefix) {
            Some(summaries.insert(prefix, SummaryCfg { metric }))
        } else {
            None
        },
    }
}

fn apply_summary_prefix(
    summaries: &mut PrefixTable<SummaryCfg>,
    prefix: IpNetwork,
    change: SummaryPrefixesChange,
    event_queue: &mut OrdSet<Event>,
) -> (r: Result<(), ApplyError>)
    requires
        prefix.valid(),
    ensures
        match summaries_changed(old(summaries)@, prefix.masked(), change) {
            Some(m) => r is Ok && final(summaries)@ == m && final(event_queue)@ == old(event_queue)@.insert(
                Event::RerunSpf,
            ),
            None => r == Err::<(), ApplyError>(ApplyError::EntryNotFound) && final(summaries)@ == old(summaries)@
                && final(event_queue)@ == old(event_queue)@,
        },
{
    match change {
        SummaryPrefixesChange::Create => {
            summaries.insert(&prefix, SummaryCfg::default());
        },
        SummaryPrefixesChange::Delete => {
            summaries.remove(&prefix);
        },
        SummaryPrefixesChange::Metric(metric) => {
            let summary_cfg = match summaries.get_mut(&prefix) {
                Some(summary_cfg) => summary_cfg,
                None => {
                    return Err(ApplyError::EntryNotFound);
                },
            };
            summary_cfg.metric = metric;
        },
    }
    event_queue.insert(Event::RerunSpf);
    Ok(())
}

// ===== shortest path bridging =====

/// The I-SIDs of a service, after a change of one of them. A change within one
/// that does not exist cannot be applied.
pub open spec fn isids_changed(
    isids: Map<u32, SpbIsidCfg>,
    d: Defaults,
    isid: u32,
    change: SpbServiceIsidChange,
) -> Option<Map<u32, SpbIsidCfg>> {
    match change {
        SpbServiceIsidChange::Create => Some(isids.insert(isid, SpbIsidCfg::initial(d))),
        SpbServiceIsidChange::Delete => Some(isids.remove(isid)),
        SpbServiceIsidChange::Entry(change) => if isids.contains_key(isid) {
            Some(
                isids.insert(
                    isid,
                    match change {
                        SpbServiceIsidEntryChange::Transmit(transmit) => SpbIsidCfg { transmit, ..isids[isid] },
                        SpbServiceIsidEntryChange::Receive(receive) => SpbIsidCfg { receive, ..isids[isid] },
                    },
                ),
            )
        } else {
            None
        },
    }
}

fn apply_spb_isid(
    service: &mut SpbServiceCfg,
    defaults: &Defaults,
    isid: u32,
    change: SpbServiceIsidChange,
) -> (r: Result<(), ApplyError>)
    ensures
        match isids_changed(old(service)@.isids, *defaults, isid, change) {
            Some(isids) => r is Ok && final(service)@ == (SpbServiceCfgView { isids }),
            None => r == Err::<(), ApplyError>(ApplyError::EntryNotFound) && final(service)@ == old(service)@,
        },
{
    match change {
        SpbServiceIsidChange::Create => {
            service.isids.insert(isid, SpbIsidCfg::new(defaults));
        },
        SpbServiceIsidChange::Delete => {
            service.isids.remove(&isid);
        },
        SpbServiceIsidChange::Entry(change) => {
            let isid_cfg = match service.isids.get_mut(&isid) {
                Some(isid_cfg) => isid_cfg,
                None => {
                    return Err(ApplyError::EntryNotFound);
                },
            };
            match change {
                SpbServiceIsidEntryChange::Transmit(transmit) => {
                    isid_cfg.transmit = transmit;
                },
                SpbServiceIsidEntryChange::Receive(receive) => {
                    isid_cfg.receive = receive;
                },
            }
        },
    }
    Ok(())
}

/// The SPB services, after a change of one of them. A change within one that
/// does not exist cannot be applied.
pub open spec fn services_changed(
    services: Map<SpbServiceKey, SpbServiceCfgView>,
    d: Defaults,
    key: SpbServiceKey,
    change: SpbServiceChange,
) -> Option<Map<SpbServiceKey, SpbServiceCfgView>> {
    match change {
        SpbServiceChange::Create => Some(services.insert(key, SpbServiceCfgView { isids: Map::empty() })),
        SpbServiceChange::Delete => Some(services.remove(key)),
        SpbServiceChange::Isid(isid, change) => if services.contains_key(key) {
            match isids_changed(services[key].isids, d, isid, change) {
                Some(isids) => Some(services.insert(key, SpbServiceCfgView { isids })),
                None => None,
            }
        } else {
            None
        },
    }
}

fn apply_spb_service(
    services: &mut Table<SpbServiceKey, SpbServiceCfg>,
    defaults: &Defaults,
    key: SpbServiceKey,
    change: SpbServiceChange,
) -> (r: Result<(), ApplyError>)
    ensures
        match services_changed(views(old(services)@), *defaults, key, change) {
            Some(m) => r is Ok && views(final(services)@) == m,
            None => r == Err::<(), ApplyError>(ApplyError::EntryNotFound) && views(final(services)@) == views(
                old(services)@,
            ),
        },
{
    let ghost before = services@;
    match change {
        SpbServiceChange::Create => {
            let service = SpbServiceCfg { isids: Table::new() };
            proof {
                views_insert(before, key, service);
            }
            services.insert(key, service);
        },
        SpbServiceChange::Delete => {
            services.remove(&key);
            proof {
                views_remove(before, key);
            }
        },
        SpbServiceChange::Isid(isid, change) => {
            let service = match services.get_mut(&key) {
                Some(service) => service,
                None => {
                    return Err(ApplyError::EntryNotFound);
                },
            };
            let ghost s0 = *service;
            let r = apply_spb_isid(service, defaults, isid, change);
            proof {
                views_insert(before, key, *service);
                assert(views(before).insert(key, s0@) =~= views(before));
            }
            return r;
        },
    }
    Ok(())
}

// ===== instance =====

/// The configuration of an instance, after a change of its authentication.
#[verifier::opaque]
pub open spec fn instance_cfg_auth_changed(
    c: InstanceCfgView,
    q: Set<Event>,
    change: ConfigChange,
) -> (InstanceCfgView, Set<Event>) {
    match change {
        ConfigChange::AuthenticationKeyChain(keychain) => (
            InstanceCfgView {
                auth: LevelsCfg { all: AuthCfgView { keychain: opt_text(keychain), ..c.auth.all }, ..c.auth },
                ..c
            },
            q.insert(Event::InstanceUpdateAuth).insert(
                Event::ReoriginateLsps(LevelNumber::L1),
            ).insert(Event::ReoriginateLsps(LevelNumber::L2)),
        ),
        ConfigChange::AuthenticationKey(key) => (
            InstanceCfgView {
                auth: LevelsCfg { all: AuthCfgView { key: opt_text(key), ..c.auth.all }, ..c.auth },
                ..c
            },
            q.insert(Event::InstanceUpdateAuth).insert(
                Event::ReoriginateLsps(LevelNumber::L1),
            ).insert(Event::ReoriginateLsps(LevelNumber::L2)),
        ),
        ConfigChange::AuthenticationKeyId(key_id) => (
            InstanceCfgView { auth: LevelsCfg { all: AuthCfgView { key_id, ..c.auth.all }, ..c.auth }, ..c },
            q.insert(Event::InstanceUpdateAuth).insert(
                Event::ReoriginateLsps(LevelNumber::L1),
            ).insert(Event::ReoriginateLsps(LevelNumber::L2)),
        ),
        ConfigChange::AuthenticationCryptoAlgorithm(algo) => (
            InstanceCfgView { auth: LevelsCfg { all: AuthCfgView { algo, ..c.auth.all }, ..c.auth }, ..c },
            q.insert(Event::InstanceUpdateAuth).insert(
                Event::ReoriginateLsps(LevelNumber::L1),
            ).insert(Event::ReoriginateLsps(LevelNumber::L2)),
        ),
        ConfigChange::AuthenticationLevel1KeyChain(keychain) => (
            InstanceCfgView {
                auth: LevelsCfg { l1: AuthCfgView { keychain: opt_text(keychain), ..c.auth.l1 }, ..c.auth },
                ..c
            },
            q.insert(Event::InstanceUpdateAuth).insert(Event::ReoriginateLsps(LevelNumber::L1)),
        ),
        ConfigChange::AuthenticationLevel1Key(key) => (
            InstanceCfgView {
                auth: LevelsCfg { l1: AuthCfgView { key: opt_text(key), ..c.auth.l1 }, ..c.auth },
                ..c
            },
            q.insert(Event::InstanceUpdateAuth).insert(Event::ReoriginateLsps(LevelNumber::L1)),
        ),
        ConfigChange::AuthenticationLevel1KeyId(key_id) => (
            InstanceCfgView { auth: LevelsCfg { l1: AuthCfgView { key_id, ..c.auth.l1 }, ..c.auth }, ..c },
            q.insert(Event::InstanceUpdateAuth).insert(Event::ReoriginateLsps(LevelNumber::L1)),
        ),
        ConfigChange::AuthenticationLevel1CryptoAlgorithm(algo) => (
            InstanceCfgView { auth: LevelsCfg { l1: AuthCfgView { algo, ..c.auth.l1 }, ..c.auth }, ..c },
            q.insert(Event::InstanceUpdateAuth).insert(Event::ReoriginateLsps(LevelNumber::L1)),
        ),
        ConfigChange::AuthenticationLevel2KeyChain(keychain) => (
            InstanceCfgView {
                auth: LevelsCfg { l2: AuthCfgView { keychain: opt_text(keychain), ..c.auth.l2 }, ..c.auth },
                ..c
            },
            q.insert(Event::InstanceUpdateAuth).insert(Event::ReoriginateLsps(LevelNumber::L2)),
        ),
        ConfigChange::AuthenticationLevel2Key(key) => (
            InstanceCfgView {
                auth: LevelsCfg { l2: AuthCfgView { key: opt_text(key), ..c.auth.l2 }, ..c.auth },
                ..c
            },
            q.insert(Event::InstanceUpdateAuth).insert(Event::ReoriginateLsps(LevelNumber::L2)),
        ),
        ConfigChange::AuthenticationLevel2KeyId(key_id) => (
            InstanceCfgView { auth: LevelsCfg { l2: AuthCfgView { key_id, ..c.auth.l2 }, ..c.auth }, ..c },
            q.insert(Event::InstanceUpdateAuth).insert(Event::ReoriginateLsps(LevelNumber::L2)),
        ),
        ConfigChange::AuthenticationLevel2CryptoAlgorithm(algo) => (
            InstanceCfgView { auth: LevelsCfg { l2: AuthCfgView { algo, ..c.auth.l2 }, ..c.auth }, ..c },
            q.insert(Event::InstanceUpdateAuth).insert(Event::ReoriginateLsps(LevelNumber::L2)),
        ),
        _ => (c, q),
    }
}

#[verifier::rlimit(100)]
fn apply_instance_cfg_auth(
    cfg: &mut InstanceCfg,
    change: ConfigChange,
    event_queue: &mut OrdSet<Event>,
)
    ensures
        (final(cfg)@, final(event_queue)@) == instance_cfg_auth_changed(old(cfg)@, old(event_queue)@, change),
{
    reveal(instance_cfg_auth_changed);
    match change {
        ConfigChange::AuthenticationKeyChain(keychain) => {
            cfg.auth.all.keychain = keychain;
            event_queue.insert(Event::InstanceUpdateAuth);
            event_queue.insert(Event::ReoriginateLsps(LevelNumber::L1));
            event_queue.insert(Event::ReoriginateLsps(LevelNumber::L2));
        },
        ConfigChange::AuthenticationKey(key) => {
            cfg.auth.all.key = key;
            event_queue.insert(Event::InstanceUpdateAuth);
            event_queue.insert(Event::ReoriginateLsps(LevelNumber::L1));
            event_queue.insert(Event::ReoriginateLsps(LevelNumber::L2));
        },
        ConfigChange::AuthenticationKeyId(key_id) => {
            cfg.auth.all.key_id = key_id;
            event_queue.insert(Event::InstanceUpdateAuth);
            event_queue.insert(Event::ReoriginateLsps(LevelNumber::L1));
            event_queue.insert(Event::ReoriginateLsps(LevelNumber::L2));
        },
        ConfigChange::AuthenticationCryptoAlgorithm(algo) => {
            cfg.auth.all.algo = algo;
            event_queue.insert(Event::InstanceUpdateAuth);
            event_queue.insert(Event::ReoriginateLsps(LevelNumber::L1));
            event_queue.insert(Event::ReoriginateLsps(LevelNumber::L2));
        },
        ConfigChange::AuthenticationLevel1KeyChain(keychain) => {
            cfg.auth.l1.keychain = keychain;
            event_queue.insert(Event::InstanceUpdateAuth);
            event_queue.insert(Event::ReoriginateLsps(LevelNumber::L1));
        },
        ConfigChange::AuthenticationLevel1Key(key) => {
            cfg.auth.l1.key = key;
            event_queue.insert(Event::InstanceUpdateAuth);
            event_queue.insert(Event::ReoriginateLsps(LevelNumber::L1));
        },
        ConfigChange::AuthenticationLevel1KeyId(key_id) => {
            cfg.auth.l1.key_id = key_id;
            event_queue.insert(Event::InstanceUpdateAuth);
            event_queue.insert(Event::ReoriginateLsps(LevelNumber::L1));
        },
        ConfigChange::AuthenticationLevel1CryptoAlgorithm(algo) => {
            cfg.auth.l1.algo = algo;
            event_queue.insert(Event::InstanceUpdateAuth);
            event_queue.insert(Event::ReoriginateLsps(LevelNumber::L1));
        },
        ConfigChange::AuthenticationLevel2KeyChain(keychain) => {
            cfg.auth.l2.keychain = keychain;
            event_queue.insert(Event::InstanceUpdateAuth);
            event_queue.insert(Event::ReoriginateLsps(LevelNumber::L2));
        },
        ConfigChange::AuthenticationLevel2Key(key) => {
            cfg.auth.l2.key = key;
            event_queue.insert(Event::InstanceUpdateAuth);
            event_queue.insert(Event::ReoriginateLsps(LevelNumber::L2));
        },
        ConfigChange::AuthenticationLevel2KeyId(key_id) => {
            cfg.auth.l2.key_id = key_id;
            event_queue.insert(Event::InstanceUpdateAuth);
            event_queue.insert(Event::ReoriginateLsps(LevelNumber::L2));
        },
        ConfigChange::AuthenticationLevel2CryptoAlgorithm(algo) => {
            cfg.auth.l2.algo = algo;
            event_queue.insert(Event::InstanceUpdateAuth);
            event_queue.insert(Event::ReoriginateLsps(LevelNumber::L2));
        },
        _ => {},
    }
}

/// The configuration of an instance, after a change of what it advertises.
#[verifier::opaque]
pub open spec fn instance_cfg_metric_changed(
    c: InstanceCfgView,
    q: Set<Event>,
    change: ConfigChange,
) -> (InstanceCfgView, Set<Event>) {
    match change {
        ConfigChange::AreaAddress(op, area_addr) => (
            InstanceCfgView { area_addrs: member(c.area_addrs, op, area_addr), ..c },
            q.insert(Event::ReoriginateLsps(LevelNumber::L1)).insert(Event::ReoriginateLsps(LevelNumber::L2)),
        ),
        ConfigChange::LspMtu(lsp_mtu) => (
            InstanceCfgView { lsp_mtu, ..c },
            q.insert(Event::ReoriginateLsps(LevelNumber::L1)).insert(Event::ReoriginateLsps(LevelNumber::L2)),
        ),
        ConfigChange::LspLifetime(lsp_lifetime) => (
            InstanceCfgView { lsp_lifetime, ..c },
            q.insert(Event::RefreshLsps),
        ),
        ConfigChange::LspRefresh(lsp_refresh) => (InstanceCfgView { lsp_refresh, ..c }, q.insert(Event::RefreshLsps)),
        ConfigChange::PoiTlv(enabled) => (InstanceCfgView { purge_originator: enabled, ..c }, q),
        ConfigChange::MetricTypeValue(metric_type) => (
            InstanceCfgView { metric_type: LevelsCfgWithDefault { all: metric_type, ..c.metric_type }, ..c },
            q.insert(Event::ReoriginateLsps(LevelNumber::L1)).insert(Event::ReoriginateLsps(LevelNumber::L2)),
        ),
        ConfigChange::MetricTypeLevel1Value(metric_type) => (
            InstanceCfgView { metric_type: LevelsCfgWithDefault { l1: metric_type, ..c.metric_type }, ..c },
            q.insert(Event::ReoriginateLsps(LevelNumber::L1)),
        ),
        ConfigChange::MetricTypeLevel2Value(metric_type) => (
            InstanceCfgView { metric_type: LevelsCfgWithDefault { l2: metric_type, ..c.metric_type }, ..c },
            q.insert(Event::ReoriginateLsps(LevelNumber::L2)),
        ),
        ConfigChange::DefaultMetricValue(metric) => (
            InstanceCfgView { default_metric: LevelsCfgWithDefault { all: metric, ..c.default_metric }, ..c },
            q,
        ),
        ConfigChange::DefaultMetricLevel1Value(metric) => (
            InstanceCfgView { default_metric: LevelsCfgWithDefault { l1: metric, ..c.default_metric }, ..c },
            q,
        ),
        ConfigChange::DefaultMetricLevel2Value(metric) => (
            InstanceCfgView { default_metric: LevelsCfgWithDefault { l2: metric, ..c.default_metric }, ..c },
            q,
        ),
        ConfigChange::MplsTeRidIpv4RouterId(addr) => (
            InstanceCfgView { ipv4_router_id: addr, ..c },
            q.insert(Event::ReoriginateLsps(LevelNumber::L1)).insert(Event::ReoriginateLsps(LevelNumber::L2)),
        ),
        ConfigChange::MplsTeRidIpv6RouterId(addr) => (
            InstanceCfgView { ipv6_router_id: addr, ..c },
            q.insert(Event::ReoriginateLsps(LevelNumber::L1)).insert(Event::ReoriginateLsps(LevelNumber::L2)),
        ),
        _ => (c, q),
    }
}

#[verifier::rlimit(100)]
fn apply_instance_cfg_metric(
    cfg: &mut InstanceCfg,
    change: ConfigChange,
    event_queue: &mut OrdSet<Event>,
)
    ensures
        (final(cfg)@, final(event_queue)@) == instance_cfg_metric_changed(old(cfg)@, old(event_queue)@, change),
{
    reveal(instance_cfg_metric_changed);
    match change {
        ConfigChange::AreaAddress(op, area_addr) => {
            match op {
                ConfigOp::Create => {
                    cfg.area_addrs.insert(area_addr);
                },
                ConfigOp::Delete => {
                    cfg.area_addrs.remove(&area_addr);
                },
            }
            event_queue.insert(Event::ReoriginateLsps(LevelNumber::L1));
            event_queue.insert(Event::ReoriginateLsps(LevelNumber::L2));
        },
        ConfigChange::LspMtu(lsp_mtu) => {
            cfg.lsp_mtu = lsp_mtu;
            event_queue.insert(Event::ReoriginateLsps(LevelNumber::L1));
            event_queue.insert(Event::ReoriginateLsps(LevelNumber::L2));
        },
        ConfigChange::LspLifetime(lsp_lifetime) => {
            cfg.lsp_lifetime = lsp_lifetime;
            event_queue.insert(Event::RefreshLsps);
        },
        ConfigChange::LspRefresh(lsp_refresh) => {
            cfg.lsp_refresh = lsp_refresh;
            event_queue.insert(Event::RefreshLsps);
        },
        ConfigChange::PoiTlv(enabled) => {
            cfg.purge_originator = enabled;
        },
        ConfigChange::MetricTypeValue(metric_type) => {
            cfg.metric_type.all = metric_type;
            event_queue.insert(Event::ReoriginateLsps(LevelNumber::L1));
            event_queue.insert(Event::ReoriginateLsps(LevelNumber::L2));
        },
        ConfigChange::MetricTypeLevel1Value(metric_type) => {
            cfg.metric_type.l1 = metric_type;
            event_queue.insert(Event::ReoriginateLsps(LevelNumber::L1));
        },
        ConfigChange::MetricTypeLevel2Value(metric_type) => {
            cfg.metric_type.l2 = metric_type;
            event_queue.insert(Event::ReoriginateLsps(LevelNumber::L2));
        },
        ConfigChange::DefaultMetricValue(metric) => {
            cfg.default_metric.all = metric;
        },
        ConfigChange::DefaultMetricLevel1Value(metric) => {
            cfg.default_metric.l1 = metric;
        },
        ConfigChange::DefaultMetricLevel2Value(metric) => {
            cfg.default_metric.l2 = metric;
        },
        ConfigChange::MplsTeRidIpv4RouterId(addr) => {
            cfg.ipv4_router_id = addr;
            event_queue.insert(Event::ReoriginateLsps(LevelNumber::L1));
            event_queue.insert(Event::ReoriginateLsps(LevelNumber::L2));
        },
        ConfigChange::MplsTeRidIpv6RouterId(addr) => {
            cfg.ipv6_router_id = addr;
            event_queue.insert(Event::ReoriginateLsps(LevelNumber::L1));
            event_queue.insert(Event::ReoriginateLsps(LevelNumber::L2));
        },
        _ => {},
    }
}

/// The configuration of an instance, after a change of its route calculation.
#[verifier::opaque]
pub open spec fn instance_cfg_spf_changed(
    c: InstanceCfgView,
    q: Set<Event>,
    change: ConfigChange,
) -> (InstanceCfgView, Set<Event>) {
    match change {
        ConfigChange::SpfControlPaths(max_paths) => (InstanceCfgView { max_paths, ..c }, q.insert(Event::RerunSpf)),
        ConfigChange::SpfControlIetfSpfDelayInitialDelay(initial_delay) => (
            InstanceCfgView { spf_initial_delay: initial_delay, ..c },
            q,
        ),
        ConfigChange::SpfControlIetfSpfDelayShortDelay(short_delay) => (
            InstanceCfgView { spf_short_delay: short_delay, ..c },
            q,
        ),
        ConfigChange::SpfControlIetfSpfDelayLongDelay(long_delay) => (
            InstanceCfgView { spf_long_delay: long_delay, ..c },
            q,
        ),
        ConfigChange::SpfControlIetfSpfDelayHoldDown(hold_down) => (
            InstanceCfgView { spf_hold_down: hold_down, ..c },
            q,
        ),
        ConfigChange::SpfControlIetfSpfDelayTimeToLearn(time_to_learn) => (
            InstanceCfgView { spf_time_to_learn: time_to_learn, ..c },
            q,
        ),
        ConfigChange::PreferenceInternal(preference) => match preference {
            Some(preference) => (
                InstanceCfgView { preference: Preference { internal: preference, ..c.preference }, ..c },
                q.insert(Event::ReinstallRoutes),
            ),
            None => (c, q),
        },
        ConfigChange::PreferenceExternal(preference) => match preference {
            Some(preference) => (
                InstanceCfgView { preference: Preference { external: preference, ..c.preference }, ..c },
                q.insert(Event::ReinstallRoutes),
            ),
            None => (c, q),
        },
        ConfigChange::PreferenceDefault(preference) => match preference {
            Some(preference) => (
                InstanceCfgView { preference: Preference { internal: preference, external: preference }, ..c },
                q.insert(Event::ReinstallRoutes),
            ),
            None => (c, q),
        },
        ConfigChange::AttachedBitSuppressAdvertisement(enabled) => (
            InstanceCfgView { att_suppress: enabled, ..c },
            q.insert(Event::ReoriginateLsps(LevelNumber::L1)).insert(Event::ReoriginateLsps(LevelNumber::L2)),
        ),
        ConfigChange::AttachedBitIgnoreReception(enabled) => (
            InstanceCfgView { att_ignore: enabled, ..c },
            q.insert(Event::RerunSpf),
        ),
        ConfigChange::FloodingReductionAlgorithm(algo) => (
            InstanceCfgView { flooding_reduction: InstanceFloodingReductionCfg { algo }, ..c },
            q.insert(Event::RerunSpf),
        ),
        _ => (c, q),
    }
}

#[verifier::rlimit(100)]
fn apply_instance_cfg_spf(
    cfg: &mut InstanceCfg,
    change: ConfigChange,
    event_queue: &mut OrdSet<Event>,
)
    ensures
        (final(cfg)@, final(event_queue)@) == instance_cfg_spf_changed(old(cfg)@, old(event_queue)@, change),
{
    reveal(instance_cfg_spf_changed);
    match change {
        ConfigChange::SpfControlPaths(max_paths) => {
            cfg.max_paths = max_paths;
            event_queue.insert(Event::RerunSpf);
        },
        ConfigChange::SpfControlIetfSpfDelayInitialDelay(initial_delay) => {
            cfg.spf_initial_delay = initial_delay;
        },
        ConfigChange::SpfControlIetfSpfDelayShortDelay(short_delay) => {
            cfg.spf_short_delay = short_delay;
        },
        ConfigChange::SpfControlIetfSpfDelayLongDelay(long_delay) => {
            cfg.spf_long_delay = long_delay;
        },
        ConfigChange::SpfControlIetfSpfDelayHoldDown(hold_down) => {
            cfg.spf_hold_down = hold_down;
        },
        ConfigChange::SpfControlIetfSpfDelayTimeToLearn(time_to_learn) => {
            cfg.spf_time_to_learn = time_to_learn;
        },
        ConfigChange::PreferenceInternal(preference) => {
            if let Some(preference) = preference {
                cfg.preference.internal = preference;
                event_queue.insert(Event::ReinstallRoutes);
            }
        },
        ConfigChange::PreferenceExternal(preference) => {
            if let Some(preference) = preference {
                cfg.preference.external = preference;
                event_queue.insert(Event::ReinstallRoutes);
            }
        },
        ConfigChange::PreferenceDefault(preference) => {
            if let Some(preference) = preference {
                cfg.preference.internal = preference;
                cfg.preference.external = preference;
                event_queue.insert(Event::ReinstallRoutes);
            }
        },
        ConfigChange::AttachedBitSuppressAdvertisement(enabled) => {
            cfg.att_suppress = enabled;
            event_queue.insert(Event::ReoriginateLsps(LevelNumber::L1));
            event_queue.insert(Event::ReoriginateLsps(LevelNumber::L2));
        },
        ConfigChange::AttachedBitIgnoreReception(enabled) => {
            cfg.att_ignore = enabled;
            event_queue.insert(Event::RerunSpf);
        },
        ConfigChange::FloodingReductionAlgorithm(algo) => {
            cfg.flooding_reduction.algo = algo;
            event_queue.insert(Event::RerunSpf);
        },
        _ => {},
    }
}

/// The configuration of an instance, after a change of other values.
#[verifier::opaque]
pub open spec fn instance_cfg_general_changed(
    c: InstanceCfgView,
    q: Set<Event>,
    change: ConfigChange,
) -> (InstanceCfgView, Set<Event>) {
    match change {
        ConfigChange::Enabled(enabled) => (InstanceCfgView { enabled, ..c }, q.insert(Event::InstanceUpdate)),
        ConfigChange::LevelType(level_type) => (
            InstanceCfgView { level_type, ..c },
            q.insert(Event::InstanceReset).insert(Event::InstanceLevelTypeUpdate),
        ),
        ConfigChange::SystemId(system_id) => (
            InstanceCfgView { system_id, ..c },
            (if system_id is Some {
                q.insert(Event::InstanceReset)
            } else {
                q
            }).insert(Event::InstanceUpdate),
        ),
        ConfigChange::OverloadStatus(overload_status) => (
            InstanceCfgView { overload_status, ..c },
            q.insert(Event::OverloadChange(overload_status)).insert(
                Event::ReoriginateLsps(LevelNumber::L1),
            ).insert(Event::ReoriginateLsps(LevelNumber::L2)),
        ),
        ConfigChange::BierMtId(mt_id) => (
            InstanceCfgView { bier: InstanceBierCfg { mt_id: mt_id.unwrap_or(0), ..c.bier }, ..c },
            q.insert(Event::ReoriginateLsps(LevelNumber::L1)).insert(Event::ReoriginateLsps(LevelNumber::L2)),
        ),
        ConfigChange::BierBierEnable(enable) => (
            InstanceCfgView { bier: InstanceBierCfg { enabled: enable, ..c.bier }, ..c },
            q.insert(Event::ReoriginateLsps(LevelNumber::L1)).insert(Event::ReoriginateLsps(LevelNumber::L2)),
        ),
        ConfigChange::BierBierAdvertise(advertise) => (
            InstanceCfgView { bier: InstanceBierCfg { advertise, ..c.bier }, ..c },
            q,
        ),
        ConfigChange::BierBierReceive(receive) => (
            InstanceCfgView { bier: InstanceBierCfg { receive, ..c.bier }, ..c },
            q,
        ),
        ConfigChange::SpbEnable(enable) => (
            InstanceCfgView { spb: InstanceSpbCfgView { enabled: enable, ..c.spb }, ..c },
            q,
        ),
        ConfigChange::IsisLinkAttrLegacy(op) => match op {
            ConfigOp::Create => (
                InstanceCfgView { link_attr_mode: LinkAttrMode::Legacy, ..c },
                q.insert(
                    Event::ReoriginateLsps(LevelNumber::L1),
                ).insert(Event::ReoriginateLsps(LevelNumber::L2)),
            ),
            ConfigOp::Delete => (c, q),
        },
        ConfigChange::IsisLinkAttrTransition(op) => match op {
            ConfigOp::Create => (
                InstanceCfgView { link_attr_mode: LinkAttrMode::Transition, ..c },
                q.insert(
                    Event::ReoriginateLsps(LevelNumber::L1),
                ).insert(Event::ReoriginateLsps(LevelNumber::L2)),
            ),
            ConfigOp::Delete => (c, q),
        },
        ConfigChange::IsisLinkAttrAppSpecific(op) => match op {
            ConfigOp::Create => (
                InstanceCfgView { link_attr_mode: LinkAttrMode::AppSpecific, ..c },
                q.insert(
                    Event::ReoriginateLsps(LevelNumber::L1),
                ).insert(Event::ReoriginateLsps(LevelNumber::L2)),
            ),
            ConfigOp::Delete => (c, q),
        },
        ConfigChange::SegmentRoutingEnabled(enabled) => (
            InstanceCfgView { sr: InstanceSrCfg { enabled }, ..c },
            q.insert(Event::SrEnabledChange(enabled)).insert(
                Event::ReoriginateLsps(LevelNumber::L1),
            ).insert(Event::ReoriginateLsps(LevelNumber::L2)),
        ),
        _ => (c, q),
    }
}

#[verifier::rlimit(100)]
fn apply_instance_cfg_general(
    cfg: &mut InstanceCfg,
    change: ConfigChange,
    event_queue: &mut OrdSet<Event>,
)
    ensures
        (final(cfg)@, final(event_queue)@) == instance_cfg_general_changed(old(cfg)@, old(event_queue)@, change),
{
    reveal(instance_cfg_general_changed);
    match change {
        ConfigChange::Enabled(enabled) => {
            cfg.enabled = enabled;
            event_queue.insert(Event::InstanceUpdate);
        },
        ConfigChange::LevelType(level_type) => {
            cfg.level_type = level_type;
            event_queue.insert(Event::InstanceReset);
            event_queue.insert(Event::InstanceLevelTypeUpdate);
        },
        ConfigChange::SystemId(system_id) => {
            if system_id.is_some() {
                event_queue.insert(Event::InstanceReset);
            }
            cfg.system_id = system_id;
            event_queue.insert(Event::InstanceUpdate);
        },
        ConfigChange::OverloadStatus(overload_status) => {
            cfg.overload_status = overload_status;
            event_queue.insert(Event::OverloadChange(overload_status));
            event_queue.insert(Event::ReoriginateLsps(LevelNumber::L1));
            event_queue.insert(Event::ReoriginateLsps(LevelNumber::L2));
        },
        ConfigChange::BierMtId(mt_id) => {
            cfg.bier.mt_id = mt_id.unwrap_or(0);
            event_queue.insert(Event::ReoriginateLsps(LevelNumber::L1));
            event_queue.insert(Event::ReoriginateLsps(LevelNumber::L2));
        },
        ConfigChange::BierBierEnable(enable) => {
            cfg.bier.enabled = enable;
            event_queue.insert(Event::ReoriginateLsps(LevelNumber::L1));
            event_queue.insert(Event::ReoriginateLsps(LevelNumber::L2));
        },
        ConfigChange::BierBierAdvertise(advertise) => {
            cfg.bier.advertise = advertise;
        },
        ConfigChange::BierBierReceive(receive) => {
            cfg.bier.receive = receive;
        },
        ConfigChange::SpbEnable(enable) => {
            cfg.spb.enabled = enable;
        },
        ConfigChange::IsisLinkAttrLegacy(op) => {
            if let ConfigOp::Create = op {
                cfg.link_attr_mode = LinkAttrMode::Legacy;
                event_queue.insert(Event::ReoriginateLsps(LevelNumber::L1));
                event_queue.insert(Event::ReoriginateLsps(LevelNumber::L2));
            }
        },
        ConfigChange::IsisLinkAttrTransition(op) => {
            if let ConfigOp::Create = op {
                cfg.link_attr_mode = LinkAttrMode::Transition;
                event_queue.insert(Event::ReoriginateLsps(LevelNumber::L1));
                event_queue.insert(Event::ReoriginateLsps(LevelNumber::L2));
            }
        },
        ConfigChange::IsisLinkAttrAppSpecific(op) => {
            if let ConfigOp::Create = op {
                cfg.link_attr_mode = LinkAttrMode::AppSpecific;
                event_queue.insert(Event::ReoriginateLsps(LevelNumber::L1));
                event_queue.insert(Event::ReoriginateLsps(LevelNumber::L2));
            }
        },
        ConfigChange::SegmentRoutingEnabled(enabled) => {
            cfg.sr.enabled = enabled;
            event_queue.insert(Event::SrEnabledChange(enabled));
            event_queue.insert(Event::ReoriginateLsps(LevelNumber::L1));
            event_queue.insert(Event::ReoriginateLsps(LevelNumber::L2));
        },
        _ => {},
    }
}

/// The configuration of an instance, after a change of one of its own values.
pub open spec fn instance_cfg_changed(
    c: InstanceCfgView,
    q: Set<Event>,
    change: ConfigChange,
) -> (InstanceCfgView, Set<Event>) {
    match change {
        ConfigChange::AuthenticationKeyChain(_)
        | ConfigChange::AuthenticationKey(_)
        | ConfigChange::AuthenticationKeyId(_)
        | ConfigChange::AuthenticationCryptoAlgorithm(_)
        | ConfigChange::AuthenticationLevel1KeyChain(_)
        | ConfigChange::AuthenticationLevel1Key(_)
        | ConfigChange::AuthenticationLevel1KeyId(_)
        | ConfigChange::AuthenticationLevel1CryptoAlgorithm(_)
        | ConfigChange::AuthenticationLevel2KeyChain(_)
        | ConfigChange::AuthenticationLevel2Key(_)
        | ConfigChange::AuthenticationLevel2KeyId(_)
        | ConfigChange::AuthenticationLevel2CryptoAlgorithm(_) => instance_cfg_auth_changed(c, q, change),
        ConfigChange::AreaAddress(..)
        | ConfigChange::LspMtu(_)
        | ConfigChange::LspLifetime(_)
        | ConfigChange::LspRefresh(_)
        | ConfigChange::PoiTlv(_)
        | ConfigChange::MetricTypeValue(_)
        | ConfigChange::MetricTypeLevel1Value(_)
        | ConfigChange::MetricTypeLevel2Value(_)
        | ConfigChange::DefaultMetricValue(_)
        | ConfigChange::DefaultMetricLevel1Value(_)
        | ConfigChange::DefaultMetricLevel2Value(_)
        | ConfigChange::MplsTeRidIpv4RouterId(_)
        | ConfigChange::MplsTeRidIpv6RouterId(_) => instance_cfg_metric_changed(c, q, change),
        ConfigChange::SpfControlPaths(_)
        | ConfigChange::SpfControlIetfSpfDelayInitialDelay(_)
        | ConfigChange::SpfControlIetfSpfDelayShortDelay(_)
        | ConfigChange::SpfControlIetfSpfDelayLongDelay(_)
        | ConfigChange::SpfControlIetfSpfDelayHoldDown(_)
        | ConfigChange::SpfControlIetfSpfDelayTimeToLearn(_)
        | ConfigChange::PreferenceInternal(_)
        | ConfigChange::PreferenceExternal(_)
        | ConfigChange::PreferenceDefault(_)
        | ConfigChange::AttachedBitSuppressAdvertisement(_)
        | ConfigChange::AttachedBitIgnoreReception(_)
        | ConfigChange::FloodingReductionAlgorithm(_) => instance_cfg_spf_changed(c, q, change),
        ConfigChange::Enabled(_)
        | ConfigChange::LevelType(_)
        | ConfigChange::SystemId(_)
        | ConfigChange::OverloadStatus(_)
        | ConfigChange::BierMtId(_)
        | ConfigChange::BierBierEnable(_)
        | ConfigChange::BierBierAdvertise(_)
        | ConfigChange::BierBierReceive(_)
        | ConfigChange::SpbEnable(_)
        | ConfigChange::IsisLinkAttrLegacy(_)
        | ConfigChange::IsisLinkAttrTransition(_)
        | ConfigChange::IsisLinkAttrAppSpecific(_)
        | ConfigChange::SegmentRoutingEnabled(_) => instance_cfg_general_changed(c, q, change),
        _ => (c, q),
    }
}

fn apply_instance_cfg(
    cfg: &mut InstanceCfg,
    change: ConfigChange,
    event_queue: &mut OrdSet<Event>,
)
    ensures
        (final(cfg)@, final(event_queue)@) == instance_cfg_changed(old(cfg)@, old(event_queue)@, change),
{
    match change {
        ConfigChange::AuthenticationKeyChain(_)
        | ConfigChange::AuthenticationKey(_)
        | ConfigChange::AuthenticationKeyId(_)
        | ConfigChange::AuthenticationCryptoAlgorithm(_)
        | ConfigChange::AuthenticationLevel1KeyChain(_)
        | ConfigChange::AuthenticationLevel1Key(_)
        | ConfigChange::AuthenticationLevel1KeyId(_)
        | ConfigChange::AuthenticationLevel1CryptoAlgorithm(_)
        | ConfigChange::AuthenticationLevel2KeyChain(_)
        | ConfigChange::AuthenticationLevel2Key(_)
        | ConfigChange::AuthenticationLevel2KeyId(_)
        | ConfigChange::AuthenticationLevel2CryptoAlgorithm(_) => {
            apply_instance_cfg_auth(cfg, change, event_queue);
        },
        ConfigChange::AreaAddress(..)
        | ConfigChange::LspMtu(_)
        | ConfigChange::LspLifetime(_)
        | ConfigChange::LspRefresh(_)
        | ConfigChange::PoiTlv(_)
        | ConfigChange::MetricTypeValue(_)
        | ConfigChange::MetricTypeLevel1Value(_)
        | ConfigChange::MetricTypeLevel2Value(_)
        | ConfigChange::DefaultMetricValue(_)
        | ConfigChange::DefaultMetricLevel1Value(_)
        | ConfigChange::DefaultMetricLevel2Value(_)
        | ConfigChange::MplsTeRidIpv4RouterId(_)
        | ConfigChange::MplsTeRidIpv6RouterId(_) => {
            apply_instance_cfg_metric(cfg, change, event_queue);
        },
        ConfigChange::SpfControlPaths(_)
        | ConfigChange::SpfControlIetfSpfDelayInitialDelay(_)
        | ConfigChange::SpfControlIetfSpfDelayShortDelay(_)
        | ConfigChange::SpfControlIetfSpfDelayLongDelay(_)
        | ConfigChange::SpfControlIetfSpfDelayHoldDown(_)
        | ConfigChange::SpfControlIetfSpfDelayTimeToLearn(_)
        | ConfigChange::PreferenceInternal(_)
        | ConfigChange::PreferenceExternal(_)
        | ConfigChange::PreferenceDefault(_)
        | ConfigChange::AttachedBitSuppressAdvertisement(_)
        | ConfigChange::AttachedBitIgnoreReception(_)
        | ConfigChange::FloodingReductionAlgorithm(_) => {
            apply_instance_cfg_spf(cfg, change, event_queue);
        },
        ConfigChange::Enabled(_)
        | ConfigChange::LevelType(_)
        | ConfigChange::SystemId(_)
        | ConfigChange::OverloadStatus(_)
        | ConfigChange::BierMtId(_)
        | ConfigChange::BierBierEnable(_)
        | ConfigChange::BierBierAdvertise(_)
        | ConfigChange::BierBierReceive(_)
        | ConfigChange::SpbEnable(_)
        | ConfigChange::IsisLinkAttrLegacy(_)
        | ConfigChange::IsisLinkAttrTransition(_)
        | ConfigChange::IsisLinkAttrAppSpecific(_)
        | ConfigChange::SegmentRoutingEnabled(_) => {
            apply_instance_cfg_general(cfg, change, event_queue);
        },
        _ => {},
    }
}

/// Whether the prefixes that the change speaks of are.
pub open spec fn change_valid(change: ConfigChange) -> bool {
    match change {
        ConfigChange::InterLevelPropagationPoliciesLevel1ToLevel2SummaryPrefixes(prefix, _) => prefix.valid(),
        _ => true,
    }
}

/// An instance and the queued events, after a change of the configuration.
/// Changes of entries that do not exist cannot be applied. Services whose
/// address cannot be parsed are ignored.
pub open spec fn instance_changed(i: InstanceView, q: Set<Event>, change: ConfigChange) -> Option<
    (InstanceView, Set<Event>),
> {
    match change {
        ConfigChange::NodeTag(tag, op) => Some(
            (
                InstanceView {
                    config: InstanceCfgView { node_tags: member(i.config.node_tags, op, tag), ..i.config },
                    ..i
                },
                reoriginate(q),
            ),
        ),
        ConfigChange::AddressFamilyList(af, change) => match afs_changed(i.config.afs, q, i.defaults, af, change) {
            Some(r) => Some((InstanceView { config: InstanceCfgView { afs: r.0, ..i.config }, ..i }, r.1)),
            None => None,
        },
        ConfigChange::Topology(mt_id, change) => match topologies_changed(
            i.config.mt,
            q,
            i.defaults,
            mt_id,
            change,
        ) {
            Some(r) => Some((InstanceView { config: InstanceCfgView { mt: r.0, ..i.config }, ..i }, r.1)),
            None => None,
        },
        ConfigChange::Interface(name, change) => interface_changed(i, q, name@, change),
        ConfigChange::InterLevelPropagationPoliciesLevel1ToLevel2SummaryPrefixes(
            prefix,
            change,
        ) => match summaries_changed(i.config.summaries, prefix.masked(), change) {
            Some(summaries) => Some(
                (
                    InstanceView { config: InstanceCfgView { summaries, ..i.config }, ..i },
                    q.insert(Event::RerunSpf),
                ),
            ),
            None => None,
        },
        ConfigChange::TraceOptionsFlag(option, change) => Some(
            (
                InstanceView {
                    config: InstanceCfgView {
                        trace_opts: trace_options_changed(i.config.trace_opts, option, change, i.defaults.trace),
                        ..i.config
                    },
                    ..i
                },
                if trace_options_notes(i.config.trace_opts, option, change) {
                    q.insert(Event::UpdateTraceOptions)
                } else {
                    q
                },
            ),
        ),
        ConfigChange::SpbService { bmac, base_vid, change } => match bmac {
            Some(bmac) => match services_changed(
                i.config.spb.services,
                i.defaults,
                SpbServiceKey { bmac, base_vid },
                change,
            ) {
                Some(services) => Some(
                    (
                        InstanceView {
                            config: InstanceCfgView {
                                spb: InstanceSpbCfgView { services, ..i.config.spb },
                                ..i.config
                            },
                            ..i
                        },
                        q,
                    ),
                ),
                None => None,
            },
            None => Some((i, q)),
        },
        change => {
            let r = instance_cfg_changed(i.config, q, change);
            Some((InstanceView { config: r.0, ..i }, r.1))
        },
    }
}

/// Whether there is an index left for what a change creates.
pub open spec fn index_left(i: InstanceView, change: ConfigChange) -> bool {
    match change {
        ConfigChange::Interface(_, InterfaceChange::Create) => i.next_interface < InterfaceIndex::MAX,
        _ => true,
    }
}

/// Applies a change of the configuration, and queues what is to be done about
/// it.
pub fn apply_instance(instance: &mut Instance, change: ConfigChange, event_queue: &mut OrdSet<Event>) -> (r: Result<
    (),
    ApplyError,
>)
    requires
        index_left(old(instance)@, change),
        change_valid(change),
    ensures
        match instance_changed(old(instance)@, old(event_queue)@, change) {
            Some(s) => r is Ok && (final(instance)@, final(event_queue)@) == s,
            None => r == Err::<(), ApplyError>(ApplyError::EntryNotFound) && final(instance)@ == old(instance)@
                && final(event_queue)@ == old(event_queue)@,
        },
{
    let defaults = instance.defaults;
    match change {
        ConfigChange::NodeTag(tag, op) => {
            match op {
                ConfigOp::Create => {
                    instance.config.node_tags.insert(tag);
                },
                ConfigOp::Delete => {
                    instance.config.node_tags.remove(&tag);
                },
            }
            queue_reoriginate(event_queue);
        },
        ConfigChange::AddressFamilyList(af, change) => {
            return apply_address_family(&mut instance.config.afs, &defaults, af, change, event_queue);
        },
        ConfigChange::Topology(mt_id, change) => {
            return apply_topology(&mut instance.config.mt, &defaults, mt_id, change, event_queue);
        },
        ConfigChange::Interface(name, change) => {
            return apply_interface(instance, name, change, event_queue);
        },
        ConfigChange::InterLevelPropagationPoliciesLevel1ToLevel2SummaryPrefixes(prefix, change) => {
            return apply_summary_prefix(&mut instance.config.summaries, prefix, change, event_queue);
        },
        ConfigChange::TraceOptionsFlag(option, change) => {
            if apply_trace_options(&mut instance.config.trace_opts, option, &change, defaults.trace) {
                event_queue.insert(Event::UpdateTraceOptions);
            }
        },
        ConfigChange::SpbService { bmac, base_vid, change } => {
            let bmac = match bmac {
                Some(bmac) => bmac,
                None => {
                    return Ok(());
                },
            };
            let key = SpbServiceKey { bmac, base_vid };
            return apply_spb_service(&mut instance.config.spb.services, &defaults, key, change);
        },
        change => {
            apply_instance_cfg(&mut instance.config, change, event_queue);
        },
    }
    Ok(())
}

// ===== events =====

/// What is done about an adjacency.
#[derive(Clone, Copy, Debug, PartialEq, Eq, Structural)]
pub enum AdjacencyAction {
    BfdUpdateSessions,
    BfdClearSessions,
    /// The adjacency goes down unless its sessions are healthy.
    BfdDown,
    AdjSidsAdd,
    AdjSidsDel,
}

/// What the handling of an event leaves to be done.
pub enum Action {
    InstanceReset,
    InstanceUpdate,
    InterfaceUpdate(InterfaceIndex),
    InterfaceUnsub(String),
    /// The interface stops for administrative reasons.
    InterfaceStop(InterfaceIndex),
    /// Removes the nexthops over an interface from all routes.
    NexthopsRemove(LevelType, InterfaceIndex),
    InterfaceReset(InterfaceIndex),
    NetworkRestart(InterfaceIndex),
    /// Schedules an election of the Designated IS.
    DisElection(InterfaceIndex, LevelNumber),
    HelloIntervalStart(InterfaceIndex, LevelType),
    CsnpIntervalStart(InterfaceIndex),
    CsnpIntervalStop(InterfaceIndex),
    /// To the adjacency with that ID on an interface.
    Adjacency(AdjacencyAction, InterfaceIndex, u64),
    InterfaceSub(String),
    LspOriginate(LevelType),
    /// Refreshes the LSPs of a system that have not expired.
    LspRefresh(LevelNumber, SystemId),
    /// Tells the SPF delay state machine of a change of the configuration.
    SpfConfigChange(LevelNumber),
    RoutesReinstall(LevelType),
    /// Counts an overload of the database, at both levels.
    OverloadCount,
    OverloadNotify(bool),
    RedistributeSub(Protocol, AddressFamily),
    RedistributeUnsub(Protocol, AddressFamily),
}

pub enum ActionView {
    InstanceReset,
    InstanceUpdate,
    InterfaceUpdate(InterfaceIndex),
    InterfaceUnsub(Seq<char>),
    InterfaceStop(InterfaceIndex),
    NexthopsRemove(LevelType, InterfaceIndex),
    InterfaceReset(InterfaceIndex),
    NetworkRestart(InterfaceIndex),
    DisElection(InterfaceIndex, LevelNumber),
    HelloIntervalStart(InterfaceIndex, LevelType),
    CsnpIntervalStart(InterfaceIndex),
    CsnpIntervalStop(InterfaceIndex),
    Adjacency(AdjacencyAction, InterfaceIndex, u64),
    InterfaceSub(Seq<char>),
    LspOriginate(LevelType),
    LspRefresh(LevelNumber, SystemId),
    SpfConfigChange(LevelNumber),
    RoutesReinstall(LevelType),
    OverloadCount,
    OverloadNotify(bool),
    RedistributeSub(Protocol, AddressFamily),
    RedistributeUnsub(Protocol, AddressFamily),
}

impl View for Action {
    type V = ActionView;

    open spec fn view(&self) -> ActionView {
        match *self {
            Action::InstanceReset => ActionView::InstanceReset,
            Action::InstanceUpdate => ActionView::InstanceUpdate,
            Action::InterfaceUpdate(k) => ActionView::InterfaceUpdate(k),
            Action::InterfaceUnsub(name) => ActionView::InterfaceUnsub(name@),
            Action::InterfaceStop(k) => ActionView::InterfaceStop(k),
            Action::NexthopsRemove(level_type, k) => ActionView::NexthopsRemove(level_type, k),
            Action::InterfaceReset(k) => ActionView::InterfaceReset(k),
            Action::NetworkRestart(k) => ActionView::NetworkRestart(k),
            Action::DisElection(k, level) => ActionView::DisElection(k, level),
            Action::HelloIntervalStart(k, level_type) => ActionView::HelloIntervalStart(k, level_type),
            Action::CsnpIntervalStart(k) => ActionView::CsnpIntervalStart(k),
            Action::CsnpIntervalStop(k) => ActionView::CsnpIntervalStop(k),
            Action::Adjacency(what, k, id) => ActionView::Adjacency(what, k, id),
            Action::InterfaceSub(name) => ActionView::InterfaceSub(name@),
            Action::LspOriginate(level_type) => ActionView::LspOriginate(level_type),
            Action::LspRefresh(level, system_id) => ActionView::LspRefresh(level, system_id),
            Action::SpfConfigChange(level) => ActionView::SpfConfigChange(level),
            Action::RoutesReinstall(level_type) => ActionView::RoutesReinstall(level_type),
            Action::OverloadCount => ActionView::OverloadCount,
            Action::OverloadNotify(status) => ActionView::OverloadNotify(status),
            Action::RedistributeSub(protocol, af) => ActionView::RedistributeSub(protocol, af),
            Action::RedistributeUnsub(protocol, af) => ActionView::RedistributeUnsub(protocol, af),
        }
    }
}

pub open spec fn acts(s: Seq<Action>) -> Seq<ActionView> {
    Seq::new(s.len(), |j: int| s[j]@)
}

pub(crate) fn push(actions: &mut Vec<Action>, action: Action)
    ensures
        acts(final(actions)@) == acts(old(actions)@).push(action@),
{
    let ghost before = actions@;
    actions.push(action);
    assert(acts(actions@) =~= acts(before).push(action@));
}

fn one(action: Action) -> (r: Vec<Action>)
    ensures
        acts(r@) == seq![action@],
{
    let mut r: Vec<Action> = Vec::new();
    r.push(action);
    assert(acts(r@) =~= seq![action@]);
    r
}

pub(crate) fn nothing() -> (r: Vec<Action>)
    ensures
        acts(r@) == Seq::<ActionView>::empty(),
{
    let r: Vec<Action> = Vec::new();
    assert(acts(r@) =~= Seq::<ActionView>::empty());
    r
}

/// What is done about each adjacency of an interface.
pub open spec fn adjacency_actions(what: AdjacencyAction, k: InterfaceIndex, adjacencies: Seq<Adjacency>) -> Seq<
    ActionView,
> {
    Seq::new(adjacencies.len(), |j: int| ActionView::Adjacency(what, k, adjacencies[j].id))
}

fn push_adjacencies(actions: &mut Vec<Action>, what: AdjacencyAction, k: InterfaceIndex, adjacencies: &Vec<Adjacency>)
    ensures
        acts(final(actions)@) == acts(old(actions)@) + adjacency_actions(what, k, adjacencies@),
{
    let ghost before = acts(actions@);
    let mut j: usize = 0;
    assert(acts(actions@) =~= before + adjacency_actions(what, k, adjacencies@.take(0)));
    while j < adjacencies.len()
        invariant
            j <= adjacencies@.len(),
            acts(actions@) == before + adjacency_actions(what, k, adjacencies@.take(j as int)),
        decreases adjacencies@.len() - j,
    {
        push(actions, Action::Adjacency(what, k, adjacencies[j].id));
        assert(acts(actions@) =~= before + adjacency_actions(what, k, adjacencies@.take(j + 1)));
        j = j + 1;
    }
    assert(adjacencies@.take(j as int) =~= adjacencies@);
}

pub open spec fn adj_sids_fn(i: InstanceView, what: AdjacencyAction) -> spec_fn(InterfaceIndex) -> Seq<ActionView> {
    |k: InterfaceIndex| adjacency_actions(what, k, i.interfaces[k].adjacencies)
}

fn push_adj_sids(instance: &Instance, what: AdjacencyAction) -> (actions: Vec<Action>)
    ensures
        acts(actions@) == flat_map(instance.interfaces.keys(), adj_sids_fn(instance@, what)),
{
    let mut actions = nothing();
    let ghost keys = instance.interfaces.keys();
    let ghost f = adj_sids_fn(instance@, what);
    let n: usize = instance.interfaces.len();
    let mut j: usize = 0;
    assert(keys.take(0) =~= Seq::empty());
    while j < n
        invariant
            j <= n,
            n == instance.interfaces.keys().len(),
            keys == instance.interfaces.keys(),
            f == adj_sids_fn(instance@, what),
            acts(actions@) == flat_map(keys.take(j as int), f),
        decreases n - j,
    {
        proof {
            flat_map_step(keys, j as int, f);
        }
        let k = *instance.interfaces.key_at(j);
        push_adjacencies(&mut actions, what, k, &instance.interfaces.value_at(j).adjacencies);
        j = j + 1;
    }
    assert(keys.take(j as int) =~= keys);
    actions
}

/// Whether Hello PDUs are sent on the interface.
pub open spec fn sends_hellos(f: InterfaceView) -> bool {
    f.active && !f.passive
}

pub open spec fn hello_fn(i: InstanceView) -> spec_fn(InterfaceIndex) -> Seq<ActionView> {
    |k: InterfaceIndex|
        if sends_hellos(i.interfaces[k]) {
            seq![ActionView::HelloIntervalStart(k, LevelType::All)]
        } else {
            Seq::empty()
        }
}

fn push_hellos(instance: &Instance) -> (actions: Vec<Action>)
    ensures
        acts(actions@) == flat_map(instance.interfaces.keys(), hello_fn(instance@)),
{
    let mut actions = nothing();
    let ghost keys = instance.interfaces.keys();
    let ghost f = hello_fn(instance@);
    let n: usize = instance.interfaces.len();
    let mut j: usize = 0;
    assert(keys.take(0) =~= Seq::empty());
    while j < n
        invariant
            j <= n,
            n == instance.interfaces.keys().len(),
            keys == instance.interfaces.keys(),
            f == hello_fn(instance@),
            acts(actions@) == flat_map(keys.take(j as int), f),
        decreases n - j,
    {
        proof {
            flat_map_step(keys, j as int, f);
        }
        let iface = instance.interfaces.value_at(j);
        if iface.active && !iface.passive {
            push(&mut actions, Action::HelloIntervalStart(*instance.interfaces.key_at(j), LevelType::All));
        }
        assert(acts(actions@) =~= flat_map(keys.take(j + 1), f));
        j = j + 1;
    }
    assert(keys.take(j as int) =~= keys);
    actions
}

/// Whether what the event speaks of exists, as far as it is looked at.
pub open spec fn event_valid(i: InstanceView, e: Event) -> bool {
    match e {
        Event::InterfaceDelete(k)
        | Event::InterfaceUpdateAuth(k)
        | Event::InterfaceUpdateTraceOptions(k)
        | Event::InterfaceIbusSub(k) => i.interfaces.contains_key(k),
        Event::InterfaceUpdate(k)
        | Event::InterfaceReset(k)
        | Event::InterfaceRestartNetwork(k)
        | Event::InterfacePriorityChange(k, _)
        | Event::InterfaceUpdateHelloInterval(k, _)
        | Event::InterfaceUpdateCsnpInterval(k)
        | Event::InterfaceBfdChange(k) => i.up ==> i.interfaces.contains_key(k),
        Event::InstanceLevelTypeUpdate => i.config.level_type is All ==> levels_known(i.interfaces),
        Event::RefreshLsps => i.up ==> i.config.system_id is Some,
        _ => true,
    }
}

/// Whether each interface has levels of its own.
pub open spec fn levels_known(interfaces: Map<InterfaceIndex, InterfaceView>) -> bool {
    forall|k: InterfaceIndex| #[trigger]
        interfaces.contains_key(k) ==> interfaces[k].config.level_type.explicit is Some
}

/// What is done about an event on an interface when the instance is up.
#[verifier::opaque]
pub open spec fn interface_actions(i: InstanceView, e: Event) -> Seq<ActionView> {
    match e {
        Event::InterfaceUpdate(k) => seq![ActionView::InterfaceUpdate(k)],
        Event::InterfaceReset(k) => seq![ActionView::InterfaceReset(k)],
        Event::InterfaceRestartNetwork(k) => seq![ActionView::NetworkRestart(k)],
        Event::InterfacePriorityChange(k, level) => if sends_hellos(i.interfaces[k])
            && i.interfaces[k].config.interface_type is Broadcast {
            seq![ActionView::DisElection(k, level)]
        } else {
            Seq::empty()
        },
        Event::InterfaceUpdateHelloInterval(k, level) => if sends_hellos(i.interfaces[k]) {
            seq![ActionView::HelloIntervalStart(k, level.only())]
        } else {
            Seq::empty()
        },
        Event::InterfaceUpdateCsnpInterval(k) => if i.interfaces[k].config.csnp_disable {
            seq![ActionView::CsnpIntervalStop(k)]
        } else {
            seq![ActionView::CsnpIntervalStart(k)]
        },
        Event::InterfaceBfdChange(k) => adjacency_actions(
            if i.interfaces[k].config.bfd_enabled {
                AdjacencyAction::BfdUpdateSessions
            } else {
                AdjacencyAction::BfdClearSessions
            },
            k,
            i.interfaces[k].adjacencies,
        ),
        _ => Seq::empty(),
    }
}

/// What is done about each level of a set, in order.
pub open spec fn refresh_fn(system_id: SystemId) -> spec_fn(LevelNumber) -> Seq<ActionView> {
    |level: LevelNumber| seq![ActionView::LspRefresh(level, system_id)]
}

pub open spec fn spf_fn() -> spec_fn(LevelNumber) -> Seq<ActionView> {
    |level: LevelNumber| seq![ActionView::SpfConfigChange(level)]
}

/// What is done about an event on the whole instance when it is up.
#[verifier::opaque]
pub open spec fn instance_actions(i: Instance, e: Event) -> Seq<ActionView> {
    match e {
        Event::InstanceTopologyUpdate => flat_map(i.interfaces.keys(), hello_fn(i@)),
        Event::ReoriginateLsps(level) => seq![ActionView::LspOriginate(level.only())],
        Event::RefreshLsps => flat_map(i@.config.level_type.levels(), refresh_fn(i@.config.system_id->0)),
        Event::RerunSpf => flat_map(i@.config.level_type.levels(), spf_fn()),
        Event::ReinstallRoutes => seq![ActionView::RoutesReinstall(i@.config.level_type)],
        Event::OverloadChange(overload_status) => (if overload_status {
            seq![ActionView::OverloadCount]
        } else {
            Seq::empty()
        }).push(ActionView::OverloadNotify(overload_status)),
        Event::SrEnabledChange(enabled) => flat_map(
            i.interfaces.keys(),
            adj_sids_fn(
                i@,
                if enabled {
                    AdjacencyAction::AdjSidsAdd
                } else {
                    AdjacencyAction::AdjSidsDel
                },
            ),
        ),
        _ => Seq::empty(),
    }
}

/// What remains to be done about an event, in order.
pub open spec fn event_actions(i: Instance, e: Event) -> Seq<ActionView> {
    match e {
        Event::InstanceReset => seq![ActionView::InstanceReset],
        Event::InstanceUpdate => seq![ActionView::InstanceUpdate],
        Event::InterfaceDelete(k) => if i.up {
            seq![
                ActionView::InterfaceUnsub(i@.interfaces[k].name),
                ActionView::InterfaceStop(k),
                ActionView::NexthopsRemove(i@.config.level_type, k),
            ]
        } else {
            Seq::empty()
        },
        Event::InterfaceIbusSub(k) => seq![ActionView::InterfaceSub(i@.interfaces[k].name)],
        Event::RedistributeAdd(af, protocol) => seq![ActionView::RedistributeSub(protocol, af)],
        Event::RedistributeDelete(af, level, protocol) => {
            let unsub = seq![ActionView::RedistributeUnsub(protocol, af)];
            if i.up {
                unsub.push(ActionView::LspOriginate(level.only()))
            } else {
                unsub
            }
        },
        e => if i.up {
            interface_actions(i@, e) + instance_actions(i, e)
        } else {
            Seq::empty()
        },
    }
}

/// An interface, once its levels are in force.
pub open spec fn level_in_force(f: InterfaceView, instance_level_type: LevelType) -> InterfaceView {
    InterfaceView {
        config: InterfaceCfgView {
            level_type: InheritableConfig {
                resolved: level_type_in_force(f.config.level_type.explicit, instance_level_type),
                ..f.config.level_type
            },
            ..f.config
        },
        ..f
    }
}

/// The redistributed routes, without those of one protocol and address family.
pub open spec fn routes_without(
    routes: Map<IpNetwork, RouteSys>,
    af: AddressFamily,
    protocol: Protocol,
) -> Map<IpNetwork, RouteSys> {
    routes.remove_keys(
        Set::new(
            |net: IpNetwork|
                routes.contains_key(net) && net.addr.family() == af && routes[net].protocol == protocol,
        ),
    )
}

/// An instance, after an event was processed.
pub open spec fn event_done(i: InstanceView, e: Event) -> InstanceView {
    match e {
        Event::InstanceLevelTypeUpdate => InstanceView {
            interfaces: Map::new(
                |k: InterfaceIndex| i.interfaces.contains_key(k),
                |k: InterfaceIndex| level_in_force(i.interfaces[k], i.config.level_type),
            ),
            ..i
        },
        Event::InterfaceDelete(k) => InstanceView { interfaces: i.interfaces.remove(k), ..i },
        Event::InstanceUpdateAuth => InstanceView {
            config: InstanceCfgView { auth_resolved: i.config.auth.all.auth(i.keychains), ..i.config },
            ..i
        },
        Event::InterfaceUpdateAuth(k) => InstanceView {
            interfaces: i.interfaces.insert(k, auth_in_force(i.interfaces[k], i.keychains)),
            ..i
        },
        Event::InterfaceUpdateTraceOptions(k) => InstanceView {
            interfaces: i.interfaces.insert(
                k,
                InterfaceView {
                    config: trace_resolved(i.interfaces[k].config, i.config.trace_opts),
                    ..i.interfaces[k]
                },
            ),
            ..i
        },
        Event::RedistributeDelete(af, level, protocol) => InstanceView {
            system: i.system.with_routes(level, routes_without(i.system.routes(level), af, protocol)),
            ..i
        },
        Event::UpdateTraceOptions => InstanceView {
            interfaces: Map::new(
                |k: InterfaceIndex| i.interfaces.contains_key(k),
                |k: InterfaceIndex|
                    InterfaceView {
                        config: trace_resolved(i.interfaces[k].config, i.config.trace_opts),
                        ..i.interfaces[k]
                    },
            ),
            ..i
        },
        _ => i,
    }
}

/// An interface, once the authentication of its Hello PDUs is in force.
pub open spec fn auth_in_force(f: InterfaceView, keychains: Map<Seq<char>, Arc<Keychain>>) -> InterfaceView {
    InterfaceView {
        config: InterfaceCfgView { hello_auth_resolved: f.config.hello_auth.all.auth(keychains), ..f.config },
        ..f
    }
}

fn resolve_levels(interfaces: &mut Table<InterfaceIndex, Interface>, level_type: LevelType)
    requires
        level_type is All ==> levels_known(views(old(interfaces)@)),
    ensures
        views(final(interfaces)@) == Map::new(
            |k: InterfaceIndex| views(old(interfaces)@).contains_key(k),
            |k: InterfaceIndex| level_in_force(views(old(interfaces)@)[k], level_type),
        ),
{
    let ghost m = interfaces@;
    let ghost keys = interfaces.keys();
    let n: usize = interfaces.len();
    proof {
        ascending(*interfaces);
    }
    let mut j: usize = 0;
    while j < n
        invariant
            j <= n,
            n == keys.len(),
            interfaces.keys() == keys,
            interfaces@.dom() == m.dom(),
            level_type is All ==> levels_known(views(m)),
            forall|a: int, b: int| 0 <= a < b < keys.len() ==> #[trigger] keys[a] < #[trigger] keys[b],
            forall|x: int| 0 <= x < keys.len() ==> m.contains_key(#[trigger] keys[x]),
            forall|x: int| 0 <= x < j ==> interfaces@[#[trigger] keys[x]]@ == level_in_force(m[keys[x]]@, level_type),
            forall|x: int| j <= x < n ==> interfaces@[#[trigger] keys[x]] == m[keys[x]],
        decreases n - j,
    {
        proof {
            assert(views(m).contains_key(keys[j as int]));
        }
        let iface = interfaces.value_at_mut(j);
        iface.config.level_type.resolved = iface.config.resolved_level_type(level_type);
        proof {
            assert(iface@ == level_in_force(m[keys[j as int]]@, level_type));
        }
        j = j + 1;
        assert(interfaces@.dom() =~= m.dom());
    }
    proof {
        assert forall|k: InterfaceIndex| #[trigger] m.contains_key(k) implies interfaces@[k]@ == level_in_force(
            m[k]@,
            level_type,
        ) by {
            let x = choose|x: int| 0 <= x < keys.len() && keys[x] == k;
            assert(interfaces@[keys[x]]@ == level_in_force(m[keys[x]]@, level_type));
        }
        assert(views(interfaces@) =~= Map::new(
            |k: InterfaceIndex| views(m).contains_key(k),
            |k: InterfaceIndex| level_in_force(views(m)[k], level_type),
        ));
    }
}

fn resolve_trace_options(interfaces: &mut Table<InterfaceIndex, Interface>, trace_opts: &InstanceTraceOptions)
    ensures
        views(final(interfaces)@) == Map::new(
            |k: InterfaceIndex| views(old(interfaces)@).contains_key(k),
            |k: InterfaceIndex|
                InterfaceView {
                    config: trace_resolved(views(old(interfaces)@)[k].config, *trace_opts),
                    ..views(old(interfaces)@)[k]
                },
        ),
{
    let ghost m = interfaces@;
    let ghost keys = interfaces.keys();
    let n: usize = interfaces.len();
    proof {
        ascending(*interfaces);
    }
    let mut j: usize = 0;
    while j < n
        invariant
            j <= n,
            n == keys.len(),
            interfaces.keys() == keys,
            interfaces@.dom() == m.dom(),
            forall|a: int, b: int| 0 <= a < b < keys.len() ==> #[trigger] keys[a] < #[trigger] keys[b],
            forall|x: int| 0 <= x < keys.len() ==> m.contains_key(#[trigger] keys[x]),
            forall|x: int|
                0 <= x < j ==> interfaces@[#[trigger] keys[x]]@ == (InterfaceView {
                    config: trace_resolved(m[keys[x]]@.config, *trace_opts),
                    ..m[keys[x]]@
                }),
            forall|x: int| j <= x < n ==> interfaces@[#[trigger] keys[x]] == m[keys[x]],
        decreases n - j,
    {
        let iface = interfaces.value_at_mut(j);
        iface.config.update_trace_options(trace_opts);
        proof {
            assert(iface@ == (InterfaceView {
                config: trace_resolved(m[keys[j as int]]@.config, *trace_opts),
                ..m[keys[j as int]]@
            }));
        }
        j = j + 1;
        assert(interfaces@.dom() =~= m.dom());
    }
    proof {
        assert forall|k: InterfaceIndex| #[trigger] m.contains_key(k) implies interfaces@[k]@ == (InterfaceView {
            config: trace_resolved(m[k]@.config, *trace_opts),
            ..m[k]@
        }) by {
            let x = choose|x: int| 0 <= x < keys.len() && keys[x] == k;
            assert(interfaces@[keys[x]]@ == (InterfaceView {
                config: trace_resolved(m[keys[x]]@.config, *trace_opts),
                ..m[keys[x]]@
            }));
        }
        assert(views(interfaces@) =~= Map::new(
            |k: InterfaceIndex| views(m).contains_key(k),
            |k: InterfaceIndex|
                InterfaceView { config: trace_resolved(views(m)[k].config, *trace_opts), ..views(m)[k] },
        ));
    }
}

fn remove_routes(routes: &mut Table<IpNetwork, RouteSys>, af: AddressFamily, protocol: Protocol)
    ensures
        final(routes)@ == routes_without(old(routes)@, af, protocol),
{
    let ghost m = routes@;
    let ghost keys = routes.keys();
    let mut keep: Table<IpNetwork, RouteSys> = Table::new();
    let n: usize = routes.len();
    let mut j: usize = 0;
    while j < n
        invariant
            j <= n,
            n == routes.keys().len(),
            keys == routes.keys(),
            routes@ == m,
            forall|k: IpNetwork| #[trigger]
                keep@.contains_key(k) <==> m.contains_key(k) && keys.take(j as int).contains(k) && !(k.addr.family()
                    == af && m[k].protocol == protocol),
            forall|k: IpNetwork| #[trigger] keep@.contains_key(k) ==> keep@[k] == m[k],
        decreases n - j,
    {
        let key = *routes.key_at(j);
        let route = *routes.value_at(j);
        proof {
            assert(keys.take(j + 1) =~= keys.take(j as int).push(key));
            assert forall|k: IpNetwork| keys.take(j + 1).contains(k) <==> keys.take(j as int).contains(k) || k
                == key by {
                if keys.take(j as int).contains(k) {
                    let x = choose|x: int| 0 <= x < j && keys.take(j as int)[x] == k;
                    assert(keys.take(j + 1)[x] == k);
                }
                assert(keys.take(j + 1)[j as int] == key);
            }
        }
        if key.addr.address_family() != af || route.protocol != protocol {
            keep.insert(key, route);
        }
        j = j + 1;
    }
    proof {
        assert(keys.take(j as int) =~= keys);
        assert(routes.keys_sorted());
        assert forall|k: IpNetwork| #[trigger] m.contains_key(k) implies keys.contains(k) by {
            assert(keys.to_set().contains(k));
        }
        assert(keep@ =~= routes_without(m, af, protocol));
    }
    *routes = keep;
}

#[verifier::rlimit(100)]
fn interface_event(instance: &Instance, event: Event) -> (r: Vec<Action>)
    requires
        event_valid(instance@, event),
        instance.up,
    ensures
        acts(r@) == interface_actions(instance@, event),
{
    reveal(interface_actions);
    match event {
        Event::InterfaceUpdate(iface_idx) => one(Action::InterfaceUpdate(iface_idx)),
        Event::InterfaceReset(iface_idx) => one(Action::InterfaceReset(iface_idx)),
        Event::InterfaceRestartNetwork(iface_idx) => one(Action::NetworkRestart(iface_idx)),
        Event::InterfacePriorityChange(iface_idx, level) => {
            if let Some(iface) = instance.interfaces.get(&iface_idx) {
                // Schedule new DIS election.
                let broadcast = matches!(iface.config.interface_type, InterfaceType::Broadcast);
                if iface.active && !iface.passive && broadcast {
                    return one(Action::DisElection(iface_idx, level));
                }
            }
            nothing()
        },
        Event::InterfaceUpdateHelloInterval(iface_idx, level) => {
            if let Some(iface) = instance.interfaces.get(&iface_idx) {
                if iface.active && !iface.passive {
                    return one(Action::HelloIntervalStart(iface_idx, level.to_level_type()));
                }
            }
            nothing()
        },
        Event::InterfaceUpdateCsnpInterval(iface_idx) => {
            if let Some(iface) = instance.interfaces.get(&iface_idx) {
                if iface.config.csnp_disable {
                    return one(Action::CsnpIntervalStop(iface_idx));
                }
            }
            one(Action::CsnpIntervalStart(iface_idx))
        },
        Event::InterfaceBfdChange(iface_idx) => {
            let mut actions = nothing();
            if let Some(iface) = instance.interfaces.get(&iface_idx) {
                let what = if iface.config.bfd_enabled {
                    AdjacencyAction::BfdUpdateSessions
                } else {
                    AdjacencyAction::BfdClearSessions
                };
                push_adjacencies(&mut actions, what, iface_idx, &iface.adjacencies);
            }
            assert(acts(actions@) =~= interface_actions(instance@, event));
            actions
        },
        _ => nothing(),
    }
}

#[verifier::rlimit(100)]
fn instance_event(instance: &Instance, event: Event) -> (r: Vec<Action>)
    requires
        event_valid(instance@, event),
        instance.up,
    ensures
        acts(r@) == instance_actions(*instance, event),
{
    reveal(instance_actions);
    match event {
        Event::InstanceTopologyUpdate => push_hellos(instance),
        Event::ReoriginateLsps(level) => one(Action::LspOriginate(level.to_level_type())),
        Event::RefreshLsps => {
            let system_id: SystemId = match instance.config.system_id {
                Some(system_id) => system_id,
                None => 0,
            };
            let mut actions = nothing();
            let ghost f = refresh_fn(system_id);
            reveal_with_fuel(flat_map, 3);
            match instance.config.level_type {
                LevelType::L1 => {
                    push(&mut actions, Action::LspRefresh(LevelNumber::L1, system_id));
                },
                LevelType::L2 => {
                    push(&mut actions, Action::LspRefresh(LevelNumber::L2, system_id));
                },
                LevelType::All => {
                    push(&mut actions, Action::LspRefresh(LevelNumber::L1, system_id));
                    push(&mut actions, Action::LspRefresh(LevelNumber::L2, system_id));
                    assert(instance@.config.level_type.levels().drop_last() =~= seq![LevelNumber::L1]);
                },
            }
            assert(acts(actions@) =~= flat_map(instance@.config.level_type.levels(), f));
            actions
        },
        Event::RerunSpf => {
            let mut actions = nothing();
            let ghost f = spf_fn();
            reveal_with_fuel(flat_map, 3);
            match instance.config.level_type {
                LevelType::L1 => {
                    push(&mut actions, Action::SpfConfigChange(LevelNumber::L1));
                },
                LevelType::L2 => {
                    push(&mut actions, Action::SpfConfigChange(LevelNumber::L2));
                },
                LevelType::All => {
                    push(&mut actions, Action::SpfConfigChange(LevelNumber::L1));
                    push(&mut actions, Action::SpfConfigChange(LevelNumber::L2));
                    assert(instance@.config.level_type.levels().drop_last() =~= seq![LevelNumber::L1]);
                },
            }
            assert(acts(actions@) =~= flat_map(instance@.config.level_type.levels(), f));
            actions
        },
        Event::ReinstallRoutes => one(Action::RoutesReinstall(instance.config.level_type)),
        Event::OverloadChange(overload_status) => {
            let mut actions = nothing();
            // Update system counters.
            if overload_status {
                push(&mut actions, Action::OverloadCount);
            }

            // Send YANG notification.
            push(&mut actions, Action::OverloadNotify(overload_status));
            assert(acts(actions@) =~= instance_actions(*instance, event));
            actions
        },
        Event::SrEnabledChange(enabled) => {
            // Iterate over all existing adjacencies.
            let what = if enabled {
                AdjacencyAction::AdjSidsAdd
            } else {
                AdjacencyAction::AdjSidsDel
            };
            push_adj_sids(instance, what)
        },
        _ => nothing(),
    }
}

fn up_event(instance: &Instance, event: Event) -> (r: Vec<Action>)
    requires
        event_valid(instance@, event),
        instance.up,
    ensures
        acts(r@) == interface_actions(instance@, event) + instance_actions(*instance, event),
{
    proof {
        reveal(interface_actions);
        reveal(instance_actions);
    }
    let r = match event {
        Event::InterfaceUpdate(_)
        | Event::InterfaceReset(_)
        | Event::InterfaceRestartNetwork(_)
        | Event::InterfacePriorityChange(..)
        | Event::InterfaceUpdateHelloInterval(..)
        | Event::InterfaceUpdateCsnpInterval(_)
        | Event::InterfaceBfdChange(_) => interface_event(instance, event),
        event => instance_event(instance, event),
    };
    assert(acts(r@) =~= interface_actions(instance@, event) + instance_actions(*instance, event));
    r
}

#[verifier::rlimit(100)]
#[verifier::spinoff_prover]
fn event_tasks(instance: &Instance, event: Event) -> (actions: Vec<Action>)
    requires
        event_valid(instance@, event),
    ensures
        acts(actions@) == event_actions(*instance, event),
{
    let mut actions = nothing();
    match event {
        Event::InstanceReset => {
            push(&mut actions, Action::InstanceReset);
        },
        Event::InstanceUpdate => {
            push(&mut actions, Action::InstanceUpdate);
        },
        Event::InterfaceDelete(iface_idx) => {
            if instance.up {
                // Cancel ibus subscription.
                if let Some(iface) = instance.interfaces.get(&iface_idx) {
                    push(&mut actions, Action::InterfaceUnsub(iface.name.clone()));
                }

                // Stop the interface if it's active.
                push(&mut actions, Action::InterfaceStop(iface_idx));

                // Update the routing table to remove nexthops that are no
                // longer reachable.
                push(&mut actions, Action::NexthopsRemove(instance.config.level_type, iface_idx));
            }
        },
        Event::InterfaceIbusSub(iface_idx) => {
            if let Some(iface) = instance.interfaces.get(&iface_idx) {
                push(&mut actions, Action::InterfaceSub(iface.name.clone()));
            }
        },
        Event::RedistributeAdd(af, protocol) => {
            // Subscribe to route redistribution for the given protocol and
            // address family.
            push(&mut actions, Action::RedistributeSub(protocol, af));
        },
        Event::RedistributeDelete(af, level, protocol) => {
            // Unsubscribe from route redistribution for the given protocol
            // and address family.
            push(&mut actions, Action::RedistributeUnsub(protocol, af));

            // Schedule LSP reorigination.
            if instance.up {
                push(&mut actions, Action::LspOriginate(level.to_level_type()));
            }
        },
        Event::InstanceLevelTypeUpdate
        | Event::InstanceUpdateAuth
        | Event::InterfaceUpdateAuth(_)
        | Event::InterfaceUpdateTraceOptions(_)
        | Event::UpdateTraceOptions => {
            proof {
                reveal(interface_actions);
                reveal(instance_actions);
            }
        },
        event => {
            if instance.up {
                return up_event(instance, event);
            }
        },
    }
    assert(acts(actions@) =~= event_actions(*instance, event));
    actions
}

#[verifier::rlimit(100)]
#[verifier::spinoff_prover]
fn settle_event(instance: &mut Instance, event: Event)
    requires
        event_valid(old(instance)@, event),
    ensures
        final(instance)@ == event_done(old(instance)@, event),
{
    let ghost m = instance.interfaces@;
    match event {
        Event::InstanceLevelTypeUpdate => {
            resolve_levels(&mut instance.interfaces, instance.config.level_type);
        },
        Event::InterfaceDelete(iface_idx) => {
            instance.interfaces.remove(&iface_idx);
            proof {
                views_remove(m, iface_idx);
            }
        },
        Event::InstanceUpdateAuth => {
            let auth = instance.config.auth.all.method(&instance.keychains);
            instance.config.auth_resolved = auth;
        },
        Event::InterfaceUpdateAuth(iface_idx) => {
            if let Some(iface) = instance.interfaces.get_mut(&iface_idx) {
                let auth = iface.config.hello_auth.all.method(&instance.keychains);
                iface.config.hello_auth_resolved = auth;
                proof {
                    views_insert(m, iface_idx, *iface);
                }
            }
        },
        Event::InterfaceUpdateTraceOptions(iface_idx) => {
            if let Some(iface) = instance.interfaces.get_mut(&iface_idx) {
                iface.config.update_trace_options(&instance.config.trace_opts);
                proof {
                    views_insert(m, iface_idx, *iface);
                }
            }
        },
        Event::RedistributeDelete(af, level, protocol) => {
            // Remove redistributed routes.
            remove_routes(instance.system.get_mut(level), af, protocol);
        },
        Event::UpdateTraceOptions => {
            resolve_trace_options(&mut instance.interfaces, &instance.config.trace_opts);
        },
        _ => {},
    }
}

/// Processes a queued event. Returns what remains to be done about it, in
/// order.
pub fn process_event(instance: &mut Instance, event: Event) -> (actions: Vec<Action>)
    requires
        event_valid(old(instance)@, event),
    ensures
        acts(actions@) == event_actions(*old(instance), event),
        final(instance)@ == event_done(old(instance)@, event),
{
    let actions = event_tasks(instance, event);
    settle_event(instance, event);
    actions
}

/// An LSP of the database.
#[derive(Clone, Copy, Debug, PartialEq, Eq, Structural)]
pub struct LspInfo {
    pub id: u64,
    pub system_id: SystemId,
    pub rem_lifetime: u16,
}

/// The LSPs of a system that have not expired.
pub open spec fn own_lsp_fn(system_id: SystemId) -> spec_fn(LspInfo) -> Option<u64> {
    |lsp: LspInfo|
        if lsp.system_id == system_id && lsp.rem_lifetime != 0 {
            Some(lsp.id)
        } else {
            None
        }
}

/// The IDs of the LSPs to be refreshed, in the order of the database.
pub fn lsps_to_refresh(lsdb: &Vec<LspInfo>, system_id: SystemId) -> (r: Vec<u64>)
    ensures
        r@ == filter_map(lsdb@, own_lsp_fn(system_id)),
{
    let mut r: Vec<u64> = Vec::new();
    let ghost f = own_lsp_fn(system_id);
    let mut i: usize = 0;
    assert(lsdb@.take(0) =~= Seq::empty());
    while i < lsdb.len()
        invariant
            i <= lsdb@.len(),
            f == own_lsp_fn(system_id),
            r@ == filter_map(lsdb@.take(i as int), f),
        decreases lsdb@.len() - i,
    {
        proof {
            filter_map_step(lsdb@, i as int, f);
        }
        let lsp = &lsdb[i];
        if lsp.system_id == system_id && lsp.rem_lifetime != 0 {
            r.push(lsp.id);
        }
        i = i + 1;
    }
    assert(lsdb@.take(i as int) =~= lsdb@);
    r
}

// ===== laws =====

/// Every interface keeps levels of its own through all changes and events, so
/// that those in force are always known.
pub proof fn levels_stay_known(i: InstanceView, q: Set<Event>, change: ConfigChange)
    requires
        levels_known(i.interfaces),
        instance_changed(i, q, change) is Some,
    ensures
        levels_known((instance_changed(i, q, change)->0).0.interfaces),
        forall|e: Event| event_valid(i, e) ==> levels_known(#[trigger] event_done(i, e).interfaces),
{
    reveal(interface_cfg_auth_changed);
    reveal(interface_cfg_hello_changed);
    reveal(interface_cfg_general_changed);
    match change {
        ConfigChange::Interface(name, InterfaceChange::Entry(change)) => {
            let k = interface_named(i.interfaces, name@)->0;
            assert(first_named(i.interfaces, name@, k));
        },
        _ => {},
    }
}

/// An instance that supports one level only imposes it on its interfaces, and
/// leaves them their choice otherwise.
pub proof fn instance_level_prevails(i: InstanceView, k: InterfaceIndex)
    requires
        i.interfaces.contains_key(k),
    ensures
        ({
            let c = event_done(i, Event::InstanceLevelTypeUpdate).interfaces[k].config.level_type;
            &&& i.config.level_type is All ==> c.resolved == c.explicit->0
            &&& !(i.config.level_type is All) ==> c.resolved == i.config.level_type
        }),
{
}

/// A value at one level is overridden there only.
pub proof fn level_value_overrides(c: LevelsCfgWithDefault<u32>, v: u32)
    ensures
        (LevelsCfgWithDefault { l1: Some(v), ..c }).at(LevelType::L1) == v,
        (LevelsCfgWithDefault { l1: Some(v), ..c }).at(LevelType::L2) == c.at(LevelType::L2),
        (LevelsCfgWithDefault { l1: Some(v), ..c }).at(LevelType::All) == c.at(LevelType::All),
        (LevelsCfgWithDefault { l1: None, ..c }).at(LevelType::L1) == c.all,
{
}

/// When redistribution stops, no route of that protocol and address family is
/// left at that level, and all others stay.
pub proof fn redistribution_leaves_nothing(
    i: InstanceView,
    af: AddressFamily,
    level: LevelNumber,
    protocol: Protocol,
    net: IpNetwork,
    other: LevelNumber,
)
    ensures
        ({
            let r = event_done(i, Event::RedistributeDelete(af, level, protocol)).system;
            let before = i.system.routes(other);
            let gone = other == level && net.addr.family() == af && before[net].protocol == protocol;
            r.routes(other).contains_key(net) <==> before.contains_key(net) && !gone
        }),
{
}

/// A configured key is used before any keychain.
pub proof fn manual_key_first(c: AuthCfgView, keychains: Map<Seq<char>, Arc<Keychain>>)
    requires
        c.key is Some,
        c.algo is Some,
    ensures
        c.auth(keychains) matches Some(AuthMethodView::ManualKey(_)),
{
}

} // verus!
