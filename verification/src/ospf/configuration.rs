//! Configuration of OSPF.

use vstd::prelude::*;

use crate::bfd::client::ClientCfg;
use crate::collections::{
    ascending, filter_map, filter_map_step, flag, flat_map, flat_map_step, push_text_code, text_code,
    text_code_injective, to_flag, views, views_insert, views_remove, Key, OrdSet, Table,
};
use crate::crypto::CryptoAlgo;
use crate::ip::{AddressFamily, IpAddr, IpNetwork, Ipv4Addr};
use crate::northbound::configuration::{member, ConfigOp, InheritableConfig};
use crate::northbound::error::{ApplyError, ValidationError};
pub use crate::northbound::trace::TraceOptionPacketType;
use crate::northbound::trace::{
    apply_flag, apply_slot, flag_changed, resolve, resolved, slot_changed, slot_notes, TraceFlagChange,
};
use crate::ospf::spf::{InterfaceIndex, InterfaceType, Nexthop, NexthopKey};
use crate::text::{ipv4_text, join, opt_text, owned, push_ipv4};

verus! {

/// Identifies an area for as long as it is configured.
pub type AreaIndex = u32;

/// Resources that changes need: none, so none can be made.
#[derive(Debug)]
pub struct Resource(());

/// What is to be done once the configuration is fully updated, in this order.
pub enum Event {
    InstanceReset,
    InstanceUpdate,
    InstanceIdUpdate,
    AreaCreate(AreaIndex),
    AreaDelete(AreaIndex),
    AreaTypeChange(AreaIndex),
    AreaSyncHelloTx(AreaIndex),
    InterfaceUpdate(AreaIndex, InterfaceIndex),
    InterfaceDelete(AreaIndex, InterfaceIndex),
    InterfaceReset(AreaIndex, InterfaceIndex),
    InterfaceResetHelloInterval(AreaIndex, InterfaceIndex),
    InterfaceResetDeadInterval(AreaIndex, InterfaceIndex),
    InterfacePriorityChange(AreaIndex, InterfaceIndex),
    InterfaceCostChange(AreaIndex),
    AreaInterfaceTraceOptionsFlagChange(AreaIndex),
    InterfaceSyncHelloTx(AreaIndex, InterfaceIndex),
    InterfaceUpdateAuth(AreaIndex, InterfaceIndex),
    InterfaceBfdChange(InterfaceIndex),
    InterfaceUpdateTraceOptions(InterfaceIndex),
    InterfaceIbusSub(String),
    StubRouterChange,
    GrHelperChange,
    SrEnableChange(bool),
    RerunSpf,
    UpdateVirtualLinks,
    UpdateSummaries,
    ReinstallRoutes,
    BierEnableChange(bool),
    NodeTagsChange,
    UpdateTraceOptions,
}

pub enum EventView {
    InstanceReset,
    InstanceUpdate,
    InstanceIdUpdate,
    AreaCreate(AreaIndex),
    AreaDelete(AreaIndex),
    AreaTypeChange(AreaIndex),
    AreaSyncHelloTx(AreaIndex),
    InterfaceUpdate(AreaIndex, InterfaceIndex),
    InterfaceDelete(AreaIndex, InterfaceIndex),
    InterfaceReset(AreaIndex, InterfaceIndex),
    InterfaceResetHelloInterval(AreaIndex, InterfaceIndex),
    InterfaceResetDeadInterval(AreaIndex, InterfaceIndex),
    InterfacePriorityChange(AreaIndex, InterfaceIndex),
    InterfaceCostChange(AreaIndex),
    AreaInterfaceTraceOptionsFlagChange(AreaIndex),
    InterfaceSyncHelloTx(AreaIndex, InterfaceIndex),
    InterfaceUpdateAuth(AreaIndex, InterfaceIndex),
    InterfaceBfdChange(InterfaceIndex),
    InterfaceUpdateTraceOptions(InterfaceIndex),
    InterfaceIbusSub(Seq<char>),
    StubRouterChange,
    GrHelperChange,
    SrEnableChange(bool),
    RerunSpf,
    UpdateVirtualLinks,
    UpdateSummaries,
    ReinstallRoutes,
    BierEnableChange(bool),
    NodeTagsChange,
    UpdateTraceOptions,
}

impl View for Event {
    type V = EventView;

    open spec fn view(&self) -> EventView {
        match *self {
            Event::InstanceReset => EventView::InstanceReset,
            Event::InstanceUpdate => EventView::InstanceUpdate,
            Event::InstanceIdUpdate => EventView::InstanceIdUpdate,
            Event::AreaCreate(a) => EventView::AreaCreate(a),
            Event::AreaDelete(a) => EventView::AreaDelete(a),
            Event::AreaTypeChange(a) => EventView::AreaTypeChange(a),
            Event::AreaSyncHelloTx(a) => EventView::AreaSyncHelloTx(a),
            Event::InterfaceUpdate(a, b) => EventView::InterfaceUpdate(a, b),
            Event::InterfaceDelete(a, b) => EventView::InterfaceDelete(a, b),
            Event::InterfaceReset(a, b) => EventView::InterfaceReset(a, b),
            Event::InterfaceResetHelloInterval(a, b) => EventView::InterfaceResetHelloInterval(a, b),
            Event::InterfaceResetDeadInterval(a, b) => EventView::InterfaceResetDeadInterval(a, b),
            Event::InterfacePriorityChange(a, b) => EventView::InterfacePriorityChange(a, b),
            Event::InterfaceCostChange(a) => EventView::InterfaceCostChange(a),
            Event::AreaInterfaceTraceOptionsFlagChange(a) => EventView::AreaInterfaceTraceOptionsFlagChange(a),
            Event::InterfaceSyncHelloTx(a, b) => EventView::InterfaceSyncHelloTx(a, b),
            Event::InterfaceUpdateAuth(a, b) => EventView::InterfaceUpdateAuth(a, b),
            Event::InterfaceBfdChange(a) => EventView::InterfaceBfdChange(a),
            Event::InterfaceUpdateTraceOptions(a) => EventView::InterfaceUpdateTraceOptions(a),
            Event::InterfaceIbusSub(a) => EventView::InterfaceIbusSub(a@),
            Event::StubRouterChange => EventView::StubRouterChange,
            Event::GrHelperChange => EventView::GrHelperChange,
            Event::SrEnableChange(a) => EventView::SrEnableChange(a),
            Event::RerunSpf => EventView::RerunSpf,
            Event::UpdateVirtualLinks => EventView::UpdateVirtualLinks,
            Event::UpdateSummaries => EventView::UpdateSummaries,
            Event::ReinstallRoutes => EventView::ReinstallRoutes,
            Event::BierEnableChange(a) => EventView::BierEnableChange(a),
            Event::NodeTagsChange => EventView::NodeTagsChange,
            Event::UpdateTraceOptions => EventView::UpdateTraceOptions,
        }
    }
}

impl EventView {
    pub open spec fn rank(self) -> u128 {
        match self {
            EventView::InstanceReset => 0,
            EventView::InstanceUpdate => 1,
            EventView::InstanceIdUpdate => 2,
            EventView::AreaCreate(..) => 3,
            EventView::AreaDelete(..) => 4,
            EventView::AreaTypeChange(..) => 5,
            EventView::AreaSyncHelloTx(..) => 6,
            EventView::InterfaceUpdate(..) => 7,
            EventView::InterfaceDelete(..) => 8,
            EventView::InterfaceReset(..) => 9,
            EventView::InterfaceResetHelloInterval(..) => 10,
            EventView::InterfaceResetDeadInterval(..) => 11,
            EventView::InterfacePriorityChange(..) => 12,
            EventView::InterfaceCostChange(..) => 13,
            EventView::AreaInterfaceTraceOptionsFlagChange(..) => 14,
            EventView::InterfaceSyncHelloTx(..) => 15,
            EventView::InterfaceUpdateAuth(..) => 16,
            EventView::InterfaceBfdChange(..) => 17,
            EventView::InterfaceUpdateTraceOptions(..) => 18,
            EventView::InterfaceIbusSub(..) => 19,
            EventView::StubRouterChange => 20,
            EventView::GrHelperChange => 21,
            EventView::SrEnableChange(..) => 22,
            EventView::RerunSpf => 23,
            EventView::UpdateVirtualLinks => 24,
            EventView::UpdateSummaries => 25,
            EventView::ReinstallRoutes => 26,
            EventView::BierEnableChange(..) => 27,
            EventView::NodeTagsChange => 28,
            EventView::UpdateTraceOptions => 29,
        }
    }

    /// The numbers by which events of the same kind are ordered.
    pub open spec fn arg(self, i: int) -> u128 {
        match self {
            EventView::InstanceReset => 0,
            EventView::InstanceUpdate => 0,
            EventView::InstanceIdUpdate => 0,
            EventView::AreaCreate(a) => if i == 0 {
                a as u128
            } else {
                0
            },
            EventView::AreaDelete(a) => if i == 0 {
                a as u128
            } else {
                0
            },
            EventView::AreaTypeChange(a) => if i == 0 {
                a as u128
            } else {
                0
            },
            EventView::AreaSyncHelloTx(a) => if i == 0 {
                a as u128
            } else {
                0
            },
            EventView::InterfaceUpdate(a, b) => if i == 0 {
                a as u128
            } else if i == 1 {
                b as u128
            } else {
                0
            },
            EventView::InterfaceDelete(a, b) => if i == 0 {
                a as u128
            } else if i == 1 {
                b as u128
            } else {
                0
            },
            EventView::InterfaceReset(a, b) => if i == 0 {
                a as u128
            } else if i == 1 {
                b as u128
            } else {
                0
            },
            EventView::InterfaceResetHelloInterval(a, b) => if i == 0 {
                a as u128
            } else if i == 1 {
                b as u128
            } else {
                0
            },
            EventView::InterfaceResetDeadInterval(a, b) => if i == 0 {
                a as u128
            } else if i == 1 {
                b as u128
            } else {
                0
            },
            EventView::InterfacePriorityChange(a, b) => if i == 0 {
                a as u128
            } else if i == 1 {
                b as u128
            } else {
                0
            },
            EventView::InterfaceCostChange(a) => if i == 0 {
                a as u128
            } else {
                0
            },
            EventView::AreaInterfaceTraceOptionsFlagChange(a) => if i == 0 {
                a as u128
            } else {
                0
            },
            EventView::InterfaceSyncHelloTx(a, b) => if i == 0 {
                a as u128
            } else if i == 1 {
                b as u128
            } else {
                0
            },
            EventView::InterfaceUpdateAuth(a, b) => if i == 0 {
                a as u128
            } else if i == 1 {
                b as u128
            } else {
                0
            },
            EventView::InterfaceBfdChange(a) => if i == 0 {
                a as u128
            } else {
                0
            },
            EventView::InterfaceUpdateTraceOptions(a) => if i == 0 {
                a as u128
            } else {
                0
            },
            EventView::InterfaceIbusSub(..) => 0,
            EventView::StubRouterChange => 0,
            EventView::GrHelperChange => 0,
            EventView::SrEnableChange(a) => if i == 0 {
                flag(a)
            } else {
                0
            },
            EventView::RerunSpf => 0,
            EventView::UpdateVirtualLinks => 0,
            EventView::UpdateSummaries => 0,
            EventView::ReinstallRoutes => 0,
            EventView::BierEnableChange(a) => if i == 0 {
                flag(a)
            } else {
                0
            },
            EventView::NodeTagsChange => 0,
            EventView::UpdateTraceOptions => 0,
        }
    }

    pub open spec fn text(self) -> Seq<char> {
        match self {
            EventView::InstanceReset => Seq::empty(),
            EventView::InstanceUpdate => Seq::empty(),
            EventView::InstanceIdUpdate => Seq::empty(),
            EventView::AreaCreate(..) => Seq::empty(),
            EventView::AreaDelete(..) => Seq::empty(),
            EventView::AreaTypeChange(..) => Seq::empty(),
            EventView::AreaSyncHelloTx(..) => Seq::empty(),
            EventView::InterfaceUpdate(..) => Seq::empty(),
            EventView::InterfaceDelete(..) => Seq::empty(),
            EventView::InterfaceReset(..) => Seq::empty(),
            EventView::InterfaceResetHelloInterval(..) => Seq::empty(),
            EventView::InterfaceResetDeadInterval(..) => Seq::empty(),
            EventView::InterfacePriorityChange(..) => Seq::empty(),
            EventView::InterfaceCostChange(..) => Seq::empty(),
            EventView::AreaInterfaceTraceOptionsFlagChange(..) => Seq::empty(),
            EventView::InterfaceSyncHelloTx(..) => Seq::empty(),
            EventView::InterfaceUpdateAuth(..) => Seq::empty(),
            EventView::InterfaceBfdChange(..) => Seq::empty(),
            EventView::InterfaceUpdateTraceOptions(..) => Seq::empty(),
            EventView::InterfaceIbusSub(a) => a,
            EventView::StubRouterChange => Seq::empty(),
            EventView::GrHelperChange => Seq::empty(),
            EventView::SrEnableChange(..) => Seq::empty(),
            EventView::RerunSpf => Seq::empty(),
            EventView::UpdateVirtualLinks => Seq::empty(),
            EventView::UpdateSummaries => Seq::empty(),
            EventView::ReinstallRoutes => Seq::empty(),
            EventView::BierEnableChange(..) => Seq::empty(),
            EventView::NodeTagsChange => Seq::empty(),
            EventView::UpdateTraceOptions => Seq::empty(),
        }
    }
}

impl Key for Event {
    open spec fn code(v: EventView) -> Seq<u128> {
        seq![v.rank(), v.arg(0), v.arg(1)] + text_code(v.text())
    }

    proof fn code_injective(a: EventView, b: EventView) {
        let (x, y) = (Self::code(a), Self::code(b));
        assert(x[0] == a.rank() && y[0] == b.rank());
        assert(x[1] == a.arg(0) && y[1] == b.arg(0));
        assert(x[2] == a.arg(1) && y[2] == b.arg(1));
        assert(x.skip(3) =~= text_code(a.text()));
        assert(y.skip(3) =~= text_code(b.text()));
        text_code_injective(a.text(), b.text());
    }

    fn to_code(&self) -> Vec<u128> {
        let c: Vec<u128> = match self {
            Event::InstanceReset => vec![0, 0, 0],
            Event::InstanceUpdate => vec![1, 0, 0],
            Event::InstanceIdUpdate => vec![2, 0, 0],
            Event::AreaCreate(a) => vec![3, *a as u128, 0],
            Event::AreaDelete(a) => vec![4, *a as u128, 0],
            Event::AreaTypeChange(a) => vec![5, *a as u128, 0],
            Event::AreaSyncHelloTx(a) => vec![6, *a as u128, 0],
            Event::InterfaceUpdate(a, b) => vec![7, *a as u128, *b as u128],
            Event::InterfaceDelete(a, b) => vec![8, *a as u128, *b as u128],
            Event::InterfaceReset(a, b) => vec![9, *a as u128, *b as u128],
            Event::InterfaceResetHelloInterval(a, b) => vec![10, *a as u128, *b as u128],
            Event::InterfaceResetDeadInterval(a, b) => vec![11, *a as u128, *b as u128],
            Event::InterfacePriorityChange(a, b) => vec![12, *a as u128, *b as u128],
            Event::InterfaceCostChange(a) => vec![13, *a as u128, 0],
            Event::AreaInterfaceTraceOptionsFlagChange(a) => vec![14, *a as u128, 0],
            Event::InterfaceSyncHelloTx(a, b) => vec![15, *a as u128, *b as u128],
            Event::InterfaceUpdateAuth(a, b) => vec![16, *a as u128, *b as u128],
            Event::InterfaceBfdChange(a) => vec![17, *a as u128, 0],
            Event::InterfaceUpdateTraceOptions(a) => vec![18, *a as u128, 0],
            Event::InterfaceIbusSub(_) => vec![19, 0, 0],
            Event::StubRouterChange => vec![20, 0, 0],
            Event::GrHelperChange => vec![21, 0, 0],
            Event::SrEnableChange(a) => vec![22, to_flag(*a), 0],
            Event::RerunSpf => vec![23, 0, 0],
            Event::UpdateVirtualLinks => vec![24, 0, 0],
            Event::UpdateSummaries => vec![25, 0, 0],
            Event::ReinstallRoutes => vec![26, 0, 0],
            Event::BierEnableChange(a) => vec![27, to_flag(*a), 0],
            Event::NodeTagsChange => vec![28, 0, 0],
            Event::UpdateTraceOptions => vec![29, 0, 0],
        };
        let mut c = c;
        match self {
            Event::InterfaceIbusSub(a) => {
                push_text_code(&mut c, a);
            },
            _ => {},
        }
        assert(c@ =~= Self::code(self@));
        c
    }

    fn copy_key(&self) -> Event {
        match self {
            Event::InstanceReset => Event::InstanceReset,
            Event::InstanceUpdate => Event::InstanceUpdate,
            Event::InstanceIdUpdate => Event::InstanceIdUpdate,
            Event::AreaCreate(a) => Event::AreaCreate(*a),
            Event::AreaDelete(a) => Event::AreaDelete(*a),
            Event::AreaTypeChange(a) => Event::AreaTypeChange(*a),
            Event::AreaSyncHelloTx(a) => Event::AreaSyncHelloTx(*a),
            Event::InterfaceUpdate(a, b) => Event::InterfaceUpdate(*a, *b),
            Event::InterfaceDelete(a, b) => Event::InterfaceDelete(*a, *b),
            Event::InterfaceReset(a, b) => Event::InterfaceReset(*a, *b),
            Event::InterfaceResetHelloInterval(a, b) => Event::InterfaceResetHelloInterval(*a, *b),
            Event::InterfaceResetDeadInterval(a, b) => Event::InterfaceResetDeadInterval(*a, *b),
            Event::InterfacePriorityChange(a, b) => Event::InterfacePriorityChange(*a, *b),
            Event::InterfaceCostChange(a) => Event::InterfaceCostChange(*a),
            Event::AreaInterfaceTraceOptionsFlagChange(a) => Event::AreaInterfaceTraceOptionsFlagChange(*a),
            Event::InterfaceSyncHelloTx(a, b) => Event::InterfaceSyncHelloTx(*a, *b),
            Event::InterfaceUpdateAuth(a, b) => Event::InterfaceUpdateAuth(*a, *b),
            Event::InterfaceBfdChange(a) => Event::InterfaceBfdChange(*a),
            Event::InterfaceUpdateTraceOptions(a) => Event::InterfaceUpdateTraceOptions(*a),
            Event::InterfaceIbusSub(a) => Event::InterfaceIbusSub(a.clone()),
            Event::StubRouterChange => Event::StubRouterChange,
            Event::GrHelperChange => Event::GrHelperChange,
            Event::SrEnableChange(a) => Event::SrEnableChange(*a),
            Event::RerunSpf => Event::RerunSpf,
            Event::UpdateVirtualLinks => Event::UpdateVirtualLinks,
            Event::UpdateSummaries => Event::UpdateSummaries,
            Event::ReinstallRoutes => Event::ReinstallRoutes,
            Event::BierEnableChange(a) => Event::BierEnableChange(*a),
            Event::NodeTagsChange => Event::NodeTagsChange,
            Event::UpdateTraceOptions => Event::UpdateTraceOptions,
        }
    }
}

// ===== configuration structs =====

#[derive(Clone, Copy, Debug, PartialEq, Eq, Structural)]
pub enum AreaType {
    Normal,
    Stub,
    Nssa,
}

pub struct InstanceCfg {
    pub af: Option<AddressFamily>,
    pub enabled: bool,
    pub router_id: Option<Ipv4Addr>,
    pub preference: Preference,
    pub gr: InstanceGrCfg,
    pub max_paths: u16,
    pub spf_initial_delay: u32,
    pub spf_short_delay: u32,
    pub spf_long_delay: u32,
    pub spf_hold_down: u32,
    pub spf_time_to_learn: u32,
    pub stub_router: bool,
    pub node_tags: OrdSet<u32>,
    pub extended_lsa: bool,
    pub sr_enabled: bool,
    pub instance_id: u8,
    pub bier: BierOspfCfg,
    pub trace_opts: InstanceTraceOptions,
}

#[derive(Clone, Copy, Debug, PartialEq, Eq, Structural)]
pub struct BierOspfCfg {
    pub mt_id: u8,
    pub enabled: bool,
    pub advertise: bool,
    pub receive: bool,
}

#[derive(Clone, Copy, Debug, PartialEq, Eq, Structural)]
pub struct Preference {
    pub intra_area: u8,
    pub inter_area: u8,
    pub external: u8,
}

#[derive(Clone, Copy, Debug, PartialEq, Eq, Structural)]
pub struct InstanceGrCfg {
    pub helper_enabled: bool,
    pub helper_strict_lsa_checking: bool,
}

#[derive(Clone, Copy, Debug, PartialEq, Eq, Structural)]
pub struct InstanceTraceOptions {
    pub flooding: bool,
    pub gr: bool,
    pub ibus: bool,
    pub lsdb: bool,
    pub neighbor: bool,
    pub packets: TraceOptionPacket,
    pub spf: bool,
}

#[derive(Clone, Copy, Debug, PartialEq, Eq, Structural)]
pub struct AreaCfg {
    pub area_type: AreaType,
    pub summary: bool,
    pub default_cost: u32,
}

#[derive(Clone, Copy, Debug, PartialEq, Eq, Structural)]
pub struct RangeCfg {
    pub advertise: bool,
    pub cost: Option<u32>,
}

pub struct InterfaceCfg {
    pub instance_id: InheritableConfig<u8>,
    pub if_type: InterfaceType,
    pub passive: bool,
    pub priority: u8,
    pub hello_interval: u16,
    pub dead_interval: u16,
    pub retransmit_interval: u16,
    pub transmit_delay: u16,
    pub enabled: bool,
    pub cost: u16,
    pub mtu_ignore: bool,
    pub node_flag: bool,
    pub anycast_flag: bool,
    pub static_nbrs: Table<IpAddr, StaticNbr>,
    pub auth_keychain: Option<String>,
    pub auth_keyid: Option<u32>,
    pub auth_key: Option<String>,
    pub auth_algo: Option<CryptoAlgo>,
    pub bfd_enabled: bool,
    pub bfd_params: ClientCfg,
    pub trace_opts: InterfaceTraceOptions,
    pub lls_enabled: bool,
}

#[derive(Clone, Copy, Debug, PartialEq, Eq, Structural)]
pub struct StaticNbr {
    pub cost: Option<u16>,
    pub poll_interval: u16,
    pub priority: u8,
}

#[derive(Clone, Copy, Debug, PartialEq, Eq, Structural)]
pub struct InterfaceTraceOptions {
    pub packets: TraceOptionPacket,
    pub packets_resolved: TraceOptionPacketResolved,
}

#[derive(Clone, Copy, Debug, PartialEq, Eq, Structural)]
pub struct TraceOptionPacket {
    pub all: Option<TraceOptionPacketType>,
    pub hello: Option<TraceOptionPacketType>,
    pub dbdesc: Option<TraceOptionPacketType>,
    pub lsreq: Option<TraceOptionPacketType>,
    pub lsupd: Option<TraceOptionPacketType>,
    pub lsack: Option<TraceOptionPacketType>,
}

#[derive(Clone, Copy, Debug, PartialEq, Eq, Structural)]
pub struct TraceOptionPacketResolved {
    pub hello: TraceOptionPacketType,
    pub dbdesc: TraceOptionPacketType,
    pub lsreq: TraceOptionPacketType,
    pub lsupd: TraceOptionPacketType,
    pub lsack: TraceOptionPacketType,
}

#[derive(Clone, Copy, Debug, PartialEq, Eq, Structural)]
pub enum InstanceTraceOption {
    Flooding,
    GracefulRestart,
    InternalBus,
    Lsdb,
    Neighbor,
    PacketsAll,
    PacketsHello,
    PacketsDbDesc,
    PacketsLsUpdate,
    PacketsLsRequest,
    PacketsLsAck,
    Spf,
}

#[derive(Clone, Copy, Debug, PartialEq, Eq, Structural)]
pub enum InterfaceTraceOption {
    PacketsAll,
    PacketsHello,
    PacketsDbDesc,
    PacketsLsUpdate,
    PacketsLsRequest,
    PacketsLsAck,
}

// ===== views =====

pub struct InstanceCfgView {
    pub af: Option<AddressFamily>,
    pub enabled: bool,
    pub router_id: Option<Ipv4Addr>,
    pub preference: Preference,
    pub gr: InstanceGrCfg,
    pub max_paths: u16,
    pub spf_initial_delay: u32,
    pub spf_short_delay: u32,
    pub spf_long_delay: u32,
    pub spf_hold_down: u32,
    pub spf_time_to_learn: u32,
    pub stub_router: bool,
    pub node_tags: Set<u32>,
    pub extended_lsa: bool,
    pub sr_enabled: bool,
    pub instance_id: u8,
    pub bier: BierOspfCfg,
    pub trace_opts: InstanceTraceOptions,
}

impl View for InstanceCfg {
    type V = InstanceCfgView;

    open spec fn view(&self) -> InstanceCfgView {
        InstanceCfgView {
            af: self.af,
            enabled: self.enabled,
            router_id: self.router_id,
            preference: self.preference,
            gr: self.gr,
            max_paths: self.max_paths,
            spf_initial_delay: self.spf_initial_delay,
            spf_short_delay: self.spf_short_delay,
            spf_long_delay: self.spf_long_delay,
            spf_hold_down: self.spf_hold_down,
            spf_time_to_learn: self.spf_time_to_learn,
            stub_router: self.stub_router,
            node_tags: self.node_tags@,
            extended_lsa: self.extended_lsa,
            sr_enabled: self.sr_enabled,
            instance_id: self.instance_id,
            bier: self.bier,
            trace_opts: self.trace_opts,
        }
    }
}

pub struct InterfaceCfgView {
    pub instance_id: InheritableConfig<u8>,
    pub if_type: InterfaceType,
    pub passive: bool,
    pub priority: u8,
    pub hello_interval: u16,
    pub dead_interval: u16,
    pub retransmit_interval: u16,
    pub transmit_delay: u16,
    pub enabled: bool,
    pub cost: u16,
    pub mtu_ignore: bool,
    pub node_flag: bool,
    pub anycast_flag: bool,
    pub static_nbrs: Map<IpAddr, StaticNbr>,
    pub auth_keychain: Option<Seq<char>>,
    pub auth_keyid: Option<u32>,
    pub auth_key: Option<Seq<char>>,
    pub auth_algo: Option<CryptoAlgo>,
    pub bfd_enabled: bool,
    pub bfd_params: ClientCfg,
    pub trace_opts: InterfaceTraceOptions,
    pub lls_enabled: bool,
}

impl View for InterfaceCfg {
    type V = InterfaceCfgView;

    open spec fn view(&self) -> InterfaceCfgView {
        InterfaceCfgView {
            instance_id: self.instance_id,
            if_type: self.if_type,
            passive: self.passive,
            priority: self.priority,
            hello_interval: self.hello_interval,
            dead_interval: self.dead_interval,
            retransmit_interval: self.retransmit_interval,
            transmit_delay: self.transmit_delay,
            enabled: self.enabled,
            cost: self.cost,
            mtu_ignore: self.mtu_ignore,
            node_flag: self.node_flag,
            anycast_flag: self.anycast_flag,
            static_nbrs: self.static_nbrs@,
            auth_keychain: opt_text(self.auth_keychain),
            auth_keyid: self.auth_keyid,
            auth_key: opt_text(self.auth_key),
            auth_algo: self.auth_algo,
            bfd_enabled: self.bfd_enabled,
            bfd_params: self.bfd_params,
            trace_opts: self.trace_opts,
            lls_enabled: self.lls_enabled,
        }
    }
}

// ===== areas and interfaces =====

/// Versions of the protocol.
#[derive(Clone, Copy, Debug, PartialEq, Eq, Structural)]
pub enum Version {
    Ospfv2,
    Ospfv3,
}

impl Version {
    /// Whether address ranges can have the prefix.
    pub open spec fn takes_prefix(self, prefix: IpNetwork) -> bool {
        self is Ospfv3 || prefix.addr is V4
    }

    fn accepts_prefix(&self, prefix: &IpNetwork) -> (b: bool)
        ensures
            b == self.takes_prefix(*prefix),
    {
        match (self, prefix.addr) {
            (Version::Ospfv3, _) => true,
            (_, IpAddr::V4(_)) => true,
            _ => false,
        }
    }

    /// Whether neighbors can have the address: it is of the family that the
    /// version runs over.
    pub open spec fn takes_neighbor(self, addr: IpAddr) -> bool {
        (self is Ospfv2) == (addr is V4)
    }

    fn accepts_neighbor(&self, addr: &IpAddr) -> (b: bool)
        ensures
            b == self.takes_neighbor(*addr),
    {
        match (self, addr) {
            (Version::Ospfv2, IpAddr::V4(_)) => true,
            (Version::Ospfv3, IpAddr::V6(_)) => true,
            _ => false,
        }
    }
}

#[derive(Clone, Copy, Debug, PartialEq, Eq, Structural)]
pub struct VirtualLinkKey {
    pub transit_area_id: Ipv4Addr,
    pub router_id: Ipv4Addr,
}

/// What the handling of configuration events reads of a neighbor.
#[derive(Clone, Copy, Debug, PartialEq, Eq, Structural)]
pub struct NeighborState {
    pub id: u64,
    /// Whether the state is 2-Way or beyond.
    pub two_way: bool,
    /// Whether the inactivity timer runs.
    pub inactivity_timer: bool,
}

pub struct Interface {
    pub area: AreaIndex,
    pub name: String,
    /// What the interface stands for, if it is a virtual link.
    pub vlink: Option<VirtualLinkKey>,
    pub config: InterfaceCfg,
    pub down: bool,
    /// Whether Hello packets are sent periodically.
    pub hello_interval: bool,
    /// Whether the wait timer runs.
    pub wait_timer: bool,
    pub neighbors: Vec<NeighborState>,
}

pub struct InterfaceView {
    pub area: AreaIndex,
    pub name: Seq<char>,
    pub vlink: Option<VirtualLinkKey>,
    pub config: InterfaceCfgView,
    pub down: bool,
    pub hello_interval: bool,
    pub wait_timer: bool,
    pub neighbors: Seq<NeighborState>,
}

impl View for Interface {
    type V = InterfaceView;

    open spec fn view(&self) -> InterfaceView {
        InterfaceView {
            area: self.area,
            name: self.name@,
            vlink: self.vlink,
            config: self.config@,
            down: self.down,
            hello_interval: self.hello_interval,
            wait_timer: self.wait_timer,
            neighbors: self.neighbors@,
        }
    }
}

pub struct Area {
    pub id: Ipv4Addr,
    pub config: AreaCfg,
    pub ranges: Table<IpNetwork, RangeCfg>,
    pub active: bool,
}

pub struct AreaView {
    pub id: Ipv4Addr,
    pub config: AreaCfg,
    pub ranges: Map<IpNetwork, RangeCfg>,
    pub active: bool,
}

impl View for Area {
    type V = AreaView;

    open spec fn view(&self) -> AreaView {
        AreaView { id: self.id, config: self.config, ranges: self.ranges@, active: self.active }
    }
}

/// An OSPF instance, as far as its configuration goes.
pub struct Instance {
    pub config: InstanceCfg,
    pub areas: Table<AreaIndex, Area>,
    pub interfaces: Table<InterfaceIndex, Interface>,
    /// The index that the next new area gets.
    pub next_area: AreaIndex,
    /// The index that the next new interface gets.
    pub next_interface: InterfaceIndex,
    pub version: Version,
    /// The address family that is routed.
    pub address_family: AddressFamily,
    /// The Router ID that is used when none is configured.
    pub system_router_id: Option<Ipv4Addr>,
    /// Whether the instance is up.
    pub up: bool,
    /// Defaults of the schema.
    pub defaults: Defaults,
}

pub struct InstanceView {
    pub config: InstanceCfgView,
    pub areas: Map<AreaIndex, AreaView>,
    pub interfaces: Map<InterfaceIndex, InterfaceView>,
    pub next_area: AreaIndex,
    pub next_interface: InterfaceIndex,
    pub version: Version,
    pub address_family: AddressFamily,
    pub system_router_id: Option<Ipv4Addr>,
    pub up: bool,
    pub defaults: Defaults,
}

impl View for Instance {
    type V = InstanceView;

    open spec fn view(&self) -> InstanceView {
        InstanceView {
            config: self.config@,
            areas: views(self.areas@),
            interfaces: views(self.interfaces@),
            next_area: self.next_area,
            next_interface: self.next_interface,
            version: self.version,
            address_family: self.address_family,
            system_router_id: self.system_router_id,
            up: self.up,
            defaults: self.defaults,
        }
    }
}

// ===== configuration defaults =====

/// Default values that the schema gives.
#[derive(Clone, Copy, Debug, PartialEq, Eq, Structural)]
pub struct Defaults {
    pub enabled: bool,
    pub preference: u8,
    pub helper_enabled: bool,
    pub helper_strict_lsa_checking: bool,
    pub max_paths: u16,
    pub spf_initial_delay: u32,
    pub spf_short_delay: u32,
    pub spf_long_delay: u32,
    pub spf_hold_down: u32,
    pub spf_time_to_learn: u32,
    pub extended_lsa: bool,
    pub sr_enabled: bool,
    pub instance_id: u8,
    pub bier_enabled: bool,
    pub bier_advertise: bool,
    pub bier_receive: bool,
    pub area_type: AreaType,
    pub area_summary: bool,
    pub area_default_cost: u32,
    pub range_advertise: bool,
    pub if_type: InterfaceType,
    pub passive: bool,
    pub priority: u8,
    pub hello_interval: u16,
    pub dead_interval: u16,
    pub retransmit_interval: u16,
    pub transmit_delay: u16,
    pub iface_enabled: bool,
    pub cost: u16,
    pub mtu_ignore: bool,
    pub node_flag: bool,
    pub anycast_flag: bool,
    pub bfd_enabled: bool,
    pub bfd_params: ClientCfg,
    pub lls_enabled: bool,
    pub nbr_poll_interval: u16,
    pub nbr_priority: u8,
    pub trace: TraceOptionPacketType,
}

impl TraceOptionPacket {
    /// The values without any configuration.
    pub open spec fn initial() -> TraceOptionPacket {
        TraceOptionPacket {
            all: None,
            hello: None,
            dbdesc: None,
            lsreq: None,
            lsupd: None,
            lsack: None,
        }
    }
}

impl Default for TraceOptionPacket {
    fn default() -> (r: TraceOptionPacket)
        ensures
            r == TraceOptionPacket::initial(),
    {
        TraceOptionPacket {
            all: None,
            hello: None,
            dbdesc: None,
            lsreq: None,
            lsupd: None,
            lsack: None,
        }
    }
}

impl TraceOptionPacketResolved {
    /// The values without any configuration.
    pub open spec fn initial() -> TraceOptionPacketResolved {
        TraceOptionPacketResolved {
            hello: TraceOptionPacketType { tx: false, rx: false },
            dbdesc: TraceOptionPacketType { tx: false, rx: false },
            lsreq: TraceOptionPacketType { tx: false, rx: false },
            lsupd: TraceOptionPacketType { tx: false, rx: false },
            lsack: TraceOptionPacketType { tx: false, rx: false },
        }
    }
}

impl Default for TraceOptionPacketResolved {
    fn default() -> (r: TraceOptionPacketResolved)
        ensures
            r == TraceOptionPacketResolved::initial(),
    {
        TraceOptionPacketResolved {
            hello: TraceOptionPacketType { tx: false, rx: false },
            dbdesc: TraceOptionPacketType { tx: false, rx: false },
            lsreq: TraceOptionPacketType { tx: false, rx: false },
            lsupd: TraceOptionPacketType { tx: false, rx: false },
            lsack: TraceOptionPacketType { tx: false, rx: false },
        }
    }
}

impl InstanceTraceOptions {
    /// The values without any configuration.
    pub open spec fn initial() -> InstanceTraceOptions {
        InstanceTraceOptions {
            flooding: false,
            gr: false,
            ibus: false,
            lsdb: false,
            neighbor: false,
            packets: TraceOptionPacket::initial(),
            spf: false,
        }
    }
}

impl Default for InstanceTraceOptions {
    fn default() -> (r: InstanceTraceOptions)
        ensures
            r == InstanceTraceOptions::initial(),
    {
        InstanceTraceOptions {
            flooding: false,
            gr: false,
            ibus: false,
            lsdb: false,
            neighbor: false,
            packets: TraceOptionPacket::default(),
            spf: false,
        }
    }
}

impl InterfaceTraceOptions {
    /// The values without any configuration.
    pub open spec fn initial() -> InterfaceTraceOptions {
        InterfaceTraceOptions {
            packets: TraceOptionPacket::initial(),
            packets_resolved: TraceOptionPacketResolved::initial(),
        }
    }
}

impl Default for InterfaceTraceOptions {
    fn default() -> (r: InterfaceTraceOptions)
        ensures
            r == InterfaceTraceOptions::initial(),
    {
        InterfaceTraceOptions {
            packets: TraceOptionPacket::default(),
            packets_resolved: TraceOptionPacketResolved::default(),
        }
    }
}

impl BierOspfCfg {
    /// The values without any configuration.
    pub open spec fn initial(d: Defaults) -> BierOspfCfg {
        BierOspfCfg {
            mt_id: 0,
            enabled: d.bier_enabled,
            advertise: d.bier_advertise,
            receive: d.bier_receive,
        }
    }

    pub fn new(d: &Defaults) -> (r: BierOspfCfg)
        ensures
            r == BierOspfCfg::initial(*d),
    {
        BierOspfCfg {
            mt_id: 0,
            enabled: d.bier_enabled,
            advertise: d.bier_advertise,
            receive: d.bier_receive,
        }
    }
}

impl Preference {
    /// The values without any configuration.
    pub open spec fn initial(d: Defaults) -> Preference {
        Preference {
            intra_area: d.preference,
            inter_area: d.preference,
            external: d.preference,
        }
    }

    pub fn new(d: &Defaults) -> (r: Preference)
        ensures
            r == Preference::initial(*d),
    {
        Preference {
            intra_area: d.preference,
            inter_area: d.preference,
            external: d.preference,
        }
    }
}

impl InstanceGrCfg {
    /// The values without any configuration.
    pub open spec fn initial(d: Defaults) -> InstanceGrCfg {
        InstanceGrCfg {
            helper_enabled: d.helper_enabled,
            helper_strict_lsa_checking: d.helper_strict_lsa_checking,
        }
    }

    pub fn new(d: &Defaults) -> (r: InstanceGrCfg)
        ensures
            r == InstanceGrCfg::initial(*d),
    {
        InstanceGrCfg {
            helper_enabled: d.helper_enabled,
            helper_strict_lsa_checking: d.helper_strict_lsa_checking,
        }
    }
}

impl InstanceCfg {
    /// The values without any configuration.
    pub open spec fn initial(d: Defaults) -> InstanceCfgView {
        InstanceCfgView {
            af: None,
            enabled: d.enabled,
            router_id: None,
            preference: Preference::initial(d),
            gr: InstanceGrCfg::initial(d),
            max_paths: d.max_paths,
            spf_initial_delay: d.spf_initial_delay,
            spf_short_delay: d.spf_short_delay,
            spf_long_delay: d.spf_long_delay,
            spf_hold_down: d.spf_hold_down,
            spf_time_to_learn: d.spf_time_to_learn,
            stub_router: false,
            node_tags: Set::empty(),
            extended_lsa: d.extended_lsa,
            sr_enabled: d.sr_enabled,
            instance_id: d.instance_id,
            bier: BierOspfCfg::initial(d),
            trace_opts: InstanceTraceOptions::initial(),
        }
    }

    pub fn new(d: &Defaults) -> (r: InstanceCfg)
        ensures
            r@ == InstanceCfg::initial(*d),
    {
        InstanceCfg {
            af: None,
            enabled: d.enabled,
            router_id: None,
            preference: Preference::new(d),
            gr: InstanceGrCfg::new(d),
            max_paths: d.max_paths,
            spf_initial_delay: d.spf_initial_delay,
            spf_short_delay: d.spf_short_delay,
            spf_long_delay: d.spf_long_delay,
            spf_hold_down: d.spf_hold_down,
            spf_time_to_learn: d.spf_time_to_learn,
            stub_router: false,
            node_tags: OrdSet::new(),
            extended_lsa: d.extended_lsa,
            sr_enabled: d.sr_enabled,
            instance_id: d.instance_id,
            bier: BierOspfCfg::new(d),
            trace_opts: InstanceTraceOptions::default(),
        }
    }
}

impl AreaCfg {
    /// The values without any configuration.
    pub open spec fn initial(d: Defaults) -> AreaCfg {
        AreaCfg {
            area_type: d.area_type,
            summary: d.area_summary,
            default_cost: d.area_default_cost,
        }
    }

    pub fn new(d: &Defaults) -> (r: AreaCfg)
        ensures
            r == AreaCfg::initial(*d),
    {
        AreaCfg {
            area_type: d.area_type,
            summary: d.area_summary,
            default_cost: d.area_default_cost,
        }
    }
}

impl RangeCfg {
    /// The values without any configuration.
    pub open spec fn initial(d: Defaults) -> RangeCfg {
        RangeCfg {
            advertise: d.range_advertise,
            cost: None,
        }
    }

    pub fn new(d: &Defaults) -> (r: RangeCfg)
        ensures
            r == RangeCfg::initial(*d),
    {
        RangeCfg {
            advertise: d.range_advertise,
            cost: None,
        }
    }
}

impl InterfaceCfg {
    /// The values without any configuration.
    pub open spec fn initial(d: Defaults) -> InterfaceCfgView {
        InterfaceCfgView {
            instance_id: InheritableConfig { explicit: None, resolved: d.instance_id },
            if_type: d.if_type,
            passive: d.passive,
            priority: d.priority,
            hello_interval: d.hello_interval,
            dead_interval: d.dead_interval,
            retransmit_interval: d.retransmit_interval,
            transmit_delay: d.transmit_delay,
            enabled: d.iface_enabled,
            cost: d.cost,
            mtu_ignore: d.mtu_ignore,
            node_flag: d.node_flag,
            anycast_flag: d.anycast_flag,
            static_nbrs: Map::empty(),
            auth_keychain: None,
            auth_keyid: None,
            auth_key: None,
            auth_algo: None,
            bfd_enabled: d.bfd_enabled,
            bfd_params: d.bfd_params,
            trace_opts: InterfaceTraceOptions::initial(),
            lls_enabled: d.lls_enabled,
        }
    }

    pub fn new(d: &Defaults) -> (r: InterfaceCfg)
        ensures
            r@ == InterfaceCfg::initial(*d),
    {
        InterfaceCfg {
            instance_id: InheritableConfig { explicit: None, resolved: d.instance_id },
            if_type: d.if_type,
            passive: d.passive,
            priority: d.priority,
            hello_interval: d.hello_interval,
            dead_interval: d.dead_interval,
            retransmit_interval: d.retransmit_interval,
            transmit_delay: d.transmit_delay,
            enabled: d.iface_enabled,
            cost: d.cost,
            mtu_ignore: d.mtu_ignore,
            node_flag: d.node_flag,
            anycast_flag: d.anycast_flag,
            static_nbrs: Table::new(),
            auth_keychain: None,
            auth_keyid: None,
            auth_key: None,
            auth_algo: None,
            bfd_enabled: d.bfd_enabled,
            bfd_params: d.bfd_params,
            trace_opts: InterfaceTraceOptions::default(),
            lls_enabled: d.lls_enabled,
        }
    }
}

impl StaticNbr {
    /// The values without any configuration.
    pub open spec fn initial(d: Defaults) -> StaticNbr {
        StaticNbr {
            cost: None,
            poll_interval: d.nbr_poll_interval,
            priority: d.nbr_priority,
        }
    }

    pub fn new(d: &Defaults) -> (r: StaticNbr)
        ensures
            r == StaticNbr::initial(*d),
    {
        StaticNbr {
            cost: None,
            poll_interval: d.nbr_poll_interval,
            priority: d.nbr_priority,
        }
    }
}

// ===== changes =====

/// Change of an address range.
pub enum AreaRangeChange {
    Create,
    Delete,
    Entry(AreaRangeEntryChange),
}

pub enum AreaRangeEntryChange {
    Advertise(bool),
    Cost(Option<u32>),
}

/// Change of a static neighbor.
pub enum StaticNeighborChange {
    Create,
    Delete,
    Entry(StaticNeighborEntryChange),
}

pub enum StaticNeighborEntryChange {
    Cost(Option<u16>),
    PollInterval(u16),
    Priority(u8),
}

/// Change within a virtual link.
pub enum AreaVirtualLinkEntryChange {
    HelloInterval(u16),
    DeadInterval(u16),
    RetransmitInterval(u16),
    TransmitDelay(u16),
    Lls(bool),
    Enabled(bool),
    AuthenticationOspfv2KeyChain(Option<String>),
    AuthenticationOspfv3KeyChain(Option<String>),
    AuthenticationOspfv2KeyId(Option<u32>),
    AuthenticationOspfv3SaId(Option<u16>),
    AuthenticationOspfv2Key(Option<String>),
    AuthenticationOspfv3Key(Option<String>),
    AuthenticationOspfv2CryptoAlgorithm(Option<CryptoAlgo>),
    AuthenticationOspfv3CryptoAlgorithm(Option<CryptoAlgo>),
}

/// Change of a virtual link.
pub enum AreaVirtualLinkChange {
    Create,
    Delete,
    Entry(AreaVirtualLinkEntryChange),
}

/// Change within an interface.
pub enum AreaInterfaceEntryChange {
    InterfaceType(InterfaceType),
    Passive(bool),
    Priority(u8),
    NodeFlag(bool),
    AnycastFlag(Option<bool>),
    BfdEnabled(bool),
    BfdLocalMultiplier(u8),
    BfdDesiredMinTxInterval(Option<u32>),
    BfdRequiredMinRxInterval(Option<u32>),
    BfdMinInterval(Option<u32>),
    HelloInterval(u16),
    DeadInterval(u16),
    RetransmitInterval(u16),
    TransmitDelay(u16),
    Lls(bool),
    Enabled(bool),
    Cost(u16),
    MtuIgnore(bool),
    InstanceId(Option<u8>),
    AuthenticationOspfv2KeyChain(Option<String>),
    AuthenticationOspfv3KeyChain(Option<String>),
    AuthenticationOspfv2KeyId(Option<u32>),
    AuthenticationOspfv3SaId(Option<u16>),
    AuthenticationOspfv2Key(Option<String>),
    AuthenticationOspfv3Key(Option<String>),
    AuthenticationOspfv2CryptoAlgorithm(Option<CryptoAlgo>),
    AuthenticationOspfv3CryptoAlgorithm(Option<CryptoAlgo>),
    StaticNeighborsNeighbor(IpAddr, StaticNeighborChange),
    TraceOptionsFlag(InterfaceTraceOption, TraceFlagChange),
}

/// Change of an interface.
pub enum AreaInterfaceChange {
    Create,
    Delete,
    Entry(AreaInterfaceEntryChange),
}

/// Change within an area.
pub enum AreaEntryChange {
    VirtualLink { transit_area_id: Ipv4Addr, router_id: Ipv4Addr, change: AreaVirtualLinkChange },
    Interface(String, AreaInterfaceChange),
    AreaType(AreaType),
    Summary(Option<bool>),
    DefaultCost(Option<u32>),
    Range(IpNetwork, AreaRangeChange),
}

/// Change of an area.
pub enum AreaChange {
    Create,
    Delete,
    Entry(AreaEntryChange),
}

/// Change of the configuration of an instance.
pub enum ConfigChange {
    AddressFamily(Option<AddressFamily>),
    Enabled(bool),
    ExplicitRouterId(Option<Ipv4Addr>),
    PreferenceAll(Option<u8>),
    PreferenceIntraArea(Option<u8>),
    PreferenceInterArea(Option<u8>),
    PreferenceInternal(Option<u8>),
    PreferenceExternal(Option<u8>),
    GracefulRestartHelperEnabled(bool),
    GracefulRestartHelperStrictLsaChecking(bool),
    SpfControlPaths(u16),
    SpfControlIetfSpfDelayInitialDelay(u32),
    SpfControlIetfSpfDelayShortDelay(u32),
    SpfControlIetfSpfDelayLongDelay(u32),
    SpfControlIetfSpfDelayHoldDown(u32),
    SpfControlIetfSpfDelayTimeToLearn(u32),
    StubRouterAlways(ConfigOp),
    ExtendedLsaSupport(Option<bool>),
    SegmentRoutingEnabled(bool),
    InstanceId(Option<u8>),
    BierMtId(Option<u8>),
    BierBierEnable(bool),
    BierBierAdvertise(bool),
    BierBierReceive(bool),
    NodeTag(u32, ConfigOp),
    TraceOptionsFlag(InstanceTraceOption, TraceFlagChange),
    Area(Ipv4Addr, AreaChange),
}

// ===== trace options =====

/// Kinds of packets that have a trace option.
#[derive(Clone, Copy, Debug, PartialEq, Eq, Structural)]
pub enum PacketKind {
    All,
    Hello,
    DbDesc,
    LsRequest,
    LsUpdate,
    LsAck,
}

/// The options on packets, after a change of one of them.
#[verifier::opaque]
pub open spec fn packets_changed(
    p: TraceOptionPacket,
    kind: PacketKind,
    change: TraceFlagChange,
    dflt: TraceOptionPacketType,
) -> TraceOptionPacket {
    match kind {
        PacketKind::All => TraceOptionPacket { all: slot_changed(p.all, change, dflt), ..p },
        PacketKind::Hello => TraceOptionPacket { hello: slot_changed(p.hello, change, dflt), ..p },
        PacketKind::DbDesc => TraceOptionPacket { dbdesc: slot_changed(p.dbdesc, change, dflt), ..p },
        PacketKind::LsRequest => TraceOptionPacket { lsreq: slot_changed(p.lsreq, change, dflt), ..p },
        PacketKind::LsUpdate => TraceOptionPacket { lsupd: slot_changed(p.lsupd, change, dflt), ..p },
        PacketKind::LsAck => TraceOptionPacket { lsack: slot_changed(p.lsack, change, dflt), ..p },
    }
}

/// The option on packets of one kind.
pub open spec fn packet_slot(p: TraceOptionPacket, kind: PacketKind) -> Option<TraceOptionPacketType> {
    match kind {
        PacketKind::All => p.all,
        PacketKind::Hello => p.hello,
        PacketKind::DbDesc => p.dbdesc,
        PacketKind::LsRequest => p.lsreq,
        PacketKind::LsUpdate => p.lsupd,
        PacketKind::LsAck => p.lsack,
    }
}

fn apply_packets(
    p: &mut TraceOptionPacket,
    kind: PacketKind,
    change: &TraceFlagChange,
    dflt: TraceOptionPacketType,
) -> (notes: bool)
    ensures
        *final(p) == packets_changed(*old(p), kind, *change, dflt),
        notes == slot_notes(packet_slot(*old(p), kind), *change),
{
    reveal(packets_changed);
    match kind {
        PacketKind::All => apply_slot(&mut p.all, change, dflt),
        PacketKind::Hello => apply_slot(&mut p.hello, change, dflt),
        PacketKind::DbDesc => apply_slot(&mut p.dbdesc, change, dflt),
        PacketKind::LsRequest => apply_slot(&mut p.lsreq, change, dflt),
        PacketKind::LsUpdate => apply_slot(&mut p.lsupd, change, dflt),
        PacketKind::LsAck => apply_slot(&mut p.lsack, change, dflt),
    }
}

impl InstanceTraceOption {
    /// The kind of packets that the option is about, if any.
    pub open spec fn packets(self) -> Option<PacketKind> {
        match self {
            InstanceTraceOption::PacketsAll => Some(PacketKind::All),
            InstanceTraceOption::PacketsHello => Some(PacketKind::Hello),
            InstanceTraceOption::PacketsDbDesc => Some(PacketKind::DbDesc),
            InstanceTraceOption::PacketsLsRequest => Some(PacketKind::LsRequest),
            InstanceTraceOption::PacketsLsUpdate => Some(PacketKind::LsUpdate),
            InstanceTraceOption::PacketsLsAck => Some(PacketKind::LsAck),
            _ => None,
        }
    }

    fn packet_kind(&self) -> (r: Option<PacketKind>)
        ensures
            r == self.packets(),
    {
        match self {
            InstanceTraceOption::PacketsAll => Some(PacketKind::All),
            InstanceTraceOption::PacketsHello => Some(PacketKind::Hello),
            InstanceTraceOption::PacketsDbDesc => Some(PacketKind::DbDesc),
            InstanceTraceOption::PacketsLsRequest => Some(PacketKind::LsRequest),
            InstanceTraceOption::PacketsLsUpdate => Some(PacketKind::LsUpdate),
            InstanceTraceOption::PacketsLsAck => Some(PacketKind::LsAck),
            _ => None,
        }
    }
}

/// The trace options of an instance, after a change of one of them.
pub open spec fn trace_options_changed(
    c: InstanceTraceOptions,
    option: InstanceTraceOption,
    change: TraceFlagChange,
    dflt: TraceOptionPacketType,
) -> InstanceTraceOptions {
    match option.packets() {
        Some(kind) => InstanceTraceOptions { packets: packets_changed(c.packets, kind, change, dflt), ..c },
        None => match option {
            InstanceTraceOption::Flooding => InstanceTraceOptions { flooding: flag_changed(c.flooding, change), ..c },
            InstanceTraceOption::GracefulRestart => InstanceTraceOptions { gr: flag_changed(c.gr, change), ..c },
            InstanceTraceOption::InternalBus => InstanceTraceOptions { ibus: flag_changed(c.ibus, change), ..c },
            InstanceTraceOption::Lsdb => InstanceTraceOptions { lsdb: flag_changed(c.lsdb, change), ..c },
            InstanceTraceOption::Neighbor => InstanceTraceOptions { neighbor: flag_changed(c.neighbor, change), ..c },
            InstanceTraceOption::Spf => InstanceTraceOptions { spf: flag_changed(c.spf, change), ..c },
            _ => c,
        },
    }
}

/// Whether a change of one of the options has an effect to announce.
pub open spec fn trace_options_notes(
    c: InstanceTraceOptions,
    option: InstanceTraceOption,
    change: TraceFlagChange,
) -> bool {
    match option.packets() {
        Some(kind) => slot_notes(packet_slot(c.packets, kind), change),
        None => !(change is Entry),
    }
}

fn apply_trace_options(
    c: &mut InstanceTraceOptions,
    option: InstanceTraceOption,
    change: &TraceFlagChange,
    dflt: TraceOptionPacketType,
) -> (notes: bool)
    ensures
        *final(c) == trace_options_changed(*old(c), option, *change, dflt),
        notes == trace_options_notes(*old(c), option, *change),
{
    if let Some(kind) = option.packet_kind() {
        return apply_packets(&mut c.packets, kind, change, dflt);
    }
    match option {
        InstanceTraceOption::Flooding => apply_flag(&mut c.flooding, change),
        InstanceTraceOption::GracefulRestart => apply_flag(&mut c.gr, change),
        InstanceTraceOption::InternalBus => apply_flag(&mut c.ibus, change),
        InstanceTraceOption::Lsdb => apply_flag(&mut c.lsdb, change),
        InstanceTraceOption::Neighbor => apply_flag(&mut c.neighbor, change),
        InstanceTraceOption::Spf => apply_flag(&mut c.spf, change),
        _ => false,
    }
}

impl InterfaceTraceOption {
    /// The kind of packets that the option is about, if any.
    pub open spec fn packets(self) -> Option<PacketKind> {
        match self {
            InterfaceTraceOption::PacketsAll => Some(PacketKind::All),
            InterfaceTraceOption::PacketsHello => Some(PacketKind::Hello),
            InterfaceTraceOption::PacketsDbDesc => Some(PacketKind::DbDesc),
            InterfaceTraceOption::PacketsLsRequest => Some(PacketKind::LsRequest),
            InterfaceTraceOption::PacketsLsUpdate => Some(PacketKind::LsUpdate),
            InterfaceTraceOption::PacketsLsAck => Some(PacketKind::LsAck),
        }
    }

    fn packet_kind(&self) -> (r: Option<PacketKind>)
        ensures
            r == self.packets(),
    {
        match self {
            InterfaceTraceOption::PacketsAll => Some(PacketKind::All),
            InterfaceTraceOption::PacketsHello => Some(PacketKind::Hello),
            InterfaceTraceOption::PacketsDbDesc => Some(PacketKind::DbDesc),
            InterfaceTraceOption::PacketsLsRequest => Some(PacketKind::LsRequest),
            InterfaceTraceOption::PacketsLsUpdate => Some(PacketKind::LsUpdate),
            InterfaceTraceOption::PacketsLsAck => Some(PacketKind::LsAck),
        }
    }
}

/// The trace options of an interface, after a change of one of them.
pub open spec fn interface_trace_options_changed(
    c: InterfaceTraceOptions,
    option: InterfaceTraceOption,
    change: TraceFlagChange,
    dflt: TraceOptionPacketType,
) -> InterfaceTraceOptions {
    match option.packets() {
        Some(kind) => InterfaceTraceOptions { packets: packets_changed(c.packets, kind, change, dflt), ..c },
        None => c,
    }
}

/// Whether a change of one of the options has an effect to announce.
pub open spec fn interface_trace_options_notes(
    c: InterfaceTraceOptions,
    option: InterfaceTraceOption,
    change: TraceFlagChange,
) -> bool {
    match option.packets() {
        Some(kind) => slot_notes(packet_slot(c.packets, kind), change),
        None => !(change is Entry),
    }
}

fn apply_interface_trace_options(
    c: &mut InterfaceTraceOptions,
    option: InterfaceTraceOption,
    change: &TraceFlagChange,
    dflt: TraceOptionPacketType,
) -> (notes: bool)
    ensures
        *final(c) == interface_trace_options_changed(*old(c), option, *change, dflt),
        notes == interface_trace_options_notes(*old(c), option, *change),
{
    if let Some(kind) = option.packet_kind() {
        return apply_packets(&mut c.packets, kind, change, dflt);
    }
    false
}

/// The options on packets that are in force, given those of its own and those of the
/// instance.
pub open spec fn packets_in_force(own: TraceOptionPacket, instance: TraceOptionPacket) -> TraceOptionPacketResolved {
    TraceOptionPacketResolved {
        hello: resolved(own.hello, own.all, instance.hello, instance.all),
        dbdesc: resolved(own.dbdesc, own.all, instance.dbdesc, instance.all),
        lsreq: resolved(own.lsreq, own.all, instance.lsreq, instance.all),
        lsupd: resolved(own.lsupd, own.all, instance.lsupd, instance.all),
        lsack: resolved(own.lsack, own.all, instance.lsack, instance.all),
    }
}

fn resolve_packets(own: &TraceOptionPacket, instance: &TraceOptionPacket) -> (r: TraceOptionPacketResolved)
    ensures
        r == packets_in_force(*own, *instance),
{
    TraceOptionPacketResolved {
        hello: resolve(own.hello, own.all, instance.hello, instance.all),
        dbdesc: resolve(own.dbdesc, own.all, instance.dbdesc, instance.all),
        lsreq: resolve(own.lsreq, own.all, instance.lsreq, instance.all),
        lsupd: resolve(own.lsupd, own.all, instance.lsupd, instance.all),
        lsack: resolve(own.lsack, own.all, instance.lsack, instance.all),
    }
}

impl InterfaceCfg {
    /// Resolves packet trace options by merging interface-specific and
    /// instance-level options. Interface options override instance options,
    /// and per-packet options override "all" options.
    pub fn update_trace_options(&mut self, instance_trace_opts: &InstanceTraceOptions)
        ensures
            final(self)@ == trace_resolved(old(self)@, *instance_trace_opts),
    {
        self.trace_opts.packets_resolved = resolve_packets(&self.trace_opts.packets, &instance_trace_opts.packets);
    }
}

/// The configuration of an interface, with the packet trace options that are
/// in force.
pub open spec fn trace_resolved(c: InterfaceCfgView, t: InstanceTraceOptions) -> InterfaceCfgView {
    InterfaceCfgView {
        trace_opts: InterfaceTraceOptions {
            packets_resolved: packets_in_force(c.trace_opts.packets, t.packets),
            ..c.trace_opts
        },
        ..c
    }
}

#[derive(Clone, Copy, Debug, PartialEq, Eq, Structural)]
pub enum PacketType {
    Hello,
    DbDesc,
    LsRequest,
    LsUpdate,
    LsAck,
}

impl TraceOptionPacketResolved {
    /// The option on packets of one type.
    pub open spec fn on(self, pkt_type: PacketType) -> TraceOptionPacketType {
        match pkt_type {
            PacketType::Hello => self.hello,
            PacketType::DbDesc => self.dbdesc,
            PacketType::LsRequest => self.lsreq,
            PacketType::LsUpdate => self.lsupd,
            PacketType::LsAck => self.lsack,
        }
    }

    pub fn tx(&self, pkt_type: PacketType) -> (b: bool)
        ensures
            b == self.on(pkt_type).tx,
    {
        match pkt_type {
            PacketType::Hello => self.hello.tx,
            PacketType::DbDesc => self.dbdesc.tx,
            PacketType::LsRequest => self.lsreq.tx,
            PacketType::LsUpdate => self.lsupd.tx,
            PacketType::LsAck => self.lsack.tx,
        }
    }

    pub fn rx(&self, pkt_type: PacketType) -> (b: bool)
        ensures
            b == self.on(pkt_type).rx,
    {
        match pkt_type {
            PacketType::Hello => self.hello.rx,
            PacketType::DbDesc => self.dbdesc.rx,
            PacketType::LsRequest => self.lsreq.rx,
            PacketType::LsUpdate => self.lsupd.rx,
            PacketType::LsAck => self.lsack.rx,
        }
    }
}

// ===== virtual links =====

/// The name of the interface that stands for a virtual link.
pub open spec fn vlink_text(transit_area_id: Ipv4Addr, router_id: Ipv4Addr) -> Seq<char> {
    "vlink-"@ + ipv4_text(transit_area_id) + "-"@ + ipv4_text(router_id)
}

pub fn vlink_name(transit_area_id: Ipv4Addr, router_id: Ipv4Addr) -> (name: String)
    ensures
        name@ == vlink_text(transit_area_id, router_id),
{
    let mut name = owned("vlink-");
    push_ipv4(&mut name, transit_area_id);
    name.append("-");
    push_ipv4(&mut name, router_id);
    name
}

/// The configuration of a virtual link, after a change within it.
pub open spec fn vlink_entry_changed(
    c: InterfaceCfgView,
    q: Set<EventView>,
    area_idx: AreaIndex,
    iface_idx: InterfaceIndex,
    change: AreaVirtualLinkEntryChange,
) -> (InterfaceCfgView, Set<EventView>) {
    match change {
        AreaVirtualLinkEntryChange::HelloInterval(hello_interval) => (
            InterfaceCfgView { hello_interval, ..c },
            q.insert(
                EventView::InterfaceResetHelloInterval(area_idx, iface_idx),
            ).insert(EventView::InterfaceSyncHelloTx(area_idx, iface_idx)),
        ),
        AreaVirtualLinkEntryChange::DeadInterval(dead_interval) => (
            InterfaceCfgView { dead_interval, ..c },
            q.insert(
                EventView::InterfaceResetDeadInterval(area_idx, iface_idx),
            ).insert(EventView::InterfaceSyncHelloTx(area_idx, iface_idx)),
        ),
        AreaVirtualLinkEntryChange::RetransmitInterval(retransmit_interval) => (
            InterfaceCfgView { retransmit_interval, ..c },
            q,
        ),
        AreaVirtualLinkEntryChange::TransmitDelay(transmit_delay) => (InterfaceCfgView { transmit_delay, ..c }, q),
        AreaVirtualLinkEntryChange::Lls(enabled) => (InterfaceCfgView { lls_enabled: enabled, ..c }, q),
        AreaVirtualLinkEntryChange::Enabled(enabled) => (
            InterfaceCfgView { enabled, ..c },
            q.insert(EventView::InterfaceUpdate(area_idx, iface_idx)),
        ),
        AreaVirtualLinkEntryChange::AuthenticationOspfv2KeyChain(keychain)
        | AreaVirtualLinkEntryChange::AuthenticationOspfv3KeyChain(keychain) => (
            InterfaceCfgView { auth_keychain: opt_text(keychain), ..c },
            q.insert(EventView::InterfaceUpdateAuth(area_idx, iface_idx)),
        ),
        AreaVirtualLinkEntryChange::AuthenticationOspfv2KeyId(key_id) => (
            InterfaceCfgView { auth_keyid: key_id, ..c },
            q.insert(EventView::InterfaceUpdateAuth(area_idx, iface_idx)),
        ),
        AreaVirtualLinkEntryChange::AuthenticationOspfv3SaId(sa_id) => (
            InterfaceCfgView {
                auth_keyid: match sa_id {
                    Some(sa_id) => Some(sa_id as u32),
                    None => None,
                },
                ..c
            },
            q.insert(EventView::InterfaceUpdateAuth(area_idx, iface_idx)),
        ),
        AreaVirtualLinkEntryChange::AuthenticationOspfv2Key(key)
        | AreaVirtualLinkEntryChange::AuthenticationOspfv3Key(key) => (
            InterfaceCfgView { auth_key: opt_text(key), ..c },
            q.insert(EventView::InterfaceUpdateAuth(area_idx, iface_idx)),
        ),
        AreaVirtualLinkEntryChange::AuthenticationOspfv2CryptoAlgorithm(algo)
        | AreaVirtualLinkEntryChange::AuthenticationOspfv3CryptoAlgorithm(algo) => (
            InterfaceCfgView { auth_algo: algo, ..c },
            q.insert(EventView::InterfaceUpdateAuth(area_idx, iface_idx)),
        ),
    }
}

#[verifier::rlimit(100)]
fn apply_vlink_entry(
    cfg: &mut InterfaceCfg,
    area_idx: AreaIndex,
    iface_idx: InterfaceIndex,
    change: AreaVirtualLinkEntryChange,
    event_queue: &mut OrdSet<Event>,
)
    ensures
        (final(cfg)@, final(event_queue)@) == vlink_entry_changed(
            old(cfg)@,
            old(event_queue)@,
            area_idx,
            iface_idx,
            change,
        ),
{
    match change {
        AreaVirtualLinkEntryChange::HelloInterval(hello_interval) => {
            cfg.hello_interval = hello_interval;
            event_queue.insert(Event::InterfaceResetHelloInterval(area_idx, iface_idx));
            event_queue.insert(Event::InterfaceSyncHelloTx(area_idx, iface_idx));
        },
        AreaVirtualLinkEntryChange::DeadInterval(dead_interval) => {
            cfg.dead_interval = dead_interval;
            event_queue.insert(Event::InterfaceResetDeadInterval(area_idx, iface_idx));
            event_queue.insert(Event::InterfaceSyncHelloTx(area_idx, iface_idx));
        },
        AreaVirtualLinkEntryChange::RetransmitInterval(retransmit_interval) => {
            cfg.retransmit_interval = retransmit_interval;
        },
        AreaVirtualLinkEntryChange::TransmitDelay(transmit_delay) => {
            cfg.transmit_delay = transmit_delay;
        },
        AreaVirtualLinkEntryChange::Lls(enabled) => {
            cfg.lls_enabled = enabled;
        },
        AreaVirtualLinkEntryChange::Enabled(enabled) => {
            cfg.enabled = enabled;
            event_queue.insert(Event::InterfaceUpdate(area_idx, iface_idx));
        },
        AreaVirtualLinkEntryChange::AuthenticationOspfv2KeyChain(keychain)
        | AreaVirtualLinkEntryChange::AuthenticationOspfv3KeyChain(keychain) => {
            cfg.auth_keychain = keychain;
            event_queue.insert(Event::InterfaceUpdateAuth(area_idx, iface_idx));
        },
        AreaVirtualLinkEntryChange::AuthenticationOspfv2KeyId(key_id) => {
            cfg.auth_keyid = key_id;
            event_queue.insert(Event::InterfaceUpdateAuth(area_idx, iface_idx));
        },
        AreaVirtualLinkEntryChange::AuthenticationOspfv3SaId(sa_id) => {
            cfg.auth_keyid = match sa_id {
                Some(sa_id) => Some(sa_id as u32),
                None => None,
            };
            event_queue.insert(Event::InterfaceUpdateAuth(area_idx, iface_idx));
        },
        AreaVirtualLinkEntryChange::AuthenticationOspfv2Key(key)
        | AreaVirtualLinkEntryChange::AuthenticationOspfv3Key(key) => {
            cfg.auth_key = key;
            event_queue.insert(Event::InterfaceUpdateAuth(area_idx, iface_idx));
        },
        AreaVirtualLinkEntryChange::AuthenticationOspfv2CryptoAlgorithm(algo)
        | AreaVirtualLinkEntryChange::AuthenticationOspfv3CryptoAlgorithm(algo) => {
            cfg.auth_algo = algo;
            event_queue.insert(Event::InterfaceUpdateAuth(area_idx, iface_idx));
        },
    }
}

// ===== interfaces =====

/// The configured neighbors of an interface, after a change of one of them. A
/// change within one that does not exist cannot be applied.
pub open spec fn static_nbrs_changed(
    nbrs: Map<IpAddr, StaticNbr>,
    d: Defaults,
    identifier: IpAddr,
    change: StaticNeighborChange,
) -> Option<Map<IpAddr, StaticNbr>> {
    match change {
        StaticNeighborChange::Create => Some(nbrs.insert(identifier, StaticNbr::initial(d))),
        StaticNeighborChange::Delete => Some(nbrs.remove(identifier)),
        StaticNeighborChange::Entry(change) => if nbrs.contains_key(identifier) {
            let nbr = nbrs[identifier];
            Some(
                nbrs.insert(
                    identifier,
                    match change {
                        StaticNeighborEntryChange::Cost(cost) => StaticNbr { cost, ..nbr },
                        StaticNeighborEntryChange::PollInterval(poll_interval) => StaticNbr { poll_interval, ..nbr },
                        StaticNeighborEntryChange::Priority(priority) => StaticNbr { priority, ..nbr },
                    },
                ),
            )
        } else {
            None
        },
    }
}

fn apply_interface_static_neighbor(
    nbrs: &mut Table<IpAddr, StaticNbr>,
    defaults: &Defaults,
    identifier: IpAddr,
    change: StaticNeighborChange,
) -> (r: Result<(), ApplyError>)
    ensures
        match static_nbrs_changed(old(nbrs)@, *defaults, identifier, change) {
            Some(m) => r is Ok && final(nbrs)@ == m,
            None => r == Err::<(), ApplyError>(ApplyError::EntryNotFound) && final(nbrs)@ == old(nbrs)@,
        },
{
    match change {
        StaticNeighborChange::Create => {
            nbrs.insert(identifier, StaticNbr::new(defaults));
        },
        StaticNeighborChange::Delete => {
            nbrs.remove(&identifier);
        },
        StaticNeighborChange::Entry(change) => {
            let nbr = match nbrs.get_mut(&identifier) {
                Some(nbr) => nbr,
                None => {
                    return Err(ApplyError::EntryNotFound);
                },
            };
            match change {
                StaticNeighborEntryChange::Cost(cost) => {
                    nbr.cost = cost;
                },
                StaticNeighborEntryChange::PollInterval(poll_interval) => {
                    nbr.poll_interval = poll_interval;
                },
                StaticNeighborEntryChange::Priority(priority) => {
                    nbr.priority = priority;
                },
            }
        },
    }
    Ok(())
}

/// The configuration of an interface, after a change of one of its own values.
pub open spec fn interface_cfg_changed(
    c: InterfaceCfgView,
    q: Set<EventView>,
    own_instance_id: u8,
    area_idx: AreaIndex,
    iface_idx: InterfaceIndex,
    change: AreaInterfaceEntryChange,
) -> (InterfaceCfgView, Set<EventView>) {
    match change {
        AreaInterfaceEntryChange::InterfaceType(if_type) => (
            InterfaceCfgView { if_type, ..c },
            q.insert(EventView::InterfaceReset(area_idx, iface_idx)),
        ),
        AreaInterfaceEntryChange::Passive(passive) => (
            InterfaceCfgView { passive, ..c },
            q.insert(EventView::InterfaceReset(area_idx, iface_idx)),
        ),
        AreaInterfaceEntryChange::Priority(priority) => (
            InterfaceCfgView { priority, ..c },
            q.insert(
                EventView::InterfacePriorityChange(area_idx, iface_idx),
            ).insert(EventView::InterfaceSyncHelloTx(area_idx, iface_idx)),
        ),
        AreaInterfaceEntryChange::NodeFlag(node_flag) => (
            InterfaceCfgView { node_flag, ..c },
            q.insert(EventView::AreaInterfaceTraceOptionsFlagChange(area_idx)),
        ),
        AreaInterfaceEntryChange::AnycastFlag(anycast_flag) => match anycast_flag {
            Some(anycast_flag) => (
                InterfaceCfgView { anycast_flag, ..c },
                q.insert(EventView::AreaInterfaceTraceOptionsFlagChange(area_idx)),
            ),
            None => (c, q),
        },
        AreaInterfaceEntryChange::BfdEnabled(enabled) => (
            InterfaceCfgView { bfd_enabled: enabled, ..c },
            q.insert(EventView::InterfaceBfdChange(iface_idx)),
        ),
        AreaInterfaceEntryChange::BfdLocalMultiplier(local_multiplier) => (
            InterfaceCfgView { bfd_params: ClientCfg { local_multiplier, ..c.bfd_params }, ..c },
            q.insert(EventView::InterfaceBfdChange(iface_idx)),
        ),
        AreaInterfaceEntryChange::BfdDesiredMinTxInterval(min_tx) => match min_tx {
            Some(min_tx) => (
                InterfaceCfgView { bfd_params: ClientCfg { min_tx, ..c.bfd_params }, ..c },
                q.insert(EventView::InterfaceBfdChange(iface_idx)),
            ),
            None => (c, q),
        },
        AreaInterfaceEntryChange::BfdRequiredMinRxInterval(min_rx) => match min_rx {
            Some(min_rx) => (
                InterfaceCfgView { bfd_params: ClientCfg { min_rx, ..c.bfd_params }, ..c },
                q.insert(EventView::InterfaceBfdChange(iface_idx)),
            ),
            None => (c, q),
        },
        AreaInterfaceEntryChange::BfdMinInterval(min_interval) => match min_interval {
            Some(min_interval) => (
                InterfaceCfgView {
                    bfd_params: ClientCfg { min_tx: min_interval, min_rx: min_interval, ..c.bfd_params },
                    ..c
                },
                q.insert(EventView::InterfaceBfdChange(iface_idx)),
            ),
            None => (c, q),
        },
        AreaInterfaceEntryChange::HelloInterval(hello_interval) => (
            InterfaceCfgView { hello_interval, ..c },
            q.insert(
                EventView::InterfaceResetHelloInterval(area_idx, iface_idx),
            ).insert(EventView::InterfaceSyncHelloTx(area_idx, iface_idx)),
        ),
        AreaInterfaceEntryChange::DeadInterval(dead_interval) => (
            InterfaceCfgView { dead_interval, ..c },
            q.insert(
                EventView::InterfaceResetDeadInterval(area_idx, iface_idx),
            ).insert(EventView::InterfaceSyncHelloTx(area_idx, iface_idx)),
        ),
        AreaInterfaceEntryChange::RetransmitInterval(retransmit_interval) => (
            InterfaceCfgView { retransmit_interval, ..c },
            q,
        ),
        AreaInterfaceEntryChange::TransmitDelay(transmit_delay) => (InterfaceCfgView { transmit_delay, ..c }, q),
        AreaInterfaceEntryChange::Lls(enabled) => (InterfaceCfgView { lls_enabled: enabled, ..c }, q),
        AreaInterfaceEntryChange::Enabled(enabled) => (
            InterfaceCfgView { enabled, ..c },
            q.insert(EventView::InterfaceUpdate(area_idx, iface_idx)),
        ),
        AreaInterfaceEntryChange::Cost(cost) => (
            InterfaceCfgView { cost, ..c },
            q.insert(EventView::InterfaceCostChange(area_idx)),
        ),
        AreaInterfaceEntryChange::MtuIgnore(mtu_ignore) => (InterfaceCfgView { mtu_ignore, ..c }, q),
        AreaInterfaceEntryChange::InstanceId(instance_id) => (
            InterfaceCfgView {
                instance_id: InheritableConfig {
                    explicit: instance_id,
                    resolved: match instance_id {
                        Some(instance_id) => instance_id,
                        None => own_instance_id,
                    },
                },
                ..c
            },
            q.insert(EventView::InterfaceSyncHelloTx(area_idx, iface_idx)),
        ),
        AreaInterfaceEntryChange::AuthenticationOspfv2KeyChain(keychain)
        | AreaInterfaceEntryChange::AuthenticationOspfv3KeyChain(keychain) => (
            InterfaceCfgView { auth_keychain: opt_text(keychain), ..c },
            q.insert(EventView::InterfaceUpdateAuth(area_idx, iface_idx)),
        ),
        AreaInterfaceEntryChange::AuthenticationOspfv2KeyId(key_id) => (
            InterfaceCfgView { auth_keyid: key_id, ..c },
            q.insert(EventView::InterfaceUpdateAuth(area_idx, iface_idx)),
        ),
        AreaInterfaceEntryChange::AuthenticationOspfv3SaId(sa_id) => (
            InterfaceCfgView {
                auth_keyid: match sa_id {
                    Some(sa_id) => Some(sa_id as u32),
                    None => None,
                },
                ..c
            },
            q.insert(EventView::InterfaceUpdateAuth(area_idx, iface_idx)),
        ),
        AreaInterfaceEntryChange::AuthenticationOspfv2Key(key)
        | AreaInterfaceEntryChange::AuthenticationOspfv3Key(key) => (
            InterfaceCfgView { auth_key: opt_text(key), ..c },
            q.insert(EventView::InterfaceUpdateAuth(area_idx, iface_idx)),
        ),
        AreaInterfaceEntryChange::AuthenticationOspfv2CryptoAlgorithm(algo)
        | AreaInterfaceEntryChange::AuthenticationOspfv3CryptoAlgorithm(algo) => (
            InterfaceCfgView { auth_algo: algo, ..c },
            q.insert(EventView::InterfaceUpdateAuth(area_idx, iface_idx)),
        ),
        _ => (c, q),
    }
}

#[verifier::rlimit(100)]
fn apply_interface_cfg(
    cfg: &mut InterfaceCfg,
    own_instance_id: u8,
    area_idx: AreaIndex,
    iface_idx: InterfaceIndex,
    change: AreaInterfaceEntryChange,
    event_queue: &mut OrdSet<Event>,
)
    ensures
        (final(cfg)@, final(event_queue)@) == interface_cfg_changed(
            old(cfg)@,
            old(event_queue)@,
            own_instance_id,
            area_idx,
            iface_idx,
            change,
        ),
{
    match change {
        AreaInterfaceEntryChange::InterfaceType(if_type) => {
            cfg.if_type = if_type;
            event_queue.insert(Event::InterfaceReset(area_idx, iface_idx));
        },
        AreaInterfaceEntryChange::Passive(passive) => {
            cfg.passive = passive;
            event_queue.insert(Event::InterfaceReset(area_idx, iface_idx));
        },
        AreaInterfaceEntryChange::Priority(priority) => {
            cfg.priority = priority;
            event_queue.insert(Event::InterfacePriorityChange(area_idx, iface_idx));
            event_queue.insert(Event::InterfaceSyncHelloTx(area_idx, iface_idx));
        },
        AreaInterfaceEntryChange::NodeFlag(node_flag) => {
            cfg.node_flag = node_flag;
            event_queue.insert(Event::AreaInterfaceTraceOptionsFlagChange(area_idx));
        },
        AreaInterfaceEntryChange::AnycastFlag(anycast_flag) => {
            if let Some(anycast_flag) = anycast_flag {
                cfg.anycast_flag = anycast_flag;
                event_queue.insert(Event::AreaInterfaceTraceOptionsFlagChange(area_idx));
            }
        },
        AreaInterfaceEntryChange::BfdEnabled(enabled) => {
            cfg.bfd_enabled = enabled;
            event_queue.insert(Event::InterfaceBfdChange(iface_idx));
        },
        AreaInterfaceEntryChange::BfdLocalMultiplier(local_multiplier) => {
            cfg.bfd_params.local_multiplier = local_multiplier;
            event_queue.insert(Event::InterfaceBfdChange(iface_idx));
        },
        AreaInterfaceEntryChange::BfdDesiredMinTxInterval(min_tx) => {
            if let Some(min_tx) = min_tx {
                cfg.bfd_params.min_tx = min_tx;
                event_queue.insert(Event::InterfaceBfdChange(iface_idx));
            }
        },
        AreaInterfaceEntryChange::BfdRequiredMinRxInterval(min_rx) => {
            if let Some(min_rx) = min_rx {
                cfg.bfd_params.min_rx = min_rx;
                event_queue.insert(Event::InterfaceBfdChange(iface_idx));
            }
        },
        AreaInterfaceEntryChange::BfdMinInterval(min_interval) => {
            if let Some(min_interval) = min_interval {
                cfg.bfd_params.min_tx = min_interval;
                cfg.bfd_params.min_rx = min_interval;
                event_queue.insert(Event::InterfaceBfdChange(iface_idx));
            }
        },
        AreaInterfaceEntryChange::HelloInterval(hello_interval) => {
            cfg.hello_interval = hello_interval;
            event_queue.insert(Event::InterfaceResetHelloInterval(area_idx, iface_idx));
            event_queue.insert(Event::InterfaceSyncHelloTx(area_idx, iface_idx));
        },
        AreaInterfaceEntryChange::DeadInterval(dead_interval) => {
            cfg.dead_interval = dead_interval;
            event_queue.insert(Event::InterfaceResetDeadInterval(area_idx, iface_idx));
            event_queue.insert(Event::InterfaceSyncHelloTx(area_idx, iface_idx));
        },
        AreaInterfaceEntryChange::RetransmitInterval(retransmit_interval) => {
            cfg.retransmit_interval = retransmit_interval;
        },
        AreaInterfaceEntryChange::TransmitDelay(transmit_delay) => {
            cfg.transmit_delay = transmit_delay;
        },
        AreaInterfaceEntryChange::Lls(enabled) => {
            cfg.lls_enabled = enabled;
        },
        AreaInterfaceEntryChange::Enabled(enabled) => {
            cfg.enabled = enabled;
            event_queue.insert(Event::InterfaceUpdate(area_idx, iface_idx));
        },
        AreaInterfaceEntryChange::Cost(cost) => {
            cfg.cost = cost;
            event_queue.insert(Event::InterfaceCostChange(area_idx));
        },
        AreaInterfaceEntryChange::MtuIgnore(mtu_ignore) => {
            cfg.mtu_ignore = mtu_ignore;
        },
        AreaInterfaceEntryChange::InstanceId(instance_id) => {
            cfg.instance_id.explicit = instance_id;
            cfg.instance_id.resolved = match instance_id {
                Some(instance_id) => instance_id,
                None => own_instance_id,
            };
            event_queue.insert(Event::InterfaceSyncHelloTx(area_idx, iface_idx));
        },
        AreaInterfaceEntryChange::AuthenticationOspfv2KeyChain(keychain)
        | AreaInterfaceEntryChange::AuthenticationOspfv3KeyChain(keychain) => {
            cfg.auth_keychain = keychain;
            event_queue.insert(Event::InterfaceUpdateAuth(area_idx, iface_idx));
        },
        AreaInterfaceEntryChange::AuthenticationOspfv2KeyId(key_id) => {
            cfg.auth_keyid = key_id;
            event_queue.insert(Event::InterfaceUpdateAuth(area_idx, iface_idx));
        },
        AreaInterfaceEntryChange::AuthenticationOspfv3SaId(sa_id) => {
            cfg.auth_keyid = match sa_id {
                Some(sa_id) => Some(sa_id as u32),
                None => None,
            };
            event_queue.insert(Event::InterfaceUpdateAuth(area_idx, iface_idx));
        },
        AreaInterfaceEntryChange::AuthenticationOspfv2Key(key)
        | AreaInterfaceEntryChange::AuthenticationOspfv3Key(key) => {
            cfg.auth_key = key;
            event_queue.insert(Event::InterfaceUpdateAuth(area_idx, iface_idx));
        },
        AreaInterfaceEntryChange::AuthenticationOspfv2CryptoAlgorithm(algo)
        | AreaInterfaceEntryChange::AuthenticationOspfv3CryptoAlgorithm(algo) => {
            cfg.auth_algo = algo;
            event_queue.insert(Event::InterfaceUpdateAuth(area_idx, iface_idx));
        },
        _ => {},
    }
}

/// What a change within an interface takes from the instance.
#[derive(Clone, Copy, Debug, PartialEq, Eq, Structural)]
pub struct InterfaceContext {
    pub defaults: Defaults,
    pub version: Version,
    pub instance_id: u8,
    pub area_idx: AreaIndex,
    pub iface_idx: InterfaceIndex,
}

/// The configuration of an interface, after a change within it. Neighbors of
/// the address family that the version does not run over are ignored.
pub open spec fn interface_entry_changed(
    c: InterfaceCfgView,
    q: Set<EventView>,
    x: InterfaceContext,
    change: AreaInterfaceEntryChange,
) -> Option<(InterfaceCfgView, Set<EventView>)> {
    match change {
        AreaInterfaceEntryChange::StaticNeighborsNeighbor(identifier, change) => if x.version.takes_neighbor(
            identifier,
        ) {
            match static_nbrs_changed(c.static_nbrs, x.defaults, identifier, change) {
                Some(static_nbrs) => Some((InterfaceCfgView { static_nbrs, ..c }, q)),
                None => None,
            }
        } else {
            Some((c, q))
        },
        AreaInterfaceEntryChange::TraceOptionsFlag(option, change) => Some(
            (
                InterfaceCfgView {
                    trace_opts: interface_trace_options_changed(c.trace_opts, option, change, x.defaults.trace),
                    ..c
                },
                if interface_trace_options_notes(c.trace_opts, option, change) {
                    q.insert(EventView::InterfaceUpdateTraceOptions(x.iface_idx))
                } else {
                    q
                },
            ),
        ),
        change => Some(interface_cfg_changed(c, q, x.instance_id, x.area_idx, x.iface_idx, change)),
    }
}

fn apply_interface_entry(
    cfg: &mut InterfaceCfg,
    x: &InterfaceContext,
    change: AreaInterfaceEntryChange,
    event_queue: &mut OrdSet<Event>,
) -> (r: Result<(), ApplyError>)
    ensures
        match interface_entry_changed(old(cfg)@, old(event_queue)@, *x, change) {
            Some(s) => r is Ok && (final(cfg)@, final(event_queue)@) == s,
            None => r == Err::<(), ApplyError>(ApplyError::EntryNotFound) && final(cfg)@ == old(cfg)@
                && final(event_queue)@ == old(event_queue)@,
        },
{
    match change {
        AreaInterfaceEntryChange::StaticNeighborsNeighbor(identifier, change) => {
            if !x.version.accepts_neighbor(&identifier) {
                return Ok(());
            }
            return apply_interface_static_neighbor(&mut cfg.static_nbrs, &x.defaults, identifier, change);
        },
        AreaInterfaceEntryChange::TraceOptionsFlag(option, change) => {
            if apply_interface_trace_options(&mut cfg.trace_opts, option, &change, x.defaults.trace) {
                event_queue.insert(Event::InterfaceUpdateTraceOptions(x.iface_idx));
            }
        },
        change => {
            apply_interface_cfg(cfg, x.instance_id, x.area_idx, x.iface_idx, change, event_queue);
        },
    }
    Ok(())
}

// ===== lookup =====

/// Whether the interface is the one of that name in the area.
pub open spec fn is_named(i: InterfaceView, area_idx: AreaIndex, name: Seq<char>) -> bool {
    i.area == area_idx && i.name == name
}

/// Whether the entry is the first one of an interface of that name in the
/// area.
pub open spec fn first_named(
    interfaces: Map<InterfaceIndex, InterfaceView>,
    area_idx: AreaIndex,
    name: Seq<char>,
    k: InterfaceIndex,
) -> bool {
    &&& interfaces.contains_key(k)
    &&& is_named(interfaces[k], area_idx, name)
    &&& forall|j: InterfaceIndex| #[trigger]
        interfaces.contains_key(j) && j < k ==> !is_named(interfaces[j], area_idx, name)
}

/// The interface of that name in the area.
pub open spec fn interface_named(
    interfaces: Map<InterfaceIndex, InterfaceView>,
    area_idx: AreaIndex,
    name: Seq<char>,
) -> Option<InterfaceIndex> {
    if exists|k: InterfaceIndex| first_named(interfaces, area_idx, name, k) {
        Some(choose|k: InterfaceIndex| first_named(interfaces, area_idx, name, k))
    } else {
        None
    }
}

/// Whether the entry is the first one of an area with that ID.
pub open spec fn first_area(areas: Map<AreaIndex, AreaView>, area_id: Ipv4Addr, k: AreaIndex) -> bool {
    &&& areas.contains_key(k)
    &&& areas[k].id == area_id
    &&& forall|j: AreaIndex| #[trigger] areas.contains_key(j) && j < k ==> areas[j].id != area_id
}

/// The area with that ID.
pub open spec fn area_with_id(areas: Map<AreaIndex, AreaView>, area_id: Ipv4Addr) -> Option<AreaIndex> {
    if exists|k: AreaIndex| first_area(areas, area_id, k) {
        Some(choose|k: AreaIndex| first_area(areas, area_id, k))
    } else {
        None
    }
}

fn find_area(areas: &Table<AreaIndex, Area>, area_id: Ipv4Addr) -> (r: Option<AreaIndex>)
    ensures
        r == area_with_id(views(areas@), area_id),
        r matches Some(k) ==> areas@.contains_key(k),
{
    let ghost m = views(areas@);
    let n: usize = areas.len();
    proof {
        ascending(*areas);
    }
    let mut i: usize = 0;
    while i < n
        invariant
            i <= n,
            n == areas.keys().len(),
            areas.keys_sorted(),
            m == views(areas@),
            forall|a: int, b: int|
                0 <= a < b < areas.keys().len() ==> #[trigger] areas.keys()[a] < #[trigger] areas.keys()[b],
            forall|k: u32| #[trigger]
                areas@.contains_key(k) ==> exists|x: int| 0 <= x < areas.keys().len() && areas.keys()[x] == k,
            forall|x: int| 0 <= x < i ==> areas@[#[trigger] areas.keys()[x]].id != area_id,
        decreases n - i,
    {
        if areas.value_at(i).id == area_id {
            let k = *areas.key_at(i);
            assert(first_area(m, area_id, k)) by {
                assert forall|j: AreaIndex| #[trigger] m.contains_key(j) && j < k implies m[j].id != area_id by {
                    assert(areas@.contains_key(j));
                    let x = choose|x: int| 0 <= x < areas.keys().len() && areas.keys()[x] == j;
                    if x > i {
                        assert(areas.keys()[i as int] < areas.keys()[x]);
                    }
                }
            }
            assert(area_with_id(m, area_id) == Some(k)) by {
                let c = choose|c: AreaIndex| first_area(m, area_id, c);
                assert(first_area(m, area_id, c));
                assert(m.contains_key(c) && m.contains_key(k));
            }
            return Some(k);
        }
        i = i + 1;
    }
    proof {
        assert forall|k: AreaIndex| !first_area(m, area_id, k) by {
            if m.contains_key(k) {
                assert(areas@.contains_key(k));
                let x = choose|x: int| 0 <= x < areas.keys().len() && areas.keys()[x] == k;
                assert(areas@[areas.keys()[x]].id != area_id);
            }
        }
    }
    None
}

fn find_interface(interfaces: &Table<InterfaceIndex, Interface>, area_idx: AreaIndex, name: &String) -> (r: Option<
    InterfaceIndex,
>)
    ensures
        r == interface_named(views(interfaces@), area_idx, name@),
        r matches Some(k) ==> interfaces@.contains_key(k),
{
    let ghost m = views(interfaces@);
    let n: usize = interfaces.len();
    proof {
        ascending(*interfaces);
    }
    let mut i: usize = 0;
    while i < n
        invariant
            i <= n,
            n == interfaces.keys().len(),
            interfaces.keys_sorted(),
            m == views(interfaces@),
            forall|a: int, b: int|
                0 <= a < b < interfaces.keys().len() ==> #[trigger] interfaces.keys()[a]
                    < #[trigger] interfaces.keys()[b],
            forall|k: u32| #[trigger]
                interfaces@.contains_key(k) ==> exists|x: int|
                    0 <= x < interfaces.keys().len() && interfaces.keys()[x] == k,
            forall|x: int| 0 <= x < i ==> !is_named(interfaces@[#[trigger] interfaces.keys()[x]]@, area_idx, name@),
        decreases n - i,
    {
        let iface = interfaces.value_at(i);
        if iface.area == area_idx && iface.name == *name {
            let k = *interfaces.key_at(i);
            assert(first_named(m, area_idx, name@, k)) by {
                assert forall|j: InterfaceIndex| #[trigger] m.contains_key(j) && j < k implies !is_named(
                    m[j],
                    area_idx,
                    name@,
                ) by {
                    assert(interfaces@.contains_key(j));
                    let x = choose|x: int| 0 <= x < interfaces.keys().len() && interfaces.keys()[x] == j;
                    if x > i {
                        assert(interfaces.keys()[i as int] < interfaces.keys()[x]);
                    }
                }
            }
            assert(interface_named(m, area_idx, name@) == Some(k)) by {
                let c = choose|c: InterfaceIndex| first_named(m, area_idx, name@, c);
                assert(first_named(m, area_idx, name@, c));
                assert(m.contains_key(c) && m.contains_key(k));
            }
            return Some(k);
        }
        i = i + 1;
    }
    proof {
        assert forall|k: InterfaceIndex| !first_named(m, area_idx, name@, k) by {
            if m.contains_key(k) {
                assert(interfaces@.contains_key(k));
                let x = choose|x: int| 0 <= x < interfaces.keys().len() && interfaces.keys()[x] == k;
                assert(!is_named(interfaces@[interfaces.keys()[x]]@, area_idx, name@));
            }
        }
    }
    None
}

impl Interface {
    /// An interface that was just created.
    pub open spec fn created(
        d: Defaults,
        area: AreaIndex,
        name: Seq<char>,
        vlink: Option<VirtualLinkKey>,
        if_type: InterfaceType,
    ) -> InterfaceView {
        InterfaceView {
            area,
            name,
            vlink,
            config: InterfaceCfgView { if_type, ..InterfaceCfg::initial(d) },
            down: true,
            hello_interval: false,
            wait_timer: false,
            neighbors: Seq::empty(),
        }
    }

    pub fn new(
        defaults: &Defaults,
        area: AreaIndex,
        name: String,
        vlink: Option<VirtualLinkKey>,
        if_type: InterfaceType,
    ) -> (r: Interface)
        ensures
            r@ == Interface::created(*defaults, area, name@, vlink, if_type),
    {
        let mut config = InterfaceCfg::new(defaults);
        config.if_type = if_type;
        Interface {
            area,
            name,
            vlink,
            config,
            down: true,
            hello_interval: false,
            wait_timer: false,
            neighbors: Vec::new(),
        }
    }
}

/// An instance, after a change of a virtual link of an area. A virtual link
/// that is to be deleted goes when the queued event is processed.
pub open spec fn vlink_changed(
    i: InstanceView,
    q: Set<EventView>,
    area_idx: AreaIndex,
    key: VirtualLinkKey,
    change: AreaVirtualLinkChange,
) -> Option<(InstanceView, Set<EventView>)> {
    let name = vlink_text(key.transit_area_id, key.router_id);
    match change {
        AreaVirtualLinkChange::Create => Some(
            (
                InstanceView {
                    interfaces: i.interfaces.insert(
                        i.next_interface,
                        Interface::created(i.defaults, area_idx, name, Some(key), InterfaceType::VirtualLink),
                    ),
                    next_interface: (i.next_interface + 1) as InterfaceIndex,
                    ..i
                },
                q.insert(EventView::UpdateVirtualLinks).insert(
                    EventView::InterfaceUpdateTraceOptions(i.next_interface),
                ),
            ),
        ),
        AreaVirtualLinkChange::Delete => match interface_named(i.interfaces, area_idx, name) {
            Some(k) => Some((i, q.insert(EventView::InterfaceDelete(area_idx, k)))),
            None => None,
        },
        AreaVirtualLinkChange::Entry(change) => match interface_named(i.interfaces, area_idx, name) {
            Some(k) => {
                let r = vlink_entry_changed(i.interfaces[k].config, q, area_idx, k, change);
                Some(
                    (
                        InstanceView {
                            interfaces: i.interfaces.insert(k, InterfaceView { config: r.0, ..i.interfaces[k] }),
                            ..i
                        },
                        r.1,
                    ),
                )
            },
            None => None,
        },
    }
}

fn apply_virtual_link(
    instance: &mut Instance,
    area_idx: AreaIndex,
    transit_area_id: Ipv4Addr,
    router_id: Ipv4Addr,
    change: AreaVirtualLinkChange,
    event_queue: &mut OrdSet<Event>,
) -> (r: Result<(), ApplyError>)
    requires
        change is Create ==> old(instance).next_interface < InterfaceIndex::MAX,
    ensures
        match vlink_changed(
            old(instance)@,
            old(event_queue)@,
            area_idx,
            VirtualLinkKey { transit_area_id, router_id },
            change,
        ) {
            Some(s) => r is Ok && (final(instance)@, final(event_queue)@) == s,
            None => r == Err::<(), ApplyError>(ApplyError::EntryNotFound) && final(instance)@ == old(instance)@
                && final(event_queue)@ == old(event_queue)@,
        },
{
    let name = vlink_name(transit_area_id, router_id);
    let ghost before = instance.interfaces@;
    match change {
        AreaVirtualLinkChange::Create => {
            let vlink_key = VirtualLinkKey { transit_area_id, router_id };
            let iface_idx = instance.next_interface;
            let iface = Interface::new(
                &instance.defaults,
                area_idx,
                name,
                Some(vlink_key),
                InterfaceType::VirtualLink,
            );
            proof {
                views_insert(before, iface_idx, iface);
            }
            instance.interfaces.insert(iface_idx, iface);
            instance.next_interface = iface_idx + 1;

            event_queue.insert(Event::UpdateVirtualLinks);
            event_queue.insert(Event::InterfaceUpdateTraceOptions(iface_idx));
        },
        AreaVirtualLinkChange::Delete => {
            let iface_idx = match find_interface(&instance.interfaces, area_idx, &name) {
                Some(iface_idx) => iface_idx,
                None => {
                    return Err(ApplyError::EntryNotFound);
                },
            };
            event_queue.insert(Event::InterfaceDelete(area_idx, iface_idx));
        },
        AreaVirtualLinkChange::Entry(change) => {
            let iface_idx = match find_interface(&instance.interfaces, area_idx, &name) {
                Some(iface_idx) => iface_idx,
                None => {
                    return Err(ApplyError::EntryNotFound);
                },
            };
            if let Some(iface) = instance.interfaces.get_mut(&iface_idx) {
                apply_vlink_entry(&mut iface.config, area_idx, iface_idx, change, event_queue);
                proof {
                    views_insert(before, iface_idx, *iface);
                }
            }
        },
    }
    Ok(())
}

/// An instance, after a change of an interface of an area. An interface that
/// is to be deleted goes when the queued event is processed.
pub open spec fn interface_changed(
    i: InstanceView,
    q: Set<EventView>,
    area_idx: AreaIndex,
    name: Seq<char>,
    change: AreaInterfaceChange,
) -> Option<(InstanceView, Set<EventView>)> {
    match change {
        AreaInterfaceChange::Create => Some(
            (
                InstanceView {
                    interfaces: i.interfaces.insert(
                        i.next_interface,
                        Interface::created(i.defaults, area_idx, name, None, i.defaults.if_type),
                    ),
                    next_interface: (i.next_interface + 1) as InterfaceIndex,
                    ..i
                },
                q.insert(EventView::InstanceUpdate).insert(
                    EventView::InterfaceUpdate(area_idx, i.next_interface),
                ).insert(EventView::InterfaceUpdateTraceOptions(i.next_interface)).insert(
                    EventView::InterfaceIbusSub(name),
                ),
            ),
        ),
        AreaInterfaceChange::Delete => match interface_named(i.interfaces, area_idx, name) {
            Some(k) => Some(
                (i, q.insert(EventView::InstanceUpdate).insert(EventView::InterfaceDelete(area_idx, k))),
            ),
            None => None,
        },
        AreaInterfaceChange::Entry(change) => match interface_named(i.interfaces, area_idx, name) {
            Some(k) => {
                let x = InterfaceContext {
                    defaults: i.defaults,
                    version: i.version,
                    instance_id: i.config.instance_id,
                    area_idx,
                    iface_idx: k,
                };
                match interface_entry_changed(i.interfaces[k].config, q, x, change) {
                    Some(r) => Some(
                        (
                            InstanceView {
                                interfaces: i.interfaces.insert(k, InterfaceView { config: r.0, ..i.interfaces[k] }),
                                ..i
                            },
                            r.1,
                        ),
                    ),
                    None => None,
                }
            },
            None => None,
        },
    }
}

fn apply_interface(
    instance: &mut Instance,
    area_idx: AreaIndex,
    ifname: String,
    change: AreaInterfaceChange,
    event_queue: &mut OrdSet<Event>,
) -> (r: Result<(), ApplyError>)
    requires
        change is Create ==> old(instance).next_interface < InterfaceIndex::MAX,
    ensures
        match interface_changed(old(instance)@, old(event_queue)@, area_idx, ifname@, change) {
            Some(s) => r is Ok && (final(instance)@, final(event_queue)@) == s,
            None => r == Err::<(), ApplyError>(ApplyError::EntryNotFound) && final(instance)@ == old(instance)@
                && final(event_queue)@ == old(event_queue)@,
        },
{
    let ghost before = instance.interfaces@;
    match change {
        AreaInterfaceChange::Create => {
            let iface_idx = instance.next_interface;
            let name = ifname.clone();
            let iface = Interface::new(&instance.defaults, area_idx, name, None, instance.defaults.if_type);
            proof {
                views_insert(before, iface_idx, iface);
            }
            instance.interfaces.insert(iface_idx, iface);
            instance.next_interface = iface_idx + 1;

            event_queue.insert(Event::InstanceUpdate);
            event_queue.insert(Event::InterfaceUpdate(area_idx, iface_idx));
            event_queue.insert(Event::InterfaceUpdateTraceOptions(iface_idx));
            event_queue.insert(Event::InterfaceIbusSub(ifname));
        },
        AreaInterfaceChange::Delete => {
            let iface_idx = match find_interface(&instance.interfaces, area_idx, &ifname) {
                Some(iface_idx) => iface_idx,
                None => {
                    return Err(ApplyError::EntryNotFound);
                },
            };
            event_queue.insert(Event::InstanceUpdate);
            event_queue.insert(Event::InterfaceDelete(area_idx, iface_idx));
        },
        AreaInterfaceChange::Entry(change) => {
            let iface_idx = match find_interface(&instance.interfaces, area_idx, &ifname) {
                Some(iface_idx) => iface_idx,
                None => {
                    return Err(ApplyError::EntryNotFound);
                },
            };
            let x = InterfaceContext {
                defaults: instance.defaults,
                version: instance.version,
                instance_id: instance.config.instance_id,
                area_idx,
                iface_idx,
            };
            if let Some(iface) = instance.interfaces.get_mut(&iface_idx) {
                let ghost i0 = *iface;
                let r = apply_interface_entry(&mut iface.config, &x, change, event_queue);
                proof {
                    views_insert(before, iface_idx, *iface);
                    assert(views(before).insert(iface_idx, i0@) =~= views(before));
                }
                return r;
            }
        },
    }
    Ok(())
}

// ===== areas =====

/// The address ranges of an area, after a change of one of them. A change
/// within one that does not exist cannot be applied.
pub open spec fn ranges_changed(
    ranges: Map<IpNetwork, RangeCfg>,
    d: Defaults,
    prefix: IpNetwork,
    change: AreaRangeChange,
) -> Option<Map<IpNetwork, RangeCfg>> {
    match change {
        AreaRangeChange::Create => Some(ranges.insert(prefix, RangeCfg::initial(d))),
        AreaRangeChange::Delete => Some(ranges.remove(prefix)),
        AreaRangeChange::Entry(change) => if ranges.contains_key(prefix) {
            let range = ranges[prefix];
            Some(
                ranges.insert(
                    prefix,
                    match change {
                        AreaRangeEntryChange::Advertise(advertise) => RangeCfg { advertise, ..range },
                        AreaRangeEntryChange::Cost(cost) => RangeCfg { cost, ..range },
                    },
                ),
            )
        } else {
            None
        },
    }
}

fn apply_area_range(
    area: &mut Area,
    defaults: &Defaults,
    prefix: IpNetwork,
    change: AreaRangeChange,
    event_queue: &mut OrdSet<Event>,
) -> (r: Result<(), ApplyError>)
    ensures
        match ranges_changed(old(area)@.ranges, *defaults, prefix, change) {
            Some(ranges) => r is Ok && final(area)@ == (AreaView { ranges, ..old(area)@ }) && final(event_queue)@
                == old(event_queue)@.insert(EventView::UpdateSummaries),
            None => r == Err::<(), ApplyError>(ApplyError::EntryNotFound) && final(area)@ == old(area)@
                && final(event_queue)@ == old(event_queue)@,
        },
{
    match change {
        AreaRangeChange::Create => {
            area.ranges.insert(prefix, RangeCfg::new(defaults));
        },
        AreaRangeChange::Delete => {
            area.ranges.remove(&prefix);
        },
        AreaRangeChange::Entry(change) => {
            let range = match area.ranges.get_mut(&prefix) {
                Some(range) => range,
                None => {
                    return Err(ApplyError::EntryNotFound);
                },
            };
            match change {
                AreaRangeEntryChange::Advertise(advertise) => {
                    range.advertise = advertise;
                },
                AreaRangeEntryChange::Cost(cost) => {
                    range.cost = cost;
                },
            }
        },
    }
    event_queue.insert(Event::UpdateSummaries);
    Ok(())
}

/// An area, after a change of one of its own values or of an address range.
/// With the type of the area, what depends on it returns to its default.
/// Ranges of an address family that the version does not route are ignored.
pub open spec fn area_own_changed(
    a: AreaView,
    q: Set<EventView>,
    d: Defaults,
    version: Version,
    area_idx: AreaIndex,
    change: AreaEntryChange,
) -> Option<(AreaView, Set<EventView>)> {
    match change {
        AreaEntryChange::AreaType(area_type) => Some(
            (
                AreaView {
                    config: AreaCfg { area_type, summary: d.area_summary, default_cost: d.area_default_cost },
                    ..a
                },
                q.insert(EventView::AreaTypeChange(area_idx)).insert(EventView::AreaSyncHelloTx(area_idx)),
            ),
        ),
        AreaEntryChange::Summary(Some(summary)) => Some(
            (AreaView { config: AreaCfg { summary, ..a.config }, ..a }, q.insert(EventView::UpdateSummaries)),
        ),
        AreaEntryChange::DefaultCost(Some(default_cost)) => Some(
            (AreaView { config: AreaCfg { default_cost, ..a.config }, ..a }, q.insert(EventView::UpdateSummaries)),
        ),
        AreaEntryChange::Range(prefix, change) => if version.takes_prefix(prefix) {
            match ranges_changed(a.ranges, d, prefix, change) {
                Some(ranges) => Some((AreaView { ranges, ..a }, q.insert(EventView::UpdateSummaries))),
                None => None,
            }
        } else {
            Some((a, q))
        },
        _ => Some((a, q)),
    }
}

fn apply_area_own(
    area: &mut Area,
    defaults: &Defaults,
    version: Version,
    area_idx: AreaIndex,
    change: AreaEntryChange,
    event_queue: &mut OrdSet<Event>,
) -> (r: Result<(), ApplyError>)
    ensures
        match area_own_changed(old(area)@, old(event_queue)@, *defaults, version, area_idx, change) {
            Some(s) => r is Ok && (final(area)@, final(event_queue)@) == s,
            None => r == Err::<(), ApplyError>(ApplyError::EntryNotFound) && final(area)@ == old(area)@
                && final(event_queue)@ == old(event_queue)@,
        },
{
    match change {
        AreaEntryChange::AreaType(area_type) => {
            area.config.area_type = area_type;
            area.config.summary = defaults.area_summary;
            area.config.default_cost = defaults.area_default_cost;

            event_queue.insert(Event::AreaTypeChange(area_idx));
            event_queue.insert(Event::AreaSyncHelloTx(area_idx));
        },
        AreaEntryChange::Summary(summary) => {
            if let Some(summary) = summary {
                area.config.summary = summary;
                event_queue.insert(Event::UpdateSummaries);
            }
        },
        AreaEntryChange::DefaultCost(default_cost) => {
            if let Some(default_cost) = default_cost {
                area.config.default_cost = default_cost;
                event_queue.insert(Event::UpdateSummaries);
            }
        },
        AreaEntryChange::Range(prefix, change) => {
            if !version.accepts_prefix(&prefix) {
                return Ok(());
            }
            return apply_area_range(area, defaults, prefix, change, event_queue);
        },
        _ => {},
    }
    Ok(())
}

/// An instance, after a change of one of its areas. An area that is to be
/// deleted goes when the queued event is processed.
pub open spec fn area_changed(i: InstanceView, q: Set<EventView>, area_id: Ipv4Addr, change: AreaChange) -> Option<
    (InstanceView, Set<EventView>),
> {
    match change {
        AreaChange::Create => Some(
            (
                InstanceView {
                    areas: i.areas.insert(
                        i.next_area,
                        AreaView {
                            id: area_id,
                            config: AreaCfg::initial(i.defaults),
                            ranges: Map::empty(),
                            active: false,
                        },
                    ),
                    next_area: (i.next_area + 1) as AreaIndex,
                    ..i
                },
                q.insert(EventView::AreaCreate(i.next_area)),
            ),
        ),
        AreaChange::Delete => match area_with_id(i.areas, area_id) {
            Some(a) => Some((i, q.insert(EventView::AreaDelete(a)).insert(EventView::RerunSpf))),
            None => None,
        },
        AreaChange::Entry(change) => match area_with_id(i.areas, area_id) {
            Some(a) => match change {
                AreaEntryChange::VirtualLink { transit_area_id, router_id, change } => vlink_changed(
                    i,
                    q,
                    a,
                    VirtualLinkKey { transit_area_id, router_id },
                    change,
                ),
                AreaEntryChange::Interface(name, change) => interface_changed(i, q, a, name@, change),
                change => match area_own_changed(i.areas[a], q, i.defaults, i.version, a, change) {
                    Some(r) => Some((InstanceView { areas: i.areas.insert(a, r.0), ..i }, r.1)),
                    None => None,
                },
            },
            None => None,
        },
    }
}

/// Whether there is an index left for what a change of an area creates.
pub open spec fn area_index_left(i: InstanceView, change: AreaChange) -> bool {
    match change {
        AreaChange::Create => i.next_area < AreaIndex::MAX,
        AreaChange::Entry(AreaEntryChange::VirtualLink { change: AreaVirtualLinkChange::Create, .. }) => {
            i.next_interface < InterfaceIndex::MAX
        },
        AreaChange::Entry(AreaEntryChange::Interface(_, AreaInterfaceChange::Create)) => i.next_interface
            < InterfaceIndex::MAX,
        _ => true,
    }
}

fn apply_area(
    instance: &mut Instance,
    area_id: Ipv4Addr,
    change: AreaChange,
    event_queue: &mut OrdSet<Event>,
) -> (r: Result<(), ApplyError>)
    requires
        area_index_left(old(instance)@, change),
    ensures
        match area_changed(old(instance)@, old(event_queue)@, area_id, change) {
            Some(s) => r is Ok && (final(instance)@, final(event_queue)@) == s,
            None => r == Err::<(), ApplyError>(ApplyError::EntryNotFound) && final(instance)@ == old(instance)@
                && final(event_queue)@ == old(event_queue)@,
        },
{
    let ghost before = instance.areas@;
    match change {
        AreaChange::Create => {
            let area_idx = instance.next_area;
            let area = Area {
                id: area_id,
                config: AreaCfg::new(&instance.defaults),
                ranges: Table::new(),
                active: false,
            };
            proof {
                views_insert(before, area_idx, area);
            }
            instance.areas.insert(area_idx, area);
            instance.next_area = area_idx + 1;
            event_queue.insert(Event::AreaCreate(area_idx));
        },
        AreaChange::Delete => {
            let area_idx = match find_area(&instance.areas, area_id) {
                Some(area_idx) => area_idx,
                None => {
                    return Err(ApplyError::EntryNotFound);
                },
            };
            event_queue.insert(Event::AreaDelete(area_idx));
            event_queue.insert(Event::RerunSpf);
        },
        AreaChange::Entry(change) => {
            let area_idx = match find_area(&instance.areas, area_id) {
                Some(area_idx) => area_idx,
                None => {
                    return Err(ApplyError::EntryNotFound);
                },
            };
            match change {
                AreaEntryChange::VirtualLink { transit_area_id, router_id, change } => {
                    return apply_virtual_link(instance, area_idx, transit_area_id, router_id, change, event_queue);
                },
                AreaEntryChange::Interface(name, change) => {
                    return apply_interface(instance, area_idx, name, change, event_queue);
                },
                change => {
                    let defaults = instance.defaults;
                    let version = instance.version;
                    if let Some(area) = instance.areas.get_mut(&area_idx) {
                        let ghost a0 = *area;
                        let r = apply_area_own(area, &defaults, version, area_idx, change, event_queue);
                        proof {
                            views_insert(before, area_idx, *area);
                            assert(views(before).insert(area_idx, a0@) =~= views(before));
                        }
                        return r;
                    }
                },
            }
        },
    }
    Ok(())
}

// ===== instance =====

/// The Router ID in use: the configured one before that of the system.
pub open spec fn router_id_used(configured: Option<Ipv4Addr>, system: Option<Ipv4Addr>) -> Option<Ipv4Addr> {
    match configured {
        Some(router_id) => Some(router_id),
        None => system,
    }
}

fn router_id_in_use(configured: Option<Ipv4Addr>, system: Option<Ipv4Addr>) -> (r: Option<Ipv4Addr>)
    ensures
        r == router_id_used(configured, system),
{
    match configured {
        Some(router_id) => Some(router_id),
        None => system,
    }
}

fn same_router_id(a: Option<Ipv4Addr>, b: Option<Ipv4Addr>) -> (r: bool)
    ensures
        r == (a == b),
{
    match (a, b) {
        (Some(a), Some(b)) => a == b,
        (None, None) => true,
        _ => false,
    }
}

/// The configuration of an instance, after a change of one of its own values.
pub open spec fn instance_cfg_changed(
    c: InstanceCfgView,
    q: Set<EventView>,
    dflt_preference: u8,
    system_router_id: Option<Ipv4Addr>,
    change: ConfigChange,
) -> (InstanceCfgView, Set<EventView>) {
    match change {
        ConfigChange::AddressFamily(af) => (InstanceCfgView { af, ..c }, q.insert(EventView::InstanceReset)),
        ConfigChange::Enabled(enabled) => (InstanceCfgView { enabled, ..c }, q.insert(EventView::InstanceUpdate)),
        ConfigChange::ExplicitRouterId(router_id) => (
            InstanceCfgView { router_id, ..c },
            if router_id_used(router_id, system_router_id) != router_id_used(c.router_id, system_router_id) {
                q.insert(EventView::InstanceReset).insert(EventView::InstanceUpdate)
            } else {
                q
            },
        ),
        ConfigChange::PreferenceAll(preference) => {
            let preference = match preference {
                Some(preference) => preference,
                None => dflt_preference,
            };
            (
                InstanceCfgView {
                    preference: Preference {
                        intra_area: preference,
                        inter_area: preference,
                        external: preference,
                    },
                    ..c
                },
                q.insert(EventView::ReinstallRoutes),
            )
        },
        ConfigChange::PreferenceIntraArea(preference) => {
            let preference = match preference {
                Some(preference) => preference,
                None => dflt_preference,
            };
            (
                InstanceCfgView { preference: Preference { intra_area: preference, ..c.preference }, ..c },
                q.insert(EventView::ReinstallRoutes),
            )
        },
        ConfigChange::PreferenceInterArea(preference) => {
            let preference = match preference {
                Some(preference) => preference,
                None => dflt_preference,
            };
            (
                InstanceCfgView { preference: Preference { inter_area: preference, ..c.preference }, ..c },
                q.insert(EventView::ReinstallRoutes),
            )
        },
        ConfigChange::PreferenceInternal(preference) => {
            let preference = match preference {
                Some(preference) => preference,
                None => dflt_preference,
            };
            (
                InstanceCfgView {
                    preference: Preference { intra_area: preference, inter_area: preference, ..c.preference },
                    ..c
                },
                q.insert(EventView::ReinstallRoutes),
            )
        },
        ConfigChange::PreferenceExternal(preference) => {
            let preference = match preference {
                Some(preference) => preference,
                None => dflt_preference,
            };
            (
                InstanceCfgView { preference: Preference { external: preference, ..c.preference }, ..c },
                q.insert(EventView::ReinstallRoutes),
            )
        },
        ConfigChange::GracefulRestartHelperEnabled(enabled) => (
            InstanceCfgView { gr: InstanceGrCfg { helper_enabled: enabled, ..c.gr }, ..c },
            q.insert(EventView::GrHelperChange),
        ),
        ConfigChange::GracefulRestartHelperStrictLsaChecking(strict_lsa_checking) => (
            InstanceCfgView {
                gr: InstanceGrCfg { helper_strict_lsa_checking: strict_lsa_checking, ..c.gr },
                ..c
            },
            q,
        ),
        ConfigChange::SpfControlPaths(max_paths) => (InstanceCfgView { max_paths, ..c }, q.insert(EventView::RerunSpf)),
        ConfigChange::SpfControlIetfSpfDelayInitialDelay(initial_delay) => (
            InstanceCfgView { spf_initial_delay: initial_delay, ..c },
            q,
        ),
        ConfigChange::SpfControlIetfSpfDelayShortDelay(short_delay) => (
            InstanceCfgView { spf_short_delay: short_delay, ..c },
            q,
        ),
        ConfigChange::SpfControlIetfSpfDelayLongDelay(long_delay) => (
            InstanceCfgView { spf_long_delay: long_delay, ..c },
            q,
        ),
        ConfigChange::SpfControlIetfSpfDelayHoldDown(hold_down) => (
            InstanceCfgView { spf_hold_down: hold_down, ..c },
            q,
        ),
        ConfigChange::SpfControlIetfSpfDelayTimeToLearn(time_to_learn) => (
            InstanceCfgView { spf_time_to_learn: time_to_learn, ..c },
            q,
        ),
        ConfigChange::StubRouterAlways(op) => (
            InstanceCfgView { stub_router: op is Create, ..c },
            q.insert(EventView::StubRouterChange),
        ),
        ConfigChange::ExtendedLsaSupport(extended_lsa) => match extended_lsa {
            Some(extended_lsa) => (InstanceCfgView { extended_lsa, ..c }, q.insert(EventView::InstanceReset)),
            None => (c, q),
        },
        ConfigChange::SegmentRoutingEnabled(sr_enabled) => (
            InstanceCfgView { sr_enabled, ..c },
            q.insert(EventView::SrEnableChange(sr_enabled)),
        ),
        ConfigChange::InstanceId(instance_id) => match instance_id {
            Some(instance_id) => (InstanceCfgView { instance_id, ..c }, q.insert(EventView::InstanceIdUpdate)),
            None => (c, q),
        },
        ConfigChange::BierMtId(mt_id) => (
            InstanceCfgView { bier: BierOspfCfg { mt_id: mt_id.unwrap_or(0), ..c.bier }, ..c },
            q,
        ),
        ConfigChange::BierBierEnable(enable) => (
            InstanceCfgView { bier: BierOspfCfg { enabled: enable, ..c.bier }, ..c },
            q.insert(EventView::BierEnableChange(enable)),
        ),
        ConfigChange::BierBierAdvertise(advertise) => (
            InstanceCfgView { bier: BierOspfCfg { advertise, ..c.bier }, ..c },
            q,
        ),
        ConfigChange::BierBierReceive(receive) => (InstanceCfgView { bier: BierOspfCfg { receive, ..c.bier }, ..c }, q),
        _ => (c, q),
    }
}

#[verifier::rlimit(100)]
fn apply_instance_cfg(
    cfg: &mut InstanceCfg,
    dflt_preference: u8,
    system_router_id: Option<Ipv4Addr>,
    change: ConfigChange,
    event_queue: &mut OrdSet<Event>,
)
    ensures
        (final(cfg)@, final(event_queue)@) == instance_cfg_changed(
            old(cfg)@,
            old(event_queue)@,
            dflt_preference,
            system_router_id,
            change,
        ),
{
    match change {
        ConfigChange::AddressFamily(af) => {
            cfg.af = af;
            event_queue.insert(Event::InstanceReset);
        },
        ConfigChange::Enabled(enabled) => {
            cfg.enabled = enabled;
            event_queue.insert(Event::InstanceUpdate);
        },
        ConfigChange::ExplicitRouterId(router_id) => {
            let old_router_id = router_id_in_use(cfg.router_id, system_router_id);
            cfg.router_id = router_id;

            // The new Router ID applies immediately.
            if !same_router_id(router_id_in_use(router_id, system_router_id), old_router_id) {
                event_queue.insert(Event::InstanceReset);
                event_queue.insert(Event::InstanceUpdate);
            }
        },
        ConfigChange::PreferenceAll(preference) => {
            let preference = match preference {
                Some(preference) => preference,
                None => dflt_preference,
            };
            cfg.preference.intra_area = preference;
            cfg.preference.inter_area = preference;
            cfg.preference.external = preference;
            event_queue.insert(Event::ReinstallRoutes);
        },
        ConfigChange::PreferenceIntraArea(preference) => {
            let preference = match preference {
                Some(preference) => preference,
                None => dflt_preference,
            };
            cfg.preference.intra_area = preference;
            event_queue.insert(Event::ReinstallRoutes);
        },
        ConfigChange::PreferenceInterArea(preference) => {
            let preference = match preference {
                Some(preference) => preference,
                None => dflt_preference,
            };
            cfg.preference.inter_area = preference;
            event_queue.insert(Event::ReinstallRoutes);
        },
        ConfigChange::PreferenceInternal(preference) => {
            let preference = match preference {
                Some(preference) => preference,
                None => dflt_preference,
            };
            cfg.preference.intra_area = preference;
            cfg.preference.inter_area = preference;
            event_queue.insert(Event::ReinstallRoutes);
        },
        ConfigChange::PreferenceExternal(preference) => {
            let preference = match preference {
                Some(preference) => preference,
                None => dflt_preference,
            };
            cfg.preference.external = preference;
            event_queue.insert(Event::ReinstallRoutes);
        },
        ConfigChange::GracefulRestartHelperEnabled(enabled) => {
            cfg.gr.helper_enabled = enabled;
            event_queue.insert(Event::GrHelperChange);
        },
        ConfigChange::GracefulRestartHelperStrictLsaChecking(strict_lsa_checking) => {
            cfg.gr.helper_strict_lsa_checking = strict_lsa_checking;
        },
        ConfigChange::SpfControlPaths(max_paths) => {
            cfg.max_paths = max_paths;
            event_queue.insert(Event::RerunSpf);
        },
        ConfigChange::SpfControlIetfSpfDelayInitialDelay(initial_delay) => {
            cfg.spf_initial_delay = initial_delay;
        },
        ConfigChange::SpfControlIetfSpfDelayShortDelay(short_delay) => {
            cfg.spf_short_delay = short_delay;
        },
        ConfigChange::SpfControlIetfSpfDelayLongDelay(long_delay) => {
            cfg.spf_long_delay = long_delay;
        },
        ConfigChange::SpfControlIetfSpfDelayHoldDown(hold_down) => {
            cfg.spf_hold_down = hold_down;
        },
        ConfigChange::SpfControlIetfSpfDelayTimeToLearn(time_to_learn) => {
            cfg.spf_time_to_learn = time_to_learn;
        },
        ConfigChange::StubRouterAlways(op) => {
            cfg.stub_router = match op {
                ConfigOp::Create => true,
                ConfigOp::Delete => false,
            };
            event_queue.insert(Event::StubRouterChange);
        },
        ConfigChange::ExtendedLsaSupport(extended_lsa) => {
            if let Some(extended_lsa) = extended_lsa {
                cfg.extended_lsa = extended_lsa;
                event_queue.insert(Event::InstanceReset);
            }
        },
        ConfigChange::SegmentRoutingEnabled(sr_enabled) => {
            cfg.sr_enabled = sr_enabled;
            event_queue.insert(Event::SrEnableChange(sr_enabled));
        },
        ConfigChange::InstanceId(instance_id) => {
            if let Some(instance_id) = instance_id {
                cfg.instance_id = instance_id;
                event_queue.insert(Event::InstanceIdUpdate);
            }
        },
        ConfigChange::BierMtId(mt_id) => {
            cfg.bier.mt_id = mt_id.unwrap_or(0);
        },
        ConfigChange::BierBierEnable(enable) => {
            cfg.bier.enabled = enable;
            event_queue.insert(Event::BierEnableChange(enable));
        },
        ConfigChange::BierBierAdvertise(advertise) => {
            cfg.bier.advertise = advertise;
        },
        ConfigChange::BierBierReceive(receive) => {
            cfg.bier.receive = receive;
        },
        _ => {},
    }
}

/// An instance and the queued events, after a change of the configuration.
/// Changes of entries that do not exist cannot be applied.
pub open spec fn instance_changed(i: InstanceView, q: Set<EventView>, change: ConfigChange) -> Option<
    (InstanceView, Set<EventView>),
> {
    match change {
        ConfigChange::NodeTag(tag, op) => Some(
            (
                InstanceView {
                    config: InstanceCfgView { node_tags: member(i.config.node_tags, op, tag), ..i.config },
                    ..i
                },
                q.insert(EventView::NodeTagsChange),
            ),
        ),
        ConfigChange::TraceOptionsFlag(option, change) => Some(
            (
                InstanceView {
                    config: InstanceCfgView {
                        trace_opts: trace_options_changed(i.config.trace_opts, option, change, i.defaults.trace),
                        ..i.config
                    },
                    ..i
                },
                if trace_options_notes(i.config.trace_opts, option, change) {
                    q.insert(EventView::UpdateTraceOptions)
                } else {
                    q
                },
            ),
        ),
        ConfigChange::Area(area_id, change) => area_changed(i, q, area_id, change),
        change => {
            let r = instance_cfg_changed(i.config, q, i.defaults.preference, i.system_router_id, change);
            Some((InstanceView { config: r.0, ..i }, r.1))
        },
    }
}

/// Whether there is an index left for what a change creates.
pub open spec fn index_left(i: InstanceView, change: ConfigChange) -> bool {
    match change {
        ConfigChange::Area(_, change) => area_index_left(i, change),
        _ => true,
    }
}

/// Applies a change of the configuration, and queues what is to be done about
/// it.
pub fn apply_instance(instance: &mut Instance, change: ConfigChange, event_queue: &mut OrdSet<Event>) -> (r: Result<
    (),
    ApplyError,
>)
    requires
        index_left(old(instance)@, change),
    ensures
        match instance_changed(old(instance)@, old(event_queue)@, change) {
            Some(s) => r is Ok && (final(instance)@, final(event_queue)@) == s,
            None => r == Err::<(), ApplyError>(ApplyError::EntryNotFound) && final(instance)@ == old(instance)@
                && final(event_queue)@ == old(event_queue)@,
        },
{
    match change {
        ConfigChange::NodeTag(tag, op) => {
            match op {
                ConfigOp::Create => {
                    instance.config.node_tags.insert(tag);
                },
                ConfigOp::Delete => {
                    instance.config.node_tags.remove(&tag);
                },
            }
            event_queue.insert(Event::NodeTagsChange);
        },
        ConfigChange::TraceOptionsFlag(option, change) => {
            if apply_trace_options(&mut instance.config.trace_opts, option, &change, instance.defaults.trace) {
                event_queue.insert(Event::UpdateTraceOptions);
            }
        },
        ConfigChange::Area(area_id, change) => {
            return apply_area(instance, area_id, change, event_queue);
        },
        change => {
            apply_instance_cfg(
                &mut instance.config,
                instance.defaults.preference,
                instance.system_router_id,
                change,
                event_queue,
            );
        },
    }
    Ok(())
}

// ===== events =====

/// Events on which LSAs are (re)originated.
#[derive(Clone, Copy, Debug, PartialEq, Eq, Structural)]
pub enum LsaOriginateEvent {
    AreaStart(Ipv4Addr),
    InterfaceCostChange(Ipv4Addr),
    InterfaceFlagChange(Ipv4Addr),
    StubRouterChange,
    GrHelperChange,
    SrEnableChange,
    BierEnableChange,
    NodeTagsChange,
}

/// What is done about a neighbor.
#[derive(Clone, Copy, Debug, PartialEq, Eq, Structural)]
pub enum NeighborAction {
    Kill,
    InactivityTimerStart,
    BfdRegister,
    BfdUnregister,
    AdjSidAdd,
    AdjSidDelAll,
}

impl NeighborAction {
    /// Whether it is done about a neighbor in that state: timers are restarted
    /// where they run, and BFD and segment routing are for adjacencies.
    pub open spec fn concerns(self, n: NeighborState) -> bool {
        match self {
            NeighborAction::Kill => true,
            NeighborAction::InactivityTimerStart => n.inactivity_timer,
            _ => n.two_way,
        }
    }

    fn applies(&self, n: &NeighborState) -> (b: bool)
        ensures
            b == self.concerns(*n),
    {
        match self {
            NeighborAction::Kill => true,
            NeighborAction::InactivityTimerStart => n.inactivity_timer,
            _ => n.two_way,
        }
    }
}

/// What the handling of an event leaves to be done.
pub enum Action {
    InstanceReset,
    InstanceUpdate,
    LsaOriginate(LsaOriginateEvent),
    /// To the neighbor with that ID on an interface.
    Neighbor(NeighborAction, InterfaceIndex, u64),
    /// Removes all AS-scoped LSAs.
    LsdbReset,
    SyncHelloTx(AreaIndex, InterfaceIndex),
    InterfaceUpdate(AreaIndex, InterfaceIndex),
    InterfaceUnsub(String),
    /// The interface goes down for administrative reasons.
    InterfaceDown(AreaIndex, InterfaceIndex),
    /// Removes the nexthops over an interface from all routes.
    NexthopsRemove(InterfaceIndex),
    InterfaceReset(AreaIndex, InterfaceIndex),
    HelloIntervalStart(AreaIndex, InterfaceIndex),
    WaitTimerStart(AreaIndex, InterfaceIndex),
    /// Runs the election of the Designated Router again.
    NbrChange(AreaIndex, InterfaceIndex),
    AuthUpdate(InterfaceIndex),
    InterfaceSub(String, Option<AddressFamily>),
    /// Ends the helping of all restarting neighbors.
    GrHelperExit,
    BierPurge,
    /// Tells the SPF delay state machine of a change of the configuration.
    SpfConfigChange,
    VirtualLinksUpdate,
    SummariesUpdate,
    RoutesReinstall,
}

pub enum ActionView {
    InstanceReset,
    InstanceUpdate,
    LsaOriginate(LsaOriginateEvent),
    Neighbor(NeighborAction, InterfaceIndex, u64),
    LsdbReset,
    SyncHelloTx(AreaIndex, InterfaceIndex),
    InterfaceUpdate(AreaIndex, InterfaceIndex),
    InterfaceUnsub(Seq<char>),
    InterfaceDown(AreaIndex, InterfaceIndex),
    NexthopsRemove(InterfaceIndex),
    InterfaceReset(AreaIndex, InterfaceIndex),
    HelloIntervalStart(AreaIndex, InterfaceIndex),
    WaitTimerStart(AreaIndex, InterfaceIndex),
    NbrChange(AreaIndex, InterfaceIndex),
    AuthUpdate(InterfaceIndex),
    InterfaceSub(Seq<char>, Option<AddressFamily>),
    GrHelperExit,
    BierPurge,
    SpfConfigChange,
    VirtualLinksUpdate,
    SummariesUpdate,
    RoutesReinstall,
}

impl View for Action {
    type V = ActionView;

    open spec fn view(&self) -> ActionView {
        match *self {
            Action::InstanceReset => ActionView::InstanceReset,
            Action::InstanceUpdate => ActionView::InstanceUpdate,
            Action::LsaOriginate(e) => ActionView::LsaOriginate(e),
            Action::Neighbor(what, k, id) => ActionView::Neighbor(what, k, id),
            Action::LsdbReset => ActionView::LsdbReset,
            Action::SyncHelloTx(a, k) => ActionView::SyncHelloTx(a, k),
            Action::InterfaceUpdate(a, k) => ActionView::InterfaceUpdate(a, k),
            Action::InterfaceUnsub(name) => ActionView::InterfaceUnsub(name@),
            Action::InterfaceDown(a, k) => ActionView::InterfaceDown(a, k),
            Action::NexthopsRemove(k) => ActionView::NexthopsRemove(k),
            Action::InterfaceReset(a, k) => ActionView::InterfaceReset(a, k),
            Action::HelloIntervalStart(a, k) => ActionView::HelloIntervalStart(a, k),
            Action::WaitTimerStart(a, k) => ActionView::WaitTimerStart(a, k),
            Action::NbrChange(a, k) => ActionView::NbrChange(a, k),
            Action::AuthUpdate(k) => ActionView::AuthUpdate(k),
            Action::InterfaceSub(name, af) => ActionView::InterfaceSub(name@, af),
            Action::GrHelperExit => ActionView::GrHelperExit,
            Action::BierPurge => ActionView::BierPurge,
            Action::SpfConfigChange => ActionView::SpfConfigChange,
            Action::VirtualLinksUpdate => ActionView::VirtualLinksUpdate,
            Action::SummariesUpdate => ActionView::SummariesUpdate,
            Action::RoutesReinstall => ActionView::RoutesReinstall,
        }
    }
}

pub open spec fn acts(s: Seq<Action>) -> Seq<ActionView> {
    Seq::new(s.len(), |j: int| s[j]@)
}

fn push(actions: &mut Vec<Action>, action: Action)
    ensures
        acts(final(actions)@) == acts(old(actions)@).push(action@),
{
    let ghost before = actions@;
    actions.push(action);
    assert(acts(actions@) =~= acts(before).push(action@));
}

fn one(action: Action) -> (r: Vec<Action>)
    ensures
        acts(r@) == seq![action@],
{
    let mut r: Vec<Action> = Vec::new();
    r.push(action);
    assert(acts(r@) =~= seq![action@]);
    r
}

fn nothing() -> (r: Vec<Action>)
    ensures
        acts(r@) == Seq::<ActionView>::empty(),
{
    let r: Vec<Action> = Vec::new();
    assert(acts(r@) =~= Seq::<ActionView>::empty());
    r
}

/// What is done about each neighbor of an interface that it concerns.
pub open spec fn neighbor_fn(what: NeighborAction, k: InterfaceIndex) -> spec_fn(NeighborState) -> Option<ActionView> {
    |n: NeighborState|
        if what.concerns(n) {
            Some(ActionView::Neighbor(what, k, n.id))
        } else {
            None
        }
}

pub open spec fn neighbor_actions(what: NeighborAction, k: InterfaceIndex, neighbors: Seq<NeighborState>) -> Seq<
    ActionView,
> {
    filter_map(neighbors, neighbor_fn(what, k))
}

fn push_neighbors(actions: &mut Vec<Action>, what: NeighborAction, k: InterfaceIndex, neighbors: &Vec<NeighborState>)
    ensures
        acts(final(actions)@) == acts(old(actions)@) + neighbor_actions(what, k, neighbors@),
{
    let ghost before = acts(actions@);
    let ghost f = neighbor_fn(what, k);
    let mut j: usize = 0;
    assert(neighbors@.take(0) =~= Seq::empty());
    assert(acts(actions@) =~= before + Seq::<ActionView>::empty());
    while j < neighbors.len()
        invariant
            j <= neighbors@.len(),
            f == neighbor_fn(what, k),
            acts(actions@) == before + filter_map(neighbors@.take(j as int), f),
        decreases neighbors@.len() - j,
    {
        proof {
            filter_map_step(neighbors@, j as int, f);
        }
        let n = &neighbors[j];
        if what.applies(n) {
            push(actions, Action::Neighbor(what, k, n.id));
        }
        assert(acts(actions@) =~= before + filter_map(neighbors@.take(j + 1), f));
        j = j + 1;
    }
    assert(neighbors@.take(j as int) =~= neighbors@);
}

/// The interfaces of an area, in the order of their indexes.
pub open spec fn member_fn(interfaces: Map<InterfaceIndex, InterfaceView>, area_idx: AreaIndex) -> spec_fn(
    InterfaceIndex,
) -> Option<InterfaceIndex> {
    |k: InterfaceIndex|
        if interfaces[k].area == area_idx {
            Some(k)
        } else {
            None
        }
}

impl Instance {
    pub open spec fn members(self, area_idx: AreaIndex) -> Seq<InterfaceIndex> {
        filter_map(self.interfaces.keys(), member_fn(self@.interfaces, area_idx))
    }

    fn area_interfaces(&self, area_idx: AreaIndex) -> (r: Vec<InterfaceIndex>)
        ensures
            self.interfaces.keys_sorted(),
            r@ == self.members(area_idx),
            forall|j: int|
                0 <= j < r@.len() ==> #[trigger] self.interfaces@.contains_key(r@[j]) && self.interfaces@[r@[j]].area
                    == area_idx,
            forall|k: InterfaceIndex| #[trigger]
                self.interfaces@.contains_key(k) && self.interfaces@[k].area == area_idx ==> r@.contains(k),
    {
        let ghost f = member_fn(self@.interfaces, area_idx);
        let ghost keys = self.interfaces.keys();
        let n: usize = self.interfaces.len();
        proof {
            ascending(self.interfaces);
        }
        let mut r: Vec<InterfaceIndex> = Vec::new();
        let mut j: usize = 0;
        assert(keys.take(0) =~= Seq::empty());
        while j < n
            invariant
                j <= n,
                n == self.interfaces.keys().len(),
                keys == self.interfaces.keys(),
                f == member_fn(self@.interfaces, area_idx),
                r@ == filter_map(keys.take(j as int), f),
                forall|x: int|
                    0 <= x < r@.len() ==> #[
                        trigger
                    ] self.interfaces@.contains_key(r@[x]) && self.interfaces@[r@[x]].area
                        == area_idx,
                forall|x: int|
                    0 <= x < j && self.interfaces@[#[trigger] keys[x]].area == area_idx ==> r@.contains(keys[x]),
            decreases n - j,
        {
            proof {
                filter_map_step(keys, j as int, f);
            }
            let ghost r0 = r@;
            let iface = self.interfaces.value_at(j);
            if iface.area == area_idx {
                r.push(*self.interfaces.key_at(j));
                assert forall|x: int| 0 <= x < j + 1 && self.interfaces@[#[trigger] keys[x]].area == area_idx implies r@.contains(
                    keys[x],
                ) by {
                    if x == j {
                        assert(r@[r0.len() as int] == keys[x]);
                    } else {
                        assert(r0.contains(keys[x]));
                        let y = choose|y: int| 0 <= y < r0.len() && r0[y] == keys[x];
                        assert(r@[y] == keys[x]);
                    }
                }
            }
            j = j + 1;
        }
        assert(keys.take(j as int) =~= keys);
        r
    }
}

pub open spec fn kill_fn(i: InstanceView) -> spec_fn(InterfaceIndex) -> Seq<ActionView> {
    |k: InterfaceIndex| neighbor_actions(NeighborAction::Kill, k, i.interfaces[k].neighbors)
}

pub open spec fn sync_fn(area_idx: AreaIndex) -> spec_fn(InterfaceIndex) -> Seq<ActionView> {
    |k: InterfaceIndex| seq![ActionView::SyncHelloTx(area_idx, k)]
}

pub open spec fn adj_sid_fn(i: InstanceView, what: NeighborAction) -> spec_fn(InterfaceIndex) -> Seq<ActionView> {
    |k: InterfaceIndex| neighbor_actions(what, k, i.interfaces[k].neighbors)
}

/// What is done when an interface is deleted while the instance is up.
pub open spec fn delete_actions(i: InstanceView, area_idx: AreaIndex, k: InterfaceIndex) -> Seq<ActionView> {
    if i.up {
        (if i.interfaces[k].vlink is Some {
            Seq::empty()
        } else {
            seq![ActionView::InterfaceUnsub(i.interfaces[k].name)]
        }).push(ActionView::InterfaceDown(area_idx, k)).push(ActionView::NexthopsRemove(k))
    } else {
        Seq::empty()
    }
}

pub open spec fn delete_fn(i: InstanceView, area_idx: AreaIndex) -> spec_fn(InterfaceIndex) -> Seq<ActionView> {
    |k: InterfaceIndex| delete_actions(i, area_idx, k)
}

/// Hello packets follow the configuration, on the interfaces of an area.
pub open spec fn sync_actions(i: Instance, area_idx: AreaIndex) -> Seq<ActionView> {
    if i.up {
        flat_map(i.members(area_idx), sync_fn(area_idx))
    } else {
        Seq::empty()
    }
}

pub open spec fn sync_area_fn(i: Instance) -> spec_fn(AreaIndex) -> Seq<ActionView> {
    |a: AreaIndex| sync_actions(i, a)
}

pub open spec fn adj_sid_area_fn(i: Instance, what: NeighborAction) -> spec_fn(AreaIndex) -> Seq<ActionView> {
    |a: AreaIndex| flat_map(i.members(a), adj_sid_fn(i@, what))
}

/// Whether some active area is of the normal type.
pub open spec fn has_normal_area(areas: Map<AreaIndex, AreaView>) -> bool {
    exists|a: AreaIndex| #[trigger] areas.contains_key(a) && areas[a].config.area_type is Normal && areas[a].active
}

/// The addresses of interfaces that the instance asks for. OSPFv3 supports both
/// IPv4 and IPv6 but runs over IPv6 transport: when routing IPv4, both IPv4 and
/// IPv6 interface addresses are required.
pub open spec fn subscribed_family(version: Version, af: AddressFamily) -> Option<AddressFamily> {
    if version is Ospfv3 && af is Ipv4 {
        None
    } else {
        Some(af)
    }
}

/// Whether what the event speaks of exists, as far as it is looked at.
pub open spec fn event_valid(i: InstanceView, e: EventView) -> bool {
    match e {
        EventView::AreaCreate(a) | EventView::AreaDelete(a) => i.areas.contains_key(a),
        EventView::InterfaceDelete(a, k) => i.areas.contains_key(a) && i.interfaces.contains_key(k),
        EventView::AreaTypeChange(a)
        | EventView::AreaSyncHelloTx(a)
        | EventView::InterfaceCostChange(a)
        | EventView::AreaInterfaceTraceOptionsFlagChange(a) => i.up ==> i.areas.contains_key(a),
        EventView::InterfaceUpdate(a, k)
        | EventView::InterfaceReset(a, k)
        | EventView::InterfaceResetHelloInterval(a, k)
        | EventView::InterfaceResetDeadInterval(a, k)
        | EventView::InterfacePriorityChange(a, k)
        | EventView::InterfaceSyncHelloTx(a, k) => i.up ==> i.areas.contains_key(a) && i.interfaces.contains_key(k),
        EventView::InterfaceUpdateAuth(_, k)
        | EventView::InterfaceBfdChange(k) => i.up ==> i.interfaces.contains_key(
            k,
        ),
        EventView::InterfaceUpdateTraceOptions(k) => i.interfaces.contains_key(k),
        _ => true,
    }
}

/// What is done about an event on an interface, depending on its state, when
/// the instance is up.
#[verifier::opaque]
pub open spec fn interface_actions(i: Instance, e: EventView) -> Seq<ActionView> {
    match e {
        EventView::InterfaceReset(a, k) => if i@.interfaces[k].down {
            Seq::empty()
        } else {
            seq![ActionView::InterfaceReset(a, k)]
        },
        EventView::InterfaceResetHelloInterval(a, k) => if i@.interfaces[k].hello_interval {
            seq![ActionView::HelloIntervalStart(a, k)]
        } else {
            Seq::empty()
        },
        EventView::InterfaceResetDeadInterval(a, k) => neighbor_actions(
            NeighborAction::InactivityTimerStart,
            k,
            i@.interfaces[k].neighbors,
        ) + (if i@.interfaces[k].wait_timer {
            seq![ActionView::WaitTimerStart(a, k)]
        } else {
            Seq::empty()
        }),
        EventView::InterfacePriorityChange(a, k) => {
            let iface = i@.interfaces[k];
            if !iface.down && (iface.config.if_type is Broadcast || iface.config.if_type is NonBroadcast) {
                seq![ActionView::NbrChange(a, k)]
            } else {
                Seq::empty()
            }
        },
        EventView::InterfaceBfdChange(k) => neighbor_actions(
            if i@.interfaces[k].config.bfd_enabled {
                NeighborAction::BfdRegister
            } else {
                NeighborAction::BfdUnregister
            },
            k,
            i@.interfaces[k].neighbors,
        ),
        _ => Seq::empty(),
    }
}

/// What is done about an event on an area, or on an interface whatever its
/// state, when the instance is up.
#[verifier::opaque]
pub open spec fn area_actions(i: Instance, e: EventView) -> Seq<ActionView> {
    match e {
        EventView::AreaTypeChange(a) => {
            // Neighbors are killed to speed up reconvergence.
            flat_map(i.members(a), kill_fn(i@)) + (if has_normal_area(i@.areas) {
                Seq::empty()
            } else {
                seq![ActionView::LsdbReset]
            })
        },
        EventView::AreaSyncHelloTx(a) => sync_actions(i, a),
        EventView::InterfaceUpdate(a, k) => seq![ActionView::InterfaceUpdate(a, k)],
        EventView::InterfaceCostChange(a) => seq![
            ActionView::LsaOriginate(LsaOriginateEvent::InterfaceCostChange(i@.areas[a].id)),
        ],
        EventView::AreaInterfaceTraceOptionsFlagChange(a) => seq![
            ActionView::LsaOriginate(LsaOriginateEvent::InterfaceFlagChange(i@.areas[a].id)),
        ],
        EventView::InterfaceSyncHelloTx(a, k) => seq![ActionView::SyncHelloTx(a, k)],
        EventView::InterfaceUpdateAuth(_, k) => seq![ActionView::AuthUpdate(k)],
        EventView::InterfaceIbusSub(name) => seq![
            ActionView::InterfaceSub(name, subscribed_family(i@.version, i@.address_family)),
        ],
        _ => Seq::empty(),
    }
}

/// What is done about an event on the whole instance when it is up.
#[verifier::opaque]
pub open spec fn instance_actions(i: Instance, e: EventView) -> Seq<ActionView> {
    match e {
        EventView::StubRouterChange => seq![ActionView::LsaOriginate(LsaOriginateEvent::StubRouterChange)],
        EventView::GrHelperChange => (if i@.config.gr.helper_enabled {
            Seq::empty()
        } else {
            seq![ActionView::GrHelperExit]
        }).push(ActionView::LsaOriginate(LsaOriginateEvent::GrHelperChange)),
        EventView::SrEnableChange(enabled) => seq![ActionView::LsaOriginate(LsaOriginateEvent::SrEnableChange)]
            + flat_map(
            i.areas.keys(),
            adj_sid_area_fn(
                i,
                if enabled {
                    NeighborAction::AdjSidAdd
                } else {
                    NeighborAction::AdjSidDelAll
                },
            ),
        ),
        EventView::BierEnableChange(enabled) => seq![
            ActionView::LsaOriginate(LsaOriginateEvent::BierEnableChange),
            if enabled {
                ActionView::RoutesReinstall
            } else {
                ActionView::BierPurge
            },
        ],
        EventView::RerunSpf => seq![ActionView::SpfConfigChange],
        EventView::UpdateVirtualLinks => seq![ActionView::VirtualLinksUpdate],
        EventView::UpdateSummaries => seq![ActionView::SummariesUpdate],
        EventView::ReinstallRoutes => seq![ActionView::RoutesReinstall],
        EventView::NodeTagsChange => seq![ActionView::LsaOriginate(LsaOriginateEvent::NodeTagsChange)],
        _ => Seq::empty(),
    }
}

/// What is done about an event when the instance is up.
pub open spec fn up_actions(i: Instance, e: EventView) -> Seq<ActionView> {
    interface_actions(i, e) + area_actions(i, e) + instance_actions(i, e)
}

/// What remains to be done about an event, in order.
pub open spec fn event_actions(i: Instance, e: EventView) -> Seq<ActionView> {
    match e {
        EventView::InstanceReset => seq![ActionView::InstanceReset],
        EventView::InstanceUpdate => seq![ActionView::InstanceUpdate],
        EventView::InstanceIdUpdate => flat_map(i.areas.keys(), sync_area_fn(i)),
        EventView::AreaCreate(a) => seq![ActionView::LsaOriginate(LsaOriginateEvent::AreaStart(i@.areas[a].id))],
        EventView::AreaDelete(a) => flat_map(i.members(a), delete_fn(i@, a)),
        EventView::InterfaceDelete(a, k) => delete_actions(i@, a, k),
        EventView::InterfaceUpdateTraceOptions(_) | EventView::UpdateTraceOptions => Seq::empty(),
        e => if i.up {
            up_actions(i, e)
        } else {
            Seq::empty()
        },
    }
}

/// An interface, once the Instance ID of the instance is in force where it has
/// none of its own.
pub open spec fn id_in_force(f: InterfaceView, areas: Map<AreaIndex, AreaView>, instance_id: u8) -> InterfaceView {
    if areas.contains_key(f.area) {
        InterfaceView {
            config: InterfaceCfgView {
                instance_id: InheritableConfig {
                    resolved: match f.config.instance_id.explicit {
                        Some(id) => id,
                        None => instance_id,
                    },
                    ..f.config.instance_id
                },
                ..f.config
            },
            ..f
        }
    } else {
        f
    }
}

/// An interface, once its packet trace options are in force.
pub open spec fn trace_in_force(
    f: InterfaceView,
    areas: Map<AreaIndex, AreaView>,
    t: InstanceTraceOptions,
) -> InterfaceView {
    if areas.contains_key(f.area) {
        InterfaceView { config: trace_resolved(f.config, t), ..f }
    } else {
        f
    }
}

/// An instance, after an event was processed.
pub open spec fn event_done(i: InstanceView, e: EventView) -> InstanceView {
    match e {
        EventView::InstanceIdUpdate => InstanceView {
            interfaces: Map::new(
                |k: InterfaceIndex| i.interfaces.contains_key(k),
                |k: InterfaceIndex| id_in_force(i.interfaces[k], i.areas, i.config.instance_id),
            ),
            ..i
        },
        EventView::AreaDelete(a) => InstanceView {
            interfaces: i.interfaces.remove_keys(
                Set::new(|k: InterfaceIndex| i.interfaces.contains_key(k) && i.interfaces[k].area == a),
            ),
            areas: i.areas.remove(a),
            ..i
        },
        EventView::InterfaceDelete(_, k) => InstanceView { interfaces: i.interfaces.remove(k), ..i },
        EventView::InterfaceUpdateTraceOptions(k) => InstanceView {
            interfaces: i.interfaces.insert(
                k,
                InterfaceView {
                    config: trace_resolved(i.interfaces[k].config, i.config.trace_opts),
                    ..i.interfaces[k]
                },
            ),
            ..i
        },
        EventView::UpdateTraceOptions => InstanceView {
            interfaces: Map::new(
                |k: InterfaceIndex| i.interfaces.contains_key(k),
                |k: InterfaceIndex| trace_in_force(i.interfaces[k], i.areas, i.config.trace_opts),
            ),
            ..i
        },
        _ => i,
    }
}

fn resolve_instance_id(
    interfaces: &mut Table<InterfaceIndex,
    Interface>,
    areas: &Table<AreaIndex,
    Area>,
    instance_id: u8,
)
    ensures
        final(interfaces).keys() == old(interfaces).keys(),
        views(final(interfaces)@) == Map::new(
            |k: InterfaceIndex| views(old(interfaces)@).contains_key(k),
            |k: InterfaceIndex| id_in_force(views(old(interfaces)@)[k], views(areas@), instance_id),
        ),
{
    let ghost m = interfaces@;
    let ghost keys = interfaces.keys();
    let n: usize = interfaces.len();
    proof {
        ascending(*interfaces);
    }
    let mut j: usize = 0;
    while j < n
        invariant
            j <= n,
            n == keys.len(),
            interfaces.keys() == keys,
            interfaces@.dom() == m.dom(),
            forall|a: int, b: int| 0 <= a < b < keys.len() ==> #[trigger] keys[a] < #[trigger] keys[b],
            forall|x: int| 0 <= x < keys.len() ==> m.contains_key(#[trigger] keys[x]),
            forall|x: int|
                0 <= x < j ==> interfaces@[#[trigger] keys[x]]@ == id_in_force(
                    m[keys[x]]@,
                    views(areas@),
                    instance_id,
                ),
            forall|x: int| j <= x < n ==> interfaces@[#[trigger] keys[x]] == m[keys[x]],
        decreases n - j,
    {
        let ghost before = interfaces@;
        let iface = interfaces.value_at_mut(j);
        if areas.contains_key(&iface.area) {
            iface.config.instance_id.resolved = match iface.config.instance_id.explicit {
                Some(id) => id,
                None => instance_id,
            };
        }
        proof {
            assert(iface@ == id_in_force(m[keys[j as int]]@, views(areas@), instance_id));
        }
        j = j + 1;
        assert(interfaces@.dom() =~= m.dom());
    }
    proof {
        assert forall|k: InterfaceIndex| #[trigger] m.contains_key(k) implies interfaces@[k]@ == id_in_force(
            m[k]@,
            views(areas@),
            instance_id,
        ) by {
            let x = choose|x: int| 0 <= x < keys.len() && keys[x] == k;
            assert(interfaces@[keys[x]]@ == id_in_force(m[keys[x]]@, views(areas@), instance_id));
        }
        assert(views(interfaces@) =~= Map::new(
            |k: InterfaceIndex| views(m).contains_key(k),
            |k: InterfaceIndex| id_in_force(views(m)[k], views(areas@), instance_id),
        ));
    }
}

fn resolve_trace_options(
    interfaces: &mut Table<InterfaceIndex, Interface>,
    areas: &Table<AreaIndex, Area>,
    trace_opts: &InstanceTraceOptions,
)
    ensures
        views(final(interfaces)@) == Map::new(
            |k: InterfaceIndex| views(old(interfaces)@).contains_key(k),
            |k: InterfaceIndex| trace_in_force(views(old(interfaces)@)[k], views(areas@), *trace_opts),
        ),
{
    let ghost m = interfaces@;
    let ghost keys = interfaces.keys();
    let n: usize = interfaces.len();
    proof {
        ascending(*interfaces);
    }
    let mut j: usize = 0;
    while j < n
        invariant
            j <= n,
            n == keys.len(),
            interfaces.keys() == keys,
            interfaces@.dom() == m.dom(),
            forall|a: int, b: int| 0 <= a < b < keys.len() ==> #[trigger] keys[a] < #[trigger] keys[b],
            forall|x: int| 0 <= x < keys.len() ==> m.contains_key(#[trigger] keys[x]),
            forall|x: int|
                0 <= x < j ==> interfaces@[#[trigger] keys[x]]@ == trace_in_force(
                    m[keys[x]]@,
                    views(areas@),
                    *trace_opts,
                ),
            forall|x: int| j <= x < n ==> interfaces@[#[trigger] keys[x]] == m[keys[x]],
        decreases n - j,
    {
        let iface = interfaces.value_at_mut(j);
        if areas.contains_key(&iface.area) {
            iface.config.update_trace_options(trace_opts);
        }
        proof {
            assert(iface@ == trace_in_force(m[keys[j as int]]@, views(areas@), *trace_opts));
        }
        j = j + 1;
        assert(interfaces@.dom() =~= m.dom());
    }
    proof {
        assert forall|k: InterfaceIndex| #[trigger] m.contains_key(k) implies interfaces@[k]@ == trace_in_force(
            m[k]@,
            views(areas@),
            *trace_opts,
        ) by {
            let x = choose|x: int| 0 <= x < keys.len() && keys[x] == k;
            assert(interfaces@[keys[x]]@ == trace_in_force(m[keys[x]]@, views(areas@), *trace_opts));
        }
        assert(views(interfaces@) =~= Map::new(
            |k: InterfaceIndex| views(m).contains_key(k),
            |k: InterfaceIndex| trace_in_force(views(m)[k], views(areas@), *trace_opts),
        ));
    }
}

fn push_sync(instance: &Instance, area_idx: AreaIndex, actions: &mut Vec<Action>)
    ensures
        acts(final(actions)@) == acts(old(actions)@) + sync_actions(*instance, area_idx),
{
    let ghost before = acts(actions@);
    if !instance.up {
        assert(acts(actions@) =~= before + sync_actions(*instance, area_idx));
        return;
    }
    let members = instance.area_interfaces(area_idx);
    let ghost f = sync_fn(area_idx);
    let mut j: usize = 0;
    assert(members@.take(0) =~= Seq::empty());
    assert(acts(actions@) =~= before + Seq::<ActionView>::empty());
    while j < members.len()
        invariant
            j <= members@.len(),
            f == sync_fn(area_idx),
            acts(actions@) == before + flat_map(members@.take(j as int), f),
        decreases members@.len() - j,
    {
        proof {
            flat_map_step(members@, j as int, f);
        }
        push(actions, Action::SyncHelloTx(area_idx, members[j]));
        assert(acts(actions@) =~= before + flat_map(members@.take(j + 1), f));
        j = j + 1;
    }
    assert(members@.take(j as int) =~= members@);
}

fn push_sync_all(instance: &Instance, actions: &mut Vec<Action>)
    ensures
        acts(final(actions)@) == acts(old(actions)@) + flat_map(instance.areas.keys(), sync_area_fn(*instance)),
{
    let ghost before = acts(actions@);
    let ghost keys = instance.areas.keys();
    let ghost f = sync_area_fn(*instance);
    let n: usize = instance.areas.len();
    let mut j: usize = 0;
    assert(keys.take(0) =~= Seq::empty());
    assert(acts(actions@) =~= before + Seq::<ActionView>::empty());
    while j < n
        invariant
            j <= n,
            n == instance.areas.keys().len(),
            keys == instance.areas.keys(),
            f == sync_area_fn(*instance),
            acts(actions@) == before + flat_map(keys.take(j as int), f),
        decreases n - j,
    {
        proof {
            flat_map_step(keys, j as int, f);
        }
        push_sync(instance, *instance.areas.key_at(j), actions);
        assert(acts(actions@) =~= before + flat_map(keys.take(j + 1), f));
        j = j + 1;
    }
    assert(keys.take(j as int) =~= keys);
}

fn push_members(instance: &Instance, area_idx: AreaIndex, what: NeighborAction, actions: &mut Vec<Action>)
    ensures
        acts(final(actions)@) == acts(old(actions)@) + flat_map(
            instance.members(area_idx),
            adj_sid_fn(instance@, what),
        ),
{
    let ghost before = acts(actions@);
    let members = instance.area_interfaces(area_idx);
    let ghost f = adj_sid_fn(instance@, what);
    let mut j: usize = 0;
    assert(members@.take(0) =~= Seq::empty());
    assert(acts(actions@) =~= before + Seq::<ActionView>::empty());
    while j < members.len()
        invariant
            j <= members@.len(),
            f == adj_sid_fn(instance@, what),
            acts(actions@) == before + flat_map(members@.take(j as int), f),
            forall|x: int| 0 <= x < members@.len() ==> #[trigger] instance.interfaces@.contains_key(members@[x]),
        decreases members@.len() - j,
    {
        proof {
            flat_map_step(members@, j as int, f);
            assert(instance.interfaces@.contains_key(members@[j as int]));
        }
        let k = members[j];
        if let Some(iface) = instance.interfaces.get(&k) {
            push_neighbors(actions, what, k, &iface.neighbors);
        }
        assert(acts(actions@) =~= before + flat_map(members@.take(j + 1), f));
        j = j + 1;
    }
    assert(members@.take(j as int) =~= members@);
}

fn push_adj_sids(instance: &Instance, what: NeighborAction, actions: &mut Vec<Action>)
    ensures
        acts(final(actions)@) == acts(old(actions)@) + flat_map(
            instance.areas.keys(),
            adj_sid_area_fn(*instance, what),
        ),
{
    let ghost before = acts(actions@);
    let ghost keys = instance.areas.keys();
    let ghost f = adj_sid_area_fn(*instance, what);
    let n: usize = instance.areas.len();
    let mut j: usize = 0;
    assert(keys.take(0) =~= Seq::empty());
    assert(acts(actions@) =~= before + Seq::<ActionView>::empty());
    while j < n
        invariant
            j <= n,
            n == instance.areas.keys().len(),
            keys == instance.areas.keys(),
            f == adj_sid_area_fn(*instance, what),
            acts(actions@) == before + flat_map(keys.take(j as int), f),
        decreases n - j,
    {
        proof {
            flat_map_step(keys, j as int, f);
        }
        push_members(instance, *instance.areas.key_at(j), what, actions);
        assert(acts(actions@) =~= before + flat_map(keys.take(j + 1), f));
        j = j + 1;
    }
    assert(keys.take(j as int) =~= keys);
}

fn normal_area(areas: &Table<AreaIndex, Area>) -> (b: bool)
    ensures
        b == has_normal_area(views(areas@)),
{
    let ghost m = views(areas@);
    let n: usize = areas.len();
    proof {
        ascending(*areas);
    }
    let mut j: usize = 0;
    while j < n
        invariant
            j <= n,
            n == areas.keys().len(),
            m == views(areas@),
            forall|x: int|
                0 <= x < j ==> !(m[#[trigger] areas.keys()[x]].config.area_type is Normal && m[areas.keys()[x]].active),
        decreases n - j,
    {
        let area = areas.value_at(j);
        assert(m.contains_key(areas.keys()[j as int]));
        if let AreaType::Normal = area.config.area_type {
            if area.active {
                return true;
            }
        }
        j = j + 1;
    }
    proof {
        assert forall|a: AreaIndex| #[trigger] m.contains_key(a) implies !(m[a].config.area_type is Normal
            && m[a].active) by {
            assert(areas@.contains_key(a));
            let x = choose|x: int| 0 <= x < areas.keys().len() && areas.keys()[x] == a;
            assert(!(m[areas.keys()[x]].config.area_type is Normal && m[areas.keys()[x]].active));
        }
    }
    false
}

fn interface_delete(instance: &mut Instance, area_idx: AreaIndex, k: InterfaceIndex, actions: &mut Vec<Action>)
    requires
        old(instance).interfaces@.contains_key(k),
    ensures
        acts(final(actions)@) == acts(old(actions)@) + delete_actions(old(instance)@, area_idx, k),
        final(instance)@ == event_done(old(instance)@, EventView::InterfaceDelete(area_idx, k)),
        final(instance).interfaces@ == old(instance).interfaces@.remove(k),
        final(instance).areas == old(instance).areas,
{
    let ghost before = acts(actions@);
    let ghost m = instance.interfaces@;
    if instance.up {
        if let Some(iface) = instance.interfaces.get(&k) {
            // Cancel ibus subscription.
            if iface.vlink.is_none() {
                push(actions, Action::InterfaceUnsub(iface.name.clone()));
            }
        }
        // Stop the interface if it's active.
        push(actions, Action::InterfaceDown(area_idx, k));

        // Update the routing table to remove nexthops that are no longer
        // reachable.
        push(actions, Action::NexthopsRemove(k));
    }
    assert(acts(actions@) =~= before + delete_actions(instance@, area_idx, k));
    instance.interfaces.remove(&k);
    proof {
        views_remove(m, k);
    }
}

fn area_delete(instance: &mut Instance, area_idx: AreaIndex, actions: &mut Vec<Action>)
    requires
        old(instance).areas@.contains_key(area_idx),
    ensures
        acts(final(actions)@) == acts(old(actions)@) + flat_map(
            old(instance).members(area_idx),
            delete_fn(old(instance)@, area_idx),
        ),
        final(instance)@ == event_done(old(instance)@, EventView::AreaDelete(area_idx)),
{
    let ghost before = acts(actions@);
    let ghost i0 = *instance;
    let members = instance.area_interfaces(area_idx);
    let ghost f = delete_fn(i0@, area_idx);
    proof {
        members_distinct(i0, area_idx);
    }
    let mut j: usize = 0;
    assert(members@.take(0) =~= Seq::empty());
    assert(acts(actions@) =~= before + Seq::<ActionView>::empty());

    // Delete the area's interfaces.
    while j < members.len()
        invariant
            j <= members@.len(),
            f == delete_fn(i0@, area_idx),
            acts(actions@) == before + flat_map(members@.take(j as int), f),
            members@.no_duplicates(),
            forall|x: int| 0 <= x < members@.len() ==> #[trigger] i0.interfaces@.contains_key(members@[x]),
            forall|k: InterfaceIndex| #[trigger]
                instance.interfaces@.contains_key(k) <==> i0.interfaces@.contains_key(k) && !members@.take(
                    j as int,
                ).contains(k),
            forall|k: InterfaceIndex| #[trigger]
                instance.interfaces@.contains_key(k) ==> instance.interfaces@[k] == i0.interfaces@[k],
            instance@ == (InstanceView { interfaces: views(instance.interfaces@), ..i0@ }),
            instance.areas == i0.areas,
        decreases members@.len() - j,
    {
        let k = members[j];
        proof {
            flat_map_step(members@, j as int, f);
            assert(i0.interfaces@.contains_key(members@[j as int]));
            assert(!members@.take(j as int).contains(k)) by {
                if members@.take(j as int).contains(k) {
                    let x = choose|x: int| 0 <= x < j && members@.take(j as int)[x] == k;
                    assert(members@[x] == members@[j as int]);
                }
            }
            assert forall|y: InterfaceIndex| members@.take(j + 1).contains(y) <==> members@.take(j as int).contains(y)
                || y == k by {
                assert(members@.take(j + 1) =~= members@.take(j as int).push(k));
                if members@.take(j as int).contains(y) {
                    let x = choose|x: int| 0 <= x < j && members@.take(j as int)[x] == y;
                    assert(members@.take(j + 1)[x] == y);
                }
                assert(members@.take(j + 1)[j as int] == k);
            }
            assert(instance.interfaces@.contains_key(k));
            assert(instance@.interfaces[k] == i0@.interfaces[k]);
            assert(delete_actions(instance@, area_idx, k) == delete_actions(i0@, area_idx, k));
        }
        interface_delete(instance, area_idx, k, actions);
        assert(acts(actions@) =~= before + flat_map(members@.take(j + 1), f));
        j = j + 1;
    }
    proof {
        assert(members@.take(j as int) =~= members@);
        assert(views(instance.interfaces@) =~= i0@.interfaces.remove_keys(
            Set::new(|k: InterfaceIndex| i0@.interfaces.contains_key(k) && i0@.interfaces[k].area == area_idx),
        )) by {
            assert forall|k: InterfaceIndex| #[trigger] members@.contains(k) implies i0.interfaces@.contains_key(k)
                && i0.interfaces@[k].area == area_idx by {
                let x = choose|x: int| 0 <= x < members@.len() && members@[x] == k;
                assert(i0.interfaces@.contains_key(members@[x]));
            }
        }
    }

    // Delete the area.
    instance.areas.remove(&area_idx);
    proof {
        views_remove(i0.areas@, area_idx);
    }
}

proof fn members_distinct(i: Instance, area_idx: AreaIndex)
    requires
        i.interfaces.keys_sorted(),
    ensures
        i.members(area_idx).no_duplicates(),
{
    distinct(i.interfaces.keys(), member_fn(i@.interfaces, area_idx));
}

proof fn distinct(s: Seq<InterfaceIndex>, f: spec_fn(InterfaceIndex) -> Option<InterfaceIndex>)
    requires
        s.no_duplicates(),
        forall|k: InterfaceIndex| #[trigger] f(k) matches Some(j) ==> j == k,
    ensures
        filter_map(s, f).no_duplicates(),
        forall|k: InterfaceIndex| #[trigger] filter_map(s, f).contains(k) ==> s.contains(k),
    decreases s.len(),
{
    if s.len() > 0 {
        let t = s.drop_last();
        distinct(t, f);
        let r = filter_map(t, f);
        assert(f(s.last()) matches Some(j) ==> j == s.last());
        assert forall|k: InterfaceIndex| #[trigger] filter_map(s, f).contains(k) implies s.contains(k) by {
            let x = choose|x: int| 0 <= x < filter_map(s, f).len() && filter_map(s, f)[x] == k;
            if x < r.len() {
                assert(r[x] == k);
                assert(r.contains(k));
                let y = choose|y: int| 0 <= y < t.len() && t[y] == k;
                assert(s[y] == k);
            } else {
                assert(s[s.len() - 1] == k);
            }
        }
        if f(s.last()) is Some {
            assert(!r.contains(s.last())) by {
                if r.contains(s.last()) {
                    let y = choose|y: int| 0 <= y < t.len() && t[y] == s.last();
                    assert(s[y] == s[s.len() - 1]);
                }
            }
            let q = filter_map(s, f);
            assert(q == r.push(s.last()));
            assert forall|a: int, b: int| 0 <= a < q.len() && 0 <= b < q.len() && a != b implies q[a] != q[b] by {
                if a == r.len() {
                    assert(r.contains(r[b]));
                }
                if b == r.len() {
                    assert(r.contains(r[a]));
                }
            }
        }
    }
}

#[verifier::rlimit(100)]
fn interface_event(instance: &Instance, event: Event) -> (r: Vec<Action>)
    requires
        event_valid(instance@, event@),
        instance.up,
    ensures
        acts(r@) == interface_actions(*instance, event@),
{
    reveal(interface_actions);
    match event {
        Event::InterfaceReset(area_idx, iface_idx) => {
            let mut actions = nothing();
            if let Some(iface) = instance.interfaces.get(&iface_idx) {
                if !iface.down {
                    push(&mut actions, Action::InterfaceReset(area_idx, iface_idx));
                }
            }
            assert(acts(actions@) =~= interface_actions(*instance, event@));
            actions
        },
        Event::InterfaceResetHelloInterval(area_idx, iface_idx) => {
            let mut actions = nothing();
            if let Some(iface) = instance.interfaces.get(&iface_idx) {
                if iface.hello_interval {
                    push(&mut actions, Action::HelloIntervalStart(area_idx, iface_idx));
                }
            }
            assert(acts(actions@) =~= interface_actions(*instance, event@));
            actions
        },
        Event::InterfaceResetDeadInterval(area_idx, iface_idx) => {
            let mut actions = nothing();
            if let Some(iface) = instance.interfaces.get(&iface_idx) {
                // Reset neighbor inactivity timers.
                push_neighbors(&mut actions, NeighborAction::InactivityTimerStart, iface_idx, &iface.neighbors);

                // Also reset the interface wait timer if it exists.
                if iface.wait_timer {
                    push(&mut actions, Action::WaitTimerStart(area_idx, iface_idx));
                }
            }
            assert(acts(actions@) =~= interface_actions(*instance, event@));
            actions
        },
        Event::InterfacePriorityChange(area_idx, iface_idx) => {
            let mut actions = nothing();
            if let Some(iface) = instance.interfaces.get(&iface_idx) {
                // Rerun the DR election algorithm if necessary.
                let elects = match iface.config.if_type {
                    InterfaceType::Broadcast => true,
                    InterfaceType::NonBroadcast => true,
                    _ => false,
                };
                if !iface.down && elects {
                    push(&mut actions, Action::NbrChange(area_idx, iface_idx));
                }
            }
            assert(acts(actions@) =~= interface_actions(*instance, event@));
            actions
        },
        Event::InterfaceBfdChange(iface_idx) => {
            let mut actions = nothing();
            if let Some(iface) = instance.interfaces.get(&iface_idx) {
                let what = if iface.config.bfd_enabled {
                    NeighborAction::BfdRegister
                } else {
                    NeighborAction::BfdUnregister
                };
                push_neighbors(&mut actions, what, iface_idx, &iface.neighbors);
            }
            assert(acts(actions@) =~= interface_actions(*instance, event@));
            actions
        },
        _ => nothing(),
    }
}

#[verifier::rlimit(100)]
fn area_event(instance: &Instance, event: Event) -> (r: Vec<Action>)
    requires
        event_valid(instance@, event@),
        instance.up,
    ensures
        acts(r@) == area_actions(*instance, event@),
{
    reveal(area_actions);
    match event {
        Event::AreaTypeChange(area_idx) => {
            let mut actions = nothing();
            // Kill all neighbors in the area to speed up reconvergence.
            push_members(instance, area_idx, NeighborAction::Kill, &mut actions);
            assert(adj_sid_fn(instance@, NeighborAction::Kill) =~= kill_fn(instance@));

            // Purge all AS-scoped LSAs in the absence of at least one active
            // normal area.
            if !normal_area(&instance.areas) {
                push(&mut actions, Action::LsdbReset);
            }
            assert(acts(actions@) =~= area_actions(*instance, event@));
            actions
        },
        Event::AreaSyncHelloTx(area_idx) => {
            let mut actions = nothing();
            push_sync(instance, area_idx, &mut actions);
            assert(acts(actions@) =~= area_actions(*instance, event@));
            actions
        },
        Event::InterfaceUpdate(area_idx, iface_idx) => {
            one(Action::InterfaceUpdate(area_idx, iface_idx))
        },
        Event::InterfaceCostChange(area_idx) => {
            let mut actions = nothing();
            if let Some(area) = instance.areas.get(&area_idx) {
                push(&mut actions, Action::LsaOriginate(LsaOriginateEvent::InterfaceCostChange(area.id)));
            }
            assert(acts(actions@) =~= area_actions(*instance, event@));
            actions
        },
        Event::AreaInterfaceTraceOptionsFlagChange(area_idx) => {
            let mut actions = nothing();
            if let Some(area) = instance.areas.get(&area_idx) {
                push(&mut actions, Action::LsaOriginate(LsaOriginateEvent::InterfaceFlagChange(area.id)));
            }
            assert(acts(actions@) =~= area_actions(*instance, event@));
            actions
        },
        Event::InterfaceSyncHelloTx(area_idx, iface_idx) => {
            one(Action::SyncHelloTx(area_idx, iface_idx))
        },
        Event::InterfaceUpdateAuth(_, iface_idx) => {
            one(Action::AuthUpdate(iface_idx))
        },
        Event::InterfaceIbusSub(ifname) => {
            let mut actions = nothing();
            let af = match (instance.version, instance.address_family) {
                // OSPFv3 supports both IPv4 and IPv6 but runs over IPv6
                // transport. When routing IPv4, both IPv4 and IPv6 interface
                // addresses are required.
                (Version::Ospfv3, AddressFamily::Ipv4) => None,
                (_, af) => Some(af),
            };
            push(&mut actions, Action::InterfaceSub(ifname, af));
            assert(acts(actions@) =~= area_actions(*instance, event@));
            actions
        },
        _ => nothing(),
    }
}

#[verifier::rlimit(100)]
fn instance_event(instance: &Instance, event: Event) -> (r: Vec<Action>)
    requires
        event_valid(instance@, event@),
        instance.up,
    ensures
        acts(r@) == instance_actions(*instance, event@),
{
    reveal(instance_actions);
    match event {
        Event::StubRouterChange => {
            one(Action::LsaOriginate(LsaOriginateEvent::StubRouterChange))
        },
        Event::GrHelperChange => {
            let mut actions = nothing();
            // Exit from the helper mode for all neighbors.
            if !instance.config.gr.helper_enabled {
                push(&mut actions, Action::GrHelperExit);
            }

            // (Re)originate Router Information LSAs.
            push(&mut actions, Action::LsaOriginate(LsaOriginateEvent::GrHelperChange));
            assert(acts(actions@) =~= instance_actions(*instance, event@));
            actions
        },
        Event::SrEnableChange(sr_enabled) => {
            let mut actions = nothing();
            // (Re)originate LSAs that might have been affected.
            push(&mut actions, Action::LsaOriginate(LsaOriginateEvent::SrEnableChange));

            // Iterate over all existing adjacencies.
            let what = if sr_enabled {
                NeighborAction::AdjSidAdd
            } else {
                NeighborAction::AdjSidDelAll
            };
            push_adj_sids(instance, what, &mut actions);
            assert(acts(actions@) =~= instance_actions(*instance, event@));
            actions
        },
        Event::BierEnableChange(bier_enabled) => {
            let mut actions = nothing();
            // (Re)originate LSAs that might have been affected.
            push(&mut actions, Action::LsaOriginate(LsaOriginateEvent::BierEnableChange));

            // Purge the BIRT if BIER is disabled, or reinstall routes if it is
            // enabled.
            if bier_enabled {
                push(&mut actions, Action::RoutesReinstall);
            } else {
                push(&mut actions, Action::BierPurge);
            }
            assert(acts(actions@) =~= instance_actions(*instance, event@));
            actions
        },
        Event::RerunSpf => {
            one(Action::SpfConfigChange)
        },
        Event::UpdateVirtualLinks => {
            one(Action::VirtualLinksUpdate)
        },
        Event::UpdateSummaries => {
            one(Action::SummariesUpdate)
        },
        Event::ReinstallRoutes => {
            one(Action::RoutesReinstall)
        },
        Event::NodeTagsChange => {
            one(Action::LsaOriginate(LsaOriginateEvent::NodeTagsChange))
        },
        _ => nothing(),
    }
}

fn up_event(instance: &Instance, event: Event) -> (r: Vec<Action>)
    requires
        event_valid(instance@, event@),
        instance.up,
    ensures
        acts(r@) == up_actions(*instance, event@),
{
    proof {
        reveal(interface_actions);
        reveal(area_actions);
        reveal(instance_actions);
    }
    let r = match event {
        Event::InterfaceReset(..)
        | Event::InterfaceResetHelloInterval(..)
        | Event::InterfaceResetDeadInterval(..)
        | Event::InterfacePriorityChange(..)
        | Event::InterfaceBfdChange(_) => interface_event(instance, event),
        Event::AreaTypeChange(_)
        | Event::AreaSyncHelloTx(_)
        | Event::InterfaceUpdate(..)
        | Event::InterfaceCostChange(_)
        | Event::AreaInterfaceTraceOptionsFlagChange(_)
        | Event::InterfaceSyncHelloTx(..)
        | Event::InterfaceUpdateAuth(..)
        | Event::InterfaceIbusSub(_) => area_event(instance, event),
        event => instance_event(instance, event),
    };
    assert(acts(r@) =~= up_actions(*instance, event@));
    r
}

/// Processes a queued event. Returns what remains to be done about it, in
/// order.
pub fn process_event(instance: &mut Instance, event: Event) -> (actions: Vec<Action>)
    requires
        event_valid(old(instance)@, event@),
    ensures
        acts(actions@) == event_actions(*old(instance), event@),
        final(instance)@ == event_done(old(instance)@, event@),
{
    let mut actions: Vec<Action> = Vec::new();
    let ghost i0 = *instance;
    assert(acts(actions@) =~= Seq::empty());
    match event {
        Event::InstanceReset => {
            push(&mut actions, Action::InstanceReset);
        },
        Event::InstanceUpdate => {
            push(&mut actions, Action::InstanceUpdate);
        },
        Event::InstanceIdUpdate => {
            push_sync_all(instance, &mut actions);
            resolve_instance_id(&mut instance.interfaces, &instance.areas, instance.config.instance_id);
        },
        Event::AreaCreate(area_idx) => {
            // Originate Router Information LSA(s).
            if let Some(area) = instance.areas.get(&area_idx) {
                push(&mut actions, Action::LsaOriginate(LsaOriginateEvent::AreaStart(area.id)));
            }
        },
        Event::AreaDelete(area_idx) => {
            area_delete(instance, area_idx, &mut actions);
        },
        Event::InterfaceDelete(area_idx, iface_idx) => {
            interface_delete(instance, area_idx, iface_idx, &mut actions);
        },
        Event::InterfaceUpdateTraceOptions(iface_idx) => {
            let ghost m = instance.interfaces@;
            if let Some(iface) = instance.interfaces.get_mut(&iface_idx) {
                iface.config.update_trace_options(&instance.config.trace_opts);
                proof {
                    views_insert(m, iface_idx, *iface);
                }
            }
        },
        Event::UpdateTraceOptions => {
            resolve_trace_options(&mut instance.interfaces, &instance.areas, &instance.config.trace_opts);
        },
        event => {
            if instance.up {
                return up_event(instance, event);
            }
        },
    }
    assert(acts(actions@) =~= event_actions(i0, event@));
    actions
}

/// The nexthops of a route, without those over an interface.
pub open spec fn nexthops_without(nexthops: Map<NexthopKey, Nexthop>, iface_idx: InterfaceIndex) -> Map<
    NexthopKey,
    Nexthop,
> {
    nexthops.remove_keys(
        Set::new(|k: NexthopKey| nexthops.contains_key(k) && nexthops[k].iface_idx == iface_idx),
    )
}

/// Removes the nexthops over an interface from a route.
pub fn remove_nexthops(nexthops: &mut Table<NexthopKey, Nexthop>, iface_idx: InterfaceIndex)
    ensures
        final(nexthops)@ == nexthops_without(old(nexthops)@, iface_idx),
{
    let ghost m = nexthops@;
    let mut keep: Table<NexthopKey, Nexthop> = Table::new();
    let n: usize = nexthops.len();
    let ghost keys = nexthops.keys();
    let mut j: usize = 0;
    while j < n
        invariant
            j <= n,
            n == nexthops.keys().len(),
            keys == nexthops.keys(),
            nexthops@ == m,
            forall|k: NexthopKey| #[trigger]
                keep@.contains_key(k) <==> m.contains_key(k) && keys.take(j as int).contains(k) && m[k].iface_idx
                    != iface_idx,
            forall|k: NexthopKey| #[trigger] keep@.contains_key(k) ==> keep@[k] == m[k],
        decreases n - j,
    {
        let key = *nexthops.key_at(j);
        let nexthop = *nexthops.value_at(j);
        proof {
            assert(keys.take(j + 1) =~= keys.take(j as int).push(key));
            assert forall|k: NexthopKey| keys.take(j + 1).contains(k) <==> keys.take(j as int).contains(k) || k
                == key by {
                if keys.take(j as int).contains(k) {
                    let x = choose|x: int| 0 <= x < j && keys.take(j as int)[x] == k;
                    assert(keys.take(j + 1)[x] == k);
                }
                assert(keys.take(j + 1)[j as int] == key);
            }
        }
        if nexthop.iface_idx != iface_idx {
            keep.insert(key, nexthop);
        }
        j = j + 1;
    }
    proof {
        assert(keys.take(j as int) =~= keys);
        assert forall|k: NexthopKey| #[trigger] m.contains_key(k) implies keys.contains(k) by {
            assert(nexthops.keys_sorted());
            assert(keys.to_set().contains(k));
        }
        assert(keep@ =~= nexthops_without(m, iface_idx));
    }
    *nexthops = keep;
}

// ===== validation =====

/// A name of an interface in a candidate configuration.
pub struct NameNode {
    pub path: String,
    pub name: String,
}

/// Whether the name stands before in the same list.
pub open spec fn repeats(names: Seq<NameNode>, j: int) -> bool {
    exists|x: int| 0 <= x < j && (#[trigger] names[x]).name@ == names[j].name@
}

/// Whether a name stands more than once in the list.
pub open spec fn has_repeats(names: Seq<NameNode>) -> bool {
    exists|j: int| 0 <= j < names.len() && #[trigger] repeats(names, j)
}

/// The text about an interface that more than one area has.
pub open spec fn repeated_text(name: Seq<char>) -> Seq<char> {
    "interface '"@ + name + "' configured in more than one area"@
}

/// Whether the error is about the first name that stands before in its list,
/// in the first list that has such a name.
pub open spec fn first_repeated(instances: Seq<Vec<NameNode>>, error: ValidationError) -> bool {
    exists|n: int, j: int|
        {
            &&& 0 <= n < instances.len()
            &&& 0 <= j < instances[n]@.len()
            &&& #[trigger] repeats(instances[n]@, j)
            &&& forall|y: int| 0 <= y < j ==> !#[trigger] repeats(instances[n]@, y)
            &&& forall|x: int| 0 <= x < n ==> !has_repeats((#[trigger] instances[x])@)
            &&& error.path@ == instances[n]@[j].path@
            &&& error.message@ == repeated_text(instances[n]@[j].name@)
        }
}

fn repeated(names: &Vec<NameNode>, j: usize) -> (b: bool)
    requires
        j < names@.len(),
    ensures
        b == repeats(names@, j as int),
{
    let mut x: usize = 0;
    while x < j
        invariant
            x <= j < names@.len(),
            forall|y: int| 0 <= y < x ==> (#[trigger] names@[y]).name@ != names@[j as int].name@,
        decreases j - x,
    {
        if names[x].name == names[j].name {
            assert(names@[x as int].name@ == names@[j as int].name@);
            return true;
        }
        x = x + 1;
    }
    false
}

/// Ensures that no interface is configured in more than one area, given the
/// names of the interfaces in the areas of each instance.
pub fn validate(instances: &Vec<Vec<NameNode>>) -> (r: Result<(), ValidationError>)
    ensures
        match r {
            Ok(()) => forall|n: int| 0 <= n < instances@.len() ==> !has_repeats((#[trigger] instances@[n])@),
            Err(error) => first_repeated(instances@, error),
        },
{
    let mut n: usize = 0;
    while n < instances.len()
        invariant
            n <= instances@.len(),
            forall|x: int| 0 <= x < n ==> !has_repeats((#[trigger] instances@[x])@),
        decreases instances@.len() - n,
    {
        let names = &instances[n];
        let mut j: usize = 0;
        while j < names.len()
            invariant
                n < instances@.len(),
                *names == instances@[n as int],
                j <= names@.len(),
                forall|x: int| 0 <= x < n ==> !has_repeats((#[trigger] instances@[x])@),
                forall|y: int| 0 <= y < j ==> !#[trigger] repeats(names@, y),
            decreases names@.len() - j,
        {
            if repeated(names, j) {
                let mut message = join("interface '", names[j].name.as_str());
                message.append("' configured in more than one area");
                let error = ValidationError::new(names[j].path.as_str(), message.as_str());
                assert(repeats(instances@[n as int]@, j as int));
                assert(first_repeated(instances@, error));
                return Err(error);
            }
            j = j + 1;
        }
        n = n + 1;
    }
    Ok(())
}

// ===== laws =====

/// Whether indexes below those handed out next are the only ones in use.
pub open spec fn indexes_fresh(i: InstanceView) -> bool {
    &&& forall|a: AreaIndex| #[trigger] i.areas.contains_key(a) ==> a < i.next_area
    &&& forall|k: InterfaceIndex| #[trigger] i.interfaces.contains_key(k) ==> k < i.next_interface
}

/// No change of the configuration gives the index of an area or interface to
/// another one: those that exist keep their area and name under it.
pub proof fn changes_keep_indexes(i: InstanceView, q: Set<EventView>, change: ConfigChange)
    requires
        indexes_fresh(i),
        index_left(i, change),
        instance_changed(i, q, change) is Some,
    ensures
        ({
            let r = (instance_changed(i, q, change)->0).0;
            &&& indexes_fresh(r)
            &&& forall|a: AreaIndex| #[
                trigger
            ] i.areas.contains_key(a) ==> r.areas.contains_key(a) && r.areas[a].id == i.areas[a].id
            &&& forall|k: InterfaceIndex| #[trigger] i.interfaces.contains_key(k) ==> r.interfaces.contains_key(k)
                && r.interfaces[k].area == i.interfaces[k].area && r.interfaces[k].name == i.interfaces[k].name
        }),
{
    match change {
        ConfigChange::Area(area_id, AreaChange::Entry(change)) => {
            let a = area_with_id(i.areas, area_id)->0;
            assert(first_area(i.areas, area_id, a));
            match change {
                AreaEntryChange::VirtualLink { transit_area_id, router_id, change } => {
                    let name = vlink_text(transit_area_id, router_id);
                    if !(change is Create) {
                        assert(first_named(i.interfaces, a, name, interface_named(i.interfaces, a, name)->0));
                    }
                },
                AreaEntryChange::Interface(name, change) => {
                    if !(change is Create) {
                        assert(first_named(i.interfaces, a, name@, interface_named(i.interfaces, a, name@)->0));
                    }
                },
                _ => {},
            }
        },
        _ => {},
    }
}

/// An interface without an Instance ID of its own has that of its instance,
/// once the change of the latter was processed.
pub proof fn instance_id_is_inherited(i: InstanceView, k: InterfaceIndex)
    requires
        i.interfaces.contains_key(k),
        i.areas.contains_key(i.interfaces[k].area),
    ensures
        ({
            let c = event_done(i, EventView::InstanceIdUpdate).interfaces[k].config.instance_id;
            c.resolved == (match c.explicit {
                Some(id) => id,
                None => i.config.instance_id,
            })
        }),
{
}

/// Deleting an area takes its interfaces with it, and no others.
pub proof fn area_goes_with_its_interfaces(i: InstanceView, a: AreaIndex, k: InterfaceIndex)
    requires
        i.interfaces.contains_key(k),
    ensures
        ({
            let r = event_done(i, EventView::AreaDelete(a));
            &&& !r.areas.contains_key(a)
            &&& r.interfaces.contains_key(k) <==> i.interfaces[k].area != a
            &&& r.interfaces.contains_key(k) ==> r.interfaces[k] == i.interfaces[k]
        }),
{
}

/// A new area type puts what depends on it back to its default, whatever it
/// was before.
pub proof fn area_type_resets(
    a: AreaView,
    b: AreaView,
    q: Set<EventView>,
    d: Defaults,
    version: Version,
    area_idx: AreaIndex,
    area_type: AreaType,
)
    ensures
        ({
            let change = AreaEntryChange::AreaType(area_type);
            let r = area_own_changed(a, q, d, version, area_idx, change)->0;
            let s = area_own_changed(b, q, d, version, area_idx, change)->0;
            r.0.config == s.0.config
        }),
{
}

} // verus!
