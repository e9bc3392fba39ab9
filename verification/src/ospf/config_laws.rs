//! What the configuration of OSPF promises: how it is taken over, and what is done about
//! its changes.

use vstd::prelude::*;

use crate::bfd::client::ClientCfg;
use crate::collections::{filter_map, flat_map};
use crate::crypto::CryptoAlgo;
use crate::ip::{AddressFamily, IpAddr, IpNetwork, Ipv4Addr};
use crate::northbound::configuration::{ConfigOp, InheritableConfig};
use crate::northbound::error::ValidationError;
use crate::northbound::trace::{flag_changed, slot_changed, slot_notes, TraceFlagChange, TraceFlagEntryChange};
use crate::ospf::configuration::{
    adj_sid_area_fn, adj_sid_fn, area_actions, area_own_changed, area_with_id, delete_actions, delete_fn,
    event_actions, event_done, first_area, first_named, first_repeated, instance_actions, instance_changed,
    interface_actions, interface_changed, interface_entry_changed, interface_named, interface_trace_options_changed,
    kill_fn, neighbor_actions, neighbor_fn, nexthops_without, packets_changed, packets_in_force, repeats,
    sync_area_fn, sync_fn, trace_options_changed, vlink_changed, vlink_entry_changed, vlink_text, ActionView,
    AreaCfg, AreaChange, AreaEntryChange, AreaIndex, AreaInterfaceChange, AreaInterfaceEntryChange, AreaRangeChange,
    AreaRangeEntryChange, AreaType, AreaView, AreaVirtualLinkChange, AreaVirtualLinkEntryChange, BierOspfCfg,
    ConfigChange, Defaults, EventView, Instance, InstanceCfg, InstanceCfgView, InstanceGrCfg, InstanceTraceOption,
    InstanceTraceOptions, InstanceView, Interface, InterfaceCfg, InterfaceCfgView, InterfaceContext,
    InterfaceTraceOption, InterfaceTraceOptions, InterfaceView, LsaOriginateEvent, NameNode, NeighborAction,
    NeighborState, PacketType, Preference, RangeCfg, StaticNbr, StaticNeighborChange, StaticNeighborEntryChange,
    TraceOptionPacket, TraceOptionPacketResolved, TraceOptionPacketType, Version, VirtualLinkKey,
};
use crate::ospf::spf::{InterfaceIndex, InterfaceType, Nexthop, NexthopKey};
use crate::text::{ipv4_text, opt_text};

verus! {

// ===== leaves =====

/// Whether a change is applied so that the instance has that configuration, just these
/// events are queued, and nothing else of the instance changes.
pub open spec fn becomes(
    i: InstanceView,
    q: Set<EventView>,
    change: ConfigChange,
    c: InstanceCfgView,
    events: Set<EventView>,
) -> bool {
    instance_changed(i, q, change) == Some((InstanceView { config: c, ..i }, events))
}

/// Whether a change within an interface is applied so that it has that configuration and
/// just these events are queued.
pub open spec fn cfg_becomes(
    c: InterfaceCfgView,
    q: Set<EventView>,
    x: InterfaceContext,
    change: AreaInterfaceEntryChange,
    after: InterfaceCfgView,
    events: Set<EventView>,
) -> bool {
    interface_entry_changed(c, q, x, change) == Some((after, events))
}

/// Whether a change within a virtual link is applied so that it has that configuration and
/// just these events are queued.
pub open spec fn link_becomes(
    c: InterfaceCfgView,
    q: Set<EventView>,
    a: AreaIndex,
    k: InterfaceIndex,
    change: AreaVirtualLinkEntryChange,
    after: InterfaceCfgView,
    events: Set<EventView>,
) -> bool {
    vlink_entry_changed(c, q, a, k, change) == (after, events)
}

/// Each leaf of the instance takes the configured value, and no other one changes. What
/// depends on it is to be done anew, and nothing else.
#[verifier::spinoff_prover]
#[verifier::rlimit(40)]
pub proof fn instance_leaves_are_taken_as_configured(
    i: InstanceView,
    q: Set<EventView>,
    af: Option<AddressFamily>,
    enabled: bool,
    strict_lsa_checking: bool,
    max_paths: u16,
    initial_delay: u32,
    short_delay: u32,
    long_delay: u32,
    hold_down: u32,
    time_to_learn: u32,
    extended_lsa: bool,
    sr_enabled: bool,
    instance_id: u8,
    enable: bool,
    advertise: bool,
    receive: bool,
)
    ensures
        becomes(
            i,
            q,
            ConfigChange::AddressFamily(af),
            InstanceCfgView { af, ..i.config },
            q.insert(EventView::InstanceReset),
        ),
        becomes(
            i,
            q,
            ConfigChange::Enabled(enabled),
            InstanceCfgView { enabled, ..i.config },
            q.insert(EventView::InstanceUpdate),
        ),
        becomes(
            i,
            q,
            ConfigChange::GracefulRestartHelperEnabled(enabled),
            InstanceCfgView { gr: InstanceGrCfg { helper_enabled: enabled, ..i.config.gr }, ..i.config },
            q.insert(EventView::GrHelperChange),
        ),
        becomes(
            i,
            q,
            ConfigChange::GracefulRestartHelperStrictLsaChecking(strict_lsa_checking),
            InstanceCfgView {
                gr: InstanceGrCfg { helper_strict_lsa_checking: strict_lsa_checking, ..i.config.gr },
                ..i.config
            },
            q,
        ),
        becomes(
            i,
            q,
            ConfigChange::SpfControlPaths(max_paths),
            InstanceCfgView { max_paths, ..i.config },
            q.insert(EventView::RerunSpf),
        ),
        becomes(
            i,
            q,
            ConfigChange::SpfControlIetfSpfDelayInitialDelay(initial_delay),
            InstanceCfgView { spf_initial_delay: initial_delay, ..i.config },
            q,
        ),
        becomes(
            i,
            q,
            ConfigChange::SpfControlIetfSpfDelayShortDelay(short_delay),
            InstanceCfgView { spf_short_delay: short_delay, ..i.config },
            q,
        ),
        becomes(
            i,
            q,
            ConfigChange::SpfControlIetfSpfDelayLongDelay(long_delay),
            InstanceCfgView { spf_long_delay: long_delay, ..i.config },
            q,
        ),
        becomes(
            i,
            q,
            ConfigChange::SpfControlIetfSpfDelayHoldDown(hold_down),
            InstanceCfgView { spf_hold_down: hold_down, ..i.config },
            q,
        ),
        becomes(
            i,
            q,
            ConfigChange::SpfControlIetfSpfDelayTimeToLearn(time_to_learn),
            InstanceCfgView { spf_time_to_learn: time_to_learn, ..i.config },
            q,
        ),
        becomes(
            i,
            q,
            ConfigChange::ExtendedLsaSupport(Some(extended_lsa)),
            InstanceCfgView { extended_lsa, ..i.config },
            q.insert(EventView::InstanceReset),
        ),
        becomes(i, q, ConfigChange::ExtendedLsaSupport(None), i.config, q),
        becomes(
            i,
            q,
            ConfigChange::SegmentRoutingEnabled(sr_enabled),
            InstanceCfgView { sr_enabled, ..i.config },
            q.insert(EventView::SrEnableChange(sr_enabled)),
        ),
        becomes(
            i,
            q,
            ConfigChange::InstanceId(Some(instance_id)),
            InstanceCfgView { instance_id, ..i.config },
            q.insert(EventView::InstanceIdUpdate),
        ),
        becomes(i, q, ConfigChange::InstanceId(None), i.config, q),
        becomes(
            i,
            q,
            ConfigChange::BierBierEnable(enable),
            InstanceCfgView { bier: BierOspfCfg { enabled: enable, ..i.config.bier }, ..i.config },
            q.insert(EventView::BierEnableChange(enable)),
        ),
        becomes(
            i,
            q,
            ConfigChange::BierBierAdvertise(advertise),
            InstanceCfgView { bier: BierOspfCfg { advertise, ..i.config.bier }, ..i.config },
            q,
        ),
        becomes(
            i,
            q,
            ConfigChange::BierBierReceive(receive),
            InstanceCfgView { bier: BierOspfCfg { receive, ..i.config.bier }, ..i.config },
            q,
        ),
{
}

/// Each leaf of an interface takes the configured value, and no other one changes. What
/// depends on it is to be done anew, and nothing else.
#[verifier::spinoff_prover]
#[verifier::rlimit(40)]
pub proof fn interface_leaves_are_taken_as_configured(
    c: InterfaceCfgView,
    q: Set<EventView>,
    x: InterfaceContext,
    if_type: InterfaceType,
    passive: bool,
    priority: u8,
    node_flag: bool,
    anycast_flag: bool,
    enabled: bool,
    local_multiplier: u8,
    min_tx: u32,
    min_rx: u32,
    min_interval: u32,
    hello_interval: u16,
    dead_interval: u16,
    retransmit_interval: u16,
    transmit_delay: u16,
    cost: u16,
    mtu_ignore: bool,
    keychain: Option<String>,
    key_id: Option<u32>,
    key: Option<String>,
    algo: Option<CryptoAlgo>,
)
    ensures
        cfg_becomes(
            c,
            q,
            x,
            AreaInterfaceEntryChange::InterfaceType(if_type),
            InterfaceCfgView { if_type, ..c },
            q.insert(EventView::InterfaceReset(x.area_idx, x.iface_idx)),
        ),
        cfg_becomes(
            c,
            q,
            x,
            AreaInterfaceEntryChange::Passive(passive),
            InterfaceCfgView { passive, ..c },
            q.insert(EventView::InterfaceReset(x.area_idx, x.iface_idx)),
        ),
        cfg_becomes(
            c,
            q,
            x,
            AreaInterfaceEntryChange::Priority(priority),
            InterfaceCfgView { priority, ..c },
            q.insert(
                EventView::InterfacePriorityChange(x.area_idx, x.iface_idx),
            ).insert(EventView::InterfaceSyncHelloTx(x.area_idx, x.iface_idx)),
        ),
        cfg_becomes(
            c,
            q,
            x,
            AreaInterfaceEntryChange::NodeFlag(node_flag),
            InterfaceCfgView { node_flag, ..c },
            q.insert(EventView::AreaInterfaceTraceOptionsFlagChange(x.area_idx)),
        ),
        cfg_becomes(
            c,
            q,
            x,
            AreaInterfaceEntryChange::AnycastFlag(Some(anycast_flag)),
            InterfaceCfgView { anycast_flag, ..c },
            q.insert(EventView::AreaInterfaceTraceOptionsFlagChange(x.area_idx)),
        ),
        cfg_becomes(c, q, x, AreaInterfaceEntryChange::AnycastFlag(None), c, q),
        cfg_becomes(
            c,
            q,
            x,
            AreaInterfaceEntryChange::BfdEnabled(enabled),
            InterfaceCfgView { bfd_enabled: enabled, ..c },
            q.insert(EventView::InterfaceBfdChange(x.iface_idx)),
        ),
        cfg_becomes(
            c,
            q,
            x,
            AreaInterfaceEntryChange::BfdLocalMultiplier(local_multiplier),
            InterfaceCfgView { bfd_params: ClientCfg { local_multiplier, ..c.bfd_params }, ..c },
            q.insert(EventView::InterfaceBfdChange(x.iface_idx)),
        ),
        cfg_becomes(
            c,
            q,
            x,
            AreaInterfaceEntryChange::BfdDesiredMinTxInterval(Some(min_tx)),
            InterfaceCfgView { bfd_params: ClientCfg { min_tx, ..c.bfd_params }, ..c },
            q.insert(EventView::InterfaceBfdChange(x.iface_idx)),
        ),
        cfg_becomes(c, q, x, AreaInterfaceEntryChange::BfdDesiredMinTxInterval(None), c, q),
        cfg_becomes(
            c,
            q,
            x,
            AreaInterfaceEntryChange::BfdRequiredMinRxInterval(Some(min_rx)),
            InterfaceCfgView { bfd_params: ClientCfg { min_rx, ..c.bfd_params }, ..c },
            q.insert(EventView::InterfaceBfdChange(x.iface_idx)),
        ),
        cfg_becomes(c, q, x, AreaInterfaceEntryChange::BfdRequiredMinRxInterval(None), c, q),
        cfg_becomes(
            c,
            q,
            x,
            AreaInterfaceEntryChange::BfdMinInterval(Some(min_interval)),
            InterfaceCfgView {
                bfd_params: ClientCfg { min_tx: min_interval, min_rx: min_interval, ..c.bfd_params },
                ..c
            },
            q.insert(EventView::InterfaceBfdChange(x.iface_idx)),
        ),
        cfg_becomes(c, q, x, AreaInterfaceEntryChange::BfdMinInterval(None), c, q),
        cfg_becomes(
            c,
            q,
            x,
            AreaInterfaceEntryChange::HelloInterval(hello_interval),
            InterfaceCfgView { hello_interval, ..c },
            q.insert(
                EventView::InterfaceResetHelloInterval(x.area_idx, x.iface_idx),
            ).insert(EventView::InterfaceSyncHelloTx(x.area_idx, x.iface_idx)),
        ),
        cfg_becomes(
            c,
            q,
            x,
            AreaInterfaceEntryChange::DeadInterval(dead_interval),
            InterfaceCfgView { dead_interval, ..c },
            q.insert(
                EventView::InterfaceResetDeadInterval(x.area_idx, x.iface_idx),
            ).insert(EventView::InterfaceSyncHelloTx(x.area_idx, x.iface_idx)),
        ),
        cfg_becomes(
            c,
            q,
            x,
            AreaInterfaceEntryChange::RetransmitInterval(retransmit_interval),
            InterfaceCfgView { retransmit_interval, ..c },
            q,
        ),
        cfg_becomes(
            c,
            q,
            x,
            AreaInterfaceEntryChange::TransmitDelay(transmit_delay),
            InterfaceCfgView { transmit_delay, ..c },
            q,
        ),
        cfg_becomes(
            c,
            q,
            x,
            AreaInterfaceEntryChange::Lls(enabled),
            InterfaceCfgView { lls_enabled: enabled, ..c },
            q,
        ),
        cfg_becomes(
            c,
            q,
            x,
            AreaInterfaceEntryChange::Enabled(enabled),
            InterfaceCfgView { enabled, ..c },
            q.insert(EventView::InterfaceUpdate(x.area_idx, x.iface_idx)),
        ),
        cfg_becomes(
            c,
            q,
            x,
            AreaInterfaceEntryChange::Cost(cost),
            InterfaceCfgView { cost, ..c },
            q.insert(EventView::InterfaceCostChange(x.area_idx)),
        ),
        cfg_becomes(
            c,
            q,
            x,
            AreaInterfaceEntryChange::MtuIgnore(mtu_ignore),
            InterfaceCfgView { mtu_ignore, ..c },
            q,
        ),
        cfg_becomes(
            c,
            q,
            x,
            AreaInterfaceEntryChange::AuthenticationOspfv2KeyChain(keychain),
            InterfaceCfgView { auth_keychain: opt_text(keychain), ..c },
            q.insert(EventView::InterfaceUpdateAuth(x.area_idx, x.iface_idx)),
        ),
        cfg_becomes(
            c,
            q,
            x,
            AreaInterfaceEntryChange::AuthenticationOspfv3KeyChain(keychain),
            InterfaceCfgView { auth_keychain: opt_text(keychain), ..c },
            q.insert(EventView::InterfaceUpdateAuth(x.area_idx, x.iface_idx)),
        ),
        cfg_becomes(
            c,
            q,
            x,
            AreaInterfaceEntryChange::AuthenticationOspfv2KeyId(key_id),
            InterfaceCfgView { auth_keyid: key_id, ..c },
            q.insert(EventView::InterfaceUpdateAuth(x.area_idx, x.iface_idx)),
        ),
        cfg_becomes(
            c,
            q,
            x,
            AreaInterfaceEntryChange::AuthenticationOspfv2Key(key),
            InterfaceCfgView { auth_key: opt_text(key), ..c },
            q.insert(EventView::InterfaceUpdateAuth(x.area_idx, x.iface_idx)),
        ),
        cfg_becomes(
            c,
            q,
            x,
            AreaInterfaceEntryChange::AuthenticationOspfv3Key(key),
            InterfaceCfgView { auth_key: opt_text(key), ..c },
            q.insert(EventView::InterfaceUpdateAuth(x.area_idx, x.iface_idx)),
        ),
        cfg_becomes(
            c,
            q,
            x,
            AreaInterfaceEntryChange::AuthenticationOspfv2CryptoAlgorithm(algo),
            InterfaceCfgView { auth_algo: algo, ..c },
            q.insert(EventView::InterfaceUpdateAuth(x.area_idx, x.iface_idx)),
        ),
        cfg_becomes(
            c,
            q,
            x,
            AreaInterfaceEntryChange::AuthenticationOspfv3CryptoAlgorithm(algo),
            InterfaceCfgView { auth_algo: algo, ..c },
            q.insert(EventView::InterfaceUpdateAuth(x.area_idx, x.iface_idx)),
        ),
{
}

/// Each leaf of a virtual link takes the configured value, and no other one changes. What
/// depends on it is to be done anew, and nothing else.
#[verifier::spinoff_prover]
#[verifier::rlimit(40)]
pub proof fn virtual_link_leaves_are_taken_as_configured(
    c: InterfaceCfgView,
    q: Set<EventView>,
    a: AreaIndex,
    k: InterfaceIndex,
    hello_interval: u16,
    dead_interval: u16,
    retransmit_interval: u16,
    transmit_delay: u16,
    enabled: bool,
    keychain: Option<String>,
    key_id: Option<u32>,
    key: Option<String>,
    algo: Option<CryptoAlgo>,
)
    ensures
        link_becomes(
            c,
            q,
            a,
            k,
            AreaVirtualLinkEntryChange::HelloInterval(hello_interval),
            InterfaceCfgView { hello_interval, ..c },
            q.insert(
                EventView::InterfaceResetHelloInterval(a, k),
            ).insert(EventView::InterfaceSyncHelloTx(a, k)),
        ),
        link_becomes(
            c,
            q,
            a,
            k,
            AreaVirtualLinkEntryChange::DeadInterval(dead_interval),
            InterfaceCfgView { dead_interval, ..c },
            q.insert(EventView::InterfaceResetDeadInterval(a, k)).insert(EventView::InterfaceSyncHelloTx(a, k)),
        ),
        link_becomes(
            c,
            q,
            a,
            k,
            AreaVirtualLinkEntryChange::RetransmitInterval(retransmit_interval),
            InterfaceCfgView { retransmit_interval, ..c },
            q,
        ),
        link_becomes(
            c,
            q,
            a,
            k,
            AreaVirtualLinkEntryChange::TransmitDelay(transmit_delay),
            InterfaceCfgView { transmit_delay, ..c },
            q,
        ),
        link_becomes(
            c,
            q,
            a,
            k,
            AreaVirtualLinkEntryChange::Lls(enabled),
            InterfaceCfgView { lls_enabled: enabled, ..c },
            q,
        ),
        link_becomes(
            c,
            q,
            a,
            k,
            AreaVirtualLinkEntryChange::Enabled(enabled),
            InterfaceCfgView { enabled, ..c },
            q.insert(EventView::InterfaceUpdate(a, k)),
        ),
        link_becomes(
            c,
            q,
            a,
            k,
            AreaVirtualLinkEntryChange::AuthenticationOspfv2KeyChain(keychain),
            InterfaceCfgView { auth_keychain: opt_text(keychain), ..c },
            q.insert(EventView::InterfaceUpdateAuth(a, k)),
        ),
        link_becomes(
            c,
            q,
            a,
            k,
            AreaVirtualLinkEntryChange::AuthenticationOspfv3KeyChain(keychain),
            InterfaceCfgView { auth_keychain: opt_text(keychain), ..c },
            q.insert(EventView::InterfaceUpdateAuth(a, k)),
        ),
        link_becomes(
            c,
            q,
            a,
            k,
            AreaVirtualLinkEntryChange::AuthenticationOspfv2KeyId(key_id),
            InterfaceCfgView { auth_keyid: key_id, ..c },
            q.insert(EventView::InterfaceUpdateAuth(a, k)),
        ),
        link_becomes(
            c,
            q,
            a,
            k,
            AreaVirtualLinkEntryChange::AuthenticationOspfv2Key(key),
            InterfaceCfgView { auth_key: opt_text(key), ..c },
            q.insert(EventView::InterfaceUpdateAuth(a, k)),
        ),
        link_becomes(
            c,
            q,
            a,
            k,
            AreaVirtualLinkEntryChange::AuthenticationOspfv3Key(key),
            InterfaceCfgView { auth_key: opt_text(key), ..c },
            q.insert(EventView::InterfaceUpdateAuth(a, k)),
        ),
        link_becomes(
            c,
            q,
            a,
            k,
            AreaVirtualLinkEntryChange::AuthenticationOspfv2CryptoAlgorithm(algo),
            InterfaceCfgView { auth_algo: algo, ..c },
            q.insert(EventView::InterfaceUpdateAuth(a, k)),
        ),
        link_becomes(
            c,
            q,
            a,
            k,
            AreaVirtualLinkEntryChange::AuthenticationOspfv3CryptoAlgorithm(algo),
            InterfaceCfgView { auth_algo: algo, ..c },
            q.insert(EventView::InterfaceUpdateAuth(a, k)),
        ),
{
}

/// Configuration starts out with the defaults of the schema, and empty where it has none.
pub proof fn configuration_starts_out_with_defaults(d: Defaults)
    ensures
        InstanceCfg::initial(d).af is None,
        InstanceCfg::initial(d).enabled == d.enabled,
        InstanceCfg::initial(d).router_id is None,
        InstanceCfg::initial(d).preference == Preference::initial(d),
        InstanceCfg::initial(d).gr == InstanceGrCfg::initial(d),
        InstanceCfg::initial(d).max_paths == d.max_paths,
        InstanceCfg::initial(d).spf_initial_delay == d.spf_initial_delay,
        InstanceCfg::initial(d).spf_short_delay == d.spf_short_delay,
        InstanceCfg::initial(d).spf_long_delay == d.spf_long_delay,
        InstanceCfg::initial(d).spf_hold_down == d.spf_hold_down,
        InstanceCfg::initial(d).spf_time_to_learn == d.spf_time_to_learn,
        !InstanceCfg::initial(d).stub_router,
        InstanceCfg::initial(d).node_tags.is_empty(),
        InstanceCfg::initial(d).extended_lsa == d.extended_lsa,
        InstanceCfg::initial(d).sr_enabled == d.sr_enabled,
        InstanceCfg::initial(d).instance_id == d.instance_id,
        InstanceCfg::initial(d).bier == BierOspfCfg::initial(d),
        InstanceCfg::initial(d).trace_opts == InstanceTraceOptions::initial(),
        BierOspfCfg::initial(d).mt_id == 0,
        BierOspfCfg::initial(d).enabled == d.bier_enabled,
        BierOspfCfg::initial(d).advertise == d.bier_advertise,
        BierOspfCfg::initial(d).receive == d.bier_receive,
        Preference::initial(d).intra_area == d.preference,
        Preference::initial(d).inter_area == d.preference,
        Preference::initial(d).external == d.preference,
        InstanceGrCfg::initial(d).helper_enabled == d.helper_enabled,
        InstanceGrCfg::initial(d).helper_strict_lsa_checking == d.helper_strict_lsa_checking,
        !InstanceTraceOptions::initial().flooding,
        !InstanceTraceOptions::initial().gr,
        !InstanceTraceOptions::initial().ibus,
        !InstanceTraceOptions::initial().lsdb,
        !InstanceTraceOptions::initial().neighbor,
        InstanceTraceOptions::initial().packets == TraceOptionPacket::initial(),
        !InstanceTraceOptions::initial().spf,
        AreaCfg::initial(d).area_type == d.area_type,
        AreaCfg::initial(d).summary == d.area_summary,
        AreaCfg::initial(d).default_cost == d.area_default_cost,
        RangeCfg::initial(d).advertise == d.range_advertise,
        RangeCfg::initial(d).cost is None,
        InterfaceCfg::initial(d).instance_id == (InheritableConfig { explicit: None, resolved: d.instance_id }),
        InterfaceCfg::initial(d).if_type == d.if_type,
        InterfaceCfg::initial(d).passive == d.passive,
        InterfaceCfg::initial(d).priority == d.priority,
        InterfaceCfg::initial(d).hello_interval == d.hello_interval,
        InterfaceCfg::initial(d).dead_interval == d.dead_interval,
        InterfaceCfg::initial(d).retransmit_interval == d.retransmit_interval,
        InterfaceCfg::initial(d).transmit_delay == d.transmit_delay,
        InterfaceCfg::initial(d).enabled == d.iface_enabled,
        InterfaceCfg::initial(d).cost == d.cost,
        InterfaceCfg::initial(d).mtu_ignore == d.mtu_ignore,
        InterfaceCfg::initial(d).node_flag == d.node_flag,
        InterfaceCfg::initial(d).anycast_flag == d.anycast_flag,
        InterfaceCfg::initial(d).static_nbrs.dom().is_empty(),
        InterfaceCfg::initial(d).auth_keychain is None,
        InterfaceCfg::initial(d).auth_keyid is None,
        InterfaceCfg::initial(d).auth_key is None,
        InterfaceCfg::initial(d).auth_algo is None,
        InterfaceCfg::initial(d).bfd_enabled == d.bfd_enabled,
        InterfaceCfg::initial(d).bfd_params == d.bfd_params,
        InterfaceCfg::initial(d).trace_opts == InterfaceTraceOptions::initial(),
        InterfaceCfg::initial(d).lls_enabled == d.lls_enabled,
        StaticNbr::initial(d).cost is None,
        StaticNbr::initial(d).poll_interval == d.nbr_poll_interval,
        StaticNbr::initial(d).priority == d.nbr_priority,
        InterfaceTraceOptions::initial().packets == TraceOptionPacket::initial(),
        InterfaceTraceOptions::initial().packets_resolved == TraceOptionPacketResolved::initial(),
        TraceOptionPacket::initial().all is None,
        TraceOptionPacket::initial().hello is None,
        TraceOptionPacket::initial().dbdesc is None,
        TraceOptionPacket::initial().lsreq is None,
        TraceOptionPacket::initial().lsupd is None,
        TraceOptionPacket::initial().lsack is None,
        TraceOptionPacketResolved::initial().hello == (TraceOptionPacketType { tx: false, rx: false }),
        TraceOptionPacketResolved::initial().dbdesc == (TraceOptionPacketType { tx: false, rx: false }),
        TraceOptionPacketResolved::initial().lsreq == (TraceOptionPacketType { tx: false, rx: false }),
        TraceOptionPacketResolved::initial().lsupd == (TraceOptionPacketType { tx: false, rx: false }),
        TraceOptionPacketResolved::initial().lsack == (TraceOptionPacketType { tx: false, rx: false }),
{
}

/// Preferences take the configured value, or the default of the schema without one: one
/// of their own, that of internal routes both within and between areas, and that of all
/// routes all of them. Routes are then installed anew.
pub proof fn preferences_are_taken_as_configured(i: InstanceView, q: Set<EventView>, n: u8)
    ensures
        ({
            let p = i.config.preference;
            let d = i.defaults.preference;
            let all = q.insert(EventView::ReinstallRoutes);
            let with = |p: Preference| InstanceCfgView { preference: p, ..i.config };
            &&& becomes(
                i,
                q,
                ConfigChange::PreferenceAll(Some(n)),
                with(Preference { intra_area: n, inter_area: n, external: n }),
                all,
            )
            &&& becomes(
                i,
                q,
                ConfigChange::PreferenceAll(None),
                with(Preference { intra_area: d, inter_area: d, external: d }),
                all,
            )
            &&& becomes(
                i,
                q,
                ConfigChange::PreferenceInternal(Some(n)),
                with(Preference { intra_area: n, inter_area: n, external: p.external }),
                all,
            )
            &&& becomes(
                i,
                q,
                ConfigChange::PreferenceInternal(None),
                with(Preference { intra_area: d, inter_area: d, external: p.external }),
                all,
            )
            &&& becomes(
                i,
                q,
                ConfigChange::PreferenceIntraArea(Some(n)),
                with(Preference { intra_area: n, inter_area: p.inter_area, external: p.external }),
                all,
            )
            &&& becomes(
                i,
                q,
                ConfigChange::PreferenceIntraArea(None),
                with(Preference { intra_area: d, inter_area: p.inter_area, external: p.external }),
                all,
            )
            &&& becomes(
                i,
                q,
                ConfigChange::PreferenceInterArea(Some(n)),
                with(Preference { intra_area: p.intra_area, inter_area: n, external: p.external }),
                all,
            )
            &&& becomes(
                i,
                q,
                ConfigChange::PreferenceInterArea(None),
                with(Preference { intra_area: p.intra_area, inter_area: d, external: p.external }),
                all,
            )
            &&& becomes(
                i,
                q,
                ConfigChange::PreferenceExternal(Some(n)),
                with(Preference { intra_area: p.intra_area, inter_area: p.inter_area, external: n }),
                all,
            )
            &&& becomes(
                i,
                q,
                ConfigChange::PreferenceExternal(None),
                with(Preference { intra_area: p.intra_area, inter_area: p.inter_area, external: d }),
                all,
            )
        }),
{
}

/// A configured Router ID resets the instance only if it changes the one in use: the
/// configured one, or else that of the system.
pub proof fn router_id_changes_reset(i: InstanceView, q: Set<EventView>, id: Ipv4Addr, sys: Ipv4Addr)
    ensures
        ({
            let reset = q.insert(EventView::InstanceReset).insert(EventView::InstanceUpdate);
            let set = ConfigChange::ExplicitRouterId(Some(id));
            let unset = ConfigChange::ExplicitRouterId(None);
            let with = InstanceCfgView { router_id: Some(id), ..i.config };
            let without = InstanceCfgView { router_id: None, ..i.config };
            &&& i.config.router_id == Some(id) ==> becomes(i, q, set, with, q)
            &&& i.config.router_id is Some && i.config.router_id != Some(id) ==> becomes(i, q, set, with, reset)
            &&& i.config.router_id is None && i.system_router_id == Some(id) ==> becomes(i, q, set, with, q)
            &&& i.config.router_id is None && i.system_router_id != Some(id) ==> becomes(i, q, set, with, reset)
            &&& i.config.router_id is None ==> becomes(i, q, unset, without, q)
            &&& i.config.router_id == Some(id) && i.system_router_id == Some(id) ==> becomes(i, q, unset, without, q)
            &&& i.config.router_id == Some(id) && i.system_router_id == Some(sys) && id != sys ==> becomes(
                i,
                q,
                unset,
                without,
                reset,
            )
            &&& i.config.router_id == Some(id) && i.system_router_id is None ==> becomes(i, q, unset, without, reset)
        }),
{
}

/// The remaining leaves: a stub router is one as long as it is configured so, node tags
/// come and go, and BIER runs in topology zero without another one.
pub proof fn switches_and_tags_are_taken_as_configured(i: InstanceView, q: Set<EventView>, n: u8, tag: u32)
    ensures
        becomes(
            i,
            q,
            ConfigChange::StubRouterAlways(ConfigOp::Create),
            InstanceCfgView { stub_router: true, ..i.config },
            q.insert(EventView::StubRouterChange),
        ),
        becomes(
            i,
            q,
            ConfigChange::StubRouterAlways(ConfigOp::Delete),
            InstanceCfgView { stub_router: false, ..i.config },
            q.insert(EventView::StubRouterChange),
        ),
        becomes(
            i,
            q,
            ConfigChange::BierMtId(Some(n)),
            InstanceCfgView { bier: BierOspfCfg { mt_id: n, ..i.config.bier }, ..i.config },
            q,
        ),
        becomes(
            i,
            q,
            ConfigChange::BierMtId(None),
            InstanceCfgView { bier: BierOspfCfg { mt_id: 0, ..i.config.bier }, ..i.config },
            q,
        ),
        becomes(
            i,
            q,
            ConfigChange::NodeTag(tag, ConfigOp::Create),
            InstanceCfgView { node_tags: i.config.node_tags.insert(tag), ..i.config },
            q.insert(EventView::NodeTagsChange),
        ),
        becomes(
            i,
            q,
            ConfigChange::NodeTag(tag, ConfigOp::Delete),
            InstanceCfgView { node_tags: i.config.node_tags.remove(tag), ..i.config },
            q.insert(EventView::NodeTagsChange),
        ),
{
}

/// The Instance ID of an interface is its own, or else that of the instance. Security
/// associations are numbered as keys are.
pub proof fn identifiers_are_taken_as_configured(
    c: InterfaceCfgView,
    q: Set<EventView>,
    x: InterfaceContext,
    n: u8,
    s: u16,
)
    ensures
        cfg_becomes(
            c,
            q,
            x,
            AreaInterfaceEntryChange::InstanceId(Some(n)),
            InterfaceCfgView { instance_id: InheritableConfig { explicit: Some(n), resolved: n }, ..c },
            q.insert(EventView::InterfaceSyncHelloTx(x.area_idx, x.iface_idx)),
        ),
        cfg_becomes(
            c,
            q,
            x,
            AreaInterfaceEntryChange::InstanceId(None),
            InterfaceCfgView { instance_id: InheritableConfig { explicit: None, resolved: x.instance_id }, ..c },
            q.insert(EventView::InterfaceSyncHelloTx(x.area_idx, x.iface_idx)),
        ),
        cfg_becomes(
            c,
            q,
            x,
            AreaInterfaceEntryChange::AuthenticationOspfv3SaId(Some(s)),
            InterfaceCfgView { auth_keyid: Some(s as u32), ..c },
            q.insert(EventView::InterfaceUpdateAuth(x.area_idx, x.iface_idx)),
        ),
        cfg_becomes(
            c,
            q,
            x,
            AreaInterfaceEntryChange::AuthenticationOspfv3SaId(None),
            InterfaceCfgView { auth_keyid: None, ..c },
            q.insert(EventView::InterfaceUpdateAuth(x.area_idx, x.iface_idx)),
        ),
        link_becomes(
            c,
            q,
            x.area_idx,
            x.iface_idx,
            AreaVirtualLinkEntryChange::AuthenticationOspfv3SaId(Some(s)),
            InterfaceCfgView { auth_keyid: Some(s as u32), ..c },
            q.insert(EventView::InterfaceUpdateAuth(x.area_idx, x.iface_idx)),
        ),
        link_becomes(
            c,
            q,
            x.area_idx,
            x.iface_idx,
            AreaVirtualLinkEntryChange::AuthenticationOspfv3SaId(None),
            InterfaceCfgView { auth_keyid: None, ..c },
            q.insert(EventView::InterfaceUpdateAuth(x.area_idx, x.iface_idx)),
        ),
{
}

// ===== trace options =====

/// Packets are traced as the option of their type says.
pub proof fn packets_are_traced_by_type(p: TraceOptionPacketResolved)
    ensures
        p.on(PacketType::Hello) == p.hello,
        p.on(PacketType::DbDesc) == p.dbdesc,
        p.on(PacketType::LsRequest) == p.lsreq,
        p.on(PacketType::LsUpdate) == p.lsupd,
        p.on(PacketType::LsAck) == p.lsack,
{
}

/// The nearest of the options that apply: the own one on the type, the own one on all, that
/// of the instance on the type, that of the instance on all, or else none.
pub open spec fn nearest(
    own: Option<TraceOptionPacketType>,
    all: Option<TraceOptionPacketType>,
    up: Option<TraceOptionPacketType>,
    up_all: Option<TraceOptionPacketType>,
    r: TraceOptionPacketType,
) -> bool {
    &&& own is Some ==> r == own->0
    &&& own is None && all is Some ==> r == all->0
    &&& own is None && all is None && up is Some ==> r == up->0
    &&& own is None && all is None && up is None && up_all is Some ==> r == up_all->0
    &&& own is None && all is None && up is None && up_all is None ==> !r.tx && !r.rx
}

/// An option on packets of an interface goes before that of the instance, and one on their
/// type before one on all. Without any, nothing is traced.
pub proof fn nearer_trace_options_go_first(own: TraceOptionPacket, up: TraceOptionPacket)
    ensures
        nearest(own.hello, own.all, up.hello, up.all, packets_in_force(own, up).hello),
        nearest(own.dbdesc, own.all, up.dbdesc, up.all, packets_in_force(own, up).dbdesc),
        nearest(own.lsreq, own.all, up.lsreq, up.all, packets_in_force(own, up).lsreq),
        nearest(own.lsupd, own.all, up.lsupd, up.all, packets_in_force(own, up).lsupd),
        nearest(own.lsack, own.all, up.lsack, up.all, packets_in_force(own, up).lsack),
{
}

/// Each trace option changes its own flag or its own type of packets.
pub proof fn trace_options_change_their_own(
    c: InstanceTraceOptions,
    f: InterfaceTraceOptions,
    change: TraceFlagChange,
    d: TraceOptionPacketType,
)
    ensures
        ({
            let r = |o: InstanceTraceOption| trace_options_changed(c, o, change, d);
            let p = |x: TraceOptionPacket| InstanceTraceOptions { packets: x, ..c };
            &&& r(InstanceTraceOption::Flooding) == (InstanceTraceOptions {
                flooding: flag_changed(c.flooding, change),
                ..c
            })
            &&& r(InstanceTraceOption::GracefulRestart) == (InstanceTraceOptions {
                gr: flag_changed(c.gr, change),
                ..c
            })
            &&& r(InstanceTraceOption::InternalBus) == (InstanceTraceOptions {
                ibus: flag_changed(c.ibus, change),
                ..c
            })
            &&& r(InstanceTraceOption::Lsdb) == (InstanceTraceOptions { lsdb: flag_changed(c.lsdb, change), ..c })
            &&& r(InstanceTraceOption::Neighbor) == (InstanceTraceOptions {
                neighbor: flag_changed(c.neighbor, change),
                ..c
            })
            &&& r(InstanceTraceOption::Spf) == (InstanceTraceOptions { spf: flag_changed(c.spf, change), ..c })
            &&& r(InstanceTraceOption::PacketsAll) == p(
                TraceOptionPacket { all: slot_changed(c.packets.all, change, d), ..c.packets },
            )
            &&& r(InstanceTraceOption::PacketsHello) == p(
                TraceOptionPacket { hello: slot_changed(c.packets.hello, change, d), ..c.packets },
            )
            &&& r(InstanceTraceOption::PacketsDbDesc) == p(
                TraceOptionPacket { dbdesc: slot_changed(c.packets.dbdesc, change, d), ..c.packets },
            )
            &&& r(InstanceTraceOption::PacketsLsRequest) == p(
                TraceOptionPacket { lsreq: slot_changed(c.packets.lsreq, change, d), ..c.packets },
            )
            &&& r(InstanceTraceOption::PacketsLsUpdate) == p(
                TraceOptionPacket { lsupd: slot_changed(c.packets.lsupd, change, d), ..c.packets },
            )
            &&& r(InstanceTraceOption::PacketsLsAck) == p(
                TraceOptionPacket { lsack: slot_changed(c.packets.lsack, change, d), ..c.packets },
            )
        }),
        ({
            let r = |o: InterfaceTraceOption| interface_trace_options_changed(f, o, change, d);
            let p = |x: TraceOptionPacket| InterfaceTraceOptions { packets: x, ..f };
            &&& r(InterfaceTraceOption::PacketsAll) == p(
                TraceOptionPacket { all: slot_changed(f.packets.all, change, d), ..f.packets },
            )
            &&& r(InterfaceTraceOption::PacketsHello) == p(
                TraceOptionPacket { hello: slot_changed(f.packets.hello, change, d), ..f.packets },
            )
            &&& r(InterfaceTraceOption::PacketsDbDesc) == p(
                TraceOptionPacket { dbdesc: slot_changed(f.packets.dbdesc, change, d), ..f.packets },
            )
            &&& r(InterfaceTraceOption::PacketsLsRequest) == p(
                TraceOptionPacket { lsreq: slot_changed(f.packets.lsreq, change, d), ..f.packets },
            )
            &&& r(InterfaceTraceOption::PacketsLsUpdate) == p(
                TraceOptionPacket { lsupd: slot_changed(f.packets.lsupd, change, d), ..f.packets },
            )
            &&& r(InterfaceTraceOption::PacketsLsAck) == p(
                TraceOptionPacket { lsack: slot_changed(f.packets.lsack, change, d), ..f.packets },
            )
        }),
{
    reveal(packets_changed);
}

/// Trace options of the instance and of an interface are changed as configured. They are
/// to be put in force, unless the change is within an option that is not there.
#[verifier::spinoff_prover]
#[verifier::rlimit(40)]
pub proof fn trace_changes_are_put_in_force(
    i: InstanceView,
    c: InterfaceCfgView,
    q: Set<EventView>,
    x: InterfaceContext,
    change: TraceFlagChange,
    entry: TraceFlagEntryChange,
)
    ensures
        !(change is Entry) || i.config.trace_opts.packets.hello is Some ==> becomes(
            i,
            q,
            ConfigChange::TraceOptionsFlag(InstanceTraceOption::PacketsHello, change),
            InstanceCfgView {
                trace_opts: trace_options_changed(
                    i.config.trace_opts,
                    InstanceTraceOption::PacketsHello,
                    change,
                    i.defaults.trace,
                ),
                ..i.config
            },
            q.insert(EventView::UpdateTraceOptions),
        ),
        i.config.trace_opts.packets.hello is None ==> (instance_changed(
            i,
            q,
            ConfigChange::TraceOptionsFlag(InstanceTraceOption::PacketsHello, TraceFlagChange::Entry(entry)),
        )->0).1 == q,
        (instance_changed(
            i,
            q,
            ConfigChange::TraceOptionsFlag(InstanceTraceOption::Spf, TraceFlagChange::Create),
        )->0).1 == q.insert(EventView::UpdateTraceOptions),
        (instance_changed(
            i,
            q,
            ConfigChange::TraceOptionsFlag(InstanceTraceOption::Spf, TraceFlagChange::Entry(entry)),
        )->0).1 == q,
        !(change is Entry) || c.trace_opts.packets.hello is Some ==> cfg_becomes(
            c,
            q,
            x,
            AreaInterfaceEntryChange::TraceOptionsFlag(InterfaceTraceOption::PacketsHello, change),
            InterfaceCfgView {
                trace_opts: interface_trace_options_changed(
                    c.trace_opts,
                    InterfaceTraceOption::PacketsHello,
                    change,
                    x.defaults.trace,
                ),
                ..c
            },
            q.insert(EventView::InterfaceUpdateTraceOptions(x.iface_idx)),
        ),
        c.trace_opts.packets.hello is None ==> (interface_entry_changed(
            c,
            q,
            x,
            AreaInterfaceEntryChange::TraceOptionsFlag(
                InterfaceTraceOption::PacketsHello,
                TraceFlagChange::Entry(entry),
            ),
        )->0).1 == q,
{
    reveal(slot_notes);
}

// ===== entries =====

proof fn some_area_is_first(m: Map<AreaIndex, AreaView>, id: Ipv4Addr, k: AreaIndex)
    requires
        m.contains_key(k),
        m[k].id == id,
    ensures
        exists|j: AreaIndex| first_area(m, id, j),
    decreases k,
{
    if !first_area(m, id, k) {
        let j = choose|j: AreaIndex| #[trigger] m.contains_key(j) && j < k && m[j].id == id;
        some_area_is_first(m, id, j);
    }
}

proof fn some_interface_is_first(
    m: Map<InterfaceIndex, InterfaceView>,
    a: AreaIndex,
    name: Seq<char>,
    k: InterfaceIndex,
)
    requires
        m.contains_key(k),
        m[k].name == name,
        m[k].area == a,
    ensures
        exists|j: InterfaceIndex| first_named(m, a, name, j),
    decreases k,
{
    if !first_named(m, a, name, k) {
        let j = choose|j: InterfaceIndex| #[trigger]
            m.contains_key(j) && j < k && m[j].name == name && m[j].area == a;
        some_interface_is_first(m, a, name, j);
    }
}

/// Areas are found by their ID, and interfaces by their area and name.
pub proof fn entries_are_found(i: InstanceView, id: Ipv4Addr, a: AreaIndex, name: Seq<char>, k: InterfaceIndex)
    ensures
        i.areas.contains_key(a) && i.areas[a].id == id ==> area_with_id(i.areas, id) is Some,
        area_with_id(i.areas, id) matches Some(j) ==> i.areas.contains_key(j) && i.areas[j].id == id,
        i.interfaces.contains_key(k) && i.interfaces[k].name == name && i.interfaces[k].area == a ==> interface_named(
            i.interfaces,
            a,
            name,
        ) is Some,
        interface_named(i.interfaces, a, name) matches Some(j) ==> i.interfaces.contains_key(j)
            && i.interfaces[j].name == name && i.interfaces[j].area == a,
{
    if i.areas.contains_key(a) && i.areas[a].id == id {
        some_area_is_first(i.areas, id, a);
    }
    if let Some(j) = area_with_id(i.areas, id) {
        assert(first_area(i.areas, id, j));
    }
    if i.interfaces.contains_key(k) && i.interfaces[k].name == name && i.interfaces[k].area == a {
        some_interface_is_first(i.interfaces, a, name, k);
    }
    if let Some(j) = interface_named(i.interfaces, a, name) {
        assert(first_named(i.interfaces, a, name, j));
    }
}

/// A new area has its ID, the defaults of the schema and no ranges, and is not active. A
/// deleted one stays until its event, upon which routes are computed anew; one that is
/// not there can neither be deleted nor changed.
pub proof fn areas_come_and_go(
    i: InstanceView,
    q: Set<EventView>,
    id: Ipv4Addr,
    a: AreaIndex,
    other: AreaIndex,
    change: AreaEntryChange,
)
    requires
        i.next_area < AreaIndex::MAX,
        other != i.next_area,
    ensures
        ({
            let r = instance_changed(i, q, ConfigChange::Area(id, AreaChange::Create));
            let (j, p) = r->0;
            let n = i.next_area;
            &&& r is Some && j.areas.contains_key(n) && j.next_area == n + 1
            &&& j.areas[n].id == id && j.areas[n].config == AreaCfg::initial(i.defaults) && !j.areas[n].active
            &&& j.areas[n].ranges == Map::<IpNetwork, RangeCfg>::empty()
            &&& j.areas.contains_key(other) == i.areas.contains_key(other) && j.areas[other] == i.areas[other]
            &&& j.interfaces == i.interfaces && j.config == i.config
            &&& p == q.insert(EventView::AreaCreate(n))
        }),
        area_with_id(i.areas, id) == Some(a) ==> instance_changed(
            i,
            q,
            ConfigChange::Area(id, AreaChange::Delete),
        ) == Some((i, q.insert(EventView::AreaDelete(a)).insert(EventView::RerunSpf))),
        area_with_id(i.areas, id) is None ==> {
            &&& instance_changed(i, q, ConfigChange::Area(id, AreaChange::Delete)) is None
            &&& instance_changed(i, q, ConfigChange::Area(id, AreaChange::Entry(change))) is None
        },
{
}

/// Each leaf of an area takes the configured value, and summaries follow. With the type
/// of the area, what depends on it returns to its default, and neighbors hear of it.
pub proof fn area_leaves_are_taken_as_configured(
    i: InstanceView,
    q: Set<EventView>,
    id: Ipv4Addr,
    a: AreaIndex,
    t: AreaType,
    on: bool,
    n: u32,
)
    requires
        area_with_id(i.areas, id) == Some(a),
    ensures
        ({
            let c = i.areas[a];
            let r = |x: AreaEntryChange| instance_changed(i, q, ConfigChange::Area(id, AreaChange::Entry(x)));
            let with = |x: AreaCfg| InstanceView { areas: i.areas.insert(a, AreaView { config: x, ..c }), ..i };
            let all = q.insert(EventView::UpdateSummaries);
            &&& r(AreaEntryChange::AreaType(t)) == Some(
                (
                    with(
                        AreaCfg {
                            area_type: t,
                            summary: i.defaults.area_summary,
                            default_cost: i.defaults.area_default_cost,
                        },
                    ),
                    q.insert(EventView::AreaTypeChange(a)).insert(EventView::AreaSyncHelloTx(a)),
                ),
            )
            &&& r(AreaEntryChange::Summary(Some(on))) == Some((with(AreaCfg { summary: on, ..c.config }), all))
            &&& r(AreaEntryChange::DefaultCost(Some(n))) == Some((with(AreaCfg { default_cost: n, ..c.config }), all))
            &&& area_own_changed(c, q, i.defaults, i.version, a, AreaEntryChange::Summary(None)) == Some((c, q))
            &&& area_own_changed(c, q, i.defaults, i.version, a, AreaEntryChange::DefaultCost(None)) == Some((c, q))
        }),
{
}

/// Address ranges of an area come with the defaults of the schema, take what is configured
/// within them, and go as a whole; one that is not there cannot be changed. Summaries
/// follow. With OSPFv2, ranges of IPv6 are passed over.
pub proof fn ranges_come_and_go(
    a: AreaView,
    q: Set<EventView>,
    d: Defaults,
    v: Version,
    k: AreaIndex,
    prefix: IpNetwork,
    on: bool,
    cost: Option<u32>,
    change: AreaRangeChange,
)
    ensures
        ({
            let r = |x: AreaRangeChange| area_own_changed(a, q, d, v, k, AreaEntryChange::Range(prefix, x));
            let all = q.insert(EventView::UpdateSummaries);
            let with = |m: Map<IpNetwork, RangeCfg>| Some((AreaView { ranges: m, ..a }, all));
            &&& prefix.addr is V4 || v is Ospfv3 ==> {
                &&& r(AreaRangeChange::Create) == with(
                    a.ranges.insert(prefix, RangeCfg { advertise: d.range_advertise, cost: None }),
                )
                &&& r(AreaRangeChange::Delete) == with(a.ranges.remove(prefix))
                &&& a.ranges.contains_key(prefix) ==> r(
                    AreaRangeChange::Entry(AreaRangeEntryChange::Advertise(on)),
                ) == with(a.ranges.insert(prefix, RangeCfg { advertise: on, cost: a.ranges[prefix].cost }))
                &&& a.ranges.contains_key(prefix) ==> r(AreaRangeChange::Entry(AreaRangeEntryChange::Cost(cost)))
                    == with(a.ranges.insert(prefix, RangeCfg { advertise: a.ranges[prefix].advertise, cost }))
                &&& !a.ranges.contains_key(prefix) ==> r(
                    AreaRangeChange::Entry(AreaRangeEntryChange::Cost(cost)),
                ) is None
            }
            &&& prefix.addr is V6 && v is Ospfv2 ==> r(change) == Some((a, q))
        }),
{
}

/// Configured neighbors of an interface come with the defaults of the schema, take what is
/// configured within them, and go as a whole; one that is not there cannot be changed.
/// Neighbors that the version does not run over are passed over.
pub proof fn static_neighbors_come_and_go(
    c: InterfaceCfgView,
    q: Set<EventView>,
    x: InterfaceContext,
    addr: IpAddr,
    cost: Option<u16>,
    n: u16,
    p: u8,
    change: StaticNeighborChange,
)
    ensures
        ({
            let m = c.static_nbrs;
            let d = x.defaults;
            let s = m[addr];
            let r = |y: StaticNeighborChange|
                interface_entry_changed(c, q, x, AreaInterfaceEntryChange::StaticNeighborsNeighbor(addr, y));
            let with = |m: Map<IpAddr, StaticNbr>| Some((InterfaceCfgView { static_nbrs: m, ..c }, q));
            &&& (x.version is Ospfv2 && addr is V4) || (x.version is Ospfv3 && addr is V6) ==> {
                &&& r(StaticNeighborChange::Create) == with(m.insert(addr, StaticNbr::initial(d)))
                &&& r(StaticNeighborChange::Delete) == with(m.remove(addr))
                &&& m.contains_key(addr) ==> r(StaticNeighborChange::Entry(StaticNeighborEntryChange::Cost(cost)))
                    == with(m.insert(addr, StaticNbr { cost, ..s }))
                &&& m.contains_key(addr) ==> r(
                    StaticNeighborChange::Entry(StaticNeighborEntryChange::PollInterval(n)),
                ) == with(m.insert(addr, StaticNbr { poll_interval: n, ..s }))
                &&& m.contains_key(addr) ==> r(StaticNeighborChange::Entry(StaticNeighborEntryChange::Priority(p)))
                    == with(m.insert(addr, StaticNbr { priority: p, ..s }))
                &&& !m.contains_key(addr) ==> r(
                    StaticNeighborChange::Entry(StaticNeighborEntryChange::Priority(p)),
                ) is None
            }
            &&& (x.version is Ospfv2 && addr is V6) || (x.version is Ospfv3 && addr is V4) ==> r(change) == Some(
                (c, q),
            )
        }),
{
}

/// A new interface is down, in its area, with its name and the defaults of the schema, and
/// without neighbors. A deleted one stays until its event, a change within one reaches its
/// configuration only, and one that is not there can neither be deleted nor changed.
pub proof fn interfaces_come_and_go(
    i: InstanceView,
    q: Set<EventView>,
    a: AreaIndex,
    name: Seq<char>,
    change: AreaInterfaceEntryChange,
    k: InterfaceIndex,
    other: InterfaceIndex,
)
    requires
        i.next_interface < InterfaceIndex::MAX,
    ensures
        ({
            let r = interface_changed(i, q, a, name, AreaInterfaceChange::Create);
            let (j, p) = r->0;
            let n = i.next_interface;
            let f = j.interfaces[n];
            &&& r is Some && j.interfaces.contains_key(n) && j.next_interface == n + 1
            &&& f.area == a && f.name == name && f.vlink is None && f.down && !f.hello_interval && !f.wait_timer
            &&& f.neighbors.len() == 0
            &&& f.config == (InterfaceCfgView { if_type: i.defaults.if_type, ..InterfaceCfg::initial(i.defaults) })
            &&& other != n ==> j.interfaces[other] == i.interfaces[other]
            &&& j.areas == i.areas && j.config == i.config
            &&& p == q.insert(EventView::InstanceUpdate).insert(EventView::InterfaceUpdate(a, n)).insert(
                EventView::InterfaceUpdateTraceOptions(n),
            ).insert(EventView::InterfaceIbusSub(name))
        }),
        interface_named(i.interfaces, a, name) == Some(k) ==> {
            let r = interface_changed(i, q, a, name, AreaInterfaceChange::Entry(change));
            let x = InterfaceContext {
                defaults: i.defaults,
                version: i.version,
                instance_id: i.config.instance_id,
                area_idx: a,
                iface_idx: k,
            };
            let s = interface_entry_changed(i.interfaces[k].config, q, x, change);
            &&& interface_changed(i, q, a, name, AreaInterfaceChange::Delete) == Some(
                (i, q.insert(EventView::InstanceUpdate).insert(EventView::InterfaceDelete(a, k))),
            )
            &&& r is Some == s is Some
            &&& s is Some ==> (r->0).1 == (s->0).1 && (r->0).0.interfaces[k] == (InterfaceView {
                config: (s->0).0,
                ..i.interfaces[k]
            }) && (r->0).0.config == i.config && (r->0).0.areas == i.areas
            &&& s is Some && other != k ==> (r->0).0.interfaces[other] == i.interfaces[other]
        },
        interface_named(i.interfaces, a, name) is None ==> {
            &&& interface_changed(i, q, a, name, AreaInterfaceChange::Delete) is None
            &&& interface_changed(i, q, a, name, AreaInterfaceChange::Entry(change)) is None
        },
{
}

/// A virtual link is an interface of its type, named after its transit area and neighbor,
/// and otherwise comes, changes and goes as interfaces do.
pub proof fn virtual_links_come_and_go(
    i: InstanceView,
    q: Set<EventView>,
    a: AreaIndex,
    key: VirtualLinkKey,
    change: AreaVirtualLinkEntryChange,
    k: InterfaceIndex,
    other: InterfaceIndex,
)
    requires
        i.next_interface < InterfaceIndex::MAX,
    ensures
        ({
            let r = vlink_changed(i, q, a, key, AreaVirtualLinkChange::Create);
            let (j, p) = r->0;
            let n = i.next_interface;
            let f = j.interfaces[n];
            &&& r is Some && j.interfaces.contains_key(n) && j.next_interface == n + 1
            &&& f.area == a && f.vlink == Some(key) && f.down && !f.hello_interval && !f.wait_timer
            &&& f.name == "vlink-"@ + ipv4_text(key.transit_area_id) + "-"@ + ipv4_text(key.router_id)
            &&& f.neighbors.len() == 0
            &&& f.config == (InterfaceCfgView {
                if_type: InterfaceType::VirtualLink,
                ..InterfaceCfg::initial(i.defaults)
            })
            &&& other != n ==> j.interfaces[other] == i.interfaces[other]
            &&& j.areas == i.areas && j.config == i.config
            &&& p == q.insert(EventView::UpdateVirtualLinks).insert(EventView::InterfaceUpdateTraceOptions(n))
        }),
        interface_named(i.interfaces, a, vlink_text(key.transit_area_id, key.router_id)) == Some(k) ==> {
            let r = vlink_changed(i, q, a, key, AreaVirtualLinkChange::Entry(change));
            let s = vlink_entry_changed(i.interfaces[k].config, q, a, k, change);
            &&& vlink_changed(i, q, a, key, AreaVirtualLinkChange::Delete) == Some(
                (i, q.insert(EventView::InterfaceDelete(a, k))),
            )
            &&& r is Some && (r->0).1 == s.1
            &&& (r->0).0.interfaces[k] == (InterfaceView { config: s.0, ..i.interfaces[k] })
            &&& other != k ==> (r->0).0.interfaces[other] == i.interfaces[other]
        },
        interface_named(i.interfaces, a, vlink_text(key.transit_area_id, key.router_id)) is None ==> {
            &&& vlink_changed(i, q, a, key, AreaVirtualLinkChange::Delete) is None
            &&& vlink_changed(i, q, a, key, AreaVirtualLinkChange::Entry(change)) is None
        },
{
}

/// Changes of interfaces and virtual links reach the area that they name.
pub proof fn changes_reach_their_area(
    i: InstanceView,
    q: Set<EventView>,
    id: Ipv4Addr,
    a: AreaIndex,
    name: String,
    f: AreaInterfaceChange,
    key: VirtualLinkKey,
    v: AreaVirtualLinkChange,
)
    requires
        area_with_id(i.areas, id) == Some(a),
    ensures
        instance_changed(
            i,
            q,
            ConfigChange::Area(id, AreaChange::Entry(AreaEntryChange::Interface(name, f))),
        ) == interface_changed(i, q, a, name@, f),
        instance_changed(
            i,
            q,
            ConfigChange::Area(
                id,
                AreaChange::Entry(
                    AreaEntryChange::VirtualLink {
                        transit_area_id: key.transit_area_id,
                        router_id: key.router_id,
                        change: v,
                    },
                ),
            ),
        ) == vlink_changed(i, q, a, key, v),
{
}

// ===== events =====

/// While the instance is up, events about an interface do what they name: a reset needs an
/// interface that is not down, timers start anew only where they run, and the election of
/// routers needs a network that has one.
pub proof fn interface_events_do_what_they_name(i: Instance, a: AreaIndex, k: InterfaceIndex, name: Seq<char>)
    requires
        i.up,
    ensures
        event_actions(i, EventView::InterfaceUpdate(a, k)) == seq![ActionView::InterfaceUpdate(a, k)],
        event_actions(i, EventView::InterfaceSyncHelloTx(a, k)) == seq![ActionView::SyncHelloTx(a, k)],
        event_actions(i, EventView::InterfaceUpdateAuth(a, k)) == seq![ActionView::AuthUpdate(k)],
        event_actions(i, EventView::InterfaceCostChange(a)) == seq![
            ActionView::LsaOriginate(LsaOriginateEvent::InterfaceCostChange(i@.areas[a].id)),
        ],
        event_actions(i, EventView::AreaInterfaceTraceOptionsFlagChange(a)) == seq![
            ActionView::LsaOriginate(LsaOriginateEvent::InterfaceFlagChange(i@.areas[a].id)),
        ],
        ({
            let f = i@.interfaces[k];
            let e = |e: EventView| event_actions(i, e);
            &&& f.down ==> e(EventView::InterfaceReset(a, k)).len() == 0
            &&& !f.down ==> e(EventView::InterfaceReset(a, k)) == seq![ActionView::InterfaceReset(a, k)]
            &&& f.hello_interval ==> e(EventView::InterfaceResetHelloInterval(a, k)) == seq![
                ActionView::HelloIntervalStart(a, k),
            ]
            &&& !f.hello_interval ==> e(EventView::InterfaceResetHelloInterval(a, k)).len() == 0
            &&& f.wait_timer ==> e(EventView::InterfaceResetDeadInterval(a, k)) == neighbor_actions(
                NeighborAction::InactivityTimerStart,
                k,
                f.neighbors,
            ).push(ActionView::WaitTimerStart(a, k))
            &&& !f.wait_timer ==> e(EventView::InterfaceResetDeadInterval(a, k)) == neighbor_actions(
                NeighborAction::InactivityTimerStart,
                k,
                f.neighbors,
            )
            &&& !f.down && (f.config.if_type == InterfaceType::Broadcast || f.config.if_type
                == InterfaceType::NonBroadcast) ==> e(EventView::InterfacePriorityChange(a, k)) == seq![
                ActionView::NbrChange(a, k),
            ]
            &&& f.down || f.config.if_type == InterfaceType::PointToPoint ==> e(
                EventView::InterfacePriorityChange(a, k),
            ).len() == 0
            &&& f.config.bfd_enabled ==> e(EventView::InterfaceBfdChange(k)) == neighbor_actions(
                NeighborAction::BfdRegister,
                k,
                f.neighbors,
            )
            &&& !f.config.bfd_enabled ==> e(EventView::InterfaceBfdChange(k)) == neighbor_actions(
                NeighborAction::BfdUnregister,
                k,
                f.neighbors,
            )
        }),
        i.version is Ospfv2 || i.address_family is Ipv6 ==> event_actions(i, EventView::InterfaceIbusSub(name))
            == seq![ActionView::InterfaceSub(name, Some(i.address_family))],
        i.version is Ospfv3 && i.address_family is Ipv4 ==> event_actions(i, EventView::InterfaceIbusSub(name))
            == seq![ActionView::InterfaceSub(name, None)],
{
    reveal(interface_actions);
    reveal(area_actions);
    reveal(instance_actions);
    let none = Seq::<ActionView>::empty();
    assert forall|s: Seq<ActionView>| #[trigger] (s + none) == s by {
        assert(s + none =~= s);
    }
    assert forall|s: Seq<ActionView>| #[trigger] (none + s) == s by {
        assert(none + s =~= s);
    }
}

/// What is done about the neighbors of an interface is done about each in turn: all of
/// them are killed, those whose timer runs have it started anew, and BFD and segment
/// routing follow where the state is 2-Way or beyond.
pub proof fn neighbors_are_acted_on_in_turn(k: InterfaceIndex, s: Seq<NeighborState>, n: NeighborState)
    ensures
        neighbor_actions(NeighborAction::Kill, k, s.push(n)) == neighbor_actions(NeighborAction::Kill, k, s).push(
            ActionView::Neighbor(NeighborAction::Kill, k, n.id),
        ),
        n.inactivity_timer ==> neighbor_actions(NeighborAction::InactivityTimerStart, k, s.push(n))
            == neighbor_actions(NeighborAction::InactivityTimerStart, k, s).push(
            ActionView::Neighbor(NeighborAction::InactivityTimerStart, k, n.id),
        ),
        !n.inactivity_timer ==> neighbor_actions(NeighborAction::InactivityTimerStart, k, s.push(n))
            == neighbor_actions(NeighborAction::InactivityTimerStart, k, s),
        forall|w: NeighborAction|
            w is BfdRegister || w is BfdUnregister || w is AdjSidAdd || w is AdjSidDelAll ==> {
                &&& n.two_way ==> #[trigger] neighbor_actions(w, k, s.push(n)) == neighbor_actions(w, k, s).push(
                    ActionView::Neighbor(w, k, n.id),
                )
                &&& !n.two_way ==> neighbor_actions(w, k, s.push(n)) == neighbor_actions(w, k, s)
            },
        forall|w: NeighborAction| (#[trigger] neighbor_actions(w, k, Seq::empty())).len() == 0,
{
    assert(s.push(n).drop_last() =~= s);
    assert(s.push(n).last() == n);
    assert forall|w: NeighborAction| true implies #[trigger] neighbor_actions(w, k, s.push(n)) == (match neighbor_fn(
        w,
        k,
    )(n) {
        Some(x) => neighbor_actions(w, k, s).push(x),
        None => neighbor_actions(w, k, s),
    }) by {
        assert(filter_map(s.push(n), neighbor_fn(w, k)) == filter_map(s.push(n), neighbor_fn(w, k)));
    }
}

/// While the instance is up, events about areas and the instance do what they name. A
/// change of the type of an area kills its neighbors, and empties the database of the
/// instance where no normal area is active.
pub proof fn instance_events_do_what_they_name(i: Instance, a: AreaIndex)
    requires
        i.up,
    ensures
        event_actions(i, EventView::StubRouterChange) == seq![
            ActionView::LsaOriginate(LsaOriginateEvent::StubRouterChange),
        ],
        event_actions(i, EventView::NodeTagsChange) == seq![
            ActionView::LsaOriginate(LsaOriginateEvent::NodeTagsChange),
        ],
        event_actions(i, EventView::RerunSpf) == seq![ActionView::SpfConfigChange],
        event_actions(i, EventView::UpdateVirtualLinks) == seq![ActionView::VirtualLinksUpdate],
        event_actions(i, EventView::UpdateSummaries) == seq![ActionView::SummariesUpdate],
        event_actions(i, EventView::ReinstallRoutes) == seq![ActionView::RoutesReinstall],
        event_actions(i, EventView::BierEnableChange(true)) == seq![
            ActionView::LsaOriginate(LsaOriginateEvent::BierEnableChange),
            ActionView::RoutesReinstall,
        ],
        event_actions(i, EventView::BierEnableChange(false)) == seq![
            ActionView::LsaOriginate(LsaOriginateEvent::BierEnableChange),
            ActionView::BierPurge,
        ],
        i@.config.gr.helper_enabled ==> event_actions(i, EventView::GrHelperChange) == seq![
            ActionView::LsaOriginate(LsaOriginateEvent::GrHelperChange),
        ],
        !i@.config.gr.helper_enabled ==> event_actions(i, EventView::GrHelperChange) == seq![
            ActionView::GrHelperExit,
            ActionView::LsaOriginate(LsaOriginateEvent::GrHelperChange),
        ],
        event_actions(i, EventView::SrEnableChange(true)) == seq![
            ActionView::LsaOriginate(LsaOriginateEvent::SrEnableChange),
        ] + flat_map(i.areas.keys(), adj_sid_area_fn(i, NeighborAction::AdjSidAdd)),
        event_actions(i, EventView::SrEnableChange(false)) == seq![
            ActionView::LsaOriginate(LsaOriginateEvent::SrEnableChange),
        ] + flat_map(i.areas.keys(), adj_sid_area_fn(i, NeighborAction::AdjSidDelAll)),
        event_actions(i, EventView::AreaSyncHelloTx(a)) == flat_map(i.members(a), sync_fn(a)),
        (i@.areas.contains_key(a) && i@.areas[a].config.area_type == AreaType::Normal && i@.areas[a].active)
            ==> event_actions(i, EventView::AreaTypeChange(a)) == flat_map(i.members(a), kill_fn(i@)),
        (forall|b: AreaIndex| #[trigger]
            i@.areas.contains_key(b) ==> i@.areas[b].config.area_type != AreaType::Normal || !i@.areas[b].active)
            ==> event_actions(i, EventView::AreaTypeChange(a)) == flat_map(i.members(a), kill_fn(i@)).push(
            ActionView::LsdbReset,
        ),
{
    reveal(interface_actions);
    reveal(area_actions);
    reveal(instance_actions);
    let none = Seq::<ActionView>::empty();
    assert forall|s: Seq<ActionView>| #[trigger] (s + none) == s by {
        assert(s + none =~= s);
    }
    assert forall|s: Seq<ActionView>| #[trigger] (none + s) == s by {
        assert(none + s =~= s);
    }
}

/// Per interface, its neighbors are killed, Hello packets follow the configuration, or
/// adjacency SIDs come and go.
pub proof fn members_are_acted_on(i: Instance, a: AreaIndex, k: InterfaceIndex, w: NeighborAction)
    ensures
        kill_fn(i@)(k) == neighbor_actions(NeighborAction::Kill, k, i@.interfaces[k].neighbors),
        sync_fn(a)(k) == seq![ActionView::SyncHelloTx(a, k)],
        adj_sid_fn(i@, w)(k) == neighbor_actions(w, k, i@.interfaces[k].neighbors),
        adj_sid_area_fn(i, w)(a) == flat_map(i.members(a), adj_sid_fn(i@, w)),
        delete_fn(i@, a)(k) == delete_actions(i@, a, k),
        i.up ==> sync_area_fn(i)(a) == flat_map(i.members(a), sync_fn(a)),
        !i.up ==> sync_area_fn(i)(a).len() == 0,
{
}

proof fn members_of_some(
    s: Seq<InterfaceIndex>,
    f: spec_fn(InterfaceIndex) -> Option<InterfaceIndex>,
    m: Map<InterfaceIndex, InterfaceView>,
    a: AreaIndex,
)
    requires
        forall|k: InterfaceIndex| #[trigger] f(k) == (if m[k].area == a {
            Some(k)
        } else {
            None
        }),
    ensures
        forall|j: int|
            0 <= j < filter_map(s, f).len() ==> m[#[trigger] filter_map(s, f)[j]].area == a && s.contains(
                filter_map(s, f)[j],
            ),
        forall|j: int| 0 <= j < s.len() && m[#[trigger] s[j]].area == a ==> filter_map(s, f).contains(s[j]),
    decreases s.len(),
{
    if s.len() > 0 {
        let t = s.drop_last();
        members_of_some(t, f, m, a);
        let r = filter_map(s, f);
        let q = filter_map(t, f);
        assert(f(s.last()) is Some == (m[s.last()].area == a));
        assert forall|j: int| 0 <= j < r.len() implies m[#[trigger] r[j]].area == a && s.contains(r[j]) by {
            if j < q.len() {
                assert(r[j] == q[j]);
                let x = choose|x: int| 0 <= x < t.len() && t[x] == q[j];
                assert(s[x] == r[j]);
            } else {
                assert(s[s.len() - 1] == r[j]);
            }
        }
        assert forall|j: int| 0 <= j < s.len() && m[#[trigger] s[j]].area == a implies r.contains(s[j]) by {
            if j < t.len() {
                assert(t[j] == s[j]);
                let x = choose|x: int| 0 <= x < q.len() && q[x] == s[j];
                assert(r[x] == s[j]);
            } else {
                assert(r[r.len() - 1] == s[j]);
            }
        }
    }
}

/// The interfaces of an area are those whose area it is, and no others.
pub proof fn members_are_the_interfaces_of_the_area(i: Instance, a: AreaIndex)
    ensures
        forall|j: int|
            0 <= j < i.members(a).len() ==> i@.interfaces[#[trigger] i.members(a)[j]].area == a
                && i.interfaces.keys().contains(i.members(a)[j]),
        forall|j: int|
            0 <= j < i.interfaces.keys().len() && i@.interfaces[#[trigger] i.interfaces.keys()[j]].area == a
                ==> i.members(a).contains(i.interfaces.keys()[j]),
{
    members_of_some(
        i.interfaces.keys(),
        crate::ospf::configuration::member_fn(i@.interfaces, a),
        i@.interfaces,
        a,
    );
}

/// Resets and updates of the instance and new areas are seen to in any case. A deleted
/// interface is left where the instance is up; the rest waits until it is.
pub proof fn events_while_down(i: Instance, a: AreaIndex, k: InterfaceIndex, name: Seq<char>, on: bool)
    ensures
        event_actions(i, EventView::InstanceReset) == seq![ActionView::InstanceReset],
        event_actions(i, EventView::InstanceUpdate) == seq![ActionView::InstanceUpdate],
        event_actions(i, EventView::AreaCreate(a)) == seq![
            ActionView::LsaOriginate(LsaOriginateEvent::AreaStart(i@.areas[a].id)),
        ],
        event_actions(i, EventView::AreaDelete(a)) == flat_map(i.members(a), delete_fn(i@, a)),
        event_actions(i, EventView::InstanceIdUpdate) == flat_map(i.areas.keys(), sync_area_fn(i)),
        event_actions(i, EventView::UpdateTraceOptions).len() == 0,
        event_actions(i, EventView::InterfaceUpdateTraceOptions(k)).len() == 0,
        i.up && i@.interfaces[k].vlink is None ==> event_actions(i, EventView::InterfaceDelete(a, k)) == seq![
            ActionView::InterfaceUnsub(i@.interfaces[k].name),
            ActionView::InterfaceDown(a, k),
            ActionView::NexthopsRemove(k),
        ],
        i.up && i@.interfaces[k].vlink is Some ==> event_actions(i, EventView::InterfaceDelete(a, k)) == seq![
            ActionView::InterfaceDown(a, k),
            ActionView::NexthopsRemove(k),
        ],
        !i.up ==> {
            &&& event_actions(i, EventView::InterfaceDelete(a, k)).len() == 0
            &&& event_actions(i, EventView::InterfaceUpdate(a, k)).len() == 0
            &&& event_actions(i, EventView::InterfaceReset(a, k)).len() == 0
            &&& event_actions(i, EventView::InterfaceIbusSub(name)).len() == 0
            &&& event_actions(i, EventView::RerunSpf).len() == 0
            &&& event_actions(i, EventView::SrEnableChange(on)).len() == 0
            &&& event_actions(i, EventView::AreaTypeChange(a)).len() == 0
        },
{
}

/// After their events, a deleted interface is gone, the Instance ID is inherited and trace
/// options are in force as they are configured; nothing else changes.
pub proof fn events_put_configuration_in_force(
    i: InstanceView,
    a: AreaIndex,
    k: InterfaceIndex,
    other: InterfaceIndex,
    id: u8,
)
    requires
        i.interfaces.contains_key(k),
        i.areas.contains_key(i.interfaces[k].area),
        other != k,
    ensures
        !event_done(i, EventView::InterfaceDelete(a, k)).interfaces.contains_key(k),
        event_done(i, EventView::InterfaceDelete(a, k)).interfaces[other] == i.interfaces[other],
        event_done(i, EventView::InterfaceDelete(a, k)).areas == i.areas,
        i.interfaces[k].config.instance_id.explicit == Some(id) ==> event_done(
            i,
            EventView::InstanceIdUpdate,
        ).interfaces[k].config.instance_id.resolved == id,
        i.interfaces[k].config.instance_id.explicit is None ==> event_done(
            i,
            EventView::InstanceIdUpdate,
        ).interfaces[k].config.instance_id.resolved == i.config.instance_id,
        event_done(i, EventView::InstanceIdUpdate).interfaces[k].config.instance_id.explicit
            == i.interfaces[k].config.instance_id.explicit,
        event_done(i, EventView::InterfaceUpdateTraceOptions(k)).interfaces[k].config == (InterfaceCfgView {
            trace_opts: InterfaceTraceOptions {
                packets: i.interfaces[k].config.trace_opts.packets,
                packets_resolved: packets_in_force(
                    i.interfaces[k].config.trace_opts.packets,
                    i.config.trace_opts.packets,
                ),
            },
            ..i.interfaces[k].config
        }),
        event_done(i, EventView::UpdateTraceOptions).interfaces[k].config == (InterfaceCfgView {
            trace_opts: InterfaceTraceOptions {
                packets: i.interfaces[k].config.trace_opts.packets,
                packets_resolved: packets_in_force(
                    i.interfaces[k].config.trace_opts.packets,
                    i.config.trace_opts.packets,
                ),
            },
            ..i.interfaces[k].config
        }),
        event_done(i, EventView::InstanceUpdate) == i,
        event_done(i, EventView::InterfaceUpdate(a, k)) == i,
        event_done(i, EventView::RerunSpf) == i,
{
}

/// With an interface, the nexthops over it leave a route, and no others do.
pub proof fn nexthops_over_the_interface_go(n: Map<NexthopKey, Nexthop>, k: InterfaceIndex, key: NexthopKey)
    ensures
        nexthops_without(n, k).contains_key(key) == (n.contains_key(key) && n[key].iface_idx != k),
        nexthops_without(n, k).contains_key(key) ==> nexthops_without(n, k)[key] == n[key],
{
}

/// An error about repeated interfaces names one that stands twice in the areas of an
/// instance, and where it stands.
pub proof fn repeated_interfaces_are_reported(instances: Seq<Vec<NameNode>>, error: ValidationError)
    requires
        first_repeated(instances, error),
    ensures
        exists|n: int, x: int, y: int|
            {
                &&& 0 <= n < instances.len()
                &&& 0 <= x < y < instances[n]@.len()
                &&& (#[trigger] instances[n]@[x]).name@ == (#[trigger] instances[n]@[y]).name@
                &&& error.path@ == instances[n]@[y].path@
                &&& error.message@ == "interface '"@ + instances[n]@[y].name@
                    + "' configured in more than one area"@
            },
{
    let (n, j) = choose|n: int, j: int|
        {
            &&& 0 <= n < instances.len()
            &&& 0 <= j < instances[n]@.len()
            &&& #[trigger] repeats(instances[n]@, j)
            &&& forall|y: int| 0 <= y < j ==> !#[trigger] repeats(instances[n]@, y)
            &&& error.path@ == instances[n]@[j].path@
            &&& error.message@ == "interface '"@ + instances[n]@[j].name@ + "' configured in more than one area"@
        };
    let s = instances[n]@;
    let x = choose|x: int| 0 <= x < j && (#[trigger] s[x]).name@ == s[j].name@;
    assert(instances[n]@[x].name@ == instances[n]@[j].name@);
}

} // verus!
