//! What IS-IS promises: how configuration is taken over and what it leads to, and how
//! it follows the rest of the system.

use std::sync::Arc;

use vstd::prelude::*;

use crate::bfd::client::{ClientCfg, SessionKeyView, State};
use crate::collections::flat_map;
use crate::crypto::CryptoAlgo;
use crate::ip::{AddressFamily, IpNetwork, Ipv4Addr, Ipv6Addr};
use crate::isis::configuration::{
    adj_sids_fn, adjacency_actions, af_enabled, afs_changed, asla_changed, event_actions, event_done, first_named,
    hello_fn, instance_actions, instance_cfg_auth_changed, instance_cfg_general_changed,
    instance_cfg_metric_changed, instance_cfg_spf_changed, instance_changed, interface_actions,
    interface_cfg_auth_changed, interface_cfg_general_changed, interface_cfg_hello_changed, interface_changed,
    interface_entry_changed, interface_named, interface_topologies_changed, interface_trace_options_changed,
    isids_changed, level_type_in_force, octets_value, own_lsp_fn, packets_changed, packets_in_force,
    services_changed, summaries_changed, topologies_changed, trace_options_changed, ActionView, AddressFamilyCfg,
    AddressFamilyCfgView, AddressFamilyListChange, AddressFamilyListEntryChange, Adjacency, AdjacencyAction,
    AuthCfg, AuthCfgView, AuthMethodView, ConfigChange, Defaults, Event, ExtendedSeqNumMode, Instance,
    InstanceBierCfg, InstanceCfg, InstanceCfgView, InstanceFloodingReductionCfg, InstanceMtCfg, InstanceSpbCfg,
    InstanceSpbCfgView, InstanceSrCfg, InstanceTraceOption, InstanceTraceOptions, InstanceView, InterfaceAslaCfg,
    InterfaceAslaChange, InterfaceAslaEntryChange, InterfaceCfg, InterfaceCfgView, InterfaceChange,
    InterfaceEntryChange, InterfaceMtCfg, InterfaceTopologyChange, InterfaceTopologyEntryChange,
    InterfaceTraceOption, InterfaceTraceOptions, InterfaceView, LevelsCfg, LevelsCfgWithDefault, LinkAttrMode,
    LspInfo, MetricType, Preference, RedistributionCfg, SpbIsidCfg, SpbServiceCfgView, SpbServiceChange,
    SpbServiceIsidChange, SpbServiceIsidEntryChange, SummaryCfg, SummaryPrefixesChange, TopologyChange,
    TopologyEntryChange, TraceOptionPacket, TraceOptionPacketResolved, TraceOptionPacketType,
};
use crate::isis::rx::{
    addr_actions, bfd_actions, bfd_interface, iface_update_actions, iface_updated, keychain_in_force, level_actions,
    originate, redistributes, route_added, route_deleted, session_down, with_addrs, InterfaceUpdateMsg, RouteKeyMsg,
    RouteMsg,
};
use crate::isis::types::{
    AreaAddr, FloodingAlgo, InterfaceIndex, InterfaceType, LevelNumber, LevelType, MtId, PduType, RedistributionKey,
    SpbServiceKey, StandardApp, SystemId,
};
use crate::keychain::{KeyView, Keychain};
use crate::northbound::configuration::{member, ConfigOp, InheritableConfig};
use crate::northbound::trace::{flag_changed, slot_changed, TraceFlagChange};
use crate::protocol::Protocol;
use crate::text::opt_text;

verus! {

// ===== leaves =====

/// Whether a change is applied so that the instance has that configuration, just these
/// events are queued, and nothing else of the instance changes.
pub open spec fn becomes(
    i: InstanceView,
    q: Set<Event>,
    change: ConfigChange,
    c: InstanceCfgView,
    events: Set<Event>,
) -> bool {
    instance_changed(i, q, change) == Some((InstanceView { config: c, ..i }, events))
}

/// Whether a change within an interface is applied so that it has that configuration and
/// just these events are queued.
pub open spec fn cfg_becomes(
    c: InterfaceCfgView,
    q: Set<Event>,
    d: Defaults,
    t: LevelType,
    k: InterfaceIndex,
    change: InterfaceEntryChange,
    after: InterfaceCfgView,
    events: Set<Event>,
) -> bool {
    interface_entry_changed(c, q, d, t, k, change) == Some((after, events))
}

/// Each leaf of the authentication takes the configured value, at its own level only, and
/// no other one changes. It is then to be put in force, and LSPs of the levels that it
/// concerns are to be originated anew.
#[verifier::spinoff_prover]
#[verifier::rlimit(40)]
pub proof fn instance_authentication_is_taken_as_configured(
    i: InstanceView,
    q: Set<Event>,
    keychain: Option<String>,
    key: Option<String>,
    key_id: Option<u16>,
    algo: Option<CryptoAlgo>,
)
    ensures
        becomes(
            i,
            q,
            ConfigChange::AuthenticationKeyChain(keychain),
            InstanceCfgView {
                auth: LevelsCfg {
                    all: AuthCfgView { keychain: opt_text(keychain), ..i.config.auth.all },
                    ..i.config.auth
                },
                ..i.config
            },
            q.insert(Event::InstanceUpdateAuth).insert(
                Event::ReoriginateLsps(LevelNumber::L1),
            ).insert(Event::ReoriginateLsps(LevelNumber::L2)),
        ),
        becomes(
            i,
            q,
            ConfigChange::AuthenticationKey(key),
            InstanceCfgView {
                auth: LevelsCfg {
                    all: AuthCfgView { key: opt_text(key), ..i.config.auth.all },
                    ..i.config.auth
                },
                ..i.config
            },
            q.insert(Event::InstanceUpdateAuth).insert(
                Event::ReoriginateLsps(LevelNumber::L1),
            ).insert(Event::ReoriginateLsps(LevelNumber::L2)),
        ),
        becomes(
            i,
            q,
            ConfigChange::AuthenticationKeyId(key_id),
            InstanceCfgView {
                auth: LevelsCfg { all: AuthCfgView { key_id, ..i.config.auth.all }, ..i.config.auth },
                ..i.config
            },
            q.insert(Event::InstanceUpdateAuth).insert(
                Event::ReoriginateLsps(LevelNumber::L1),
            ).insert(Event::ReoriginateLsps(LevelNumber::L2)),
        ),
        becomes(
            i,
            q,
            ConfigChange::AuthenticationCryptoAlgorithm(algo),
            InstanceCfgView {
                auth: LevelsCfg { all: AuthCfgView { algo, ..i.config.auth.all }, ..i.config.auth },
                ..i.config
            },
            q.insert(Event::InstanceUpdateAuth).insert(
                Event::ReoriginateLsps(LevelNumber::L1),
            ).insert(Event::ReoriginateLsps(LevelNumber::L2)),
        ),
        becomes(
            i,
            q,
            ConfigChange::AuthenticationLevel1KeyChain(keychain),
            InstanceCfgView {
                auth: LevelsCfg {
                    l1: AuthCfgView { keychain: opt_text(keychain), ..i.config.auth.l1 },
                    ..i.config.auth
                },
                ..i.config
            },
            q.insert(Event::InstanceUpdateAuth).insert(Event::ReoriginateLsps(LevelNumber::L1)),
        ),
        becomes(
            i,
            q,
            ConfigChange::AuthenticationLevel1Key(key),
            InstanceCfgView {
                auth: LevelsCfg { l1: AuthCfgView { key: opt_text(key), ..i.config.auth.l1 }, ..i.config.auth },
                ..i.config
            },
            q.insert(Event::InstanceUpdateAuth).insert(Event::ReoriginateLsps(LevelNumber::L1)),
        ),
        becomes(
            i,
            q,
            ConfigChange::AuthenticationLevel1KeyId(key_id),
            InstanceCfgView {
                auth: LevelsCfg { l1: AuthCfgView { key_id, ..i.config.auth.l1 }, ..i.config.auth },
                ..i.config
            },
            q.insert(Event::InstanceUpdateAuth).insert(Event::ReoriginateLsps(LevelNumber::L1)),
        ),
        becomes(
            i,
            q,
            ConfigChange::AuthenticationLevel1CryptoAlgorithm(algo),
            InstanceCfgView {
                auth: LevelsCfg { l1: AuthCfgView { algo, ..i.config.auth.l1 }, ..i.config.auth },
                ..i.config
            },
            q.insert(Event::InstanceUpdateAuth).insert(Event::ReoriginateLsps(LevelNumber::L1)),
        ),
        becomes(
            i,
            q,
            ConfigChange::AuthenticationLevel2KeyChain(keychain),
            InstanceCfgView {
                auth: LevelsCfg {
                    l2: AuthCfgView { keychain: opt_text(keychain), ..i.config.auth.l2 },
                    ..i.config.auth
                },
                ..i.config
            },
            q.insert(Event::InstanceUpdateAuth).insert(Event::ReoriginateLsps(LevelNumber::L2)),
        ),
        becomes(
            i,
            q,
            ConfigChange::AuthenticationLevel2Key(key),
            InstanceCfgView {
                auth: LevelsCfg { l2: AuthCfgView { key: opt_text(key), ..i.config.auth.l2 }, ..i.config.auth },
                ..i.config
            },
            q.insert(Event::InstanceUpdateAuth).insert(Event::ReoriginateLsps(LevelNumber::L2)),
        ),
        becomes(
            i,
            q,
            ConfigChange::AuthenticationLevel2KeyId(key_id),
            InstanceCfgView {
                auth: LevelsCfg { l2: AuthCfgView { key_id, ..i.config.auth.l2 }, ..i.config.auth },
                ..i.config
            },
            q.insert(Event::InstanceUpdateAuth).insert(Event::ReoriginateLsps(LevelNumber::L2)),
        ),
        becomes(
            i,
            q,
            ConfigChange::AuthenticationLevel2CryptoAlgorithm(algo),
            InstanceCfgView {
                auth: LevelsCfg { l2: AuthCfgView { algo, ..i.config.auth.l2 }, ..i.config.auth },
                ..i.config
            },
            q.insert(Event::InstanceUpdateAuth).insert(Event::ReoriginateLsps(LevelNumber::L2)),
        ),
{
    reveal(instance_cfg_auth_changed);
}

/// Each leaf on LSPs and metrics takes the configured value, at its own level only, and no
/// other one changes. What is advertised of it is to be originated or refreshed anew.
#[verifier::spinoff_prover]
#[verifier::rlimit(40)]
pub proof fn instance_metrics_are_taken_as_configured(
    i: InstanceView,
    q: Set<Event>,
    op: ConfigOp,
    area_addr: AreaAddr,
    lsp_mtu: u16,
    lsp_lifetime: u16,
    lsp_refresh: u16,
    enabled: bool,
    metric_type: MetricType,
    metric_type_opt: Option<MetricType>,
    metric: u32,
    metric_opt: Option<u32>,
    addr: Option<Ipv4Addr>,
    addr_opt: Option<Ipv6Addr>,
)
    ensures
        becomes(
            i,
            q,
            ConfigChange::AreaAddress(op, area_addr),
            InstanceCfgView { area_addrs: member(i.config.area_addrs, op, area_addr), ..i.config },
            q.insert(Event::ReoriginateLsps(LevelNumber::L1)).insert(Event::ReoriginateLsps(LevelNumber::L2)),
        ),
        becomes(
            i,
            q,
            ConfigChange::LspMtu(lsp_mtu),
            InstanceCfgView { lsp_mtu, ..i.config },
            q.insert(Event::ReoriginateLsps(LevelNumber::L1)).insert(Event::ReoriginateLsps(LevelNumber::L2)),
        ),
        becomes(
            i,
            q,
            ConfigChange::LspLifetime(lsp_lifetime),
            InstanceCfgView { lsp_lifetime, ..i.config },
            q.insert(Event::RefreshLsps),
        ),
        becomes(
            i,
            q,
            ConfigChange::LspRefresh(lsp_refresh),
            InstanceCfgView { lsp_refresh, ..i.config },
            q.insert(Event::RefreshLsps),
        ),
        becomes(
            i,
            q,
            ConfigChange::PoiTlv(enabled),
            InstanceCfgView { purge_originator: enabled, ..i.config },
            q,
        ),
        becomes(
            i,
            q,
            ConfigChange::MetricTypeValue(metric_type),
            InstanceCfgView {
                metric_type: LevelsCfgWithDefault { all: metric_type, ..i.config.metric_type },
                ..i.config
            },
            q.insert(Event::ReoriginateLsps(LevelNumber::L1)).insert(Event::ReoriginateLsps(LevelNumber::L2)),
        ),
        becomes(
            i,
            q,
            ConfigChange::MetricTypeLevel1Value(metric_type_opt),
            InstanceCfgView {
                metric_type: LevelsCfgWithDefault { l1: metric_type_opt, ..i.config.metric_type },
                ..i.config
            },
            q.insert(Event::ReoriginateLsps(LevelNumber::L1)),
        ),
        becomes(
            i,
            q,
            ConfigChange::MetricTypeLevel2Value(metric_type_opt),
            InstanceCfgView {
                metric_type: LevelsCfgWithDefault { l2: metric_type_opt, ..i.config.metric_type },
                ..i.config
            },
            q.insert(Event::ReoriginateLsps(LevelNumber::L2)),
        ),
        becomes(
            i,
            q,
            ConfigChange::DefaultMetricValue(metric),
            InstanceCfgView {
                default_metric: LevelsCfgWithDefault { all: metric, ..i.config.default_metric },
                ..i.config
            },
            q,
        ),
        becomes(
            i,
            q,
            ConfigChange::DefaultMetricLevel1Value(metric_opt),
            InstanceCfgView {
                default_metric: LevelsCfgWithDefault { l1: metric_opt, ..i.config.default_metric },
                ..i.config
            },
            q,
        ),
        becomes(
            i,
            q,
            ConfigChange::DefaultMetricLevel2Value(metric_opt),
            InstanceCfgView {
                default_metric: LevelsCfgWithDefault { l2: metric_opt, ..i.config.default_metric },
                ..i.config
            },
            q,
        ),
        becomes(
            i,
            q,
            ConfigChange::MplsTeRidIpv4RouterId(addr),
            InstanceCfgView { ipv4_router_id: addr, ..i.config },
            q.insert(Event::ReoriginateLsps(LevelNumber::L1)).insert(Event::ReoriginateLsps(LevelNumber::L2)),
        ),
        becomes(
            i,
            q,
            ConfigChange::MplsTeRidIpv6RouterId(addr_opt),
            InstanceCfgView { ipv6_router_id: addr_opt, ..i.config },
            q.insert(Event::ReoriginateLsps(LevelNumber::L1)).insert(Event::ReoriginateLsps(LevelNumber::L2)),
        ),
{
    reveal(instance_cfg_metric_changed);
}

/// Each leaf on the computation of routes takes the configured value, and no other one
/// changes. Routes are computed or installed anew where they depend on it.
#[verifier::spinoff_prover]
#[verifier::rlimit(40)]
pub proof fn instance_spf_control_is_taken_as_configured(
    i: InstanceView,
    q: Set<Event>,
    max_paths: u16,
    initial_delay: u32,
    short_delay: u32,
    long_delay: u32,
    hold_down: u32,
    time_to_learn: u32,
    preference: u8,
    enabled: bool,
    algo: FloodingAlgo,
)
    ensures
        becomes(
            i,
            q,
            ConfigChange::SpfControlPaths(max_paths),
            InstanceCfgView { max_paths, ..i.config },
            q.insert(Event::RerunSpf),
        ),
        becomes(
            i,
            q,
            ConfigChange::SpfControlIetfSpfDelayInitialDelay(initial_delay),
            InstanceCfgView { spf_initial_delay: initial_delay, ..i.config },
            q,
        ),
        becomes(
            i,
            q,
            ConfigChange::SpfControlIetfSpfDelayShortDelay(short_delay),
            InstanceCfgView { spf_short_delay: short_delay, ..i.config },
            q,
        ),
        becomes(
            i,
            q,
            ConfigChange::SpfControlIetfSpfDelayLongDelay(long_delay),
            InstanceCfgView { spf_long_delay: long_delay, ..i.config },
            q,
        ),
        becomes(
            i,
            q,
            ConfigChange::SpfControlIetfSpfDelayHoldDown(hold_down),
            InstanceCfgView { spf_hold_down: hold_down, ..i.config },
            q,
        ),
        becomes(
            i,
            q,
            ConfigChange::SpfControlIetfSpfDelayTimeToLearn(time_to_learn),
            InstanceCfgView { spf_time_to_learn: time_to_learn, ..i.config },
            q,
        ),
        becomes(
            i,
            q,
            ConfigChange::PreferenceInternal(Some(preference)),
            InstanceCfgView {
                preference: Preference { internal: preference, ..i.config.preference },
                ..i.config
            },
            q.insert(Event::ReinstallRoutes),
        ),
        becomes(i, q, ConfigChange::PreferenceInternal(None), i.config, q),
        becomes(
            i,
            q,
            ConfigChange::PreferenceExternal(Some(preference)),
            InstanceCfgView {
                preference: Preference { external: preference, ..i.config.preference },
                ..i.config
            },
            q.insert(Event::ReinstallRoutes),
        ),
        becomes(i, q, ConfigChange::PreferenceExternal(None), i.config, q),
        becomes(
            i,
            q,
            ConfigChange::PreferenceDefault(Some(preference)),
            InstanceCfgView {
                preference: Preference { internal: preference, external: preference },
                ..i.config
            },
            q.insert(Event::ReinstallRoutes),
        ),
        becomes(i, q, ConfigChange::PreferenceDefault(None), i.config, q),
        becomes(
            i,
            q,
            ConfigChange::AttachedBitSuppressAdvertisement(enabled),
            InstanceCfgView { att_suppress: enabled, ..i.config },
            q.insert(Event::ReoriginateLsps(LevelNumber::L1)).insert(Event::ReoriginateLsps(LevelNumber::L2)),
        ),
        becomes(
            i,
            q,
            ConfigChange::AttachedBitIgnoreReception(enabled),
            InstanceCfgView { att_ignore: enabled, ..i.config },
            q.insert(Event::RerunSpf),
        ),
        becomes(
            i,
            q,
            ConfigChange::FloodingReductionAlgorithm(algo),
            InstanceCfgView { flooding_reduction: InstanceFloodingReductionCfg { algo }, ..i.config },
            q.insert(Event::RerunSpf),
        ),
{
    reveal(instance_cfg_spf_changed);
}

/// Each other leaf of the instance takes the configured value, and no other one changes.
/// The instance is updated or reset where that is needed.
#[verifier::spinoff_prover]
#[verifier::rlimit(40)]
pub proof fn instance_leaves_are_taken_as_configured(
    i: InstanceView,
    q: Set<Event>,
    enabled: bool,
    level_type: LevelType,
    system_id: Option<SystemId>,
    overload_status: bool,
    mt_id: Option<u8>,
    enable: bool,
    advertise: bool,
    receive: bool,
)
    ensures
        becomes(
            i,
            q,
            ConfigChange::Enabled(enabled),
            InstanceCfgView { enabled, ..i.config },
            q.insert(Event::InstanceUpdate),
        ),
        becomes(
            i,
            q,
            ConfigChange::LevelType(level_type),
            InstanceCfgView { level_type, ..i.config },
            q.insert(Event::InstanceReset).insert(Event::InstanceLevelTypeUpdate),
        ),
        becomes(
            i,
            q,
            ConfigChange::SystemId(system_id),
            InstanceCfgView { system_id, ..i.config },
            (if system_id is Some { q.insert(Event::InstanceReset) } else { q }).insert(Event::InstanceUpdate),
        ),
        becomes(
            i,
            q,
            ConfigChange::OverloadStatus(overload_status),
            InstanceCfgView { overload_status, ..i.config },
            q.insert(Event::OverloadChange(overload_status)).insert(
                Event::ReoriginateLsps(LevelNumber::L1),
            ).insert(Event::ReoriginateLsps(LevelNumber::L2)),
        ),
        becomes(
            i,
            q,
            ConfigChange::BierMtId(mt_id),
            InstanceCfgView {
                bier: InstanceBierCfg { mt_id: mt_id.unwrap_or(0), ..i.config.bier },
                ..i.config
            },
            q.insert(Event::ReoriginateLsps(LevelNumber::L1)).insert(Event::ReoriginateLsps(LevelNumber::L2)),
        ),
        becomes(
            i,
            q,
            ConfigChange::BierBierEnable(enable),
            InstanceCfgView { bier: InstanceBierCfg { enabled: enable, ..i.config.bier }, ..i.config },
            q.insert(Event::ReoriginateLsps(LevelNumber::L1)).insert(Event::ReoriginateLsps(LevelNumber::L2)),
        ),
        becomes(
            i,
            q,
            ConfigChange::BierBierAdvertise(advertise),
            InstanceCfgView { bier: InstanceBierCfg { advertise, ..i.config.bier }, ..i.config },
            q,
        ),
        becomes(
            i,
            q,
            ConfigChange::BierBierReceive(receive),
            InstanceCfgView { bier: InstanceBierCfg { receive, ..i.config.bier }, ..i.config },
            q,
        ),
        becomes(
            i,
            q,
            ConfigChange::SpbEnable(enable),
            InstanceCfgView { spb: InstanceSpbCfgView { enabled: enable, ..i.config.spb }, ..i.config },
            q,
        ),
        becomes(
            i,
            q,
            ConfigChange::IsisLinkAttrLegacy(ConfigOp::Create),
            InstanceCfgView { link_attr_mode: LinkAttrMode::Legacy, ..i.config },
            q.insert(Event::ReoriginateLsps(LevelNumber::L1)).insert(Event::ReoriginateLsps(LevelNumber::L2)),
        ),
        becomes(i, q, ConfigChange::IsisLinkAttrLegacy(ConfigOp::Delete), i.config, q),
        becomes(
            i,
            q,
            ConfigChange::IsisLinkAttrTransition(ConfigOp::Create),
            InstanceCfgView { link_attr_mode: LinkAttrMode::Transition, ..i.config },
            q.insert(Event::ReoriginateLsps(LevelNumber::L1)).insert(Event::ReoriginateLsps(LevelNumber::L2)),
        ),
        becomes(i, q, ConfigChange::IsisLinkAttrTransition(ConfigOp::Delete), i.config, q),
        becomes(
            i,
            q,
            ConfigChange::IsisLinkAttrAppSpecific(ConfigOp::Create),
            InstanceCfgView { link_attr_mode: LinkAttrMode::AppSpecific, ..i.config },
            q.insert(Event::ReoriginateLsps(LevelNumber::L1)).insert(Event::ReoriginateLsps(LevelNumber::L2)),
        ),
        becomes(i, q, ConfigChange::IsisLinkAttrAppSpecific(ConfigOp::Delete), i.config, q),
        becomes(
            i,
            q,
            ConfigChange::SegmentRoutingEnabled(enabled),
            InstanceCfgView { sr: InstanceSrCfg { enabled }, ..i.config },
            q.insert(Event::SrEnabledChange(enabled)).insert(
                Event::ReoriginateLsps(LevelNumber::L1),
            ).insert(Event::ReoriginateLsps(LevelNumber::L2)),
        ),
{
    reveal(instance_cfg_general_changed);
}

/// Each leaf of the authentication of Hello PDUs takes the configured value, at its own
/// level only, and no other one changes. It is then to be put in force.
#[verifier::spinoff_prover]
#[verifier::rlimit(40)]
pub proof fn hello_authentication_is_taken_as_configured(
    c: InterfaceCfgView,
    q: Set<Event>,
    d: Defaults,
    t: LevelType,
    k: InterfaceIndex,
    keychain: Option<String>,
    key: Option<String>,
    key_id: Option<u16>,
    algo: Option<CryptoAlgo>,
)
    ensures
        cfg_becomes(
            c,
            q,
            d,
            t,
            k,
            InterfaceEntryChange::HelloAuthenticationKeyChain(keychain),
            InterfaceCfgView {
                hello_auth: LevelsCfg {
                    all: AuthCfgView { keychain: opt_text(keychain), ..c.hello_auth.all },
                    ..c.hello_auth
                },
                ..c
            },
            q.insert(Event::InterfaceUpdateAuth(k)),
        ),
        cfg_becomes(
            c,
            q,
            d,
            t,
            k,
            InterfaceEntryChange::HelloAuthenticationKey(key),
            InterfaceCfgView {
                hello_auth: LevelsCfg {
                    all: AuthCfgView { key: opt_text(key), ..c.hello_auth.all },
                    ..c.hello_auth
                },
                ..c
            },
            q.insert(Event::InterfaceUpdateAuth(k)),
        ),
        cfg_becomes(
            c,
            q,
            d,
            t,
            k,
            InterfaceEntryChange::HelloAuthenticationKeyId(key_id),
            InterfaceCfgView {
                hello_auth: LevelsCfg { all: AuthCfgView { key_id, ..c.hello_auth.all }, ..c.hello_auth },
                ..c
            },
            q.insert(Event::InterfaceUpdateAuth(k)),
        ),
        cfg_becomes(
            c,
            q,
            d,
            t,
            k,
            InterfaceEntryChange::HelloAuthenticationCryptoAlgorithm(algo),
            InterfaceCfgView {
                hello_auth: LevelsCfg { all: AuthCfgView { algo, ..c.hello_auth.all }, ..c.hello_auth },
                ..c
            },
            q.insert(Event::InterfaceUpdateAuth(k)),
        ),
        cfg_becomes(
            c,
            q,
            d,
            t,
            k,
            InterfaceEntryChange::HelloAuthenticationLevel1KeyChain(keychain),
            InterfaceCfgView {
                hello_auth: LevelsCfg {
                    l1: AuthCfgView { keychain: opt_text(keychain), ..c.hello_auth.l1 },
                    ..c.hello_auth
                },
                ..c
            },
            q.insert(Event::InterfaceUpdateAuth(k)),
        ),
        cfg_becomes(
            c,
            q,
            d,
            t,
            k,
            InterfaceEntryChange::HelloAuthenticationLevel1Key(key),
            InterfaceCfgView {
                hello_auth: LevelsCfg {
                    l1: AuthCfgView { key: opt_text(key), ..c.hello_auth.l1 },
                    ..c.hello_auth
                },
                ..c
            },
            q.insert(Event::InterfaceUpdateAuth(k)),
        ),
        cfg_becomes(
            c,
            q,
            d,
            t,
            k,
            InterfaceEntryChange::HelloAuthenticationLevel1KeyId(key_id),
            InterfaceCfgView {
                hello_auth: LevelsCfg { l1: AuthCfgView { key_id, ..c.hello_auth.l1 }, ..c.hello_auth },
                ..c
            },
            q.insert(Event::InterfaceUpdateAuth(k)),
        ),
        cfg_becomes(
            c,
            q,
            d,
            t,
            k,
            InterfaceEntryChange::HelloAuthenticationLevel1CryptoAlgorithm(algo),
            InterfaceCfgView {
                hello_auth: LevelsCfg { l1: AuthCfgView { algo, ..c.hello_auth.l1 }, ..c.hello_auth },
                ..c
            },
            q.insert(Event::InterfaceUpdateAuth(k)),
        ),
        cfg_becomes(
            c,
            q,
            d,
            t,
            k,
            InterfaceEntryChange::HelloAuthenticationLevel2KeyChain(keychain),
            InterfaceCfgView {
                hello_auth: LevelsCfg {
                    l2: AuthCfgView { keychain: opt_text(keychain), ..c.hello_auth.l2 },
                    ..c.hello_auth
                },
                ..c
            },
            q.insert(Event::InterfaceUpdateAuth(k)),
        ),
        cfg_becomes(
            c,
            q,
            d,
            t,
            k,
            InterfaceEntryChange::HelloAuthenticationLevel2Key(key),
            InterfaceCfgView {
                hello_auth: LevelsCfg {
                    l2: AuthCfgView { key: opt_text(key), ..c.hello_auth.l2 },
                    ..c.hello_auth
                },
                ..c
            },
            q.insert(Event::InterfaceUpdateAuth(k)),
        ),
        cfg_becomes(
            c,
            q,
            d,
            t,
            k,
            InterfaceEntryChange::HelloAuthenticationLevel2KeyId(key_id),
            InterfaceCfgView {
                hello_auth: LevelsCfg { l2: AuthCfgView { key_id, ..c.hello_auth.l2 }, ..c.hello_auth },
                ..c
            },
            q.insert(Event::InterfaceUpdateAuth(k)),
        ),
        cfg_becomes(
            c,
            q,
            d,
            t,
            k,
            InterfaceEntryChange::HelloAuthenticationLevel2CryptoAlgorithm(algo),
            InterfaceCfgView {
                hello_auth: LevelsCfg { l2: AuthCfgView { algo, ..c.hello_auth.l2 }, ..c.hello_auth },
                ..c
            },
            q.insert(Event::InterfaceUpdateAuth(k)),
        ),
{
    reveal(interface_cfg_auth_changed);
}

/// Each leaf on the PDUs of an interface takes the configured value, at its own level only,
/// and no other one changes. Timers of the levels that it concerns start anew.
#[verifier::spinoff_prover]
#[verifier::rlimit(40)]
pub proof fn interface_timers_are_taken_as_configured(
    c: InterfaceCfgView,
    q: Set<Event>,
    d: Defaults,
    t: LevelType,
    k: InterfaceIndex,
    lsp_pacing_interval: u32,
    lsp_rxmt_interval: u16,
    csnp_interval: u16,
    csnp_disable: bool,
    hello_padding: bool,
    hello_interval: u16,
    hello_interval_opt: Option<u16>,
    hello_multiplier: u16,
    hello_multiplier_opt: Option<u16>,
    priority: u8,
    priority_opt: Option<u8>,
    mode: Option<ExtendedSeqNumMode>,
)
    ensures
        cfg_becomes(
            c,
            q,
            d,
            t,
            k,
            InterfaceEntryChange::LspPacingInterval(lsp_pacing_interval),
            InterfaceCfgView { lsp_pacing_interval, ..c },
            q,
        ),
        cfg_becomes(
            c,
            q,
            d,
            t,
            k,
            InterfaceEntryChange::LspRetransmitInterval(lsp_rxmt_interval),
            InterfaceCfgView { lsp_rxmt_interval, ..c },
            q,
        ),
        cfg_becomes(
            c,
            q,
            d,
            t,
            k,
            InterfaceEntryChange::CsnpInterval(csnp_interval),
            InterfaceCfgView { csnp_interval, ..c },
            q.insert(Event::InterfaceUpdateCsnpInterval(k)),
        ),
        cfg_becomes(
            c,
            q,
            d,
            t,
            k,
            InterfaceEntryChange::CsnpDisable(Some(csnp_disable)),
            InterfaceCfgView { csnp_disable, ..c },
            q.insert(Event::InterfaceUpdateCsnpInterval(k)),
        ),
        cfg_becomes(c, q, d, t, k, InterfaceEntryChange::CsnpDisable(None), c, q),
        cfg_becomes(
            c,
            q,
            d,
            t,
            k,
            InterfaceEntryChange::HelloPaddingEnabled(hello_padding),
            InterfaceCfgView { hello_padding, ..c },
            q.insert(Event::InterfaceRestartNetwork(k)),
        ),
        cfg_becomes(
            c,
            q,
            d,
            t,
            k,
            InterfaceEntryChange::HelloIntervalValue(hello_interval),
            InterfaceCfgView {
                hello_interval: LevelsCfgWithDefault { all: hello_interval, ..c.hello_interval },
                ..c
            },
            q.insert(
                Event::InterfaceUpdateHelloInterval(k, LevelNumber::L1),
            ).insert(Event::InterfaceUpdateHelloInterval(k, LevelNumber::L2)),
        ),
        cfg_becomes(
            c,
            q,
            d,
            t,
            k,
            InterfaceEntryChange::HelloIntervalLevel1Value(hello_interval_opt),
            InterfaceCfgView {
                hello_interval: LevelsCfgWithDefault { l1: hello_interval_opt, ..c.hello_interval },
                ..c
            },
            q.insert(Event::InterfaceUpdateHelloInterval(k, LevelNumber::L1)),
        ),
        cfg_becomes(
            c,
            q,
            d,
            t,
            k,
            InterfaceEntryChange::HelloIntervalLevel2Value(hello_interval_opt),
            InterfaceCfgView {
                hello_interval: LevelsCfgWithDefault { l2: hello_interval_opt, ..c.hello_interval },
                ..c
            },
            q.insert(Event::InterfaceUpdateHelloInterval(k, LevelNumber::L2)),
        ),
        cfg_becomes(
            c,
            q,
            d,
            t,
            k,
            InterfaceEntryChange::HelloMultiplierValue(hello_multiplier),
            InterfaceCfgView {
                hello_multiplier: LevelsCfgWithDefault { all: hello_multiplier, ..c.hello_multiplier },
                ..c
            },
            q.insert(
                Event::InterfaceUpdateHelloInterval(k, LevelNumber::L1),
            ).insert(Event::InterfaceUpdateHelloInterval(k, LevelNumber::L2)),
        ),
        cfg_becomes(
            c,
            q,
            d,
            t,
            k,
            InterfaceEntryChange::HelloMultiplierLevel1Value(hello_multiplier_opt),
            InterfaceCfgView {
                hello_multiplier: LevelsCfgWithDefault { l1: hello_multiplier_opt, ..c.hello_multiplier },
                ..c
            },
            q.insert(Event::InterfaceUpdateHelloInterval(k, LevelNumber::L1)),
        ),
        cfg_becomes(
            c,
            q,
            d,
            t,
            k,
            InterfaceEntryChange::HelloMultiplierLevel2Value(hello_multiplier_opt),
            InterfaceCfgView {
                hello_multiplier: LevelsCfgWithDefault { l2: hello_multiplier_opt, ..c.hello_multiplier },
                ..c
            },
            q.insert(Event::InterfaceUpdateHelloInterval(k, LevelNumber::L2)),
        ),
        cfg_becomes(
            c,
            q,
            d,
            t,
            k,
            InterfaceEntryChange::PriorityValue(priority),
            InterfaceCfgView { priority: LevelsCfgWithDefault { all: priority, ..c.priority }, ..c },
            q.insert(Event::InterfacePriorityChange(k, LevelNumber::L1)).insert(
                Event::InterfaceUpdateHelloInterval(k, LevelNumber::L1),
            ).insert(Event::InterfacePriorityChange(k, LevelNumber::L2)).insert(
                Event::InterfaceUpdateHelloInterval(k, LevelNumber::L2),
            ),
        ),
        cfg_becomes(
            c,
            q,
            d,
            t,
            k,
            InterfaceEntryChange::PriorityLevel1Value(priority_opt),
            InterfaceCfgView { priority: LevelsCfgWithDefault { l1: priority_opt, ..c.priority }, ..c },
            q.insert(Event::InterfacePriorityChange(k, LevelNumber::L1)).insert(
                Event::InterfaceUpdateHelloInterval(k, LevelNumber::L1),
            ),
        ),
        cfg_becomes(
            c,
            q,
            d,
            t,
            k,
            InterfaceEntryChange::PriorityLevel2Value(priority_opt),
            InterfaceCfgView { priority: LevelsCfgWithDefault { l2: priority_opt, ..c.priority }, ..c },
            q.insert(Event::InterfacePriorityChange(k, LevelNumber::L2)).insert(
                Event::InterfaceUpdateHelloInterval(k, LevelNumber::L2),
            ),
        ),
        cfg_becomes(
            c,
            q,
            d,
            t,
            k,
            InterfaceEntryChange::ExtendedSequenceNumberMode(mode),
            InterfaceCfgView { ext_seqnum_mode: LevelsCfg { all: mode, ..c.ext_seqnum_mode }, ..c },
            q.insert(
                Event::InterfaceUpdateHelloInterval(k, LevelNumber::L1),
            ).insert(Event::InterfaceUpdateHelloInterval(k, LevelNumber::L2)),
        ),
        cfg_becomes(
            c,
            q,
            d,
            t,
            k,
            InterfaceEntryChange::ExtendedSequenceNumberLevel1Mode(mode),
            InterfaceCfgView { ext_seqnum_mode: LevelsCfg { l1: mode, ..c.ext_seqnum_mode }, ..c },
            q.insert(Event::InterfaceUpdateHelloInterval(k, LevelNumber::L1)),
        ),
        cfg_becomes(
            c,
            q,
            d,
            t,
            k,
            InterfaceEntryChange::ExtendedSequenceNumberLevel2Mode(mode),
            InterfaceCfgView { ext_seqnum_mode: LevelsCfg { l2: mode, ..c.ext_seqnum_mode }, ..c },
            q.insert(Event::InterfaceUpdateHelloInterval(k, LevelNumber::L2)),
        ),
{
    reveal(interface_cfg_hello_changed);
}

/// Each other leaf of an interface takes the configured value, and no other one changes. The
/// interface is updated or reset, or LSPs are originated anew, where that is needed.
#[verifier::spinoff_prover]
#[verifier::rlimit(40)]
pub proof fn interface_leaves_are_taken_as_configured(
    c: InterfaceCfgView,
    q: Set<Event>,
    d: Defaults,
    t: LevelType,
    k: InterfaceIndex,
    enabled: bool,
    level_type: LevelType,
    passive: bool,
    interface_type: InterfaceType,
    metric: u32,
    metric_opt: Option<u32>,
    local_multiplier: u8,
    min_tx: u32,
    min_rx: u32,
    min_interval: u32,
)
    ensures
        cfg_becomes(
            c,
            q,
            d,
            t,
            k,
            InterfaceEntryChange::Enabled(enabled),
            InterfaceCfgView { enabled, ..c },
            q.insert(Event::InterfaceUpdate(k)),
        ),
        cfg_becomes(
            c,
            q,
            d,
            t,
            k,
            InterfaceEntryChange::LevelType(level_type),
            InterfaceCfgView {
                level_type: InheritableConfig {
                    explicit: Some(level_type),
                    resolved: level_type_in_force(Some(level_type), t),
                },
                ..c
            },
            q.insert(Event::InterfaceReset(k)),
        ),
        cfg_becomes(
            c,
            q,
            d,
            t,
            k,
            InterfaceEntryChange::Passive(passive),
            InterfaceCfgView { passive, ..c },
            q.insert(Event::InterfaceReset(k)),
        ),
        cfg_becomes(
            c,
            q,
            d,
            t,
            k,
            InterfaceEntryChange::InterfaceType(interface_type),
            InterfaceCfgView { interface_type, ..c },
            q.insert(Event::InterfaceReset(k)),
        ),
        cfg_becomes(
            c,
            q,
            d,
            t,
            k,
            InterfaceEntryChange::NodeFlag(enabled),
            InterfaceCfgView { node_flag: enabled, ..c },
            q.insert(Event::ReoriginateLsps(LevelNumber::L1)).insert(Event::ReoriginateLsps(LevelNumber::L2)),
        ),
        cfg_becomes(
            c,
            q,
            d,
            t,
            k,
            InterfaceEntryChange::MetricValue(metric),
            InterfaceCfgView { metric: LevelsCfgWithDefault { all: metric, ..c.metric }, ..c },
            q.insert(Event::ReoriginateLsps(LevelNumber::L1)).insert(Event::ReoriginateLsps(LevelNumber::L2)),
        ),
        cfg_becomes(
            c,
            q,
            d,
            t,
            k,
            InterfaceEntryChange::MetricLevel1Value(metric_opt),
            InterfaceCfgView { metric: LevelsCfgWithDefault { l1: metric_opt, ..c.metric }, ..c },
            q.insert(Event::ReoriginateLsps(LevelNumber::L1)),
        ),
        cfg_becomes(
            c,
            q,
            d,
            t,
            k,
            InterfaceEntryChange::MetricLevel2Value(metric_opt),
            InterfaceCfgView { metric: LevelsCfgWithDefault { l2: metric_opt, ..c.metric }, ..c },
            q.insert(Event::ReoriginateLsps(LevelNumber::L2)),
        ),
        cfg_becomes(
            c,
            q,
            d,
            t,
            k,
            InterfaceEntryChange::BfdEnabled(enabled),
            InterfaceCfgView { bfd_enabled: enabled, ..c },
            q.insert(Event::InterfaceBfdChange(k)),
        ),
        cfg_becomes(
            c,
            q,
            d,
            t,
            k,
            InterfaceEntryChange::BfdLocalMultiplier(local_multiplier),
            InterfaceCfgView { bfd_params: ClientCfg { local_multiplier, ..c.bfd_params }, ..c },
            q.insert(Event::InterfaceBfdChange(k)),
        ),
        cfg_becomes(
            c,
            q,
            d,
            t,
            k,
            InterfaceEntryChange::BfdDesiredMinTxInterval(Some(min_tx)),
            InterfaceCfgView { bfd_params: ClientCfg { min_tx, ..c.bfd_params }, ..c },
            q.insert(Event::InterfaceBfdChange(k)),
        ),
        cfg_becomes(c, q, d, t, k, InterfaceEntryChange::BfdDesiredMinTxInterval(None), c, q),
        cfg_becomes(
            c,
            q,
            d,
            t,
            k,
            InterfaceEntryChange::BfdRequiredMinRxInterval(Some(min_rx)),
            InterfaceCfgView { bfd_params: ClientCfg { min_rx, ..c.bfd_params }, ..c },
            q.insert(Event::InterfaceBfdChange(k)),
        ),
        cfg_becomes(c, q, d, t, k, InterfaceEntryChange::BfdRequiredMinRxInterval(None), c, q),
        cfg_becomes(
            c,
            q,
            d,
            t,
            k,
            InterfaceEntryChange::BfdMinInterval(Some(min_interval)),
            InterfaceCfgView {
                bfd_params: ClientCfg { min_tx: min_interval, min_rx: min_interval, ..c.bfd_params },
                ..c
            },
            q.insert(Event::InterfaceBfdChange(k)),
        ),
        cfg_becomes(c, q, d, t, k, InterfaceEntryChange::BfdMinInterval(None), c, q),
{
    reveal(interface_cfg_general_changed);
}

/// Configuration starts out with the defaults of the schema, and empty where it has none.
pub proof fn configuration_starts_out_with_defaults(d: Defaults)
    ensures
        InstanceCfg::initial(d).enabled == d.enabled,
        InstanceCfg::initial(d).level_type == d.level_type,
        InstanceCfg::initial(d).system_id is None,
        InstanceCfg::initial(d).area_addrs.is_empty(),
        InstanceCfg::initial(d).lsp_mtu == d.lsp_mtu,
        InstanceCfg::initial(d).lsp_lifetime == d.lsp_lifetime,
        InstanceCfg::initial(d).lsp_refresh == d.lsp_refresh,
        InstanceCfg::initial(d).purge_originator == d.purge_originator,
        InstanceCfg::initial(d).node_tags.is_empty(),
        InstanceCfg::initial(d).metric_type == (LevelsCfgWithDefault {
            all: d.metric_type,
            l1: None,
            l2: None,
        }),
        InstanceCfg::initial(d).default_metric == (LevelsCfgWithDefault {
            all: d.default_metric,
            l1: None,
            l2: None,
        }),
        InstanceCfg::initial(d).auth == (LevelsCfg {
            all: AuthCfg::initial(),
            l1: AuthCfg::initial(),
            l2: AuthCfg::initial(),
        }),
        InstanceCfg::initial(d).auth_resolved is None,
        InstanceCfg::initial(d).ipv4_router_id is None,
        InstanceCfg::initial(d).ipv6_router_id is None,
        InstanceCfg::initial(d).max_paths == d.max_paths,
        InstanceCfg::initial(d).afs.dom().is_empty(),
        InstanceCfg::initial(d).spf_initial_delay == d.spf_initial_delay,
        InstanceCfg::initial(d).spf_short_delay == d.spf_short_delay,
        InstanceCfg::initial(d).spf_long_delay == d.spf_long_delay,
        InstanceCfg::initial(d).spf_hold_down == d.spf_hold_down,
        InstanceCfg::initial(d).spf_time_to_learn == d.spf_time_to_learn,
        InstanceCfg::initial(d).preference == Preference::initial(d),
        InstanceCfg::initial(d).overload_status == d.overload_status,
        InstanceCfg::initial(d).mt.dom().is_empty(),
        InstanceCfg::initial(d).link_attr_mode == LinkAttrMode::Legacy,
        InstanceCfg::initial(d).summaries.dom().is_empty(),
        InstanceCfg::initial(d).flooding_reduction == InstanceFloodingReductionCfg::initial(d),
        InstanceCfg::initial(d).att_suppress == d.att_suppress,
        InstanceCfg::initial(d).att_ignore == d.att_ignore,
        InstanceCfg::initial(d).sr == InstanceSrCfg::initial(d),
        InstanceCfg::initial(d).bier == InstanceBierCfg::initial(d),
        InstanceCfg::initial(d).spb == InstanceSpbCfg::initial(),
        InstanceCfg::initial(d).trace_opts == InstanceTraceOptions::initial(),
        InstanceMtCfg::initial(d).enabled == d.mt_enabled,
        InstanceMtCfg::initial(d).default_metric == (LevelsCfgWithDefault {
            all: d.mt_default_metric,
            l1: None,
            l2: None,
        }),
        InstanceFloodingReductionCfg::initial(d).algo == d.flooding_algo,
        InstanceSrCfg::initial(d).enabled == d.sr_enabled,
        InstanceBierCfg::initial(d).mt_id == 0,
        InstanceBierCfg::initial(d).enabled == d.bier_enabled,
        InstanceBierCfg::initial(d).advertise == d.bier_advertise,
        InstanceBierCfg::initial(d).receive == d.bier_receive,
        SpbIsidCfg::initial(d).transmit == d.isid_transmit,
        SpbIsidCfg::initial(d).receive == d.isid_receive,
        AddressFamilyCfg::initial(d).enabled == d.af_enabled,
        AddressFamilyCfg::initial(d).redistribution.dom().is_empty(),
        Preference::initial(d).internal == d.preference,
        Preference::initial(d).external == d.preference,
        InterfaceMtCfg::initial(d).enabled == d.iface_mt_enabled,
        InterfaceMtCfg::initial(d).metric == (LevelsCfgWithDefault {
            all: d.iface_mt_metric,
            l1: None,
            l2: None,
        }),
        InterfaceCfg::initial(d).enabled == d.iface_enabled,
        InterfaceCfg::initial(d).level_type == (InheritableConfig {
            explicit: Some(d.iface_level_type),
            resolved: d.iface_level_type,
        }),
        InterfaceCfg::initial(d).lsp_pacing_interval == d.lsp_pacing_interval,
        InterfaceCfg::initial(d).lsp_rxmt_interval == d.lsp_rxmt_interval,
        InterfaceCfg::initial(d).passive == d.passive,
        InterfaceCfg::initial(d).csnp_interval == d.csnp_interval,
        InterfaceCfg::initial(d).csnp_disable == d.csnp_disable,
        InterfaceCfg::initial(d).hello_padding == d.hello_padding,
        InterfaceCfg::initial(d).interface_type == d.interface_type,
        InterfaceCfg::initial(d).node_flag == d.node_flag,
        InterfaceCfg::initial(d).hello_auth == (LevelsCfg {
            all: AuthCfg::initial(),
            l1: AuthCfg::initial(),
            l2: AuthCfg::initial(),
        }),
        InterfaceCfg::initial(d).hello_auth_resolved is None,
        InterfaceCfg::initial(d).hello_interval == (LevelsCfgWithDefault {
            all: d.hello_interval,
            l1: None,
            l2: None,
        }),
        InterfaceCfg::initial(d).hello_multiplier == (LevelsCfgWithDefault {
            all: d.hello_multiplier,
            l1: None,
            l2: None,
        }),
        InterfaceCfg::initial(d).priority == (LevelsCfgWithDefault { all: d.priority, l1: None, l2: None }),
        InterfaceCfg::initial(d).metric == (LevelsCfgWithDefault { all: d.metric, l1: None, l2: None }),
        InterfaceCfg::initial(d).bfd_enabled == d.bfd_enabled,
        InterfaceCfg::initial(d).bfd_params == d.bfd_params,
        InterfaceCfg::initial(d).afs.is_empty(),
        InterfaceCfg::initial(d).mt.dom().is_empty(),
        InterfaceCfg::initial(d).asla.dom().is_empty(),
        InterfaceCfg::initial(d).ext_seqnum_mode == (LevelsCfg::<Option<ExtendedSeqNumMode>> {
            all: None,
            l1: None,
            l2: None,
        }),
        InterfaceCfg::initial(d).trace_opts == InterfaceTraceOptions::initial(),
        AuthCfg::initial().keychain is None,
        AuthCfg::initial().key is None,
        AuthCfg::initial().key_id is None,
        AuthCfg::initial().algo is None,
        !InstanceSpbCfg::initial().enabled,
        InstanceSpbCfg::initial().services.dom().is_empty(),
        TraceOptionPacket::initial().all is None,
        TraceOptionPacket::initial().hello is None,
        TraceOptionPacket::initial().psnp is None,
        TraceOptionPacket::initial().csnp is None,
        TraceOptionPacket::initial().lsp is None,
        TraceOptionPacketResolved::initial().hello == (TraceOptionPacketType { tx: false, rx: false }),
        TraceOptionPacketResolved::initial().psnp == (TraceOptionPacketType { tx: false, rx: false }),
        TraceOptionPacketResolved::initial().csnp == (TraceOptionPacketType { tx: false, rx: false }),
        TraceOptionPacketResolved::initial().lsp == (TraceOptionPacketType { tx: false, rx: false }),
        !InstanceTraceOptions::initial().flood_reduction,
        !InstanceTraceOptions::initial().ibus,
        !InstanceTraceOptions::initial().lsdb,
        InstanceTraceOptions::initial().packets == TraceOptionPacket::initial(),
        !InstanceTraceOptions::initial().spf,
        InterfaceAslaCfg::initial().te_metric is None,
        InterfaceAslaCfg::initial().admin_group is None,
        SummaryCfg::initial().metric is None,
{
}

// ===== values in force =====

/// A value of one level goes before the value of both, where it is set.
pub proof fn level_values_go_first(
    c: LevelsCfgWithDefault<u16>,
    m: LevelsCfg<Option<ExtendedSeqNumMode>>,
    v: u16,
    x: ExtendedSeqNumMode,
)
    ensures
        c.l1 == Some(v) ==> c.at(LevelType::L1) == v,
        c.l2 == Some(v) ==> c.at(LevelType::L2) == v,
        c.l1 is None ==> c.at(LevelType::L1) == c.all,
        c.l2 is None ==> c.at(LevelType::L2) == c.all,
        c.at(LevelType::All) == c.all,
        m.l1 == Some(x) ==> m.at(LevelType::L1) == Some(x),
        m.l2 == Some(x) ==> m.at(LevelType::L2) == Some(x),
        m.l1 is None ==> m.at(LevelType::L1) == m.all,
        m.l2 is None ==> m.at(LevelType::L2) == m.all,
        m.at(LevelType::All) == m.all,
{
}

/// The level type of the instance goes before that of an interface, unless it is both.
pub proof fn instance_level_type_goes_first(explicit: LevelType)
    ensures
        level_type_in_force(Some(explicit), LevelType::L1) == LevelType::L1,
        level_type_in_force(Some(explicit), LevelType::L2) == LevelType::L2,
        level_type_in_force(Some(explicit), LevelType::All) == explicit,
{
}

/// Levels are those of their type.
pub proof fn level_types_have_their_levels()
    ensures
        LevelType::L1.levels() == seq![LevelNumber::L1],
        LevelType::L2.levels() == seq![LevelNumber::L2],
        LevelType::All.levels() == seq![LevelNumber::L1, LevelNumber::L2],
        LevelType::L1.has(LevelNumber::L1) && !LevelType::L1.has(LevelNumber::L2),
        LevelType::L2.has(LevelNumber::L2) && !LevelType::L2.has(LevelNumber::L1),
        LevelType::All.has(LevelNumber::L1) && LevelType::All.has(LevelNumber::L2),
        LevelNumber::L1.only() == LevelType::L1,
        LevelNumber::L2.only() == LevelType::L2,
{
}

/// A key with its algorithm authenticates by itself, under its number or zero. Without
/// one, the named keychain does, if it is there; without that, nothing does.
pub proof fn authentication_is_by_key_or_keychain(
    c: AuthCfgView,
    keychains: Map<Seq<char>, Arc<Keychain>>,
    key: Seq<char>,
    algo: CryptoAlgo,
    id: u16,
    name: Seq<char>,
)
    ensures
        c.key == Some(key) && c.algo == Some(algo) && c.key_id == Some(id) ==> c.auth(keychains) == Some(
            AuthMethodView::ManualKey(KeyView { id: id as u64, algo, string: vstd::utf8::encode_utf8(key) }),
        ),
        c.key == Some(key) && c.algo == Some(algo) && c.key_id is None ==> c.auth(keychains) == Some(
            AuthMethodView::ManualKey(KeyView { id: 0, algo, string: vstd::utf8::encode_utf8(key) }),
        ),
        (c.key is None || c.algo is None) && c.keychain == Some(name) && keychains.contains_key(name) ==> c.auth(
            keychains,
        ) == Some(AuthMethodView::Keychain(keychains[name])),
        (c.key is None || c.algo is None) && c.keychain == Some(name) && !keychains.contains_key(name) ==> c.auth(
            keychains,
        ) is None,
        (c.key is None || c.algo is None) && c.keychain is None ==> c.auth(keychains) is None,
{
}

/// An address family is enabled unless it is configured not to be. The standard topology
/// always is; another one of the instance has to be configured, and one of an interface
/// may be configured not to be.
pub proof fn topologies_and_families_in_force(c: InstanceCfgView, f: InterfaceCfgView, af: AddressFamily)
    ensures
        !c.afs.contains_key(af) ==> af_enabled(c.afs, af),
        c.afs.contains_key(af) ==> af_enabled(c.afs, af) == c.afs[af].enabled,
        c.topology_enabled(MtId::Standard),
        f.topology_enabled(MtId::Standard),
        c.topology_enabled(MtId::Ipv6Unicast) == (c.mt.contains_key(MtId::Ipv6Unicast)
            && c.mt[MtId::Ipv6Unicast].enabled),
        f.mt.contains_key(MtId::Ipv6Unicast) ==> f.topology_enabled(MtId::Ipv6Unicast)
            == f.mt[MtId::Ipv6Unicast].enabled,
        !f.mt.contains_key(MtId::Ipv6Unicast) ==> f.topology_enabled(MtId::Ipv6Unicast),
{
}

/// Neighbors hold an adjacency for as many Hello intervals as the multiplier says.
pub proof fn holdtime_is_a_multiple_of_the_interval(f: InterfaceCfgView, n: u16, m: u16)
    ensures
        f.hello_interval.l1 == Some(n) && f.hello_multiplier.l1 == Some(m) ==> f.holdtime(LevelType::L1) == n * m,
        f.hello_interval.l2 == Some(n) && f.hello_multiplier.l2 == Some(m) ==> f.holdtime(LevelType::L2) == n * m,
        f.holdtime(LevelType::All) == f.hello_interval.all * f.hello_multiplier.all,
{
}

/// The PDUs of a kind are traced as the option of their kind says.
pub proof fn pdus_are_traced_by_kind(p: TraceOptionPacketResolved)
    ensures
        p.on(PduType::HelloP2P) == p.hello && p.on(PduType::HelloLanL1) == p.hello && p.on(PduType::HelloLanL2)
            == p.hello,
        p.on(PduType::LspL1) == p.lsp && p.on(PduType::LspL2) == p.lsp,
        p.on(PduType::CsnpL1) == p.csnp && p.on(PduType::CsnpL2) == p.csnp,
        p.on(PduType::PsnpL1) == p.psnp && p.on(PduType::PsnpL2) == p.psnp,
{
}

/// An option on packets of an interface goes before that of the instance, and one on
/// their kind before one on all. Without any, nothing is traced.
pub proof fn nearer_trace_options_go_first(own: TraceOptionPacket, up: TraceOptionPacket, x: TraceOptionPacketType)
    ensures
        ({
            let r = packets_in_force(own, up);
            &&& own.hello == Some(x) ==> r.hello == x
            &&& own.hello is None && own.all == Some(x) ==> r.hello == x
            &&& own.hello is None && own.all is None && up.hello == Some(x) ==> r.hello == x
            &&& own.hello is None && own.all is None && up.hello is None && up.all == Some(x) ==> r.hello == x
            &&& own.hello is None && own.all is None && up.hello is None && up.all is None ==> !r.hello.tx
                && !r.hello.rx
            &&& own.psnp == Some(x) ==> r.psnp == x
            &&& own.psnp is None && own.all == Some(x) ==> r.psnp == x
            &&& own.psnp is None && own.all is None && up.psnp == Some(x) ==> r.psnp == x
            &&& own.csnp == Some(x) ==> r.csnp == x
            &&& own.csnp is None && own.all == Some(x) ==> r.csnp == x
            &&& own.csnp is None && own.all is None && up.csnp == Some(x) ==> r.csnp == x
            &&& own.lsp == Some(x) ==> r.lsp == x
            &&& own.lsp is None && own.all == Some(x) ==> r.lsp == x
            &&& own.lsp is None && own.all is None && up.lsp == Some(x) ==> r.lsp == x
        }),
{
}

/// Each trace option changes its own flag or its own kind of packets.
pub proof fn trace_options_change_their_own(
    c: InstanceTraceOptions,
    f: InterfaceTraceOptions,
    change: TraceFlagChange,
    d: TraceOptionPacketType,
)
    ensures
        trace_options_changed(c, InstanceTraceOption::FloodReduction, change, d) == (InstanceTraceOptions {
            flood_reduction: flag_changed(c.flood_reduction, change),
            ..c
        }),
        trace_options_changed(c, InstanceTraceOption::InternalBus, change, d) == (InstanceTraceOptions {
            ibus: flag_changed(c.ibus, change),
            ..c
        }),
        trace_options_changed(c, InstanceTraceOption::Lsdb, change, d) == (InstanceTraceOptions {
            lsdb: flag_changed(c.lsdb, change),
            ..c
        }),
        trace_options_changed(c, InstanceTraceOption::Spf, change, d) == (InstanceTraceOptions {
            spf: flag_changed(c.spf, change),
            ..c
        }),
        trace_options_changed(c, InstanceTraceOption::PacketsAll, change, d).packets == (TraceOptionPacket {
            all: slot_changed(c.packets.all, change, d),
            ..c.packets
        }),
        trace_options_changed(c, InstanceTraceOption::PacketsHello, change, d).packets == (TraceOptionPacket {
            hello: slot_changed(c.packets.hello, change, d),
            ..c.packets
        }),
        trace_options_changed(c, InstanceTraceOption::PacketsPsnp, change, d).packets == (TraceOptionPacket {
            psnp: slot_changed(c.packets.psnp, change, d),
            ..c.packets
        }),
        trace_options_changed(c, InstanceTraceOption::PacketsCsnp, change, d).packets == (TraceOptionPacket {
            csnp: slot_changed(c.packets.csnp, change, d),
            ..c.packets
        }),
        trace_options_changed(c, InstanceTraceOption::PacketsLsp, change, d).packets == (TraceOptionPacket {
            lsp: slot_changed(c.packets.lsp, change, d),
            ..c.packets
        }),
        interface_trace_options_changed(f, InterfaceTraceOption::PacketsAll, change, d).packets.all == slot_changed(
            f.packets.all,
            change,
            d,
        ),
        interface_trace_options_changed(f, InterfaceTraceOption::PacketsHello, change, d).packets.hello
            == slot_changed(f.packets.hello, change, d),
        interface_trace_options_changed(f, InterfaceTraceOption::PacketsPsnp, change, d).packets.psnp == slot_changed(
            f.packets.psnp,
            change,
            d,
        ),
        interface_trace_options_changed(f, InterfaceTraceOption::PacketsCsnp, change, d).packets.csnp == slot_changed(
            f.packets.csnp,
            change,
            d,
        ),
        interface_trace_options_changed(f, InterfaceTraceOption::PacketsLsp, change, d).packets.lsp == slot_changed(
            f.packets.lsp,
            change,
            d,
        ),
{
    reveal(packets_changed);
}

// ===== entries =====

proof fn some_interface_is_first(m: Map<InterfaceIndex, InterfaceView>, name: Seq<char>, k: InterfaceIndex)
    requires
        m.contains_key(k),
        m[k].name == name,
    ensures
        exists|j: InterfaceIndex| first_named(m, name, j),
    decreases k,
{
    if !first_named(m, name, k) {
        let j = choose|j: InterfaceIndex| #[trigger] m.contains_key(j) && j < k && m[j].name == name;
        some_interface_is_first(m, name, j);
    }
}

/// Interfaces are found by their name.
pub proof fn interfaces_are_found_by_name(m: Map<InterfaceIndex, InterfaceView>, name: Seq<char>, k: InterfaceIndex)
    ensures
        m.contains_key(k) && m[k].name == name ==> interface_named(m, name) is Some,
        interface_named(m, name) matches Some(j) ==> m.contains_key(j) && m[j].name == name,
{
    if m.contains_key(k) && m[k].name == name {
        some_interface_is_first(m, name, k);
    }
    if let Some(j) = interface_named(m, name) {
        assert(first_named(m, name, j));
    }
}

/// A new interface has its name, the defaults of the schema with the level type that is
/// in force, and nothing from the system. A deleted one stays until its event, a change
/// within one reaches its configuration only, and one that is not there cannot be changed.
pub proof fn interfaces_come_and_go(
    i: InstanceView,
    q: Set<Event>,
    name: Seq<char>,
    change: InterfaceEntryChange,
    k: InterfaceIndex,
    other: InterfaceIndex,
)
    requires
        i.next_interface < InterfaceIndex::MAX,
        other != k,
    ensures
        ({
            let r = interface_changed(i, q, name, InterfaceChange::Create);
            let (j, p) = r->0;
            let n = i.next_interface;
            let f = j.interfaces[n];
            let c = InterfaceCfg::initial(i.defaults);
            &&& r is Some && j.interfaces.contains_key(n) && j.next_interface == n + 1
            &&& f.name == name && !f.active && !f.passive && f.adjacencies.len() == 0
            &&& f.system.ifindex is None && f.system.mtu is None && f.system.mac_addr is None
            &&& f.system.addr_list == Set::<IpNetwork>::empty()
            &&& f.config.level_type.explicit == c.level_type.explicit
            &&& f.config.level_type.resolved == level_type_in_force(c.level_type.explicit, i.config.level_type)
            &&& f.config == (InterfaceCfgView { level_type: f.config.level_type, ..c })
            &&& p == q.insert(Event::InterfaceUpdate(n)).insert(Event::InterfaceUpdateTraceOptions(n)).insert(
                Event::InterfaceIbusSub(n),
            )
        }),
        interface_named(i.interfaces, name) == Some(k) ==> {
            let r = interface_changed(i, q, name, InterfaceChange::Entry(change));
            let s = interface_entry_changed(
                i.interfaces[k].config,
                q,
                i.defaults,
                i.config.level_type,
                k,
                change,
            );
            &&& interface_changed(i, q, name, InterfaceChange::Delete) == Some((i, q.insert(Event::InterfaceDelete(k))))
            &&& r is Some == s is Some
            &&& s is Some ==> (r->0).1 == (s->0).1 && (r->0).0.interfaces[k] == (InterfaceView {
                config: (s->0).0,
                ..i.interfaces[k]
            }) && (r->0).0.interfaces[other] == i.interfaces[other] && (r->0).0.config == i.config
        },
        interface_named(i.interfaces, name) is None ==> interface_changed(i, q, name, InterfaceChange::Delete) is None
            && interface_changed(i, q, name, InterfaceChange::Entry(change)) is None,
{
}

/// Address families come with the defaults of the schema and go as a whole, and LSPs are
/// originated anew. Within one, enabling and redistribution change as configured; one
/// that is not there cannot be changed.
pub proof fn address_families_come_and_go(
    afs: Map<AddressFamily, AddressFamilyCfgView>,
    q: Set<Event>,
    d: Defaults,
    af: AddressFamily,
    enabled: bool,
    key: RedistributionKey,
)
    ensures
        ({
            let both = q.insert(Event::ReoriginateLsps(LevelNumber::L1)).insert(
                Event::ReoriginateLsps(LevelNumber::L2),
            );
            &&& afs_changed(afs, q, d, af, AddressFamilyListChange::Create) == Some(
                (
                    afs.insert(af, AddressFamilyCfgView { enabled: d.af_enabled, redistribution: Map::empty() }),
                    both,
                ),
            )
            &&& afs_changed(afs, q, d, af, AddressFamilyListChange::Delete) == Some((afs.remove(af), both))
            &&& afs.contains_key(af) ==> {
                let c = afs[af];
                &&& afs_changed(
                    afs,
                    q,
                    d,
                    af,
                    AddressFamilyListChange::Entry(AddressFamilyListEntryChange::Enabled(enabled)),
                ) == Some((afs.insert(af, AddressFamilyCfgView { enabled, ..c }), both))
                &&& afs_changed(
                    afs,
                    q,
                    d,
                    af,
                    AddressFamilyListChange::Entry(
                        AddressFamilyListEntryChange::Redistribution(key, ConfigOp::Create),
                    ),
                ) == Some(
                    (
                        afs.insert(
                            af,
                            AddressFamilyCfgView {
                                redistribution: c.redistribution.insert(key, RedistributionCfg {  }),
                                ..c
                            },
                        ),
                        q.insert(Event::RedistributeAdd(af, key.protocol)),
                    ),
                )
                &&& afs_changed(
                    afs,
                    q,
                    d,
                    af,
                    AddressFamilyListChange::Entry(
                        AddressFamilyListEntryChange::Redistribution(key, ConfigOp::Delete),
                    ),
                ) == Some(
                    (
                        afs.insert(
                            af,
                            AddressFamilyCfgView { redistribution: c.redistribution.remove(key), ..c },
                        ),
                        q.insert(Event::RedistributeDelete(af, key.level, key.protocol)),
                    ),
                )
            }
            &&& !afs.contains_key(af) ==> afs_changed(
                afs,
                q,
                d,
                af,
                AddressFamilyListChange::Entry(AddressFamilyListEntryChange::Enabled(enabled)),
            ) is None
        }),
{
}

/// Topologies of the instance come with the defaults of the schema, take what is
/// configured within them, and go as a whole.
pub proof fn topologies_come_and_go(
    mt: Map<MtId, InstanceMtCfg>,
    q: Set<Event>,
    d: Defaults,
    mt_id: MtId,
    enabled: bool,
    n: u32,
    m: Option<u32>,
)
    ensures
        ({
            let all = q.insert(Event::InstanceTopologyUpdate).insert(
                Event::ReoriginateLsps(LevelNumber::L1),
            ).insert(Event::ReoriginateLsps(LevelNumber::L2));
            let c = mt[mt_id];
            &&& topologies_changed(mt, q, d, mt_id, TopologyChange::Create) == Some(
                (
                    mt.insert(
                        mt_id,
                        InstanceMtCfg {
                            enabled: d.mt_enabled,
                            default_metric: LevelsCfgWithDefault { all: d.mt_default_metric, l1: None, l2: None },
                        },
                    ),
                    all,
                ),
            )
            &&& topologies_changed(mt, q, d, mt_id, TopologyChange::Delete) == Some((mt.remove(mt_id), all))
            &&& !mt.contains_key(mt_id) ==> topologies_changed(
                mt,
                q,
                d,
                mt_id,
                TopologyChange::Entry(TopologyEntryChange::Enabled(enabled)),
            ) is None
            &&& mt.contains_key(mt_id) ==> {
                &&& topologies_changed(
                    mt,
                    q,
                    d,
                    mt_id,
                    TopologyChange::Entry(TopologyEntryChange::Enabled(enabled)),
                ) == Some((mt.insert(mt_id, InstanceMtCfg { enabled, ..c }), all))
                &&& (topologies_changed(
                    mt,
                    q,
                    d,
                    mt_id,
                    TopologyChange::Entry(TopologyEntryChange::DefaultMetricValue(n)),
                )->0).0[mt_id] == (InstanceMtCfg {
                    default_metric: LevelsCfgWithDefault { all: n, ..c.default_metric },
                    ..c
                })
                &&& (topologies_changed(
                    mt,
                    q,
                    d,
                    mt_id,
                    TopologyChange::Entry(TopologyEntryChange::DefaultMetricLevel1Value(m)),
                )->0).0[mt_id] == (InstanceMtCfg {
                    default_metric: LevelsCfgWithDefault { l1: m, ..c.default_metric },
                    ..c
                })
                &&& (topologies_changed(
                    mt,
                    q,
                    d,
                    mt_id,
                    TopologyChange::Entry(TopologyEntryChange::DefaultMetricLevel2Value(m)),
                )->0).0[mt_id] == (InstanceMtCfg {
                    default_metric: LevelsCfgWithDefault { l2: m, ..c.default_metric },
                    ..c
                })
            }
        }),
{
}

/// Topologies of an interface come with the defaults of the schema, take what is
/// configured within them, and go as a whole. Hello PDUs and LSPs follow.
pub proof fn interface_topologies_come_and_go(
    mt: Map<MtId, InterfaceMtCfg>,
    q: Set<Event>,
    d: Defaults,
    k: InterfaceIndex,
    mt_id: MtId,
    enabled: bool,
    n: u32,
    m: Option<u32>,
)
    ensures
        ({
            let all = q.insert(Event::InterfaceUpdateHelloInterval(k, LevelNumber::L1)).insert(
                Event::ReoriginateLsps(LevelNumber::L1),
            ).insert(Event::InterfaceUpdateHelloInterval(k, LevelNumber::L2)).insert(
                Event::ReoriginateLsps(LevelNumber::L2),
            );
            let c = mt[mt_id];
            &&& interface_topologies_changed(mt, q, d, k, mt_id, InterfaceTopologyChange::Create) == Some(
                (
                    mt.insert(
                        mt_id,
                        InterfaceMtCfg {
                            enabled: d.iface_mt_enabled,
                            metric: LevelsCfgWithDefault { all: d.iface_mt_metric, l1: None, l2: None },
                        },
                    ),
                    all,
                ),
            )
            &&& interface_topologies_changed(mt, q, d, k, mt_id, InterfaceTopologyChange::Delete) == Some(
                (mt.remove(mt_id), all),
            )
            &&& !mt.contains_key(mt_id) ==> interface_topologies_changed(
                mt,
                q,
                d,
                k,
                mt_id,
                InterfaceTopologyChange::Entry(InterfaceTopologyEntryChange::Enabled(enabled)),
            ) is None
            &&& mt.contains_key(mt_id) ==> {
                &&& interface_topologies_changed(
                    mt,
                    q,
                    d,
                    k,
                    mt_id,
                    InterfaceTopologyChange::Entry(InterfaceTopologyEntryChange::Enabled(enabled)),
                ) == Some((mt.insert(mt_id, InterfaceMtCfg { enabled, ..c }), all))
                &&& (interface_topologies_changed(
                    mt,
                    q,
                    d,
                    k,
                    mt_id,
                    InterfaceTopologyChange::Entry(InterfaceTopologyEntryChange::MetricValue(n)),
                )->0).0[mt_id] == (InterfaceMtCfg { metric: LevelsCfgWithDefault { all: n, ..c.metric }, ..c })
                &&& (interface_topologies_changed(
                    mt,
                    q,
                    d,
                    k,
                    mt_id,
                    InterfaceTopologyChange::Entry(InterfaceTopologyEntryChange::MetricLevel1Value(m)),
                )->0).0[mt_id] == (InterfaceMtCfg { metric: LevelsCfgWithDefault { l1: m, ..c.metric }, ..c })
                &&& (interface_topologies_changed(
                    mt,
                    q,
                    d,
                    k,
                    mt_id,
                    InterfaceTopologyChange::Entry(InterfaceTopologyEntryChange::MetricLevel2Value(m)),
                )->0).0[mt_id] == (InterfaceMtCfg { metric: LevelsCfgWithDefault { l2: m, ..c.metric }, ..c })
            }
        }),
{
}

/// An administrative group is the number that its octets write in base 256, the first
/// octet first, in 32 bits.
pub proof fn octets_write_a_number(s: Seq<u8>, b: u8)
    ensures
        octets_value(Seq::empty()) == 0,
        octets_value(s) < 0x100_0000 ==> octets_value(s.push(b)) == octets_value(s) * 256 + b,
        octets_value(s.push(b)) as int % 256 == b,
{
    assert(s.push(b).drop_last() =~= s);
    let n = octets_value(s);
    assert(((n * 256 + b) % 0x1_0000_0000) % 256 == b) by (nonlinear_arith)
        requires
            0 <= n <= 0xffff_ffff,
            0 <= b < 256,
    ;
}

/// Attributes of an application on an interface start out empty, take what is
/// configured, and go as a whole.
pub proof fn application_attributes_come_and_go(
    asla: Map<StandardApp, InterfaceAslaCfg>,
    app: StandardApp,
    m: Option<u32>,
    group: Vec<u8>,
)
    ensures
        asla_changed(asla, app, InterfaceAslaChange::Create) == Some(
            asla.insert(app, InterfaceAslaCfg { te_metric: None, admin_group: None }),
        ),
        asla_changed(asla, app, InterfaceAslaChange::Delete) == Some(asla.remove(app)),
        asla.contains_key(app) ==> {
            &&& asla_changed(asla, app, InterfaceAslaChange::Entry(InterfaceAslaEntryChange::TeMetric(m))) == Some(
                asla.insert(app, InterfaceAslaCfg { te_metric: m, ..asla[app] }),
            )
            &&& asla_changed(
                asla,
                app,
                InterfaceAslaChange::Entry(InterfaceAslaEntryChange::AdminGroup(Some(group))),
            ) == Some(asla.insert(app, InterfaceAslaCfg { admin_group: Some(octets_value(group@)), ..asla[app] }))
            &&& asla_changed(
                asla,
                app,
                InterfaceAslaChange::Entry(InterfaceAslaEntryChange::AdminGroup(None)),
            ) == Some(asla.insert(app, InterfaceAslaCfg { admin_group: None, ..asla[app] }))
        },
        !asla.contains_key(app) ==> asla_changed(
            asla,
            app,
            InterfaceAslaChange::Entry(InterfaceAslaEntryChange::TeMetric(m)),
        ) is None,
{
}

/// Summaries, SPB services and service instances start out with the defaults of the
/// schema, take what is configured, and go as a whole; what is not there cannot change.
pub proof fn summaries_and_services_come_and_go(
    summaries: Map<IpNetwork, SummaryCfg>,
    prefix: IpNetwork,
    metric: Option<u32>,
    services: Map<SpbServiceKey, SpbServiceCfgView>,
    key: SpbServiceKey,
    isids: Map<u32, SpbIsidCfg>,
    d: Defaults,
    isid: u32,
    on: bool,
)
    ensures
        summaries_changed(summaries, prefix, SummaryPrefixesChange::Create) == Some(
            summaries.insert(prefix, SummaryCfg { metric: None }),
        ),
        summaries_changed(summaries, prefix, SummaryPrefixesChange::Delete) == Some(summaries.remove(prefix)),
        summaries.contains_key(prefix) ==> summaries_changed(
            summaries,
            prefix,
            SummaryPrefixesChange::Metric(metric),
        ) == Some(summaries.insert(prefix, SummaryCfg { metric })),
        !summaries.contains_key(prefix) ==> summaries_changed(
            summaries,
            prefix,
            SummaryPrefixesChange::Metric(metric),
        ) is None,
        services_changed(services, d, key, SpbServiceChange::Create) == Some(
            services.insert(key, SpbServiceCfgView { isids: Map::empty() }),
        ),
        services_changed(services, d, key, SpbServiceChange::Delete) == Some(services.remove(key)),
        services.contains_key(key) ==> services_changed(
            services,
            d,
            key,
            SpbServiceChange::Isid(isid, SpbServiceIsidChange::Create),
        ) == Some(
            services.insert(
                key,
                SpbServiceCfgView {
                    isids: services[key].isids.insert(
                        isid,
                        SpbIsidCfg { transmit: d.isid_transmit, receive: d.isid_receive },
                    ),
                },
            ),
        ),
        !services.contains_key(key) ==> services_changed(
            services,
            d,
            key,
            SpbServiceChange::Isid(isid, SpbServiceIsidChange::Create),
        ) is None,
        isids_changed(isids, d, isid, SpbServiceIsidChange::Delete) == Some(isids.remove(isid)),
        isids.contains_key(isid) ==> {
            &&& isids_changed(
                isids,
                d,
                isid,
                SpbServiceIsidChange::Entry(SpbServiceIsidEntryChange::Transmit(on)),
            ) == Some(isids.insert(isid, SpbIsidCfg { transmit: on, receive: isids[isid].receive }))
            &&& isids_changed(
                isids,
                d,
                isid,
                SpbServiceIsidChange::Entry(SpbServiceIsidEntryChange::Receive(on)),
            ) == Some(isids.insert(isid, SpbIsidCfg { receive: on, transmit: isids[isid].transmit }))
        },
        !isids.contains_key(isid) ==> isids_changed(
            isids,
            d,
            isid,
            SpbServiceIsidChange::Entry(SpbServiceIsidEntryChange::Transmit(on)),
        ) is None,
{
}

/// Node tags and the address families of an interface come and go one by one, and LSPs
/// are originated anew.
pub proof fn members_come_and_go(
    i: InstanceView,
    c: InterfaceCfgView,
    q: Set<Event>,
    d: Defaults,
    t: LevelType,
    k: InterfaceIndex,
    tag: u32,
    af: AddressFamily,
)
    ensures
        ({
            let both = q.insert(Event::ReoriginateLsps(LevelNumber::L1)).insert(
                Event::ReoriginateLsps(LevelNumber::L2),
            );
            &&& becomes(
                i,
                q,
                ConfigChange::NodeTag(tag, ConfigOp::Create),
                InstanceCfgView { node_tags: i.config.node_tags.insert(tag), ..i.config },
                both,
            )
            &&& becomes(
                i,
                q,
                ConfigChange::NodeTag(tag, ConfigOp::Delete),
                InstanceCfgView { node_tags: i.config.node_tags.remove(tag), ..i.config },
                both,
            )
            &&& cfg_becomes(
                c,
                q,
                d,
                t,
                k,
                InterfaceEntryChange::AddressFamilyList(af, ConfigOp::Create),
                InterfaceCfgView { afs: c.afs.insert(af), ..c },
                both,
            )
            &&& cfg_becomes(
                c,
                q,
                d,
                t,
                k,
                InterfaceEntryChange::AddressFamilyList(af, ConfigOp::Delete),
                InterfaceCfgView { afs: c.afs.remove(af), ..c },
                both,
            )
        }),
{
}

// ===== events =====

/// While the instance is up, events about an interface do what they name. Elections and
/// Hello PDUs need an active interface that is not passive, elections a broadcast one.
pub proof fn interface_events_do_what_they_name(i: Instance, k: InterfaceIndex, level: LevelNumber)
    requires
        i.up,
    ensures
        event_actions(i, Event::InterfaceUpdate(k)) == seq![ActionView::InterfaceUpdate(k)],
        event_actions(i, Event::InterfaceReset(k)) == seq![ActionView::InterfaceReset(k)],
        event_actions(i, Event::InterfaceRestartNetwork(k)) == seq![ActionView::NetworkRestart(k)],
        ({
            let f = i@.interfaces[k];
            &&& f.active && !f.passive && f.config.interface_type == InterfaceType::Broadcast ==> event_actions(
                i,
                Event::InterfacePriorityChange(k, level),
            ) == seq![ActionView::DisElection(k, level)]
            &&& !f.active || f.passive || f.config.interface_type == InterfaceType::PointToPoint ==> event_actions(
                i,
                Event::InterfacePriorityChange(k, level),
            ).len() == 0
            &&& f.active && !f.passive ==> event_actions(i, Event::InterfaceUpdateHelloInterval(k, level)) == seq![
                ActionView::HelloIntervalStart(k, level.only()),
            ]
            &&& !f.active || f.passive ==> event_actions(i, Event::InterfaceUpdateHelloInterval(k, level)).len() == 0
            &&& f.config.csnp_disable ==> event_actions(i, Event::InterfaceUpdateCsnpInterval(k)) == seq![
                ActionView::CsnpIntervalStop(k),
            ]
            &&& !f.config.csnp_disable ==> event_actions(i, Event::InterfaceUpdateCsnpInterval(k)) == seq![
                ActionView::CsnpIntervalStart(k),
            ]
            &&& f.config.bfd_enabled ==> event_actions(i, Event::InterfaceBfdChange(k)) == adjacency_actions(
                AdjacencyAction::BfdUpdateSessions,
                k,
                f.adjacencies,
            )
            &&& !f.config.bfd_enabled ==> event_actions(i, Event::InterfaceBfdChange(k)) == adjacency_actions(
                AdjacencyAction::BfdClearSessions,
                k,
                f.adjacencies,
            )
        }),
{
    reveal(interface_actions);
    reveal(instance_actions);
    let none = Seq::<ActionView>::empty();
    assert forall|s: Seq<ActionView>| #[trigger] (s + none) == s by {
        assert(s + none =~= s);
    }
}

/// While the instance is up, events about it do what they name. LSPs are refreshed and
/// routes computed at each of its levels, overload is counted only when it begins.
pub proof fn instance_events_do_what_they_name(i: Instance, level: LevelNumber, system_id: SystemId)
    requires
        i.up,
    ensures
        event_actions(i, Event::ReoriginateLsps(level)) == seq![ActionView::LspOriginate(level.only())],
        event_actions(i, Event::ReinstallRoutes) == seq![ActionView::RoutesReinstall(i@.config.level_type)],
        event_actions(i, Event::OverloadChange(true)) == seq![
            ActionView::OverloadCount,
            ActionView::OverloadNotify(true),
        ],
        event_actions(i, Event::OverloadChange(false)) == seq![ActionView::OverloadNotify(false)],
        i@.config.level_type == LevelType::All && i@.config.system_id == Some(system_id) ==> {
            &&& event_actions(i, Event::RefreshLsps) == seq![
                ActionView::LspRefresh(LevelNumber::L1, system_id),
                ActionView::LspRefresh(LevelNumber::L2, system_id),
            ]
            &&& event_actions(i, Event::RerunSpf) == seq![
                ActionView::SpfConfigChange(LevelNumber::L1),
                ActionView::SpfConfigChange(LevelNumber::L2),
            ]
        },
        i@.config.level_type == LevelType::L1 && i@.config.system_id == Some(system_id) ==> {
            &&& event_actions(i, Event::RefreshLsps) == seq![ActionView::LspRefresh(LevelNumber::L1, system_id)]
            &&& event_actions(i, Event::RerunSpf) == seq![ActionView::SpfConfigChange(LevelNumber::L1)]
        },
        i@.config.level_type == LevelType::L2 && i@.config.system_id == Some(system_id) ==> {
            &&& event_actions(i, Event::RefreshLsps) == seq![ActionView::LspRefresh(LevelNumber::L2, system_id)]
            &&& event_actions(i, Event::RerunSpf) == seq![ActionView::SpfConfigChange(LevelNumber::L2)]
        },
        event_actions(i, Event::InstanceTopologyUpdate) == flat_map(i.interfaces.keys(), hello_fn(i@)),
{
    reveal(interface_actions);
    reveal(instance_actions);
    reveal_with_fuel(flat_map, 3);
    let none = Seq::<ActionView>::empty();
    assert forall|s: Seq<ActionView>| #[trigger] (none + s) == s by {
        assert(none + s =~= s);
    }
    let levels = i@.config.level_type.levels();
    if i@.config.level_type == LevelType::All {
        assert(levels.drop_last() =~= seq![LevelNumber::L1]);
        assert(seq![LevelNumber::L1].drop_last() =~= Seq::<LevelNumber>::empty());
    } else {
        assert(levels.drop_last() =~= Seq::<LevelNumber>::empty());
    }
}

/// Resets, updates and subscriptions are done in any case; the rest waits until the
/// instance is up. A deleted interface is stopped and leaves no nexthops.
pub proof fn events_while_down(i: Instance, k: InterfaceIndex, af: AddressFamily, level: LevelNumber, p: Protocol)
    ensures
        event_actions(i, Event::InstanceReset) == seq![ActionView::InstanceReset],
        event_actions(i, Event::InstanceUpdate) == seq![ActionView::InstanceUpdate],
        event_actions(i, Event::InterfaceIbusSub(k)) == seq![ActionView::InterfaceSub(i@.interfaces[k].name)],
        event_actions(i, Event::RedistributeAdd(af, p)) == seq![ActionView::RedistributeSub(p, af)],
        i.up ==> event_actions(i, Event::RedistributeDelete(af, level, p)) == seq![
            ActionView::RedistributeUnsub(p, af),
            ActionView::LspOriginate(level.only()),
        ],
        !i.up ==> event_actions(i, Event::RedistributeDelete(af, level, p)) == seq![
            ActionView::RedistributeUnsub(p, af),
        ],
        i.up ==> event_actions(i, Event::InterfaceDelete(k)) == seq![
            ActionView::InterfaceUnsub(i@.interfaces[k].name),
            ActionView::InterfaceStop(k),
            ActionView::NexthopsRemove(i@.config.level_type, k),
        ],
        !i.up ==> event_actions(i, Event::InterfaceDelete(k)).len() == 0 && event_actions(
            i,
            Event::InterfaceUpdate(k),
        ).len() == 0 && event_actions(i, Event::ReoriginateLsps(level)).len() == 0,
{
}

/// What is asked of the adjacencies of an interface is asked of each, in order.
pub proof fn each_adjacency_is_asked(what: AdjacencyAction, k: InterfaceIndex, s: Seq<Adjacency>, j: int)
    requires
        0 <= j < s.len(),
    ensures
        adjacency_actions(what, k, s).len() == s.len(),
        adjacency_actions(what, k, s)[j] == ActionView::Adjacency(what, k, s[j].id),
{
}

/// After their events, a deleted interface is gone, and authentication and trace options
/// are in force as they are configured.
pub proof fn events_put_configuration_in_force(i: InstanceView, k: InterfaceIndex, other: InterfaceIndex)
    requires
        i.interfaces.contains_key(k),
        other != k,
    ensures
        !event_done(i, Event::InterfaceDelete(k)).interfaces.contains_key(k),
        event_done(i, Event::InterfaceDelete(k)).interfaces[other] == i.interfaces[other],
        event_done(i, Event::InstanceUpdateAuth).config.auth_resolved == i.config.auth.all.auth(i.keychains),
        event_done(i, Event::InterfaceUpdateAuth(k)).interfaces[k].config == (InterfaceCfgView {
            hello_auth_resolved: i.interfaces[k].config.hello_auth.all.auth(i.keychains),
            ..i.interfaces[k].config
        }),
        event_done(i, Event::InterfaceUpdateTraceOptions(k)).interfaces[k].config.trace_opts.packets_resolved
            == packets_in_force(i.interfaces[k].config.trace_opts.packets, i.config.trace_opts.packets),
        event_done(i, Event::UpdateTraceOptions).interfaces[k].config.trace_opts.packets_resolved == packets_in_force(
            i.interfaces[k].config.trace_opts.packets,
            i.config.trace_opts.packets,
        ),
        event_done(i, Event::UpdateTraceOptions).interfaces[k].config.trace_opts.packets
            == i.interfaces[k].config.trace_opts.packets,
        event_done(i, Event::InstanceUpdate) == i,
        event_done(i, Event::RerunSpf) == i,
{
}

/// LSPs to refresh are those of the system itself that have not expired.
pub proof fn own_live_lsps_are_refreshed(lsp: LspInfo, system_id: SystemId)
    ensures
        lsp.system_id == system_id && lsp.rem_lifetime > 0 ==> own_lsp_fn(system_id)(lsp) == Some(lsp.id),
        lsp.system_id != system_id || lsp.rem_lifetime == 0 ==> own_lsp_fn(system_id)(lsp) is None,
{
}

// ===== the rest of the system =====

/// LSPs are originated only while the instance is up.
pub proof fn lsps_need_an_instance_that_is_up(t: LevelType, level: LevelNumber)
    ensures
        originate(true, t) == seq![ActionView::LspOriginate(t)],
        originate(false, t).len() == 0,
        level_actions(true, true, level) == seq![ActionView::LspOriginate(level.only())],
        level_actions(false, true, level).len() == 0,
        level_actions(true, false, level).len() == 0,
{
}

/// What the system says of an interface is taken over; its addresses and its
/// configuration stay. It is updated, and with padding a new MTU renews its Hello PDUs.
pub proof fn interface_updates_are_taken_over(f: InterfaceView, k: InterfaceIndex, msg: InterfaceUpdateMsg)
    ensures
        ({
            let g = iface_updated(f, msg);
            &&& g.system.flags == msg.flags && g.system.ifindex == Some(msg.ifindex)
            &&& g.system.mtu == Some(msg.mtu) && g.system.mac_addr == Some(msg.mac_address)
            &&& g.system.msd == msg.msd@ && g.system.addr_list == f.system.addr_list
            &&& g.name == f.name && g.config == f.config && g.active == f.active && g.passive == f.passive
            &&& g.adjacencies == f.adjacencies
        }),
        f.config.hello_padding && f.system.mtu != Some(msg.mtu) && f.active && !f.passive ==> iface_update_actions(
            f,
            k,
            msg,
        ) == seq![ActionView::HelloIntervalStart(k, LevelType::All), ActionView::InterfaceUpdate(k)],
        !f.config.hello_padding || f.system.mtu == Some(msg.mtu) || !f.active || f.passive ==> iface_update_actions(
            f,
            k,
            msg,
        ) == seq![ActionView::InterfaceUpdate(k)],
{
}

/// Addresses of an active interface renew its LSPs, and its Hello PDUs unless it is
/// passive. Nothing but the addresses changes.
pub proof fn addresses_are_advertised(i: InstanceView, k: InterfaceIndex, addrs: Set<IpNetwork>, other: InterfaceIndex)
    requires
        other != k,
    ensures
        i.up && i.interfaces[k].active && !i.interfaces[k].passive ==> addr_actions(i, k) == seq![
            ActionView::HelloIntervalStart(k, LevelType::All),
            ActionView::LspOriginate(LevelType::All),
        ],
        i.up && i.interfaces[k].active && i.interfaces[k].passive ==> addr_actions(i, k) == seq![
            ActionView::LspOriginate(LevelType::All),
        ],
        !i.up || !i.interfaces[k].active ==> addr_actions(i, k).len() == 0,
        with_addrs(i, k, addrs).interfaces[k].system.addr_list == addrs,
        with_addrs(i, k, addrs).interfaces[k].config == i.interfaces[k].config,
        with_addrs(i, k, addrs).interfaces[other] == i.interfaces[other],
        with_addrs(i, k, addrs).config == i.config,
{
}

/// Routes are redistributed into a level that the instance has, if that is configured for
/// their address family and protocol at that level.
pub proof fn redistribution_follows_its_configuration(
    c: InstanceCfgView,
    prefix: IpNetwork,
    protocol: Protocol,
    level: LevelNumber,
    af: AddressFamily,
)
    requires
        af == if prefix.addr is V4 {
            AddressFamily::Ipv4
        } else {
            AddressFamily::Ipv6
        },
    ensures
        c.level_type.has(level) && c.afs.contains_key(af) && c.afs[af].redistribution.contains_key(
            RedistributionKey { level, protocol },
        ) ==> redistributes(c, prefix, protocol, level),
        !c.level_type.has(level) ==> !redistributes(c, prefix, protocol, level),
        !c.afs.contains_key(af) ==> !redistributes(c, prefix, protocol, level),
        !c.afs[af].redistribution.contains_key(RedistributionKey { level, protocol }) ==> !redistributes(
            c,
            prefix,
            protocol,
            level,
        ),
{
}

/// A redistributed route is kept with what was said of it, at its level only. A route
/// that is not redistributed is not kept, and one that is deleted goes if it is the one
/// of that protocol.
pub proof fn redistributed_routes_are_kept(i: InstanceView, msg: RouteMsg, del: RouteKeyMsg)
    ensures
        redistributes(i.config, msg.prefix, msg.protocol, LevelNumber::L1) ==> {
            let j = route_added(i, msg, LevelNumber::L1);
            let r = j.system.routes_l1[msg.prefix];
            &&& j.system.routes_l1.contains_key(msg.prefix)
            &&& r.protocol == msg.protocol && r.metric == msg.metric && r.tag == msg.tag
            &&& r.opaque_attrs == msg.opaque_attrs
            &&& j.system.routes_l2 == i.system.routes_l2 && j.config == i.config && j.interfaces == i.interfaces
        },
        redistributes(i.config, msg.prefix, msg.protocol, LevelNumber::L2) ==> {
            let j = route_added(i, msg, LevelNumber::L2);
            let r = j.system.routes_l2[msg.prefix];
            &&& j.system.routes_l2.contains_key(msg.prefix)
            &&& r.protocol == msg.protocol && r.metric == msg.metric && r.tag == msg.tag
            &&& r.opaque_attrs == msg.opaque_attrs
            &&& j.system.routes_l1 == i.system.routes_l1
        },
        !redistributes(i.config, msg.prefix, msg.protocol, LevelNumber::L1) ==> route_added(i, msg, LevelNumber::L1)
            == i,
        !redistributes(i.config, msg.prefix, msg.protocol, LevelNumber::L2) ==> route_added(i, msg, LevelNumber::L2)
            == i,
        redistributes(i.config, del.prefix, del.protocol, LevelNumber::L1) && i.system.routes_l1.contains_key(
            del.prefix,
        ) && i.system.routes_l1[del.prefix].protocol == del.protocol ==> {
            let j = route_deleted(i, del, LevelNumber::L1);
            !j.system.routes_l1.contains_key(del.prefix) && j.system.routes_l2 == i.system.routes_l2
        },
        redistributes(i.config, del.prefix, del.protocol, LevelNumber::L2) && i.system.routes_l2.contains_key(
            del.prefix,
        ) && i.system.routes_l2[del.prefix].protocol == del.protocol ==> {
            let j = route_deleted(i, del, LevelNumber::L2);
            !j.system.routes_l2.contains_key(del.prefix) && j.system.routes_l1 == i.system.routes_l1
        },
{
}

/// A single-hop BFD session that goes down concerns the interface of its name, while the
/// instance is up. No other session or state does.
pub proof fn bfd_sessions_concern_their_interface(
    i: InstanceView,
    ifname: Seq<char>,
    src: crate::ip::IpAddr,
    dst: crate::ip::IpAddr,
)
    ensures
        i.up ==> bfd_interface(i, SessionKeyView::IpSingleHop { ifname, dst }, State::Down) == interface_named(
            i.interfaces,
            ifname,
        ),
        !i.up ==> bfd_interface(i, SessionKeyView::IpSingleHop { ifname, dst }, State::Down) is None,
        bfd_interface(i, SessionKeyView::IpSingleHop { ifname, dst }, State::Up) is None,
        bfd_interface(i, SessionKeyView::IpSingleHop { ifname, dst }, State::Init) is None,
        bfd_interface(i, SessionKeyView::IpSingleHop { ifname, dst }, State::AdminDown) is None,
        bfd_interface(i, SessionKeyView::IpMultihop { src, dst }, State::Down) is None,
{
}

/// Each adjacency with that session is told that it went down, in order, and no other.
pub proof fn adjacencies_hear_of_their_session(
    k: InterfaceIndex,
    s: Seq<Adjacency>,
    a: Adjacency,
    key: SessionKeyView,
    j: int,
)
    ensures
        bfd_actions(k, Seq::empty(), key).len() == 0,
        0 <= j < a.bfd@.len() && (a.bfd@[j] matches Some(x) && x.sess_key@ == key) ==> bfd_actions(k, s.push(a), key)
            == bfd_actions(k, s, key).push(ActionView::Adjacency(AdjacencyAction::BfdDown, k, a.id)),
        (forall|x: int| 0 <= x < a.bfd@.len() ==> !crate::isis::rx::is_session(#[trigger] a.bfd@[x], key))
            ==> bfd_actions(k, s.push(a), key) == bfd_actions(k, s, key),
{
    assert(s.push(a).drop_last() =~= s);
    if 0 <= j < a.bfd@.len() && (a.bfd@[j] matches Some(x) && x.sess_key@ == key) {
        assert(crate::isis::rx::is_session(a.bfd@[j], key));
    }
}

/// An interface that uses a keychain gets its authentication anew when that changes; no
/// other interface does.
pub proof fn keychain_changes_reach_their_users(
    f: InterfaceView,
    keychains: Map<Seq<char>, Arc<Keychain>>,
    name: Seq<char>,
)
    ensures
        f.config.hello_auth.all.keychain == Some(name) ==> keychain_in_force(
            f,
            keychains,
            name,
        ).config.hello_auth_resolved == f.config.hello_auth.all.auth(keychains),
        f.config.hello_auth.all.keychain != Some(name) ==> keychain_in_force(f, keychains, name) == f,
        keychain_in_force(f, keychains, name).system == f.system,
{
}

/// When a session goes down, the first of an adjacency with that key is down, and all others
/// stay as they are.
pub proof fn sessions_go_down_by_key(a: Adjacency, b: Adjacency, key: SessionKeyView, j: int)
    requires
        session_down(a, b, key),
        0 <= j < a.bfd@.len(),
    ensures
        b.id == a.id && b.bfd@.len() == a.bfd@.len(),
        a.bfd@[j] is None ==> b.bfd@[j] is None,
        (a.bfd@[j] matches Some(s) && s.sess_key@ != key) ==> b.bfd@[j] == a.bfd@[j],
        (a.bfd@[j] matches Some(s) && s.sess_key@ == key) && (forall|x: int|
            0 <= x < j ==> (#[trigger] a.bfd@[x]) is None || (a.bfd@[x]->0).sess_key@ != key) ==> {
            &&& b.bfd@[j] is Some
            &&& (b.bfd@[j]->0).sess_key@ == key
            &&& (b.bfd@[j]->0).state == Some(State::Down)
        },
{
}

/// Adjacency SIDs are added or removed for every adjacency of each interface, and Hello PDUs
/// start anew on each active interface that is not passive.
pub proof fn interfaces_are_acted_on(i: Instance, k: InterfaceIndex)
    requires
        i.up,
    ensures
        event_actions(i, Event::SrEnabledChange(true)) == flat_map(
            i.interfaces.keys(),
            adj_sids_fn(i@, AdjacencyAction::AdjSidsAdd),
        ),
        event_actions(i, Event::SrEnabledChange(false)) == flat_map(
            i.interfaces.keys(),
            adj_sids_fn(i@, AdjacencyAction::AdjSidsDel),
        ),
        adj_sids_fn(i@, AdjacencyAction::AdjSidsAdd)(k) == adjacency_actions(
            AdjacencyAction::AdjSidsAdd,
            k,
            i@.interfaces[k].adjacencies,
        ),
        adj_sids_fn(i@, AdjacencyAction::AdjSidsDel)(k) == adjacency_actions(
            AdjacencyAction::AdjSidsDel,
            k,
            i@.interfaces[k].adjacencies,
        ),
        i@.interfaces[k].active && !i@.interfaces[k].passive ==> hello_fn(i@)(k) == seq![
            ActionView::HelloIntervalStart(k, LevelType::All),
        ],
        !i@.interfaces[k].active || i@.interfaces[k].passive ==> hello_fn(i@)(k).len() == 0,
{
    reveal(interface_actions);
    reveal(instance_actions);
    let none = Seq::<ActionView>::empty();
    assert forall|s: Seq<ActionView>| #[trigger] (none + s) == s by {
        assert(none + s =~= s);
    }
}

/// A new level type of the instance comes into force on every interface. The end of
/// redistribution takes the routes from that protocol and family out of their level, and no
/// others.
pub proof fn levels_and_routes_follow_their_events(
    i: InstanceView,
    k: InterfaceIndex,
    af: AddressFamily,
    p: Protocol,
    net: IpNetwork,
    explicit: LevelType,
)
    requires
        i.interfaces.contains_key(k),
    ensures
        ({
            let t = event_done(i, Event::InstanceLevelTypeUpdate).interfaces[k].config.level_type;
            let old = i.interfaces[k].config.level_type;
            &&& t.explicit == old.explicit
            &&& i.config.level_type == LevelType::L1 ==> t.resolved == LevelType::L1
            &&& i.config.level_type == LevelType::L2 ==> t.resolved == LevelType::L2
            &&& i.config.level_type == LevelType::All && old.explicit == Some(explicit) ==> t.resolved == explicit
        }),
        ({
            let s = event_done(i, Event::RedistributeDelete(af, LevelNumber::L1, p)).system;
            let old = i.system.routes_l1;
            &&& s.routes_l2 == i.system.routes_l2
            &&& s.routes_l1.contains_key(net) == (old.contains_key(net) && (net.addr.family() != af
                || old[net].protocol != p))
            &&& s.routes_l1.contains_key(net) ==> s.routes_l1[net] == old[net]
        }),
        ({
            let s = event_done(i, Event::RedistributeDelete(af, LevelNumber::L2, p)).system;
            let old = i.system.routes_l2;
            &&& s.routes_l1 == i.system.routes_l1
            &&& s.routes_l2.contains_key(net) == (old.contains_key(net) && (net.addr.family() != af
                || old[net].protocol != p))
            &&& s.routes_l2.contains_key(net) ==> s.routes_l2[net] == old[net]
        }),
{
}

} // verus!
