//! What the configuration of BGP promises: how it is taken over, and what is done about
//! its changes.

use vstd::prelude::*;

use crate::bgp::configuration::{
    afi_safi_entry_changed, event_actions, event_handled, instance_changed, listening_on,
    neighbor_afi_safi_entry_changed, neighbor_entry_changed, neighbor_trace_options_changed, opt_flag_changed,
    packets_changed, packets_in_force, trace_options_changed, ActionView, ApplyPolicyCfg, ApplyPolicyCfgView,
    AsPathOptions, CeaseSubcode, ConfigChange, Defaults, Event, FsmEvent, GlobalAfiSafiChange,
    GlobalAfiSafiEntryChange, InstanceAfiSafiCfg, InstanceAfiSafiCfgView, InstanceCfg, InstanceCfgView,
    InstanceState, InstanceTraceOption, InstanceTraceOptions, InstanceView, MessageType, NeighborAfiSafiCfg,
    NeighborAfiSafiCfgView, NeighborAfiSafiChange, NeighborAfiSafiEntryChange, NeighborCfg, NeighborCfgView,
    NeighborChange, NeighborEntryChange, NeighborTimersCfg, NeighborTraceOption, NeighborTraceOptions,
    NeighborTransportCfg, NeighborTransportCfgView, NeighborView, NotificationMsg, PrefixLimitCfg, PrivateAsRemove,
    RedistributionCfg, TraceOptionPacket, TraceOptionPacketResolved, TraceOptionPacketType,
};
use crate::bgp::neighbor::{Session, State};
use crate::bgp::policy::DefaultPolicyType;
use crate::bgp::rib::{Destination, RouteOrigin};
use crate::bgp::types::{AfiSafi, DistanceCfg, MultipathCfg, PeerIndex, PeerType, RouteSelectionCfg};
use crate::ip::{AddressFamily, IpAddr, IpNetwork, Ipv4Addr};
use crate::northbound::configuration::{member, ConfigOp};
use crate::northbound::trace::{flag_changed, slot_changed, slot_notes, TraceFlagChange, TraceFlagEntryChange};
use crate::protocol::Protocol;
use crate::text::opt_text;

verus! {

// ===== leaves =====

/// Whether a change is applied so that the instance has that configuration, just these
/// events are queued, and nothing else of the instance changes.
pub open spec fn becomes(
    i: InstanceView,
    q: Set<Event>,
    change: ConfigChange,
    c: InstanceCfgView,
    events: Set<Event>,
) -> bool {
    instance_changed(i, q, change) == Some((InstanceView { config: c, ..i }, events))
}

/// Whether a change within an address family of the instance is applied so that it has
/// that configuration and just these events are queued.
pub open spec fn family_becomes(
    c: InstanceAfiSafiCfgView,
    q: Set<Event>,
    change: GlobalAfiSafiEntryChange,
    after: InstanceAfiSafiCfgView,
    events: Set<Event>,
) -> bool {
    afi_safi_entry_changed(c, q, change) == (after, events)
}

/// Whether a change within an address family of a neighbor is applied so that it has that
/// configuration.
pub open spec fn neighbor_family_becomes(
    c: NeighborAfiSafiCfgView,
    change: NeighborAfiSafiEntryChange,
    after: NeighborAfiSafiCfgView,
) -> bool {
    neighbor_afi_safi_entry_changed(c, change) == after
}

/// Whether a change within a neighbor is applied so that it has that configuration, just
/// these events are queued, and nothing else of the neighbor changes.
pub open spec fn neighbor_becomes(
    n: NeighborView,
    q: Set<Event>,
    d: Defaults,
    asn: u32,
    change: NeighborEntryChange,
    c: NeighborCfgView,
    events: Set<Event>,
) -> bool {
    neighbor_entry_changed(n, q, d, asn, change) == Some((NeighborView { config: c, ..n }, events))
}

/// Each leaf of the instance takes the configured value, and no other one changes. The
/// instance is updated where it needs the value to be up.
#[verifier::spinoff_prover]
#[verifier::rlimit(40)]
pub proof fn instance_leaves_are_taken_as_configured(
    i: InstanceView,
    q: Set<Event>,
    any_configop: ConfigOp,
    asn: u32,
    identifier: Option<Ipv4Addr>,
    distance: u8,
    enabled: bool,
    allow: bool,
    max: u32,
    compare: bool,
    ignore: bool,
    enable: bool,
    op: ConfigOp,
    policy: String,
    default: DefaultPolicyType,
    reject: bool,
)
    ensures
        becomes(i, q, ConfigChange::Global(any_configop), i.config, q),
        becomes(
            i,
            q,
            ConfigChange::GlobalAs(asn),
            InstanceCfgView { asn, ..i.config },
            q.insert(Event::InstanceUpdate),
        ),
        becomes(
            i,
            q,
            ConfigChange::GlobalIdentifier(identifier),
            InstanceCfgView { identifier, ..i.config },
            q.insert(Event::InstanceUpdate),
        ),
        becomes(
            i,
            q,
            ConfigChange::GlobalDistanceExternal(distance),
            InstanceCfgView { distance: DistanceCfg { external: distance, ..i.config.distance }, ..i.config },
            q,
        ),
        becomes(
            i,
            q,
            ConfigChange::GlobalDistanceInternal(distance),
            InstanceCfgView { distance: DistanceCfg { internal: distance, ..i.config.distance }, ..i.config },
            q,
        ),
        becomes(
            i,
            q,
            ConfigChange::GlobalUseMultiplePathsEnabled(enabled),
            InstanceCfgView { multipath: MultipathCfg { enabled, ..i.config.multipath }, ..i.config },
            q,
        ),
        becomes(
            i,
            q,
            ConfigChange::GlobalUseMultiplePathsEbgpAllowMultipleAs(allow),
            InstanceCfgView {
                multipath: MultipathCfg { ebgp_allow_multiple_as: allow, ..i.config.multipath },
                ..i.config
            },
            q,
        ),
        becomes(
            i,
            q,
            ConfigChange::GlobalUseMultiplePathsEbgpMaximumPaths(max),
            InstanceCfgView {
                multipath: MultipathCfg { ebgp_max_paths: max, ..i.config.multipath },
                ..i.config
            },
            q,
        ),
        becomes(
            i,
            q,
            ConfigChange::GlobalUseMultiplePathsIbgpMaximumPaths(max),
            InstanceCfgView {
                multipath: MultipathCfg { ibgp_max_paths: max, ..i.config.multipath },
                ..i.config
            },
            q,
        ),
        becomes(
            i,
            q,
            ConfigChange::GlobalRouteSelectionOptionsAlwaysCompareMed(compare),
            InstanceCfgView {
                route_selection: RouteSelectionCfg { always_compare_med: compare, ..i.config.route_selection },
                ..i.config
            },
            q,
        ),
        becomes(
            i,
            q,
            ConfigChange::GlobalRouteSelectionOptionsIgnoreAsPathLength(ignore),
            InstanceCfgView {
                route_selection: RouteSelectionCfg {
                    ignore_as_path_length: ignore,
                    ..i.config.route_selection
                },
                ..i.config
            },
            q,
        ),
        becomes(
            i,
            q,
            ConfigChange::GlobalRouteSelectionOptionsExternalCompareRouterId(compare),
            InstanceCfgView {
                route_selection: RouteSelectionCfg {
                    external_compare_router_id: compare,
                    ..i.config.route_selection
                },
                ..i.config
            },
            q,
        ),
        becomes(
            i,
            q,
            ConfigChange::GlobalRouteSelectionOptionsIgnoreNextHopIgpMetric(ignore),
            InstanceCfgView {
                route_selection: RouteSelectionCfg {
                    ignore_next_hop_igp_metric: ignore,
                    ..i.config.route_selection
                },
                ..i.config
            },
            q,
        ),
        becomes(
            i,
            q,
            ConfigChange::GlobalRouteSelectionOptionsEnableMed(enable),
            InstanceCfgView {
                route_selection: RouteSelectionCfg { enable_med: enable, ..i.config.route_selection },
                ..i.config
            },
            q,
        ),
        becomes(
            i,
            q,
            ConfigChange::GlobalApplyPolicyImportPolicy(op, policy),
            InstanceCfgView {
                apply_policy: ApplyPolicyCfgView {
                    import_policy: member(i.config.apply_policy.import_policy, op, policy@),
                    ..i.config.apply_policy
                },
                ..i.config
            },
            q,
        ),
        becomes(
            i,
            q,
            ConfigChange::GlobalApplyPolicyDefaultImportPolicy(default),
            InstanceCfgView {
                apply_policy: ApplyPolicyCfgView { default_import_policy: default, ..i.config.apply_policy },
                ..i.config
            },
            q,
        ),
        becomes(
            i,
            q,
            ConfigChange::GlobalApplyPolicyExportPolicy(op, policy),
            InstanceCfgView {
                apply_policy: ApplyPolicyCfgView {
                    export_policy: member(i.config.apply_policy.export_policy, op, policy@),
                    ..i.config.apply_policy
                },
                ..i.config
            },
            q,
        ),
        becomes(
            i,
            q,
            ConfigChange::GlobalApplyPolicyDefaultExportPolicy(default),
            InstanceCfgView {
                apply_policy: ApplyPolicyCfgView { default_export_policy: default, ..i.config.apply_policy },
                ..i.config
            },
            q,
        ),
        becomes(
            i,
            q,
            ConfigChange::GlobalRejectAsSets(reject),
            InstanceCfgView { reject_as_sets: reject, ..i.config },
            q,
        ),
{
}

/// Each leaf of an address family of the instance takes the configured value, and no other
/// one changes.
#[verifier::spinoff_prover]
#[verifier::rlimit(40)]
pub proof fn family_leaves_are_taken_as_configured(
    c: InstanceAfiSafiCfgView,
    q: Set<Event>,
    enabled: bool,
    compare: bool,
    ignore: bool,
    enable: bool,
    allow: bool,
    max: u32,
    op: ConfigOp,
    policy: String,
    default: DefaultPolicyType,
    max_opt: Option<u32>,
    threshold: Option<u8>,
    teardown: bool,
    idle_time: Option<u32>,
    send: bool,
)
    ensures
        family_becomes(
            c,
            q,
            GlobalAfiSafiEntryChange::Enabled(enabled),
            InstanceAfiSafiCfgView { enabled, ..c },
            q,
        ),
        family_becomes(
            c,
            q,
            GlobalAfiSafiEntryChange::RouteSelectionOptionsAlwaysCompareMed(compare),
            InstanceAfiSafiCfgView {
                route_selection: RouteSelectionCfg { always_compare_med: compare, ..c.route_selection },
                ..c
            },
            q,
        ),
        family_becomes(
            c,
            q,
            GlobalAfiSafiEntryChange::RouteSelectionOptionsIgnoreAsPathLength(ignore),
            InstanceAfiSafiCfgView {
                route_selection: RouteSelectionCfg { ignore_as_path_length: ignore, ..c.route_selection },
                ..c
            },
            q,
        ),
        family_becomes(
            c,
            q,
            GlobalAfiSafiEntryChange::RouteSelectionOptionsExternalCompareRouterId(compare),
            InstanceAfiSafiCfgView {
                route_selection: RouteSelectionCfg { external_compare_router_id: compare, ..c.route_selection },
                ..c
            },
            q,
        ),
        family_becomes(
            c,
            q,
            GlobalAfiSafiEntryChange::RouteSelectionOptionsIgnoreNextHopIgpMetric(ignore),
            InstanceAfiSafiCfgView {
                route_selection: RouteSelectionCfg { ignore_next_hop_igp_metric: ignore, ..c.route_selection },
                ..c
            },
            q,
        ),
        family_becomes(
            c,
            q,
            GlobalAfiSafiEntryChange::RouteSelectionOptionsEnableMed(enable),
            InstanceAfiSafiCfgView {
                route_selection: RouteSelectionCfg { enable_med: enable, ..c.route_selection },
                ..c
            },
            q,
        ),
        family_becomes(
            c,
            q,
            GlobalAfiSafiEntryChange::UseMultiplePathsEnabled(enabled),
            InstanceAfiSafiCfgView { multipath: MultipathCfg { enabled, ..c.multipath }, ..c },
            q,
        ),
        family_becomes(
            c,
            q,
            GlobalAfiSafiEntryChange::UseMultiplePathsEbgpAllowMultipleAs(allow),
            InstanceAfiSafiCfgView {
                multipath: MultipathCfg { ebgp_allow_multiple_as: allow, ..c.multipath },
                ..c
            },
            q,
        ),
        family_becomes(
            c,
            q,
            GlobalAfiSafiEntryChange::UseMultiplePathsEbgpMaximumPaths(max),
            InstanceAfiSafiCfgView { multipath: MultipathCfg { ebgp_max_paths: max, ..c.multipath }, ..c },
            q,
        ),
        family_becomes(
            c,
            q,
            GlobalAfiSafiEntryChange::UseMultiplePathsIbgpMaximumPaths(max),
            InstanceAfiSafiCfgView { multipath: MultipathCfg { ibgp_max_paths: max, ..c.multipath }, ..c },
            q,
        ),
        family_becomes(
            c,
            q,
            GlobalAfiSafiEntryChange::ApplyPolicyImportPolicy(op, policy),
            InstanceAfiSafiCfgView {
                apply_policy: ApplyPolicyCfgView {
                    import_policy: member(c.apply_policy.import_policy, op, policy@),
                    ..c.apply_policy
                },
                ..c
            },
            q,
        ),
        family_becomes(
            c,
            q,
            GlobalAfiSafiEntryChange::ApplyPolicyDefaultImportPolicy(default),
            InstanceAfiSafiCfgView {
                apply_policy: ApplyPolicyCfgView { default_import_policy: default, ..c.apply_policy },
                ..c
            },
            q,
        ),
        family_becomes(
            c,
            q,
            GlobalAfiSafiEntryChange::ApplyPolicyExportPolicy(op, policy),
            InstanceAfiSafiCfgView {
                apply_policy: ApplyPolicyCfgView {
                    export_policy: member(c.apply_policy.export_policy, op, policy@),
                    ..c.apply_policy
                },
                ..c
            },
            q,
        ),
        family_becomes(
            c,
            q,
            GlobalAfiSafiEntryChange::ApplyPolicyDefaultExportPolicy(default),
            InstanceAfiSafiCfgView {
                apply_policy: ApplyPolicyCfgView { default_export_policy: default, ..c.apply_policy },
                ..c
            },
            q,
        ),
        family_becomes(
            c,
            q,
            GlobalAfiSafiEntryChange::Ipv4UnicastPrefixLimitMaxPrefixes(max_opt),
            InstanceAfiSafiCfgView {
                prefix_limit: PrefixLimitCfg { max_prefixes: max_opt, ..c.prefix_limit },
                ..c
            },
            q,
        ),
        family_becomes(
            c,
            q,
            GlobalAfiSafiEntryChange::Ipv6UnicastPrefixLimitMaxPrefixes(max_opt),
            InstanceAfiSafiCfgView {
                prefix_limit: PrefixLimitCfg { max_prefixes: max_opt, ..c.prefix_limit },
                ..c
            },
            q,
        ),
        family_becomes(
            c,
            q,
            GlobalAfiSafiEntryChange::Ipv4UnicastPrefixLimitWarningThresholdPct(threshold),
            InstanceAfiSafiCfgView {
                prefix_limit: PrefixLimitCfg { warning_threshold_pct: threshold, ..c.prefix_limit },
                ..c
            },
            q,
        ),
        family_becomes(
            c,
            q,
            GlobalAfiSafiEntryChange::Ipv6UnicastPrefixLimitWarningThresholdPct(threshold),
            InstanceAfiSafiCfgView {
                prefix_limit: PrefixLimitCfg { warning_threshold_pct: threshold, ..c.prefix_limit },
                ..c
            },
            q,
        ),
        family_becomes(
            c,
            q,
            GlobalAfiSafiEntryChange::Ipv4UnicastPrefixLimitTeardown(teardown),
            InstanceAfiSafiCfgView { prefix_limit: PrefixLimitCfg { teardown, ..c.prefix_limit }, ..c },
            q,
        ),
        family_becomes(
            c,
            q,
            GlobalAfiSafiEntryChange::Ipv6UnicastPrefixLimitTeardown(teardown),
            InstanceAfiSafiCfgView { prefix_limit: PrefixLimitCfg { teardown, ..c.prefix_limit }, ..c },
            q,
        ),
        family_becomes(
            c,
            q,
            GlobalAfiSafiEntryChange::Ipv4UnicastPrefixLimitIdleTime(idle_time),
            InstanceAfiSafiCfgView { prefix_limit: PrefixLimitCfg { idle_time, ..c.prefix_limit }, ..c },
            q,
        ),
        family_becomes(
            c,
            q,
            GlobalAfiSafiEntryChange::Ipv6UnicastPrefixLimitIdleTime(idle_time),
            InstanceAfiSafiCfgView { prefix_limit: PrefixLimitCfg { idle_time, ..c.prefix_limit }, ..c },
            q,
        ),
        family_becomes(
            c,
            q,
            GlobalAfiSafiEntryChange::Ipv4UnicastSendDefaultRoute(send),
            InstanceAfiSafiCfgView { send_default_route: send, ..c },
            q,
        ),
        family_becomes(
            c,
            q,
            GlobalAfiSafiEntryChange::Ipv6UnicastSendDefaultRoute(send),
            InstanceAfiSafiCfgView { send_default_route: send, ..c },
            q,
        ),
{
}

/// Each leaf of an address family of a neighbor takes the configured value, and no other
/// one changes.
#[verifier::spinoff_prover]
#[verifier::rlimit(40)]
pub proof fn neighbor_family_leaves_are_taken_as_configured(
    c: NeighborAfiSafiCfgView,
    enabled: bool,
    op: ConfigOp,
    policy: String,
    default: DefaultPolicyType,
    max: Option<u32>,
    threshold: Option<u8>,
    teardown: bool,
    idle_time: Option<u32>,
    send: bool,
)
    ensures
        neighbor_family_becomes(
            c,
            NeighborAfiSafiEntryChange::Enabled(enabled),
            NeighborAfiSafiCfgView { enabled, ..c },
        ),
        neighbor_family_becomes(
            c,
            NeighborAfiSafiEntryChange::ApplyPolicyImportPolicy(op, policy),
            NeighborAfiSafiCfgView {
                apply_policy: ApplyPolicyCfgView {
                    import_policy: member(c.apply_policy.import_policy, op, policy@),
                    ..c.apply_policy
                },
                ..c
            },
        ),
        neighbor_family_becomes(
            c,
            NeighborAfiSafiEntryChange::ApplyPolicyDefaultImportPolicy(default),
            NeighborAfiSafiCfgView {
                apply_policy: ApplyPolicyCfgView { default_import_policy: default, ..c.apply_policy },
                ..c
            },
        ),
        neighbor_family_becomes(
            c,
            NeighborAfiSafiEntryChange::ApplyPolicyExportPolicy(op, policy),
            NeighborAfiSafiCfgView {
                apply_policy: ApplyPolicyCfgView {
                    export_policy: member(c.apply_policy.export_policy, op, policy@),
                    ..c.apply_policy
                },
                ..c
            },
        ),
        neighbor_family_becomes(
            c,
            NeighborAfiSafiEntryChange::ApplyPolicyDefaultExportPolicy(default),
            NeighborAfiSafiCfgView {
                apply_policy: ApplyPolicyCfgView { default_export_policy: default, ..c.apply_policy },
                ..c
            },
        ),
        neighbor_family_becomes(
            c,
            NeighborAfiSafiEntryChange::Ipv4UnicastPrefixLimitMaxPrefixes(max),
            NeighborAfiSafiCfgView {
                prefix_limit: PrefixLimitCfg { max_prefixes: max, ..c.prefix_limit },
                ..c
            },
        ),
        neighbor_family_becomes(
            c,
            NeighborAfiSafiEntryChange::Ipv6UnicastPrefixLimitMaxPrefixes(max),
            NeighborAfiSafiCfgView {
                prefix_limit: PrefixLimitCfg { max_prefixes: max, ..c.prefix_limit },
                ..c
            },
        ),
        neighbor_family_becomes(
            c,
            NeighborAfiSafiEntryChange::Ipv4UnicastPrefixLimitWarningThresholdPct(threshold),
            NeighborAfiSafiCfgView {
                prefix_limit: PrefixLimitCfg { warning_threshold_pct: threshold, ..c.prefix_limit },
                ..c
            },
        ),
        neighbor_family_becomes(
            c,
            NeighborAfiSafiEntryChange::Ipv6UnicastPrefixLimitWarningThresholdPct(threshold),
            NeighborAfiSafiCfgView {
                prefix_limit: PrefixLimitCfg { warning_threshold_pct: threshold, ..c.prefix_limit },
                ..c
            },
        ),
        neighbor_family_becomes(
            c,
            NeighborAfiSafiEntryChange::Ipv4UnicastPrefixLimitTeardown(teardown),
            NeighborAfiSafiCfgView { prefix_limit: PrefixLimitCfg { teardown, ..c.prefix_limit }, ..c },
        ),
        neighbor_family_becomes(
            c,
            NeighborAfiSafiEntryChange::Ipv6UnicastPrefixLimitTeardown(teardown),
            NeighborAfiSafiCfgView { prefix_limit: PrefixLimitCfg { teardown, ..c.prefix_limit }, ..c },
        ),
        neighbor_family_becomes(
            c,
            NeighborAfiSafiEntryChange::Ipv4UnicastPrefixLimitIdleTime(idle_time),
            NeighborAfiSafiCfgView { prefix_limit: PrefixLimitCfg { idle_time, ..c.prefix_limit }, ..c },
        ),
        neighbor_family_becomes(
            c,
            NeighborAfiSafiEntryChange::Ipv6UnicastPrefixLimitIdleTime(idle_time),
            NeighborAfiSafiCfgView { prefix_limit: PrefixLimitCfg { idle_time, ..c.prefix_limit }, ..c },
        ),
        neighbor_family_becomes(
            c,
            NeighborAfiSafiEntryChange::Ipv4UnicastSendDefaultRoute(send),
            NeighborAfiSafiCfgView { send_default_route: send, ..c },
        ),
        neighbor_family_becomes(
            c,
            NeighborAfiSafiEntryChange::Ipv6UnicastSendDefaultRoute(send),
            NeighborAfiSafiCfgView { send_default_route: send, ..c },
        ),
{
}

/// Each leaf of a neighbor takes the configured value, and no other one changes. The
/// neighbor is updated where its session depends on the value.
#[verifier::spinoff_prover]
#[verifier::rlimit(40)]
pub proof fn neighbor_leaves_are_taken_as_configured(
    n: NeighborView,
    q: Set<Event>,
    d: Defaults,
    asn: u32,
    enabled: bool,
    local_as: Option<u32>,
    private_as_remove: Option<PrivateAsRemove>,
    any_string: String,
    interval: u16,
    holdtime: u16,
    keepalive: Option<u16>,
    interval_opt: Option<u16>,
    log: bool,
    allow: u8,
    replace: bool,
    disable: bool,
)
    ensures
        neighbor_becomes(
            n,
            q,
            d,
            asn,
            NeighborEntryChange::Enabled(enabled),
            NeighborCfgView { enabled, ..n.config },
            q.insert(Event::NeighborUpdate(n.session.remote_addr)),
        ),
        neighbor_becomes(
            n,
            q,
            d,
            asn,
            NeighborEntryChange::LocalAs(local_as),
            NeighborCfgView { local_as, ..n.config },
            q,
        ),
        neighbor_becomes(
            n,
            q,
            d,
            asn,
            NeighborEntryChange::RemovePrivateAs(private_as_remove),
            NeighborCfgView { private_as_remove, ..n.config },
            q,
        ),
        neighbor_becomes(n, q, d, asn, NeighborEntryChange::Description(any_string), n.config, q),
        neighbor_becomes(
            n,
            q,
            d,
            asn,
            NeighborEntryChange::TimersConnectRetryInterval(interval),
            NeighborCfgView {
                timers: NeighborTimersCfg { connect_retry_interval: interval, ..n.config.timers },
                ..n.config
            },
            q,
        ),
        neighbor_becomes(
            n,
            q,
            d,
            asn,
            NeighborEntryChange::TimersHoldTime(holdtime),
            NeighborCfgView { timers: NeighborTimersCfg { holdtime, ..n.config.timers }, ..n.config },
            q,
        ),
        neighbor_becomes(
            n,
            q,
            d,
            asn,
            NeighborEntryChange::TimersKeepalive(keepalive),
            NeighborCfgView { timers: NeighborTimersCfg { keepalive, ..n.config.timers }, ..n.config },
            q,
        ),
        neighbor_becomes(
            n,
            q,
            d,
            asn,
            NeighborEntryChange::TimersMinAsOriginationInterval(interval_opt),
            NeighborCfgView {
                timers: NeighborTimersCfg { min_as_orig_interval: interval_opt, ..n.config.timers },
                ..n.config
            },
            q,
        ),
        neighbor_becomes(
            n,
            q,
            d,
            asn,
            NeighborEntryChange::TimersMinRouteAdvertisementInterval(interval_opt),
            NeighborCfgView {
                timers: NeighborTimersCfg { min_route_adv_interval: interval_opt, ..n.config.timers },
                ..n.config
            },
            q,
        ),
        neighbor_becomes(
            n,
            q,
            d,
            asn,
            NeighborEntryChange::LoggingOptionsLogNeighborStateChanges(log),
            NeighborCfgView { log_neighbor_state_changes: log, ..n.config },
            q,
        ),
        neighbor_becomes(
            n,
            q,
            d,
            asn,
            NeighborEntryChange::AsPathOptionsAllowOwnAs(allow),
            NeighborCfgView {
                as_path_options: AsPathOptions { allow_own_as: allow, ..n.config.as_path_options },
                ..n.config
            },
            q,
        ),
        neighbor_becomes(
            n,
            q,
            d,
            asn,
            NeighborEntryChange::AsPathOptionsReplacePeerAs(replace),
            NeighborCfgView {
                as_path_options: AsPathOptions { replace_peer_as: replace, ..n.config.as_path_options },
                ..n.config
            },
            q,
        ),
        neighbor_becomes(
            n,
            q,
            d,
            asn,
            NeighborEntryChange::AsPathOptionsDisablePeerAsFilter(disable),
            NeighborCfgView {
                as_path_options: AsPathOptions { disable_peer_as_filter: disable, ..n.config.as_path_options },
                ..n.config
            },
            q,
        ),
{
}

/// Each leaf on the transport of a session takes the configured value, and no other one
/// changes. The neighbor is reset where the session depends on the value.
#[verifier::spinoff_prover]
#[verifier::rlimit(40)]
pub proof fn neighbor_transport_is_taken_as_configured(
    n: NeighborView,
    q: Set<Event>,
    d: Defaults,
    asn: u32,
    addr: Option<IpAddr>,
    tcp_mss: Option<u16>,
    enabled: bool,
    ttl: Option<u8>,
    passive_mode: bool,
    ttl_security: u8,
    key: Option<String>,
)
    ensures
        neighbor_becomes(
            n,
            q,
            d,
            asn,
            NeighborEntryChange::TransportLocalAddress(addr),
            NeighborCfgView {
                transport: NeighborTransportCfgView { local_addr: addr, ..n.config.transport },
                ..n.config
            },
            q.insert(
                Event::NeighborReset(
                    n.session.remote_addr,
                    NotificationMsg { error_subcode: CeaseSubcode::OtherConfigurationChange },
                ),
            ),
        ),
        neighbor_becomes(
            n,
            q,
            d,
            asn,
            NeighborEntryChange::TransportTcpMss(tcp_mss),
            NeighborCfgView {
                transport: NeighborTransportCfgView { tcp_mss, ..n.config.transport },
                ..n.config
            },
            q,
        ),
        neighbor_becomes(
            n,
            q,
            d,
            asn,
            NeighborEntryChange::TransportEbgpMultihopEnabled(enabled),
            NeighborCfgView {
                transport: NeighborTransportCfgView { ebgp_multihop_enabled: enabled, ..n.config.transport },
                ..n.config
            },
            q.insert(
                Event::NeighborReset(
                    n.session.remote_addr,
                    NotificationMsg { error_subcode: CeaseSubcode::OtherConfigurationChange },
                ),
            ),
        ),
        neighbor_becomes(
            n,
            q,
            d,
            asn,
            NeighborEntryChange::TransportEbgpMultihopMultihopTtl(ttl),
            NeighborCfgView {
                transport: NeighborTransportCfgView { ebgp_multihop_ttl: ttl, ..n.config.transport },
                ..n.config
            },
            q.insert(
                Event::NeighborReset(
                    n.session.remote_addr,
                    NotificationMsg { error_subcode: CeaseSubcode::OtherConfigurationChange },
                ),
            ),
        ),
        neighbor_becomes(
            n,
            q,
            d,
            asn,
            NeighborEntryChange::TransportPassiveMode(passive_mode),
            NeighborCfgView {
                transport: NeighborTransportCfgView { passive_mode, ..n.config.transport },
                ..n.config
            },
            q,
        ),
        neighbor_becomes(
            n,
            q,
            d,
            asn,
            NeighborEntryChange::TransportTtlSecurity(ttl_security),
            NeighborCfgView {
                transport: NeighborTransportCfgView { ttl_security: Some(ttl_security), ..n.config.transport },
                ..n.config
            },
            q.insert(
                Event::NeighborReset(
                    n.session.remote_addr,
                    NotificationMsg { error_subcode: CeaseSubcode::OtherConfigurationChange },
                ),
            ),
        ),
        neighbor_becomes(
            n,
            q,
            d,
            asn,
            NeighborEntryChange::TransportSecureSessionEnabled(enabled),
            NeighborCfgView {
                transport: NeighborTransportCfgView { secure_session_enabled: enabled, ..n.config.transport },
                ..n.config
            },
            q.insert(
                Event::NeighborReset(
                    n.session.remote_addr,
                    NotificationMsg { error_subcode: CeaseSubcode::OtherConfigurationChange },
                ),
            ).insert(Event::NeighborUpdateAuth(n.session.remote_addr)),
        ),
        neighbor_becomes(
            n,
            q,
            d,
            asn,
            NeighborEntryChange::TransportSecureSessionOptionsMd5KeyString(key),
            NeighborCfgView {
                transport: NeighborTransportCfgView { md5_key: opt_text(key), ..n.config.transport },
                ..n.config
            },
            q.insert(
                Event::NeighborReset(
                    n.session.remote_addr,
                    NotificationMsg { error_subcode: CeaseSubcode::OtherConfigurationChange },
                ),
            ).insert(Event::NeighborUpdateAuth(n.session.remote_addr)),
        ),
{
}

/// Policies and limits on prefixes of a neighbor take the configured value, and nothing
/// else changes.
#[verifier::spinoff_prover]
#[verifier::rlimit(40)]
pub proof fn neighbor_policies_are_taken_as_configured(
    n: NeighborView,
    q: Set<Event>,
    d: Defaults,
    asn: u32,
    op: ConfigOp,
    policy: String,
    default: DefaultPolicyType,
    max: Option<u32>,
    threshold: Option<u8>,
    teardown: bool,
    idle_time: Option<u32>,
)
    ensures
        neighbor_becomes(
            n,
            q,
            d,
            asn,
            NeighborEntryChange::ApplyPolicyImportPolicy(op, policy),
            NeighborCfgView {
                apply_policy: ApplyPolicyCfgView {
                    import_policy: member(n.config.apply_policy.import_policy, op, policy@),
                    ..n.config.apply_policy
                },
                ..n.config
            },
            q,
        ),
        neighbor_becomes(
            n,
            q,
            d,
            asn,
            NeighborEntryChange::ApplyPolicyDefaultImportPolicy(default),
            NeighborCfgView {
                apply_policy: ApplyPolicyCfgView { default_import_policy: default, ..n.config.apply_policy },
                ..n.config
            },
            q,
        ),
        neighbor_becomes(
            n,
            q,
            d,
            asn,
            NeighborEntryChange::ApplyPolicyExportPolicy(op, policy),
            NeighborCfgView {
                apply_policy: ApplyPolicyCfgView {
                    export_policy: member(n.config.apply_policy.export_policy, op, policy@),
                    ..n.config.apply_policy
                },
                ..n.config
            },
            q,
        ),
        neighbor_becomes(
            n,
            q,
            d,
            asn,
            NeighborEntryChange::ApplyPolicyDefaultExportPolicy(default),
            NeighborCfgView {
                apply_policy: ApplyPolicyCfgView { default_export_policy: default, ..n.config.apply_policy },
                ..n.config
            },
            q,
        ),
        neighbor_becomes(
            n,
            q,
            d,
            asn,
            NeighborEntryChange::PrefixLimitMaxPrefixes(max),
            NeighborCfgView {
                prefix_limit: PrefixLimitCfg { max_prefixes: max, ..n.config.prefix_limit },
                ..n.config
            },
            q,
        ),
        neighbor_becomes(
            n,
            q,
            d,
            asn,
            NeighborEntryChange::PrefixLimitWarningThresholdPct(threshold),
            NeighborCfgView {
                prefix_limit: PrefixLimitCfg { warning_threshold_pct: threshold, ..n.config.prefix_limit },
                ..n.config
            },
            q,
        ),
        neighbor_becomes(
            n,
            q,
            d,
            asn,
            NeighborEntryChange::PrefixLimitTeardown(teardown),
            NeighborCfgView { prefix_limit: PrefixLimitCfg { teardown, ..n.config.prefix_limit }, ..n.config },
            q,
        ),
        neighbor_becomes(
            n,
            q,
            d,
            asn,
            NeighborEntryChange::PrefixLimitIdleTime(idle_time),
            NeighborCfgView { prefix_limit: PrefixLimitCfg { idle_time, ..n.config.prefix_limit }, ..n.config },
            q,
        ),
{
}

/// Configuration starts out with the defaults of the schema, and empty where it has none.
pub proof fn configuration_starts_out_with_defaults(d: Defaults)
    ensures
        InstanceCfg::initial(d).asn == 0,
        InstanceCfg::initial(d).identifier is None,
        InstanceCfg::initial(d).distance == d.distance,
        InstanceCfg::initial(d).multipath == d.multipath,
        InstanceCfg::initial(d).route_selection == RouteSelectionCfg::initial(),
        InstanceCfg::initial(d).apply_policy == ApplyPolicyCfg::initial(d),
        InstanceCfg::initial(d).afi_safi.dom().is_empty(),
        InstanceCfg::initial(d).reject_as_sets == d.reject_as_sets,
        InstanceCfg::initial(d).trace_opts == InstanceTraceOptions::initial(),
        !InstanceAfiSafiCfg::initial(d).enabled,
        InstanceAfiSafiCfg::initial(d).multipath == d.multipath,
        InstanceAfiSafiCfg::initial(d).route_selection == RouteSelectionCfg::initial(),
        InstanceAfiSafiCfg::initial(d).prefix_limit == PrefixLimitCfg::initial(),
        !InstanceAfiSafiCfg::initial(d).send_default_route,
        InstanceAfiSafiCfg::initial(d).apply_policy == ApplyPolicyCfg::initial(d),
        InstanceAfiSafiCfg::initial(d).redistribution.dom().is_empty(),
        !InstanceTraceOptions::initial().events,
        !InstanceTraceOptions::initial().ibus,
        !InstanceTraceOptions::initial().nht,
        InstanceTraceOptions::initial().packets == TraceOptionPacket::initial(),
        !InstanceTraceOptions::initial().route,
        NeighborCfg::initial(d).enabled == d.nbr_enabled,
        NeighborCfg::initial(d).peer_as == 0,
        NeighborCfg::initial(d).local_as is None,
        NeighborCfg::initial(d).private_as_remove is None,
        NeighborCfg::initial(d).timers == NeighborTimersCfg::initial(d),
        NeighborCfg::initial(d).transport == NeighborTransportCfg::initial(d),
        NeighborCfg::initial(d).log_neighbor_state_changes == d.log_neighbor_state_changes,
        NeighborCfg::initial(d).as_path_options == AsPathOptions::initial(),
        NeighborCfg::initial(d).apply_policy == ApplyPolicyCfg::initial(d),
        NeighborCfg::initial(d).prefix_limit == PrefixLimitCfg::initial(),
        NeighborCfg::initial(d).afi_safi.dom().is_empty(),
        NeighborCfg::initial(d).trace_opts == NeighborTraceOptions::initial(),
        NeighborTimersCfg::initial(d).connect_retry_interval == d.connect_retry_interval,
        NeighborTimersCfg::initial(d).holdtime == d.holdtime,
        NeighborTimersCfg::initial(d).keepalive is None,
        NeighborTimersCfg::initial(d).min_as_orig_interval is None,
        NeighborTimersCfg::initial(d).min_route_adv_interval is None,
        NeighborTransportCfg::initial(d).local_addr is None,
        NeighborTransportCfg::initial(d).tcp_mss is None,
        NeighborTransportCfg::initial(d).ebgp_multihop_enabled == d.ebgp_multihop_enabled,
        NeighborTransportCfg::initial(d).ebgp_multihop_ttl is None,
        NeighborTransportCfg::initial(d).passive_mode == d.passive_mode,
        NeighborTransportCfg::initial(d).ttl_security is None,
        NeighborTransportCfg::initial(d).secure_session_enabled == d.secure_session_enabled,
        NeighborTransportCfg::initial(d).md5_key is None,
        NeighborAfiSafiCfg::initial(d).enabled == d.nbr_afi_safi_enabled,
        NeighborAfiSafiCfg::initial(d).prefix_limit == PrefixLimitCfg::initial(),
        !NeighborAfiSafiCfg::initial(d).send_default_route,
        NeighborAfiSafiCfg::initial(d).apply_policy == ApplyPolicyCfg::initial(d),
        NeighborTraceOptions::initial().events is None,
        !NeighborTraceOptions::initial().events_resolved,
        NeighborTraceOptions::initial().packets == TraceOptionPacket::initial(),
        NeighborTraceOptions::initial().packets_resolved == TraceOptionPacketResolved::initial(),
        PrefixLimitCfg::initial().max_prefixes is None,
        PrefixLimitCfg::initial().warning_threshold_pct is None,
        !PrefixLimitCfg::initial().teardown,
        PrefixLimitCfg::initial().idle_time is None,
        AsPathOptions::initial().allow_own_as == 0,
        !AsPathOptions::initial().replace_peer_as,
        !AsPathOptions::initial().disable_peer_as_filter,
        TraceOptionPacket::initial().all is None,
        TraceOptionPacket::initial().open is None,
        TraceOptionPacket::initial().update is None,
        TraceOptionPacket::initial().notification is None,
        TraceOptionPacket::initial().keepalive is None,
        TraceOptionPacket::initial().refresh is None,
        TraceOptionPacketResolved::initial().open == (TraceOptionPacketType { tx: false, rx: false }),
        TraceOptionPacketResolved::initial().update == (TraceOptionPacketType { tx: false, rx: false }),
        TraceOptionPacketResolved::initial().notification == (TraceOptionPacketType { tx: false, rx: false }),
        TraceOptionPacketResolved::initial().keepalive == (TraceOptionPacketType { tx: false, rx: false }),
        TraceOptionPacketResolved::initial().refresh == (TraceOptionPacketType { tx: false, rx: false }),
        ApplyPolicyCfg::initial(d).import_policy.is_empty(),
        ApplyPolicyCfg::initial(d).default_import_policy == d.policy,
        ApplyPolicyCfg::initial(d).export_policy.is_empty(),
        ApplyPolicyCfg::initial(d).default_export_policy == d.policy,
        !RouteSelectionCfg::initial().always_compare_med,
        !RouteSelectionCfg::initial().ignore_as_path_length,
        RouteSelectionCfg::initial().external_compare_router_id,
        !RouteSelectionCfg::initial().ignore_next_hop_igp_metric,
        !RouteSelectionCfg::initial().enable_med,
{
}

/// A neighbor with the AS number of the instance is internal, any other one external, and
/// the session is reset with its AS number.
pub proof fn peer_as_tells_internal_neighbors(n: NeighborView, q: Set<Event>, d: Defaults, asn: u32, peer_as: u32)
    ensures
        ({
            let r = neighbor_entry_changed(n, q, d, asn, NeighborEntryChange::PeerAs(peer_as));
            let (m, p) = r->0;
            &&& r is Some
            &&& asn == peer_as ==> m.session == (Session { peer_type: PeerType::Internal, ..n.session })
            &&& asn != peer_as ==> m.session == (Session { peer_type: PeerType::External, ..n.session })
            &&& m.config == (NeighborCfgView { peer_as, ..n.config })
            &&& p == q.insert(
                Event::NeighborReset(
                    n.session.remote_addr,
                    NotificationMsg { error_subcode: CeaseSubcode::OtherConfigurationChange },
                ),
            )
        }),
{
}

/// Redistribution starts with a subscription and ends with its routes, in its own address
/// family.
pub proof fn redistribution_comes_and_goes(c: InstanceAfiSafiCfgView, q: Set<Event>, p: Protocol)
    ensures
        family_becomes(
            c,
            q,
            GlobalAfiSafiEntryChange::Ipv4UnicastRedistribution(p, ConfigOp::Create),
            InstanceAfiSafiCfgView { redistribution: c.redistribution.insert(p, RedistributionCfg {  }), ..c },
            q.insert(Event::RedistributeIbusSub(p, AddressFamily::Ipv4)),
        ),
        family_becomes(
            c,
            q,
            GlobalAfiSafiEntryChange::Ipv4UnicastRedistribution(p, ConfigOp::Delete),
            InstanceAfiSafiCfgView { redistribution: c.redistribution.remove(p), ..c },
            q.insert(Event::RedistributeDelete(p, AddressFamily::Ipv4, AfiSafi::Ipv4Unicast)),
        ),
        family_becomes(
            c,
            q,
            GlobalAfiSafiEntryChange::Ipv6UnicastRedistribution(p, ConfigOp::Create),
            InstanceAfiSafiCfgView { redistribution: c.redistribution.insert(p, RedistributionCfg {  }), ..c },
            q.insert(Event::RedistributeIbusSub(p, AddressFamily::Ipv6)),
        ),
        family_becomes(
            c,
            q,
            GlobalAfiSafiEntryChange::Ipv6UnicastRedistribution(p, ConfigOp::Delete),
            InstanceAfiSafiCfgView { redistribution: c.redistribution.remove(p), ..c },
            q.insert(Event::RedistributeDelete(p, AddressFamily::Ipv6, AfiSafi::Ipv6Unicast)),
        ),
{
}

// ===== entries =====

/// Address families of the instance come with the defaults of the schema, take what is
/// configured within them, and go as a whole; one that is not there cannot be changed.
pub proof fn families_come_and_go(
    i: InstanceView,
    q: Set<Event>,
    af: AfiSafi,
    other: AfiSafi,
    change: GlobalAfiSafiEntryChange,
)
    requires
        other != af,
    ensures
        ({
            let r = |x: GlobalAfiSafiChange| instance_changed(i, q, ConfigChange::GlobalAfiSafi(af, x));
            let m = i.config.afi_safi;
            let with = |m: Map<AfiSafi, InstanceAfiSafiCfgView>|
                InstanceView { config: InstanceCfgView { afi_safi: m, ..i.config }, ..i };
            &&& r(GlobalAfiSafiChange::Create) == Some((with(m.insert(af, InstanceAfiSafiCfg::initial(i.defaults))), q))
            &&& r(GlobalAfiSafiChange::Delete) == Some((with(m.remove(af)), q))
            &&& !m.contains_key(af) ==> r(GlobalAfiSafiChange::Entry(change)) is None
            &&& m.contains_key(af) ==> {
                let s = afi_safi_entry_changed(m[af], q, change);
                r(GlobalAfiSafiChange::Entry(change)) == Some((with(m.insert(af, s.0)), s.1))
            }
        }),
{
}

/// Address families of a neighbor come with the defaults of the schema, take what is
/// configured within them, and go as a whole; one that is not there cannot be changed.
pub proof fn neighbor_families_come_and_go(
    n: NeighborView,
    q: Set<Event>,
    d: Defaults,
    asn: u32,
    af: AfiSafi,
    change: NeighborAfiSafiEntryChange,
)
    ensures
        ({
            let r = |x: NeighborAfiSafiChange|
                neighbor_entry_changed(n, q, d, asn, NeighborEntryChange::AfiSafi(af, x));
            let m = n.config.afi_safi;
            let with = |m: Map<AfiSafi, NeighborAfiSafiCfgView>|
                NeighborView { config: NeighborCfgView { afi_safi: m, ..n.config }, ..n };
            &&& r(NeighborAfiSafiChange::Create) == Some((with(m.insert(af, NeighborAfiSafiCfg::initial(d))), q))
            &&& r(NeighborAfiSafiChange::Delete) == Some((with(m.remove(af)), q))
            &&& !m.contains_key(af) ==> r(NeighborAfiSafiChange::Entry(change)) is None
            &&& m.contains_key(af) ==> r(NeighborAfiSafiChange::Entry(change)) == Some(
                (with(m.insert(af, neighbor_afi_safi_entry_changed(m[af], change))), q),
            )
        }),
{
}

/// A new neighbor is idle and internal, with its address, an index of its own and the
/// defaults of the schema, and nothing negotiated. A deleted one stays until its event, a
/// change within one reaches it alone, and one that is not there cannot be changed.
pub proof fn neighbors_come_and_go(
    i: InstanceView,
    q: Set<Event>,
    addr: IpAddr,
    other: IpAddr,
    change: NeighborEntryChange,
)
    requires
        i.next_index < PeerIndex::MAX,
        other != addr,
    ensures
        ({
            let r = instance_changed(i, q, ConfigChange::Neighbor(addr, NeighborChange::Create));
            let (j, p) = r->0;
            let n = j.neighbors[addr];
            &&& r is Some && j.neighbors.contains_key(addr) && j.next_index == i.next_index + 1
            &&& n.session.index == i.next_index && n.session.remote_addr == addr
            &&& n.session.peer_type == PeerType::Internal && n.session.state == State::Idle
            &&& n.session.identifier is None && n.session.conn_info is None && !n.session.shared_subnet
            &&& !n.session.ipv4_unicast_enabled && !n.session.ipv6_unicast_enabled
            &&& n.config == NeighborCfg::initial(i.defaults)
            &&& j.neighbors.contains_key(other) == i.neighbors.contains_key(other)
            &&& j.neighbors[other] == i.neighbors[other] && j.config == i.config
            &&& p == q.insert(Event::NeighborUpdate(addr))
        }),
        instance_changed(i, q, ConfigChange::Neighbor(addr, NeighborChange::Delete)) == Some(
            (i, q.insert(Event::NeighborDelete(addr))),
        ),
        ({
            let r = instance_changed(i, q, ConfigChange::Neighbor(addr, NeighborChange::Entry(change)));
            let s = neighbor_entry_changed(i.neighbors[addr], q, i.defaults, i.config.asn, change);
            &&& !i.neighbors.contains_key(addr) ==> r is None
            &&& i.neighbors.contains_key(addr) ==> r is Some == s is Some
            &&& i.neighbors.contains_key(addr) && s is Some ==> {
                &&& (r->0).0 == (InstanceView { neighbors: i.neighbors.insert(addr, (s->0).0), ..i })
                &&& (r->0).1 == (s->0).1
            }
        }),
{
}

// ===== trace options =====

/// Messages are traced as the option of their type says.
pub proof fn messages_are_traced_by_type(p: TraceOptionPacketResolved)
    ensures
        p.option(MessageType::Open) == p.open,
        p.option(MessageType::Update) == p.update,
        p.option(MessageType::Notification) == p.notification,
        p.option(MessageType::Keepalive) == p.keepalive,
        p.option(MessageType::RouteRefresh) == p.refresh,
{
}

/// The nearest of the options that apply: the own one on the type, the own one on all, that
/// of the instance on the type, that of the instance on all, or else none.
pub open spec fn nearest(
    own: Option<TraceOptionPacketType>,
    all: Option<TraceOptionPacketType>,
    up: Option<TraceOptionPacketType>,
    up_all: Option<TraceOptionPacketType>,
    r: TraceOptionPacketType,
) -> bool {
    &&& own is Some ==> r == own->0
    &&& own is None && all is Some ==> r == all->0
    &&& own is None && all is None && up is Some ==> r == up->0
    &&& own is None && all is None && up is None && up_all is Some ==> r == up_all->0
    &&& own is None && all is None && up is None && up_all is None ==> !r.tx && !r.rx
}

/// An option on messages of a neighbor goes before that of the instance, and one on their
/// type before one on all. Without any, nothing is traced.
pub proof fn nearer_trace_options_go_first(own: TraceOptionPacket, up: TraceOptionPacket)
    ensures
        nearest(own.open, own.all, up.open, up.all, packets_in_force(own, up).open),
        nearest(own.update, own.all, up.update, up.all, packets_in_force(own, up).update),
        nearest(own.notification, own.all, up.notification, up.all, packets_in_force(own, up).notification),
        nearest(own.keepalive, own.all, up.keepalive, up.all, packets_in_force(own, up).keepalive),
        nearest(own.refresh, own.all, up.refresh, up.all, packets_in_force(own, up).refresh),
{
}

/// Each trace option changes its own flag or its own type of messages. A neighbor traces
/// events from the creation of the option to its deletion, and then as the instance does.
pub proof fn trace_options_change_their_own(
    c: InstanceTraceOptions,
    f: NeighborTraceOptions,
    change: TraceFlagChange,
    entry: TraceFlagEntryChange,
    d: TraceOptionPacketType,
)
    ensures
        ({
            let r = |o: InstanceTraceOption| trace_options_changed(c, o, change, d);
            let p = |x: TraceOptionPacket| InstanceTraceOptions { packets: x, ..c };
            &&& r(InstanceTraceOption::Events) == (InstanceTraceOptions {
                events: flag_changed(c.events, change),
                ..c
            })
            &&& r(InstanceTraceOption::InternalBus) == (InstanceTraceOptions {
                ibus: flag_changed(c.ibus, change),
                ..c
            })
            &&& r(InstanceTraceOption::Nht) == (InstanceTraceOptions { nht: flag_changed(c.nht, change), ..c })
            &&& r(InstanceTraceOption::Route) == (InstanceTraceOptions { route: flag_changed(c.route, change), ..c })
            &&& r(InstanceTraceOption::PacketsAll) == p(
                TraceOptionPacket { all: slot_changed(c.packets.all, change, d), ..c.packets },
            )
            &&& r(InstanceTraceOption::PacketsOpen) == p(
                TraceOptionPacket { open: slot_changed(c.packets.open, change, d), ..c.packets },
            )
            &&& r(InstanceTraceOption::PacketsUpdate) == p(
                TraceOptionPacket { update: slot_changed(c.packets.update, change, d), ..c.packets },
            )
            &&& r(InstanceTraceOption::PacketsNotification) == p(
                TraceOptionPacket { notification: slot_changed(c.packets.notification, change, d), ..c.packets },
            )
            &&& r(InstanceTraceOption::PacketsKeepalive) == p(
                TraceOptionPacket { keepalive: slot_changed(c.packets.keepalive, change, d), ..c.packets },
            )
            &&& r(InstanceTraceOption::PacketsRefresh) == p(
                TraceOptionPacket { refresh: slot_changed(c.packets.refresh, change, d), ..c.packets },
            )
        }),
        ({
            let r = |o: NeighborTraceOption| neighbor_trace_options_changed(f, o, change, d);
            let p = |x: TraceOptionPacket| NeighborTraceOptions { packets: x, ..f };
            &&& r(NeighborTraceOption::PacketsAll) == p(
                TraceOptionPacket { all: slot_changed(f.packets.all, change, d), ..f.packets },
            )
            &&& r(NeighborTraceOption::PacketsOpen) == p(
                TraceOptionPacket { open: slot_changed(f.packets.open, change, d), ..f.packets },
            )
            &&& r(NeighborTraceOption::PacketsUpdate) == p(
                TraceOptionPacket { update: slot_changed(f.packets.update, change, d), ..f.packets },
            )
            &&& r(NeighborTraceOption::PacketsNotification) == p(
                TraceOptionPacket { notification: slot_changed(f.packets.notification, change, d), ..f.packets },
            )
            &&& r(NeighborTraceOption::PacketsKeepalive) == p(
                TraceOptionPacket { keepalive: slot_changed(f.packets.keepalive, change, d), ..f.packets },
            )
            &&& r(NeighborTraceOption::PacketsRefresh) == p(
                TraceOptionPacket { refresh: slot_changed(f.packets.refresh, change, d), ..f.packets },
            )
        }),
        ({
            let r = |x: TraceFlagChange| neighbor_trace_options_changed(f, NeighborTraceOption::Events, x, d);
            &&& r(TraceFlagChange::Create) == (NeighborTraceOptions { events: Some(true), ..f })
            &&& r(TraceFlagChange::Delete) == (NeighborTraceOptions { events: None, ..f })
            &&& r(TraceFlagChange::Entry(entry)) == f
        }),
{
    reveal(packets_changed);
    reveal(opt_flag_changed);
}

/// Trace options of the instance and of a neighbor are changed as configured. They are to
/// be put in force, unless the change is within an option that is not there.
#[verifier::spinoff_prover]
#[verifier::rlimit(40)]
pub proof fn trace_changes_are_put_in_force(
    i: InstanceView,
    n: NeighborView,
    q: Set<Event>,
    d: Defaults,
    asn: u32,
    change: TraceFlagChange,
    entry: TraceFlagEntryChange,
)
    ensures
        !(change is Entry) || i.config.trace_opts.packets.open is Some ==> becomes(
            i,
            q,
            ConfigChange::GlobalTraceOptionsFlag(InstanceTraceOption::PacketsOpen, change),
            InstanceCfgView {
                trace_opts: trace_options_changed(
                    i.config.trace_opts,
                    InstanceTraceOption::PacketsOpen,
                    change,
                    i.defaults.trace,
                ),
                ..i.config
            },
            q.insert(Event::UpdateTraceOptions),
        ),
        i.config.trace_opts.packets.open is None ==> (instance_changed(
            i,
            q,
            ConfigChange::GlobalTraceOptionsFlag(InstanceTraceOption::PacketsOpen, TraceFlagChange::Entry(entry)),
        )->0).1 == q,
        (instance_changed(
            i,
            q,
            ConfigChange::GlobalTraceOptionsFlag(InstanceTraceOption::Nht, TraceFlagChange::Create),
        )->0).1 == q.insert(Event::UpdateTraceOptions),
        (instance_changed(
            i,
            q,
            ConfigChange::GlobalTraceOptionsFlag(InstanceTraceOption::Nht, TraceFlagChange::Entry(entry)),
        )->0).1 == q,
        !(change is Entry) || n.config.trace_opts.packets.open is Some ==> neighbor_becomes(
            n,
            q,
            d,
            asn,
            NeighborEntryChange::TraceOptionsFlag(NeighborTraceOption::PacketsOpen, change),
            NeighborCfgView {
                trace_opts: neighbor_trace_options_changed(
                    n.config.trace_opts,
                    NeighborTraceOption::PacketsOpen,
                    change,
                    d.trace,
                ),
                ..n.config
            },
            q.insert(Event::UpdateTraceOptions),
        ),
        n.config.trace_opts.packets.open is None ==> (neighbor_entry_changed(
            n,
            q,
            d,
            asn,
            NeighborEntryChange::TraceOptionsFlag(NeighborTraceOption::PacketsOpen, TraceFlagChange::Entry(entry)),
        )->0).1 == q,
{
    reveal(slot_notes);
}

// ===== events =====

/// Events do what they name. The session of an enabled neighbor starts and that of a
/// disabled one is shut down; a deleted neighbor loses its password and session before it
/// goes. What concerns sessions waits until the instance is up.
pub proof fn events_do_what_they_name(
    i: InstanceView,
    listeners: Seq<AddressFamily>,
    addr: IpAddr,
    msg: NotificationMsg,
    p: Protocol,
    af: AddressFamily,
    family: AfiSafi,
    key: Seq<char>,
)
    ensures
        ({
            let up = |e: Event| event_actions(i, Some(listeners), e);
            let down = |e: Event| event_actions(i, None, e);
            let n = i.neighbors[addr].config;
            let socks = listening_on(listeners, addr.family());
            &&& up(Event::InstanceUpdate) == seq![ActionView::InstanceUpdate]
            &&& down(Event::InstanceUpdate) == seq![ActionView::InstanceUpdate]
            &&& n.enabled ==> up(Event::NeighborUpdate(addr)) == seq![ActionView::NeighborFsm(addr, FsmEvent::Start)]
            &&& !n.enabled ==> up(Event::NeighborUpdate(addr)) == seq![
                ActionView::NeighborFsm(
                    addr,
                    FsmEvent::Stop(Some(NotificationMsg { error_subcode: CeaseSubcode::AdministrativeShutdown })),
                ),
            ]
            &&& up(Event::NeighborDelete(addr)) == seq![
                ActionView::Md5sigUpdate { listeners: socks, addr, key: None },
                ActionView::NeighborFsm(
                    addr,
                    FsmEvent::Stop(Some(NotificationMsg { error_subcode: CeaseSubcode::PeerDeConfigured })),
                ),
                ActionView::NeighborRemove(addr),
            ]
            &&& up(Event::NeighborReset(addr, msg)) == seq![ActionView::NeighborFsm(addr, FsmEvent::Stop(Some(msg)))]
            &&& n.transport.secure_session_enabled && n.transport.md5_key == Some(key) ==> up(
                Event::NeighborUpdateAuth(addr),
            ) == seq![ActionView::Md5sigUpdate { listeners: socks, addr, key: Some(key) }]
            &&& !n.transport.secure_session_enabled || n.transport.md5_key is None ==> up(
                Event::NeighborUpdateAuth(addr),
            ) == seq![ActionView::Md5sigUpdate { listeners: socks, addr, key: None }]
            &&& up(Event::RedistributeIbusSub(p, af)) == seq![ActionView::RedistributeSub(p, af)]
            &&& down(Event::RedistributeIbusSub(p, af)) == seq![ActionView::RedistributeSub(p, af)]
            &&& up(Event::RedistributeDelete(p, af, family)) == seq![
                ActionView::RedistributeUnsub(p, af),
                ActionView::ScheduleDecisionProcess,
            ]
            &&& down(Event::RedistributeDelete(p, af, family)) == seq![ActionView::RedistributeUnsub(p, af)]
            &&& up(Event::UpdateTraceOptions).len() == 0 && down(Event::UpdateTraceOptions).len() == 0
            &&& down(Event::NeighborUpdate(addr)).len() == 0 && down(Event::NeighborDelete(addr)).len() == 0
            &&& down(Event::NeighborReset(addr, msg)).len() == 0 && down(Event::NeighborUpdateAuth(addr)).len() == 0
        }),
{
}

/// Passwords are set on the sockets that listen on the family of the neighbor, in order.
pub proof fn sockets_of_the_family_are_taken(s: Seq<AddressFamily>, af: AddressFamily, other: AddressFamily)
    requires
        s.len() < usize::MAX,
        other != af,
    ensures
        listening_on(Seq::empty(), af).len() == 0,
        listening_on(s.push(af), af) == listening_on(s, af).push(s.len() as usize),
        listening_on(s.push(other), af) == listening_on(s, af),
{
    assert(s.push(af).drop_last() =~= s);
    assert(s.push(other).drop_last() =~= s);
}

/// The end of redistribution takes the routes from that protocol out of the table of its
/// address family and queues their prefixes; other routes and the other table stay.
pub proof fn redistributed_routes_go(
    i: InstanceView,
    s: InstanceState,
    j: InstanceView,
    t: InstanceState,
    p: Protocol,
    af: AddressFamily,
    k: IpNetwork,
)
    requires
        event_handled(i, Some(s), j, Some(t), Event::RedistributeDelete(p, af, AfiSafi::Ipv4Unicast)),
    ensures
        ({
            let old = s.rib.tables.ipv4_unicast;
            let new = t.rib.tables.ipv4_unicast;
            let d = old.prefixes@[k];
            &&& j.config == i.config && j.neighbors == i.neighbors && t.listeners == s.listeners
            &&& t.rib.tables.ipv6_unicast == s.rib.tables.ipv6_unicast
            &&& new.prefixes@.contains_key(k) == old.prefixes@.contains_key(k)
            &&& old.prefixes@.contains_key(k) && d.redistribute is Some && (d.redistribute->0).origin
                == RouteOrigin::Protocol(p) ==> {
                &&& new.prefixes@[k] == (Destination { redistribute: None, ..d })
                &&& new.queued_prefixes@.contains(k)
            }
            &&& old.prefixes@.contains_key(k) && (d.redistribute is None || (d.redistribute->0).origin
                != RouteOrigin::Protocol(p)) ==> {
                &&& new.prefixes@[k] == d
                &&& new.queued_prefixes@.contains(k) == old.queued_prefixes@.contains(k)
            }
        }),
{
}

/// The same holds of IPv6.
pub proof fn redistributed_ipv6_routes_go(
    i: InstanceView,
    s: InstanceState,
    j: InstanceView,
    t: InstanceState,
    p: Protocol,
    af: AddressFamily,
    k: IpNetwork,
)
    requires
        event_handled(i, Some(s), j, Some(t), Event::RedistributeDelete(p, af, AfiSafi::Ipv6Unicast)),
    ensures
        ({
            let old = s.rib.tables.ipv6_unicast;
            let new = t.rib.tables.ipv6_unicast;
            let d = old.prefixes@[k];
            &&& t.rib.tables.ipv4_unicast == s.rib.tables.ipv4_unicast
            &&& new.prefixes@.contains_key(k) == old.prefixes@.contains_key(k)
            &&& old.prefixes@.contains_key(k) && d.redistribute is Some && (d.redistribute->0).origin
                == RouteOrigin::Protocol(p) ==> new.prefixes@[k] == (Destination { redistribute: None, ..d })
                && new.queued_prefixes@.contains(k)
            &&& old.prefixes@.contains_key(k) && (d.redistribute is None || (d.redistribute->0).origin
                != RouteOrigin::Protocol(p)) ==> new.prefixes@[k] == d && new.queued_prefixes@.contains(k)
                == old.queued_prefixes@.contains(k)
        }),
{
}

/// Trace options come into force for every neighbor, as they are configured for it or else
/// for the instance. No other event changes neighbors or their configuration.
pub proof fn events_put_configuration_in_force(
    i: InstanceView,
    s: Option<InstanceState>,
    j: InstanceView,
    t: Option<InstanceState>,
    e: Event,
    addr: IpAddr,
    on: bool,
)
    requires
        event_handled(i, s, j, t, e),
        i.neighbors.contains_key(addr),
    ensures
        j.config == i.config && j.defaults == i.defaults && j.next_index == i.next_index,
        j.neighbors.contains_key(addr),
        e != Event::UpdateTraceOptions ==> j.neighbors == i.neighbors,
        e == Event::UpdateTraceOptions ==> {
            let old = i.neighbors[addr].config.trace_opts;
            let new = j.neighbors[addr].config.trace_opts;
            &&& j.neighbors[addr].session == i.neighbors[addr].session
            &&& j.neighbors[addr].config == (NeighborCfgView { trace_opts: new, ..i.neighbors[addr].config })
            &&& new.events == old.events && new.packets == old.packets
            &&& old.events == Some(on) ==> new.events_resolved == on
            &&& old.events is None ==> new.events_resolved == i.config.trace_opts.events
            &&& new.packets_resolved == packets_in_force(old.packets, i.config.trace_opts.packets)
        },
        !(e is RedistributeDelete) ==> t == s,
{
}

} // verus!
