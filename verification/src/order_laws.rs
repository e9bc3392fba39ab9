//! In which order things are taken: events by their kinds and subjects, and the keys of
//! tables by their fields.

use vstd::prelude::*;

use crate::bfd::configuration as bfd_cfg;
use crate::bgp::configuration as bgp_cfg;
use crate::igmp as igmp_cfg;
use crate::interface::configuration as interface_cfg;
use crate::isis::configuration as isis_cfg;
use crate::ldp as ldp_cfg;
use crate::ospf::configuration as ospf_cfg;
use crate::bgp::attribute::Origin;
use crate::bgp::neighbor::State;
use crate::bgp::types::{AfiSafi, RouteType};
use crate::collections::{lex_lt, Key};
use crate::ip::{AddressFamily, IpAddr, IpNetwork};
use crate::isis::types::{LevelNumber, MtId, RedistributionKey, SpbServiceKey, StandardApp};
use crate::ospf::spf::NexthopKey;
use crate::protocol::Protocol;

verus! {

// ===== lexicographic order =====

/// Codes with different first numbers are ordered by them.
pub broadcast proof fn first_decides(a: Seq<u128>, b: Seq<u128>)
    requires
        a.len() > 0,
        b.len() > 0,
        a[0] < b[0],
    ensures
        #[trigger] lex_lt(a, b),
{
}

/// Codes with the same first number are ordered by the second.
pub broadcast proof fn second_decides(a: Seq<u128>, b: Seq<u128>)
    requires
        a.len() > 1,
        b.len() > 1,
        a[0] == b[0],
        a[1] < b[1],
    ensures
        #[trigger] lex_lt(a, b),
{
    reveal_with_fuel(lex_lt, 2);
}

/// Codes with the same first two numbers are ordered by the third.
pub broadcast proof fn third_decides(a: Seq<u128>, b: Seq<u128>)
    requires
        a.len() > 2,
        b.len() > 2,
        a[0] == b[0],
        a[1] == b[1],
        a[2] < b[2],
    ensures
        #[trigger] lex_lt(a, b),
{
    reveal_with_fuel(lex_lt, 3);
}

/// Codes with the same first three numbers are ordered by the fourth.
pub broadcast proof fn fourth_decides(a: Seq<u128>, b: Seq<u128>)
    requires
        a.len() > 3,
        b.len() > 3,
        a[0] == b[0],
        a[1] == b[1],
        a[2] == b[2],
        a[3] < b[3],
    ensures
        #[trigger] lex_lt(a, b),
{
    reveal_with_fuel(lex_lt, 4);
}

/// A code comes after the codes that it begins with.
pub proof fn beginnings_go_first(a: Seq<u128>, b: Seq<u128>)
    requires
        b.len() > 0,
    ensures
        lex_lt(a, a + b),
        !lex_lt(a + b, a),
    decreases a.len(),
{
    if a.len() > 0 {
        beginnings_go_first(a.skip(1), b);
        assert((a + b).skip(1) =~= a.skip(1) + b);
    }
}

// ===== events =====

/// Events of OSPF are processed in the order of their kinds.
pub proof fn ospf_events_go_by_kind(a: ospf_cfg::EventView, b: ospf_cfg::EventView)
    ensures
        a is InstanceReset && b is InstanceUpdate ==> lex_lt(ospf_cfg::Event::code(a), ospf_cfg::Event::code(b)),
        a is InstanceUpdate && b is InstanceIdUpdate ==> lex_lt(ospf_cfg::Event::code(a), ospf_cfg::Event::code(b)),
        a is InstanceIdUpdate && b is AreaCreate ==> lex_lt(ospf_cfg::Event::code(a), ospf_cfg::Event::code(b)),
        a is AreaCreate && b is AreaDelete ==> lex_lt(ospf_cfg::Event::code(a), ospf_cfg::Event::code(b)),
        a is AreaDelete && b is AreaTypeChange ==> lex_lt(ospf_cfg::Event::code(a), ospf_cfg::Event::code(b)),
        a is AreaTypeChange && b is AreaSyncHelloTx ==> lex_lt(ospf_cfg::Event::code(a), ospf_cfg::Event::code(b)),
        a is AreaSyncHelloTx && b is InterfaceUpdate ==> lex_lt(ospf_cfg::Event::code(a), ospf_cfg::Event::code(b)),
        a is InterfaceUpdate && b is InterfaceDelete ==> lex_lt(ospf_cfg::Event::code(a), ospf_cfg::Event::code(b)),
        a is InterfaceDelete && b is InterfaceReset ==> lex_lt(ospf_cfg::Event::code(a), ospf_cfg::Event::code(b)),
        a is InterfaceReset && b is InterfaceResetHelloInterval
            ==> lex_lt(ospf_cfg::Event::code(a), ospf_cfg::Event::code(b)),
        a is InterfaceResetHelloInterval && b is InterfaceResetDeadInterval
            ==> lex_lt(ospf_cfg::Event::code(a), ospf_cfg::Event::code(b)),
        a is InterfaceResetDeadInterval && b is InterfacePriorityChange
            ==> lex_lt(ospf_cfg::Event::code(a), ospf_cfg::Event::code(b)),
        a is InterfacePriorityChange && b is InterfaceCostChange
            ==> lex_lt(ospf_cfg::Event::code(a), ospf_cfg::Event::code(b)),
        a is InterfaceCostChange && b is AreaInterfaceTraceOptionsFlagChange
            ==> lex_lt(ospf_cfg::Event::code(a), ospf_cfg::Event::code(b)),
        a is AreaInterfaceTraceOptionsFlagChange && b is InterfaceSyncHelloTx
            ==> lex_lt(ospf_cfg::Event::code(a), ospf_cfg::Event::code(b)),
        a is InterfaceSyncHelloTx && b is InterfaceUpdateAuth
            ==> lex_lt(ospf_cfg::Event::code(a), ospf_cfg::Event::code(b)),
        a is InterfaceUpdateAuth && b is InterfaceBfdChange
            ==> lex_lt(ospf_cfg::Event::code(a), ospf_cfg::Event::code(b)),
        a is InterfaceBfdChange && b is InterfaceUpdateTraceOptions
            ==> lex_lt(ospf_cfg::Event::code(a), ospf_cfg::Event::code(b)),
        a is InterfaceUpdateTraceOptions && b is InterfaceIbusSub
            ==> lex_lt(ospf_cfg::Event::code(a), ospf_cfg::Event::code(b)),
        a is InterfaceIbusSub && b is StubRouterChange ==> lex_lt(ospf_cfg::Event::code(a), ospf_cfg::Event::code(b)),
        a is StubRouterChange && b is GrHelperChange ==> lex_lt(ospf_cfg::Event::code(a), ospf_cfg::Event::code(b)),
        a is GrHelperChange && b is SrEnableChange ==> lex_lt(ospf_cfg::Event::code(a), ospf_cfg::Event::code(b)),
        a is SrEnableChange && b is RerunSpf ==> lex_lt(ospf_cfg::Event::code(a), ospf_cfg::Event::code(b)),
        a is RerunSpf && b is UpdateVirtualLinks ==> lex_lt(ospf_cfg::Event::code(a), ospf_cfg::Event::code(b)),
        a is UpdateVirtualLinks && b is UpdateSummaries ==> lex_lt(ospf_cfg::Event::code(a), ospf_cfg::Event::code(b)),
        a is UpdateSummaries && b is ReinstallRoutes ==> lex_lt(ospf_cfg::Event::code(a), ospf_cfg::Event::code(b)),
        a is ReinstallRoutes && b is BierEnableChange ==> lex_lt(ospf_cfg::Event::code(a), ospf_cfg::Event::code(b)),
        a is BierEnableChange && b is NodeTagsChange ==> lex_lt(ospf_cfg::Event::code(a), ospf_cfg::Event::code(b)),
        a is NodeTagsChange && b is UpdateTraceOptions ==> lex_lt(ospf_cfg::Event::code(a), ospf_cfg::Event::code(b)),
{
    broadcast use {first_decides, second_decides};

}

/// Events of OSPF of the same kind are processed in the order of what they are about.
#[verifier::spinoff_prover]
#[verifier::rlimit(40)]
pub proof fn ospf_events_go_by_subject(a: ospf_cfg::EventView, b: ospf_cfg::EventView)
    ensures
        a is AreaCreate && b is AreaCreate && a->AreaCreate_0 < b->AreaCreate_0
            ==> lex_lt(ospf_cfg::Event::code(a), ospf_cfg::Event::code(b)),
        a is AreaDelete && b is AreaDelete && a->AreaDelete_0 < b->AreaDelete_0
            ==> lex_lt(ospf_cfg::Event::code(a), ospf_cfg::Event::code(b)),
        a is AreaTypeChange && b is AreaTypeChange && a->AreaTypeChange_0 < b->AreaTypeChange_0
            ==> lex_lt(ospf_cfg::Event::code(a), ospf_cfg::Event::code(b)),
        a is AreaSyncHelloTx && b is AreaSyncHelloTx && a->AreaSyncHelloTx_0 < b->AreaSyncHelloTx_0
            ==> lex_lt(ospf_cfg::Event::code(a), ospf_cfg::Event::code(b)),
        a is InterfaceUpdate && b is InterfaceUpdate && a->InterfaceUpdate_0 < b->InterfaceUpdate_0
            ==> lex_lt(ospf_cfg::Event::code(a), ospf_cfg::Event::code(b)),
        a is InterfaceUpdate && b is InterfaceUpdate
            && a->InterfaceUpdate_0 == b->InterfaceUpdate_0
            && a->InterfaceUpdate_1 < b->InterfaceUpdate_1
            ==> lex_lt(ospf_cfg::Event::code(a), ospf_cfg::Event::code(b)),
        a is InterfaceDelete && b is InterfaceDelete && a->InterfaceDelete_0 < b->InterfaceDelete_0
            ==> lex_lt(ospf_cfg::Event::code(a), ospf_cfg::Event::code(b)),
        a is InterfaceDelete && b is InterfaceDelete
            && a->InterfaceDelete_0 == b->InterfaceDelete_0
            && a->InterfaceDelete_1 < b->InterfaceDelete_1
            ==> lex_lt(ospf_cfg::Event::code(a), ospf_cfg::Event::code(b)),
        a is InterfaceReset && b is InterfaceReset && a->InterfaceReset_0 < b->InterfaceReset_0
            ==> lex_lt(ospf_cfg::Event::code(a), ospf_cfg::Event::code(b)),
        a is InterfaceReset && b is InterfaceReset
            && a->InterfaceReset_0 == b->InterfaceReset_0
            && a->InterfaceReset_1 < b->InterfaceReset_1
            ==> lex_lt(ospf_cfg::Event::code(a), ospf_cfg::Event::code(b)),
        a is InterfaceResetHelloInterval && b is InterfaceResetHelloInterval
            && a->InterfaceResetHelloInterval_0 < b->InterfaceResetHelloInterval_0
            ==> lex_lt(ospf_cfg::Event::code(a), ospf_cfg::Event::code(b)),
        a is InterfaceResetHelloInterval && b is InterfaceResetHelloInterval
            && a->InterfaceResetHelloInterval_0 == b->InterfaceResetHelloInterval_0
            && a->InterfaceResetHelloInterval_1 < b->InterfaceResetHelloInterval_1
            ==> lex_lt(ospf_cfg::Event::code(a), ospf_cfg::Event::code(b)),
        a is InterfaceResetDeadInterval && b is InterfaceResetDeadInterval
            && a->InterfaceResetDeadInterval_0 < b->InterfaceResetDeadInterval_0
            ==> lex_lt(ospf_cfg::Event::code(a), ospf_cfg::Event::code(b)),
        a is InterfaceResetDeadInterval && b is InterfaceResetDeadInterval
            && a->InterfaceResetDeadInterval_0 == b->InterfaceResetDeadInterval_0
            && a->InterfaceResetDeadInterval_1 < b->InterfaceResetDeadInterval_1
            ==> lex_lt(ospf_cfg::Event::code(a), ospf_cfg::Event::code(b)),
        a is InterfacePriorityChange && b is InterfacePriorityChange
            && a->InterfacePriorityChange_0 < b->InterfacePriorityChange_0
            ==> lex_lt(ospf_cfg::Event::code(a), ospf_cfg::Event::code(b)),
        a is InterfacePriorityChange && b is InterfacePriorityChange
            && a->InterfacePriorityChange_0 == b->InterfacePriorityChange_0
            && a->InterfacePriorityChange_1 < b->InterfacePriorityChange_1
            ==> lex_lt(ospf_cfg::Event::code(a), ospf_cfg::Event::code(b)),
        a is InterfaceCostChange && b is InterfaceCostChange && a->InterfaceCostChange_0 < b->InterfaceCostChange_0
            ==> lex_lt(ospf_cfg::Event::code(a), ospf_cfg::Event::code(b)),
        a is AreaInterfaceTraceOptionsFlagChange && b is AreaInterfaceTraceOptionsFlagChange
            && a->AreaInterfaceTraceOptionsFlagChange_0 < b->AreaInterfaceTraceOptionsFlagChange_0
            ==> lex_lt(ospf_cfg::Event::code(a), ospf_cfg::Event::code(b)),
        a is InterfaceSyncHelloTx && b is InterfaceSyncHelloTx && a->InterfaceSyncHelloTx_0 < b->InterfaceSyncHelloTx_0
            ==> lex_lt(ospf_cfg::Event::code(a), ospf_cfg::Event::code(b)),
        a is InterfaceSyncHelloTx && b is InterfaceSyncHelloTx
            && a->InterfaceSyncHelloTx_0 == b->InterfaceSyncHelloTx_0
            && a->InterfaceSyncHelloTx_1 < b->InterfaceSyncHelloTx_1
            ==> lex_lt(ospf_cfg::Event::code(a), ospf_cfg::Event::code(b)),
        a is InterfaceUpdateAuth && b is InterfaceUpdateAuth && a->InterfaceUpdateAuth_0 < b->InterfaceUpdateAuth_0
            ==> lex_lt(ospf_cfg::Event::code(a), ospf_cfg::Event::code(b)),
        a is InterfaceUpdateAuth && b is InterfaceUpdateAuth
            && a->InterfaceUpdateAuth_0 == b->InterfaceUpdateAuth_0
            && a->InterfaceUpdateAuth_1 < b->InterfaceUpdateAuth_1
            ==> lex_lt(ospf_cfg::Event::code(a), ospf_cfg::Event::code(b)),
        a is InterfaceBfdChange && b is InterfaceBfdChange && a->InterfaceBfdChange_0 < b->InterfaceBfdChange_0
            ==> lex_lt(ospf_cfg::Event::code(a), ospf_cfg::Event::code(b)),
        a is InterfaceUpdateTraceOptions && b is InterfaceUpdateTraceOptions
            && a->InterfaceUpdateTraceOptions_0 < b->InterfaceUpdateTraceOptions_0
            ==> lex_lt(ospf_cfg::Event::code(a), ospf_cfg::Event::code(b)),
        a is SrEnableChange && b is SrEnableChange && !a->SrEnableChange_0 && b->SrEnableChange_0
            ==> lex_lt(ospf_cfg::Event::code(a), ospf_cfg::Event::code(b)),
        a is BierEnableChange && b is BierEnableChange && !a->BierEnableChange_0 && b->BierEnableChange_0
            ==> lex_lt(ospf_cfg::Event::code(a), ospf_cfg::Event::code(b)),
{
    broadcast use {second_decides, third_decides, fourth_decides};

}

/// Events of IS-IS are processed in the order of their kinds.
pub proof fn isis_events_go_by_kind(a: isis_cfg::Event, b: isis_cfg::Event)
    ensures
        a is InstanceReset && b is InstanceUpdate ==> lex_lt(isis_cfg::Event::code(a), isis_cfg::Event::code(b)),
        a is InstanceUpdate && b is InterfaceUpdate ==> lex_lt(isis_cfg::Event::code(a), isis_cfg::Event::code(b)),
        a is InterfaceUpdate && b is InstanceLevelTypeUpdate
            ==> lex_lt(isis_cfg::Event::code(a), isis_cfg::Event::code(b)),
        a is InstanceLevelTypeUpdate && b is InstanceTopologyUpdate
            ==> lex_lt(isis_cfg::Event::code(a), isis_cfg::Event::code(b)),
        a is InstanceTopologyUpdate && b is InterfaceDelete
            ==> lex_lt(isis_cfg::Event::code(a), isis_cfg::Event::code(b)),
        a is InterfaceDelete && b is InterfaceReset ==> lex_lt(isis_cfg::Event::code(a), isis_cfg::Event::code(b)),
        a is InterfaceReset && b is InterfaceRestartNetwork
            ==> lex_lt(isis_cfg::Event::code(a), isis_cfg::Event::code(b)),
        a is InterfaceRestartNetwork && b is InstanceUpdateAuth
            ==> lex_lt(isis_cfg::Event::code(a), isis_cfg::Event::code(b)),
        a is InstanceUpdateAuth && b is InterfaceUpdateAuth
            ==> lex_lt(isis_cfg::Event::code(a), isis_cfg::Event::code(b)),
        a is InterfaceUpdateAuth && b is InterfacePriorityChange
            ==> lex_lt(isis_cfg::Event::code(a), isis_cfg::Event::code(b)),
        a is InterfacePriorityChange && b is InterfaceUpdateHelloInterval
            ==> lex_lt(isis_cfg::Event::code(a), isis_cfg::Event::code(b)),
        a is InterfaceUpdateHelloInterval && b is InterfaceUpdateCsnpInterval
            ==> lex_lt(isis_cfg::Event::code(a), isis_cfg::Event::code(b)),
        a is InterfaceUpdateCsnpInterval && b is InterfaceBfdChange
            ==> lex_lt(isis_cfg::Event::code(a), isis_cfg::Event::code(b)),
        a is InterfaceBfdChange && b is InterfaceUpdateTraceOptions
            ==> lex_lt(isis_cfg::Event::code(a), isis_cfg::Event::code(b)),
        a is InterfaceUpdateTraceOptions && b is InterfaceIbusSub
            ==> lex_lt(isis_cfg::Event::code(a), isis_cfg::Event::code(b)),
        a is InterfaceIbusSub && b is ReoriginateLsps ==> lex_lt(isis_cfg::Event::code(a), isis_cfg::Event::code(b)),
        a is ReoriginateLsps && b is RefreshLsps ==> lex_lt(isis_cfg::Event::code(a), isis_cfg::Event::code(b)),
        a is RefreshLsps && b is RerunSpf ==> lex_lt(isis_cfg::Event::code(a), isis_cfg::Event::code(b)),
        a is RerunSpf && b is ReinstallRoutes ==> lex_lt(isis_cfg::Event::code(a), isis_cfg::Event::code(b)),
        a is ReinstallRoutes && b is OverloadChange ==> lex_lt(isis_cfg::Event::code(a), isis_cfg::Event::code(b)),
        a is OverloadChange && b is SrEnabledChange ==> lex_lt(isis_cfg::Event::code(a), isis_cfg::Event::code(b)),
        a is SrEnabledChange && b is RedistributeAdd ==> lex_lt(isis_cfg::Event::code(a), isis_cfg::Event::code(b)),
        a is RedistributeAdd && b is RedistributeDelete ==> lex_lt(isis_cfg::Event::code(a), isis_cfg::Event::code(b)),
        a is RedistributeDelete && b is UpdateTraceOptions
            ==> lex_lt(isis_cfg::Event::code(a), isis_cfg::Event::code(b)),
{
    broadcast use {first_decides, second_decides};

}

/// Events of IS-IS of the same kind are processed in the order of what they are about.
#[verifier::spinoff_prover]
#[verifier::rlimit(40)]
pub proof fn isis_events_go_by_subject(a: isis_cfg::Event, b: isis_cfg::Event)
    ensures
        a is InterfaceUpdate && b is InterfaceUpdate && a->InterfaceUpdate_0 < b->InterfaceUpdate_0
            ==> lex_lt(isis_cfg::Event::code(a), isis_cfg::Event::code(b)),
        a is InterfaceDelete && b is InterfaceDelete && a->InterfaceDelete_0 < b->InterfaceDelete_0
            ==> lex_lt(isis_cfg::Event::code(a), isis_cfg::Event::code(b)),
        a is InterfaceReset && b is InterfaceReset && a->InterfaceReset_0 < b->InterfaceReset_0
            ==> lex_lt(isis_cfg::Event::code(a), isis_cfg::Event::code(b)),
        a is InterfaceRestartNetwork && b is InterfaceRestartNetwork
            && a->InterfaceRestartNetwork_0 < b->InterfaceRestartNetwork_0
            ==> lex_lt(isis_cfg::Event::code(a), isis_cfg::Event::code(b)),
        a is InterfaceUpdateAuth && b is InterfaceUpdateAuth && a->InterfaceUpdateAuth_0 < b->InterfaceUpdateAuth_0
            ==> lex_lt(isis_cfg::Event::code(a), isis_cfg::Event::code(b)),
        a is InterfacePriorityChange && b is InterfacePriorityChange
            && a->InterfacePriorityChange_0 < b->InterfacePriorityChange_0
            ==> lex_lt(isis_cfg::Event::code(a), isis_cfg::Event::code(b)),
        a is InterfacePriorityChange && b is InterfacePriorityChange
            && a->InterfacePriorityChange_0 == b->InterfacePriorityChange_0
            && (a->InterfacePriorityChange_1).rank() < (b->InterfacePriorityChange_1).rank()
            ==> lex_lt(isis_cfg::Event::code(a), isis_cfg::Event::code(b)),
        a is InterfaceUpdateHelloInterval && b is InterfaceUpdateHelloInterval
            && a->InterfaceUpdateHelloInterval_0 < b->InterfaceUpdateHelloInterval_0
            ==> lex_lt(isis_cfg::Event::code(a), isis_cfg::Event::code(b)),
        a is InterfaceUpdateHelloInterval && b is InterfaceUpdateHelloInterval
            && a->InterfaceUpdateHelloInterval_0 == b->InterfaceUpdateHelloInterval_0
            && (a->InterfaceUpdateHelloInterval_1).rank() < (b->InterfaceUpdateHelloInterval_1).rank()
            ==> lex_lt(isis_cfg::Event::code(a), isis_cfg::Event::code(b)),
        a is InterfaceUpdateCsnpInterval && b is InterfaceUpdateCsnpInterval
            && a->InterfaceUpdateCsnpInterval_0 < b->InterfaceUpdateCsnpInterval_0
            ==> lex_lt(isis_cfg::Event::code(a), isis_cfg::Event::code(b)),
        a is InterfaceBfdChange && b is InterfaceBfdChange && a->InterfaceBfdChange_0 < b->InterfaceBfdChange_0
            ==> lex_lt(isis_cfg::Event::code(a), isis_cfg::Event::code(b)),
        a is InterfaceUpdateTraceOptions && b is InterfaceUpdateTraceOptions
            && a->InterfaceUpdateTraceOptions_0 < b->InterfaceUpdateTraceOptions_0
            ==> lex_lt(isis_cfg::Event::code(a), isis_cfg::Event::code(b)),
        a is InterfaceIbusSub && b is InterfaceIbusSub && a->InterfaceIbusSub_0 < b->InterfaceIbusSub_0
            ==> lex_lt(isis_cfg::Event::code(a), isis_cfg::Event::code(b)),
        a is ReoriginateLsps && b is ReoriginateLsps && (a->ReoriginateLsps_0).rank() < (b->ReoriginateLsps_0).rank()
            ==> lex_lt(isis_cfg::Event::code(a), isis_cfg::Event::code(b)),
        a is OverloadChange && b is OverloadChange && !a->OverloadChange_0 && b->OverloadChange_0
            ==> lex_lt(isis_cfg::Event::code(a), isis_cfg::Event::code(b)),
        a is SrEnabledChange && b is SrEnabledChange && !a->SrEnabledChange_0 && b->SrEnabledChange_0
            ==> lex_lt(isis_cfg::Event::code(a), isis_cfg::Event::code(b)),
        a is RedistributeAdd && b is RedistributeAdd && (a->RedistributeAdd_0).rank() < (b->RedistributeAdd_0).rank()
            ==> lex_lt(isis_cfg::Event::code(a), isis_cfg::Event::code(b)),
        a is RedistributeAdd && b is RedistributeAdd
            && a->RedistributeAdd_0 == b->RedistributeAdd_0
            && (a->RedistributeAdd_1).rank() < (b->RedistributeAdd_1).rank()
            ==> lex_lt(isis_cfg::Event::code(a), isis_cfg::Event::code(b)),
        a is RedistributeDelete && b is RedistributeDelete
            && (a->RedistributeDelete_0).rank() < (b->RedistributeDelete_0).rank()
            ==> lex_lt(isis_cfg::Event::code(a), isis_cfg::Event::code(b)),
        a is RedistributeDelete && b is RedistributeDelete
            && a->RedistributeDelete_0 == b->RedistributeDelete_0
            && (a->RedistributeDelete_1).rank() < (b->RedistributeDelete_1).rank()
            ==> lex_lt(isis_cfg::Event::code(a), isis_cfg::Event::code(b)),
        a is RedistributeDelete && b is RedistributeDelete
            && a->RedistributeDelete_0 == b->RedistributeDelete_0
            && a->RedistributeDelete_1 == b->RedistributeDelete_1
            && (a->RedistributeDelete_2).rank() < (b->RedistributeDelete_2).rank()
            ==> lex_lt(isis_cfg::Event::code(a), isis_cfg::Event::code(b)),
{
    broadcast use {second_decides, third_decides, fourth_decides};

}

/// Events of BGP are processed in the order of their kinds.
pub proof fn bgp_events_go_by_kind(a: bgp_cfg::Event, b: bgp_cfg::Event)
    ensures
        a is InstanceUpdate && b is NeighborUpdate ==> lex_lt(bgp_cfg::Event::code(a), bgp_cfg::Event::code(b)),
        a is NeighborUpdate && b is NeighborDelete ==> lex_lt(bgp_cfg::Event::code(a), bgp_cfg::Event::code(b)),
        a is NeighborDelete && b is NeighborReset ==> lex_lt(bgp_cfg::Event::code(a), bgp_cfg::Event::code(b)),
        a is NeighborReset && b is NeighborUpdateAuth ==> lex_lt(bgp_cfg::Event::code(a), bgp_cfg::Event::code(b)),
        a is NeighborUpdateAuth && b is RedistributeIbusSub
            ==> lex_lt(bgp_cfg::Event::code(a), bgp_cfg::Event::code(b)),
        a is RedistributeIbusSub && b is RedistributeDelete
            ==> lex_lt(bgp_cfg::Event::code(a), bgp_cfg::Event::code(b)),
        a is RedistributeDelete && b is UpdateTraceOptions ==> lex_lt(bgp_cfg::Event::code(a), bgp_cfg::Event::code(b)),
{
    broadcast use {first_decides, second_decides};

}

/// Events of BGP of the same kind are processed in the order of what they are about.
#[verifier::spinoff_prover]
#[verifier::rlimit(40)]
pub proof fn bgp_events_go_by_subject(a: bgp_cfg::Event, b: bgp_cfg::Event)
    ensures
        a is NeighborUpdate && b is NeighborUpdate && (a->NeighborUpdate_0).before(b->NeighborUpdate_0)
            ==> lex_lt(bgp_cfg::Event::code(a), bgp_cfg::Event::code(b)),
        a is NeighborDelete && b is NeighborDelete && (a->NeighborDelete_0).before(b->NeighborDelete_0)
            ==> lex_lt(bgp_cfg::Event::code(a), bgp_cfg::Event::code(b)),
        a is NeighborReset && b is NeighborReset && (a->NeighborReset_0).before(b->NeighborReset_0)
            ==> lex_lt(bgp_cfg::Event::code(a), bgp_cfg::Event::code(b)),
        a is NeighborReset && b is NeighborReset
            && a->NeighborReset_0 == b->NeighborReset_0
            && (a->NeighborReset_1).rank() < (b->NeighborReset_1).rank()
            ==> lex_lt(bgp_cfg::Event::code(a), bgp_cfg::Event::code(b)),
        a is NeighborUpdateAuth && b is NeighborUpdateAuth && (a->NeighborUpdateAuth_0).before(b->NeighborUpdateAuth_0)
            ==> lex_lt(bgp_cfg::Event::code(a), bgp_cfg::Event::code(b)),
        a is RedistributeIbusSub && b is RedistributeIbusSub
            && (a->RedistributeIbusSub_0).rank() < (b->RedistributeIbusSub_0).rank()
            ==> lex_lt(bgp_cfg::Event::code(a), bgp_cfg::Event::code(b)),
        a is RedistributeIbusSub && b is RedistributeIbusSub
            && a->RedistributeIbusSub_0 == b->RedistributeIbusSub_0
            && (a->RedistributeIbusSub_1).rank() < (b->RedistributeIbusSub_1).rank()
            ==> lex_lt(bgp_cfg::Event::code(a), bgp_cfg::Event::code(b)),
        a is RedistributeDelete && b is RedistributeDelete
            && (a->RedistributeDelete_0).rank() < (b->RedistributeDelete_0).rank()
            ==> lex_lt(bgp_cfg::Event::code(a), bgp_cfg::Event::code(b)),
        a is RedistributeDelete && b is RedistributeDelete
            && a->RedistributeDelete_0 == b->RedistributeDelete_0
            && (a->RedistributeDelete_1).rank() < (b->RedistributeDelete_1).rank()
            ==> lex_lt(bgp_cfg::Event::code(a), bgp_cfg::Event::code(b)),
        a is RedistributeDelete && b is RedistributeDelete
            && a->RedistributeDelete_0 == b->RedistributeDelete_0
            && a->RedistributeDelete_1 == b->RedistributeDelete_1
            && (a->RedistributeDelete_2).rank() < (b->RedistributeDelete_2).rank()
            ==> lex_lt(bgp_cfg::Event::code(a), bgp_cfg::Event::code(b)),
{
    broadcast use {second_decides, third_decides, fourth_decides};

}

/// Events of LDP are processed in the order of their kinds.
pub proof fn ldp_events_go_by_kind(a: ldp_cfg::EventView, b: ldp_cfg::EventView)
    ensures
        a is InstanceUpdate && b is InterfaceUpdate ==> lex_lt(ldp_cfg::Event::code(a), ldp_cfg::Event::code(b)),
        a is InterfaceUpdate && b is InterfaceDelete ==> lex_lt(ldp_cfg::Event::code(a), ldp_cfg::Event::code(b)),
        a is InterfaceDelete && b is InterfaceIbusSub ==> lex_lt(ldp_cfg::Event::code(a), ldp_cfg::Event::code(b)),
        a is InterfaceIbusSub && b is TargetedNbrUpdate ==> lex_lt(ldp_cfg::Event::code(a), ldp_cfg::Event::code(b)),
        a is TargetedNbrUpdate && b is TargetedNbrRemoveCheck
            ==> lex_lt(ldp_cfg::Event::code(a), ldp_cfg::Event::code(b)),
        a is TargetedNbrRemoveCheck && b is TargetedNbrRemoveDynamic
            ==> lex_lt(ldp_cfg::Event::code(a), ldp_cfg::Event::code(b)),
        a is TargetedNbrRemoveDynamic && b is StopInitBackoff
            ==> lex_lt(ldp_cfg::Event::code(a), ldp_cfg::Event::code(b)),
        a is StopInitBackoff && b is ResetNeighbors ==> lex_lt(ldp_cfg::Event::code(a), ldp_cfg::Event::code(b)),
        a is ResetNeighbors && b is ResetNeighbor ==> lex_lt(ldp_cfg::Event::code(a), ldp_cfg::Event::code(b)),
        a is ResetNeighbor && b is UpdateNeighborsAuth ==> lex_lt(ldp_cfg::Event::code(a), ldp_cfg::Event::code(b)),
        a is UpdateNeighborsAuth && b is UpdateNeighborAuth
            ==> lex_lt(ldp_cfg::Event::code(a), ldp_cfg::Event::code(b)),
        a is UpdateNeighborAuth && b is CfgSeqNumberUpdate ==> lex_lt(ldp_cfg::Event::code(a), ldp_cfg::Event::code(b)),
{
    broadcast use {first_decides, second_decides};

}

/// Events of LDP of the same kind are processed in the order of what they are about.
#[verifier::spinoff_prover]
#[verifier::rlimit(40)]
pub proof fn ldp_events_go_by_subject(a: ldp_cfg::EventView, b: ldp_cfg::EventView)
    ensures
        a is InterfaceUpdate && b is InterfaceUpdate && a->InterfaceUpdate_0 < b->InterfaceUpdate_0
            ==> lex_lt(ldp_cfg::Event::code(a), ldp_cfg::Event::code(b)),
        a is InterfaceDelete && b is InterfaceDelete && a->InterfaceDelete_0 < b->InterfaceDelete_0
            ==> lex_lt(ldp_cfg::Event::code(a), ldp_cfg::Event::code(b)),
        a is TargetedNbrUpdate && b is TargetedNbrUpdate && a->TargetedNbrUpdate_0 < b->TargetedNbrUpdate_0
            ==> lex_lt(ldp_cfg::Event::code(a), ldp_cfg::Event::code(b)),
        a is TargetedNbrRemoveCheck && b is TargetedNbrRemoveCheck
            && a->TargetedNbrRemoveCheck_0 < b->TargetedNbrRemoveCheck_0
            ==> lex_lt(ldp_cfg::Event::code(a), ldp_cfg::Event::code(b)),
        a is ResetNeighbor && b is ResetNeighbor && a->ResetNeighbor_0 < b->ResetNeighbor_0
            ==> lex_lt(ldp_cfg::Event::code(a), ldp_cfg::Event::code(b)),
        a is UpdateNeighborAuth && b is UpdateNeighborAuth && a->UpdateNeighborAuth_0 < b->UpdateNeighborAuth_0
            ==> lex_lt(ldp_cfg::Event::code(a), ldp_cfg::Event::code(b)),
{
    broadcast use {second_decides, third_decides, fourth_decides};

}

/// Events of IGMP are processed in the order of their kinds.
pub proof fn igmp_events_go_by_kind(a: igmp_cfg::EventView, b: igmp_cfg::EventView)
    ensures
        a is InterfaceUpdate && b is InterfaceIbusSub ==> lex_lt(igmp_cfg::Event::code(a), igmp_cfg::Event::code(b)),
{
    broadcast use {first_decides, second_decides};

}

/// Events of BFD are processed in the order of their kinds.
pub proof fn bfd_events_go_by_kind(a: bfd_cfg::Event, b: bfd_cfg::Event)
    ensures
        a is SessionDeleteCheck && b is AdminDownChange ==> lex_lt(bfd_cfg::Event::code(a), bfd_cfg::Event::code(b)),
        a is AdminDownChange && b is StartPollSequence ==> lex_lt(bfd_cfg::Event::code(a), bfd_cfg::Event::code(b)),
        a is StartPollSequence && b is UpdateRxSockets ==> lex_lt(bfd_cfg::Event::code(a), bfd_cfg::Event::code(b)),
        a is UpdateRxSockets && b is UpdateTxSocket ==> lex_lt(bfd_cfg::Event::code(a), bfd_cfg::Event::code(b)),
        a is UpdateTxSocket && b is UpdateTxInterval ==> lex_lt(bfd_cfg::Event::code(a), bfd_cfg::Event::code(b)),
{
    broadcast use {first_decides, second_decides};

}

/// Events of BFD of the same kind are processed in the order of what they are about.
#[verifier::spinoff_prover]
#[verifier::rlimit(40)]
pub proof fn bfd_events_go_by_subject(a: bfd_cfg::Event, b: bfd_cfg::Event)
    ensures
        a is SessionDeleteCheck && b is SessionDeleteCheck && a->SessionDeleteCheck_0 < b->SessionDeleteCheck_0
            ==> lex_lt(bfd_cfg::Event::code(a), bfd_cfg::Event::code(b)),
        a is AdminDownChange && b is AdminDownChange && a->AdminDownChange_0 < b->AdminDownChange_0
            ==> lex_lt(bfd_cfg::Event::code(a), bfd_cfg::Event::code(b)),
        a is StartPollSequence && b is StartPollSequence && a->StartPollSequence_0 < b->StartPollSequence_0
            ==> lex_lt(bfd_cfg::Event::code(a), bfd_cfg::Event::code(b)),
        a is UpdateTxSocket && b is UpdateTxSocket && a->UpdateTxSocket_0 < b->UpdateTxSocket_0
            ==> lex_lt(bfd_cfg::Event::code(a), bfd_cfg::Event::code(b)),
        a is UpdateTxInterval && b is UpdateTxInterval && a->UpdateTxInterval_0 < b->UpdateTxInterval_0
            ==> lex_lt(bfd_cfg::Event::code(a), bfd_cfg::Event::code(b)),
{
    broadcast use {second_decides, third_decides, fourth_decides};

}

/// Events of interfaces are processed in the order of their kinds.
pub proof fn interface_events_go_by_kind(a: interface_cfg::EventView, b: interface_cfg::EventView)
    ensures
        a is InterfaceDelete && b is AdminStatusChange
            ==> lex_lt(interface_cfg::Event::code(a), interface_cfg::Event::code(b)),
        a is AdminStatusChange && b is MtuChange
            ==> lex_lt(interface_cfg::Event::code(a), interface_cfg::Event::code(b)),
        a is MtuChange && b is VlanCreate ==> lex_lt(interface_cfg::Event::code(a), interface_cfg::Event::code(b)),
        a is VlanCreate && b is AddressInstall ==> lex_lt(interface_cfg::Event::code(a), interface_cfg::Event::code(b)),
        a is AddressInstall && b is AddressUninstall
            ==> lex_lt(interface_cfg::Event::code(a), interface_cfg::Event::code(b)),
        a is AddressUninstall && b is VrrpStart
            ==> lex_lt(interface_cfg::Event::code(a), interface_cfg::Event::code(b)),
{
    broadcast use {first_decides, second_decides};

}

// ===== keys =====

/// IPv4 goes before IPv6, and addresses of a family by their number.
pub proof fn addresses_go_by_family_and_number(a: u32, b: u32, c: u128, d: u128)
    ensures
        IpAddr::V4(a).before(IpAddr::V6(c)),
        !IpAddr::V6(c).before(IpAddr::V4(a)),
        IpAddr::V4(a).before(IpAddr::V4(b)) == (a < b),
        IpAddr::V6(c).before(IpAddr::V6(d)) == (c < d),
        lex_lt(IpAddr::code(IpAddr::V4(a)), IpAddr::code(IpAddr::V6(c))),
        a < b ==> lex_lt(IpAddr::code(IpAddr::V4(a)), IpAddr::code(IpAddr::V4(b))),
        c < d ==> lex_lt(IpAddr::code(IpAddr::V6(c)), IpAddr::code(IpAddr::V6(d))),
        IpAddr::V4(a).family() == AddressFamily::Ipv4,
        IpAddr::V6(c).family() == AddressFamily::Ipv6,
        lex_lt(AddressFamily::code(AddressFamily::Ipv4), AddressFamily::code(AddressFamily::Ipv6)),
        lex_lt(AfiSafi::code(AfiSafi::Ipv4Unicast), AfiSafi::code(AfiSafi::Ipv6Unicast)),
{
    broadcast use {first_decides, second_decides};

}

/// Networks go by their address and then by the length of their prefix.
pub proof fn networks_go_by_address_and_length(a: IpNetwork, b: IpNetwork)
    ensures
        a.addr.before(b.addr) ==> lex_lt(IpNetwork::code(a), IpNetwork::code(b)),
        a.addr == b.addr && a.plen < b.plen ==> lex_lt(IpNetwork::code(a), IpNetwork::code(b)),
{
    broadcast use {first_decides, second_decides, third_decides};

}

/// Protocols go by name; levels, topologies, applications, states, origins and types of
/// routes in their natural order.
pub proof fn enumerations_go_in_order()
    ensures
        Protocol::BFD.rank() < Protocol::BGP.rank() < Protocol::DIRECT.rank() < Protocol::IGMP.rank(),
        Protocol::IGMP.rank() < Protocol::ISIS.rank() < Protocol::LDP.rank() < Protocol::OSPFV2.rank(),
        Protocol::OSPFV2.rank() < Protocol::OSPFV3.rank() < Protocol::RIPV2.rank() < Protocol::RIPNG.rank(),
        Protocol::RIPNG.rank() < Protocol::STATIC.rank() < Protocol::VRRP.rank(),
        LevelNumber::L1.rank() < LevelNumber::L2.rank(),
        MtId::Standard.rank() < MtId::Ipv6Unicast.rank(),
        StandardApp::RsvpTe.rank() < StandardApp::SrPolicy.rank() < StandardApp::Lfa.rank(),
        State::Idle.rank() < State::Connect.rank() < State::Active.rank() < State::OpenSent.rank(),
        State::OpenSent.rank() < State::OpenConfirm.rank() < State::Established.rank(),
        Origin::Igp.rank() < Origin::Egp.rank() < Origin::Incomplete.rank(),
        RouteType::Internal.rank() < RouteType::External.rank(),
        AddressFamily::Ipv4.rank() < AddressFamily::Ipv6.rank(),
        AfiSafi::Ipv4Unicast.rank() < AfiSafi::Ipv6Unicast.rank(),
{
}

/// Nexthops go by their interface, redistribution by its level, and services by their
/// address, before anything else.
pub proof fn keys_go_by_their_first_field(
    a: NexthopKey,
    b: NexthopKey,
    c: RedistributionKey,
    d: RedistributionKey,
    e: SpbServiceKey,
    f: SpbServiceKey,
)
    ensures
        a.iface_idx < b.iface_idx ==> lex_lt(NexthopKey::code(a), NexthopKey::code(b)),
        c.level == LevelNumber::L1 && d.level == LevelNumber::L2 ==> lex_lt(
            RedistributionKey::code(c),
            RedistributionKey::code(d),
        ),
        c.level == d.level && c.protocol.rank() < d.protocol.rank() ==> lex_lt(
            RedistributionKey::code(c),
            RedistributionKey::code(d),
        ),
        e.bmac < f.bmac ==> lex_lt(SpbServiceKey::code(e), SpbServiceKey::code(f)),
        e.bmac == f.bmac && e.base_vid < f.base_vid ==> lex_lt(SpbServiceKey::code(e), SpbServiceKey::code(f)),
{
    broadcast use {first_decides, second_decides};

}

} // verus!
