//! Messages that IS-IS gets from the rest of the system.

use vstd::prelude::*;

use crate::bfd::client::{SessionKey, SessionKeyView, State};
use crate::bgp::policy::RouteOpaqueAttrs;
use crate::collections::{ascending, views, views_insert, Table};
use crate::ip::{IpNetwork, Ipv4Addr};
use crate::isis::configuration::{
    acts, auth_in_force, find_interface, interface_named, nothing, push, sends_hellos, Action, ActionView,
    Adjacency, AdjacencyAction, AuthCfgView, BfdSession, Instance, InstanceCfgView, InstanceSysView, InstanceView,
    Interface, InterfaceSysView, InterfaceView, RouteSys,
};
use crate::isis::types::{InterfaceIndex, LevelNumber, LevelType, MacAddr, RedistributionKey};
use crate::keychain::Keychain;
use crate::protocol::Protocol;
use crate::text::opt_text;

use std::sync::Arc;

verus! {

// ===== messages =====

pub struct InterfaceUpdateMsg {
    pub ifname: String,
    pub ifindex: u32,
    pub mtu: u32,
    pub flags: u32,
    pub mac_address: MacAddr,
    pub msd: Table<u8, u8>,
}

pub struct AddressMsg {
    pub ifname: String,
    pub addr: IpNetwork,
}

#[derive(Clone, Copy, Debug, PartialEq, Eq, Structural)]
pub struct RouteMsg {
    pub protocol: Protocol,
    pub prefix: IpNetwork,
    /// Whether routes to the prefix can be of use to others.
    pub routable: bool,
    pub metric: u32,
    pub tag: Option<u32>,
    pub opaque_attrs: Option<RouteOpaqueAttrs>,
}

#[derive(Clone, Copy, Debug, PartialEq, Eq, Structural)]
pub struct RouteKeyMsg {
    pub protocol: Protocol,
    pub prefix: IpNetwork,
    /// Whether routes to the prefix can be of use to others.
    pub routable: bool,
}

// ===== the instance =====

/// LSPs are originated again, if the instance is up.
pub open spec fn originate(up: bool, level_type: LevelType) -> Seq<ActionView> {
    if up {
        seq![ActionView::LspOriginate(level_type)]
    } else {
        Seq::empty()
    }
}

fn lsp_origination(up: bool, level_type: LevelType) -> (r: Vec<Action>)
    ensures
        acts(r@) == originate(up, level_type),
{
    let mut actions = nothing();
    if up {
        push(&mut actions, Action::LspOriginate(level_type));
    }
    assert(acts(actions@) =~= originate(up, level_type));
    actions
}

pub fn process_router_id_update(instance: &mut Instance, router_id: Option<Ipv4Addr>) -> (actions: Vec<Action>)
    ensures
        final(instance)@ == (InstanceView {
            system: InstanceSysView { router_id, ..old(instance)@.system },
            ..old(instance)@
        }),
        acts(actions@) == originate(old(instance)@.up, LevelType::All),
{
    instance.system.router_id = router_id;

    // Schedule LSP reorigination.
    lsp_origination(instance.up, LevelType::All)
}

pub fn process_hostname_update(instance: &mut Instance, hostname: Option<String>) -> (actions: Vec<Action>)
    ensures
        final(instance)@ == (InstanceView { hostname: opt_text(hostname), ..old(instance)@ }),
        acts(actions@) == originate(old(instance)@.up, old(instance)@.config.level_type),
{
    // Update hostname.
    instance.hostname = hostname;

    // Schedule LSP reorigination.
    lsp_origination(instance.up, instance.config.level_type)
}

pub fn process_msd_update(instance: &mut Instance, node_msd: Table<u8, u8>) -> (actions: Vec<Action>)
    ensures
        final(instance)@ == (InstanceView {
            system: InstanceSysView { node_msd: node_msd@, ..old(instance)@.system },
            ..old(instance)@
        }),
        acts(actions@) == originate(old(instance)@.up, old(instance)@.config.level_type),
{
    // Update node MSD.
    instance.system.node_msd = node_msd;

    // Schedule LSP reorigination.
    lsp_origination(instance.up, instance.config.level_type)
}

/// What is done once the segment routing configuration was updated.
pub fn process_sr_cfg_update(instance: &Instance) -> (actions: Vec<Action>)
    ensures
        acts(actions@) == originate(instance.config.sr.enabled && instance@.up, instance@.config.level_type),
{
    lsp_origination(instance.config.sr.enabled && instance.up, instance.config.level_type)
}

/// What is done once the BIER configuration was updated.
pub fn process_bier_cfg_update(instance: &Instance) -> (actions: Vec<Action>)
    ensures
        acts(actions@) == originate(
            instance.config.bier.enabled && instance.config.bier.advertise && instance@.up,
            instance@.config.level_type,
        ),
{
    let enabled = instance.config.bier.enabled && instance.config.bier.advertise;
    lsp_origination(enabled && instance.up, instance.config.level_type)
}

// ===== interfaces =====

/// What an interface is after the system told of it.
pub open spec fn iface_updated(f: InterfaceView, msg: InterfaceUpdateMsg) -> InterfaceView {
    InterfaceView {
        system: InterfaceSysView {
            flags: msg.flags,
            ifindex: Some(msg.ifindex),
            mtu: Some(msg.mtu),
            msd: msg.msd@,
            mac_addr: Some(msg.mac_address),
            addr_list: f.system.addr_list,
        },
        ..f
    }
}

/// What is done after the system told of an interface: the padding of Hello
/// PDUs follows the MTU, and the interface may become active or inactive.
pub open spec fn iface_update_actions(f: InterfaceView, k: InterfaceIndex, msg: InterfaceUpdateMsg) -> Seq<ActionView> {
    (if f.config.hello_padding && f.system.mtu != Some(msg.mtu) && sends_hellos(f) {
        seq![ActionView::HelloIntervalStart(k, LevelType::All)]
    } else {
        Seq::empty()
    }).push(ActionView::InterfaceUpdate(k))
}

/// Updates an interface from what the system says. Interfaces that are not
/// configured are ignored.
pub fn process_iface_update(instance: &mut Instance, msg: InterfaceUpdateMsg) -> (actions: Vec<Action>)
    ensures
        match interface_named(old(instance)@.interfaces, msg.ifname@) {
            Some(k) => {
                let f = old(instance)@.interfaces[k];
                &&& final(instance)@ == (InstanceView {
                    interfaces: old(instance)@.interfaces.insert(k, iface_updated(f, msg)),
                    ..old(instance)@
                })
                &&& acts(actions@) == (if old(instance)@.up {
                    iface_update_actions(f, k, msg)
                } else {
                    Seq::empty()
                })
            },
            None => final(instance)@ == old(instance)@ && acts(actions@) == Seq::<ActionView>::empty(),
        },
{
    let mut actions = nothing();
    let ghost before = instance.interfaces@;
    // Lookup interface.
    let iface_idx = match find_interface(&instance.interfaces, &msg.ifname) {
        Some(iface_idx) => iface_idx,
        None => {
            return actions;
        },
    };
    if let Some(iface) = instance.interfaces.get_mut(&iface_idx) {
        let ghost f = iface@;
        // Update interface data.
        let same_mtu = match iface.system.mtu {
            Some(mtu) => mtu == msg.mtu,
            None => false,
        };
        iface.system.flags = msg.flags;
        iface.system.mtu = Some(msg.mtu);
        iface.system.msd = msg.msd;
        iface.system.mac_addr = Some(msg.mac_address);
        iface.system.ifindex = Some(msg.ifindex);
        if instance.up {
            // Update the padding used in Hello PDUs if the MTU has changed.
            if iface.config.hello_padding && !same_mtu && iface.active && !iface.passive {
                push(&mut actions, Action::HelloIntervalStart(iface_idx, LevelType::All));
            }

            // Check if IS-IS needs to be activated or deactivated on this
            // interface.
            push(&mut actions, Action::InterfaceUpdate(iface_idx));
        }
        proof {
            views_insert(before, iface_idx, *iface);
            assert(iface@ == iface_updated(f, msg));
            if instance.up {
                assert(acts(actions@) =~= iface_update_actions(f, iface_idx, msg));
            }
        }
    }
    actions
}

/// What is done after an address of an interface came or went.
pub open spec fn addr_actions(i: InstanceView, k: InterfaceIndex) -> Seq<ActionView> {
    if i.up && i.interfaces[k].active {
        (if i.interfaces[k].passive {
            Seq::empty()
        } else {
            seq![ActionView::HelloIntervalStart(k, LevelType::All)]
        }).push(ActionView::LspOriginate(LevelType::All))
    } else {
        Seq::empty()
    }
}

/// An instance, after the addresses of an interface changed.
pub open spec fn with_addrs(i: InstanceView, k: InterfaceIndex, addr_list: Set<IpNetwork>) -> InstanceView {
    let f = i.interfaces[k];
    InstanceView {
        interfaces: i.interfaces.insert(
            k,
            InterfaceView { system: InterfaceSysView { addr_list, ..f.system }, ..f },
        ),
        ..i
    }
}

fn addr_changed(iface: &Interface, up: bool, k: InterfaceIndex) -> (actions: Vec<Action>)
    ensures
        forall|i: InstanceView|
            i.up == up && (#[trigger] i.interfaces[k]).active == iface.active && i.interfaces[k].passive
                == iface.passive ==> acts(actions@) == addr_actions(i, k),
{
    let mut actions = nothing();
    if up && iface.active {
        // Update Hello Tx task(s).
        if !iface.passive {
            push(&mut actions, Action::HelloIntervalStart(k, LevelType::All));
        }

        // Schedule LSP reorigination.
        push(&mut actions, Action::LspOriginate(LevelType::All));
    }
    assert forall|i: InstanceView|
        i.up == up && (#[trigger] i.interfaces[k]).active == iface.active && i.interfaces[k].passive
            == iface.passive implies acts(actions@) == addr_actions(i, k) by {
        assert(acts(actions@) =~= addr_actions(i, k));
    }
    actions
}

/// Adds an address to an interface. Interfaces that are not configured are
/// ignored.
pub fn process_addr_add(instance: &mut Instance, msg: AddressMsg) -> (actions: Vec<Action>)
    ensures
        match interface_named(old(instance)@.interfaces, msg.ifname@) {
            Some(k) => {
                &&& final(instance)@ == with_addrs(
                    old(instance)@,
                    k,
                    old(instance)@.interfaces[k].system.addr_list.insert(msg.addr),
                )
                &&& acts(actions@) == addr_actions(old(instance)@, k)
            },
            None => final(instance)@ == old(instance)@ && acts(actions@) == Seq::<ActionView>::empty(),
        },
{
    let ghost before = instance.interfaces@;
    let ghost i0 = instance@;
    // Lookup interface.
    let iface_idx = match find_interface(&instance.interfaces, &msg.ifname) {
        Some(iface_idx) => iface_idx,
        None => {
            return nothing();
        },
    };
    if let Some(iface) = instance.interfaces.get_mut(&iface_idx) {
        // Add address to interface.
        iface.system.addr_list.insert(msg.addr);
        let actions = addr_changed(iface, instance.up, iface_idx);
        proof {
            views_insert(before, iface_idx, *iface);
            assert(i0.interfaces[iface_idx].active == iface.active);
        }
        return actions;
    }
    nothing()
}

/// Removes an address from an interface. Interfaces that are not configured
/// are ignored.
pub fn process_addr_del(instance: &mut Instance, msg: AddressMsg) -> (actions: Vec<Action>)
    ensures
        match interface_named(old(instance)@.interfaces, msg.ifname@) {
            Some(k) => {
                &&& final(instance)@ == with_addrs(
                    old(instance)@,
                    k,
                    old(instance)@.interfaces[k].system.addr_list.remove(msg.addr),
                )
                &&& acts(actions@) == addr_actions(old(instance)@, k)
            },
            None => final(instance)@ == old(instance)@ && acts(actions@) == Seq::<ActionView>::empty(),
        },
{
    let ghost before = instance.interfaces@;
    let ghost i0 = instance@;
    // Lookup interface.
    let iface_idx = match find_interface(&instance.interfaces, &msg.ifname) {
        Some(iface_idx) => iface_idx,
        None => {
            return nothing();
        },
    };
    if let Some(iface) = instance.interfaces.get_mut(&iface_idx) {
        // Remove address from interface.
        iface.system.addr_list.remove(&msg.addr);
        let actions = addr_changed(iface, instance.up, iface_idx);
        proof {
            views_insert(before, iface_idx, *iface);
            assert(i0.interfaces[iface_idx].active == iface.active);
        }
        return actions;
    }
    nothing()
}

// ===== redistribution =====

/// Whether routes of the protocol are redistributed into a level that the
/// instance takes part in.
pub open spec fn redistributes(c: InstanceCfgView, prefix: IpNetwork, protocol: Protocol, level: LevelNumber) -> bool {
    let af = prefix.addr.family();
    &&& c.level_type.has(level)
    &&& c.afs.contains_key(af)
    &&& c.afs[af].redistribution.contains_key(RedistributionKey { level, protocol })
}

fn redistributed(instance: &Instance, prefix: &IpNetwork, protocol: Protocol, level: LevelNumber) -> (b: bool)
    ensures
        b == redistributes(instance@.config, *prefix, protocol, level),
{
    let takes_part = match (instance.config.level_type, level) {
        (LevelType::All, _) => true,
        (LevelType::L1, LevelNumber::L1) => true,
        (LevelType::L2, LevelNumber::L2) => true,
        _ => false,
    };
    match instance.config.afs.get(&prefix.addr.address_family()) {
        Some(af_cfg) => takes_part && af_cfg.redistribution.contains_key(&RedistributionKey { level, protocol }),
        None => false,
    }
}

/// An instance, after a route was added at a level where its protocol is
/// redistributed.
pub open spec fn route_added(i: InstanceView, msg: RouteMsg, level: LevelNumber) -> InstanceView {
    if redistributes(i.config, msg.prefix, msg.protocol, level) {
        let route = RouteSys {
            protocol: msg.protocol,
            metric: msg.metric,
            tag: msg.tag,
            opaque_attrs: msg.opaque_attrs,
        };
        InstanceView {
            system: i.system.with_routes(level, i.system.routes(level).insert(msg.prefix, route)),
            ..i
        }
    } else {
        i
    }
}

/// LSPs of a level are originated again if it is concerned and the instance is
/// up.
pub open spec fn level_actions(up: bool, concerned: bool, level: LevelNumber) -> Seq<ActionView> {
    if concerned && up {
        seq![ActionView::LspOriginate(level.only())]
    } else {
        Seq::empty()
    }
}

fn add_at_level(instance: &mut Instance, msg: &RouteMsg, level: LevelNumber, actions: &mut Vec<Action>)
    ensures
        final(instance)@ == route_added(old(instance)@, *msg, level),
        acts(final(actions)@) == acts(old(actions)@) + level_actions(
            old(instance)@.up,
            redistributes(old(instance)@.config, msg.prefix, msg.protocol, level),
            level,
        ),
{
    let ghost before = acts(actions@);
    if redistributed(instance, &msg.prefix, msg.protocol, level) {
        let route = RouteSys {
            protocol: msg.protocol,
            metric: msg.metric,
            tag: msg.tag,
            opaque_attrs: msg.opaque_attrs,
        };
        let routes = instance.system.get_mut(level);
        routes.insert(msg.prefix, route);

        // Schedule LSP reorigination.
        if instance.up {
            push(actions, Action::LspOriginate(level.to_level_type()));
        }
    }
    assert(acts(actions@) =~= before + level_actions(
        instance@.up,
        redistributes(instance@.config, msg.prefix, msg.protocol, level),
        level,
    ));
}

/// Takes a route of another protocol, at each level where redistribution is
/// enabled for it.
pub fn process_route_add(instance: &mut Instance, msg: RouteMsg) -> (actions: Vec<Action>)
    ensures
        if msg.routable {
            let c = old(instance)@.config;
            &&& final(instance)@ == route_added(
                route_added(old(instance)@, msg, LevelNumber::L1),
                msg,
                LevelNumber::L2,
            )
            &&& acts(actions@) == level_actions(
                old(instance)@.up,
                redistributes(c, msg.prefix, msg.protocol, LevelNumber::L1),
                LevelNumber::L1,
            ) + level_actions(
                old(instance)@.up,
                redistributes(c, msg.prefix, msg.protocol, LevelNumber::L2),
                LevelNumber::L2,
            )
        } else {
            final(instance)@ == old(instance)@ && acts(actions@) == Seq::<ActionView>::empty()
        },
{
    let mut actions = nothing();
    if !msg.routable {
        return actions;
    }
    let ghost i0 = instance@;
    add_at_level(instance, &msg, LevelNumber::L1, &mut actions);
    add_at_level(instance, &msg, LevelNumber::L2, &mut actions);
    assert(acts(actions@) =~= level_actions(
        i0.up,
        redistributes(i0.config, msg.prefix, msg.protocol, LevelNumber::L1),
        LevelNumber::L1,
    ) + level_actions(i0.up, redistributes(i0.config, msg.prefix, msg.protocol, LevelNumber::L2), LevelNumber::L2));
    actions
}

/// Whether the route at a level is the one that is deleted: it is of that
/// protocol, and the protocol is redistributed there.
pub open spec fn route_owned(i: InstanceView, msg: RouteKeyMsg, level: LevelNumber) -> bool {
    &&& redistributes(i.config, msg.prefix, msg.protocol, level)
    &&& i.system.routes(level).contains_key(msg.prefix)
    &&& i.system.routes(level)[msg.prefix].protocol == msg.protocol
}

/// An instance, after a route of a protocol was deleted at a level. A route
/// of another protocol stays.
pub open spec fn route_deleted(i: InstanceView, msg: RouteKeyMsg, level: LevelNumber) -> InstanceView {
    if route_owned(i, msg, level) {
        InstanceView {
            system: i.system.with_routes(level, i.system.routes(level).remove(msg.prefix)),
            ..i
        }
    } else {
        i
    }
}

fn del_at_level(instance: &mut Instance, msg: &RouteKeyMsg, level: LevelNumber, actions: &mut Vec<Action>)
    ensures
        final(instance)@ == route_deleted(old(instance)@, *msg, level),
        acts(final(actions)@) == acts(old(actions)@) + level_actions(
            old(instance)@.up,
            route_owned(old(instance)@, *msg, level),
            level,
        ),
{
    let ghost before = acts(actions@);
    let ghost i0 = instance@;
    let mut owned = false;
    if redistributed(instance, &msg.prefix, msg.protocol, level) {
        // Remove the route only if it is the one being advertised: the RIB
        // sends a delete per protocol, and a prefix redistributed from two
        // protocols is held here once. When the best route for a prefix
        // changes protocol, the RIB sends an add for the new protocol
        // followed by a delete for the old one; an unconditional remove would
        // drop the entry the add just installed.
        let routes = instance.system.get_mut(level);
        owned = match routes.get(&msg.prefix) {
            Some(route) => route.protocol == msg.protocol,
            None => false,
        };
        if owned {
            routes.remove(&msg.prefix);
        }
    }
    assert(owned == route_owned(i0, *msg, level));
    proof {
        if !owned {
            assert(i0.system.with_routes(level, i0.system.routes(level)) == i0.system);
        }
    }
    // Schedule LSP reorigination.
    if owned && instance.up {
        push(actions, Action::LspOriginate(level.to_level_type()));
    }
    assert(acts(actions@) =~= before + level_actions(i0.up, route_owned(i0, *msg, level), level));
}

/// Drops a route of another protocol, at each level where redistribution is
/// enabled for it and the route is the one being advertised.
pub fn process_route_del(instance: &mut Instance, msg: RouteKeyMsg) -> (actions: Vec<Action>)
    ensures
        if msg.routable {
            let after = route_deleted(old(instance)@, msg, LevelNumber::L1);
            &&& final(instance)@ == route_deleted(after, msg, LevelNumber::L2)
            &&& acts(actions@) == level_actions(
                old(instance)@.up,
                route_owned(old(instance)@, msg, LevelNumber::L1),
                LevelNumber::L1,
            ) + level_actions(old(instance)@.up, route_owned(after, msg, LevelNumber::L2), LevelNumber::L2)
        } else {
            final(instance)@ == old(instance)@ && acts(actions@) == Seq::<ActionView>::empty()
        },
{
    let mut actions = nothing();
    if !msg.routable {
        return actions;
    }
    let ghost i0 = instance@;
    del_at_level(instance, &msg, LevelNumber::L1, &mut actions);
    let ghost i1 = instance@;
    del_at_level(instance, &msg, LevelNumber::L2, &mut actions);
    assert(acts(actions@) =~= level_actions(i0.up, route_owned(i0, msg, LevelNumber::L1), LevelNumber::L1)
        + level_actions(i0.up, route_owned(i1, msg, LevelNumber::L2), LevelNumber::L2));
    actions
}

// ===== BFD =====

/// Whether the session is the one with that key.
pub open spec fn is_session(s: Option<BfdSession>, key: SessionKeyView) -> bool {
    s matches Some(s) && s.sess_key@ == key
}

/// Whether an adjacency has that session.
pub open spec fn has_session(a: Adjacency, key: SessionKeyView) -> bool {
    exists|j: int| 0 <= j < a.bfd@.len() && is_session(#[trigger] a.bfd@[j], key)
}

/// Whether the first session with that key is down in an adjacency, which is
/// otherwise as it was.
pub open spec fn session_down(a: Adjacency, b: Adjacency, key: SessionKeyView) -> bool {
    &&& b.id == a.id
    &&& b.bfd@.len() == a.bfd@.len()
    &&& forall|j: int| #![trigger a.bfd@[j]] #![trigger b.bfd@[j]]
        0 <= j < a.bfd@.len() ==> if is_session(a.bfd@[j], key) && !(exists|x: int|
            0 <= x < j && is_session(#[trigger] a.bfd@[x], key)) {
            b.bfd@[j] matches Some(s) && s.sess_key@ == key && s.state == Some(State::Down)
        } else {
            b.bfd@[j] == a.bfd@[j]
        }
}

/// What is done about each adjacency that has that session.
pub open spec fn bfd_actions(k: InterfaceIndex, adjacencies: Seq<Adjacency>, key: SessionKeyView) -> Seq<ActionView>
    decreases adjacencies.len(),
{
    if adjacencies.len() == 0 {
        Seq::empty()
    } else {
        let r = bfd_actions(k, adjacencies.drop_last(), key);
        if has_session(adjacencies.last(), key) {
            r.push(ActionView::Adjacency(AdjacencyAction::BfdDown, k, adjacencies.last().id))
        } else {
            r
        }
    }
}

fn mark_down(adj: &mut Adjacency, key: &SessionKey) -> (found: bool)
    ensures
        session_down(*old(adj), *final(adj), key@),
        found == has_session(*old(adj), key@),
{
    let ghost a = *adj;
    let n: usize = adj.bfd.len();
    let mut j: usize = 0;
    while j < n
        invariant
            j <= n,
            n == a.bfd@.len(),
            a == *old(adj),
            *adj == a,
            forall|x: int| 0 <= x < j ==> !is_session(#[trigger] a.bfd@[x], key@),
        decreases n - j,
    {
        let found = match &adj.bfd[j] {
            Some(s) => s.sess_key.same(key),
            None => false,
        };
        if found {
            assert(is_session(a.bfd@[j as int], key@));
            // Update the status of the BFD session.
            if let Some(s) = &mut adj.bfd[j] {
                s.state = Some(State::Down);
            }
            assert(session_down(a, *adj, key@));
            return true;
        }
        j = j + 1;
    }
    assert(session_down(a, *adj, key@));
    false
}

fn mark_all_down(adjacencies: &mut Vec<Adjacency>, k: InterfaceIndex, key: &SessionKey, actions: &mut Vec<Action>)
    ensures
        final(adjacencies)@.len() == old(adjacencies)@.len(),
        forall|j: int|
            0 <= j < old(adjacencies)@.len() ==> session_down(
                #[trigger] old(adjacencies)@[j],
                final(adjacencies)@[j],
                key@,
            ),
        acts(final(actions)@) == acts(old(actions)@) + bfd_actions(k, old(adjacencies)@, key@),
{
    let ghost before = acts(actions@);
    let ghost s = adjacencies@;
    let n: usize = adjacencies.len();
    let mut j: usize = 0;
    assert(s.take(0) =~= Seq::empty());
    assert(acts(actions@) =~= before + bfd_actions(k, s.take(0), key@));
    while j < n
        invariant
            j <= n,
            n == s.len(),
            adjacencies@.len() == n,
            forall|x: int| 0 <= x < j ==> session_down(#[trigger] s[x], adjacencies@[x], key@),
            forall|x: int| j <= x < n ==> adjacencies@[x] == #[trigger] s[x],
            acts(actions@) == before + bfd_actions(k, s.take(j as int), key@),
        decreases n - j,
    {
        let id: u64 = adjacencies[j].id;
        let found = mark_down(&mut adjacencies[j], key);
        if found {
            push(actions, Action::Adjacency(AdjacencyAction::BfdDown, k, id));
        }
        proof {
            assert(s.take(j + 1).drop_last() =~= s.take(j as int));
            assert(s.take(j + 1).last() == s[j as int]);
            assert(acts(actions@) =~= before + bfd_actions(k, s.take(j + 1), key@));
        }
        j = j + 1;
    }
    assert(s.take(j as int) =~= s);
}

/// The interface that a message about a BFD session concerns, if the instance
/// acts on it: sessions matter when they go down on one of its interfaces.
pub open spec fn bfd_interface(i: InstanceView, key: SessionKeyView, state: State) -> Option<InterfaceIndex> {
    if state is Down && i.up {
        match key {
            SessionKeyView::IpSingleHop { ifname, .. } => interface_named(i.interfaces, ifname),
            _ => None,
        }
    } else {
        None
    }
}

/// Takes the new state of a BFD session. On LAN interfaces, both L1 and L2
/// adjacencies share the same BFD session.
pub fn process_bfd_state_update(instance: &mut Instance, sess_key: SessionKey, state: State) -> (actions: Vec<Action>)
    ensures
        match bfd_interface(old(instance)@, sess_key@, state) {
            Some(k) => {
                let f = old(instance)@.interfaces[k];
                let g = final(instance)@.interfaces[k];
                &&& final(instance)@ == (InstanceView {
                    interfaces: old(instance)@.interfaces.insert(
                        k,
                        InterfaceView { adjacencies: g.adjacencies, ..f },
                    ),
                    ..old(instance)@
                })
                &&& g.adjacencies.len() == f.adjacencies.len()
                &&& forall|j: int|
                    0 <= j < f.adjacencies.len() ==> session_down(
                        #[trigger] f.adjacencies[j],
                        g.adjacencies[j],
                        sess_key@,
                    )
                &&& acts(actions@) == bfd_actions(k, f.adjacencies, sess_key@).push(
                    ActionView::LspOriginate(old(instance)@.config.level_type),
                )
            },
            None => final(instance)@ == old(instance)@ && acts(actions@) == Seq::<ActionView>::empty(),
        },
{
    let mut actions = nothing();
    // We're only interested on peer down notifications.
    if !matches!(state, State::Down) {
        return actions;
    }

    // Ignore notification if the IS-IS instance isn't active anymore.
    if !instance.up {
        return actions;
    }

    // Lookup interface.
    let iface_idx = match &sess_key {
        SessionKey::IpSingleHop { ifname, .. } => find_interface(&instance.interfaces, ifname),
        _ => None,
    };
    let iface_idx = match iface_idx {
        Some(iface_idx) => iface_idx,
        None => {
            return actions;
        },
    };
    let ghost before = instance.interfaces@;
    if let Some(iface) = instance.interfaces.get_mut(&iface_idx) {
        let ghost f = iface@;
        mark_all_down(&mut iface.adjacencies, iface_idx, &sess_key, &mut actions);
        proof {
            views_insert(before, iface_idx, *iface);
            assert(acts(actions@) =~= bfd_actions(iface_idx, f.adjacencies, sess_key@));
        }
    }
    push(&mut actions, Action::LspOriginate(instance.config.level_type));
    actions
}

// ===== keychains =====

/// Whether the authentication uses the keychain.
pub open spec fn uses_keychain(c: AuthCfgView, name: Seq<char>) -> bool {
    c.keychain == Some(name)
}

/// An interface, after a keychain was updated.
pub open spec fn keychain_in_force(
    f: InterfaceView,
    keychains: Map<Seq<char>, Arc<Keychain>>,
    name: Seq<char>,
) -> InterfaceView {
    if uses_keychain(f.config.hello_auth.all, name) {
        auth_in_force(f, keychains)
    } else {
        f
    }
}

fn same_name(a: &Option<String>, name: &String) -> (b: bool)
    ensures
        b == (opt_text(*a) == Some(name@)),
{
    match a {
        Some(a) => *a == *name,
        None => false,
    }
}

fn update_hello_auth(
    interfaces: &mut Table<InterfaceIndex, Interface>,
    keychains: &Table<String, Arc<Keychain>>,
    name: &String,
)
    ensures
        views(final(interfaces)@) == Map::new(
            |k: InterfaceIndex| views(old(interfaces)@).contains_key(k),
            |k: InterfaceIndex| keychain_in_force(views(old(interfaces)@)[k], keychains@, name@),
        ),
{
    let ghost m = interfaces@;
    let ghost keys = interfaces.keys();
    let n: usize = interfaces.len();
    proof {
        ascending(*interfaces);
    }
    let mut j: usize = 0;
    while j < n
        invariant
            j <= n,
            n == keys.len(),
            interfaces.keys() == keys,
            interfaces@.dom() == m.dom(),
            forall|a: int, b: int| 0 <= a < b < keys.len() ==> #[trigger] keys[a] < #[trigger] keys[b],
            forall|x: int| 0 <= x < keys.len() ==> m.contains_key(#[trigger] keys[x]),
            forall|x: int|
                0 <= x < j ==> interfaces@[#[trigger] keys[x]]@ == keychain_in_force(m[keys[x]]@, keychains@, name@),
            forall|x: int| j <= x < n ==> interfaces@[#[trigger] keys[x]] == m[keys[x]],
        decreases n - j,
    {
        let iface = interfaces.value_at_mut(j);
        if same_name(&iface.config.hello_auth.all.keychain, name) {
            let auth = iface.config.hello_auth.all.method(keychains);
            iface.config.hello_auth_resolved = auth;
        }
        proof {
            assert(iface@ == keychain_in_force(m[keys[j as int]]@, keychains@, name@));
        }
        j = j + 1;
        assert(interfaces@.dom() =~= m.dom());
    }
    proof {
        assert forall|k: InterfaceIndex| #[trigger] m.contains_key(k) implies interfaces@[k]@ == keychain_in_force(
            m[k]@,
            keychains@,
            name@,
        ) by {
            let x = choose|x: int| 0 <= x < keys.len() && keys[x] == k;
            assert(interfaces@[keys[x]]@ == keychain_in_force(m[keys[x]]@, keychains@, name@));
        }
        assert(views(interfaces@) =~= Map::new(
            |k: InterfaceIndex| views(m).contains_key(k),
            |k: InterfaceIndex| keychain_in_force(views(m)[k], keychains@, name@),
        ));
    }
}

/// Puts an updated keychain in force wherever it is used.
pub fn process_keychain_update(instance: &mut Instance, keychain_name: String) -> (actions: Vec<Action>)
    ensures
        ({
            let i = old(instance)@;
            let used = uses_keychain(i.config.auth.all, keychain_name@);
            &&& final(instance)@ == (InstanceView {
                config: if used {
                    InstanceCfgView { auth_resolved: i.config.auth.all.auth(i.keychains), ..i.config }
                } else {
                    i.config
                },
                interfaces: Map::new(
                    |k: InterfaceIndex| i.interfaces.contains_key(k),
                    |k: InterfaceIndex| keychain_in_force(i.interfaces[k], i.keychains, keychain_name@),
                ),
                ..i
            })
            &&& acts(actions@) == originate(used && i.up, i.config.level_type)
        }),
{
    // Update global auth if it uses this keychain.
    let used = same_name(&instance.config.auth.all.keychain, &keychain_name);
    if used {
        let auth = instance.config.auth.all.method(&instance.keychains);
        instance.config.auth_resolved = auth;
    }

    // Update hello auth on each interface that uses this keychain.
    update_hello_auth(&mut instance.interfaces, &instance.keychains, &keychain_name);

    // Schedule LSP reorigination to encode with the new key.
    lsp_origination(used && instance.up, instance.config.level_type)
}

// ===== laws =====

/// A delete for one protocol never removes the route of another one.
pub proof fn delete_keeps_other_protocols(i: InstanceView, msg: RouteKeyMsg, level: LevelNumber, at: LevelNumber)
    requires
        i.system.routes(level).contains_key(msg.prefix),
        i.system.routes(level)[msg.prefix].protocol != msg.protocol,
    ensures
        route_deleted(i, msg, at).system.routes(level) == i.system.routes(level),
{
}

/// When the best route to a prefix changes its protocol, the add for the new
/// one followed by the delete for the old one leaves the new one.
pub proof fn protocol_change_keeps_new_route(i: InstanceView, add: RouteMsg, del: RouteKeyMsg, level: LevelNumber)
    requires
        add.prefix == del.prefix,
        add.protocol != del.protocol,
        redistributes(i.config, add.prefix, add.protocol, level),
    ensures
        ({
            let r = route_deleted(route_added(i, add, level), del, level).system.routes(level);
            r.contains_key(add.prefix) && r[add.prefix].protocol == add.protocol
        }),
{
}

/// A delete for the protocol of the route undoes the add.
pub proof fn delete_undoes_add(i: InstanceView, add: RouteMsg, del: RouteKeyMsg, level: LevelNumber)
    requires
        add.prefix == del.prefix,
        add.protocol == del.protocol,
        !i.system.routes(level).contains_key(add.prefix),
    ensures
        route_deleted(route_added(i, add, level), del, level).system.routes(level) == i.system.routes(level),
{
    assert(i.system.routes(level).insert(
        add.prefix,
        RouteSys { protocol: add.protocol, metric: add.metric, tag: add.tag, opaque_attrs: add.opaque_attrs },
    ).remove(add.prefix) =~= i.system.routes(level));
}

} // verus!
