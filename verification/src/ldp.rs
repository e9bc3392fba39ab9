//! Configuration of LDP.

use vstd::prelude::*;

use crate::collections::{
    ascending, flat_map, flat_map_step, push_text_code, text_code, text_code_injective, views, views_insert,
    views_remove, Key,
    OrdSet, Table,
};
use crate::ip::{AddressFamily, IpAddr, Ipv4Addr};
use crate::northbound::configuration::ConfigOp;
use crate::northbound::error::ApplyError;
use crate::text::{dup_text, opt_text};

verus! {

/// Identifies an interface for as long as it is configured.
pub type InterfaceIndex = u32;

/// Identifies a targeted neighbor for as long as it exists.
pub type TargetedNbrIndex = u32;

/// Resources that changes need: none, so none can be made.
#[derive(Debug)]
pub struct Resource(());

/// What is to be done once the configuration is fully updated, in this order.
pub enum Event {
    InstanceUpdate,
    InterfaceUpdate(InterfaceIndex),
    InterfaceDelete(InterfaceIndex),
    InterfaceIbusSub(String),
    TargetedNbrUpdate(TargetedNbrIndex),
    TargetedNbrRemoveCheck(TargetedNbrIndex),
    TargetedNbrRemoveDynamic,
    StopInitBackoff,
    ResetNeighbors,
    ResetNeighbor(Ipv4Addr),
    UpdateNeighborsAuth,
    UpdateNeighborAuth(Ipv4Addr),
    CfgSeqNumberUpdate,
}

pub enum EventView {
    InstanceUpdate,
    InterfaceUpdate(InterfaceIndex),
    InterfaceDelete(InterfaceIndex),
    InterfaceIbusSub(Seq<char>),
    TargetedNbrUpdate(TargetedNbrIndex),
    TargetedNbrRemoveCheck(TargetedNbrIndex),
    TargetedNbrRemoveDynamic,
    StopInitBackoff,
    ResetNeighbors,
    ResetNeighbor(Ipv4Addr),
    UpdateNeighborsAuth,
    UpdateNeighborAuth(Ipv4Addr),
    CfgSeqNumberUpdate,
}

impl View for Event {
    type V = EventView;

    open spec fn view(&self) -> EventView {
        match *self {
            Event::InstanceUpdate => EventView::InstanceUpdate,
            Event::InterfaceUpdate(a) => EventView::InterfaceUpdate(a),
            Event::InterfaceDelete(a) => EventView::InterfaceDelete(a),
            Event::InterfaceIbusSub(a) => EventView::InterfaceIbusSub(a@),
            Event::TargetedNbrUpdate(a) => EventView::TargetedNbrUpdate(a),
            Event::TargetedNbrRemoveCheck(a) => EventView::TargetedNbrRemoveCheck(a),
            Event::TargetedNbrRemoveDynamic => EventView::TargetedNbrRemoveDynamic,
            Event::StopInitBackoff => EventView::StopInitBackoff,
            Event::ResetNeighbors => EventView::ResetNeighbors,
            Event::ResetNeighbor(a) => EventView::ResetNeighbor(a),
            Event::UpdateNeighborsAuth => EventView::UpdateNeighborsAuth,
            Event::UpdateNeighborAuth(a) => EventView::UpdateNeighborAuth(a),
            Event::CfgSeqNumberUpdate => EventView::CfgSeqNumberUpdate,
        }
    }
}

impl EventView {
    pub open spec fn rank(self) -> u128 {
        match self {
            EventView::InstanceUpdate => 0,
            EventView::InterfaceUpdate(..) => 1,
            EventView::InterfaceDelete(..) => 2,
            EventView::InterfaceIbusSub(..) => 3,
            EventView::TargetedNbrUpdate(..) => 4,
            EventView::TargetedNbrRemoveCheck(..) => 5,
            EventView::TargetedNbrRemoveDynamic => 6,
            EventView::StopInitBackoff => 7,
            EventView::ResetNeighbors => 8,
            EventView::ResetNeighbor(..) => 9,
            EventView::UpdateNeighborsAuth => 10,
            EventView::UpdateNeighborAuth(..) => 11,
            EventView::CfgSeqNumberUpdate => 12,
        }
    }

    /// The numbers by which events of the same kind are ordered.
    pub open spec fn arg(self, i: int) -> u128 {
        match self {
            EventView::InstanceUpdate => 0,
            EventView::InterfaceUpdate(a) => if i == 0 {
                a as u128
            } else {
                0
            },
            EventView::InterfaceDelete(a) => if i == 0 {
                a as u128
            } else {
                0
            },
            EventView::InterfaceIbusSub(..) => 0,
            EventView::TargetedNbrUpdate(a) => if i == 0 {
                a as u128
            } else {
                0
            },
            EventView::TargetedNbrRemoveCheck(a) => if i == 0 {
                a as u128
            } else {
                0
            },
            EventView::TargetedNbrRemoveDynamic => 0,
            EventView::StopInitBackoff => 0,
            EventView::ResetNeighbors => 0,
            EventView::ResetNeighbor(a) => if i == 0 {
                a as u128
            } else {
                0
            },
            EventView::UpdateNeighborsAuth => 0,
            EventView::UpdateNeighborAuth(a) => if i == 0 {
                a as u128
            } else {
                0
            },
            EventView::CfgSeqNumberUpdate => 0,
        }
    }

    pub open spec fn text(self) -> Seq<char> {
        match self {
            EventView::InstanceUpdate => Seq::empty(),
            EventView::InterfaceUpdate(..) => Seq::empty(),
            EventView::InterfaceDelete(..) => Seq::empty(),
            EventView::InterfaceIbusSub(a) => a,
            EventView::TargetedNbrUpdate(..) => Seq::empty(),
            EventView::TargetedNbrRemoveCheck(..) => Seq::empty(),
            EventView::TargetedNbrRemoveDynamic => Seq::empty(),
            EventView::StopInitBackoff => Seq::empty(),
            EventView::ResetNeighbors => Seq::empty(),
            EventView::ResetNeighbor(..) => Seq::empty(),
            EventView::UpdateNeighborsAuth => Seq::empty(),
            EventView::UpdateNeighborAuth(..) => Seq::empty(),
            EventView::CfgSeqNumberUpdate => Seq::empty(),
        }
    }
}

impl Key for Event {
    open spec fn code(v: EventView) -> Seq<u128> {
        seq![v.rank(), v.arg(0)] + text_code(v.text())
    }

    proof fn code_injective(a: EventView, b: EventView) {
        let (x, y) = (Self::code(a), Self::code(b));
        assert(x[0] == a.rank() && y[0] == b.rank());
        assert(x[1] == a.arg(0) && y[1] == b.arg(0));
        assert(x.skip(2) =~= text_code(a.text()));
        assert(y.skip(2) =~= text_code(b.text()));
        text_code_injective(a.text(), b.text());
    }

    fn to_code(&self) -> Vec<u128> {
        let c: Vec<u128> = match self {
            Event::InstanceUpdate => vec![0, 0],
            Event::InterfaceUpdate(a) => vec![1, *a as u128],
            Event::InterfaceDelete(a) => vec![2, *a as u128],
            Event::InterfaceIbusSub(_) => vec![3, 0],
            Event::TargetedNbrUpdate(a) => vec![4, *a as u128],
            Event::TargetedNbrRemoveCheck(a) => vec![5, *a as u128],
            Event::TargetedNbrRemoveDynamic => vec![6, 0],
            Event::StopInitBackoff => vec![7, 0],
            Event::ResetNeighbors => vec![8, 0],
            Event::ResetNeighbor(a) => vec![9, *a as u128],
            Event::UpdateNeighborsAuth => vec![10, 0],
            Event::UpdateNeighborAuth(a) => vec![11, *a as u128],
            Event::CfgSeqNumberUpdate => vec![12, 0],
        };
        let mut c = c;
        match self {
            Event::InterfaceIbusSub(a) => {
                push_text_code(&mut c, a);
            },
            _ => {},
        }
        assert(c@ =~= Self::code(self@));
        c
    }

    fn copy_key(&self) -> Event {
        match self {
            Event::InstanceUpdate => Event::InstanceUpdate,
            Event::InterfaceUpdate(a) => Event::InterfaceUpdate(*a),
            Event::InterfaceDelete(a) => Event::InterfaceDelete(*a),
            Event::InterfaceIbusSub(a) => Event::InterfaceIbusSub(a.clone()),
            Event::TargetedNbrUpdate(a) => Event::TargetedNbrUpdate(*a),
            Event::TargetedNbrRemoveCheck(a) => Event::TargetedNbrRemoveCheck(*a),
            Event::TargetedNbrRemoveDynamic => Event::TargetedNbrRemoveDynamic,
            Event::StopInitBackoff => Event::StopInitBackoff,
            Event::ResetNeighbors => Event::ResetNeighbors,
            Event::ResetNeighbor(a) => Event::ResetNeighbor(*a),
            Event::UpdateNeighborsAuth => Event::UpdateNeighborsAuth,
            Event::UpdateNeighborAuth(a) => Event::UpdateNeighborAuth(*a),
            Event::CfgSeqNumberUpdate => Event::CfgSeqNumberUpdate,
        }
    }
}

// ===== configuration structs =====

pub struct InstanceCfg {
    pub router_id: Option<Ipv4Addr>,
    pub session_ka_holdtime: u16,
    pub session_ka_interval: u16,
    pub password: Option<String>,
    pub interface_hello_holdtime: u16,
    pub interface_hello_interval: u16,
    pub targeted_hello_holdtime: u16,
    pub targeted_hello_interval: u16,
    pub targeted_hello_accept: bool,
    pub ipv4: Option<InstanceIpv4Cfg>,
    pub neighbors: Table<Ipv4Addr, NeighborCfg>,
}

#[derive(Clone, Copy, Debug, PartialEq, Eq, Structural)]
pub struct InstanceIpv4Cfg {
    pub enabled: bool,
}

#[derive(Clone, Copy, Debug, PartialEq, Eq, Structural)]
pub struct InterfaceCfg {
    pub hello_holdtime: u16,
    pub hello_interval: u16,
    pub ipv4: Option<InterfaceIpv4Cfg>,
}

#[derive(Clone, Copy, Debug, PartialEq, Eq, Structural)]
pub struct InterfaceIpv4Cfg {
    pub enabled: bool,
}

pub struct NeighborCfg {
    pub password: Option<String>,
}

#[derive(Clone, Copy, Debug, PartialEq, Eq, Structural)]
pub struct TargetedNbrCfg {
    pub enabled: bool,
    pub hello_holdtime: u16,
    pub hello_interval: u16,
}

pub struct InstanceCfgView {
    pub router_id: Option<Ipv4Addr>,
    pub session_ka_holdtime: u16,
    pub session_ka_interval: u16,
    pub password: Option<Seq<char>>,
    pub interface_hello_holdtime: u16,
    pub interface_hello_interval: u16,
    pub targeted_hello_holdtime: u16,
    pub targeted_hello_interval: u16,
    pub targeted_hello_accept: bool,
    pub ipv4: Option<InstanceIpv4Cfg>,
    pub neighbors: Map<Ipv4Addr, NeighborCfgView>,
}

impl View for InstanceCfg {
    type V = InstanceCfgView;

    open spec fn view(&self) -> InstanceCfgView {
        InstanceCfgView {
            router_id: self.router_id,
            session_ka_holdtime: self.session_ka_holdtime,
            session_ka_interval: self.session_ka_interval,
            password: opt_text(self.password),
            interface_hello_holdtime: self.interface_hello_holdtime,
            interface_hello_interval: self.interface_hello_interval,
            targeted_hello_holdtime: self.targeted_hello_holdtime,
            targeted_hello_interval: self.targeted_hello_interval,
            targeted_hello_accept: self.targeted_hello_accept,
            ipv4: self.ipv4,
            neighbors: views(self.neighbors@),
        }
    }
}

pub struct NeighborCfgView {
    pub password: Option<Seq<char>>,
}

impl View for NeighborCfg {
    type V = NeighborCfgView;

    open spec fn view(&self) -> NeighborCfgView {
        NeighborCfgView {
            password: opt_text(self.password),
        }
    }
}

pub struct Interface {
    pub name: String,
    pub config: InterfaceCfg,
    pub active: bool,
}

pub struct InterfaceView {
    pub name: Seq<char>,
    pub config: InterfaceCfg,
    pub active: bool,
}

impl View for Interface {
    type V = InterfaceView;

    open spec fn view(&self) -> InterfaceView {
        InterfaceView { name: self.name@, config: self.config, active: self.active }
    }
}

/// A neighbor that Hello messages are sent to directly.
#[derive(Clone, Copy, Debug, PartialEq, Eq, Structural)]
pub struct TargetedNbr {
    pub addr: IpAddr,
    pub config: TargetedNbrCfg,
    pub configured: bool,
    /// Whether the neighbor asked for targeted Hello messages itself.
    pub dynamic: bool,
    pub active: bool,
}

/// What the handling of configuration events reads of a neighbor.
#[derive(Clone, Copy, Debug, PartialEq, Eq, Structural)]
pub struct Neighbor {
    pub lsr_id: Ipv4Addr,
    pub trans_addr: IpAddr,
    /// Whether there is a session, in whatever state.
    pub existent: bool,
}

/// An LDP instance, as far as its configuration goes.
pub struct Instance {
    pub config: InstanceCfg,
    pub interfaces: Table<InterfaceIndex, Interface>,
    /// The index that the next new interface gets.
    pub next_interface: InterfaceIndex,
    pub tneighbors: Table<TargetedNbrIndex, TargetedNbr>,
    /// The index that the next new targeted neighbor gets.
    pub next_tneighbor: TargetedNbrIndex,
    pub neighbors: Vec<Neighbor>,
    /// Whether the instance is up.
    pub up: bool,
    /// Defaults of the schema.
    pub defaults: Defaults,
}

pub struct InstanceView {
    pub config: InstanceCfgView,
    pub interfaces: Map<InterfaceIndex, InterfaceView>,
    pub next_interface: InterfaceIndex,
    pub tneighbors: Map<TargetedNbrIndex, TargetedNbr>,
    pub next_tneighbor: TargetedNbrIndex,
    pub neighbors: Seq<Neighbor>,
    pub up: bool,
    pub defaults: Defaults,
}

impl View for Instance {
    type V = InstanceView;

    open spec fn view(&self) -> InstanceView {
        InstanceView {
            config: self.config@,
            interfaces: views(self.interfaces@),
            next_interface: self.next_interface,
            tneighbors: self.tneighbors@,
            next_tneighbor: self.next_tneighbor,
            neighbors: self.neighbors@,
            up: self.up,
            defaults: self.defaults,
        }
    }
}

// ===== configuration defaults =====

/// Default values that the schema gives.
#[derive(Clone, Copy, Debug, PartialEq, Eq, Structural)]
pub struct Defaults {
    pub session_ka_holdtime: u16,
    pub session_ka_interval: u16,
    pub interface_hello_holdtime: u16,
    pub interface_hello_interval: u16,
    pub targeted_hello_holdtime: u16,
    pub targeted_hello_interval: u16,
    pub targeted_hello_accept: bool,
    pub ipv4_enabled: bool,
    pub interface_ipv4_enabled: bool,
}

impl InstanceCfg {
    /// The values without any configuration.
    pub open spec fn initial(d: Defaults) -> InstanceCfgView {
        InstanceCfgView {
            router_id: None,
            session_ka_holdtime: d.session_ka_holdtime,
            session_ka_interval: d.session_ka_interval,
            password: None,
            interface_hello_holdtime: d.interface_hello_holdtime,
            interface_hello_interval: d.interface_hello_interval,
            targeted_hello_holdtime: d.targeted_hello_holdtime,
            targeted_hello_interval: d.targeted_hello_interval,
            targeted_hello_accept: d.targeted_hello_accept,
            ipv4: None,
            neighbors: Map::empty(),
        }
    }

    pub fn new(d: &Defaults) -> (r: InstanceCfg)
        ensures
            r@ == InstanceCfg::initial(*d),
    {
        let r = InstanceCfg {
            router_id: None,
            session_ka_holdtime: d.session_ka_holdtime,
            session_ka_interval: d.session_ka_interval,
            password: None,
            interface_hello_holdtime: d.interface_hello_holdtime,
            interface_hello_interval: d.interface_hello_interval,
            targeted_hello_holdtime: d.targeted_hello_holdtime,
            targeted_hello_interval: d.targeted_hello_interval,
            targeted_hello_accept: d.targeted_hello_accept,
            ipv4: None,
            neighbors: Table::new(),
        };
        assert(r@.neighbors =~= Map::empty());
        r
    }
}

impl InstanceIpv4Cfg {
    /// The values without any configuration.
    pub open spec fn initial(d: Defaults) -> InstanceIpv4Cfg {
        InstanceIpv4Cfg {
            enabled: d.ipv4_enabled,
        }
    }

    pub fn new(d: &Defaults) -> (r: InstanceIpv4Cfg)
        ensures
            r == InstanceIpv4Cfg::initial(*d),
    {
        InstanceIpv4Cfg {
            enabled: d.ipv4_enabled,
        }
    }
}

impl InterfaceCfg {
    /// The values without any configuration.
    pub open spec fn initial(d: Defaults) -> InterfaceCfg {
        InterfaceCfg {
            hello_holdtime: d.interface_hello_holdtime,
            hello_interval: d.interface_hello_interval,
            ipv4: None,
        }
    }

    pub fn new(d: &Defaults) -> (r: InterfaceCfg)
        ensures
            r == InterfaceCfg::initial(*d),
    {
        InterfaceCfg {
            hello_holdtime: d.interface_hello_holdtime,
            hello_interval: d.interface_hello_interval,
            ipv4: None,
        }
    }
}

impl InterfaceIpv4Cfg {
    /// The values without any configuration.
    pub open spec fn initial(d: Defaults) -> InterfaceIpv4Cfg {
        InterfaceIpv4Cfg {
            enabled: d.interface_ipv4_enabled,
        }
    }

    pub fn new(d: &Defaults) -> (r: InterfaceIpv4Cfg)
        ensures
            r == InterfaceIpv4Cfg::initial(*d),
    {
        InterfaceIpv4Cfg {
            enabled: d.interface_ipv4_enabled,
        }
    }
}

impl TargetedNbrCfg {
    /// The values without any configuration.
    pub open spec fn initial(d: Defaults) -> TargetedNbrCfg {
        TargetedNbrCfg {
            enabled: d.ipv4_enabled,
            hello_holdtime: d.targeted_hello_holdtime,
            hello_interval: d.targeted_hello_interval,
        }
    }

    pub fn new(d: &Defaults) -> (r: TargetedNbrCfg)
        ensures
            r == TargetedNbrCfg::initial(*d),
    {
        TargetedNbrCfg {
            enabled: d.ipv4_enabled,
            hello_holdtime: d.targeted_hello_holdtime,
            hello_interval: d.targeted_hello_interval,
        }
    }
}

// ===== changes =====

/// Change within an interface.
#[derive(Clone, Copy, Debug, PartialEq, Eq, Structural)]
pub enum InterfaceEntryChange {
    AddressFamiliesIpv4(ConfigOp),
    AddressFamiliesIpv4Enabled(bool),
}

/// Change of an interface.
#[derive(Clone, Copy, Debug, PartialEq, Eq, Structural)]
pub enum InterfaceChange {
    Create,
    Delete,
    Entry(InterfaceEntryChange),
}

/// Change of a targeted neighbor.
#[derive(Clone, Copy, Debug, PartialEq, Eq, Structural)]
pub enum TargetChange {
    Create,
    Delete,
    Enabled(bool),
}

/// Change within a peer.
pub enum PeerEntryChange {
    AuthenticationKey(Option<String>),
    AuthenticationCryptoAlgorithm(Option<String>),
    AddressFamiliesIpv4(ConfigOp),
}

/// Change of a peer.
pub enum PeerChange {
    Create,
    Delete,
    Entry(PeerEntryChange),
}

/// Change of the configuration of an instance.
pub enum ConfigChange {
    GlobalLsrId(Option<Ipv4Addr>),
    GlobalAddressFamiliesIpv4(ConfigOp),
    GlobalAddressFamiliesIpv4Enabled(bool),
    DiscoveryInterfacesHelloHoldtime(u16),
    DiscoveryInterfacesHelloInterval(u16),
    DiscoveryInterfacesInterface(String, InterfaceChange),
    DiscoveryTargetedHelloHoldtime(u16),
    DiscoveryTargetedHelloInterval(u16),
    DiscoveryTargetedHelloAcceptEnabled(bool),
    DiscoveryTargetedAddressFamiliesIpv4(ConfigOp),
    DiscoveryTargetedAddressFamiliesIpv4Target(Ipv4Addr, TargetChange),
    PeersAuthenticationKey(Option<String>),
    PeersAuthenticationCryptoAlgorithm(Option<String>),
    PeersSessionKaHoldtime(u16),
    PeersSessionKaInterval(u16),
    PeersPeer(Ipv4Addr, PeerChange),
}

// ===== all interfaces and targeted neighbors =====

/// Which timer of the Hello messages is set.
#[derive(Clone, Copy, Debug, PartialEq, Eq, Structural)]
pub enum HelloTimer {
    Holdtime(u16),
    Interval(u16),
}

pub open spec fn iface_timer_set(f: InterfaceView, t: HelloTimer) -> InterfaceView {
    InterfaceView {
        config: match t {
            HelloTimer::Holdtime(hello_holdtime) => InterfaceCfg { hello_holdtime, ..f.config },
            HelloTimer::Interval(hello_interval) => InterfaceCfg { hello_interval, ..f.config },
        },
        ..f
    }
}

/// A timer is set on all interfaces.
pub open spec fn iface_timers_set(
    m: Map<InterfaceIndex, InterfaceView>,
    t: HelloTimer,
) -> Map<InterfaceIndex, InterfaceView> {
    Map::new(|k: InterfaceIndex| m.contains_key(k), |k: InterfaceIndex| iface_timer_set(m[k], t))
}

fn set_iface_timers(interfaces: &mut Table<InterfaceIndex, Interface>, t: HelloTimer)
    ensures
        views(final(interfaces)@) == iface_timers_set(views(old(interfaces)@), t),
{
    let ghost m = interfaces@;
    let ghost keys = interfaces.keys();
    let n: usize = interfaces.len();
    proof {
        ascending(*interfaces);
    }
    let mut j: usize = 0;
    while j < n
        invariant
            j <= n,
            n == keys.len(),
            interfaces.keys() == keys,
            interfaces@.dom() == m.dom(),
            forall|a: int, b: int| 0 <= a < b < keys.len() ==> #[trigger] keys[a] < #[trigger] keys[b],
            forall|x: int| 0 <= x < keys.len() ==> m.contains_key(#[trigger] keys[x]),
            forall|x: int| 0 <= x < j ==> interfaces@[#[trigger] keys[x]]@ == iface_timer_set(m[keys[x]]@, t),
            forall|x: int| j <= x < n ==> interfaces@[#[trigger] keys[x]] == m[keys[x]],
        decreases n - j,
    {
        let iface = interfaces.value_at_mut(j);
        match t {
            HelloTimer::Holdtime(hello_holdtime) => {
                iface.config.hello_holdtime = hello_holdtime;
            },
            HelloTimer::Interval(hello_interval) => {
                iface.config.hello_interval = hello_interval;
            },
        }
        proof {
            assert(iface@ == iface_timer_set(m[keys[j as int]]@, t));
        }
        j = j + 1;
        assert(interfaces@.dom() =~= m.dom());
    }
    proof {
        assert forall|k: InterfaceIndex| #[trigger] m.contains_key(k) implies interfaces@[k]@ == iface_timer_set(
            m[k]@,
            t,
        ) by {
            let x = choose|x: int| 0 <= x < keys.len() && keys[x] == k;
            assert(interfaces@[keys[x]]@ == iface_timer_set(m[keys[x]]@, t));
        }
        assert(views(interfaces@) =~= iface_timers_set(views(m), t));
    }
}

/// What is changed of all targeted neighbors.
#[derive(Clone, Copy, Debug, PartialEq, Eq, Structural)]
pub enum TargetUpdate {
    Timer(HelloTimer),
    /// They are no longer configured.
    Unconfigure,
    /// They no longer count as having asked for Hello messages.
    Forget,
}

pub open spec fn target_updated(t: TargetedNbr, u: TargetUpdate) -> TargetedNbr {
    match u {
        TargetUpdate::Timer(HelloTimer::Holdtime(hello_holdtime)) => TargetedNbr {
            config: TargetedNbrCfg { hello_holdtime, ..t.config },
            ..t
        },
        TargetUpdate::Timer(HelloTimer::Interval(hello_interval)) => TargetedNbr {
            config: TargetedNbrCfg { hello_interval, ..t.config },
            ..t
        },
        TargetUpdate::Unconfigure => TargetedNbr {
            config: TargetedNbrCfg { enabled: false, ..t.config },
            configured: false,
            ..t
        },
        TargetUpdate::Forget => TargetedNbr { dynamic: false, ..t },
    }
}

/// All targeted neighbors are changed.
pub open spec fn targets_updated(
    m: Map<TargetedNbrIndex, TargetedNbr>,
    u: TargetUpdate,
) -> Map<TargetedNbrIndex, TargetedNbr> {
    Map::new(|k: TargetedNbrIndex| m.contains_key(k), |k: TargetedNbrIndex| target_updated(m[k], u))
}

fn update_targets(tneighbors: &mut Table<TargetedNbrIndex, TargetedNbr>, u: TargetUpdate)
    ensures
        final(tneighbors)@ == targets_updated(old(tneighbors)@, u),
        final(tneighbors).keys() == old(tneighbors).keys(),
{
    let ghost m = tneighbors@;
    let ghost keys = tneighbors.keys();
    let n: usize = tneighbors.len();
    proof {
        ascending(*tneighbors);
    }
    let mut j: usize = 0;
    while j < n
        invariant
            j <= n,
            n == keys.len(),
            tneighbors.keys() == keys,
            tneighbors@.dom() == m.dom(),
            forall|a: int, b: int| 0 <= a < b < keys.len() ==> #[trigger] keys[a] < #[trigger] keys[b],
            forall|x: int| 0 <= x < keys.len() ==> m.contains_key(#[trigger] keys[x]),
            forall|x: int| 0 <= x < j ==> tneighbors@[#[trigger] keys[x]] == target_updated(m[keys[x]], u),
            forall|x: int| j <= x < n ==> tneighbors@[#[trigger] keys[x]] == m[keys[x]],
        decreases n - j,
    {
        let tnbr = tneighbors.value_at_mut(j);
        match u {
            TargetUpdate::Timer(HelloTimer::Holdtime(hello_holdtime)) => {
                tnbr.config.hello_holdtime = hello_holdtime;
            },
            TargetUpdate::Timer(HelloTimer::Interval(hello_interval)) => {
                tnbr.config.hello_interval = hello_interval;
            },
            TargetUpdate::Unconfigure => {
                tnbr.config.enabled = false;
                tnbr.configured = false;
            },
            TargetUpdate::Forget => {
                tnbr.dynamic = false;
            },
        }
        proof {
            assert(*tnbr == target_updated(m[keys[j as int]], u));
        }
        j = j + 1;
        assert(tneighbors@.dom() =~= m.dom());
    }
    proof {
        assert forall|k: TargetedNbrIndex| #[trigger] m.contains_key(k) implies tneighbors@[k] == target_updated(
            m[k],
            u,
        ) by {
            let x = choose|x: int| 0 <= x < keys.len() && keys[x] == k;
            assert(tneighbors@[keys[x]] == target_updated(m[keys[x]], u));
        }
        assert(tneighbors@ =~= targets_updated(m, u));
    }
}

/// The events queued when all targeted neighbors may go.
pub open spec fn remove_checks(q: Set<EventView>, m: Map<TargetedNbrIndex, TargetedNbr>) -> Set<EventView> {
    q.union(
        Set::new(|e: EventView| e matches EventView::TargetedNbrRemoveCheck(k) && m.contains_key(k)),
    )
}

fn queue_remove_checks(tneighbors: &Table<TargetedNbrIndex, TargetedNbr>, event_queue: &mut OrdSet<Event>)
    ensures
        final(event_queue)@ == remove_checks(old(event_queue)@, tneighbors@),
{
    let ghost q = event_queue@;
    let ghost keys = tneighbors.keys();
    let n: usize = tneighbors.len();
    let mut j: usize = 0;
    while j < n
        invariant
            j <= n,
            n == tneighbors.keys().len(),
            keys == tneighbors.keys(),
            forall|e: EventView| #[trigger]
                event_queue@.contains(e) <==> q.contains(e) || (e matches EventView::TargetedNbrRemoveCheck(k)
                    && keys.take(j as int).contains(k)),
        decreases n - j,
    {
        let k = *tneighbors.key_at(j);
        proof {
            assert(keys.take(j + 1) =~= keys.take(j as int).push(k));
            assert forall|y: u32| keys.take(j + 1).contains(y) <==> keys.take(j as int).contains(y) || y == k by {
                if keys.take(j as int).contains(y) {
                    let x = choose|x: int| 0 <= x < j && keys.take(j as int)[x] == y;
                    assert(keys.take(j + 1)[x] == y);
                }
                assert(keys.take(j + 1)[j as int] == k);
            }
        }
        event_queue.insert(Event::TargetedNbrRemoveCheck(k));
        j = j + 1;
    }
    proof {
        assert(keys.take(j as int) =~= keys);
        assert(tneighbors.keys_sorted());
        assert forall|k: u32| keys.contains(k) <==> tneighbors@.contains_key(k) by {
            assert(keys.to_set().contains(k) <==> keys.contains(k));
        }
        assert(event_queue@ =~= remove_checks(q, tneighbors@));
    }
}

// ===== lookup =====

/// Whether the entry is the first one of an interface of that name.
pub open spec fn first_named(m: Map<InterfaceIndex, InterfaceView>, name: Seq<char>, k: InterfaceIndex) -> bool {
    &&& m.contains_key(k)
    &&& m[k].name == name
    &&& forall|j: InterfaceIndex| #[trigger] m.contains_key(j) && j < k ==> m[j].name != name
}

/// The interface of that name.
pub open spec fn interface_named(m: Map<InterfaceIndex, InterfaceView>, name: Seq<char>) -> Option<InterfaceIndex> {
    if exists|k: InterfaceIndex| first_named(m, name, k) {
        Some(choose|k: InterfaceIndex| first_named(m, name, k))
    } else {
        None
    }
}

fn find_interface(interfaces: &Table<InterfaceIndex, Interface>, name: &String) -> (r: Option<InterfaceIndex>)
    ensures
        r == interface_named(views(interfaces@), name@),
        r matches Some(k) ==> interfaces@.contains_key(k),
{
    let ghost m = views(interfaces@);
    let ghost keys = interfaces.keys();
    let n: usize = interfaces.len();
    proof {
        ascending(*interfaces);
    }
    let mut i: usize = 0;
    while i < n
        invariant
            i <= n,
            n == interfaces.keys().len(),
            keys == interfaces.keys(),
            m == views(interfaces@),
            forall|a: int, b: int| 0 <= a < b < keys.len() ==> #[trigger] keys[a] < #[trigger] keys[b],
            forall|k: u32| #[trigger]
                interfaces@.contains_key(k) ==> exists|x: int| 0 <= x < keys.len() && keys[x] == k,
            forall|x: int| 0 <= x < i ==> interfaces@[#[trigger] keys[x]].name@ != name@,
        decreases n - i,
    {
        if interfaces.value_at(i).name == *name {
            let k = *interfaces.key_at(i);
            assert(first_named(m, name@, k)) by {
                assert forall|j: InterfaceIndex| #[trigger] m.contains_key(j) && j < k implies m[j].name != name@ by {
                    assert(interfaces@.contains_key(j));
                    let x = choose|x: int| 0 <= x < keys.len() && keys[x] == j;
                    if x > i {
                        assert(keys[i as int] < keys[x]);
                    }
                }
            }
            assert(interface_named(m, name@) == Some(k)) by {
                let c = choose|c: InterfaceIndex| first_named(m, name@, c);
                assert(first_named(m, name@, c));
                assert(m.contains_key(c) && m.contains_key(k));
            }
            return Some(k);
        }
        i = i + 1;
    }
    proof {
        assert forall|k: InterfaceIndex| !first_named(m, name@, k) by {
            if m.contains_key(k) {
                assert(interfaces@.contains_key(k));
                let x = choose|x: int| 0 <= x < keys.len() && keys[x] == k;
                assert(interfaces@[keys[x]].name@ != name@);
            }
        }
    }
    None
}

/// Whether the entry is the first one of a targeted neighbor with that address.
pub open spec fn first_target(m: Map<TargetedNbrIndex, TargetedNbr>, addr: IpAddr, k: TargetedNbrIndex) -> bool {
    &&& m.contains_key(k)
    &&& m[k].addr == addr
    &&& forall|j: TargetedNbrIndex| #[trigger] m.contains_key(j) && j < k ==> m[j].addr != addr
}

/// The targeted neighbor with that address.
pub open spec fn target_with(m: Map<TargetedNbrIndex, TargetedNbr>, addr: IpAddr) -> Option<TargetedNbrIndex> {
    if exists|k: TargetedNbrIndex| first_target(m, addr, k) {
        Some(choose|k: TargetedNbrIndex| first_target(m, addr, k))
    } else {
        None
    }
}

fn find_target(tneighbors: &Table<TargetedNbrIndex, TargetedNbr>, addr: IpAddr) -> (r: Option<TargetedNbrIndex>)
    ensures
        r == target_with(tneighbors@, addr),
        r matches Some(k) ==> tneighbors@.contains_key(k),
{
    let ghost m = tneighbors@;
    let ghost keys = tneighbors.keys();
    let n: usize = tneighbors.len();
    proof {
        ascending(*tneighbors);
    }
    let mut i: usize = 0;
    while i < n
        invariant
            i <= n,
            n == tneighbors.keys().len(),
            keys == tneighbors.keys(),
            m == tneighbors@,
            forall|a: int, b: int| 0 <= a < b < keys.len() ==> #[trigger] keys[a] < #[trigger] keys[b],
            forall|k: u32| #[trigger] m.contains_key(k) ==> exists|x: int| 0 <= x < keys.len() && keys[x] == k,
            forall|x: int| 0 <= x < i ==> m[#[trigger] keys[x]].addr != addr,
        decreases n - i,
    {
        if tneighbors.value_at(i).addr == addr {
            let k = *tneighbors.key_at(i);
            assert(first_target(m, addr, k)) by {
                assert forall|j: TargetedNbrIndex| #[trigger] m.contains_key(j) && j < k implies m[j].addr != addr by {
                    let x = choose|x: int| 0 <= x < keys.len() && keys[x] == j;
                    if x > i {
                        assert(keys[i as int] < keys[x]);
                    }
                }
            }
            assert(target_with(m, addr) == Some(k)) by {
                let c = choose|c: TargetedNbrIndex| first_target(m, addr, c);
                assert(first_target(m, addr, c));
                assert(m.contains_key(c) && m.contains_key(k));
            }
            return Some(k);
        }
        i = i + 1;
    }
    proof {
        assert forall|k: TargetedNbrIndex| !first_target(m, addr, k) by {
            if m.contains_key(k) {
                let x = choose|x: int| 0 <= x < keys.len() && keys[x] == k;
                assert(m[keys[x]].addr != addr);
            }
        }
    }
    None
}

// ===== interfaces =====

/// The configuration of an interface, after a change within it.
pub open spec fn interface_entry_changed(c: InterfaceCfg, d: Defaults, change: InterfaceEntryChange) -> InterfaceCfg {
    InterfaceCfg {
        ipv4: match change {
            InterfaceEntryChange::AddressFamiliesIpv4(ConfigOp::Create) => Some(InterfaceIpv4Cfg::initial(d)),
            InterfaceEntryChange::AddressFamiliesIpv4(ConfigOp::Delete) => None,
            InterfaceEntryChange::AddressFamiliesIpv4Enabled(enabled) => match c.ipv4 {
                Some(_) => Some(InterfaceIpv4Cfg { enabled }),
                None => None,
            },
        },
        ..c
    }
}

/// An instance and the queued events, after a change of one of its interfaces.
/// An interface that is to be deleted goes when the queued event is processed.
pub open spec fn interface_changed(
    i: InstanceView,
    q: Set<EventView>,
    name: Seq<char>,
    change: InterfaceChange,
) -> Option<
    (InstanceView, Set<EventView>),
> {
    match change {
        InterfaceChange::Create => Some(
            (
                InstanceView {
                    interfaces: i.interfaces.insert(
                        i.next_interface,
                        InterfaceView { name, config: InterfaceCfg::initial(i.defaults), active: false },
                    ),
                    next_interface: (i.next_interface + 1) as InterfaceIndex,
                    ..i
                },
                q.insert(EventView::InterfaceUpdate(i.next_interface)).insert(
                    EventView::InterfaceIbusSub(name),
                ).insert(EventView::CfgSeqNumberUpdate),
            ),
        ),
        InterfaceChange::Delete => match interface_named(i.interfaces, name) {
            Some(k) => Some((i, q.insert(EventView::InterfaceDelete(k)).insert(EventView::CfgSeqNumberUpdate))),
            None => None,
        },
        InterfaceChange::Entry(change) => match interface_named(i.interfaces, name) {
            Some(k) => Some(
                (
                    InstanceView {
                        interfaces: i.interfaces.insert(
                            k,
                            InterfaceView {
                                config: interface_entry_changed(i.interfaces[k].config, i.defaults, change),
                                ..i.interfaces[k]
                            },
                        ),
                        ..i
                    },
                    q.insert(EventView::InterfaceUpdate(k)).insert(EventView::CfgSeqNumberUpdate),
                ),
            ),
            None => None,
        },
    }
}

fn apply_interface(
    instance: &mut Instance,
    ifname: String,
    change: InterfaceChange,
    event_queue: &mut OrdSet<Event>,
) -> (r: Result<(), ApplyError>)
    requires
        change is Create ==> old(instance).next_interface < InterfaceIndex::MAX,
    ensures
        match interface_changed(old(instance)@, old(event_queue)@, ifname@, change) {
            Some(s) => r is Ok && (final(instance)@, final(event_queue)@) == s,
            None => r == Err::<(), ApplyError>(ApplyError::EntryNotFound) && final(instance)@ == old(instance)@
                && final(event_queue)@ == old(event_queue)@,
        },
{
    let ghost before = instance.interfaces@;
    match change {
        InterfaceChange::Create => {
            let iface_idx = instance.next_interface;
            let iface = Interface {
                name: ifname.clone(),
                config: InterfaceCfg::new(&instance.defaults),
                active: false,
            };
            proof {
                views_insert(before, iface_idx, iface);
            }
            instance.interfaces.insert(iface_idx, iface);
            instance.next_interface = iface_idx + 1;
            event_queue.insert(Event::InterfaceUpdate(iface_idx));
            event_queue.insert(Event::InterfaceIbusSub(ifname));
        },
        InterfaceChange::Delete => {
            let iface_idx = match find_interface(&instance.interfaces, &ifname) {
                Some(iface_idx) => iface_idx,
                None => {
                    return Err(ApplyError::EntryNotFound);
                },
            };
            event_queue.insert(Event::InterfaceDelete(iface_idx));
        },
        InterfaceChange::Entry(change) => {
            let iface_idx = match find_interface(&instance.interfaces, &ifname) {
                Some(iface_idx) => iface_idx,
                None => {
                    return Err(ApplyError::EntryNotFound);
                },
            };
            let defaults = instance.defaults;
            if let Some(iface) = instance.interfaces.get_mut(&iface_idx) {
                match change {
                    InterfaceEntryChange::AddressFamiliesIpv4(op) => {
                        iface.config.ipv4 = match op {
                            ConfigOp::Create => Some(InterfaceIpv4Cfg::new(&defaults)),
                            ConfigOp::Delete => None,
                        };
                    },
                    InterfaceEntryChange::AddressFamiliesIpv4Enabled(enabled) => {
                        if iface.config.ipv4.is_some() {
                            iface.config.ipv4 = Some(InterfaceIpv4Cfg { enabled });
                        }
                    },
                }
                proof {
                    views_insert(before, iface_idx, *iface);
                }
            }
            event_queue.insert(Event::InterfaceUpdate(iface_idx));
        },
    }
    event_queue.insert(Event::CfgSeqNumberUpdate);
    Ok(())
}

// ===== targeted neighbors =====

/// An instance and the queued events, after a change of a targeted neighbor. A
/// neighbor that is there already is used.
pub open spec fn target_changed(i: InstanceView, q: Set<EventView>, addr: IpAddr, change: TargetChange) -> Option<
    (InstanceView, Set<EventView>),
> {
    let known = target_with(i.tneighbors, addr);
    match change {
        TargetChange::Create => {
            let k = match known {
                Some(k) => k,
                None => i.next_tneighbor,
            };
            let t = match known {
                Some(k) => i.tneighbors[k],
                None => TargetedNbr {
                    addr,
                    config: TargetedNbrCfg::initial(i.defaults),
                    configured: false,
                    dynamic: false,
                    active: false,
                },
            };
            Some(
                (
                    InstanceView {
                        tneighbors: i.tneighbors.insert(k, TargetedNbr { configured: true, ..t }),
                        next_tneighbor: if known is Some {
                            i.next_tneighbor
                        } else {
                            (i.next_tneighbor + 1) as TargetedNbrIndex
                        },
                        ..i
                    },
                    q.insert(EventView::TargetedNbrUpdate(k)).insert(EventView::CfgSeqNumberUpdate),
                ),
            )
        },
        TargetChange::Delete => match known {
            Some(k) => Some(
                (
                    InstanceView {
                        tneighbors: i.tneighbors.insert(k, TargetedNbr { configured: false, ..i.tneighbors[k] }),
                        ..i
                    },
                    q.insert(EventView::TargetedNbrRemoveCheck(k)).insert(EventView::CfgSeqNumberUpdate),
                ),
            ),
            None => None,
        },
        TargetChange::Enabled(enabled) => match known {
            Some(k) => {
                let t = i.tneighbors[k];
                Some(
                    (
                        InstanceView {
                            tneighbors: i.tneighbors.insert(
                                k,
                                TargetedNbr { config: TargetedNbrCfg { enabled, ..t.config }, ..t },
                            ),
                            ..i
                        },
                        q.insert(EventView::TargetedNbrUpdate(k)).insert(EventView::CfgSeqNumberUpdate),
                    ),
                )
            },
            None => None,
        },
    }
}

fn apply_target(
    instance: &mut Instance,
    addr: IpAddr,
    change: TargetChange,
    event_queue: &mut OrdSet<Event>,
) -> (r: Result<(), ApplyError>)
    requires
        change is Create ==> old(instance).next_tneighbor < TargetedNbrIndex::MAX,
    ensures
        match target_changed(old(instance)@, old(event_queue)@, addr, change) {
            Some(s) => r is Ok && (final(instance)@, final(event_queue)@) == s,
            None => r == Err::<(), ApplyError>(ApplyError::EntryNotFound) && final(instance)@ == old(instance)@
                && final(event_queue)@ == old(event_queue)@,
        },
{
    let known = find_target(&instance.tneighbors, addr);
    match change {
        TargetChange::Create => {
            let tnbr_idx = match known {
                Some(tnbr_idx) => tnbr_idx,
                None => {
                    let tnbr_idx = instance.next_tneighbor;
                    let tnbr = TargetedNbr {
                        addr,
                        config: TargetedNbrCfg::new(&instance.defaults),
                        configured: false,
                        dynamic: false,
                        active: false,
                    };
                    instance.tneighbors.insert(tnbr_idx, tnbr);
                    instance.next_tneighbor = tnbr_idx + 1;
                    tnbr_idx
                },
            };
            if let Some(tnbr) = instance.tneighbors.get_mut(&tnbr_idx) {
                tnbr.configured = true;
            }
            event_queue.insert(Event::TargetedNbrUpdate(tnbr_idx));
            event_queue.insert(Event::CfgSeqNumberUpdate);
            proof {
                let s = target_changed(old(instance)@, old(event_queue)@, addr, change)->0;
                assert(instance.tneighbors@ =~= s.0.tneighbors);
                assert(instance@ == s.0);
            }
            return Ok(());
        },
        TargetChange::Delete => {
            let tnbr_idx = match known {
                Some(tnbr_idx) => tnbr_idx,
                None => {
                    return Err(ApplyError::EntryNotFound);
                },
            };
            if let Some(tnbr) = instance.tneighbors.get_mut(&tnbr_idx) {
                tnbr.configured = false;
            }
            event_queue.insert(Event::TargetedNbrRemoveCheck(tnbr_idx));
        },
        TargetChange::Enabled(enabled) => {
            let tnbr_idx = match known {
                Some(tnbr_idx) => tnbr_idx,
                None => {
                    return Err(ApplyError::EntryNotFound);
                },
            };
            if let Some(tnbr) = instance.tneighbors.get_mut(&tnbr_idx) {
                tnbr.config.enabled = enabled;
            }
            event_queue.insert(Event::TargetedNbrUpdate(tnbr_idx));
        },
    }
    event_queue.insert(Event::CfgSeqNumberUpdate);
    Ok(())
}

// ===== peers =====

/// The configured peers and the queued events, after a change of one of them. A
/// change within one that does not exist cannot be applied. Only TCP MD5 is
/// supported at the moment.
pub open spec fn peers_changed(
    peers: Map<Ipv4Addr, NeighborCfgView>,
    q: Set<EventView>,
    lsr_id: Ipv4Addr,
    change: PeerChange,
) -> Option<(Map<Ipv4Addr, NeighborCfgView>, Set<EventView>)> {
    match change {
        PeerChange::Create => Some((peers.insert(lsr_id, NeighborCfgView { password: None }), q)),
        PeerChange::Delete => Some((peers.remove(lsr_id), q)),
        PeerChange::Entry(change) => if peers.contains_key(lsr_id) {
            match change {
                PeerEntryChange::AuthenticationKey(password) => Some(
                    (
                        peers.insert(lsr_id, NeighborCfgView { password: opt_text(password) }),
                        q.insert(EventView::ResetNeighbor(lsr_id)).insert(
                            EventView::UpdateNeighborAuth(lsr_id),
                        ).insert(EventView::CfgSeqNumberUpdate),
                    ),
                ),
                _ => Some((peers, q)),
            }
        } else {
            None
        },
    }
}

fn apply_peer(
    peers: &mut Table<Ipv4Addr, NeighborCfg>,
    lsr_id: Ipv4Addr,
    change: PeerChange,
    event_queue: &mut OrdSet<Event>,
) -> (r: Result<(), ApplyError>)
    ensures
        match peers_changed(views(old(peers)@), old(event_queue)@, lsr_id, change) {
            Some(s) => r is Ok && (views(final(peers)@), final(event_queue)@) == s,
            None => r == Err::<(), ApplyError>(ApplyError::EntryNotFound) && views(final(peers)@) == views(
                old(peers)@,
            ) && final(event_queue)@ == old(event_queue)@,
        },
{
    let ghost before = peers@;
    match change {
        PeerChange::Create => {
            let peer = NeighborCfg { password: None };
            proof {
                views_insert(before, lsr_id, peer);
            }
            peers.insert(lsr_id, peer);
        },
        PeerChange::Delete => {
            peers.remove(&lsr_id);
            proof {
                views_remove(before, lsr_id);
            }
        },
        PeerChange::Entry(change) => {
            let peer = match peers.get_mut(&lsr_id) {
                Some(peer) => peer,
                None => {
                    return Err(ApplyError::EntryNotFound);
                },
            };
            let ghost p0 = *peer;
            match change {
                PeerEntryChange::AuthenticationKey(password) => {
                    peer.password = password;
                    event_queue.insert(Event::ResetNeighbor(lsr_id));
                    event_queue.insert(Event::UpdateNeighborAuth(lsr_id));
                    event_queue.insert(Event::CfgSeqNumberUpdate);
                },
                // Nothing to do.
                _ => {},
            }
            proof {
                views_insert(before, lsr_id, *peer);
                assert(views(before).insert(lsr_id, p0@) =~= views(before));
            }
        },
    }
    Ok(())
}

// ===== instance =====

/// An instance and the queued events, after a change of the configuration.
/// Changes of entries that do not exist cannot be applied. When targeted
/// discovery is deleted as a whole, its neighbors are no longer configured.
pub open spec fn instance_changed(i: InstanceView, q: Set<EventView>, change: ConfigChange) -> Option<
    (InstanceView, Set<EventView>),
> {
    let c = i.config;
    let seq = EventView::CfgSeqNumberUpdate;
    match change {
        ConfigChange::GlobalLsrId(router_id) => Some(
            (
                InstanceView { config: InstanceCfgView { router_id, ..c }, ..i },
                q.insert(EventView::InstanceUpdate).insert(EventView::ResetNeighbors).insert(seq),
            ),
        ),
        ConfigChange::GlobalAddressFamiliesIpv4(ConfigOp::Create) => Some(
            (
                InstanceView {
                    config: InstanceCfgView { ipv4: Some(InstanceIpv4Cfg::initial(i.defaults)), ..c },
                    ..i
                },
                q.insert(seq).insert(EventView::InstanceUpdate),
            ),
        ),
        ConfigChange::GlobalAddressFamiliesIpv4(ConfigOp::Delete) => Some(
            (
                InstanceView { config: InstanceCfgView { ipv4: None, ..c }, ..i },
                q.insert(EventView::InstanceUpdate),
            ),
        ),
        ConfigChange::GlobalAddressFamiliesIpv4Enabled(enabled) => Some(
            (
                InstanceView {
                    config: InstanceCfgView {
                        ipv4: match c.ipv4 {
                            Some(_) => Some(InstanceIpv4Cfg { enabled }),
                            None => None,
                        },
                        ..c
                    },
                    ..i
                },
                q.insert(EventView::InstanceUpdate).insert(seq),
            ),
        ),
        ConfigChange::DiscoveryInterfacesHelloHoldtime(hello_holdtime) => Some(
            (
                InstanceView {
                    config: InstanceCfgView { interface_hello_holdtime: hello_holdtime, ..c },
                    interfaces: iface_timers_set(i.interfaces, HelloTimer::Holdtime(hello_holdtime)),
                    ..i
                },
                q.insert(seq),
            ),
        ),
        ConfigChange::DiscoveryInterfacesHelloInterval(hello_interval) => Some(
            (
                InstanceView {
                    config: InstanceCfgView { interface_hello_interval: hello_interval, ..c },
                    interfaces: iface_timers_set(i.interfaces, HelloTimer::Interval(hello_interval)),
                    ..i
                },
                q.insert(seq),
            ),
        ),
        ConfigChange::DiscoveryInterfacesInterface(name, change) => interface_changed(i, q, name@, change),
        ConfigChange::DiscoveryTargetedHelloHoldtime(hello_holdtime) => Some(
            (
                InstanceView {
                    config: InstanceCfgView { targeted_hello_holdtime: hello_holdtime, ..c },
                    tneighbors: targets_updated(
                        i.tneighbors,
                        TargetUpdate::Timer(HelloTimer::Holdtime(hello_holdtime)),
                    ),
                    ..i
                },
                q.insert(seq),
            ),
        ),
        ConfigChange::DiscoveryTargetedHelloInterval(hello_interval) => Some(
            (
                InstanceView {
                    config: InstanceCfgView { targeted_hello_interval: hello_interval, ..c },
                    tneighbors: targets_updated(
                        i.tneighbors,
                        TargetUpdate::Timer(HelloTimer::Interval(hello_interval)),
                    ),
                    ..i
                },
                q.insert(seq),
            ),
        ),
        ConfigChange::DiscoveryTargetedHelloAcceptEnabled(enabled) => Some(
            (
                InstanceView { config: InstanceCfgView { targeted_hello_accept: enabled, ..c }, ..i },
                (if enabled {
                    q
                } else {
                    q.insert(EventView::TargetedNbrRemoveDynamic)
                }).insert(seq),
            ),
        ),
        ConfigChange::DiscoveryTargetedAddressFamiliesIpv4(ConfigOp::Create) => Some((i, q)),
        ConfigChange::DiscoveryTargetedAddressFamiliesIpv4(ConfigOp::Delete) => Some(
            (
                InstanceView { tneighbors: targets_updated(i.tneighbors, TargetUpdate::Unconfigure), ..i },
                remove_checks(q, i.tneighbors).insert(seq),
            ),
        ),
        ConfigChange::DiscoveryTargetedAddressFamiliesIpv4Target(addr, change) => target_changed(
            i,
            q,
            IpAddr::V4(addr),
            change,
        ),
        ConfigChange::PeersAuthenticationKey(password) => Some(
            (
                InstanceView { config: InstanceCfgView { password: opt_text(password), ..c }, ..i },
                q.insert(EventView::ResetNeighbors).insert(EventView::UpdateNeighborsAuth).insert(seq),
            ),
        ),
        ConfigChange::PeersAuthenticationCryptoAlgorithm(_) => Some((i, q)),
        ConfigChange::PeersSessionKaHoldtime(session_ka_holdtime) => Some(
            (
                InstanceView { config: InstanceCfgView { session_ka_holdtime, ..c }, ..i },
                q.insert(EventView::StopInitBackoff).insert(seq),
            ),
        ),
        ConfigChange::PeersSessionKaInterval(session_ka_interval) => Some(
            (InstanceView { config: InstanceCfgView { session_ka_interval, ..c }, ..i }, q.insert(seq)),
        ),
        ConfigChange::PeersPeer(lsr_id, change) => match peers_changed(c.neighbors, q, lsr_id, change) {
            Some(r) => Some((InstanceView { config: InstanceCfgView { neighbors: r.0, ..c }, ..i }, r.1)),
            None => None,
        },
    }
}

/// Whether there is an index left for what a change creates.
pub open spec fn index_left(i: InstanceView, change: ConfigChange) -> bool {
    match change {
        ConfigChange::DiscoveryInterfacesInterface(_, InterfaceChange::Create) => i.next_interface
            < InterfaceIndex::MAX,
        ConfigChange::DiscoveryTargetedAddressFamiliesIpv4Target(_, TargetChange::Create) => i.next_tneighbor
            < TargetedNbrIndex::MAX,
        _ => true,
    }
}

/// Applies a change of the configuration, and queues what is to be done about
/// it.
#[verifier::rlimit(100)]
pub fn apply_instance(instance: &mut Instance, change: ConfigChange, event_queue: &mut OrdSet<Event>) -> (r: Result<
    (),
    ApplyError,
>)
    requires
        index_left(old(instance)@, change),
    ensures
        match instance_changed(old(instance)@, old(event_queue)@, change) {
            Some(s) => r is Ok && (final(instance)@, final(event_queue)@) == s,
            None => r == Err::<(), ApplyError>(ApplyError::EntryNotFound) && final(instance)@ == old(instance)@
                && final(event_queue)@ == old(event_queue)@,
        },
{
    match change {
        ConfigChange::GlobalLsrId(router_id) => {
            instance.config.router_id = router_id;
            event_queue.insert(Event::InstanceUpdate);
            event_queue.insert(Event::ResetNeighbors);
            event_queue.insert(Event::CfgSeqNumberUpdate);
        },
        ConfigChange::GlobalAddressFamiliesIpv4(op) => {
            match op {
                ConfigOp::Create => {
                    instance.config.ipv4 = Some(InstanceIpv4Cfg::new(&instance.defaults));
                    event_queue.insert(Event::CfgSeqNumberUpdate);
                },
                ConfigOp::Delete => {
                    instance.config.ipv4 = None;
                },
            }
            event_queue.insert(Event::InstanceUpdate);
        },
        ConfigChange::GlobalAddressFamiliesIpv4Enabled(enabled) => {
            if instance.config.ipv4.is_some() {
                instance.config.ipv4 = Some(InstanceIpv4Cfg { enabled });
            }
            event_queue.insert(Event::InstanceUpdate);
            event_queue.insert(Event::CfgSeqNumberUpdate);
        },
        ConfigChange::DiscoveryInterfacesHelloHoldtime(hello_holdtime) => {
            instance.config.interface_hello_holdtime = hello_holdtime;
            set_iface_timers(&mut instance.interfaces, HelloTimer::Holdtime(hello_holdtime));
            event_queue.insert(Event::CfgSeqNumberUpdate);
        },
        ConfigChange::DiscoveryInterfacesHelloInterval(hello_interval) => {
            instance.config.interface_hello_interval = hello_interval;
            set_iface_timers(&mut instance.interfaces, HelloTimer::Interval(hello_interval));
            event_queue.insert(Event::CfgSeqNumberUpdate);
        },
        ConfigChange::DiscoveryInterfacesInterface(name, change) => {
            return apply_interface(instance, name, change, event_queue);
        },
        ConfigChange::DiscoveryTargetedHelloHoldtime(hello_holdtime) => {
            instance.config.targeted_hello_holdtime = hello_holdtime;
            update_targets(&mut instance.tneighbors, TargetUpdate::Timer(HelloTimer::Holdtime(hello_holdtime)));
            event_queue.insert(Event::CfgSeqNumberUpdate);
        },
        ConfigChange::DiscoveryTargetedHelloInterval(hello_interval) => {
            instance.config.targeted_hello_interval = hello_interval;
            update_targets(&mut instance.tneighbors, TargetUpdate::Timer(HelloTimer::Interval(hello_interval)));
            event_queue.insert(Event::CfgSeqNumberUpdate);
        },
        ConfigChange::DiscoveryTargetedHelloAcceptEnabled(enabled) => {
            instance.config.targeted_hello_accept = enabled;
            if !enabled {
                event_queue.insert(Event::TargetedNbrRemoveDynamic);
            }
            event_queue.insert(Event::CfgSeqNumberUpdate);
        },
        ConfigChange::DiscoveryTargetedAddressFamiliesIpv4(op) => {
            if let ConfigOp::Delete = op {
                // The nested target entries don't receive individual delete
                // changes, so unmark them as configured here.
                queue_remove_checks(&instance.tneighbors, event_queue);
                update_targets(&mut instance.tneighbors, TargetUpdate::Unconfigure);
                event_queue.insert(Event::CfgSeqNumberUpdate);
            }
        },
        ConfigChange::DiscoveryTargetedAddressFamiliesIpv4Target(addr, change) => {
            return apply_target(instance, IpAddr::V4(addr), change, event_queue);
        },
        ConfigChange::PeersAuthenticationKey(password) => {
            instance.config.password = password;
            event_queue.insert(Event::ResetNeighbors);
            event_queue.insert(Event::UpdateNeighborsAuth);
            event_queue.insert(Event::CfgSeqNumberUpdate);
        },
        // Nothing to do (only TCP MD5 is supported at the moment).
        ConfigChange::PeersAuthenticationCryptoAlgorithm(_) => {},
        ConfigChange::PeersSessionKaHoldtime(holdtime) => {
            instance.config.session_ka_holdtime = holdtime;
            event_queue.insert(Event::StopInitBackoff);
            event_queue.insert(Event::CfgSeqNumberUpdate);
        },
        ConfigChange::PeersSessionKaInterval(interval) => {
            instance.config.session_ka_interval = interval;
            event_queue.insert(Event::CfgSeqNumberUpdate);
        },
        ConfigChange::PeersPeer(lsr_id, change) => {
            return apply_peer(&mut instance.config.neighbors, lsr_id, change, event_queue);
        },
    }
    Ok(())
}

// ===== events =====

/// What the handling of an event leaves to be done.
pub enum Action {
    InstanceUpdate,
    InterfaceUpdate(InterfaceIndex),
    InterfaceUnsub(String),
    /// The interface stops for administrative reasons.
    InterfaceStop(InterfaceIndex),
    InterfaceSub(String, AddressFamily),
    TargetedNbrUpdate(TargetedNbrIndex),
    TargetedNbrStop(TargetedNbrIndex),
    BackoffStop(Ipv4Addr),
    /// Sends a Shutdown notification.
    ShutdownSend(Ipv4Addr),
    ConnectStop(Ipv4Addr),
    /// Sets the TCP MD5 password for packets from an address.
    Md5sigUpdate(IpAddr, Option<String>),
    CfgSeqNumberIncrement,
    InterfaceSyncHelloTx(InterfaceIndex),
    TargetedNbrSyncHelloTx(TargetedNbrIndex),
}

pub enum ActionView {
    InstanceUpdate,
    InterfaceUpdate(InterfaceIndex),
    InterfaceUnsub(Seq<char>),
    InterfaceStop(InterfaceIndex),
    InterfaceSub(Seq<char>, AddressFamily),
    TargetedNbrUpdate(TargetedNbrIndex),
    TargetedNbrStop(TargetedNbrIndex),
    BackoffStop(Ipv4Addr),
    ShutdownSend(Ipv4Addr),
    ConnectStop(Ipv4Addr),
    Md5sigUpdate(IpAddr, Option<Seq<char>>),
    CfgSeqNumberIncrement,
    InterfaceSyncHelloTx(InterfaceIndex),
    TargetedNbrSyncHelloTx(TargetedNbrIndex),
}

impl View for Action {
    type V = ActionView;

    open spec fn view(&self) -> ActionView {
        match *self {
            Action::InstanceUpdate => ActionView::InstanceUpdate,
            Action::InterfaceUpdate(k) => ActionView::InterfaceUpdate(k),
            Action::InterfaceUnsub(name) => ActionView::InterfaceUnsub(name@),
            Action::InterfaceStop(k) => ActionView::InterfaceStop(k),
            Action::InterfaceSub(name, af) => ActionView::InterfaceSub(name@, af),
            Action::TargetedNbrUpdate(k) => ActionView::TargetedNbrUpdate(k),
            Action::TargetedNbrStop(k) => ActionView::TargetedNbrStop(k),
            Action::BackoffStop(lsr_id) => ActionView::BackoffStop(lsr_id),
            Action::ShutdownSend(lsr_id) => ActionView::ShutdownSend(lsr_id),
            Action::ConnectStop(lsr_id) => ActionView::ConnectStop(lsr_id),
            Action::Md5sigUpdate(addr, password) => ActionView::Md5sigUpdate(addr, opt_text(password)),
            Action::CfgSeqNumberIncrement => ActionView::CfgSeqNumberIncrement,
            Action::InterfaceSyncHelloTx(k) => ActionView::InterfaceSyncHelloTx(k),
            Action::TargetedNbrSyncHelloTx(k) => ActionView::TargetedNbrSyncHelloTx(k),
        }
    }
}

pub open spec fn acts(s: Seq<Action>) -> Seq<ActionView> {
    Seq::new(s.len(), |j: int| s[j]@)
}

fn push(actions: &mut Vec<Action>, action: Action)
    ensures
        acts(final(actions)@) == acts(old(actions)@).push(action@),
{
    let ghost before = actions@;
    actions.push(action);
    assert(acts(actions@) =~= acts(before).push(action@));
}

fn nothing() -> (r: Vec<Action>)
    ensures
        acts(r@) == Seq::<ActionView>::empty(),
{
    let r: Vec<Action> = Vec::new();
    assert(acts(r@) =~= Seq::<ActionView>::empty());
    r
}

impl InstanceCfgView {
    /// The password for a neighbor: its own before that of the instance.
    pub open spec fn password_for(self, lsr_id: Ipv4Addr) -> Option<Seq<char>> {
        if self.neighbors.contains_key(lsr_id) && self.neighbors[lsr_id].password is Some {
            self.neighbors[lsr_id].password
        } else {
            self.password
        }
    }
}

impl InstanceCfg {
    pub fn get_neighbor_password(&self, lsr_id: Ipv4Addr) -> (r: Option<String>)
        ensures
            opt_text(r) == self@.password_for(lsr_id),
    {
        if let Some(nbr_cfg) = self.neighbors.get(&lsr_id) {
            if nbr_cfg.password.is_some() {
                return dup_text(&nbr_cfg.password);
            }
        }
        dup_text(&self.password)
    }
}

/// What is done about a neighbor.
#[derive(Clone, Copy, Debug, PartialEq, Eq, Structural)]
pub enum NeighborTask {
    StopBackoff,
    Reset,
    UpdateAuth,
}

pub open spec fn neighbor_actions(c: InstanceCfgView, what: NeighborTask, n: Neighbor) -> Seq<ActionView> {
    match what {
        NeighborTask::StopBackoff => seq![ActionView::BackoffStop(n.lsr_id)],
        NeighborTask::Reset => (if n.existent {
            seq![ActionView::ShutdownSend(n.lsr_id)]
        } else {
            Seq::empty()
        }).push(ActionView::ConnectStop(n.lsr_id)),
        NeighborTask::UpdateAuth => seq![ActionView::Md5sigUpdate(n.trans_addr, c.password_for(n.lsr_id))],
    }
}

fn push_neighbor(cfg: &InstanceCfg, what: NeighborTask, n: &Neighbor, actions: &mut Vec<Action>)
    ensures
        acts(final(actions)@) == acts(old(actions)@) + neighbor_actions(cfg@, what, *n),
{
    let ghost before = acts(actions@);
    match what {
        NeighborTask::StopBackoff => {
            push(actions, Action::BackoffStop(n.lsr_id));
        },
        NeighborTask::Reset => {
            // Send Shutdown notification.
            if n.existent {
                push(actions, Action::ShutdownSend(n.lsr_id));
            }

            // Stop the connection task.
            push(actions, Action::ConnectStop(n.lsr_id));
        },
        NeighborTask::UpdateAuth => {
            let password = cfg.get_neighbor_password(n.lsr_id);
            push(actions, Action::Md5sigUpdate(n.trans_addr, password));
        },
    }
    assert(acts(actions@) =~= before + neighbor_actions(cfg@, what, *n));
}

pub open spec fn neighbor_fn(c: InstanceCfgView, what: NeighborTask) -> spec_fn(Neighbor) -> Seq<ActionView> {
    |n: Neighbor| neighbor_actions(c, what, n)
}

fn all_neighbors(instance: &Instance, what: NeighborTask) -> (actions: Vec<Action>)
    ensures
        acts(actions@) == flat_map(instance@.neighbors, neighbor_fn(instance@.config, what)),
{
    let mut actions = nothing();
    let ghost s = instance.neighbors@;
    let ghost f = neighbor_fn(instance@.config, what);
    let mut j: usize = 0;
    assert(s.take(0) =~= Seq::empty());
    while j < instance.neighbors.len()
        invariant
            j <= s.len(),
            s == instance.neighbors@,
            f == neighbor_fn(instance@.config, what),
            acts(actions@) == flat_map(s.take(j as int), f),
        decreases s.len() - j,
    {
        proof {
            flat_map_step(s, j as int, f);
        }
        push_neighbor(&instance.config, what, &instance.neighbors[j], &mut actions);
        j = j + 1;
    }
    assert(s.take(j as int) =~= s);
    actions
}

/// What is done about the first neighbor with that LSR ID, if there is one.
pub open spec fn one_neighbor_actions(
    c: InstanceCfgView,
    s: Seq<Neighbor>,
    lsr_id: Ipv4Addr,
    what: NeighborTask,
) -> Seq<ActionView>
    decreases s.len(),
{
    if s.len() == 0 {
        Seq::empty()
    } else if s[0].lsr_id == lsr_id {
        neighbor_actions(c, what, s[0])
    } else {
        one_neighbor_actions(c, s.skip(1), lsr_id, what)
    }
}

fn one_neighbor(instance: &Instance, lsr_id: Ipv4Addr, what: NeighborTask) -> (actions: Vec<Action>)
    ensures
        acts(actions@) == one_neighbor_actions(instance@.config, instance@.neighbors, lsr_id, what),
{
    let mut actions = nothing();
    let ghost s = instance.neighbors@;
    let ghost c = instance@.config;
    let mut j: usize = 0;
    assert(s.skip(0) =~= s);
    while j < instance.neighbors.len()
        invariant
            j <= s.len(),
            s == instance.neighbors@,
            c == instance@.config,
            acts(actions@) == Seq::<ActionView>::empty(),
            one_neighbor_actions(c, s, lsr_id, what) == one_neighbor_actions(c, s.skip(j as int), lsr_id, what),
        decreases s.len() - j,
    {
        assert(s.skip(j as int)[0] == s[j as int]);
        assert(s.skip(j as int).skip(1) =~= s.skip(j + 1));
        if instance.neighbors[j].lsr_id == lsr_id {
            push_neighbor(&instance.config, what, &instance.neighbors[j], &mut actions);
            assert(acts(actions@) =~= neighbor_actions(c, what, s[j as int]));
            return actions;
        }
        j = j + 1;
    }
    actions
}

pub open spec fn target_update_fn() -> spec_fn(TargetedNbrIndex) -> Seq<ActionView> {
    |k: TargetedNbrIndex| seq![ActionView::TargetedNbrUpdate(k)]
}

fn update_all_targets(tneighbors: &Table<TargetedNbrIndex, TargetedNbr>) -> (actions: Vec<Action>)
    ensures
        acts(actions@) == flat_map(tneighbors.keys(), target_update_fn()),
{
    let mut actions = nothing();
    let ghost keys = tneighbors.keys();
    let ghost f = target_update_fn();
    let n: usize = tneighbors.len();
    let mut j: usize = 0;
    assert(keys.take(0) =~= Seq::empty());
    while j < n
        invariant
            j <= n,
            n == tneighbors.keys().len(),
            keys == tneighbors.keys(),
            f == target_update_fn(),
            acts(actions@) == flat_map(keys.take(j as int), f),
        decreases n - j,
    {
        proof {
            flat_map_step(keys, j as int, f);
        }
        push(&mut actions, Action::TargetedNbrUpdate(*tneighbors.key_at(j)));
        assert(acts(actions@) =~= flat_map(keys.take(j + 1), f));
        j = j + 1;
    }
    assert(keys.take(j as int) =~= keys);
    actions
}

pub open spec fn iface_sync_fn(m: Map<InterfaceIndex, InterfaceView>) -> spec_fn(InterfaceIndex) -> Seq<ActionView> {
    |k: InterfaceIndex|
        if m[k].active {
            seq![ActionView::InterfaceSyncHelloTx(k)]
        } else {
            Seq::empty()
        }
}

pub open spec fn target_sync_fn(m: Map<TargetedNbrIndex, TargetedNbr>) -> spec_fn(TargetedNbrIndex) -> Seq<ActionView> {
    |k: TargetedNbrIndex|
        if m[k].active {
            seq![ActionView::TargetedNbrSyncHelloTx(k)]
        } else {
            Seq::empty()
        }
}

/// What is done about a new sequence number of the configuration: Hello messages
/// of all that is active carry it.
pub open spec fn seqno_actions(i: Instance) -> Seq<ActionView> {
    seq![ActionView::CfgSeqNumberIncrement] + flat_map(i.interfaces.keys(), iface_sync_fn(i@.interfaces)) + flat_map(
        i.tneighbors.keys(),
        target_sync_fn(i@.tneighbors),
    )
}

fn update_seqno(instance: &Instance) -> (actions: Vec<Action>)
    ensures
        acts(actions@) == seqno_actions(*instance),
{
    let mut actions = nothing();
    push(&mut actions, Action::CfgSeqNumberIncrement);
    let ghost first = acts(actions@);

    // Synchronize interfaces.
    let ghost keys = instance.interfaces.keys();
    let ghost f = iface_sync_fn(instance@.interfaces);
    let n: usize = instance.interfaces.len();
    let mut j: usize = 0;
    assert(keys.take(0) =~= Seq::empty());
    assert(acts(actions@) =~= first + Seq::<ActionView>::empty());
    while j < n
        invariant
            j <= n,
            n == instance.interfaces.keys().len(),
            keys == instance.interfaces.keys(),
            f == iface_sync_fn(instance@.interfaces),
            acts(actions@) == first + flat_map(keys.take(j as int), f),
        decreases n - j,
    {
        proof {
            flat_map_step(keys, j as int, f);
        }
        if instance.interfaces.value_at(j).active {
            push(&mut actions, Action::InterfaceSyncHelloTx(*instance.interfaces.key_at(j)));
        }
        assert(acts(actions@) =~= first + flat_map(keys.take(j + 1), f));
        j = j + 1;
    }
    assert(keys.take(j as int) =~= keys);

    // Synchronize targeted neighbors.
    let ghost second = acts(actions@);
    let ghost tkeys = instance.tneighbors.keys();
    let ghost g = target_sync_fn(instance@.tneighbors);
    let m: usize = instance.tneighbors.len();
    let mut k: usize = 0;
    assert(tkeys.take(0) =~= Seq::empty());
    assert(acts(actions@) =~= second + Seq::<ActionView>::empty());
    while k < m
        invariant
            k <= m,
            m == instance.tneighbors.keys().len(),
            tkeys == instance.tneighbors.keys(),
            g == target_sync_fn(instance@.tneighbors),
            acts(actions@) == second + flat_map(tkeys.take(k as int), g),
        decreases m - k,
    {
        proof {
            flat_map_step(tkeys, k as int, g);
        }
        if instance.tneighbors.value_at(k).active {
            push(&mut actions, Action::TargetedNbrSyncHelloTx(*instance.tneighbors.key_at(k)));
        }
        assert(acts(actions@) =~= second + flat_map(tkeys.take(k + 1), g));
        k = k + 1;
    }
    assert(tkeys.take(k as int) =~= tkeys);
    assert(acts(actions@) =~= seqno_actions(*instance));
    actions
}

impl TargetedNbr {
    /// Whether nothing needs the targeted neighbor any more.
    pub open spec fn is_unused(self) -> bool {
        !self.configured && !self.dynamic
    }

    pub fn remove_check(&self) -> (b: bool)
        ensures
            b == self.is_unused(),
    {
        !self.configured && !self.dynamic
    }
}

/// Whether what the event speaks of exists, as far as it is looked at.
pub open spec fn event_valid(i: InstanceView, e: EventView) -> bool {
    match e {
        EventView::InterfaceUpdate(k) => i.up ==> i.interfaces.contains_key(k),
        EventView::InterfaceDelete(k) => i.interfaces.contains_key(k),
        EventView::TargetedNbrUpdate(k) => i.up ==> i.tneighbors.contains_key(k),
        EventView::TargetedNbrRemoveCheck(k) => i.tneighbors.contains_key(k),
        _ => true,
    }
}

/// What is done about an event when the instance is up.
pub open spec fn up_actions(i: Instance, e: EventView) -> Seq<ActionView> {
    match e {
        EventView::InterfaceUpdate(k) => seq![ActionView::InterfaceUpdate(k)],
        EventView::InterfaceDelete(k) => {
            let unsub = seq![ActionView::InterfaceUnsub(i@.interfaces[k].name)];
            if i@.interfaces[k].active {
                unsub.push(ActionView::InterfaceStop(k))
            } else {
                unsub
            }
        },
        EventView::InterfaceIbusSub(name) => seq![ActionView::InterfaceSub(name, AddressFamily::Ipv4)],
        EventView::TargetedNbrUpdate(k) => seq![ActionView::TargetedNbrUpdate(k)],
        EventView::TargetedNbrRemoveCheck(k) => if i@.tneighbors[k].is_unused() && i@.tneighbors[k].active {
            seq![ActionView::TargetedNbrStop(k)]
        } else {
            Seq::empty()
        },
        EventView::TargetedNbrRemoveDynamic => flat_map(i.tneighbors.keys(), target_update_fn()),
        EventView::StopInitBackoff => flat_map(
            i@.neighbors,
            neighbor_fn(i@.config, NeighborTask::StopBackoff),
        ),
        EventView::ResetNeighbors => flat_map(i@.neighbors, neighbor_fn(i@.config, NeighborTask::Reset)),
        EventView::ResetNeighbor(lsr_id) => one_neighbor_actions(
            i@.config,
            i@.neighbors,
            lsr_id,
            NeighborTask::Reset,
        ),
        EventView::UpdateNeighborsAuth => flat_map(
            i@.neighbors,
            neighbor_fn(i@.config, NeighborTask::UpdateAuth),
        ),
        EventView::UpdateNeighborAuth(lsr_id) => one_neighbor_actions(
            i@.config,
            i@.neighbors,
            lsr_id,
            NeighborTask::UpdateAuth,
        ),
        EventView::CfgSeqNumberUpdate => seqno_actions(i),
        EventView::InstanceUpdate => Seq::empty(),
    }
}

/// What remains to be done about an event, in order.
pub open spec fn event_actions(i: Instance, e: EventView) -> Seq<ActionView> {
    if e is InstanceUpdate {
        seq![ActionView::InstanceUpdate]
    } else if i.up {
        up_actions(i, e)
    } else {
        Seq::empty()
    }
}

/// An instance, after an event was processed.
pub open spec fn event_done(i: InstanceView, e: EventView) -> InstanceView {
    match e {
        EventView::InterfaceDelete(k) => InstanceView { interfaces: i.interfaces.remove(k), ..i },
        EventView::TargetedNbrRemoveCheck(k) => if i.tneighbors[k].is_unused() {
            InstanceView { tneighbors: i.tneighbors.remove(k), ..i }
        } else {
            i
        },
        EventView::TargetedNbrRemoveDynamic => if i.up {
            InstanceView { tneighbors: targets_updated(i.tneighbors, TargetUpdate::Forget), ..i }
        } else {
            i
        },
        _ => i,
    }
}

/// Processes a queued event. Returns what remains to be done about it, in
/// order.
#[verifier::rlimit(100)]
pub fn process_event(instance: &mut Instance, event: Event) -> (actions: Vec<Action>)
    requires
        event_valid(old(instance)@, event@),
    ensures
        acts(actions@) == event_actions(*old(instance), event@),
        final(instance)@ == event_done(old(instance)@, event@),
{
    let mut actions = nothing();
    let ghost i0 = *instance;
    let ghost m = instance.interfaces@;
    match event {
        Event::InstanceUpdate => {
            push(&mut actions, Action::InstanceUpdate);
        },
        Event::InterfaceUpdate(iface_idx) => {
            if instance.up {
                push(&mut actions, Action::InterfaceUpdate(iface_idx));
            }
        },
        Event::InterfaceDelete(iface_idx) => {
            if instance.up {
                if let Some(iface) = instance.interfaces.get(&iface_idx) {
                    // Cancel ibus subscription.
                    push(&mut actions, Action::InterfaceUnsub(iface.name.clone()));

                    // Stop interface if it's active.
                    if iface.active {
                        push(&mut actions, Action::InterfaceStop(iface_idx));
                    }
                }
            }
            instance.interfaces.remove(&iface_idx);
            proof {
                views_remove(m, iface_idx);
            }
        },
        Event::InterfaceIbusSub(ifname) => {
            if instance.up {
                push(&mut actions, Action::InterfaceSub(ifname, AddressFamily::Ipv4));
            }
        },
        Event::TargetedNbrUpdate(tnbr_idx) => {
            if instance.up {
                push(&mut actions, Action::TargetedNbrUpdate(tnbr_idx));
            }
        },
        Event::TargetedNbrRemoveCheck(tnbr_idx) => {
            let (unused, active) = match instance.tneighbors.get(&tnbr_idx) {
                Some(tnbr) => (tnbr.remove_check(), tnbr.active),
                None => (false, false),
            };
            if unused {
                // Stop targeted neighbor if it's active.
                if instance.up && active {
                    push(&mut actions, Action::TargetedNbrStop(tnbr_idx));
                }
                instance.tneighbors.remove(&tnbr_idx);
            }
        },
        Event::TargetedNbrRemoveDynamic => {
            if instance.up {
                actions = update_all_targets(&instance.tneighbors);
                update_targets(&mut instance.tneighbors, TargetUpdate::Forget);
            }
        },
        Event::StopInitBackoff => {
            if instance.up {
                return all_neighbors(instance, NeighborTask::StopBackoff);
            }
        },
        Event::ResetNeighbors => {
            if instance.up {
                return all_neighbors(instance, NeighborTask::Reset);
            }
        },
        Event::ResetNeighbor(lsr_id) => {
            if instance.up {
                return one_neighbor(instance, lsr_id, NeighborTask::Reset);
            }
        },
        Event::UpdateNeighborsAuth => {
            if instance.up {
                return all_neighbors(instance, NeighborTask::UpdateAuth);
            }
        },
        Event::UpdateNeighborAuth(lsr_id) => {
            if instance.up {
                return one_neighbor(instance, lsr_id, NeighborTask::UpdateAuth);
            }
        },
        Event::CfgSeqNumberUpdate => {
            if instance.up {
                return update_seqno(instance);
            }
        },
    }
    assert(acts(actions@) =~= event_actions(i0, event@));
    actions
}

// ===== laws =====

/// A timer that is set for all interfaces is in force on each of them.
pub proof fn hello_timers_reach_all(i: InstanceView, q: Set<EventView>, holdtime: u16, k: InterfaceIndex)
    requires
        i.interfaces.contains_key(k),
    ensures
        ({
            let r = (instance_changed(i, q, ConfigChange::DiscoveryInterfacesHelloHoldtime(holdtime))->0).0;
            &&& r.config.interface_hello_holdtime == holdtime
            &&& r.interfaces[k].config.hello_holdtime == holdtime
            &&& r.interfaces[k].config.hello_interval == i.interfaces[k].config.hello_interval
        }),
{
}

/// Once targeted discovery is deleted, each targeted neighbor that did not ask
/// for Hello messages itself goes when its event is processed.
pub proof fn targets_go_with_discovery(i: InstanceView, q: Set<EventView>, k: TargetedNbrIndex)
    requires
        i.tneighbors.contains_key(k),
        !i.tneighbors[k].dynamic,
    ensures
        ({
            let r = instance_changed(i, q, ConfigChange::DiscoveryTargetedAddressFamiliesIpv4(ConfigOp::Delete))->0;
            &&& r.1.contains(EventView::TargetedNbrRemoveCheck(k))
            &&& !event_done(r.0, EventView::TargetedNbrRemoveCheck(k)).tneighbors.contains_key(k)
        }),
{
}

/// A targeted neighbor that asked for Hello messages itself outlives its
/// configuration.
pub proof fn dynamic_targets_stay(i: InstanceView, q: Set<EventView>, addr: IpAddr, k: TargetedNbrIndex)
    requires
        target_with(i.tneighbors, addr) == Some(k),
        i.tneighbors[k].dynamic,
    ensures
        ({
            let r = target_changed(i, q, addr, TargetChange::Delete)->0;
            event_done(r.0, EventView::TargetedNbrRemoveCheck(k)).tneighbors.contains_key(k)
        }),
{
}

/// The password of a peer overrides that of the instance.
pub proof fn peer_password_overrides(c: InstanceCfgView, lsr_id: Ipv4Addr, password: Seq<char>)
    ensures
        (InstanceCfgView {
            neighbors: c.neighbors.insert(lsr_id, NeighborCfgView { password: Some(password) }),
            ..c
        }).password_for(lsr_id) == Some(password),
        (InstanceCfgView { neighbors: c.neighbors.remove(lsr_id), ..c }).password_for(lsr_id) == c.password,
{
}

/// Configuration starts out with the defaults of the schema and nothing else.
pub proof fn configuration_starts_out_with_defaults(d: Defaults)
    ensures
        ({
            let c = InstanceCfg::initial(d);
            &&& c.session_ka_holdtime == d.session_ka_holdtime && c.session_ka_interval == d.session_ka_interval
            &&& c.interface_hello_holdtime == d.interface_hello_holdtime
            &&& c.interface_hello_interval == d.interface_hello_interval
            &&& c.targeted_hello_holdtime == d.targeted_hello_holdtime
            &&& c.targeted_hello_interval == d.targeted_hello_interval
            &&& c.targeted_hello_accept == d.targeted_hello_accept
            &&& c.router_id is None && c.password is None && c.ipv4 is None
            &&& c.neighbors.dom() == Set::<Ipv4Addr>::empty()
        }),
        InterfaceCfg::initial(d).hello_holdtime == d.interface_hello_holdtime,
        InterfaceCfg::initial(d).hello_interval == d.interface_hello_interval,
        InterfaceCfg::initial(d).ipv4 is None,
        TargetedNbrCfg::initial(d).enabled == d.ipv4_enabled,
        TargetedNbrCfg::initial(d).hello_holdtime == d.targeted_hello_holdtime,
        TargetedNbrCfg::initial(d).hello_interval == d.targeted_hello_interval,
        InstanceIpv4Cfg::initial(d).enabled == d.ipv4_enabled,
        InterfaceIpv4Cfg::initial(d).enabled == d.interface_ipv4_enabled,
{
}

/// The leaves of the instance take the configured value, and no other one changes.
pub proof fn instance_leaves_take_their_value(
    i: InstanceView,
    q: Set<EventView>,
    router_id: Option<Ipv4Addr>,
    n: u16,
    enabled: bool,
    password: String,
)
    ensures
        instance_changed(i, q, ConfigChange::GlobalLsrId(router_id)) == Some(
            (
                InstanceView { config: InstanceCfgView { router_id, ..i.config }, ..i },
                q.insert(EventView::InstanceUpdate).insert(EventView::ResetNeighbors).insert(
                    EventView::CfgSeqNumberUpdate,
                ),
            ),
        ),
        instance_changed(i, q, ConfigChange::PeersSessionKaHoldtime(n)) == Some(
            (
                InstanceView { config: InstanceCfgView { session_ka_holdtime: n, ..i.config }, ..i },
                q.insert(EventView::StopInitBackoff).insert(EventView::CfgSeqNumberUpdate),
            ),
        ),
        instance_changed(i, q, ConfigChange::PeersSessionKaInterval(n)) == Some(
            (
                InstanceView { config: InstanceCfgView { session_ka_interval: n, ..i.config }, ..i },
                q.insert(EventView::CfgSeqNumberUpdate),
            ),
        ),
        instance_changed(i, q, ConfigChange::DiscoveryTargetedHelloAcceptEnabled(true)) == Some(
            (
                InstanceView { config: InstanceCfgView { targeted_hello_accept: true, ..i.config }, ..i },
                q.insert(EventView::CfgSeqNumberUpdate),
            ),
        ),
        instance_changed(i, q, ConfigChange::DiscoveryTargetedHelloAcceptEnabled(false)) == Some(
            (
                InstanceView { config: InstanceCfgView { targeted_hello_accept: false, ..i.config }, ..i },
                q.insert(EventView::TargetedNbrRemoveDynamic).insert(EventView::CfgSeqNumberUpdate),
            ),
        ),
        instance_changed(i, q, ConfigChange::PeersAuthenticationKey(Some(password))) == Some(
            (
                InstanceView { config: InstanceCfgView { password: Some(password@), ..i.config }, ..i },
                q.insert(EventView::ResetNeighbors).insert(EventView::UpdateNeighborsAuth).insert(
                    EventView::CfgSeqNumberUpdate,
                ),
            ),
        ),
        instance_changed(i, q, ConfigChange::PeersAuthenticationKey(None)) == Some(
            (
                InstanceView { config: InstanceCfgView { password: None, ..i.config }, ..i },
                q.insert(EventView::ResetNeighbors).insert(EventView::UpdateNeighborsAuth).insert(
                    EventView::CfgSeqNumberUpdate,
                ),
            ),
        ),
        instance_changed(i, q, ConfigChange::PeersAuthenticationCryptoAlgorithm(Some(password))) == Some((i, q)),
{
}

/// IPv4 comes with its default, takes the configured value once it is there, and goes
/// as a whole. The instance is to be updated each time.
pub proof fn ipv4_comes_and_goes(i: InstanceView, q: Set<EventView>, enabled: bool)
    ensures
        ({
            let r = instance_changed(i, q, ConfigChange::GlobalAddressFamiliesIpv4(ConfigOp::Create));
            let (j, p) = r->0;
            &&& r is Some && j.config.ipv4 == Some(InstanceIpv4Cfg { enabled: i.defaults.ipv4_enabled })
            &&& p.contains(EventView::InstanceUpdate)
            &&& j == (InstanceView { config: InstanceCfgView { ipv4: j.config.ipv4, ..i.config }, ..i })
        }),
        ({
            let r = instance_changed(i, q, ConfigChange::GlobalAddressFamiliesIpv4(ConfigOp::Delete));
            let (j, p) = r->0;
            &&& r is Some && j.config.ipv4 is None && p.contains(EventView::InstanceUpdate)
            &&& j == (InstanceView { config: InstanceCfgView { ipv4: None, ..i.config }, ..i })
        }),
        ({
            let r = instance_changed(i, q, ConfigChange::GlobalAddressFamiliesIpv4Enabled(enabled));
            let (j, p) = r->0;
            &&& r is Some && p.contains(EventView::InstanceUpdate)
            &&& i.config.ipv4 is Some ==> j.config.ipv4 == Some(InstanceIpv4Cfg { enabled })
            &&& i.config.ipv4 is None ==> j.config.ipv4 is None
            &&& j == (InstanceView { config: InstanceCfgView { ipv4: j.config.ipv4, ..i.config }, ..i })
        }),
{
}

/// Timers of Hello messages reach the instance and every interface or every targeted
/// neighbor, and change nothing else of them.
pub proof fn hello_timers_change_only_themselves(
    i: InstanceView,
    q: Set<EventView>,
    n: u16,
    k: InterfaceIndex,
    t: TargetedNbrIndex,
)
    requires
        i.interfaces.contains_key(k),
        i.tneighbors.contains_key(t),
    ensures
        ({
            let (j, p) = instance_changed(i, q, ConfigChange::DiscoveryInterfacesHelloHoldtime(n))->0;
            let f = i.interfaces[k];
            &&& j.config == (InstanceCfgView { interface_hello_holdtime: n, ..i.config })
            &&& j.interfaces[k] == (InterfaceView { config: InterfaceCfg { hello_holdtime: n, ..f.config }, ..f })
            &&& j.interfaces.dom() == i.interfaces.dom() && j.tneighbors == i.tneighbors
            &&& p == q.insert(EventView::CfgSeqNumberUpdate)
        }),
        ({
            let (j, p) = instance_changed(i, q, ConfigChange::DiscoveryInterfacesHelloInterval(n))->0;
            let f = i.interfaces[k];
            &&& j.config == (InstanceCfgView { interface_hello_interval: n, ..i.config })
            &&& j.interfaces[k] == (InterfaceView { config: InterfaceCfg { hello_interval: n, ..f.config }, ..f })
            &&& j.interfaces.dom() == i.interfaces.dom() && j.tneighbors == i.tneighbors
            &&& p == q.insert(EventView::CfgSeqNumberUpdate)
        }),
        ({
            let (j, p) = instance_changed(i, q, ConfigChange::DiscoveryTargetedHelloHoldtime(n))->0;
            let f = i.tneighbors[t];
            &&& j.config == (InstanceCfgView { targeted_hello_holdtime: n, ..i.config })
            &&& j.tneighbors[t] == (TargetedNbr { config: TargetedNbrCfg { hello_holdtime: n, ..f.config }, ..f })
            &&& j.tneighbors.dom() == i.tneighbors.dom() && j.interfaces == i.interfaces
            &&& p == q.insert(EventView::CfgSeqNumberUpdate)
        }),
        ({
            let (j, p) = instance_changed(i, q, ConfigChange::DiscoveryTargetedHelloInterval(n))->0;
            let f = i.tneighbors[t];
            &&& j.config == (InstanceCfgView { targeted_hello_interval: n, ..i.config })
            &&& j.tneighbors[t] == (TargetedNbr { config: TargetedNbrCfg { hello_interval: n, ..f.config }, ..f })
            &&& j.tneighbors.dom() == i.tneighbors.dom() && j.interfaces == i.interfaces
            &&& p == q.insert(EventView::CfgSeqNumberUpdate)
        }),
{
    let a = instance_changed(i, q, ConfigChange::DiscoveryInterfacesHelloHoldtime(n))->0;
    let b = instance_changed(i, q, ConfigChange::DiscoveryInterfacesHelloInterval(n))->0;
    let c = instance_changed(i, q, ConfigChange::DiscoveryTargetedHelloHoldtime(n))->0;
    let d = instance_changed(i, q, ConfigChange::DiscoveryTargetedHelloInterval(n))->0;
    assert(a.0.interfaces.dom() =~= i.interfaces.dom());
    assert(b.0.interfaces.dom() =~= i.interfaces.dom());
    assert(c.0.tneighbors.dom() =~= i.tneighbors.dom());
    assert(d.0.tneighbors.dom() =~= i.tneighbors.dom());
}

proof fn some_interface_is_first(m: Map<InterfaceIndex, InterfaceView>, name: Seq<char>, k: InterfaceIndex)
    requires
        m.contains_key(k),
        m[k].name == name,
    ensures
        exists|j: InterfaceIndex| first_named(m, name, j),
    decreases k,
{
    if !first_named(m, name, k) {
        let j = choose|j: InterfaceIndex| #[trigger] m.contains_key(j) && j < k && m[j].name == name;
        some_interface_is_first(m, name, j);
    }
}

proof fn some_target_is_first(m: Map<TargetedNbrIndex, TargetedNbr>, addr: IpAddr, k: TargetedNbrIndex)
    requires
        m.contains_key(k),
        m[k].addr == addr,
    ensures
        exists|j: TargetedNbrIndex| first_target(m, addr, j),
    decreases k,
{
    if !first_target(m, addr, k) {
        let j = choose|j: TargetedNbrIndex| #[trigger] m.contains_key(j) && j < k && m[j].addr == addr;
        some_target_is_first(m, addr, j);
    }
}

/// Interfaces are found by their name, and targeted neighbors by their address.
pub proof fn entries_are_found_by_their_key(i: InstanceView, name: Seq<char>, addr: IpAddr, k: u32)
    ensures
        i.interfaces.contains_key(k) && i.interfaces[k].name == name ==> interface_named(i.interfaces, name) is Some,
        interface_named(i.interfaces, name) matches Some(j) ==> i.interfaces.contains_key(j) && i.interfaces[j].name
            == name,
        i.tneighbors.contains_key(k) && i.tneighbors[k].addr == addr ==> target_with(i.tneighbors, addr) is Some,
        target_with(i.tneighbors, addr) matches Some(j) ==> i.tneighbors.contains_key(j) && i.tneighbors[j].addr
            == addr,
{
    if i.interfaces.contains_key(k) && i.interfaces[k].name == name {
        some_interface_is_first(i.interfaces, name, k);
    }
    if i.tneighbors.contains_key(k) && i.tneighbors[k].addr == addr {
        some_target_is_first(i.tneighbors, addr, k);
    }
    if let Some(j) = interface_named(i.interfaces, name) {
        assert(first_named(i.interfaces, name, j));
    }
    if let Some(j) = target_with(i.tneighbors, addr) {
        assert(first_target(i.tneighbors, addr, j));
    }
}

/// A new interface has its name and the defaults of the schema, and is not active; it is
/// to be updated and watched. A deleted one stays until its event, and one that is not
/// there cannot be changed.
pub proof fn interfaces_come_and_go(i: InstanceView, q: Set<EventView>, name: Seq<char>, enabled: bool, k: u32)
    requires
        i.next_interface < InterfaceIndex::MAX,
    ensures
        ({
            let r = interface_changed(i, q, name, InterfaceChange::Create);
            let (j, p) = r->0;
            let f = j.interfaces[i.next_interface];
            &&& r is Some && j.interfaces.contains_key(i.next_interface)
            &&& f.name == name && !f.active && f.config == InterfaceCfg::initial(i.defaults)
            &&& j.next_interface == i.next_interface + 1
            &&& p == q.insert(EventView::InterfaceUpdate(i.next_interface)).insert(
                EventView::InterfaceIbusSub(name),
            ).insert(EventView::CfgSeqNumberUpdate)
        }),
        interface_named(i.interfaces, name) == Some(k) ==> {
            let f = i.interfaces[k];
            &&& interface_changed(i, q, name, InterfaceChange::Delete) == Some(
                (i, q.insert(EventView::InterfaceDelete(k)).insert(EventView::CfgSeqNumberUpdate)),
            )
            &&& interface_changed(
                i,
                q,
                name,
                InterfaceChange::Entry(InterfaceEntryChange::AddressFamiliesIpv4(ConfigOp::Create)),
            ) == Some(
                (
                    InstanceView {
                        interfaces: i.interfaces.insert(
                            k,
                            InterfaceView {
                                config: InterfaceCfg {
                                    ipv4: Some(InterfaceIpv4Cfg { enabled: i.defaults.interface_ipv4_enabled }),
                                    ..f.config
                                },
                                ..f
                            },
                        ),
                        ..i
                    },
                    q.insert(EventView::InterfaceUpdate(k)).insert(EventView::CfgSeqNumberUpdate),
                ),
            )
            &&& (interface_changed(
                i,
                q,
                name,
                InterfaceChange::Entry(InterfaceEntryChange::AddressFamiliesIpv4(ConfigOp::Delete)),
            )->0).0.interfaces[k].config == (InterfaceCfg { ipv4: None, ..f.config })
            &&& f.config.ipv4 is Some ==> (interface_changed(
                i,
                q,
                name,
                InterfaceChange::Entry(InterfaceEntryChange::AddressFamiliesIpv4Enabled(enabled)),
            )->0).0.interfaces[k].config == (InterfaceCfg { ipv4: Some(InterfaceIpv4Cfg { enabled }), ..f.config })
        },
        interface_named(i.interfaces, name) is None ==> interface_changed(i, q, name, InterfaceChange::Delete) is None
            && interface_changed(
            i,
            q,
            name,
            InterfaceChange::Entry(InterfaceEntryChange::AddressFamiliesIpv4Enabled(enabled)),
        ) is None,
{
}

/// A targeted neighbor that is created is configured: the one with that address, or a
/// new one with the defaults of the schema. A deleted one is no longer configured, and it
/// is looked at whether it can go. Its other properties stay.
pub proof fn targets_come_and_go(i: InstanceView, q: Set<EventView>, addr: IpAddr, enabled: bool, k: u32)
    requires
        i.next_tneighbor < TargetedNbrIndex::MAX,
    ensures
        target_with(i.tneighbors, addr) is None ==> {
            let r = target_changed(i, q, addr, TargetChange::Create);
            let (j, p) = r->0;
            let t = j.tneighbors[i.next_tneighbor];
            &&& r is Some && t.addr == addr && t.configured && !t.dynamic && !t.active
            &&& t.config == TargetedNbrCfg::initial(i.defaults)
            &&& j.next_tneighbor == i.next_tneighbor + 1
            &&& p == q.insert(EventView::TargetedNbrUpdate(i.next_tneighbor)).insert(EventView::CfgSeqNumberUpdate)
            &&& target_changed(i, q, addr, TargetChange::Delete) is None
            &&& target_changed(i, q, addr, TargetChange::Enabled(enabled)) is None
        },
        target_with(i.tneighbors, addr) == Some(k) ==> {
            let t = i.tneighbors[k];
            &&& target_changed(i, q, addr, TargetChange::Create) == Some(
                (
                    InstanceView {
                        tneighbors: i.tneighbors.insert(k, TargetedNbr { configured: true, ..t }),
                        ..i
                    },
                    q.insert(EventView::TargetedNbrUpdate(k)).insert(EventView::CfgSeqNumberUpdate),
                ),
            )
            &&& target_changed(i, q, addr, TargetChange::Delete) == Some(
                (
                    InstanceView {
                        tneighbors: i.tneighbors.insert(k, TargetedNbr { configured: false, ..t }),
                        ..i
                    },
                    q.insert(EventView::TargetedNbrRemoveCheck(k)).insert(EventView::CfgSeqNumberUpdate),
                ),
            )
            &&& target_changed(i, q, addr, TargetChange::Enabled(enabled)) == Some(
                (
                    InstanceView {
                        tneighbors: i.tneighbors.insert(
                            k,
                            TargetedNbr { config: TargetedNbrCfg { enabled, ..t.config }, ..t },
                        ),
                        ..i
                    },
                    q.insert(EventView::TargetedNbrUpdate(k)).insert(EventView::CfgSeqNumberUpdate),
                ),
            )
        },
{
}

/// A peer starts out without a password. One that gets a password takes it as given, its
/// session is reset and its authentication updated. Other peers stay.
pub proof fn peers_come_and_go(
    peers: Map<Ipv4Addr, NeighborCfgView>,
    q: Set<EventView>,
    lsr_id: Ipv4Addr,
    other: Ipv4Addr,
    password: String,
)
    requires
        other != lsr_id,
    ensures
        ({
            let (m, p) = peers_changed(peers, q, lsr_id, PeerChange::Create)->0;
            &&& m.contains_key(lsr_id) && m[lsr_id].password is None && p == q
            &&& m.contains_key(other) == peers.contains_key(other) && m[other] == peers[other]
        }),
        ({
            let (m, p) = peers_changed(peers, q, lsr_id, PeerChange::Delete)->0;
            &&& !m.contains_key(lsr_id) && p == q
            &&& m.contains_key(other) == peers.contains_key(other) && m[other] == peers[other]
        }),
        peers.contains_key(lsr_id) ==> {
            let r = peers_changed(
                peers,
                q,
                lsr_id,
                PeerChange::Entry(PeerEntryChange::AuthenticationKey(Some(password))),
            );
            let (m, p) = r->0;
            &&& r is Some && m[lsr_id].password == Some(password@)
            &&& p == q.insert(EventView::ResetNeighbor(lsr_id)).insert(EventView::UpdateNeighborAuth(lsr_id)).insert(
                EventView::CfgSeqNumberUpdate,
            )
            &&& m.contains_key(other) == peers.contains_key(other) && m[other] == peers[other]
        },
        !peers.contains_key(lsr_id) ==> peers_changed(
            peers,
            q,
            lsr_id,
            PeerChange::Entry(PeerEntryChange::AuthenticationKey(Some(password))),
        ) is None,
{
}

/// The password for a peer is its own if it has one, and otherwise that of the instance.
pub proof fn passwords_fall_back_to_the_instance(c: InstanceCfgView, lsr_id: Ipv4Addr, password: Seq<char>)
    ensures
        c.neighbors.contains_key(lsr_id) && c.neighbors[lsr_id].password == Some(password) ==> c.password_for(lsr_id)
            == Some(password),
        c.neighbors.contains_key(lsr_id) && c.neighbors[lsr_id].password is None ==> c.password_for(lsr_id)
            == c.password,
        !c.neighbors.contains_key(lsr_id) ==> c.password_for(lsr_id) == c.password,
{
}

/// A neighbor is reset by stopping to connect, and with a notification before if there is
/// a session. Its authentication is the password for it, at its transport address.
pub proof fn neighbors_are_treated_as_asked(c: InstanceCfgView, n: Neighbor)
    ensures
        neighbor_actions(c, NeighborTask::StopBackoff, n) == seq![ActionView::BackoffStop(n.lsr_id)],
        n.existent ==> neighbor_actions(c, NeighborTask::Reset, n) == seq![
            ActionView::ShutdownSend(n.lsr_id),
            ActionView::ConnectStop(n.lsr_id),
        ],
        !n.existent ==> neighbor_actions(c, NeighborTask::Reset, n) == seq![ActionView::ConnectStop(n.lsr_id)],
        neighbor_actions(c, NeighborTask::UpdateAuth, n) == seq![
            ActionView::Md5sigUpdate(n.trans_addr, c.password_for(n.lsr_id)),
        ],
{
}

/// What is asked of one neighbor is done for the first one with that LSR ID, and for
/// nobody if there is none.
pub proof fn one_neighbor_is_the_one_named(
    c: InstanceCfgView,
    s: Seq<Neighbor>,
    lsr_id: Ipv4Addr,
    what: NeighborTask,
    k: int,
)
    requires
        0 <= k < s.len(),
        forall|j: int| 0 <= j < k ==> (#[trigger] s[j]).lsr_id != lsr_id,
    ensures
        s[k].lsr_id == lsr_id ==> one_neighbor_actions(c, s, lsr_id, what) == neighbor_actions(c, what, s[k]),
        s[k].lsr_id != lsr_id && k == s.len() - 1 ==> one_neighbor_actions(c, s, lsr_id, what).len() == 0,
    decreases k,
{
    if k > 0 {
        assert(s[0].lsr_id != lsr_id);
        let rest = s.skip(1);
        assert forall|j: int| 0 <= j < k - 1 implies (#[trigger] rest[j]).lsr_id != lsr_id by {
            assert(rest[j] == s[j + 1]);
        }
        one_neighbor_is_the_one_named(c, rest, lsr_id, what, k - 1);
    } else if s.len() == 1 {
        assert(s.skip(1).len() == 0);
        assert(one_neighbor_actions(c, s.skip(1), lsr_id, what).len() == 0);
    }
}

/// While the instance is up, events do what they name; while it is not, only an update of
/// the instance itself is done.
pub proof fn events_do_what_they_name(i: Instance, k: u32, name: Seq<char>, lsr_id: Ipv4Addr, e: EventView)
    ensures
        event_actions(i, EventView::InstanceUpdate) == seq![ActionView::InstanceUpdate],
        !i.up && !(e is InstanceUpdate) ==> event_actions(i, e).len() == 0,
        i.up ==> {
            &&& event_actions(i, EventView::InterfaceUpdate(k)) == seq![ActionView::InterfaceUpdate(k)]
            &&& event_actions(i, EventView::InterfaceIbusSub(name)) == seq![
                ActionView::InterfaceSub(name, AddressFamily::Ipv4),
            ]
            &&& event_actions(i, EventView::TargetedNbrUpdate(k)) == seq![ActionView::TargetedNbrUpdate(k)]
            &&& i@.interfaces[k].active ==> event_actions(i, EventView::InterfaceDelete(k)) == seq![
                ActionView::InterfaceUnsub(i@.interfaces[k].name),
                ActionView::InterfaceStop(k),
            ]
            &&& !i@.interfaces[k].active ==> event_actions(i, EventView::InterfaceDelete(k)) == seq![
                ActionView::InterfaceUnsub(i@.interfaces[k].name),
            ]
            &&& event_actions(i, EventView::ResetNeighbor(lsr_id)) == one_neighbor_actions(
                i@.config,
                i@.neighbors,
                lsr_id,
                NeighborTask::Reset,
            )
            &&& event_actions(i, EventView::UpdateNeighborAuth(lsr_id)) == one_neighbor_actions(
                i@.config,
                i@.neighbors,
                lsr_id,
                NeighborTask::UpdateAuth,
            )
        },
{
}

/// What is asked of all neighbors is done for each of them, one after the other.
pub proof fn all_neighbors_are_each_treated(
    c: InstanceCfgView,
    s: Seq<Neighbor>,
    n: Neighbor,
    what: NeighborTask,
    i: Instance,
)
    ensures
        flat_map(s.push(n), neighbor_fn(c, what)) == flat_map(s, neighbor_fn(c, what)) + neighbor_actions(c, what, n),
        flat_map(Seq::<Neighbor>::empty(), neighbor_fn(c, what)).len() == 0,
        i.up ==> event_actions(i, EventView::StopInitBackoff) == flat_map(
            i@.neighbors,
            neighbor_fn(i@.config, NeighborTask::StopBackoff),
        ) && event_actions(i, EventView::ResetNeighbors) == flat_map(
            i@.neighbors,
            neighbor_fn(i@.config, NeighborTask::Reset),
        ) && event_actions(i, EventView::UpdateNeighborsAuth) == flat_map(
            i@.neighbors,
            neighbor_fn(i@.config, NeighborTask::UpdateAuth),
        ),
{
    assert(s.push(n).drop_last() =~= s);
}

/// An interface that was deleted is gone after its event. A targeted neighbor goes only
/// if it is neither configured nor asked for Hello messages itself, and stops if it was
/// active. Once they are not accepted any more, none counts as having asked.
pub proof fn unused_entries_go(i: Instance, k: u32, other: u32)
    requires
        other != k,
    ensures
        !event_done(i@, EventView::InterfaceDelete(k)).interfaces.contains_key(k),
        event_done(i@, EventView::InterfaceDelete(k)).interfaces.contains_key(other) == i@.interfaces.contains_key(
            other,
        ),
        !i@.tneighbors[k].configured && !i@.tneighbors[k].dynamic ==> !event_done(
            i@,
            EventView::TargetedNbrRemoveCheck(k),
        ).tneighbors.contains_key(k),
        i@.tneighbors[k].configured || i@.tneighbors[k].dynamic ==> event_done(
            i@,
            EventView::TargetedNbrRemoveCheck(k),
        ) == i@ && event_actions(i, EventView::TargetedNbrRemoveCheck(k)).len() == 0,
        event_done(i@, EventView::TargetedNbrRemoveCheck(k)).tneighbors.contains_key(other)
            == i@.tneighbors.contains_key(other),
        i.up && !i@.tneighbors[k].configured && !i@.tneighbors[k].dynamic && i@.tneighbors[k].active ==> event_actions(
            i,
            EventView::TargetedNbrRemoveCheck(k),
        ) == seq![ActionView::TargetedNbrStop(k)],
        i.up && i@.tneighbors.contains_key(k) ==> {
            let t = event_done(i@, EventView::TargetedNbrRemoveDynamic).tneighbors[k];
            t == (TargetedNbr { dynamic: false, ..i@.tneighbors[k] })
        },
        !i.up ==> event_done(i@, EventView::TargetedNbrRemoveDynamic) == i@,
{
}

/// With a new sequence number of the configuration, Hello messages follow on each active
/// interface and targeted neighbor. Once requests are not accepted any more, each targeted
/// neighbor is updated.
pub proof fn hellos_follow_the_sequence_number(i: Instance, k: u32)
    requires
        i.up,
    ensures
        event_actions(i, EventView::CfgSeqNumberUpdate) == seq![ActionView::CfgSeqNumberIncrement] + flat_map(
            i.interfaces.keys(),
            iface_sync_fn(i@.interfaces),
        ) + flat_map(i.tneighbors.keys(), target_sync_fn(i@.tneighbors)),
        i@.interfaces[k].active ==> iface_sync_fn(i@.interfaces)(k) == seq![ActionView::InterfaceSyncHelloTx(k)],
        !i@.interfaces[k].active ==> iface_sync_fn(i@.interfaces)(k).len() == 0,
        i@.tneighbors[k].active ==> target_sync_fn(i@.tneighbors)(k) == seq![ActionView::TargetedNbrSyncHelloTx(k)],
        !i@.tneighbors[k].active ==> target_sync_fn(i@.tneighbors)(k).len() == 0,
        event_actions(i, EventView::TargetedNbrRemoveDynamic) == flat_map(i.tneighbors.keys(), target_update_fn()),
        target_update_fn()(k) == seq![ActionView::TargetedNbrUpdate(k)],
{
}

} // verus!
