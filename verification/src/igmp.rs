//! Configuration of IGMP.

use vstd::prelude::*;

use crate::collections::{
    push_text_code, text_code, text_code_injective, views, views_insert, views_remove, Key, OrdSet, Table,
};
use crate::ip::Ipv4Addr;
use crate::northbound::configuration::{member, ConfigOp, Provider};
use crate::northbound::error::{ApplyError, PrepareError};

verus! {

/// Resources that changes need: none, so none can be made.
#[derive(Debug)]
pub struct Resource(());

/// What is to be done once the configuration is fully updated, in this order.
pub enum Event {
    InterfaceUpdate(String),
    InterfaceIbusSub(String),
}

pub enum EventView {
    InterfaceUpdate(Seq<char>),
    InterfaceIbusSub(Seq<char>),
}

impl View for Event {
    type V = EventView;

    open spec fn view(&self) -> EventView {
        match *self {
            Event::InterfaceUpdate(a) => EventView::InterfaceUpdate(a@),
            Event::InterfaceIbusSub(a) => EventView::InterfaceIbusSub(a@),
        }
    }
}

impl EventView {
    pub open spec fn rank(self) -> u128 {
        match self {
            EventView::InterfaceUpdate(..) => 0,
            EventView::InterfaceIbusSub(..) => 1,
        }
    }


    pub open spec fn text(self) -> Seq<char> {
        match self {
            EventView::InterfaceUpdate(a) => a,
            EventView::InterfaceIbusSub(a) => a,
        }
    }
}

impl Key for Event {
    open spec fn code(v: EventView) -> Seq<u128> {
        seq![v.rank()] + text_code(v.text())
    }

    proof fn code_injective(a: EventView, b: EventView) {
        let (x, y) = (Self::code(a), Self::code(b));
        assert(x[0] == a.rank() && y[0] == b.rank());
        assert(x.skip(1) =~= text_code(a.text()));
        assert(y.skip(1) =~= text_code(b.text()));
        text_code_injective(a.text(), b.text());
    }

    fn to_code(&self) -> Vec<u128> {
        let c: Vec<u128> = match self {
            Event::InterfaceUpdate(_) => vec![0],
            Event::InterfaceIbusSub(_) => vec![1],
        };
        let mut c = c;
        match self {
            Event::InterfaceUpdate(a) => {
                push_text_code(&mut c, a);
            },
            Event::InterfaceIbusSub(a) => {
                push_text_code(&mut c, a);
            },
        }
        assert(c@ =~= Self::code(self@));
        c
    }

    fn copy_key(&self) -> Event {
        match self {
            Event::InterfaceUpdate(a) => Event::InterfaceUpdate(a.clone()),
            Event::InterfaceIbusSub(a) => Event::InterfaceIbusSub(a.clone()),
        }
    }
}

// ===== configuration structs =====

#[derive(Clone, Copy, Debug, PartialEq, Eq, Structural)]
pub struct InstanceCfg {}

pub struct InterfaceCfg {
    pub last_member_query_interval: u16,
    pub query_interval: u16,
    pub query_max_response_time: u16,
    pub robustness_variable: u8,
    pub enabled: bool,
    pub join_group: OrdSet<Ipv4Addr>,
}

pub struct InterfaceCfgView {
    pub last_member_query_interval: u16,
    pub query_interval: u16,
    pub query_max_response_time: u16,
    pub robustness_variable: u8,
    pub enabled: bool,
    pub join_group: Set<Ipv4Addr>,
}

impl View for InterfaceCfg {
    type V = InterfaceCfgView;

    open spec fn view(&self) -> InterfaceCfgView {
        InterfaceCfgView {
            last_member_query_interval: self.last_member_query_interval,
            query_interval: self.query_interval,
            query_max_response_time: self.query_max_response_time,
            robustness_variable: self.robustness_variable,
            enabled: self.enabled,
            join_group: self.join_group@,
        }
    }
}

impl Default for InstanceCfg {
    fn default() -> (r: InstanceCfg)
        ensures
            r == (InstanceCfg {}),
    {
        InstanceCfg {}
    }
}

pub struct Interface {
    pub name: String,
    pub config: InterfaceCfg,
}

pub struct InterfaceView {
    pub name: Seq<char>,
    pub config: InterfaceCfgView,
}

impl View for Interface {
    type V = InterfaceView;

    open spec fn view(&self) -> InterfaceView {
        InterfaceView { name: self.name@, config: self.config@ }
    }
}

/// An IGMP instance, as far as its configuration goes.
pub struct Instance {
    pub config: InstanceCfg,
    pub interfaces: Table<String, Interface>,
    /// Whether the instance is up.
    pub up: bool,
    /// What is left to be done by others.
    pub actions: Vec<Action>,
    /// Defaults of the schema.
    pub defaults: Defaults,
}

pub struct InstanceView {
    pub config: InstanceCfg,
    pub interfaces: Map<Seq<char>, InterfaceView>,
    pub up: bool,
    pub actions: Seq<ActionView>,
    pub defaults: Defaults,
}

impl View for Instance {
    type V = InstanceView;

    open spec fn view(&self) -> InstanceView {
        InstanceView {
            config: self.config,
            interfaces: views(self.interfaces@),
            up: self.up,
            actions: acts(self.actions@),
            defaults: self.defaults,
        }
    }
}

// ===== configuration defaults =====

/// Default values that the schema gives.
#[derive(Clone, Copy, Debug, PartialEq, Eq, Structural)]
pub struct Defaults {
    pub last_member_query_interval: u16,
    pub query_interval: u16,
    pub query_max_response_time: u16,
    pub robustness_variable: u8,
    pub enabled: bool,
}

impl InterfaceCfg {
    /// The values without any configuration.
    pub open spec fn initial(d: Defaults) -> InterfaceCfgView {
        InterfaceCfgView {
            last_member_query_interval: d.last_member_query_interval,
            query_interval: d.query_interval,
            query_max_response_time: d.query_max_response_time,
            robustness_variable: d.robustness_variable,
            enabled: d.enabled,
            join_group: Set::empty(),
        }
    }

    pub fn new(d: &Defaults) -> (r: InterfaceCfg)
        ensures
            r@ == InterfaceCfg::initial(*d),
    {
        InterfaceCfg {
            last_member_query_interval: d.last_member_query_interval,
            query_interval: d.query_interval,
            query_max_response_time: d.query_max_response_time,
            robustness_variable: d.robustness_variable,
            enabled: d.enabled,
            join_group: OrdSet::new(),
        }
    }
}

// ===== changes =====

/// Change within an interface.
pub enum InterfaceEntryChange {
    LastMemberQueryInterval(u16),
    QueryInterval(u16),
    QueryMaxResponseTime(u16),
    RobustnessVariable(u8),
    Enabled(bool),
    JoinGroup(ConfigOp, Ipv4Addr),
}

/// Change of an interface.
pub enum InterfaceChange {
    Create,
    Delete,
    Entry(InterfaceEntryChange),
}

/// Change of the configuration of an instance.
pub enum ConfigChange {
    Interface(String, InterfaceChange),
}

/// The configuration of an interface and the queued events, after a change
/// within it.
pub open spec fn interface_entry_changed(
    c: InterfaceCfgView,
    q: Set<EventView>,
    name: Seq<char>,
    change: InterfaceEntryChange,
) -> (InterfaceCfgView, Set<EventView>) {
    match change {
        InterfaceEntryChange::LastMemberQueryInterval(interval) => (
            InterfaceCfgView { last_member_query_interval: interval, ..c },
            q,
        ),
        InterfaceEntryChange::QueryInterval(interval) => (InterfaceCfgView { query_interval: interval, ..c }, q),
        InterfaceEntryChange::QueryMaxResponseTime(time) => (
            InterfaceCfgView { query_max_response_time: time, ..c },
            q,
        ),
        InterfaceEntryChange::RobustnessVariable(robustness_variable) => (
            InterfaceCfgView { robustness_variable, ..c },
            q,
        ),
        InterfaceEntryChange::Enabled(enabled) => (
            InterfaceCfgView { enabled, ..c },
            q.insert(EventView::InterfaceUpdate(name)),
        ),
        InterfaceEntryChange::JoinGroup(op, group) => (
            InterfaceCfgView { join_group: member(c.join_group, op, group), ..c },
            q,
        ),
    }
}

fn apply_interface_entry(
    cfg: &mut InterfaceCfg,
    ifname: &String,
    change: InterfaceEntryChange,
    event_queue: &mut OrdSet<Event>,
)
    ensures
        (final(cfg)@, final(event_queue)@) == interface_entry_changed(
            old(cfg)@,
            old(event_queue)@,
            ifname@,
            change,
        ),
{
    match change {
        InterfaceEntryChange::LastMemberQueryInterval(interval) => {
            cfg.last_member_query_interval = interval;
        },
        InterfaceEntryChange::QueryInterval(interval) => {
            cfg.query_interval = interval;
        },
        InterfaceEntryChange::QueryMaxResponseTime(time) => {
            cfg.query_max_response_time = time;
        },
        InterfaceEntryChange::RobustnessVariable(robustness_variable) => {
            cfg.robustness_variable = robustness_variable;
        },
        InterfaceEntryChange::Enabled(enabled) => {
            cfg.enabled = enabled;
            event_queue.insert(Event::InterfaceUpdate(ifname.clone()));
        },
        InterfaceEntryChange::JoinGroup(op, group) => {
            match op {
                ConfigOp::Create => {
                    cfg.join_group.insert(group);
                },
                ConfigOp::Delete => {
                    cfg.join_group.remove(&group);
                },
            }
        },
    }
}

/// An instance and the queued events, after a change of one of its interfaces.
/// A change within one that does not exist cannot be applied.
pub open spec fn interface_changed(
    i: InstanceView,
    q: Set<EventView>,
    name: Seq<char>,
    change: InterfaceChange,
) -> Option<
    (InstanceView, Set<EventView>),
> {
    match change {
        InterfaceChange::Create => Some(
            (
                InstanceView {
                    interfaces: i.interfaces.insert(
                        name,
                        InterfaceView { name, config: InterfaceCfg::initial(i.defaults) },
                    ),
                    ..i
                },
                q.insert(EventView::InterfaceUpdate(name)).insert(EventView::InterfaceIbusSub(name)),
            ),
        ),
        InterfaceChange::Delete => Some((InstanceView { interfaces: i.interfaces.remove(name), ..i }, q)),
        InterfaceChange::Entry(change) => if i.interfaces.contains_key(name) {
            let f = i.interfaces[name];
            let r = interface_entry_changed(f.config, q, name, change);
            Some(
                (
                    InstanceView {
                        interfaces: i.interfaces.insert(name, InterfaceView { config: r.0, ..f }),
                        ..i
                    },
                    r.1,
                ),
            )
        } else {
            None
        },
    }
}

/// Applies a change of the configuration, and queues what is to be done about
/// it.
pub fn apply_instance(instance: &mut Instance, change: ConfigChange, event_queue: &mut OrdSet<Event>) -> (r: Result<
    (),
    ApplyError,
>)
    ensures
        ({
            let ConfigChange::Interface(name, change) = change;
            match interface_changed(old(instance)@, old(event_queue)@, name@, change) {
                Some(s) => r is Ok && (final(instance)@, final(event_queue)@) == s,
                None => r == Err::<(), ApplyError>(ApplyError::EntryNotFound) && final(instance)@ == old(instance)@
                    && final(event_queue)@ == old(event_queue)@,
            }
        }),
{
    let ConfigChange::Interface(ifname, change) = change;
    apply_interface(instance, ifname, change, event_queue)
}

fn apply_interface(
    instance: &mut Instance,
    ifname: String,
    change: InterfaceChange,
    event_queue: &mut OrdSet<Event>,
) -> (r: Result<(), ApplyError>)
    ensures
        match interface_changed(old(instance)@, old(event_queue)@, ifname@, change) {
            Some(s) => r is Ok && (final(instance)@, final(event_queue)@) == s,
            None => r == Err::<(), ApplyError>(ApplyError::EntryNotFound) && final(instance)@ == old(instance)@
                && final(event_queue)@ == old(event_queue)@,
        },
{
    let ghost before = instance.interfaces@;
    match change {
        InterfaceChange::Create => {
            let iface = Interface { name: ifname.clone(), config: InterfaceCfg::new(&instance.defaults) };
            proof {
                views_insert(before, ifname@, iface);
            }
            instance.interfaces.insert(ifname.clone(), iface);
            event_queue.insert(Event::InterfaceUpdate(ifname.clone()));
            event_queue.insert(Event::InterfaceIbusSub(ifname));
        },
        InterfaceChange::Delete => {
            instance.interfaces.remove(&ifname);
            proof {
                views_remove(before, ifname@);
            }
        },
        InterfaceChange::Entry(change) => {
            let iface = match instance.interfaces.get_mut(&ifname) {
                Some(iface) => iface,
                None => {
                    return Err(ApplyError::EntryNotFound);
                },
            };
            apply_interface_entry(&mut iface.config, &ifname, change, event_queue);
            proof {
                views_insert(before, ifname@, *iface);
            }
        },
    }
    Ok(())
}

// ===== events =====

/// What the handling of an event leaves to be done.
pub enum Action {
    InterfaceUpdate(String),
    InterfaceSub(String),
}

pub enum ActionView {
    InterfaceUpdate(Seq<char>),
    InterfaceSub(Seq<char>),
}

impl View for Action {
    type V = ActionView;

    open spec fn view(&self) -> ActionView {
        match *self {
            Action::InterfaceUpdate(name) => ActionView::InterfaceUpdate(name@),
            Action::InterfaceSub(name) => ActionView::InterfaceSub(name@),
        }
    }
}

pub open spec fn acts(s: Seq<Action>) -> Seq<ActionView> {
    Seq::new(s.len(), |j: int| s[j]@)
}

/// What is to be done about an event, if anything.
pub open spec fn event_action(i: InstanceView, e: EventView) -> Option<ActionView> {
    match e {
        EventView::InterfaceUpdate(name) => if i.up && i.interfaces.contains_key(name) {
            Some(ActionView::InterfaceUpdate(name))
        } else {
            None
        },
        EventView::InterfaceIbusSub(name) => if i.interfaces.contains_key(name) {
            Some(ActionView::InterfaceSub(i.interfaces[name].name))
        } else {
            None
        },
    }
}

/// An instance, after an event was processed.
pub open spec fn event_done(i: InstanceView, e: EventView) -> InstanceView {
    match event_action(i, e) {
        Some(a) => InstanceView { actions: i.actions.push(a), ..i },
        None => i,
    }
}

/// Processes a queued event: what is to be done about it is left to others. An
/// interface that is gone by then needs nothing.
pub fn process_event(instance: &mut Instance, event: Event)
    ensures
        final(instance)@ == event_done(old(instance)@, event@),
{
    let ghost before = instance.actions@;
    let action = match event {
        Event::InterfaceUpdate(ifname) => {
            if instance.up && instance.interfaces.contains_key(&ifname) {
                Some(Action::InterfaceUpdate(ifname))
            } else {
                None
            }
        },
        Event::InterfaceIbusSub(ifname) => match instance.interfaces.get(&ifname) {
            Some(iface) => Some(Action::InterfaceSub(iface.name.clone())),
            None => None,
        },
    };
    if let Some(action) = action {
        instance.actions.push(action);
        assert(acts(instance.actions@) =~= acts(before).push(action@));
    }
}

impl Provider for Instance {
    type Event = Event;

    type Resource = Resource;

    type Change = ConfigChange;

    open spec fn takes(self, change: ConfigChange) -> bool {
        true
    }

    open spec fn expects(self, event: EventView) -> bool {
        true
    }

    /// No change needs resources.
    open spec fn prepares(
        self,
        next: Instance,
        change: ConfigChange,
        resource: Option<Resource>,
        events: Set<EventView>,
        next_events: Set<EventView>,
        result: Result<(), PrepareError>,
    ) -> bool {
        next == self && resource is None && next_events == events && result is Ok
    }

    fn prepare(
        &mut self,
        change: &ConfigChange,
        resource: &mut Option<Resource>,
        event_queue: &mut OrdSet<Event>,
    ) -> Result<(), PrepareError> {
        Ok(())
    }

    open spec fn aborts(self, next: Instance, change: ConfigChange, resource: Option<Resource>) -> bool {
        next == self
    }

    fn abort(&mut self, change: ConfigChange, resource: &mut Option<Resource>) {
    }

    open spec fn applies(
        self,
        next: Instance,
        change: ConfigChange,
        resource: Option<Resource>,
        events: Set<EventView>,
        next_events: Set<EventView>,
        result: Result<(), ApplyError>,
    ) -> bool {
        let ConfigChange::Interface(name, change) = change;
        match interface_changed(self@, events, name@, change) {
            Some(s) => result is Ok && (next@, next_events) == s,
            None => result == Err::<(), ApplyError>(ApplyError::EntryNotFound) && next@ == self@ && next_events
                == events,
        }
    }

    fn apply(
        &mut self,
        change: ConfigChange,
        resource: &mut Option<Resource>,
        event_queue: &mut OrdSet<Event>,
    ) -> Result<(), ApplyError> {
        apply_instance(self, change, event_queue)
    }

    open spec fn handles(self, next: Instance, event: EventView) -> bool {
        next@ == event_done(self@, event)
    }

    fn process_event(&mut self, event: Event) {
        process_event(self, event)
    }
}

// ===== laws =====

/// Deleting an interface undoes its creation.
pub proof fn delete_undoes_create(i: InstanceView, q: Set<EventView>, name: Seq<char>)
    requires
        !i.interfaces.contains_key(name),
    ensures
        ({
            let r = interface_changed(i, q, name, InterfaceChange::Create)->0;
            (interface_changed(r.0, r.1, name, InterfaceChange::Delete)->0).0 == i
        }),
{
    let r = interface_changed(i, q, name, InterfaceChange::Create)->0;
    assert(r.0.interfaces.remove(name) =~= i.interfaces);
}

/// Changes within an interface leave all others alone.
pub proof fn interface_changes_are_local(
    i: InstanceView,
    q: Set<EventView>,
    name: Seq<char>,
    change: InterfaceChange,
    other: Seq<char>,
)
    requires
        other != name,
        interface_changed(i, q, name, change) is Some,
    ensures
        ({
            let r = (interface_changed(i, q, name, change)->0).0.interfaces;
            &&& r.contains_key(other) == i.interfaces.contains_key(other)
            &&& r.contains_key(other) ==> r[other] == i.interfaces[other]
        }),
{
}

/// Each leaf of an interface takes the configured value and no other one changes. A
/// joined group is one of the groups, and a left one is not.
pub proof fn interface_leaves_take_their_value(
    c: InterfaceCfgView,
    q: Set<EventView>,
    name: Seq<char>,
    n: u16,
    robustness: u8,
    enabled: bool,
    group: Ipv4Addr,
    other: Ipv4Addr,
)
    requires
        other != group,
    ensures
        interface_entry_changed(c, q, name, InterfaceEntryChange::LastMemberQueryInterval(n)) == (
            InterfaceCfgView { last_member_query_interval: n, ..c },
            q,
        ),
        interface_entry_changed(c, q, name, InterfaceEntryChange::QueryInterval(n)) == (
            InterfaceCfgView { query_interval: n, ..c },
            q,
        ),
        interface_entry_changed(c, q, name, InterfaceEntryChange::QueryMaxResponseTime(n)) == (
            InterfaceCfgView { query_max_response_time: n, ..c },
            q,
        ),
        interface_entry_changed(c, q, name, InterfaceEntryChange::RobustnessVariable(robustness)) == (
            InterfaceCfgView { robustness_variable: robustness, ..c },
            q,
        ),
        interface_entry_changed(c, q, name, InterfaceEntryChange::Enabled(enabled)) == (
            InterfaceCfgView { enabled, ..c },
            q.insert(EventView::InterfaceUpdate(name)),
        ),
        ({
            let (d, p) = interface_entry_changed(
                c,
                q,
                name,
                InterfaceEntryChange::JoinGroup(ConfigOp::Create, group),
            );
            &&& d.join_group.contains(group) && d.join_group.contains(other) == c.join_group.contains(other)
            &&& d == (InterfaceCfgView { join_group: d.join_group, ..c }) && p == q
        }),
        ({
            let (d, p) = interface_entry_changed(
                c,
                q,
                name,
                InterfaceEntryChange::JoinGroup(ConfigOp::Delete, group),
            );
            &&& !d.join_group.contains(group) && d.join_group.contains(other) == c.join_group.contains(other)
            &&& d == (InterfaceCfgView { join_group: d.join_group, ..c }) && p == q
        }),
{
}

/// A new interface has the defaults of the schema and no groups; it is to be updated and
/// watched. A deleted one is gone, and one that is not there cannot be changed.
pub proof fn interfaces_come_and_go(i: InstanceView, q: Set<EventView>, name: Seq<char>, change: InterfaceEntryChange)
    ensures
        ({
            let r = interface_changed(i, q, name, InterfaceChange::Create);
            let (j, p) = r->0;
            let c = j.interfaces[name].config;
            &&& r is Some && j.interfaces.contains_key(name) && j.interfaces[name].name == name
            &&& c.last_member_query_interval == i.defaults.last_member_query_interval
            &&& c.query_interval == i.defaults.query_interval
            &&& c.query_max_response_time == i.defaults.query_max_response_time
            &&& c.robustness_variable == i.defaults.robustness_variable
            &&& c.enabled == i.defaults.enabled
            &&& c.join_group == Set::<Ipv4Addr>::empty()
            &&& p == q.insert(EventView::InterfaceUpdate(name)).insert(EventView::InterfaceIbusSub(name))
            &&& j.up == i.up && j.actions == i.actions
        }),
        ({
            let r = interface_changed(i, q, name, InterfaceChange::Delete);
            r is Some && !(r->0).0.interfaces.contains_key(name) && (r->0).1 == q
        }),
        !i.interfaces.contains_key(name) ==> interface_changed(i, q, name, InterfaceChange::Entry(change)) is None,
        i.interfaces.contains_key(name) ==> {
            let r = interface_changed(i, q, name, InterfaceChange::Entry(change));
            let (j, p) = r->0;
            &&& r is Some
            &&& (j.interfaces[name].config, p) == interface_entry_changed(i.interfaces[name].config, q, name, change)
            &&& j.interfaces[name].name == i.interfaces[name].name
        },
{
}

/// An interface is updated only while the instance is up; it is watched in any case.
/// Nothing is done about one that is gone, and actions are only ever added.
pub proof fn events_do_what_they_name(i: InstanceView, name: Seq<char>)
    ensures
        i.interfaces.contains_key(name) && i.up ==> event_done(i, EventView::InterfaceUpdate(name)).actions
            == i.actions.push(ActionView::InterfaceUpdate(name)),
        i.interfaces.contains_key(name) && !i.up ==> event_done(i, EventView::InterfaceUpdate(name)) == i,
        i.interfaces.contains_key(name) ==> event_done(i, EventView::InterfaceIbusSub(name)).actions == i.actions.push(
            ActionView::InterfaceSub(i.interfaces[name].name),
        ),
        !i.interfaces.contains_key(name) ==> event_done(i, EventView::InterfaceUpdate(name)) == i && event_done(
            i,
            EventView::InterfaceIbusSub(name),
        ) == i,
        event_done(i, EventView::InterfaceUpdate(name)).interfaces == i.interfaces,
        event_done(i, EventView::InterfaceIbusSub(name)).interfaces == i.interfaces,
{
}

} // verus!
