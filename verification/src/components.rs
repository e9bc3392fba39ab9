//! The parts of the daemon as owners of their configuration.
//!
//! Each one applies changes to its configuration, and gathers what the queued
//! events leave to be done.

use vstd::prelude::*;

use crate::bfd::configuration as bfd;
use crate::bgp::configuration as bgp;
use crate::collections::{views, OrdSet};
use crate::interface::configuration as interface;
use crate::interface::interfaces::{Effects, Interfaces};
use crate::isis::configuration as isis;
use crate::keychain;
use crate::ldp;
use crate::northbound::configuration::Provider;
use crate::northbound::error::{ApplyError, PrepareError};
use crate::ospf::configuration as ospf;

verus! {

// ===== Ospf =====

/// OSPF, with its instance.
pub struct Ospf {
    pub instance: ospf::Instance,
    /// What is left to be done.
    pub actions: Vec<ospf::Action>,
}

impl Provider for Ospf {
    type Event = ospf::Event;

    type Resource = ospf::Resource;

    type Change = ospf::ConfigChange;

    open spec fn takes(self, change: ospf::ConfigChange) -> bool {
        ospf::index_left(self.instance@, change)
    }

    open spec fn expects(self, event: ospf::EventView) -> bool {
        ospf::event_valid(self.instance@, event)
    }

    /// No change needs resources.
    open spec fn prepares(
        self,
        next: Ospf,
        change: ospf::ConfigChange,
        resource: Option<ospf::Resource>,
        events: Set<ospf::EventView>,
        next_events: Set<ospf::EventView>,
        result: Result<(), PrepareError>,
    ) -> bool {
        next == self && resource is None && next_events == events && result is Ok
    }

    fn prepare(
        &mut self,
        change: &ospf::ConfigChange,
        resource: &mut Option<ospf::Resource>,
        event_queue: &mut OrdSet<ospf::Event>,
    ) -> Result<(), PrepareError> {
        Ok(())
    }

    open spec fn aborts(
        self,
        next: Ospf,
        change: ospf::ConfigChange,
        resource: Option<ospf::Resource>,
    ) -> bool {
        next == self
    }

    fn abort(&mut self, change: ospf::ConfigChange, resource: &mut Option<ospf::Resource>) {
    }

    open spec fn applies(
        self,
        next: Ospf,
        change: ospf::ConfigChange,
        resource: Option<ospf::Resource>,
        events: Set<ospf::EventView>,
        next_events: Set<ospf::EventView>,
        result: Result<(), ApplyError>,
    ) -> bool {
        &&& next.actions == self.actions
        &&& match ospf::instance_changed(self.instance@, events, change) {
            Some(s) => result is Ok && (next.instance@, next_events) == s,
            None => result == Err::<(), ApplyError>(ApplyError::EntryNotFound) && next.instance@ == self.instance@
                && next_events == events,
        }
    }

    fn apply(
        &mut self,
        change: ospf::ConfigChange,
        resource: &mut Option<ospf::Resource>,
        event_queue: &mut OrdSet<ospf::Event>,
    ) -> Result<(), ApplyError> {
        ospf::apply_instance(&mut self.instance, change, event_queue)
    }

    open spec fn handles(self, next: Ospf, event: ospf::EventView) -> bool {
        &&& next.instance@ == ospf::event_done(self.instance@, event)
        &&& ospf::acts(next.actions@) == ospf::acts(self.actions@) + ospf::event_actions(self.instance, event)
    }

    fn process_event(&mut self, event: ospf::Event) {
        let ghost before = self.actions@;
        let mut more = ospf::process_event(&mut self.instance, event);
        let ghost added = more@;
        self.actions.append(&mut more);
        assert(ospf::acts(self.actions@) =~= ospf::acts(before) + ospf::acts(added));
    }
}

// ===== Isis =====

/// IS-IS, with its instance.
pub struct Isis {
    pub instance: isis::Instance,
    /// What is left to be done.
    pub actions: Vec<isis::Action>,
}

impl Provider for Isis {
    type Event = isis::Event;

    type Resource = isis::Resource;

    type Change = isis::ConfigChange;

    open spec fn takes(self, change: isis::ConfigChange) -> bool {
        isis::index_left(self.instance@, change) && isis::change_valid(change)
    }

    open spec fn expects(self, event: isis::Event) -> bool {
        isis::event_valid(self.instance@, event)
    }

    /// No change needs resources.
    open spec fn prepares(
        self,
        next: Isis,
        change: isis::ConfigChange,
        resource: Option<isis::Resource>,
        events: Set<isis::Event>,
        next_events: Set<isis::Event>,
        result: Result<(), PrepareError>,
    ) -> bool {
        next == self && resource is None && next_events == events && result is Ok
    }

    fn prepare(
        &mut self,
        change: &isis::ConfigChange,
        resource: &mut Option<isis::Resource>,
        event_queue: &mut OrdSet<isis::Event>,
    ) -> Result<(), PrepareError> {
        Ok(())
    }

    open spec fn aborts(
        self,
        next: Isis,
        change: isis::ConfigChange,
        resource: Option<isis::Resource>,
    ) -> bool {
        next == self
    }

    fn abort(&mut self, change: isis::ConfigChange, resource: &mut Option<isis::Resource>) {
    }

    open spec fn applies(
        self,
        next: Isis,
        change: isis::ConfigChange,
        resource: Option<isis::Resource>,
        events: Set<isis::Event>,
        next_events: Set<isis::Event>,
        result: Result<(), ApplyError>,
    ) -> bool {
        &&& next.actions == self.actions
        &&& match isis::instance_changed(self.instance@, events, change) {
            Some(s) => result is Ok && (next.instance@, next_events) == s,
            None => result == Err::<(), ApplyError>(ApplyError::EntryNotFound) && next.instance@ == self.instance@
                && next_events == events,
        }
    }

    fn apply(
        &mut self,
        change: isis::ConfigChange,
        resource: &mut Option<isis::Resource>,
        event_queue: &mut OrdSet<isis::Event>,
    ) -> Result<(), ApplyError> {
        isis::apply_instance(&mut self.instance, change, event_queue)
    }

    open spec fn handles(self, next: Isis, event: isis::Event) -> bool {
        &&& next.instance@ == isis::event_done(self.instance@, event)
        &&& isis::acts(next.actions@) == isis::acts(self.actions@) + isis::event_actions(self.instance, event)
    }

    fn process_event(&mut self, event: isis::Event) {
        let ghost before = self.actions@;
        let mut more = isis::process_event(&mut self.instance, event);
        let ghost added = more@;
        self.actions.append(&mut more);
        assert(isis::acts(self.actions@) =~= isis::acts(before) + isis::acts(added));
    }
}

// ===== Ldp =====

/// LDP, with its instance.
pub struct Ldp {
    pub instance: ldp::Instance,
    /// What is left to be done.
    pub actions: Vec<ldp::Action>,
}

impl Provider for Ldp {
    type Event = ldp::Event;

    type Resource = ldp::Resource;

    type Change = ldp::ConfigChange;

    open spec fn takes(self, change: ldp::ConfigChange) -> bool {
        ldp::index_left(self.instance@, change)
    }

    open spec fn expects(self, event: ldp::EventView) -> bool {
        ldp::event_valid(self.instance@, event)
    }

    /// No change needs resources.
    open spec fn prepares(
        self,
        next: Ldp,
        change: ldp::ConfigChange,
        resource: Option<ldp::Resource>,
        events: Set<ldp::EventView>,
        next_events: Set<ldp::EventView>,
        result: Result<(), PrepareError>,
    ) -> bool {
        next == self && resource is None && next_events == events && result is Ok
    }

    fn prepare(
        &mut self,
        change: &ldp::ConfigChange,
        resource: &mut Option<ldp::Resource>,
        event_queue: &mut OrdSet<ldp::Event>,
    ) -> Result<(), PrepareError> {
        Ok(())
    }

    open spec fn aborts(self, next: Ldp, change: ldp::ConfigChange, resource: Option<ldp::Resource>) -> bool {
        next == self
    }

    fn abort(&mut self, change: ldp::ConfigChange, resource: &mut Option<ldp::Resource>) {
    }

    open spec fn applies(
        self,
        next: Ldp,
        change: ldp::ConfigChange,
        resource: Option<ldp::Resource>,
        events: Set<ldp::EventView>,
        next_events: Set<ldp::EventView>,
        result: Result<(), ApplyError>,
    ) -> bool {
        &&& next.actions == self.actions
        &&& match ldp::instance_changed(self.instance@, events, change) {
            Some(s) => result is Ok && (next.instance@, next_events) == s,
            None => result == Err::<(), ApplyError>(ApplyError::EntryNotFound) && next.instance@ == self.instance@
                && next_events == events,
        }
    }

    fn apply(
        &mut self,
        change: ldp::ConfigChange,
        resource: &mut Option<ldp::Resource>,
        event_queue: &mut OrdSet<ldp::Event>,
    ) -> Result<(), ApplyError> {
        ldp::apply_instance(&mut self.instance, change, event_queue)
    }

    open spec fn handles(self, next: Ldp, event: ldp::EventView) -> bool {
        &&& next.instance@ == ldp::event_done(self.instance@, event)
        &&& ldp::acts(next.actions@) == ldp::acts(self.actions@) + ldp::event_actions(self.instance, event)
    }

    fn process_event(&mut self, event: ldp::Event) {
        let ghost before = self.actions@;
        let mut more = ldp::process_event(&mut self.instance, event);
        let ghost added = more@;
        self.actions.append(&mut more);
        assert(ldp::acts(self.actions@) =~= ldp::acts(before) + ldp::acts(added));
    }
}

// ===== Bgp =====

/// BGP, with its instance.
pub struct Bgp {
    pub instance: bgp::Instance,
    /// What the instance has while it is up.
    pub state: Option<bgp::InstanceState>,
    /// What is left to be done.
    pub actions: Vec<bgp::Action>,
}

impl Provider for Bgp {
    type Event = bgp::Event;

    type Resource = bgp::Resource;

    type Change = bgp::ConfigChange;

    open spec fn takes(self, change: bgp::ConfigChange) -> bool {
        bgp::index_left(self.instance@, change)
    }

    open spec fn expects(self, event: bgp::Event) -> bool {
        bgp::event_expected(self.instance@, self.state is Some, event)
    }

    /// No change needs resources.
    open spec fn prepares(
        self,
        next: Bgp,
        change: bgp::ConfigChange,
        resource: Option<bgp::Resource>,
        events: Set<bgp::Event>,
        next_events: Set<bgp::Event>,
        result: Result<(), PrepareError>,
    ) -> bool {
        next == self && resource is None && next_events == events && result is Ok
    }

    fn prepare(
        &mut self,
        change: &bgp::ConfigChange,
        resource: &mut Option<bgp::Resource>,
        event_queue: &mut OrdSet<bgp::Event>,
    ) -> Result<(), PrepareError> {
        Ok(())
    }

    open spec fn aborts(self, next: Bgp, change: bgp::ConfigChange, resource: Option<bgp::Resource>) -> bool {
        next == self
    }

    fn abort(&mut self, change: bgp::ConfigChange, resource: &mut Option<bgp::Resource>) {
    }

    open spec fn applies(
        self,
        next: Bgp,
        change: bgp::ConfigChange,
        resource: Option<bgp::Resource>,
        events: Set<bgp::Event>,
        next_events: Set<bgp::Event>,
        result: Result<(), ApplyError>,
    ) -> bool {
        &&& next.actions == self.actions && next.state == self.state
        &&& match bgp::instance_changed(self.instance@, events, change) {
            Some(s) => result is Ok && (next.instance@, next_events) == s,
            None => result == Err::<(), ApplyError>(ApplyError::EntryNotFound) && next.instance@ == self.instance@
                && next_events == events,
        }
    }

    fn apply(
        &mut self,
        change: bgp::ConfigChange,
        resource: &mut Option<bgp::Resource>,
        event_queue: &mut OrdSet<bgp::Event>,
    ) -> Result<(), ApplyError> {
        bgp::apply_instance(&mut self.instance, change, event_queue)
    }

    open spec fn handles(self, next: Bgp, event: bgp::Event) -> bool {
        &&& bgp::event_handled(self.instance@, self.state, next.instance@, next.state, event)
        &&& bgp::actions_view(next.actions@) == bgp::actions_view(self.actions@)
            + bgp::event_actions(self.instance@, bgp::listeners_of(self.state), event)
    }

    fn process_event(&mut self, event: bgp::Event) {
        let ghost before = self.actions@;
        let mut more = bgp::process_event(&mut self.instance, &mut self.state, event);
        let ghost added = more@;
        self.actions.append(&mut more);
        assert(bgp::actions_view(self.actions@) =~= bgp::actions_view(before) + bgp::actions_view(added));
    }
}

// ===== Bfd =====

/// BFD, with all its sessions.
pub struct Bfd {
    pub master: bfd::Master,
    /// What is left to be done.
    pub actions: Vec<bfd::Action>,
}

impl Provider for Bfd {
    type Event = bfd::Event;

    type Resource = bfd::Resource;

    type Change = bfd::ConfigChange;

    open spec fn takes(self, change: bfd::ConfigChange) -> bool {
        bfd::index_left(self.master@, change)
    }

    open spec fn expects(self, event: bfd::Event) -> bool {
        event matches bfd::Event::AdminDownChange(k) ==> self.master@.sessions.contains_key(k)
    }

    /// No change needs resources.
    open spec fn prepares(
        self,
        next: Bfd,
        change: bfd::ConfigChange,
        resource: Option<bfd::Resource>,
        events: Set<bfd::Event>,
        next_events: Set<bfd::Event>,
        result: Result<(), PrepareError>,
    ) -> bool {
        next == self && resource is None && next_events == events && result is Ok
    }

    fn prepare(
        &mut self,
        change: &bfd::ConfigChange,
        resource: &mut Option<bfd::Resource>,
        event_queue: &mut OrdSet<bfd::Event>,
    ) -> Result<(), PrepareError> {
        Ok(())
    }

    open spec fn aborts(self, next: Bfd, change: bfd::ConfigChange, resource: Option<bfd::Resource>) -> bool {
        next == self
    }

    fn abort(&mut self, change: bfd::ConfigChange, resource: &mut Option<bfd::Resource>) {
    }

    open spec fn applies(
        self,
        next: Bfd,
        change: bfd::ConfigChange,
        resource: Option<bfd::Resource>,
        events: Set<bfd::Event>,
        next_events: Set<bfd::Event>,
        result: Result<(), ApplyError>,
    ) -> bool {
        &&& next.actions == self.actions
        &&& match bfd::master_changed(self.master@, events, change) {
            Some(s) => result is Ok && (next.master@, next_events) == s,
            None => result == Err::<(), ApplyError>(ApplyError::EntryNotFound) && next.master@ == self.master@
                && next_events == events,
        }
    }

    fn apply(
        &mut self,
        change: bfd::ConfigChange,
        resource: &mut Option<bfd::Resource>,
        event_queue: &mut OrdSet<bfd::Event>,
    ) -> Result<(), ApplyError> {
        bfd::apply_master(&mut self.master, change, event_queue)
    }

    open spec fn handles(self, next: Bfd, event: bfd::Event) -> bool {
        &&& next.master == self.master
        &&& next.actions@ == self.actions@.push(bfd::event_action(self.master@, event))
    }

    fn process_event(&mut self, event: bfd::Event) {
        let action = bfd::process_event(&self.master, event);
        self.actions.push(action);
    }
}

// ===== Keychains =====

/// The keychains of the system.
pub struct Keychains {
    pub master: keychain::Master,
    /// The time at which changes are made.
    pub now: keychain::DateTime,
    /// What is left to be done.
    pub actions: Vec<keychain::Action>,
}

impl Provider for Keychains {
    type Event = keychain::Event;

    type Resource = keychain::Resource;

    type Change = keychain::ConfigChange;

    open spec fn takes(self, change: keychain::ConfigChange) -> bool {
        let keychain::ConfigChange::KeyChain(name, change) = change;
        &&& keychain::all_valid(views(self.master.keychains@))
        &&& keychain::change_valid(views(self.master.keychains@), name@, change)
    }

    open spec fn expects(self, event: keychain::EventView) -> bool {
        true
    }

    /// No change needs resources.
    open spec fn prepares(
        self,
        next: Keychains,
        change: keychain::ConfigChange,
        resource: Option<keychain::Resource>,
        events: Set<keychain::EventView>,
        next_events: Set<keychain::EventView>,
        result: Result<(), PrepareError>,
    ) -> bool {
        next == self && resource is None && next_events == events && result is Ok
    }

    fn prepare(
        &mut self,
        change: &keychain::ConfigChange,
        resource: &mut Option<keychain::Resource>,
        event_queue: &mut OrdSet<keychain::Event>,
    ) -> Result<(), PrepareError> {
        Ok(())
    }

    open spec fn aborts(
        self,
        next: Keychains,
        change: keychain::ConfigChange,
        resource: Option<keychain::Resource>,
    ) -> bool {
        next == self
    }

    fn abort(&mut self, change: keychain::ConfigChange, resource: &mut Option<keychain::Resource>) {
    }

    open spec fn applies(
        self,
        next: Keychains,
        change: keychain::ConfigChange,
        resource: Option<keychain::Resource>,
        events: Set<keychain::EventView>,
        next_events: Set<keychain::EventView>,
        result: Result<(), ApplyError>,
    ) -> bool {
        let keychain::ConfigChange::KeyChain(name, change) = change;
        let keychains = views(self.master.keychains@);
        &&& next.actions == self.actions && next.now == self.now
        &&& next.master.digest_sizes == self.master.digest_sizes
        &&& keychain::all_valid(views(next.master.keychains@))
        &&& match keychain::keychains_changed(keychains, events, name@, change) {
            Some(s) => result is Ok && (views(next.master.keychains@), next_events) == s,
            None => result == Err::<(), ApplyError>(ApplyError::EntryNotFound) && views(next.master.keychains@)
                == keychains && next_events == events,
        }
    }

    fn apply(
        &mut self,
        change: keychain::ConfigChange,
        resource: &mut Option<keychain::Resource>,
        event_queue: &mut OrdSet<keychain::Event>,
    ) -> Result<(), ApplyError> {
        keychain::apply_master(&mut self.master, change, event_queue)
    }

    open spec fn handles(self, next: Keychains, event: keychain::EventView) -> bool {
        &&& next.now == self.now
        &&& exists|action: Option<keychain::Action>|
            {
                &&& #[trigger] keychain::event_handled(self.master, next.master, event, self.now, action)
                &&& next.actions@ == match action {
                    Some(action) => self.actions@.push(action),
                    None => self.actions@,
                }
            }
    }

    fn process_event(&mut self, event: keychain::Event) {
        let ghost e = event@;
        let ghost before = *self;
        match keychain::process_event(&mut self.master, event, self.now) {
            Some(action) => {
                let ghost done: Option<keychain::Action> = Some(action);
                self.actions.push(action);
                assert(keychain::event_handled(before.master, self.master, e, self.now, done));
                assert(self.actions@ == before.actions@.push(done->0));
            },
            None => {
                assert(keychain::event_handled(before.master, self.master, e, self.now, None));
            },
        }
    }
}

// ===== Links =====

/// The interfaces of the system.
pub struct Links {
    pub interfaces: Interfaces,
    /// Whether interfaces are enabled by default.
    pub enabled: bool,
    /// What is left to be sent, for each event.
    pub effects: Vec<Effects>,
    /// The interfaces on which VRRP is to be started.
    pub vrrp: Vec<String>,
}

impl Provider for Links {
    type Event = interface::Event;

    type Resource = interface::Resource;

    type Change = interface::ConfigChange;

    open spec fn takes(self, change: interface::ConfigChange) -> bool {
        self.interfaces@.wf() && interface::change_valid(change)
    }

    open spec fn expects(self, event: interface::EventView) -> bool {
        self.interfaces@.wf()
    }

    /// Interfaces are created during the Prepare phase.
    open spec fn prepares(
        self,
        next: Links,
        change: interface::ConfigChange,
        resource: Option<interface::Resource>,
        events: Set<interface::EventView>,
        next_events: Set<interface::EventView>,
        result: Result<(), PrepareError>,
    ) -> bool {
        &&& next.enabled == self.enabled && next.effects == self.effects && next.vrrp == self.vrrp
        &&& resource is None
        &&& result is Ok
        &&& next.interfaces@.wf()
        &&& interface::interface_prepared(self.interfaces@, next.interfaces@, change, events, next_events, self.enabled)
    }

    fn prepare(
        &mut self,
        change: &interface::ConfigChange,
        resource: &mut Option<interface::Resource>,
        event_queue: &mut OrdSet<interface::Event>,
    ) -> Result<(), PrepareError> {
        interface::prepare_master(&mut self.interfaces, change, event_queue, self.enabled);
        Ok(())
    }

    open spec fn aborts(
        self,
        next: Links,
        change: interface::ConfigChange,
        resource: Option<interface::Resource>,
    ) -> bool {
        next == self
    }

    fn abort(&mut self, change: interface::ConfigChange, resource: &mut Option<interface::Resource>) {
    }

    open spec fn applies(
        self,
        next: Links,
        change: interface::ConfigChange,
        resource: Option<interface::Resource>,
        events: Set<interface::EventView>,
        next_events: Set<interface::EventView>,
        result: Result<(), ApplyError>,
    ) -> bool {
        let interface::ConfigChange::Interface(name, change) = change;
        &&& next.enabled == self.enabled && next.effects == self.effects && next.vrrp == self.vrrp
        &&& next.interfaces@.wf()
        &&& match interface::interface_changed(self.interfaces@, events, name@, change) {
            Some(s) => result is Ok && (next.interfaces@, next_events) == s,
            None => result == Err::<(), ApplyError>(ApplyError::EntryNotFound) && next.interfaces@
                == self.interfaces@ && next_events == events,
        }
    }

    fn apply(
        &mut self,
        change: interface::ConfigChange,
        resource: &mut Option<interface::Resource>,
        event_queue: &mut OrdSet<interface::Event>,
    ) -> Result<(), ApplyError> {
        interface::apply_master(&mut self.interfaces, change, event_queue)
    }

    open spec fn handles(self, next: Links, event: interface::EventView) -> bool {
        &&& next.enabled == self.enabled
        &&& next.interfaces@.wf()
        &&& match event {
            interface::EventView::VrrpStart(name) => {
                &&& next.interfaces == self.interfaces && next.effects == self.effects
                &&& next.vrrp@.len() == self.vrrp@.len() + 1
                &&& next.vrrp@.drop_last() == self.vrrp@
                &&& next.vrrp@.last()@ == name
            },
            _ => {
                &&& next.vrrp == self.vrrp
                &&& next.effects@.len() == self.effects@.len() + 1
                &&& next.effects@.drop_last() == self.effects@
                &&& interface::event_handled(self.interfaces, next.interfaces, event, next.effects@.last())
            },
        }
    }

    fn process_event(&mut self, event: interface::Event) {
        let ghost before = *self;
        match event {
            interface::Event::VrrpStart(name) => {
                self.vrrp.push(name);
                assert(self.vrrp@.drop_last() =~= before.vrrp@);
            },
            event => {
                let effects = interface::process_event(&mut self.interfaces, event);
                self.effects.push(effects);
                assert(self.effects@.drop_last() =~= before.effects@);
            },
        }
    }
}

// ===== laws =====

/// Ospf prepares nothing, so that preparing succeeds and aborting has nothing to undo. A change
/// is applied in full or, where its entry is missing, not at all.
pub proof fn ospf_changes_are_applied_in_full(
    a: Ospf,
    b: Ospf,
    change: ospf::ConfigChange,
    p: Option<ospf::Resource>,
    q: Set<ospf::EventView>,
    r: Set<ospf::EventView>,
    prepared: Result<(), PrepareError>,
    applied: Result<(), ApplyError>,
)
    ensures
        a.prepares(b, change, p, q, r, prepared) ==> b == a && p is None && r == q && prepared is Ok,
        a.aborts(b, change, p) ==> b == a,
        a.applies(b, change, p, q, r, applied) ==> {
            let s = ospf::instance_changed(a.instance@, q, change);
            &&& b.actions == a.actions
            &&& s is Some ==> applied is Ok && b.instance@ == (s->0).0 && r == (s->0).1
            &&& s is None ==> applied is Err && b.instance@ == a.instance@ && r == q
        },
{
}

/// Isis prepares nothing, so that preparing succeeds and aborting has nothing to undo. A change
/// is applied in full or, where its entry is missing, not at all.
pub proof fn isis_changes_are_applied_in_full(
    a: Isis,
    b: Isis,
    change: isis::ConfigChange,
    p: Option<isis::Resource>,
    q: Set<isis::Event>,
    r: Set<isis::Event>,
    prepared: Result<(), PrepareError>,
    applied: Result<(), ApplyError>,
)
    ensures
        a.prepares(b, change, p, q, r, prepared) ==> b == a && p is None && r == q && prepared is Ok,
        a.aborts(b, change, p) ==> b == a,
        a.applies(b, change, p, q, r, applied) ==> {
            let s = isis::instance_changed(a.instance@, q, change);
            &&& b.actions == a.actions
            &&& s is Some ==> applied is Ok && b.instance@ == (s->0).0 && r == (s->0).1
            &&& s is None ==> applied is Err && b.instance@ == a.instance@ && r == q
        },
{
}

/// Ldp prepares nothing, so that preparing succeeds and aborting has nothing to undo. A change
/// is applied in full or, where its entry is missing, not at all.
pub proof fn ldp_changes_are_applied_in_full(
    a: Ldp,
    b: Ldp,
    change: ldp::ConfigChange,
    p: Option<ldp::Resource>,
    q: Set<ldp::EventView>,
    r: Set<ldp::EventView>,
    prepared: Result<(), PrepareError>,
    applied: Result<(), ApplyError>,
)
    ensures
        a.prepares(b, change, p, q, r, prepared) ==> b == a && p is None && r == q && prepared is Ok,
        a.aborts(b, change, p) ==> b == a,
        a.applies(b, change, p, q, r, applied) ==> {
            let s = ldp::instance_changed(a.instance@, q, change);
            &&& b.actions == a.actions
            &&& s is Some ==> applied is Ok && b.instance@ == (s->0).0 && r == (s->0).1
            &&& s is None ==> applied is Err && b.instance@ == a.instance@ && r == q
        },
{
}

/// Bgp prepares nothing, so that preparing succeeds and aborting has nothing to undo. A change
/// is applied in full or, where its entry is missing, not at all.
pub proof fn bgp_changes_are_applied_in_full(
    a: Bgp,
    b: Bgp,
    change: bgp::ConfigChange,
    p: Option<bgp::Resource>,
    q: Set<bgp::Event>,
    r: Set<bgp::Event>,
    prepared: Result<(), PrepareError>,
    applied: Result<(), ApplyError>,
)
    ensures
        a.prepares(b, change, p, q, r, prepared) ==> b == a && p is None && r == q && prepared is Ok,
        a.aborts(b, change, p) ==> b == a,
        a.applies(b, change, p, q, r, applied) ==> {
            let s = bgp::instance_changed(a.instance@, q, change);
            &&& b.actions == a.actions
            &&& s is Some ==> applied is Ok && b.instance@ == (s->0).0 && r == (s->0).1
            &&& s is None ==> applied is Err && b.instance@ == a.instance@ && r == q
        },
{
}

/// Bfd prepares nothing, so that preparing succeeds and aborting has nothing to undo. A change
/// is applied in full or, where its entry is missing, not at all.
pub proof fn bfd_changes_are_applied_in_full(
    a: Bfd,
    b: Bfd,
    change: bfd::ConfigChange,
    p: Option<bfd::Resource>,
    q: Set<bfd::Event>,
    r: Set<bfd::Event>,
    prepared: Result<(), PrepareError>,
    applied: Result<(), ApplyError>,
)
    ensures
        a.prepares(b, change, p, q, r, prepared) ==> b == a && p is None && r == q && prepared is Ok,
        a.aborts(b, change, p) ==> b == a,
        a.applies(b, change, p, q, r, applied) ==> {
            let s = bfd::master_changed(a.master@, q, change);
            &&& b.actions == a.actions
            &&& s is Some ==> applied is Ok && b.master@ == (s->0).0 && r == (s->0).1
            &&& s is None ==> applied is Err && b.master@ == a.master@ && r == q
        },
{
}

/// What is left to be done about an event of Ospf is gathered after what was left before.
pub proof fn ospf_actions_are_gathered(a: Ospf, b: Ospf, e: ospf::EventView)
    requires
        a.handles(b, e),
    ensures
        b.instance@ == ospf::event_done(a.instance@, e),
        ospf::acts(b.actions@) == ospf::acts(a.actions@) + ospf::event_actions(a.instance, e),
{
}

/// What is left to be done about an event of Isis is gathered after what was left before.
pub proof fn isis_actions_are_gathered(a: Isis, b: Isis, e: isis::Event)
    requires
        a.handles(b, e),
    ensures
        b.instance@ == isis::event_done(a.instance@, e),
        isis::acts(b.actions@) == isis::acts(a.actions@) + isis::event_actions(a.instance, e),
{
}

/// What is left to be done about an event of Ldp is gathered after what was left before.
pub proof fn ldp_actions_are_gathered(a: Ldp, b: Ldp, e: ldp::EventView)
    requires
        a.handles(b, e),
    ensures
        b.instance@ == ldp::event_done(a.instance@, e),
        ldp::acts(b.actions@) == ldp::acts(a.actions@) + ldp::event_actions(a.instance, e),
{
}

} // verus!
