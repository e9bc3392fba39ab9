//! Configuration changes and their transactions.

use vstd::prelude::*;

use crate::collections::{Key, OrdSet};
use crate::northbound::error::{ApplyError, Error, ParseError, PrepareError, ValidationError};

verus! {

/// An inheritable configuration value.
///
/// `explicit` is an optional explicit value, and `resolved` the resolved
/// configuration value (inherited or explicit).
#[derive(Debug)]
pub struct InheritableConfig<T> {
    pub explicit: Option<T>,
    pub resolved: T,
}

#[derive(Clone, Copy, Debug, PartialEq, Eq, Structural)]
pub enum CommitPhase {
    Prepare,
    Abort,
    Apply,
}

/// Operation carried by a configuration change.
#[derive(Clone, Copy, Debug, PartialEq, Eq, Structural)]
pub enum ChangeOp {
    Create,
    Modify,
    Delete,
}

/// Operation carried by typed configuration changes whose nodes can only be
/// created or deleted (lists, leaf-lists, presence containers and leaves of
/// type empty).
#[derive(Clone, Copy, Debug, PartialEq, Eq, Structural)]
pub enum ConfigOp {
    Create,
    Delete,
}

/// Key identifying a configuration change.
#[derive(Debug)]
pub struct ChangeKey {
    pub path: String,
    pub operation: ChangeOp,
}

#[derive(Clone, Copy, Debug, PartialEq, Eq, Structural)]
pub enum SchemaNodeKind {
    Container,
    Case,
    Choice,
    Leaf,
    LeafList,
    List,
    AnyData,
    Rpc,
    Action,
    Input,
    Output,
    Notification,
}

/// A node of the schema, as far as changes depend on it.
#[derive(Clone, Copy, Debug, PartialEq, Eq, Structural)]
pub struct SchemaNode {
    pub kind: SchemaNodeKind,
    /// Whether the node is configuration, as opposed to state.
    pub config: bool,
    /// Whether the node is a leaf whose base type is empty.
    pub empty_type: bool,
    /// Whether the node is a container without presence.
    pub np_container: bool,
    pub list_key: bool,
    pub parent: Option<SchemaNodeKind>,
    /// Whether the node has a `when` statement.
    pub conditional: bool,
    pub mandatory: bool,
    pub has_default: bool,
}

/// A set after an element was created in it or deleted from it.
pub open spec fn member<T>(s: Set<T>, op: ConfigOp, x: T) -> Set<T> {
    match op {
        ConfigOp::Create => s.insert(x),
        ConfigOp::Delete => s.remove(x),
    }
}

/// The changes that nodes of a schema can have, as far as a provider owns them.
#[derive(Debug)]
pub struct YangConfigOps {
    pub change_keys: Vec<ChangeKey>,
}

impl YangConfigOps {
    /// Returns the YANG paths of all configuration nodes owned by this table.
    pub fn paths(&self) -> (r: Vec<String>)
        ensures
            r@.len() == self.change_keys@.len(),
            forall|i: int| 0 <= i < r@.len() ==> (#[trigger] r@[i])@ == self.change_keys@[i].path@,
    {
        let mut r: Vec<String> = Vec::new();
        let mut i: usize = 0;
        while i < self.change_keys.len()
            invariant
                i <= self.change_keys@.len(),
                r@.len() == i,
                forall|k: int| 0 <= k < i ==> (#[trigger] r@[k])@ == self.change_keys@[k].path@,
            decreases self.change_keys@.len() - i,
        {
            r.push(self.change_keys[i].path.clone());
            i = i + 1;
        }
        r
    }
}

// ===== impl InheritableConfig =====

impl<T> InheritableConfig<T> {
    /// A value that is inherited.
    pub fn new(resolved: T) -> (r: Self)
        ensures
            r == (InheritableConfig { explicit: None, resolved }),
    {
        InheritableConfig { explicit: None, resolved }
    }
}

// ===== impl ChangeOp =====

impl ChangeOp {
    /// Whether nodes of the given schema node can change in this way.
    pub open spec fn valid(self, snode: SchemaNode) -> bool {
        snode.config && match snode.kind {
            SchemaNodeKind::Leaf => match self {
                ChangeOp::Create => snode.empty_type,
                ChangeOp::Modify => !snode.empty_type && !snode.list_key,
                ChangeOp::Delete => !snode.list_key && (snode.parent == Some(SchemaNodeKind::Case) || snode.conditional
                    || !(snode.mandatory || snode.has_default)),
            },
            SchemaNodeKind::Container => self != ChangeOp::Modify && !snode.np_container,
            SchemaNodeKind::LeafList | SchemaNodeKind::List => self != ChangeOp::Modify,
            _ => false,
        }
    }

    pub fn is_valid(&self, snode: &SchemaNode) -> (r: bool)
        ensures
            r == self.valid(*snode),
    {
        match self {
            ChangeOp::Create => ChangeOp::create_is_valid(snode),
            ChangeOp::Modify => ChangeOp::modify_is_valid(snode),
            ChangeOp::Delete => ChangeOp::delete_is_valid(snode),
        }
    }

    fn create_is_valid(snode: &SchemaNode) -> (r: bool)
        ensures
            r == ChangeOp::Create.valid(*snode),
    {
        if !snode.config {
            return false;
        }
        match snode.kind {
            SchemaNodeKind::Leaf => snode.empty_type,
            SchemaNodeKind::Container => !snode.np_container,
            SchemaNodeKind::LeafList | SchemaNodeKind::List => true,
            _ => false,
        }
    }

    fn modify_is_valid(snode: &SchemaNode) -> (r: bool)
        ensures
            r == ChangeOp::Modify.valid(*snode),
    {
        if !snode.config {
            return false;
        }
        match snode.kind {
            // List keys can't be modified.
            SchemaNodeKind::Leaf => !(snode.empty_type || snode.list_key),
            _ => false,
        }
    }

    fn delete_is_valid(snode: &SchemaNode) -> (r: bool)
        ensures
            r == ChangeOp::Delete.valid(*snode),
    {
        if !snode.config {
            return false;
        }
        match snode.kind {
            SchemaNodeKind::Leaf => {
                // List keys can't be deleted.
                if snode.list_key {
                    return false;
                }

                // Only optional leaves can be deleted, or leaves whose
                // parent is a case statement.
                if let Some(SchemaNodeKind::Case) = snode.parent {
                    return true;
                }
                if snode.conditional {
                    return true;
                }
                !(snode.mandatory || snode.has_default)
            },
            SchemaNodeKind::Container => !snode.np_container,
            SchemaNodeKind::LeafList | SchemaNodeKind::List => true,
            _ => false,
        }
    }

    /// No node can be both created and modified, so the change that creates a
    /// node is unambiguous.
    pub proof fn create_excludes_modify(snode: SchemaNode)
        ensures
            !(ChangeOp::Create.valid(snode) && ChangeOp::Modify.valid(snode)),
    {
    }

    /// Whatever can be created other than a list key can be deleted again,
    /// unless it is a leaf that must have a value.
    pub proof fn created_can_be_deleted(snode: SchemaNode)
        requires
            ChangeOp::Create.valid(snode),
            snode.kind == SchemaNodeKind::Leaf ==> !snode.list_key && !snode.mandatory && !snode.has_default,
        ensures
            ChangeOp::Delete.valid(snode),
    {
    }

    /// A list key is neither modified nor deleted, and state is not changed at
    /// all.
    pub proof fn keys_and_state_are_fixed(op: ChangeOp, snode: SchemaNode)
        requires
            op.valid(snode),
        ensures
            snode.config,
            snode.kind == SchemaNodeKind::Leaf && snode.list_key ==> op == ChangeOp::Create,
    {
    }
}

// ===== changes of a configuration =====

#[derive(Clone, Copy, Debug, PartialEq, Eq, Structural)]
pub enum DataDiffOp {
    Create,
    Delete,
    Replace,
}

/// A data node of a difference.
#[derive(Debug)]
pub struct DataNode {
    pub schema: SchemaNode,
    /// Path of the schema node.
    pub schema_path: String,
    /// Path of the data node.
    pub path: String,
    /// Whether the node holds a default value.
    pub default: bool,
}

/// One entry of a difference between configurations: a data node, followed by
/// its descendants in the order of traversal.
#[derive(Debug)]
pub struct DiffEntry {
    pub op: DataDiffOp,
    pub node: DataNode,
    pub descendants: Vec<DataNode>,
}

/// A change of the configuration, and the path of the data node that changes.
#[derive(Debug)]
pub struct ConfigChange {
    pub key: ChangeKey,
    pub data_path: String,
}

#[verifier::ext_equal]
pub struct ConfigChangeView {
    pub path: Seq<char>,
    pub operation: ChangeOp,
    pub data_path: Seq<char>,
}

impl View for ConfigChange {
    type V = ConfigChangeView;

    open spec fn view(&self) -> ConfigChangeView {
        ConfigChangeView { path: self.key.path@, operation: self.key.operation, data_path: self.data_path@ }
    }
}

impl ChangeKey {
    pub fn new(path: String, operation: ChangeOp) -> (r: ChangeKey)
        ensures
            r == (ChangeKey { path, operation }),
    {
        ChangeKey { path, operation }
    }
}

pub open spec fn changes_view(changes: Seq<ConfigChange>) -> Seq<ConfigChangeView> {
    changes.map_values(|c: ConfigChange| c@)
}

/// The operation that creates a data node, if its creation is a change.
pub open spec fn creation(node: DataNode) -> Option<ChangeOp> {
    if node.default {
        None
    } else if ChangeOp::Create.valid(node.schema) {
        Some(ChangeOp::Create)
    } else if ChangeOp::Modify.valid(node.schema) {
        Some(ChangeOp::Modify)
    } else {
        None
    }
}

/// The operation that deletes a data node, if its deletion is a change.
pub open spec fn deletion(node: DataNode) -> Option<ChangeOp> {
    if ChangeOp::Delete.valid(node.schema) {
        Some(ChangeOp::Delete)
    } else {
        None
    }
}

/// The change of a data node by the given operation, if there is one.
pub open spec fn node_change(node: DataNode, op: Option<ChangeOp>) -> Seq<ConfigChangeView> {
    match op {
        Some(operation) => seq![
            ConfigChangeView { path: node.schema_path@, operation, data_path: node.path@ },
        ],
        None => Seq::empty(),
    }
}

/// The changes of a list of data nodes that are all created, or all deleted.
pub open spec fn node_changes(nodes: Seq<DataNode>, create: bool) -> Seq<ConfigChangeView>
    decreases nodes.len(),
{
    if nodes.len() == 0 {
        Seq::empty()
    } else {
        let last = nodes.last();
        node_changes(nodes.drop_last(), create) + node_change(
            last,
            if create {
                creation(last)
            } else {
                deletion(last)
            },
        )
    }
}

/// The changes of one entry of a difference. Where a node itself cannot be
/// deleted, those of its descendants are that can.
pub open spec fn entry_changes(entry: DiffEntry) -> Seq<ConfigChangeView> {
    match entry.op {
        DataDiffOp::Create => node_change(entry.node, creation(entry.node)) + node_changes(entry.descendants@, true),
        DataDiffOp::Delete => if ChangeOp::Delete.valid(entry.node.schema) {
            node_change(entry.node, Some(ChangeOp::Delete))
        } else {
            node_changes(entry.descendants@, false)
        },
        DataDiffOp::Replace => node_change(
            entry.node,
            if ChangeOp::Modify.valid(entry.node.schema) {
                Some(ChangeOp::Modify)
            } else {
                None
            },
        ),
    }
}

/// The changes of a difference, entry by entry.
pub open spec fn diff_changes(diff: Seq<DiffEntry>) -> Seq<ConfigChangeView>
    decreases diff.len(),
{
    if diff.len() == 0 {
        Seq::empty()
    } else {
        diff_changes(diff.drop_last()) + entry_changes(diff.last())
    }
}

fn push_change(changes: &mut Vec<ConfigChange>, node: &DataNode, operation: ChangeOp)
    ensures
        changes_view(final(changes)@) == changes_view(old(changes)@) + node_change(*node, Some(operation)),
{
    let change = ConfigChange {
        key: ChangeKey::new(node.schema_path.clone(), operation),
        data_path: node.path.clone(),
    };
    let ghost before = changes@;
    changes.push(change);
    assert(changes_view(changes@) =~= changes_view(before) + node_change(*node, Some(operation)));
}

fn push_created(changes: &mut Vec<ConfigChange>, node: &DataNode)
    ensures
        changes_view(final(changes)@) == changes_view(old(changes)@) + node_change(*node, creation(*node)),
{
    assert(changes_view(changes@) =~= changes_view(changes@) + Seq::<ConfigChangeView>::empty());
    if node.default {
        return;
    }
    if ChangeOp::Create.is_valid(&node.schema) {
        push_change(changes, node, ChangeOp::Create);
    } else if ChangeOp::Modify.is_valid(&node.schema) {
        push_change(changes, node, ChangeOp::Modify);
    }
}

fn push_deleted(changes: &mut Vec<ConfigChange>, node: &DataNode)
    ensures
        changes_view(final(changes)@) == changes_view(old(changes)@) + node_change(*node, deletion(*node)),
{
    assert(changes_view(changes@) =~= changes_view(changes@) + Seq::<ConfigChangeView>::empty());
    if ChangeOp::Delete.is_valid(&node.schema) {
        push_change(changes, node, ChangeOp::Delete);
    }
}

fn push_all(changes: &mut Vec<ConfigChange>, nodes: &Vec<DataNode>, create: bool)
    ensures
        changes_view(final(changes)@) == changes_view(old(changes)@) + node_changes(nodes@, create),
{
    let mut i: usize = 0;
    assert(nodes@.take(0) =~= Seq::empty());
    assert(changes_view(changes@) =~= changes_view(changes@) + Seq::<ConfigChangeView>::empty());
    while i < nodes.len()
        invariant
            i <= nodes@.len(),
            changes_view(changes@) == changes_view(old(changes)@) + node_changes(nodes@.take(i as int), create),
        decreases nodes@.len() - i,
    {
        if create {
            push_created(changes, &nodes[i]);
        } else {
            push_deleted(changes, &nodes[i]);
        }
        proof {
            let next = nodes@.take(i + 1);
            assert(next.drop_last() =~= nodes@.take(i as int));
            assert(next.last() == nodes@[i as int]);
            assert(changes_view(changes@) =~= changes_view(old(changes)@) + node_changes(next, create));
        }
        i += 1;
    }
    assert(nodes@.take(i as int) =~= nodes@);
}

/// The changes that lead from one configuration to another, given their
/// difference.
pub fn changes_from_diff(diff: &Vec<DiffEntry>) -> (changes: Vec<ConfigChange>)
    ensures
        changes_view(changes@) == diff_changes(diff@),
{
    let mut changes: Vec<ConfigChange> = Vec::new();
    let mut i: usize = 0;
    assert(diff@.take(0) =~= Seq::empty());
    assert(changes_view(changes@) =~= Seq::empty());
    while i < diff.len()
        invariant
            i <= diff@.len(),
            changes_view(changes@) == diff_changes(diff@.take(i as int)),
        decreases diff@.len() - i,
    {
        let entry = &diff[i];
        let ghost before = changes_view(changes@);
        match entry.op {
            DataDiffOp::Create => {
                push_created(&mut changes, &entry.node);
                push_all(&mut changes, &entry.descendants, true);
                assert(changes_view(changes@) =~= before + entry_changes(*entry));
            },
            DataDiffOp::Delete => {
                if ChangeOp::Delete.is_valid(&entry.node.schema) {
                    push_change(&mut changes, &entry.node, ChangeOp::Delete);
                } else {
                    // NP-containers.
                    push_all(&mut changes, &entry.descendants, false);
                }
            },
            DataDiffOp::Replace => {
                if ChangeOp::Modify.is_valid(&entry.node.schema) {
                    push_change(&mut changes, &entry.node, ChangeOp::Modify);
                } else {
                    assert(before =~= before + entry_changes(*entry));
                }
            },
        }
        proof {
            assert(diff@.take(i + 1).drop_last() =~= diff@.take(i as int));
            assert(diff@.take(i + 1).last() == *entry);
        }
        i += 1;
    }
    assert(diff@.take(i as int) =~= diff@);
    changes
}

/// Whether a change is one that its schema node allows.
pub open spec fn allowed(change: ConfigChangeView, nodes: Set<DataNode>) -> bool {
    exists|node: DataNode| #[trigger]
        nodes.contains(node) && change.path == node.schema_path@ && change.data_path == node.path@
            && change.operation.valid(node.schema)
}

/// The data nodes of a difference.
pub open spec fn diff_nodes(diff: Seq<DiffEntry>) -> Set<DataNode> {
    Set::new(
        |n: DataNode|
            exists|i: int|
                0 <= i < diff.len() && ((#[trigger] diff[i]).node == n || diff[i].descendants@.contains(n)),
    )
}

proof fn node_changes_allowed(nodes: Seq<DataNode>, create: bool, all: Set<DataNode>)
    requires
        forall|i: int| 0 <= i < nodes.len() ==> all.contains(#[trigger] nodes[i]),
    ensures
        forall|k: int| 0 <= k < node_changes(nodes, create).len() ==> allowed(
            #[trigger] node_changes(nodes, create)[k],
            all,
        ),
    decreases nodes.len(),
{
    if nodes.len() > 0 {
        let prev = nodes.drop_last();
        node_changes_allowed(prev, create, all);
        assert(all.contains(nodes[nodes.len() - 1]));
        assert forall|k: int| 0 <= k < node_changes(nodes, create).len() implies allowed(
            #[trigger] node_changes(nodes, create)[k],
            all,
        ) by {
            if k < node_changes(prev, create).len() {
                assert(allowed(node_changes(prev, create)[k], all));
            }
        }
    }
}

/// Every change of a difference is one that the schema allows on a data node
/// of the difference.
pub proof fn diff_changes_allowed(diff: Seq<DiffEntry>)
    ensures
        forall|k: int| 0 <= k < diff_changes(diff).len() ==> allowed(
            #[trigger] diff_changes(diff)[k],
            diff_nodes(diff),
        ),
    decreases diff.len(),
{
    if diff.len() > 0 {
        let prev = diff.drop_last();
        let all = diff_nodes(diff);
        let entry = diff.last();
        diff_changes_allowed(prev);
        assert forall|n: DataNode| #[trigger] diff_nodes(prev).contains(n) implies all.contains(n) by {
            let i = choose|i: int|
                0 <= i < prev.len() && ((#[trigger] prev[i]).node == n || prev[i].descendants@.contains(n));
            assert(diff[i] == prev[i]);
        }
        assert(diff[diff.len() - 1] == entry);
        assert(all.contains(entry.node));
        assert forall|i: int| 0 <= i < entry.descendants@.len() implies all.contains(
            #[trigger] entry.descendants@[i],
        ) by {
            assert(entry.descendants@.contains(entry.descendants@[i]));
        }
        node_changes_allowed(entry.descendants@, true, all);
        node_changes_allowed(entry.descendants@, false, all);
        assert forall|k: int| 0 <= k < diff_changes(diff).len() implies allowed(
            #[trigger] diff_changes(diff)[k],
            all,
        ) by {
            let n = diff_changes(prev).len();
            if k < n {
                assert(allowed(diff_changes(prev)[k], diff_nodes(prev)));
            } else {
                let c = entry_changes(entry)[k - n];
                if entry.op == DataDiffOp::Create {
                    let m = node_change(entry.node, creation(entry.node)).len();
                    if k - n >= m {
                        assert(allowed(node_changes(entry.descendants@, true)[k - n - m], all));
                    }
                } else if entry.op == DataDiffOp::Delete && !ChangeOp::Delete.valid(entry.node.schema) {
                    assert(allowed(node_changes(entry.descendants@, false)[k - n], all));
                }
            }
        }
    }
}

// ===== transactions =====

/// A component that owns part of the configuration. What each method may do is
/// up to the component: the relations say how its state, the resource of the
/// change and the queued events may differ afterwards.
pub trait Provider: Sized {
    type Event: Key;

    type Resource;

    type Change;

    /// Whether a change can be prepared or applied in this state.
    spec fn takes(self, change: Self::Change) -> bool;

    /// Whether an event can be processed in this state.
    spec fn expects(self, event: <Self::Event as View>::V) -> bool;

    spec fn prepares(
        self,
        next: Self,
        change: Self::Change,
        resource: Option<Self::Resource>,
        events: Set<<Self::Event as View>::V>,
        next_events: Set<<Self::Event as View>::V>,
        result: Result<(), PrepareError>,
    ) -> bool;

    /// Invoked during the Prepare phase for each typed configuration change.
    /// May allocate the resources required by the change, rejecting the commit
    /// when the allocation fails.
    fn prepare(
        &mut self,
        change: &Self::Change,
        resource: &mut Option<Self::Resource>,
        event_queue: &mut OrdSet<Self::Event>,
    ) -> (result: Result<(), PrepareError>)
        requires
            old(self).takes(*change),
            *old(resource) is None,
        ensures
            old(self).prepares(
                *final(self),
                *change,
                *final(resource),
                old(event_queue)@,
                final(event_queue)@,
                result,
            ),
    ;

    spec fn aborts(self, next: Self, change: Self::Change, resource: Option<Self::Resource>) -> bool;

    /// Invoked during the Abort phase for each typed configuration change,
    /// releasing resources allocated during the Prepare phase.
    fn abort(&mut self, change: Self::Change, resource: &mut Option<Self::Resource>)
        ensures
            old(self).aborts(*final(self), change, *old(resource)),
    ;

    spec fn applies(
        self,
        next: Self,
        change: Self::Change,
        resource: Option<Self::Resource>,
        events: Set<<Self::Event as View>::V>,
        next_events: Set<<Self::Event as View>::V>,
        result: Result<(), ApplyError>,
    ) -> bool;

    /// Invoked during the Apply phase for each typed configuration change.
    /// Returns an error when the change references a configuration entry that
    /// unexpectedly does not exist.
    fn apply(
        &mut self,
        change: Self::Change,
        resource: &mut Option<Self::Resource>,
        event_queue: &mut OrdSet<Self::Event>,
    ) -> (result: Result<(), ApplyError>)
        requires
            old(self).takes(change),
        ensures
            old(self).applies(
                *final(self),
                change,
                *old(resource),
                old(event_queue)@,
                final(event_queue)@,
                result,
            ),
    ;

    spec fn handles(self, next: Self, event: <Self::Event as View>::V) -> bool;

    fn process_event(&mut self, event: Self::Event)
        requires
            old(self).expects(event@),
        ensures
            old(self).handles(*final(self), event@),
    ;
}

/// A change of the configuration, and what its data node was parsed into.
pub struct LocalChange<P: Provider> {
    pub key: ChangeKey,
    pub data_path: String,
    pub parsed: Result<P::Change, ParseError>,
}

/// Configuration change parsed during the Prepare phase of a transaction,
/// together with the resource allocated for it. Kept by the provider until the
/// transaction is aborted or applied, so that each change is parsed only once.
pub struct PendingChange<P: Provider> {
    pub key: ChangeKey,
    pub data_path: String,
    pub change: P::Change,
    pub resource: Option<P::Resource>,
}

/// A change that could not be applied.
pub struct ApplyFailure {
    pub data_path: String,
    pub error: ApplyError,
}

/// What a provider went through: its states and the queued events, before the
/// first step and after each.
pub struct Run<P: Provider> {
    pub states: Seq<P>,
    pub queues: Seq<Set<<P::Event as View>::V>>,
}

impl<P: Provider> Run<P> {
    pub open spec fn start(p: P) -> Run<P> {
        Run { states: seq![p], queues: seq![Set::empty()] }
    }

    pub open spec fn then_step(self, p: P, queue: Set<<P::Event as View>::V>) -> Run<P> {
        Run { states: self.states.push(p), queues: self.queues.push(queue) }
    }

    /// Whether the run starts at the given state and has `n` steps.
    pub open spec fn runs(self, p: P, n: nat) -> bool {
        &&& self.states.len() == n + 1
        &&& self.queues.len() == n + 1
        &&& self.states[0] == p
        &&& self.queues[0] == Set::<<P::Event as View>::V>::empty()
    }

    /// Whether step `i` prepared the given change.
    pub open spec fn prepared(self, i: int, entry: PendingChange<P>, result: Result<(), PrepareError>) -> bool {
        self.states[i].prepares(
            self.states[i + 1],
            entry.change,
            entry.resource,
            self.queues[i],
            self.queues[i + 1],
            result,
        )
    }
}

/// Whether a pending change records a change that was parsed.
pub open spec fn records<P: Provider>(entry: PendingChange<P>, change: LocalChange<P>) -> bool {
    &&& entry.key == change.key
    &&& entry.data_path == change.data_path
    &&& change.parsed matches Ok(c) && entry.change == c
}

/// Whether the first changes were recorded as the given entries, each prepared
/// with success.
pub open spec fn prepared_ok<P: Provider>(
    run: Run<P>,
    changes: Seq<LocalChange<P>>,
    entries: Seq<PendingChange<P>>,
    n: int,
) -> bool {
    forall|i: int|
        0 <= i < n ==> records(#[trigger] entries[i], changes[i]) && run.prepared(i, entries[i], Ok(()))
}

/// Whether a provider went through the given states while it handled events
/// one after the other.
pub open spec fn handled<P: Provider>(states: Seq<P>, events: Seq<<P::Event as View>::V>) -> bool {
    &&& states.len() == events.len() + 1
    &&& forall|i: int| 0 <= i < events.len() ==> (#[trigger] states[i]).handles(states[i + 1], events[i])
}

/// Whether the events of a queue, in ascending order, lead from one state to
/// another.
pub open spec fn drains<P: Provider>(from: P, to: P, queue: Set<<P::Event as View>::V>) -> bool {
    exists|states: Seq<P>, items: Seq<<P::Event as View>::V>|
        {
            &&& #[trigger] handled(states, items)
            &&& states[0] == from
            &&& states.last() == to
            &&& items.to_set() == queue
            &&& in_order::<P>(items)
        }
}

/// Whether events stand in ascending order.
pub open spec fn in_order<P: Provider>(items: Seq<<P::Event as View>::V>) -> bool {
    forall|i: int, j: int|
        0 <= i < j < items.len() ==> crate::collections::lex_lt(
            <P::Event as Key>::code(#[trigger] items[i]),
            <P::Event as Key>::code(#[trigger] items[j]),
        )
}

/// Whether a provider that has handled the first events of a queue, in ascending
/// order, can process the next one.
pub open spec fn drainable<P: Provider>(from: P, queue: Set<<P::Event as View>::V>) -> bool {
    forall|states: Seq<P>, items: Seq<<P::Event as View>::V>, i: int|
        #![trigger handled(states, items.take(i))]
        {
            &&& 0 <= i < items.len()
            &&& handled(states, items.take(i))
            &&& states[0] == from
            &&& items.to_set() == queue
            &&& in_order::<P>(items)
        } ==> states[i].expects(items[i])
}

fn drain_events<P: Provider>(provider: &mut P, event_queue: &OrdSet<P::Event>)
    requires
        drainable(*old(provider), event_queue@),
    ensures
        drains(*old(provider), *final(provider), event_queue@),
{
    let n = event_queue.len();
    let ghost items = event_queue.items();
    let ghost mut states: Seq<P> = seq![*provider];
    let mut i: usize = 0;
    while i < n
        invariant
            i <= n,
            n == items.len(),
            items == event_queue.items(),
            event_queue.items_sorted(),
            drainable(*old(provider), event_queue@),
            states.len() == i + 1,
            states[0] == *old(provider),
            states.last() == *provider,
            forall|k: int| 0 <= k < i ==> (#[trigger] states[k]).handles(states[k + 1], items[k]),
        decreases n - i,
    {
        let event = event_queue.at(i).copy_key();
        let ghost prev = states;
        assert(in_order::<P>(items));
        assert(handled(states, items.take(i as int)));
        provider.process_event(event);
        proof {
            states = states.push(*provider);
            assert forall|k: int| 0 <= k < i + 1 implies (#[trigger] states[k]).handles(states[k + 1], items[k]) by {
                assert(states[k] == prev[k]);
            }
        }
        i += 1;
    }
    assert(in_order::<P>(items));
    assert(handled(states, items));
}

/// What the Prepare phase of local changes comes to.
pub open spec fn prepare_outcome<P: Provider>(
    p: P,
    next: P,
    changes: Seq<LocalChange<P>>,
    recorded: Seq<PendingChange<P>>,
    run: Run<P>,
    result: Result<(), Error>,
) -> bool {
    match result {
        // Every change was parsed and prepared, and the queued events were
        // processed.
        Ok(()) => {
            &&& recorded.len() == changes.len()
            &&& run.runs(p, changes.len())
            &&& prepared_ok(run, changes, recorded, changes.len() as int)
            &&& drains(run.states.last(), next, run.queues.last())
        },
        // The first change that could not be parsed is not recorded.
        Err(Error::Parse { path, error }) => {
            let n = recorded.len();
            &&& n < changes.len()
            &&& run.runs(p, n)
            &&& prepared_ok(run, changes, recorded, n as int)
            &&& next == run.states.last()
            &&& path == changes[n as int].data_path
            &&& changes[n as int].parsed == Err::<P::Change, ParseError>(error)
        },
        // The first change that could not be prepared is recorded, so that any
        // resource it allocated is released during the Abort phase.
        Err(Error::Prepare { path, error }) => {
            let n = recorded.len() - 1;
            &&& 0 <= n < changes.len()
            &&& run.runs(p, (n + 1) as nat)
            &&& prepared_ok(run, changes, recorded, n)
            &&& records(recorded[n], changes[n])
            &&& run.prepared(n, recorded[n], Err(error))
            &&& next == run.states.last()
            &&& path@ == changes[n].data_path@
        },
        _ => false,
    }
}

/// Whether the changes of the configuration can be prepared one after the other,
/// and the queued events processed.
pub open spec fn preparable<P: Provider>(p: P, changes: Seq<LocalChange<P>>) -> bool {
    &&& forall|run: Run<P>, entries: Seq<PendingChange<P>>, i: int|
        #![trigger prepared_ok(run, changes, entries, i)]
        0 <= i < changes.len() && run.runs(p, i as nat) && prepared_ok(run, changes, entries, i) && changes[i].parsed is Ok
            ==> run.states[i].takes(changes[i].parsed->Ok_0)
    &&& forall|run: Run<P>, entries: Seq<PendingChange<P>>|
        #![trigger prepared_ok(run, changes, entries, changes.len() as int)]
        run.runs(p, changes.len()) && prepared_ok(run, changes, entries, changes.len() as int) ==> drainable(
            run.states.last(),
            run.queues.last(),
        )
}

/// Prepares the changes of the configuration that the provider owns.
#[verifier::loop_isolation(false)]
pub fn process_commit_local_prepare<P: Provider>(
    provider: &mut P,
    changes: Vec<LocalChange<P>>,
    pending: &mut Vec<PendingChange<P>>,
) -> (result: Result<(), Error>)
    requires
        preparable(*old(provider), changes@),
    ensures
        ({
            let n = old(pending)@.len() as int;
            &&& final(pending)@.len() >= n
            &&& final(pending)@.take(n) == old(pending)@
            &&& exists|run: Run<P>|
                #[trigger] prepare_outcome(
                    *old(provider),
                    *final(provider),
                    changes@,
                    final(pending)@.skip(n),
                    run,
                    result,
                )
        }),
{
    let ghost p0 = *provider;
    let ghost base = pending@;
    let ghost n = base.len() as int;
    let ghost all = changes@;
    let mut event_queue: OrdSet<P::Event> = OrdSet::new();
    let ghost mut run = Run::start(p0);
    let mut changes = changes;
    let ghost mut i: int = 0;
    assert(pending@.skip(n) =~= Seq::empty());
    assert(pending@.take(n) =~= base);
    while changes.len() > 0
        invariant
            changes@ == all.skip(i),
            0 <= i <= all.len(),
            run.runs(p0, i as nat),
            run.states.last() == *provider,
            run.queues.last() == event_queue@,
            pending@.len() == n + i,
            pending@.take(n) == base,
            prepared_ok(run, all, pending@.skip(n), i),
        decreases changes@.len(),
    {
        let LocalChange { key, data_path, parsed } = changes.remove(0);
        assert(changes@ =~= all.skip(i + 1));
        let ghost recorded = pending@.skip(n);
        let change = match parsed {
            Ok(change) => change,
            Err(error) => {
                let r = Err(Error::Parse { path: data_path, error });
                assert(prepare_outcome(p0, *provider, all, pending@.skip(n), run, r));
                return r;
            },
        };

        // Record the change even on failure, so that any resource it allocated
        // is released during the Abort phase.
        let mut resource: Option<P::Resource> = None;
        assert(prepared_ok(run, all, pending@.skip(n), i));
        let result = provider.prepare(&change, &mut resource, &mut event_queue);
        let ghost outcome = result;
        let path = data_path.clone();
        let entry = PendingChange { key, data_path, change, resource };
        let ghost e = entry;
        pending.push(entry);
        proof {
            let next = run.then_step(*provider, event_queue@);
            assert(pending@.skip(n) =~= recorded.push(e));
            assert(pending@.take(n) =~= base);
            assert forall|k: int| 0 <= k < i implies records(#[trigger] pending@.skip(n)[k], all[k]) && next.prepared(
                k,
                pending@.skip(n)[k],
                Ok(()),
            ) by {
                assert(records(recorded[k], all[k]) && run.prepared(k, recorded[k], Ok(())));
            }
            run = next;
        }
        if let Err(error) = result {
            let r = Err(Error::Prepare { path, error });
            proof {
                assert(run.prepared(i, e, Err(error)));
                assert(prepare_outcome(p0, *provider, all, pending@.skip(n), run, r));
            }
            return r;
        }
        proof {
            assert(outcome->Ok_0 == ());
            assert(records(e, all[i]));
            assert(run.prepared(i, e, Ok(())));
            i = i + 1;
        }
    }

    // Process event queue once the running configuration is fully updated.
    assert(prepared_ok(run, all, pending@.skip(n), all.len() as int));
    drain_events(provider, &event_queue);
    assert(prepare_outcome(p0, *provider, all, pending@.skip(n), run, Ok::<(), Error>(())));
    Ok(())
}

/// Whether a run applied each of the pending changes, with the given results.
pub open spec fn applied_all<P: Provider>(
    run: Run<P>,
    pending: Seq<PendingChange<P>>,
    results: Seq<Result<(), ApplyError>>,
    n: int,
) -> bool {
    &&& results.len() == n
    &&& forall|i: int|
        #![trigger results[i]]
        0 <= i < n ==> run.states[i].applies(
            run.states[i + 1],
            pending[i].change,
            pending[i].resource,
            run.queues[i],
            run.queues[i + 1],
            results[i],
        )
}

/// The failures among results, with the paths of their changes.
pub open spec fn failures_of<P: Provider>(
    pending: Seq<PendingChange<P>>,
    results: Seq<Result<(), ApplyError>>,
) -> Seq<(Seq<char>, ApplyError)>
    decreases results.len(),
{
    if results.len() == 0 {
        Seq::empty()
    } else {
        let rest = failures_of(pending, results.drop_last());
        match results.last() {
            Ok(()) => rest,
            Err(error) => rest.push((pending[results.len() - 1].data_path@, error)),
        }
    }
}

pub open spec fn failures_view(failures: Seq<ApplyFailure>) -> Seq<(Seq<char>, ApplyError)> {
    failures.map_values(|f: ApplyFailure| (f.data_path@, f.error))
}

/// Whether a run aborted each of the pending changes.
pub open spec fn aborted_all<P: Provider>(states: Seq<P>, pending: Seq<PendingChange<P>>) -> bool {
    &&& states.len() == pending.len() + 1
    &&& forall|i: int|
        0 <= i < pending.len() ==> (#[trigger] states[i]).aborts(
            states[i + 1],
            pending[i].change,
            pending[i].resource,
        )
}

/// Whether the pending changes of a transaction were applied, the queued
/// events processed after the last of them.
pub open spec fn finish_applied<P: Provider>(
    p: P,
    next: P,
    pending: Seq<PendingChange<P>>,
    run: Run<P>,
    results: Seq<Result<(), ApplyError>>,
    failures: Seq<ApplyFailure>,
) -> bool {
    &&& run.runs(p, pending.len())
    &&& applied_all(run, pending, results, pending.len() as int)
    &&& failures_view(failures) == failures_of(pending, results)
    &&& drains(run.states.last(), next, run.queues.last())
}

/// Whether the pending changes of a transaction can be applied one after the
/// other, and the queued events processed.
pub open spec fn appliable<P: Provider>(p: P, pending: Seq<PendingChange<P>>) -> bool {
    &&& forall|run: Run<P>, results: Seq<Result<(), ApplyError>>, i: int|
        #![trigger applied_all(run, pending, results, i)]
        0 <= i < pending.len() && run.runs(p, i as nat) && applied_all(run, pending, results, i)
            ==> run.states[i].takes(pending[i].change)
    &&& forall|run: Run<P>, results: Seq<Result<(), ApplyError>>|
        #![trigger applied_all(run, pending, results, pending.len() as int)]
        run.runs(p, pending.len()) && applied_all(run, pending, results, pending.len() as int) ==> drainable(
            run.states.last(),
            run.queues.last(),
        )
}

/// Applies the changes parsed during the Prepare phase. A change that fails is
/// skipped and reported.
#[verifier::loop_isolation(false)]
fn finish_apply<P: Provider>(provider: &mut P, pending: Vec<PendingChange<P>>) -> (failures: Vec<ApplyFailure>)
    requires
        appliable(*old(provider), pending@),
    ensures
        exists|run: Run<P>, results: Seq<Result<(), ApplyError>>|
            #[trigger] finish_applied(*old(provider), *final(provider), pending@, run, results, failures@),
{
    let ghost p0 = *provider;
    let ghost all = pending@;
    let mut pending = pending;
    let mut event_queue: OrdSet<P::Event> = OrdSet::new();
    let mut failures: Vec<ApplyFailure> = Vec::new();
    let ghost mut run = Run::start(p0);
    let ghost mut results: Seq<Result<(), ApplyError>> = Seq::empty();
    let ghost mut i: int = 0;
    assert(failures_view(failures@) =~= Seq::empty());
    while pending.len() > 0
        invariant
            pending@ == all.skip(i),
            0 <= i <= all.len(),
            run.runs(p0, i as nat),
            run.states.last() == *provider,
            run.queues.last() == event_queue@,
            applied_all(run, all, results, i),
            failures_view(failures@) == failures_of(all, results),
        decreases pending@.len(),
    {
        let PendingChange { key: _, data_path, change, resource } = pending.remove(0);
        assert(pending@ =~= all.skip(i + 1));
        let mut resource = resource;
        let ghost old_run = run;
        let ghost old_results = results;
        let ghost old_failures = failures@;
        assert(applied_all(run, all, results, i));
        let result = provider.apply(change, &mut resource, &mut event_queue);
        proof {
            run = run.then_step(*provider, event_queue@);
            results = results.push(result);
            assert(results.drop_last() =~= old_results);
            assert forall|k: int|
                #![trigger results[k]]
                0 <= k < i + 1 implies run.states[k].applies(
                run.states[k + 1],
                all[k].change,
                all[k].resource,
                run.queues[k],
                run.queues[k + 1],
                results[k],
            ) by {
                if k < i {
                    assert(results[k] == old_results[k]);
                }
            }
        }
        if let Err(error) = result {
            failures.push(ApplyFailure { data_path, error });
            assert(failures_view(failures@) =~= failures_view(old_failures).push((data_path@, error)));
        }
        proof {
            i = i + 1;
        }
    }
    assert(i == all.len());
    assert(applied_all(run, all, results, all.len() as int));

    // Process event queue once the running configuration is fully updated.
    drain_events(provider, &event_queue);
    assert(finish_applied(p0, *provider, all, run, results, failures@));
    failures
}

/// Aborts the changes parsed during the Prepare phase.
#[verifier::loop_isolation(false)]
fn finish_abort<P: Provider>(provider: &mut P, pending: Vec<PendingChange<P>>)
    ensures
        exists|states: Seq<P>|
            #[trigger] aborted_all(
                states,
                pending@,
            ) && states[0] == *old(provider) && states.last() == *final(provider),
{
    let ghost p0 = *provider;
    let ghost all = pending@;
    let mut pending = pending;
    let ghost mut states: Seq<P> = seq![p0];
    let ghost mut i: int = 0;
    while pending.len() > 0
        invariant
            pending@ == all.skip(i),
            0 <= i <= all.len(),
            states.len() == i + 1,
            states[0] == p0,
            states.last() == *provider,
            forall|k: int|
                0 <= k < i ==> (#[trigger] states[k]).aborts(states[k + 1], all[k].change, all[k].resource),
        decreases pending@.len(),
    {
        let PendingChange { key: _, data_path: _, change, resource } = pending.remove(0);
        assert(pending@ =~= all.skip(i + 1));
        let mut resource = resource;
        let ghost prev = states;
        provider.abort(change, &mut resource);
        proof {
            states = states.push(*provider);
            assert forall|k: int| 0 <= k < i + 1 implies (#[trigger] states[k]).aborts(
                states[k + 1],
                all[k].change,
                all[k].resource,
            ) by {
                assert(states[k] == prev[k]);
            }
        }
        proof {
            i = i + 1;
        }
    }
    assert(aborted_all(states, all));
}

/// Finishes a transaction: applies or aborts the changes that were prepared.
/// Returns the changes that could not be applied.
pub fn process_commit_local_finish<P: Provider>(
    provider: &mut P,
    phase: CommitPhase,
    pending: Vec<PendingChange<P>>,
) -> (failures: Vec<ApplyFailure>)
    requires
        phase != CommitPhase::Abort ==> appliable(*old(provider), pending@),
    ensures
        phase == CommitPhase::Abort ==> failures@.len() == 0 && exists|states: Seq<P>|
            #[trigger] aborted_all(
                states,
                pending@,
            ) && states[0] == *old(provider) && states.last() == *final(provider),
        phase != CommitPhase::Abort ==> exists|run: Run<P>, results: Seq<Result<(), ApplyError>>|
            #[trigger] finish_applied(*old(provider), *final(provider), pending@, run, results, failures@),
{
    match phase {
        CommitPhase::Abort => {
            finish_abort(provider, pending);
            Vec::new()
        },
        _ => finish_apply(provider, pending),
    }
}

/// The changes whose path is, or is not, among the given ones.
pub open spec fn owned_changes(changes: Seq<ConfigChange>, paths: Set<Seq<char>>, owned: bool) -> Seq<ConfigChange> {
    changes.filter(|c: ConfigChange| paths.contains(c.key.path@) == owned)
}

/// Separates the changes that the provider owns from those that need to be
/// relayed, given the paths of the configuration nodes that it owns.
pub fn split_changes(changes: Vec<ConfigChange>, paths: &OrdSet<String>) -> (r: (Vec<ConfigChange>, Vec<ConfigChange>))
    ensures
        r.0@ == owned_changes(changes@, paths@, true),
        r.1@ == owned_changes(changes@, paths@, false),
{
    let ghost all = changes@;
    let mut changes = changes;
    let mut local: Vec<ConfigChange> = Vec::new();
    let mut relayed: Vec<ConfigChange> = Vec::new();
    let ghost mut i: int = 0;
    proof {
        reveal(Seq::filter);
        assert(all.take(0) =~= Seq::empty());
    }
    while changes.len() > 0
        invariant
            0 <= i <= all.len(),
            changes@ == all.skip(i),
            local@ == owned_changes(all.take(i), paths@, true),
            relayed@ == owned_changes(all.take(i), paths@, false),
        decreases changes@.len(),
    {
        let change = changes.remove(0);
        proof {
            reveal(Seq::filter);
            assert(changes@ =~= all.skip(i + 1));
            assert(all.take(i + 1).drop_last() =~= all.take(i));
            assert(all.take(i + 1).last() == change);
            i = i + 1;
        }
        if paths.contains(&change.key.path) {
            local.push(change);
        } else {
            relayed.push(change);
        }
    }
    assert(all.take(i) =~= all);
    (local, relayed)
}

/// Whether the phase succeeded, and the error otherwise.
pub open spec fn settled(r: Result<Vec<ApplyFailure>, Error>) -> Result<(), Error> {
    match r {
        Ok(_) => Ok(()),
        Err(error) => Err(error),
    }
}

/// Processes one phase of a transaction on the changes that the provider owns.
/// The Abort and Apply phases consume the changes parsed during the Prepare
/// phase. Returns the changes that could not be applied.
pub fn process_commit<P: Provider>(
    provider: &mut P,
    phase: CommitPhase,
    changes: Vec<LocalChange<P>>,
    pending: &mut Vec<PendingChange<P>>,
) -> (r: Result<Vec<ApplyFailure>, Error>)
    requires
        phase == CommitPhase::Prepare ==> preparable(*old(provider), changes@),
        phase == CommitPhase::Apply ==> appliable(*old(provider), old(pending)@),
    ensures
        phase == CommitPhase::Prepare ==> {
            let n = old(pending)@.len() as int;
            &&& final(pending)@.len() >= n
            &&& final(pending)@.take(n) == old(pending)@
            &&& r matches Ok(failures) ==> failures@.len() == 0
            &&& exists|run: Run<P>|
                #[trigger] prepare_outcome(
                    *old(provider),
                    *final(provider),
                    changes@,
                    final(pending)@.skip(n),
                    run,
                    settled(r),
                )
        },
        phase == CommitPhase::Abort ==> {
            &&& r matches Ok(failures) && failures@.len() == 0
            &&& final(pending)@.len() == 0
            &&& exists|states: Seq<P>|
                #[trigger] aborted_all(states, old(pending)@) && states[0] == *old(provider) && states.last()
                    == *final(provider)
        },
        phase == CommitPhase::Apply ==> {
            &&& r is Ok
            &&& final(pending)@.len() == 0
            &&& exists|run: Run<P>, results: Seq<Result<(), ApplyError>>|
                #[trigger] finish_applied(*old(provider), *final(provider), old(pending)@, run, results, r->Ok_0@)
        },
{
    match phase {
        CommitPhase::Prepare => {
            let result = process_commit_local_prepare(provider, changes, pending);
            let ghost outcome = result;
            let r: Result<Vec<ApplyFailure>, Error> = match result {
                Ok(()) => Ok(Vec::new()),
                Err(error) => Err(error),
            };
            assert(outcome is Ok ==> outcome->Ok_0 == ());
            assert(settled(r) == outcome);
            r
        },
        CommitPhase::Abort | CommitPhase::Apply => {
            let mut taken: Vec<PendingChange<P>> = Vec::new();
            std::mem::swap(&mut taken, pending);
            let failures = process_commit_local_finish(provider, phase, taken);
            let r: Result<Vec<ApplyFailure>, Error> = Ok(failures);
            assert(r->Ok_0@ == failures@);
            r
        },
    }
}

/// What became of changes that were relayed to a child task.
#[derive(Debug)]
pub enum RelayOutcome {
    /// The request could not be sent.
    NotSent,
    /// The task ended without a response.
    NoResponse,
    Response(Result<(), Error>),
}

/// The result of changes that were relayed to a child task.
pub fn process_commit_relayed(outcome: RelayOutcome) -> (r: Result<(), Error>)
    ensures
        match outcome {
            RelayOutcome::Response(result) => r == result,
            _ => r == Err::<(), Error>(Error::RelayUnreachable),
        },
{
    match outcome {
        RelayOutcome::NotSent => Err(Error::RelayUnreachable),
        RelayOutcome::NoResponse => Err(Error::RelayUnreachable),
        RelayOutcome::Response(result) => result,
    }
}

/// A part of a transaction: the changes that the provider owns, or those relayed
/// to one child task.
#[derive(Clone, Copy, Debug, PartialEq, Eq, Structural)]
pub enum CommitPart {
    Local,
    Relay(usize),
}

/// What follows a part of a transaction.
#[derive(Debug)]
pub enum CommitStep {
    /// The next part is processed.
    Next(CommitPart),
    /// The transaction has that result.
    Done(Result<(), Error>),
}

impl CommitPart {
    /// The parts in their order: the local one, then each child task.
    pub open spec fn nth(i: nat) -> CommitPart {
        if i == 0 {
            CommitPart::Local
        } else {
            CommitPart::Relay((i - 1) as usize)
        }
    }

    /// What follows this part, given how many child tasks there are and how the
    /// part ended. The first error ends the transaction.
    pub open spec fn after(self, relays: usize, outcome: Result<(), Error>) -> CommitStep {
        let next = match self {
            CommitPart::Local => 0,
            CommitPart::Relay(i) => i + 1,
        };
        match outcome {
            Err(error) => CommitStep::Done(Err(error)),
            Ok(()) => if next < relays {
                CommitStep::Next(CommitPart::Relay(next as usize))
            } else {
                CommitStep::Done(Ok(()))
            },
        }
    }
}

/// Decides what follows a part of a transaction.
pub fn commit_step(part: CommitPart, relays: usize, outcome: Result<(), Error>) -> (step: CommitStep)
    ensures
        step == part.after(relays, outcome),
{
    match outcome {
        Err(error) => CommitStep::Done(Err(error)),
        Ok(()) => {
            let more = match part {
                CommitPart::Local => 0 < relays,
                CommitPart::Relay(i) => i < relays && i + 1 < relays,
            };
            if more {
                CommitStep::Next(
                    match part {
                        CommitPart::Local => CommitPart::Relay(0),
                        CommitPart::Relay(i) => CommitPart::Relay(i + 1),
                    },
                )
            } else {
                CommitStep::Done(Ok(()))
            }
        },
    }
}

/// The parts of a transaction are processed in order, the local one first: each
/// one that succeeds is followed by the next, the first error ends the
/// transaction with that error, and the success of the last one ends it with
/// success.
pub proof fn commit_parts_in_order(relays: usize, outcomes: Seq<Result<(), Error>>, i: nat)
    requires
        outcomes.len() == relays + 1,
        i < outcomes.len(),
    ensures
        outcomes[i as int] is Ok && i + 1 < outcomes.len() ==> CommitPart::nth(i).after(relays, outcomes[i as int])
            == CommitStep::Next(CommitPart::nth(i + 1)),
        outcomes[i as int] is Ok && i + 1 == outcomes.len() ==> CommitPart::nth(i).after(relays, outcomes[i as int])
            == CommitStep::Done(Ok(())),
        outcomes[i as int] matches Err(error) ==> CommitPart::nth(i).after(relays, outcomes[i as int])
            == CommitStep::Done(Err(error)),
{
}

/// Turns the results of the validation functions, in their order, into that of
/// the validation: the first error among them, if any.
pub fn validate(results: Vec<Result<(), ValidationError>>) -> (r: Result<(), Error>)
    ensures
        match r {
            Ok(()) => forall|i: int| 0 <= i < results@.len() ==> (#[trigger] results@[i]) is Ok,
            Err(Error::Validate(error)) => exists|i: int|
                {
                    &&& 0 <= i < results@.len()
                    &&& #[trigger] results@[i] == Err::<(), ValidationError>(error)
                    &&& forall|k: int| 0 <= k < i ==> (#[trigger] results@[k]) is Ok
                },
            _ => false,
        },
{
    let ghost all = results@;
    let mut rest = results;
    let ghost mut i: int = 0;
    while rest.len() > 0
        invariant
            0 <= i <= all.len(),
            all == results@,
            rest@ == all.skip(i),
            forall|k: int| 0 <= k < i ==> (#[trigger] all[k]) is Ok,
        decreases rest@.len(),
    {
        let result = rest.remove(0);
        assert(rest@ =~= all.skip(i + 1));
        assert(all[i] == result);
        if let Err(error) = result {
            assert(all[i] == Err::<(), ValidationError>(error));
            return Err(Error::Validate(error));
        }
        proof {
            i = i + 1;
        }
    }
    Ok(())
}

} // verus!
