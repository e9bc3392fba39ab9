//! What configuration changes and transactions promise.
//!
//! Each law speaks of the schema, the difference between configurations and the
//! changes, or of the changes of a transaction and what happened to them.

use vstd::prelude::*;

use crate::collections::{lex_irreflexive, Key};
use crate::northbound::configuration::{
    aborted_all, changes_view, creation, deletion, diff_changes, entry_changes, failures_of, finish_applied,
    handled, in_order, member, owned_changes, prepare_outcome, ApplyFailure, ChangeOp, ConfigChange,
    ConfigChangeView, ConfigOp, DataDiffOp, DataNode, DiffEntry, LocalChange, PendingChange, Provider, Run,
    SchemaNode, SchemaNodeKind,
};
use crate::northbound::error::{ApplyError, Error};

verus! {

// ===== operations =====

/// What is not configuration never changes. Lists, leaf-lists and presence
/// containers are created and deleted, never modified, and other containers do
/// not change by themselves.
pub proof fn entries_are_created_and_deleted(snode: SchemaNode)
    ensures
        !snode.config ==> !ChangeOp::Create.valid(snode) && !ChangeOp::Modify.valid(snode) && !ChangeOp::Delete.valid(
            snode,
        ),
        snode.config && (snode.kind == SchemaNodeKind::List || snode.kind == SchemaNodeKind::LeafList)
            ==> ChangeOp::Create.valid(snode) && ChangeOp::Delete.valid(snode) && !ChangeOp::Modify.valid(snode),
        snode.config && snode.kind == SchemaNodeKind::Container ==> !ChangeOp::Modify.valid(snode)
            && ChangeOp::Create.valid(snode) == !snode.np_container && ChangeOp::Delete.valid(snode)
            == !snode.np_container,
        snode.kind != SchemaNodeKind::List && snode.kind != SchemaNodeKind::LeafList && snode.kind
            != SchemaNodeKind::Container && snode.kind != SchemaNodeKind::Leaf ==> !ChangeOp::Create.valid(snode)
            && !ChangeOp::Modify.valid(snode) && !ChangeOp::Delete.valid(snode),
{
}

/// A leaf with a value is modified, unless it is a list key; one of type empty is
/// created. A leaf that is no list key is deleted if it is optional, or can go with
/// its case or condition; one with a default or that is mandatory is not.
pub proof fn leaves_are_modified(snode: SchemaNode)
    requires
        snode.config,
        snode.kind == SchemaNodeKind::Leaf,
    ensures
        ChangeOp::Create.valid(snode) == snode.empty_type,
        ChangeOp::Modify.valid(snode) == (!snode.empty_type && !snode.list_key),
        snode.list_key ==> !ChangeOp::Delete.valid(snode),
        !snode.list_key && snode.parent == Some(SchemaNodeKind::Case) ==> ChangeOp::Delete.valid(snode),
        !snode.list_key && snode.conditional ==> ChangeOp::Delete.valid(snode),
        !snode.list_key && !snode.mandatory && !snode.has_default ==> ChangeOp::Delete.valid(snode),
        snode.parent != Some(SchemaNodeKind::Case) && !snode.conditional && (snode.mandatory || snode.has_default)
            ==> !ChangeOp::Delete.valid(snode),
{
}

/// Creating an element puts it into a set, deleting it takes it out, and neither
/// concerns another one.
pub proof fn members_come_and_go<T>(s: Set<T>, x: T, y: T)
    ensures
        member(s, ConfigOp::Create, x).contains(x),
        !member(s, ConfigOp::Delete, x).contains(x),
        y != x ==> member(s, ConfigOp::Create, x).contains(y) == s.contains(y),
        y != x ==> member(s, ConfigOp::Delete, x).contains(y) == s.contains(y),
{
}

// ===== changes of a difference =====

/// Whether changes are exactly the ones before, followed by one of a data node.
pub open spec fn one_more(
    after: Seq<ConfigChangeView>,
    before: Seq<ConfigChangeView>,
    node: DataNode,
    operation: ChangeOp,
) -> bool {
    &&& after.len() == before.len() + 1
    &&& after.take(before.len() as int) == before
    &&& after.last().path == node.schema_path@
    &&& after.last().data_path == node.path@
    &&& after.last().operation == operation
}

/// The entries of a difference are taken in order; an empty one gives no change.
pub proof fn differences_are_taken_in_order(diff: Seq<DiffEntry>, entry: DiffEntry)
    ensures
        diff_changes(Seq::empty()).len() == 0,
        diff_changes(diff.push(entry)).len() >= diff_changes(diff).len(),
        diff_changes(diff.push(entry)).take(diff_changes(diff).len() as int) == diff_changes(diff),
        diff_changes(diff.push(entry)).skip(diff_changes(diff).len() as int) == diff_changes(seq![entry]),
{
    assert(diff.push(entry).drop_last() =~= diff);
    let one = seq![entry];
    assert(one.drop_last() =~= Seq::empty());
    assert(diff_changes(Seq::<DiffEntry>::empty()).len() == 0);
    reveal_with_fuel(diff_changes, 2);
    assert(diff_changes(one) =~= entry_changes(entry));
    assert(diff_changes(diff.push(entry)).take(diff_changes(diff).len() as int) =~= diff_changes(diff));
    assert(diff_changes(diff.push(entry)).skip(diff_changes(diff).len() as int) =~= diff_changes(one));
}

/// A deleted node that can be deleted gives exactly one change, its deletion;
/// what was below it goes with it.
pub proof fn deleted_nodes_give_one_deletion(diff: Seq<DiffEntry>, entry: DiffEntry)
    requires
        entry.op == DataDiffOp::Delete,
        ChangeOp::Delete.valid(entry.node.schema),
    ensures
        one_more(diff_changes(diff.push(entry)), diff_changes(diff), entry.node, ChangeOp::Delete),
{
    differences_are_taken_in_order(diff, entry);
    assert(diff.push(entry).drop_last() =~= diff);
}

/// A node with another value gives exactly one change, its modification, if it can
/// be modified, and none otherwise.
pub proof fn replaced_values_give_one_modification(diff: Seq<DiffEntry>, entry: DiffEntry)
    requires
        entry.op == DataDiffOp::Replace,
    ensures
        ChangeOp::Modify.valid(entry.node.schema) ==> one_more(
            diff_changes(diff.push(entry)),
            diff_changes(diff),
            entry.node,
            ChangeOp::Modify,
        ),
        !ChangeOp::Modify.valid(entry.node.schema) ==> diff_changes(diff.push(entry)) == diff_changes(diff),
{
    differences_are_taken_in_order(diff, entry);
    assert(diff.push(entry).drop_last() =~= diff);
    assert(diff_changes(diff) + Seq::empty() =~= diff_changes(diff));
}

/// The operation that the creation of a data node is: it is created, or modified
/// where it cannot be created. A default value is no change.
pub open spec fn created_by(node: DataNode) -> Option<ChangeOp> {
    if node.default {
        None
    } else if ChangeOp::Create.valid(node.schema) {
        Some(ChangeOp::Create)
    } else if ChangeOp::Modify.valid(node.schema) {
        Some(ChangeOp::Modify)
    } else {
        None
    }
}

/// A created node gives a change of its own, if it has any, and then each node
/// below it does, in their order.
pub proof fn created_nodes_give_changes_downwards(
    diff: Seq<DiffEntry>,
    entry: DiffEntry,
    longer: DiffEntry,
    node: DataNode,
)
    requires
        entry.op == DataDiffOp::Create,
        longer.op == DataDiffOp::Create,
        longer.node == entry.node,
        longer.descendants@ == entry.descendants@.push(node),
    ensures
        entry.descendants@.len() == 0 ==> match created_by(entry.node) {
            Some(op) => one_more(diff_changes(diff.push(entry)), diff_changes(diff), entry.node, op),
            None => diff_changes(diff.push(entry)) == diff_changes(diff),
        },
        match created_by(node) {
            Some(op) => one_more(diff_changes(diff.push(longer)), diff_changes(diff.push(entry)), node, op),
            None => diff_changes(diff.push(longer)) == diff_changes(diff.push(entry)),
        },
{
    assert(diff.push(entry).drop_last() =~= diff);
    assert(diff.push(longer).drop_last() =~= diff);
    assert(entry.descendants@.push(node).drop_last() =~= entry.descendants@);
    let a = diff_changes(diff.push(entry));
    let b = diff_changes(diff.push(longer));
    assert(b =~= a + match created_by(node) {
        Some(operation) => seq![ConfigChangeView { path: node.schema_path@, operation, data_path: node.path@ }],
        None => Seq::empty(),
    });
    assert(b.take(a.len() as int) =~= a);
    if entry.descendants@.len() == 0 {
        assert(a =~= diff_changes(diff) + match created_by(entry.node) {
            Some(operation) => seq![
                ConfigChangeView { path: entry.node.schema_path@, operation, data_path: entry.node.path@ },
            ],
            None => Seq::empty(),
        });
        assert(a.take(diff_changes(diff).len() as int) =~= diff_changes(diff));
    }
}

/// Where a deleted node cannot be deleted itself, each node below it that can is
/// deleted, in their order, and nothing else changes.
pub proof fn undeletable_nodes_pass_deletion_on(
    diff: Seq<DiffEntry>,
    entry: DiffEntry,
    longer: DiffEntry,
    node: DataNode,
)
    requires
        entry.op == DataDiffOp::Delete,
        longer.op == DataDiffOp::Delete,
        longer.node == entry.node,
        longer.descendants@ == entry.descendants@.push(node),
        !ChangeOp::Delete.valid(entry.node.schema),
    ensures
        entry.descendants@.len() == 0 ==> diff_changes(diff.push(entry)) == diff_changes(diff),
        ChangeOp::Delete.valid(node.schema) ==> one_more(
            diff_changes(diff.push(longer)),
            diff_changes(diff.push(entry)),
            node,
            ChangeOp::Delete,
        ),
        !ChangeOp::Delete.valid(node.schema) ==> diff_changes(diff.push(longer)) == diff_changes(diff.push(entry)),
{
    assert(diff.push(entry).drop_last() =~= diff);
    assert(diff.push(longer).drop_last() =~= diff);
    assert(entry.descendants@.push(node).drop_last() =~= entry.descendants@);
    let a = diff_changes(diff.push(entry));
    let b = diff_changes(diff.push(longer));
    if ChangeOp::Delete.valid(node.schema) {
        assert(b =~= a.push(
            ConfigChangeView {
                path: node.schema_path@,
                operation: ChangeOp::Delete,
                data_path: node.path@,
            },
        ));
        assert(b.take(a.len() as int) =~= a);
    } else {
        assert(b =~= a);
    }
    if entry.descendants@.len() == 0 {
        assert(a =~= diff_changes(diff));
    }
}

/// What the changes of a difference say is what the executed function returns:
/// path, operation and data path of each.
pub proof fn changes_say_what_they_are(changes: Seq<ConfigChange>, i: int)
    requires
        0 <= i < changes.len(),
    ensures
        changes_view(changes).len() == changes.len(),
        changes_view(changes)[i].path == changes[i].key.path@,
        changes_view(changes)[i].operation == changes[i].key.operation,
        changes_view(changes)[i].data_path == changes[i].data_path@,
{
}

/// Each change goes to exactly one side, by whether the provider owns its path,
/// and the order stays.
pub proof fn changes_have_one_owner(changes: Seq<ConfigChange>, paths: Set<Seq<char>>, c: ConfigChange)
    ensures
        owned_changes(Seq::empty(), paths, true).len() == 0,
        owned_changes(Seq::empty(), paths, false).len() == 0,
        paths.contains(c.key.path@) ==> owned_changes(changes.push(c), paths, true) == owned_changes(
            changes,
            paths,
            true,
        ).push(c) && owned_changes(changes.push(c), paths, false) == owned_changes(changes, paths, false),
        !paths.contains(c.key.path@) ==> owned_changes(changes.push(c), paths, false) == owned_changes(
            changes,
            paths,
            false,
        ).push(c) && owned_changes(changes.push(c), paths, true) == owned_changes(changes, paths, true),
{
    reveal(Seq::filter);
    assert(changes.push(c).drop_last() =~= changes);
}

// ===== transactions =====

/// A phase that prepared all changes has parsed each of them, recorded each with
/// its own paths and in order, and prepared each in the state that the one before
/// it left. Then every queued event was handled once, in ascending order.
pub proof fn prepared_changes_are_all_recorded<P: Provider>(
    p: P,
    next: P,
    changes: Seq<LocalChange<P>>,
    recorded: Seq<PendingChange<P>>,
    run: Run<P>,
    i: int,
)
    requires
        prepare_outcome(p, next, changes, recorded, run, Ok(())),
        0 <= i < changes.len(),
    ensures
        recorded.len() == changes.len(),
        changes[i].parsed is Ok,
        recorded[i].change == changes[i].parsed->Ok_0,
        recorded[i].key == changes[i].key,
        recorded[i].data_path == changes[i].data_path,
        run.states[0] == p,
        run.queues[0] == Set::<<P::Event as View>::V>::empty(),
        run.states[i].prepares(
            run.states[i + 1],
            changes[i].parsed->Ok_0,
            recorded[i].resource,
            run.queues[i],
            run.queues[i + 1],
            Ok(()),
        ),
        exists|states: Seq<P>, items: Seq<<P::Event as View>::V>|
            {
                &&& #[trigger] handled(states, items)
                &&& states[0] == run.states[changes.len() as int]
                &&& states.last() == next
                &&& items.no_duplicates()
                &&& forall|e: <P::Event as View>::V| #[trigger]
                    items.contains(e) == run.queues[changes.len() as int].contains(e)
            },
{
    let states_items = choose|states: Seq<P>, items: Seq<<P::Event as View>::V>|
        {
            &&& #[trigger] handled(states, items)
            &&& states[0] == run.states.last()
            &&& states.last() == next
            &&& items.to_set() == run.queues.last()
            &&& in_order::<P>(items)
        };
    events_are_distinct::<P>(states_items.1);
    assert forall|e: <P::Event as View>::V| #[trigger]
        states_items.1.contains(e) == run.queues[changes.len() as int].contains(e) by {
        assert(states_items.1.to_set().contains(e) == states_items.1.contains(e));
    }
    assert(recorded[i].key == changes[i].key);
}

proof fn events_are_distinct<P: Provider>(items: Seq<<P::Event as View>::V>)
    requires
        in_order::<P>(items),
    ensures
        items.no_duplicates(),
{
    assert forall|i: int, j: int| 0 <= i < j < items.len() implies items[i] != items[j] by {
        lex_irreflexive(<P::Event as Key>::code(items[i]));
    }
}

/// Events are handled one after the other, each in the state that the one before
/// it left.
pub proof fn events_are_handled_in_turn<P: Provider>(
    states: Seq<P>,
    items: Seq<<P::Event as View>::V>,
    i: int,
)
    requires
        handled(states, items),
        0 <= i < items.len(),
    ensures
        states.len() == items.len() + 1,
        states[i].handles(states[i + 1], items[i]),
{
}

/// A phase that met a change that could not be parsed has prepared exactly those
/// before it, says which one it was and why, and handles no event.
pub proof fn unparsed_changes_stop_the_phase<P: Provider>(
    p: P,
    next: P,
    changes: Seq<LocalChange<P>>,
    recorded: Seq<PendingChange<P>>,
    run: Run<P>,
    error: Error,
)
    requires
        prepare_outcome(p, next, changes, recorded, run, Err(error)),
    ensures
        error is Parse || error is Prepare,
        error matches Error::Parse { path, error: reason } ==> {
            let n = recorded.len() as int;
            &&& n < changes.len()
            &&& changes[n].parsed is Err && changes[n].parsed->Err_0 == reason
            &&& path@ == changes[n].data_path@
            &&& next == run.states[n]
            &&& forall|i: int| 0 <= i < n ==> (#[trigger] changes[i]).parsed is Ok
        },
        error matches Error::Prepare { path, error: reason } ==> {
            let n = recorded.len() - 1;
            &&& 0 <= n < changes.len()
            &&& changes[n].parsed is Ok && recorded[n].change == changes[n].parsed->Ok_0
            &&& path@ == changes[n].data_path@
            &&& next == run.states[n + 1]
            &&& run.states[n].prepares(
                next,
                changes[n].parsed->Ok_0,
                recorded[n].resource,
                run.queues[n],
                run.queues[n + 1],
                Err(reason),
            )
            &&& forall|i: int| 0 <= i <= n ==> (#[trigger] changes[i]).parsed is Ok
        },
{
    if error is Parse {
        assert forall|i: int| 0 <= i < recorded.len() implies (#[trigger] changes[i]).parsed is Ok by {
            assert(recorded[i].key == changes[i].key);
        }
    } else {
        assert forall|i: int| 0 <= i < recorded.len() implies (#[trigger] changes[i]).parsed is Ok by {
            assert(recorded[i].key == changes[i].key);
        }
    }
}

/// A finished transaction has applied each pending change once, in order and with
/// the resource that was prepared for it, whether or not those before it could be
/// applied. Then every queued event was handled once.
pub proof fn pending_changes_are_all_applied<P: Provider>(
    p: P,
    next: P,
    pending: Seq<PendingChange<P>>,
    run: Run<P>,
    results: Seq<Result<(), ApplyError>>,
    failures: Seq<ApplyFailure>,
    i: int,
)
    requires
        finish_applied(p, next, pending, run, results, failures),
        0 <= i < pending.len(),
    ensures
        run.states[0] == p,
        run.queues[0] == Set::<<P::Event as View>::V>::empty(),
        results.len() == pending.len(),
        run.states[i].applies(
            run.states[i + 1],
            pending[i].change,
            pending[i].resource,
            run.queues[i],
            run.queues[i + 1],
            results[i],
        ),
        exists|states: Seq<P>, items: Seq<<P::Event as View>::V>|
            {
                &&& #[trigger] handled(states, items)
                &&& states[0] == run.states[pending.len() as int]
                &&& states.last() == next
                &&& items.no_duplicates()
                &&& forall|e: <P::Event as View>::V| #[trigger]
                    items.contains(e) == run.queues[pending.len() as int].contains(e)
            },
{
    let states_items = choose|states: Seq<P>, items: Seq<<P::Event as View>::V>|
        {
            &&& #[trigger] handled(states, items)
            &&& states[0] == run.states.last()
            &&& states.last() == next
            &&& items.to_set() == run.queues.last()
            &&& in_order::<P>(items)
        };
    events_are_distinct::<P>(states_items.1);
    assert forall|e: <P::Event as View>::V| #[trigger]
        states_items.1.contains(e) == run.queues[pending.len() as int].contains(e) by {
        assert(states_items.1.to_set().contains(e) == states_items.1.contains(e));
    }
    assert(results[i] == results[i]);
}

/// The failures are exactly the changes that could not be applied, with their data
/// paths and errors, in order.
pub proof fn failures_name_the_failed_changes<P: Provider>(
    pending: Seq<PendingChange<P>>,
    results: Seq<Result<(), ApplyError>>,
    result: Result<(), ApplyError>,
)
    ensures
        failures_of(pending, Seq::empty()).len() == 0,
        result is Ok ==> failures_of(pending, results.push(result)) == failures_of(pending, results),
        result matches Err(error) ==> failures_of(pending, results.push(result)) == failures_of(
            pending,
            results,
        ).push((pending[results.len() as int].data_path@, error)),
{
    assert(results.push(result).drop_last() =~= results);
}

/// An aborted transaction has released each pending change once, in order.
pub proof fn pending_changes_are_all_aborted<P: Provider>(states: Seq<P>, pending: Seq<PendingChange<P>>, i: int)
    requires
        aborted_all(states, pending),
        0 <= i < pending.len(),
    ensures
        states.len() == pending.len() + 1,
        states[i].aborts(states[i + 1], pending[i].change, pending[i].resource),
{
}

} // verus!
