use holo::collections::{OrdSet, Table};
use holo::igmp::{Action, Defaults, Instance, InstanceCfg, InterfaceChange, InterfaceEntryChange};
use holo::northbound::configuration::{
    changes_from_diff, commit_step, process_commit, process_commit_relayed, split_changes, validate, ChangeKey, ChangeOp,
    CommitPart, CommitPhase, CommitStep, ConfigChange, DataDiffOp, DataNode, DiffEntry, InheritableConfig,
    LocalChange, PendingChange, RelayOutcome, SchemaNode, SchemaNodeKind, YangConfigOps,
};
use holo::northbound::debug::DebugRecord;
use holo::northbound::error::{ApplyError, Error, ParseError, PrepareError, ValidationError};

fn leaf() -> SchemaNode {
    SchemaNode {
        kind: SchemaNodeKind::Leaf,
        config: true,
        empty_type: false,
        np_container: false,
        list_key: false,
        parent: Some(SchemaNodeKind::Container),
        conditional: false,
        mandatory: false,
        has_default: false,
    }
}

fn list() -> SchemaNode {
    SchemaNode { kind: SchemaNodeKind::List, ..leaf() }
}

fn ops(snode: &SchemaNode) -> (bool, bool, bool) {
    (ChangeOp::Create.is_valid(snode), ChangeOp::Modify.is_valid(snode), ChangeOp::Delete.is_valid(snode))
}

#[test]
fn operations_follow_the_schema() {
    assert_eq!(ops(&leaf()), (false, true, true));
    assert_eq!(ops(&SchemaNode { mandatory: true, ..leaf() }), (false, true, false));
    assert_eq!(ops(&SchemaNode { has_default: true, ..leaf() }), (false, true, false));
    assert_eq!(ops(&SchemaNode { has_default: true, conditional: true, ..leaf() }), (false, true, true));
    assert_eq!(
        ops(&SchemaNode { mandatory: true, parent: Some(SchemaNodeKind::Case), ..leaf() }),
        (false, true, true)
    );
    assert_eq!(ops(&SchemaNode { empty_type: true, ..leaf() }), (true, false, true));
    assert_eq!(ops(&SchemaNode { list_key: true, ..leaf() }), (false, false, false));
    assert_eq!(ops(&SchemaNode { config: false, ..leaf() }), (false, false, false));
    assert_eq!(ops(&list()), (true, false, true));
    let container = SchemaNode { kind: SchemaNodeKind::Container, ..leaf() };
    assert_eq!(ops(&container), (true, false, true));
    assert_eq!(ops(&SchemaNode { np_container: true, ..container }), (false, false, false));
    assert_eq!(ops(&SchemaNode { kind: SchemaNodeKind::Choice, ..leaf() }), (false, false, false));
}

fn node(schema: SchemaNode, path: &str) -> DataNode {
    DataNode { schema, schema_path: path.to_owned(), path: path.to_owned(), default: false }
}

fn keys(changes: &[ConfigChange]) -> Vec<(String, ChangeOp)> {
    changes.iter().map(|change| (change.key.path.clone(), change.key.operation)).collect()
}

#[test]
fn created_subtrees_become_changes() {
    let diff = vec![
        DiffEntry {
            op: DataDiffOp::Create,
            node: node(list(), "/list"),
            descendants: vec![
                node(SchemaNode { list_key: true, ..leaf() }, "/list/name"),
                node(leaf(), "/list/value"),
                DataNode { default: true, ..node(leaf(), "/list/other") },
            ],
        },
        DiffEntry { op: DataDiffOp::Replace, node: node(leaf(), "/leaf"), descendants: vec![] },
    ];
    let changes = changes_from_diff(&diff);
    assert_eq!(
        keys(&changes),
        vec![
            ("/list".to_owned(), ChangeOp::Create),
            ("/list/value".to_owned(), ChangeOp::Modify),
            ("/leaf".to_owned(), ChangeOp::Modify),
        ]
    );
}

#[test]
fn changes_are_split_by_owner() {
    let change = |path: &str| ConfigChange {
        key: ChangeKey::new(path.to_owned(), ChangeOp::Create),
        data_path: path.to_owned(),
    };
    let table = YangConfigOps { change_keys: vec![ChangeKey::new("/a".to_owned(), ChangeOp::Create)] };
    let mut paths = OrdSet::new();
    for path in table.paths() {
        paths.insert(path);
    }
    let (local, relayed) = split_changes(vec![change("/a"), change("/b"), change("/a")], &paths);
    assert_eq!(keys(&local).len(), 2);
    assert_eq!(keys(&relayed), vec![("/b".to_owned(), ChangeOp::Create)]);
}

#[test]
fn first_validation_error_counts() {
    assert!(validate(vec![Ok(()), Ok(())]).is_ok());
    let results =
        vec![Ok(()), Err(ValidationError::new("/x", "first")), Err(ValidationError::new("/y", "second"))];
    match validate(results) {
        Err(Error::Validate(error)) => assert_eq!(error.message(), "/x: first"),
        _ => panic!("validation passed"),
    }
}

#[test]
fn relayed_changes_need_a_response() {
    assert!(matches!(process_commit_relayed(RelayOutcome::NotSent), Err(Error::RelayUnreachable)));
    assert!(matches!(process_commit_relayed(RelayOutcome::NoResponse), Err(Error::RelayUnreachable)));
    assert!(process_commit_relayed(RelayOutcome::Response(Ok(()))).is_ok());
    assert!(matches!(
        process_commit_relayed(RelayOutcome::Response(Err(Error::RpcNotFound))),
        Err(Error::RpcNotFound)
    ));
}

#[test]
fn child_tasks_follow_the_local_changes() {
    let next = |part| commit_step(part, 2, Ok(()));
    assert!(matches!(next(CommitPart::Local), CommitStep::Next(CommitPart::Relay(0))));
    assert!(matches!(next(CommitPart::Relay(0)), CommitStep::Next(CommitPart::Relay(1))));
    assert!(matches!(next(CommitPart::Relay(1)), CommitStep::Done(Ok(()))));
    assert!(matches!(commit_step(CommitPart::Local, 0, Ok(())), CommitStep::Done(Ok(()))));

    // The first error is the last thing that happens.
    for part in [CommitPart::Local, CommitPart::Relay(0), CommitPart::Relay(1)] {
        let step = commit_step(part, 2, Err(Error::RelayUnreachable));
        assert!(matches!(step, CommitStep::Done(Err(Error::RelayUnreachable))));
    }
}

#[test]
fn inherited_values_are_not_explicit() {
    let value = InheritableConfig::new(5);
    assert_eq!(value.explicit, None);
    assert_eq!(value.resolved, 5);
}

// ===== transactions =====

fn provider() -> Instance {
    Instance {
        config: InstanceCfg::default(),
        interfaces: Table::new(),
        up: true,
        actions: vec![],
        defaults: Defaults {
            last_member_query_interval: 1,
            query_interval: 125,
            query_max_response_time: 10,
            robustness_variable: 2,
            enabled: false,
        },
    }
}

fn local(name: &str, change: InterfaceChange) -> LocalChange<Instance> {
    LocalChange {
        key: ChangeKey::new("/interface".to_owned(), ChangeOp::Create),
        data_path: format!("/interface[name='{}']", name),
        parsed: Ok(holo::igmp::ConfigChange::Interface(name.to_owned(), change)),
    }
}

#[test]
fn prepared_changes_are_applied_once() {
    let mut provider = provider();
    let mut pending: Vec<PendingChange<Instance>> = vec![];
    let entry = InterfaceChange::Entry(InterfaceEntryChange::QueryInterval(60));
    let changes = vec![local("eth0", InterfaceChange::Create), local("eth1", entry)];
    assert!(process_commit(&mut provider, CommitPhase::Prepare, changes, &mut pending).is_ok());
    assert_eq!(pending.len(), 2);
    assert_eq!(provider.interfaces.len(), 0);

    let failures = process_commit(&mut provider, CommitPhase::Apply, vec![], &mut pending).unwrap();
    assert_eq!(failures.len(), 1);
    assert_eq!(failures[0].data_path, "/interface[name='eth1']");
    assert_eq!(failures[0].error, ApplyError::EntryNotFound);
    assert!(pending.is_empty());
    assert_eq!(provider.interfaces.len(), 1);

    // The queued events are processed in their order.
    assert_eq!(provider.actions.len(), 2);
    assert!(matches!(&provider.actions[0], Action::InterfaceUpdate(name) if name == "eth0"));
    assert!(matches!(&provider.actions[1], Action::InterfaceSub(name) if name == "eth0"));

    let failures = process_commit(&mut provider, CommitPhase::Apply, vec![], &mut pending).unwrap();
    assert!(failures.is_empty());
    assert_eq!(provider.actions.len(), 2);
}

#[test]
fn aborted_changes_leave_nothing() {
    let mut provider = provider();
    let mut pending = vec![];
    let changes = vec![local("eth0", InterfaceChange::Create)];
    assert!(process_commit(&mut provider, CommitPhase::Prepare, changes, &mut pending).is_ok());
    assert!(process_commit(&mut provider, CommitPhase::Abort, vec![], &mut pending).unwrap().is_empty());
    assert!(pending.is_empty());
    assert_eq!(provider.interfaces.len(), 0);
    assert!(provider.actions.is_empty());
}

#[test]
fn unparsable_changes_are_reported() {
    let mut provider = provider();
    let mut pending = vec![];
    let mut change = local("eth0", InterfaceChange::Create);
    change.parsed = Err(ParseError::MissingLeafValue);
    match process_commit(&mut provider, CommitPhase::Prepare, vec![change], &mut pending) {
        Err(Error::Parse { path, error }) => {
            assert_eq!(path, "/interface[name='eth0']");
            assert_eq!(error.message(), "missing leaf value");
        }
        _ => panic!("change was parsed"),
    }
    assert!(pending.is_empty());
}

// ===== messages =====

#[test]
fn northbound_errors_say_what_happened() {
    let error = Error::Parse { path: "/p".to_owned(), error: ParseError::InvalidValue("x".to_owned()) };
    let record = error.log();
    assert_eq!(record.message, "failed to parse configuration change");
    assert_eq!(record.path, Some("/p".to_owned()));
    assert_eq!(record.error, Some("invalid value: x".to_owned()));

    let error = Error::Prepare { path: "/p".to_owned(), error: PrepareError::new("no room") };
    assert_eq!(error.message(), "failed to prepare configuration change");
    assert_eq!(error.log().error, Some("no room".to_owned()));
    assert_eq!(Error::Validate(ValidationError::new("/a", "b")).message(), "configuration validation failed");
    assert_eq!(Error::RpcNotFound.message(), "RPC/Action not found");
    assert_eq!(
        Error::RpcRelay("x".to_owned()).message(),
        "failed to relay RPC to the appropriate subscriber"
    );
    assert_eq!(Error::RpcCallback("x".to_owned()).message(), "RPC callback failed");
    assert_eq!(
        Error::RelayUnreachable.message(),
        "failed to relay request: the target instance is no longer running"
    );
    assert_eq!(Error::YangInvalidPath("x".to_owned()).message(), "Invalid YANG data path");
    assert_eq!(Error::YangInvalidListKeys.message(), "Invalid YANG list keys");
    assert_eq!(Error::YangInvalidData("x".to_owned()).log().error, Some("x".to_owned()));
    assert_eq!(ParseError::NodeNotFound("n".to_owned()).message(), "data node not found: n");
    assert_eq!(ParseError::ListEntryNotFound.message(), "list entry not found in the data tree");
    assert_eq!(ParseError::MissingListKey("k".to_owned()).message(), "missing list key: k");
    assert_eq!(ParseError::InvalidListKey("k".to_owned()).message(), "invalid list key: k");
    assert_eq!(ParseError::UnexpectedOperation.message(), "unexpected change operation");
    assert_eq!(ApplyError::EntryNotFound.message(), "entry not found");
}

#[test]
fn debug_messages_carry_their_fields() {
    match holo::northbound::debug::Debug::RequestRx("Commit").log() {
        DebugRecord::RequestRx { request, text } => {
            assert_eq!(request, "Commit");
            assert_eq!(text, "received request");
        }
        _ => panic!("wrong record"),
    }
    match holo::northbound::debug::Debug::ConfigurationChange(CommitPhase::Apply, ChangeOp::Delete, "/p").log() {
        DebugRecord::ConfigurationChange { phase, operation, path, text } => {
            assert_eq!((phase, operation), (CommitPhase::Apply, ChangeOp::Delete));
            assert_eq!(path, "/p");
            assert_eq!(text, "configuration change");
        }
        _ => panic!("wrong record"),
    }
}
