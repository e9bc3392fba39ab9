use holo::ip::{IpAddr, SocketAddr};
use holo::northbound::grpc::{
    capabilities, commit, credentials, data_tree_init, execute, get_config, get_optional_string, get_schema,
    get_state, get_transaction, listener_for, module_not_found, parse_failure, printer_flags, prints_text,
    requested_encoding, start_failure, submodule_not_found, subscribe, supported_encodings, supported_modules, validate, verified, AuthStep, Authenticator, Code, Content, Data,
    DataFormat, DataTree, Encoding, ErrorKind, Listener, Module, Operation, SchemaFormat, Status,
};

fn text(s: &str) -> String {
    s.to_owned()
}

fn tree() -> DataTree {
    DataTree { encoding: Some(Encoding::Xml), data: Some(Data::DataString(text("<a/>"))) }
}

fn refused<T>(r: Result<T, Status>) -> (Code, String) {
    match r {
        Ok(_) => panic!("request was accepted"),
        Err(status) => (status.code, status.message),
    }
}

#[test]
fn slashes_mean_unix_sockets() {
    let addr = SocketAddr { ip: IpAddr::V4(0x7f00_0001), port: 50051 };
    let name = text("gRPC");
    match listener_for(&name, &text("/run/holod.sock"), Err(text("bad"))) {
        Ok(Listener::Unix(path)) => assert_eq!(path, "/run/holod.sock"),
        _ => panic!("not a Unix socket"),
    }
    match listener_for(&name, &text("127.0.0.1:50051"), Ok(addr)) {
        Ok(listener) => {
            assert!(listener.needs_tls());
            assert!(!Authenticator::new(&listener).unix);
        }
        Err(_) => panic!("address was refused"),
    }
    match listener_for(&name, &text(""), Err(text("invalid socket address syntax"))) {
        Err(message) => {
            assert_eq!(message, "failed to parse the gRPC server address: invalid socket address syntax")
        }
        Ok(_) => panic!("address was accepted"),
    }
}

#[test]
fn unix_clients_need_no_password() {
    let auth = Authenticator::new(&Listener::Unix(text("/s")));
    assert!(matches!(auth.authenticate(None), AuthStep::Accept));
    assert!(!Listener::Unix(text("/s")).needs_tls());
}

#[test]
fn unknown_users_look_like_wrong_passwords() {
    let auth = Authenticator { unix: false };
    match auth.authenticate(credentials(Some(text("root")), None)) {
        AuthStep::Reject(status) => {
            assert_eq!(status.code, Code::Unauthenticated);
            assert_eq!(status.message, "missing credentials");
        }
        _ => panic!("request was not refused"),
    }
    match auth.authenticate(credentials(Some(text("root")), Some(text("pw")))) {
        AuthStep::Verify(c) => assert_eq!((c.username, c.password), (text("root"), text("pw"))),
        _ => panic!("credentials were not verified"),
    }
    assert!(verified(Some(true)).is_ok());
    assert_eq!(refused(verified(None)), refused(verified(Some(false))));
    assert_eq!(refused(verified(None)).1, "invalid credentials");
}

#[test]
fn commit_checks_its_fields_in_order() {
    assert_eq!(refused(commit(None, None)), (Code::InvalidArgument, text("Missing 'config' field")));
    assert_eq!(
        refused(commit(Some(tree()), None)),
        (Code::InvalidArgument, text("Invalid commit operation"))
    );
    let unknown = DataTree { encoding: None, data: None };
    assert_eq!(
        refused(commit(Some(unknown), Some(Operation::Merge))),
        (Code::InvalidArgument, text("Invalid data encoding"))
    );
    let empty = DataTree { encoding: Some(Encoding::Json), data: None };
    assert_eq!(
        refused(commit(Some(empty), Some(Operation::Merge))),
        (Code::InvalidArgument, text("Missing 'data' field"))
    );

    let (operation, request) = commit(Some(tree()), Some(Operation::Change)).unwrap();
    assert_eq!(operation, Operation::Change);
    assert_eq!(request.content, Content::Diff);
    assert_eq!(request.format, DataFormat::XML);
    assert!(request.no_validation && request.no_state && request.present);
    let (_, request) = commit(Some(tree()), Some(Operation::Replace)).unwrap();
    assert_eq!(request.content, Content::Tree);
    assert!(!request.no_validation && request.no_state && !request.present);
}

#[test]
fn other_requests_check_their_fields() {
    assert_eq!(refused(validate(None)).1, "Missing 'config' field");
    assert_eq!(validate(Some(tree())).unwrap().content, Content::Tree);
    assert_eq!(refused(execute(None)).1, "Missing 'data' field");
    let (encoding, request) = execute(Some(tree())).unwrap();
    assert_eq!((encoding, request.content), (Encoding::Xml, Content::Rpc));
    assert!(!request.no_state);
    assert_eq!(refused(requested_encoding(None)).1, "Invalid data encoding");
    assert_eq!(requested_encoding(Some(Encoding::Lyb)).unwrap(), Encoding::Lyb);
    assert!(printer_flags(true).with_all_defaults);
    assert!(!printer_flags(false).with_all_defaults);
    assert_eq!(get_optional_string(text("")), None);
    assert_eq!(get_optional_string(text("x")), Some(text("x")));
}

#[test]
fn schema_requests_may_leave_out_revisions() {
    let query = get_schema(text("m"), text(""), text(""), text("2020"), Some(SchemaFormat::Yin)).unwrap();
    assert_eq!(query.module.name, "m");
    assert_eq!(query.module.revision, None);
    assert!(query.submodule.is_none());
    let query = get_schema(text("m"), text("2021"), text("s"), text(""), Some(SchemaFormat::Yang)).unwrap();
    assert_eq!(query.module.revision, Some(text("2021")));
    let submodule = query.submodule.unwrap();
    assert_eq!((submodule.name, submodule.revision), (text("s"), None));
    assert_eq!(refused(get_schema(text("m"), text(""), text(""), text(""), None)).1, "Invalid schema format");
    assert_eq!((module_not_found().code, module_not_found().message), (Code::NotFound, text("YANG module not found")));
    assert_eq!(submodule_not_found().message, "YANG submodule not found");
}

#[test]
fn errors_have_their_codes() {
    let code = |kind| Status::from_error(kind, text("t")).code;
    assert_eq!(code(ErrorKind::YangInvalidPath), Code::InvalidArgument);
    assert_eq!(code(ErrorKind::YangInvalidData), Code::InvalidArgument);
    assert_eq!(code(ErrorKind::YangInternal), Code::Internal);
    assert_eq!(code(ErrorKind::TransactionValidation), Code::InvalidArgument);
    assert_eq!(code(ErrorKind::TransactionPreparation), Code::ResourceExhausted);
    assert_eq!(code(ErrorKind::TransactionIdNotFound), Code::NotFound);
    assert_eq!(code(ErrorKind::Get), Code::InvalidArgument);
    assert_eq!(parse_failure(text("bad")).code, Code::InvalidArgument);
}

#[test]
fn responses_carry_their_encoding() {
    assert!(prints_text(DataFormat::JSON) && prints_text(DataFormat::XML) && !prints_text(DataFormat::LYB));
    for encoding in supported_encodings() {
        assert_eq!(encoding.format().encoding(), encoding);
    }
    let tree = data_tree_init(Encoding::Lyb, Ok(Data::DataBytes(vec![1]))).unwrap();
    assert_eq!(tree.encoding, Some(Encoding::Lyb));
    assert_eq!(refused(data_tree_init(Encoding::Json, Err(text("oops")))), (Code::Internal, text("oops")));
}

#[test]
fn only_implemented_modules_are_told() {
    let module = |name: &str, implemented| Module {
        name: text(name),
        implemented,
        organization: None,
        revision: Some(text("2024")),
        features: Some(vec![text("f")]),
    };
    let modules = supported_modules(&vec![module("a", true), module("b", false), module("c", true)]);
    assert_eq!(modules.len(), 2);
    assert_eq!(modules[1].name, "c");
    assert_eq!(modules[1].organization, "");
    assert_eq!(modules[1].revision, "2024");
    assert_eq!(modules[1].supported_features, vec![text("f")]);
}

#[test]
fn failed_services_name_their_sources() {
    assert_eq!(
        start_failure(&text("gRPC"), &text("/s"), &text("transport error"), &vec![text("a"), text("b")]),
        "failed to start the gRPC service on /s: transport error: a: b"
    );
}

#[test]
fn data_is_printed_as_asked() {
    for get in [get_state, get_config] {
        match get(Some(Encoding::Lyb), true) {
            Ok(printing) => {
                assert_eq!(printing.encoding, Encoding::Lyb);
                assert!(printing.flags.with_siblings && printing.flags.with_all_defaults);
            }
            Err(_) => panic!("request was refused"),
        }
        assert_eq!(refused(get(None, false)), (Code::InvalidArgument, text("Invalid data encoding")));
    }
    match get_transaction(Ok(()), Some(Encoding::Json)) {
        Ok(printing) => assert!(!printing.flags.with_all_defaults),
        Err(_) => panic!("request was refused"),
    }

    // The transaction is looked up before the encoding is checked.
    let unknown = Status::from_error(ErrorKind::TransactionIdNotFound, text("not found"));
    assert_eq!(refused(get_transaction(Err(unknown), None)).0, Code::NotFound);
    assert_eq!(refused(get_transaction(Ok(()), None)).0, Code::InvalidArgument);
}

#[test]
fn subscriptions_may_be_limited_to_a_path() {
    match subscribe(Some(Encoding::Xml), text("/ietf-bfd:*")) {
        Ok(subscription) => {
            assert_eq!(subscription.printing.encoding, Encoding::Xml);
            assert_eq!(subscription.path, Some(text("/ietf-bfd:*")));
        }
        Err(_) => panic!("request was refused"),
    }
    assert!(matches!(subscribe(Some(Encoding::Xml), text("")), Ok(subscription) if subscription.path.is_none()));
    assert_eq!(refused(subscribe(None, text(""))).0, Code::InvalidArgument);
}

#[test]
fn capabilities_name_version_modules_and_encodings() {
    let modules = vec![Module {
        name: text("ietf-bfd"),
        implemented: true,
        organization: None,
        revision: Some(text("2022-09-22")),
        features: None,
    }];
    let told = capabilities(text("0.9.0"), &modules);
    assert_eq!(told.version, "0.9.0");
    assert_eq!(told.supported_modules.len(), 1);
    assert_eq!(told.supported_modules[0].revision, "2022-09-22");
    assert_eq!(told.supported_encodings, vec![Encoding::Json, Encoding::Xml, Encoding::Lyb]);
}
