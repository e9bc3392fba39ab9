use holo::northbound::config_builder::{
    generate_yang_config, parse_value_expr, restates_wrapper, segment_chain, variant_ops, Chain, CodeWriter, GenCtx,
    GenError, Schema, SchemaEntry,
};
use holo::northbound::configuration::{SchemaNode, SchemaNodeKind};

fn snode(kind: SchemaNodeKind) -> SchemaNode {
    SchemaNode {
        kind,
        config: true,
        empty_type: false,
        np_container: false,
        list_key: false,
        parent: None,
        conditional: false,
        mandatory: false,
        has_default: false,
    }
}

fn entry(kind: SchemaNodeKind, name: &str, path: &str, parent: Option<usize>) -> SchemaEntry {
    SchemaEntry {
        snode: SchemaNode { np_container: kind == SchemaNodeKind::Container, ..snode(kind) },
        name: name.to_owned(),
        path: path.to_owned(),
        module: "m".to_owned(),
        status_current: true,
        parent,
        children: 1,
        rust_type: None,
    }
}

fn leaf(name: &str, path: &str, parent: usize, rust_type: &str) -> SchemaEntry {
    SchemaEntry { rust_type: Some(rust_type.to_owned()), ..entry(SchemaNodeKind::Leaf, name, path, Some(parent)) }
}

fn key(name: &str, path: &str, parent: usize, rust_type: &str) -> SchemaEntry {
    let leaf = leaf(name, path, parent, rust_type);
    SchemaEntry { snode: SchemaNode { list_key: true, ..leaf.snode }, ..leaf }
}

// A list of interfaces, each with a metric, next to a leaf that is on or off.
fn schema() -> Schema {
    Schema {
        entries: vec![
            SchemaEntry { children: 2, ..entry(SchemaNodeKind::Container, "igp", "/igp", None) },
            entry(SchemaNodeKind::Container, "interfaces", "/igp/interfaces", Some(0)),
            SchemaEntry {
                children: 2,
                ..entry(SchemaNodeKind::List, "interface", "/igp/interfaces/interface", Some(1))
            },
            key("name", "/igp/interfaces/interface/name", 2, "String"),
            leaf("hello-metric", "/igp/interfaces/interface/hello-metric", 2, "u32"),
            leaf("enabled", "/igp/enabled", 0, "bool"),
        ],
        modules: vec!["m".to_owned()],
        path_root: None,
    }
}

fn code(schema: &Schema) -> Vec<String> {
    let mut w = CodeWriter { lines: vec![] };
    assert!(generate_yang_config(&mut w, schema).is_ok());
    w.lines.iter().map(|line| format!("{}{}", "    ".repeat(line.level), line.text)).collect()
}

#[test]
fn singular_names_restate_their_wrapper() {
    let restates = |wrapper: &str, list: &str| restates_wrapper(&wrapper.to_owned(), &list.to_owned());
    assert!(restates("interfaces", "interface"));
    assert!(restates("address-families", "address-family-list"));
    assert!(restates("prefixes", "prefix"));
    assert!(restates("area", "area"));
    assert!(!restates("trace-options", "flag"));
    assert!(!restates("interfaces", "interfacex"));
}

#[test]
fn wrappers_are_left_out_of_names() {
    let schema = schema();
    let chain = segment_chain(&schema, 4);
    assert_eq!(chain.segments, vec!["Igp", "Interfaces", "Interface", "HelloMetric"]);
    assert_eq!(chain.collapsible, vec![false, true, false, false]);
    assert_eq!(chain.name_from(0), "IgpInterfaceHelloMetric");
    assert_eq!(chain.name_from(3), "HelloMetric");
    let empty = Chain { segments: vec![], collapsible: vec![] };
    assert_eq!(empty.name_from(0), "");
}

#[test]
fn names_are_relative_to_their_scope() {
    let ctx = GenCtx::new(&schema()).ok().unwrap();
    assert_eq!(ctx.change_nodes, vec![2, 4, 5]);
    let info = ctx.scopes[2].as_ref().unwrap();
    assert_eq!(info.type_base, "Interface");
    assert!(info.has_entry_changes);
    assert_eq!(ctx.variants[2], Some("Interface".to_owned()));
    assert_eq!(ctx.variants[4], Some("HelloMetric".to_owned()));
    assert_eq!(ctx.variants[5], Some("Enabled".to_owned()));
    assert_eq!(ctx.variants[3], None);
}

#[test]
fn code_is_generated_for_all_changes() {
    let code = code(&schema());
    let expected = vec![
        "#[derive(Clone, Debug)]",
        "pub struct InterfaceKeys {",
        "    pub name: String,",
        "}",
        "fn interface_keys(dnode: &DataNodeRef<'_>) -> Result<InterfaceKeys, ParseError> {",
        "    let dnode = dnode.inclusive_ancestors().find(|dnode| dnode.schema().data_path() == \"/igp/interfaces/interface\").ok_or(ParseError::ListEntryNotFound)?;",
        "    Ok(InterfaceKeys {",
        "        name: dnode.get_string_relative(\"./name\").ok_or(ParseError::MissingListKey(\"name\"))?,",
        "    })",
        "}",
        "#[derive(Debug)]",
        "pub enum ConfigChange {",
        "    Interface(InterfaceKeys, InterfaceChange),",
        "    Enabled(Option<bool>),",
        "}",
        "#[derive(Debug)]",
        "pub enum InterfaceChange {",
        "    Create,",
        "    Delete,",
        "    Entry(InterfaceEntryChange),",
        "}",
        "#[derive(Debug)]",
        "pub enum InterfaceEntryChange {",
        "    HelloMetric(Option<u32>),",
        "}",
        "const YANG_CONFIG_PARSE: phf::Map<&'static str, ConfigChangeParseFn<ConfigChange>> = phf_map! {",
        "    \"/igp/interfaces/interface\" => |op, dnode| {",
        "        let change = match op {",
        "            ChangeOp::Create => InterfaceChange::Create,",
        "            ChangeOp::Delete => InterfaceChange::Delete,",
        "            _ => return Err(ParseError::UnexpectedOperation),",
        "        };",
        "        let change = ConfigChange::Interface(interface_keys(dnode)?, change);",
        "        Ok(change)",
        "    },",
        "    \"/igp/interfaces/interface/hello-metric\" => |op, dnode| {",
        "        let value = dnode.value_canonical().ok_or(ParseError::MissingLeafValue)?;",
        "        let change = match op {",
        "            ChangeOp::Modify => InterfaceEntryChange::HelloMetric(Some(TryFromYang::try_from_yang(&value).ok_or(ParseError::InvalidValue(value))?)),",
        "            ChangeOp::Delete => InterfaceEntryChange::HelloMetric(None),",
        "            _ => return Err(ParseError::UnexpectedOperation),",
        "        };",
        "        let change = InterfaceChange::Entry(change);",
        "        let change = ConfigChange::Interface(interface_keys(dnode)?, change);",
        "        Ok(change)",
        "    },",
        "    \"/igp/enabled\" => |op, dnode| {",
        "        let value = dnode.value_canonical().ok_or(ParseError::MissingLeafValue)?;",
        "        let change = match op {",
        "            ChangeOp::Modify => ConfigChange::Enabled(Some(TryFromYang::try_from_yang(&value).ok_or(ParseError::InvalidValue(value))?)),",
        "            ChangeOp::Delete => ConfigChange::Enabled(None),",
        "            _ => return Err(ParseError::UnexpectedOperation),",
        "        };",
        "        Ok(change)",
        "    },",
        "};",
        "static CHANGE_KEYS: &[(&str, ChangeOp)] = &[",
        "    (\"/igp/interfaces/interface\", ChangeOp::Create),",
        "    (\"/igp/interfaces/interface\", ChangeOp::Delete),",
        "    (\"/igp/interfaces/interface/hello-metric\", ChangeOp::Modify),",
        "    (\"/igp/interfaces/interface/hello-metric\", ChangeOp::Delete),",
        "    (\"/igp/enabled\", ChangeOp::Modify),",
        "    (\"/igp/enabled\", ChangeOp::Delete),",
        "];",
        "pub const YANG_OPS_CONFIG: YangConfigOps<ConfigChange> = YangConfigOps {",
        "    parse: YANG_CONFIG_PARSE,",
        "    change_keys: CHANGE_KEYS,",
        "};",
    ];
    assert_eq!(code, expected);
}

#[test]
fn nodes_elsewhere_are_left_out() {
    let other = Schema { modules: vec!["other".to_owned()], ..schema() };
    assert!(GenCtx::new(&other).ok().unwrap().change_nodes.is_empty());
    let below = Schema { path_root: Some("interfaces".to_owned()), ..schema() };
    assert_eq!(GenCtx::new(&below).ok().unwrap().change_nodes, vec![2, 4]);
    let mut obsolete = schema();
    obsolete.entries[5].status_current = false;
    assert_eq!(GenCtx::new(&obsolete).ok().unwrap().change_nodes, vec![2, 4]);
}

#[test]
fn lists_without_changes_get_one_enum() {
    let mut schema = schema();
    schema.entries[4].snode.config = false;
    let code = code(&schema);
    assert!(code.contains(&"pub enum InterfaceChange {".to_owned()));
    assert!(!code.contains(&"pub enum InterfaceEntryChange {".to_owned()));
}

#[test]
fn payloads_follow_the_node() {
    let payload = |entry: &SchemaEntry| variant_ops(entry).map(|ops| (ops.payload, ops.arms.len()));
    let plain = leaf("x", "/x", 0, "u8");
    assert_eq!(payload(&plain), Some(("Option<u8>".to_owned(), 2)));
    let mandatory = SchemaEntry { snode: SchemaNode { mandatory: true, ..plain.snode }, ..leaf("x", "/x", 0, "u8") };
    assert_eq!(payload(&mandatory), Some(("u8".to_owned(), 1)));
    let empty = SchemaEntry { snode: SchemaNode { empty_type: true, ..plain.snode }, ..leaf("x", "/x", 0, "()") };
    assert_eq!(payload(&empty), Some(("ConfigOp".to_owned(), 2)));
    let many = SchemaEntry { snode: snode(SchemaNodeKind::LeafList), ..leaf("x", "/x", 0, "Ipv4Addr") };
    let ops = variant_ops(&many).unwrap();
    assert_eq!(ops.payload, "ConfigOp, Ipv4Addr");
    assert_eq!(
        ops.arms[1],
        (
            "ChangeOp::Delete".to_owned(),
            "ConfigOp::Delete, TryFromYang::try_from_yang(&value).ok_or(ParseError::InvalidValue(value))?".to_owned()
        )
    );
    assert_eq!(payload(&entry(SchemaNodeKind::Container, "x", "/x", None)), Some(("ConfigOp".to_owned(), 2)));
    assert_eq!(payload(&entry(SchemaNodeKind::List, "x", "/x", None)), None);
    assert_eq!(parse_value_expr(&"String".to_owned()), "value");
}

#[test]
fn clashing_types_are_refused() {
    // Wrappers that collapse leave two lists with the same name.
    let schema = Schema {
        entries: vec![
            SchemaEntry { children: 2, ..entry(SchemaNodeKind::Container, "top", "/top", None) },
            entry(SchemaNodeKind::Container, "areas", "/top/areas", Some(0)),
            entry(SchemaNodeKind::List, "area", "/top/areas/area", Some(1)),
            entry(SchemaNodeKind::List, "area", "/top/area", Some(0)),
        ],
        modules: vec!["m".to_owned()],
        path_root: None,
    };
    match GenCtx::new(&schema) {
        Err(error) => assert_eq!(
            error.message(),
            "Duplicate generated type name Area: /top/areas/area vs /top/area"
        ),
        Ok(_) => panic!("clash was not found"),
    }
}

#[test]
fn clashing_entry_types_are_refused() {
    let schema = Schema {
        entries: vec![
            SchemaEntry { children: 2, ..entry(SchemaNodeKind::Container, "top", "/top", None) },
            entry(SchemaNodeKind::List, "route", "/top/route", Some(0)),
            entry(SchemaNodeKind::List, "route-entry", "/top/route-entry", Some(0)),
        ],
        modules: vec!["m".to_owned()],
        path_root: None,
    };
    match GenCtx::new(&schema) {
        Err(error) => {
            assert!(matches!(error, GenError::DuplicateChangeType { .. }));
            assert_eq!(
                error.message(),
                "Duplicate generated type name RouteEntryChange: /top/route vs /top/route-entry"
            );
        }
        Ok(_) => panic!("clash was not found"),
    }
}

#[test]
fn clashing_variants_are_refused() {
    let schema = Schema {
        entries: vec![
            SchemaEntry { children: 2, ..entry(SchemaNodeKind::Container, "top", "/top", None) },
            leaf("cost", "/top/cost", 0, "u8"),
            leaf("Cost", "/top/Cost", 0, "u8"),
        ],
        modules: vec!["m".to_owned()],
        path_root: None,
    };
    match GenCtx::new(&schema) {
        Err(error) => assert_eq!(
            error.message(),
            "Duplicate generated variant name Cost: /top/cost vs /top/Cost"
        ),
        Ok(_) => panic!("clash was not found"),
    }
}
