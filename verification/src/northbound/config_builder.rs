//! Generation of typed configuration changes from a schema.

use convert_case::{Case, Casing};
use vstd::prelude::*;
use vstd::string::StringExecFns;

use crate::collections::{flat_map, flat_map_step};
use crate::northbound::configuration::{ChangeOp, SchemaNode, SchemaNodeKind};
use crate::text::{contains, occurs_at, occurs_in, opt_text, owned, starts_with, strip_suffix, texts, without_suffix};

verus! {

// ===== letter case =====

/// What `convert_case::Casing::to_case` makes of a text with `Case::Pascal`.
pub uninterp spec fn pascal_case(s: Seq<char>) -> Seq<char>;

/// What `convert_case::Casing::to_case` makes of a text with `Case::Snake`.
pub uninterp spec fn snake_case(s: Seq<char>) -> Seq<char>;

/// Calls `convert_case::Casing::to_case` with `Case::Pascal`: the result is
/// named, as a function of the text alone.
#[verifier::external_body]
fn to_pascal(s: &String) -> (r: String)
    ensures
        r@ == pascal_case(s@),
{
    s.to_case(Case::Pascal)
}

/// Calls `convert_case::Casing::to_case` with `Case::Snake`: the result is
/// named, as a function of the text alone.
#[verifier::external_body]
fn to_snake(s: &String) -> (r: String)
    ensures
        r@ == snake_case(s@),
{
    s.to_case(Case::Snake)
}

// ===== schema =====

/// A node of the schema, as far as the generated code depends on it.
pub struct SchemaEntry {
    pub snode: SchemaNode,
    pub name: String,
    /// Path of the node's data.
    pub path: String,
    pub module: String,
    pub status_current: bool,
    /// Position of the parent node.
    pub parent: Option<usize>,
    /// Number of child nodes.
    pub children: usize,
    /// Type of the node's values in the generated code.
    pub rust_type: Option<String>,
}

/// The nodes of a schema, parents first, and which of them code is generated
/// for.
pub struct Schema {
    pub entries: Vec<SchemaEntry>,
    /// Modules whose nodes code is generated for.
    pub modules: Vec<String>,
    /// Name of the node below which code is generated.
    pub path_root: Option<String>,
}

impl Schema {
    /// Parents come before their children, and list keys have a type.
    pub open spec fn wf(self) -> bool {
        &&& forall|i: int|
            0 <= i < self.entries@.len() ==> match (#[trigger] self.entries@[i]).parent {
                Some(p) => p < i,
                None => true,
            }
        &&& forall|i: int|
            0 <= i < self.entries@.len() && (#[trigger] self.entries@[i]).snode.list_key
                ==> self.entries@[i].rust_type is Some
    }

    /// Name of a node.
    pub open spec fn name(self, i: int) -> Seq<char> {
        self.entries@[i].name@
    }

    /// Position of the parent of a node.
    pub open spec fn parent(self, i: int) -> Option<int> {
        match self.entries@[i].parent {
            Some(p) => if p < i {
                Some(p as int)
            } else {
                None
            },
            None => None,
        }
    }

    pub open spec fn is_list(self, i: int) -> bool {
        self.entries@[i].snode.kind == SchemaNodeKind::List
    }

    /// Whether an ancestor of a node has the given name.
    pub open spec fn below(self, i: int, name: Seq<char>) -> bool
        decreases i,
    {
        match self.parent(i) {
            Some(p) => if 0 <= p < i {
                self.name(p) == name || self.below(p, name)
            } else {
                false
            },
            None => false,
        }
    }

    /// Whether a node produces configuration changes.
    pub open spec fn changes(self, i: int) -> bool {
        let e = self.entries@[i];
        &&& e.snode.config
        &&& e.status_current
        &&& exists|m: int| 0 <= m < self.modules@.len() && (#[trigger] self.modules@[m])@ == e.module@
        &&& match self.path_root {
            Some(root) => self.below(i, root@),
            None => true,
        }
        &&& ChangeOp::Create.valid(e.snode) || ChangeOp::Modify.valid(e.snode) || ChangeOp::Delete.valid(e.snode)
    }

    /// Whether a list defines a configuration change scope.
    pub open spec fn defines_scope(self, i: int) -> bool {
        self.is_list(i) && self.changes(i)
    }

    /// The nearest enclosing configuration list scope of a node.
    pub open spec fn scope_of(self, i: int) -> Option<int>
        decreases i,
    {
        match self.parent(i) {
            Some(p) => if 0 <= p < i {
                if self.defines_scope(p) {
                    Some(p)
                } else {
                    self.scope_of(p)
                }
            } else {
                None
            },
            None => None,
        }
    }

    pub open spec fn schema_only(self, i: int) -> bool {
        self.entries@[i].snode.kind == SchemaNodeKind::Choice || self.entries@[i].snode.kind == SchemaNodeKind::Case
    }

    /// The data nodes from the root of the schema down to a node.
    pub open spec fn line(self, i: int) -> Seq<usize>
        decreases i,
    {
        let up = match self.parent(i) {
            Some(p) => if 0 <= p < i {
                self.line(p)
            } else {
                Seq::empty()
            },
            None => Seq::empty(),
        };
        if self.schema_only(i) {
            up
        } else {
            up.push(i as usize)
        }
    }

    /// The nodes that produce configuration changes among the first ones, in
    /// schema order.
    pub open spec fn changes_among(self, n: nat) -> Seq<usize>
        decreases n,
    {
        if n == 0 {
            Seq::empty()
        } else if self.changes(n - 1) {
            self.changes_among((n - 1) as nat).push((n - 1) as usize)
        } else {
            self.changes_among((n - 1) as nat)
        }
    }

    /// The nodes that produce configuration changes, in schema order.
    pub open spec fn change_nodes(self) -> Seq<usize> {
        self.changes_among(self.entries@.len())
    }

    /// The keys of a list among the first nodes, in schema order.
    pub open spec fn keys_among(self, list: int, n: nat) -> Seq<usize>
        decreases n,
    {
        if n == 0 {
            Seq::empty()
        } else if self.entries@[n - 1].snode.list_key && self.entries@[n - 1].parent == Some(list as usize) {
            self.keys_among(list, (n - 1) as nat).push((n - 1) as usize)
        } else {
            self.keys_among(list, (n - 1) as nat)
        }
    }

    /// The keys of a list, in schema order.
    pub open spec fn list_keys(self, list: int) -> Seq<usize> {
        self.keys_among(list, self.entries@.len())
    }

    proof fn change_nodes_among(self, n: nat)
        requires
            n <= self.entries@.len() <= usize::MAX,
        ensures
            forall|x: int|
                0 <= x < self.changes_among(n).len() ==> (#[trigger] self.changes_among(n)[x]) < n && self.changes(
                    self.changes_among(n)[x] as int,
                ),
            forall|i: int|
                0 <= i < n && #[trigger] self.changes(i) ==> exists|x: int|
                    0 <= x < self.changes_among(n).len() && self.changes_among(n)[x] == i,
            forall|x: int, y: int|
                0 <= x < y < self.changes_among(n).len() ==> (#[trigger] self.changes_among(n)[x]) < (
                #[trigger] self.changes_among(n)[y]),
        decreases n,
    {
        if n > 0 {
            self.change_nodes_among((n - 1) as nat);
            let before = self.changes_among((n - 1) as nat);
            let after = self.changes_among(n);
            assert forall|i: int| 0 <= i < n && #[trigger] self.changes(i) implies exists|x: int|
                0 <= x < after.len() && after[x] == i by {
                if i == n - 1 {
                    assert(after[after.len() - 1] == i);
                } else {
                    let x = choose|x: int| 0 <= x < before.len() && before[x] == i;
                    assert(after[x] == i);
                }
            }
        }
    }

    proof fn keys_are_keys(self, list: int, n: nat)
        requires
            n <= self.entries@.len() <= usize::MAX,
        ensures
            forall|x: int|
                0 <= x < self.keys_among(list, n).len() ==> (#[trigger] self.keys_among(list, n)[x]) < n
                    && self.entries@[self.keys_among(list, n)[x] as int].snode.list_key,
        decreases n,
    {
        if n > 0 {
            self.keys_are_keys(list, (n - 1) as nat);
        }
    }
}

// ===== helper functions =====

/// Returns true if this node produces configuration changes.
fn is_change_node(schema: &Schema, i: usize) -> (r: bool)
    requires
        schema.wf(),
        i < schema.entries@.len(),
    ensures
        r == schema.changes(i as int),
{
    let entry = &schema.entries[i];
    if !entry.snode.config || !entry.status_current || !in_modules(schema, i) {
        return false;
    }
    if let Some(name) = &schema.path_root {
        if !has_ancestor_named(schema, i, name) {
            return false;
        }
    }
    ChangeOp::Create.is_valid(&entry.snode) || ChangeOp::Modify.is_valid(&entry.snode) || ChangeOp::Delete.is_valid(
        &entry.snode,
    )
}

fn in_modules(schema: &Schema, i: usize) -> (r: bool)
    requires
        i < schema.entries@.len(),
    ensures
        r == exists|m: int|
            0 <= m < schema.modules@.len() && (#[trigger] schema.modules@[m])@ == schema.entries@[i as int].module@,
{
    let mut m: usize = 0;
    while m < schema.modules.len()
        invariant
            m <= schema.modules@.len(),
            i < schema.entries@.len(),
            forall|x: int| 0 <= x < m ==> (#[trigger] schema.modules@[x])@ != schema.entries@[i as int].module@,
        decreases schema.modules@.len() - m,
    {
        if schema.modules[m] == schema.entries[i].module {
            return true;
        }
        m = m + 1;
    }
    false
}

fn has_ancestor_named(schema: &Schema, i: usize, name: &String) -> (r: bool)
    requires
        schema.wf(),
        i < schema.entries@.len(),
    ensures
        r == schema.below(i as int, name@),
    decreases i,
{
    match schema.entries[i].parent {
        Some(p) => schema.entries[p].name == *name || has_ancestor_named(schema, p, name),
        None => false,
    }
}

/// Returns true if this list node defines a configuration change scope.
fn is_config_list(schema: &Schema, i: usize) -> (r: bool)
    requires
        schema.wf(),
        i < schema.entries@.len(),
    ensures
        r == schema.defines_scope(i as int),
{
    schema.entries[i].snode.kind == SchemaNodeKind::List && is_change_node(schema, i)
}

/// Position of a scope.
pub open spec fn position(scope: Option<usize>) -> Option<int> {
    match scope {
        Some(k) => Some(k as int),
        None => None,
    }
}

/// Returns the nearest enclosing configuration list scope of this node.
fn scope_parent(schema: &Schema, i: usize) -> (r: Option<usize>)
    requires
        schema.wf(),
        i < schema.entries@.len(),
    ensures
        position(r) == schema.scope_of(i as int),
        r matches Some(k) ==> k < i && schema.defines_scope(k as int),
    decreases i,
{
    match schema.entries[i].parent {
        Some(p) => if is_config_list(schema, p) {
            Some(p)
        } else {
            scope_parent(schema, p)
        },
        None => None,
    }
}

/// Whether a list name restates its wrapper container's name, given one singular
/// form of it.
pub open spec fn restates_as(list: Seq<char>, singular: Seq<char>) -> bool {
    list == singular || occurs_at(list, singular + "-"@, 0)
}

/// Whether a list name restates its wrapper container's name in the singular.
pub open spec fn restates(wrapper: Seq<char>, list: Seq<char>) -> bool {
    ||| restates_as(list, wrapper)
    ||| match without_suffix(wrapper, "ies"@) {
        Some(stem) => restates_as(list, stem + "y"@),
        None => false,
    }
    ||| match without_suffix(wrapper, "es"@) {
        Some(stem) => restates_as(list, stem),
        None => false,
    }
    ||| match without_suffix(wrapper, "s"@) {
        Some(stem) => restates_as(list, stem),
        None => false,
    }
}

fn restates_singular(list: &String, singular: String) -> (r: bool)
    ensures
        r == restates_as(list@, singular@),
{
    if *list == singular {
        return true;
    }
    starts_with(list.as_str(), singular.concat("-").as_str())
}

/// Returns true if a list name restates its wrapper container's name (e.g.
/// "interface" within "interfaces", or "address-family-list" within
/// "address-families"), making the wrapper redundant in generated names.
pub fn restates_wrapper(wrapper: &String, list: &String) -> (r: bool)
    ensures
        r == restates(wrapper@, list@),
{
    if restates_singular(list, wrapper.clone()) {
        return true;
    }
    if let Some(stem) = strip_suffix(wrapper.as_str(), "ies") {
        if restates_singular(list, stem.concat("y")) {
            return true;
        }
    }
    if let Some(stem) = strip_suffix(wrapper.as_str(), "es") {
        if restates_singular(list, stem) {
            return true;
        }
    }
    if let Some(stem) = strip_suffix(wrapper.as_str(), "s") {
        if restates_singular(list, stem) {
            return true;
        }
    }
    false
}

// ===== name chains =====

/// A name chain: the full segment list plus which segments are collapsible
/// wrappers.
pub struct Chain {
    pub segments: Vec<String>,
    pub collapsible: Vec<bool>,
}

/// The segments below the given number of leading ones, joined, without
/// collapsible wrappers.
pub open spec fn joined(segments: Seq<Seq<char>>, collapsible: Seq<bool>, start: int) -> Seq<char>
    decreases segments.len() - start,
{
    if start >= segments.len() {
        Seq::empty()
    } else if collapsible[start] {
        joined(segments, collapsible, start + 1)
    } else {
        segments[start] + joined(segments, collapsible, start + 1)
    }
}

impl Chain {
    /// Returns the name formed by the subchain below the given number of
    /// leading segments, skipping collapsible wrappers.
    pub fn name_from(&self, start: usize) -> (r: String)
        requires
            self.segments@.len() == self.collapsible@.len(),
            start <= self.segments@.len(),
        ensures
            r@ == joined(texts(self.segments@), self.collapsible@, start as int),
    {
        let ghost segments = texts(self.segments@);
        let ghost whole = joined(segments, self.collapsible@, start as int);
        let mut name = owned("");
        proof {
            reveal_strlit("");
        }
        let mut x: usize = start;
        assert(name@ + whole =~= whole);
        while x < self.segments.len()
            invariant
                x <= self.segments@.len(),
                self.segments@.len() == self.collapsible@.len(),
                segments == texts(self.segments@),
                name@ + joined(segments, self.collapsible@, x as int) == whole,
            decreases self.segments@.len() - x,
        {
            let ghost before = name@;
            if !self.collapsible[x] {
                name.append(self.segments[x].as_str());
                assert(before + (segments[x as int] + joined(segments, self.collapsible@, x + 1)) =~= name@ + joined(
                    segments,
                    self.collapsible@,
                    x + 1,
                ));
            }
            x = x + 1;
        }
        assert(name@ =~= whole);
        name
    }
}

impl Schema {
    /// The segments of the name chain of a node.
    pub open spec fn segments(self, i: int) -> Seq<Seq<char>> {
        Seq::new(self.line(i).len(), |x: int| pascal_case(self.name(self.line(i)[x] as int)))
    }

    /// Whether a container is a wrapper whose name is restated by the single
    /// list it holds.
    pub open spec fn wraps(self, i: int, next: int) -> bool {
        &&& self.entries@[i].snode.kind == SchemaNodeKind::Container
        &&& self.entries@[i].snode.np_container
        &&& self.entries@[i].children == 1
        &&& self.is_list(next)
        &&& restates(self.name(i), self.name(next))
    }

    /// Which segments of the name chain of a node are collapsible wrappers.
    pub open spec fn collapsible(self, i: int) -> Seq<bool> {
        let line = self.line(i);
        Seq::new(line.len(), |x: int| x + 1 < line.len() && self.wraps(line[x] as int, line[x + 1] as int))
    }

    /// The name of a node below the given number of leading segments.
    pub open spec fn name_below(self, i: int, start: int) -> Seq<char> {
        joined(self.segments(i), self.collapsible(i), start)
    }

    proof fn line_bounds(self, i: int)
        requires
            self.wf(),
            0 <= i < self.entries@.len() <= usize::MAX,
        ensures
            forall|x: int| 0 <= x < self.line(i).len() ==> (#[trigger] self.line(i)[x]) <= i,
            !self.schema_only(i) ==> self.line(i).len() > 0,
        decreases i,
    {
        match self.parent(i) {
            Some(p) => {
                self.line_bounds(p);
                assert forall|x: int| 0 <= x < self.line(i).len() implies (#[trigger] self.line(i)[x]) <= i by {
                    if x < self.line(p).len() {
                        assert(self.line(i)[x] == self.line(p)[x]);
                    }
                }
            },
            None => {},
        }
    }

    /// The chain of an enclosing scope is no longer than that of a node.
    proof fn scope_line(self, i: int)
        requires
            self.wf(),
            0 <= i < self.entries@.len(),
        ensures
            match self.scope_of(i) {
                Some(k) => 0 <= k < i && self.line(k).len() <= self.line(i).len(),
                None => true,
            },
        decreases i,
    {
        match self.parent(i) {
            Some(p) => {
                self.scope_line(p);
            },
            None => {},
        }
    }
}

fn ancestors(schema: &Schema, i: usize) -> (r: Vec<usize>)
    requires
        schema.wf(),
        i < schema.entries@.len(),
    ensures
        r@ == schema.line(i as int),
    decreases i,
{
    let mut nodes = match schema.entries[i].parent {
        Some(p) => ancestors(schema, p),
        None => Vec::new(),
    };
    let kind = schema.entries[i].snode.kind;
    if !(kind == SchemaNodeKind::Choice || kind == SchemaNodeKind::Case) {
        nodes.push(i);
    }
    nodes
}

/// Pascal-case segment chain of a node, used to derive generated names.
///
/// Names concatenate the full chain relative to the enclosing scope, except
/// that wrapper containers whose name is restated by the single list they
/// hold are skipped: "interfaces/interface" contributes a single "Interface"
/// segment, while wrappers carrying their own meaning (as in
/// "trace-options/flag") are kept.
pub fn segment_chain(schema: &Schema, i: usize) -> (r: Chain)
    requires
        schema.wf(),
        i < schema.entries@.len(),
    ensures
        texts(r.segments@) == schema.segments(i as int),
        r.collapsible@ == schema.collapsible(i as int),
{
    let nodes = ancestors(schema, i);
    let total: usize = schema.entries.len();
    proof {
        schema.line_bounds(i as int);
    }
    let mut segments: Vec<String> = Vec::new();
    let mut collapsible: Vec<bool> = Vec::new();
    let mut x: usize = 0;
    while x < nodes.len()
        invariant
            x <= nodes@.len(),
            segments@.len() == x,
            collapsible@.len() == x,
            nodes@ == schema.line(i as int),
            forall|y: int| 0 <= y < nodes@.len() ==> (#[trigger] nodes@[y]) < schema.entries@.len(),
            forall|y: int| 0 <= y < x ==> (#[trigger] segments@[y])@ == schema.segments(i as int)[y],
            forall|y: int| 0 <= y < x ==> #[trigger] collapsible@[y] == schema.collapsible(i as int)[y],
        decreases nodes@.len() - x,
    {
        let node = &schema.entries[nodes[x]];
        segments.push(to_pascal(&node.name));
        let wrapper = node.snode.kind == SchemaNodeKind::Container && node.snode.np_container && node.children == 1 && x
            + 1 < nodes.len() && {
            let next = &schema.entries[nodes[x + 1]];
            next.snode.kind == SchemaNodeKind::List && restates_wrapper(&node.name, &next.name)
        };
        collapsible.push(wrapper);
        x = x + 1;
    }
    assert(texts(segments@) =~= schema.segments(i as int));
    assert(collapsible@ =~= schema.collapsible(i as int));
    Chain { segments, collapsible }
}

// ===== generated names =====

impl Schema {
    /// Whether all nodes that produce changes have more than the given number
    /// of segments, and share that many leading ones.
    pub open spec fn share_root(self, n: nat) -> bool {
        let nodes = self.change_nodes();
        &&& forall|x: int| 0 <= x < nodes.len() ==> n < self.line(#[trigger] nodes[x] as int).len()
        &&& forall|x: int, y: int|
            0 <= x < nodes.len() && 0 <= y < nodes.len() ==> self.segments(#[trigger] nodes[x] as int).take(n as int)
                == self.segments(#[trigger] nodes[y] as int).take(n as int)
    }

    /// Number of segments of the config root, the deepest ancestor shared by
    /// all nodes that produce changes.
    pub open spec fn root_len(self) -> nat {
        if self.change_nodes().len() == 0 {
            0
        } else {
            choose|n: nat| #[trigger] self.share_root(n) && !self.share_root(n + 1)
        }
    }

    /// Base name of the types generated for a list.
    pub open spec fn type_base(self, i: int) -> Seq<char> {
        self.name_below(i, self.root_len() as int)
    }

    /// Number of leading segments that the variant name of a node leaves out:
    /// those of its scope, or of the config root.
    pub open spec fn variant_start(self, i: int) -> nat {
        match self.scope_of(i) {
            Some(k) => self.line(k).len(),
            None => self.root_len(),
        }
    }

    /// Variant name of a node within its scope's change enum.
    pub open spec fn variant(self, i: int) -> Seq<char> {
        self.name_below(i, self.variant_start(i) as int)
    }

    /// Whether a list has changes other than the creation and deletion of its
    /// own entries.
    pub open spec fn has_entry_changes(self, k: int) -> bool {
        exists|i: int| 0 <= i < self.entries@.len() && #[trigger] self.changes(i) && self.scope_of(i) == Some(k)
    }

    /// Whether two lists would get the same types.
    pub open spec fn type_clash(self, i: int, j: int) -> bool {
        &&& 0 <= i < j < self.entries@.len()
        &&& self.defines_scope(i)
        &&& self.defines_scope(j)
        &&& self.type_base(i) == self.type_base(j)
    }

    /// Whether the entry change type of the first list would be the change type
    /// of the second.
    pub open spec fn entry_clash(self, i: int, j: int) -> bool {
        &&& 0 <= i < self.entries@.len()
        &&& 0 <= j < self.entries@.len()
        &&& self.defines_scope(i)
        &&& self.defines_scope(j)
        &&& without_suffix(self.type_base(j), "Entry"@) == Some(self.type_base(i))
    }

    /// Whether two nodes would get the same variant of an enum.
    pub open spec fn variant_clash(self, i: int, j: int) -> bool {
        &&& 0 <= i < j < self.entries@.len()
        &&& self.changes(i)
        &&& self.changes(j)
        &&& self.scope_of(i) == self.scope_of(j)
        &&& self.variant(i) == self.variant(j)
    }

    pub open spec fn no_type_clash(self) -> bool {
        forall|i: int, j: int| !#[trigger] self.type_clash(i, j)
    }

    pub open spec fn no_entry_clash(self) -> bool {
        forall|i: int, j: int| !#[trigger] self.entry_clash(i, j)
    }

    pub open spec fn no_variant_clash(self) -> bool {
        forall|i: int, j: int| !#[trigger] self.variant_clash(i, j)
    }

    proof fn smaller_root(self, n: nat, m: nat)
        requires
            self.share_root(n),
            m <= n,
        ensures
            self.share_root(m),
    {
        let nodes = self.change_nodes();
        assert forall|x: int, y: int| 0 <= x < nodes.len() && 0 <= y < nodes.len() implies self.segments(
            #[trigger] nodes[x] as int,
        ).take(m as int) == self.segments(#[trigger] nodes[y] as int).take(m as int) by {
            let a = self.segments(nodes[x] as int);
            let b = self.segments(nodes[y] as int);
            assert(a.take(m as int) =~= a.take(n as int).take(m as int));
            assert(b.take(m as int) =~= b.take(n as int).take(m as int));
        }
    }

    proof fn root_unique(self, n: nat)
        requires
            self.change_nodes().len() > 0,
            self.share_root(n),
            !self.share_root(n + 1),
        ensures
            n == self.root_len(),
    {
        let r = self.root_len();
        assert(self.share_root(r) && !self.share_root(r + 1));
        if r < n {
            self.smaller_root(n, r + 1);
        }
        if n < r {
            self.smaller_root(r, n + 1);
        }
    }
}

/// Whether the chains are those of the nodes that produce changes.
spec fn chains_of(schema: Schema, chains: Seq<Chain>) -> bool {
    let nodes = schema.change_nodes();
    &&& chains.len() == nodes.len()
    &&& forall|x: int|
        0 <= x < nodes.len() ==> texts((#[trigger] chains[x]).segments@) == schema.segments(nodes[x] as int)
            && schema.segments(nodes[x] as int).len() > 0
}

/// Whether all chains have a segment after the given number of leading ones and
/// one more, and share the first of the two.
fn share_segment(chains: &Vec<Chain>, n: usize) -> (r: bool)
    requires
        chains@.len() > 0,
        n < usize::MAX,
        forall|x: int| 0 <= x < chains@.len() ==> n < (#[trigger] chains@[x]).segments@.len(),
    ensures
        r == forall|x: int|
            0 <= x < chains@.len() ==> n + 1 < (
                #[trigger] chains@[x]
            ).segments@.len() && chains@[x].segments@[n as int]@
                == chains@[0].segments@[n as int]@,
{
    let mut x: usize = 0;
    while x < chains.len()
        invariant
            x <= chains@.len(),
            chains@.len() > 0,
            n < usize::MAX,
            forall|y: int| 0 <= y < chains@.len() ==> n < (#[trigger] chains@[y]).segments@.len(),
            forall|y: int|
                0 <= y < x ==> n + 1 < (#[trigger] chains@[y]).segments@.len() && chains@[y].segments@[n as int]@
                    == chains@[0].segments@[n as int]@,
        decreases chains@.len() - x,
    {
        if chains[x].segments.len() <= n + 1 || chains[x].segments[n] != chains[0].segments[n] {
            return false;
        }
        x = x + 1;
    }
    true
}

fn root_length(schema: &Schema, chains: &Vec<Chain>) -> (r: usize)
    requires
        chains_of(*schema, chains@),
    ensures
        r == schema.root_len(),
        schema.share_root(r as nat),
{
    if chains.len() == 0 {
        return 0;
    }
    let ghost nodes = schema.change_nodes();
    let most: usize = chains[0].segments.len();
    proof {
        assert forall|x: int| 0 <= x < nodes.len() implies 0 < schema.line(#[trigger] nodes[x] as int).len() by {
            assert(texts(chains@[x].segments@) == schema.segments(nodes[x] as int));
        }
        assert forall|x: int, y: int| 0 <= x < nodes.len() && 0 <= y < nodes.len() implies schema.segments(
            #[trigger] nodes[x] as int,
        ).take(0) == schema.segments(#[trigger] nodes[y] as int).take(0) by {
            assert(schema.segments(nodes[x] as int).take(0) =~= schema.segments(nodes[y] as int).take(0));
        }
    }
    let mut n: usize = 0;
    loop
        invariant
            chains_of(*schema, chains@),
            nodes == schema.change_nodes(),
            nodes.len() > 0,
            schema.share_root(n as nat),
            most == chains@[0].segments@.len(),
            n < most,
        decreases most - n,
    {
        proof {
            assert forall|x: int| 0 <= x < chains@.len() implies n < (#[trigger] chains@[x]).segments@.len() by {
                assert(texts(chains@[x].segments@).len() == schema.line(nodes[x] as int).len());
            }
        }
        let more = share_segment(chains, n);
        if !more {
            proof {
                if schema.share_root(n as nat + 1) {
                    assert forall|x: int| 0 <= x < chains@.len() implies n + 1 < (
                    #[trigger] chains@[x]).segments@.len() && chains@[x].segments@[n as int]@
                        == chains@[0].segments@[n as int]@ by {
                        let a = schema.segments(nodes[x] as int);
                        let b = schema.segments(nodes[0] as int);
                        assert(texts(chains@[x].segments@) == a);
                        assert(texts(chains@[0].segments@) == b);
                        assert(a.take(n + 1) == b.take(n + 1));
                        assert(a.take(n + 1)[n as int] == a[n as int]);
                        assert(b.take(n + 1)[n as int] == b[n as int]);
                    }
                }
                schema.root_unique(n as nat);
            }
            return n;
        }
        proof {
            assert forall|x: int| 0 <= x < nodes.len() implies n + 1 < schema.line(#[trigger] nodes[x] as int).len() by {
                assert(texts(chains@[x].segments@).len() == schema.line(nodes[x] as int).len());
            }
            assert forall|x: int, y: int| 0 <= x < nodes.len() && 0 <= y < nodes.len() implies schema.segments(
                #[trigger] nodes[x] as int,
            ).take(n + 1) == schema.segments(#[trigger] nodes[y] as int).take(n + 1) by {
                let a = schema.segments(nodes[x] as int);
                let b = schema.segments(nodes[y] as int);
                assert(texts(chains@[x].segments@) == a);
                assert(texts(chains@[y].segments@) == b);
                assert(a[n as int] == chains@[x].segments@[n as int]@);
                assert(b[n as int] == chains@[y].segments@[n as int]@);
                assert(a.take(n + 1) =~= a.take(n as int).push(a[n as int]));
                assert(b.take(n + 1) =~= b.take(n as int).push(b[n as int]));
            }
            assert(n + 1 < chains@[0].segments@.len());
        }
        n = n + 1;
    }
}

/// Generated type names for a configuration list scope.
pub struct ScopeInfo {
    /// Base name shared by the scope's generated types (e.g. "Interface"
    /// yields InterfaceKeys, InterfaceChange and InterfaceEntryChange).
    pub type_base: String,
    /// Whether the scope has changes other than the creation and deletion of
    /// its own list entries.
    pub has_entry_changes: bool,
}

/// Code generation context for a crate's configuration changes.
pub struct GenCtx {
    /// All nodes that produce configuration changes, in schema order.
    pub change_nodes: Vec<usize>,
    /// Configuration list scopes, by the position of the list.
    pub scopes: Vec<Option<ScopeInfo>>,
    /// Variant name of each change node within its scope's change enum, by the
    /// position of the node.
    pub variants: Vec<Option<String>>,
}

/// Two nodes that would get the same generated name.
pub enum GenError {
    /// Two lists have the same base name.
    DuplicateType { name: String, other: String, path: String },
    /// The entry change type of a list is the change type of another.
    DuplicateChangeType { name: String, other: String, path: String },
    /// Two nodes have the same variant name.
    DuplicateVariant { name: String, other: String, path: String },
}

impl GenError {
    /// What the error says.
    pub open spec fn text(self) -> Seq<char> {
        match self {
            GenError::DuplicateType { name, other, path } => "Duplicate generated type name "@ + name@ + ": "@ + other@
                + " vs "@ + path@,
            GenError::DuplicateChangeType { name, other, path } => "Duplicate generated type name "@ + name@
                + "Change: "@ + other@ + " vs "@ + path@,
            GenError::DuplicateVariant { name, other, path } => "Duplicate generated variant name "@ + name@ + ": "@
                + other@ + " vs "@ + path@,
        }
    }

    pub fn message(&self) -> (r: String)
        ensures
            r@ == self.text(),
    {
        match self {
            GenError::DuplicateType { name, other, path } => owned("Duplicate generated type name ").concat(
                name.as_str(),
            ).concat(": ").concat(other.as_str()).concat(" vs ").concat(path.as_str()),
            GenError::DuplicateChangeType { name, other, path } => owned("Duplicate generated type name ").concat(
                name.as_str(),
            ).concat("Change: ").concat(other.as_str()).concat(" vs ").concat(path.as_str()),
            GenError::DuplicateVariant { name, other, path } => owned("Duplicate generated variant name ").concat(
                name.as_str(),
            ).concat(": ").concat(other.as_str()).concat(" vs ").concat(path.as_str()),
        }
    }
}

impl Schema {
    pub open spec fn path(self, i: int) -> Seq<char> {
        self.entries@[i].path@
    }

    /// Whether an error reports what stands in the way of generating code: the
    /// first clash, in schema order, of base names or else of variant names.
    pub open spec fn reports(self, e: GenError) -> bool {
        match e {
            GenError::DuplicateType { name, other, path } => exists|i: int, j: int| #[trigger]
                self.type_clash(i, j) && name@ == self.type_base(j) && other@ == self.path(i) && path@ == self.path(j)
                    && (forall|a: int, b: int| b < j ==> !#[trigger] self.type_clash(a, b)),
            GenError::DuplicateChangeType { name, other, path } => self.no_type_clash() && exists|i: int, j: int|
                #[trigger]
                self.entry_clash(i, j) && name@ == self.type_base(j) && other@ == self.path(i) && path@ == self.path(j),
            GenError::DuplicateVariant { name, other, path } => self.no_type_clash() && self.no_entry_clash()
                && exists|i: int, j: int| #[trigger]
                self.variant_clash(i, j) && name@ == self.variant(j) && other@ == self.path(i) && path@ == self.path(j)
                    && (forall|a: int, b: int| b < j ==> !#[trigger] self.variant_clash(a, b)),
        }
    }

    /// The base name of a list, where the node is one.
    pub open spec fn scope_name(self, i: int) -> Option<Seq<char>> {
        if self.defines_scope(i) {
            Some(self.type_base(i))
        } else {
            None
        }
    }

    /// The variant name of a node, where it produces changes.
    pub open spec fn variant_name(self, i: int) -> Option<Seq<char>> {
        if self.changes(i) {
            Some(self.variant(i))
        } else {
            None
        }
    }

    proof fn change_node_facts(self)
        requires
            self.wf(),
            self.entries@.len() <= usize::MAX,
        ensures
            forall|x: int|
                0 <= x < self.change_nodes().len() ==> (#[trigger] self.change_nodes()[x]) < self.entries@.len()
                    && self.changes(self.change_nodes()[x] as int),
            forall|i: int|
                0 <= i < self.entries@.len() && #[trigger] self.changes(i) ==> exists|x: int|
                    0 <= x < self.change_nodes().len() && self.change_nodes()[x] == i,
    {
        let n = self.entries@.len();
        self.change_nodes_among(n);
        assert forall|i: int| 0 <= i < n && #[trigger] self.changes(i) implies exists|x: int|
            0 <= x < self.change_nodes().len() && self.change_nodes()[x] == i by {
            let x = choose|x: int| 0 <= x < self.changes_among(n).len() && self.changes_among(n)[x] == i;
            assert(self.change_nodes()[x] == i);
        }
    }

    /// Names start within the chain of a node.
    proof fn starts_within(self, i: int)
        requires
            self.wf(),
            0 <= i < self.entries@.len() <= usize::MAX,
            self.changes(i),
            self.share_root(self.root_len()),
        ensures
            self.root_len() < self.line(i).len(),
            self.variant_start(i) <= self.line(i).len(),
    {
        self.change_node_facts();
        self.scope_line(i);
        let x = choose|x: int| 0 <= x < self.change_nodes().len() && self.change_nodes()[x] == i;
        assert(self.root_len() < self.line(self.change_nodes()[x] as int).len());
    }
}

impl GenCtx {
    /// Whether the context is that of a schema.
    pub open spec fn fits(self, schema: Schema) -> bool {
        let n = schema.entries@.len();
        &&& self.change_nodes@ == schema.change_nodes()
        &&& self.scopes@.len() == n
        &&& self.variants@.len() == n
        &&& forall|i: int|
            0 <= i < n ==> match #[trigger] self.scopes@[i] {
                Some(info) => schema.defines_scope(i) && info.type_base@ == schema.type_base(i)
                    && info.has_entry_changes == schema.has_entry_changes(i),
                None => !schema.defines_scope(i),
            }
        &&& forall|i: int| 0 <= i < n ==> opt_text(#[trigger] self.variants@[i]) == schema.variant_name(i)
    }
}

fn change_nodes(schema: &Schema) -> (r: Vec<usize>)
    requires
        schema.wf(),
    ensures
        r@ == schema.change_nodes(),
{
    let mut nodes: Vec<usize> = Vec::new();
    let mut i: usize = 0;
    while i < schema.entries.len()
        invariant
            schema.wf(),
            i <= schema.entries@.len(),
            nodes@ == schema.changes_among(i as nat),
        decreases schema.entries@.len() - i,
    {
        if is_change_node(schema, i) {
            nodes.push(i);
        }
        i = i + 1;
    }
    nodes
}

fn chains(schema: &Schema, nodes: &Vec<usize>) -> (r: Vec<Chain>)
    requires
        schema.wf(),
        nodes@ == schema.change_nodes(),
    ensures
        chains_of(*schema, r@),
{
    let total: usize = schema.entries.len();
    proof {
        schema.change_node_facts();
    }
    let mut r: Vec<Chain> = Vec::new();
    let mut x: usize = 0;
    while x < nodes.len()
        invariant
            schema.wf(),
            x <= nodes@.len(),
            r@.len() == x,
            total == schema.entries@.len(),
            nodes@ == schema.change_nodes(),
            forall|y: int|
                0 <= y < nodes@.len() ==> (
                    #[trigger] nodes@[y]
                ) < schema.entries@.len() && schema.changes(nodes@[y] as int),
            forall|y: int|
                0 <= y < x ==> texts((#[trigger] r@[y]).segments@) == schema.segments(nodes@[y] as int)
                    && schema.segments(nodes@[y] as int).len() > 0,
        decreases nodes@.len() - x,
    {
        proof {
            schema.line_bounds(nodes@[x as int] as int);
        }
        r.push(segment_chain(schema, nodes[x]));
        x = x + 1;
    }
    r
}

/// The first position that holds the given text.
fn find_text(names: &Vec<Option<String>>, name: &String) -> (r: Option<usize>)
    ensures
        match r {
            Some(k) => k < names@.len() && opt_text(names@[k as int]) == Some(name@),
            None => forall|k: int| 0 <= k < names@.len() ==> opt_text(#[trigger] names@[k]) != Some(name@),
        },
{
    let mut k: usize = 0;
    while k < names.len()
        invariant
            k <= names@.len(),
            forall|x: int| 0 <= x < k ==> opt_text(#[trigger] names@[x]) != Some(name@),
        decreases names@.len() - k,
    {
        if let Some(other) = &names[k] {
            if *other == *name {
                return Some(k);
            }
        }
        k = k + 1;
    }
    None
}

/// Computes the base names of all configuration list scopes.
fn scope_names(schema: &Schema, root_len: usize) -> (r: Result<Vec<Option<String>>, GenError>)
    requires
        schema.wf(),
        root_len == schema.root_len(),
        schema.share_root(root_len as nat),
    ensures
        match r {
            Ok(names) => schema.no_type_clash() && names@.len() == schema.entries@.len() && (forall|i: int|
                0 <= i < names@.len() ==> opt_text(#[trigger] names@[i]) == schema.scope_name(i)),
            Err(e) => e is DuplicateType && schema.reports(e),
        },
{
    let total: usize = schema.entries.len();
    let mut names: Vec<Option<String>> = Vec::new();
    let mut i: usize = 0;
    while i < total
        invariant
            schema.wf(),
            root_len == schema.root_len(),
            schema.share_root(root_len as nat),
            i <= total,
            total == schema.entries@.len(),
            names@.len() == i,
            forall|k: int| 0 <= k < i ==> opt_text(#[trigger] names@[k]) == schema.scope_name(k),
            forall|a: int, b: int| b < i ==> !#[trigger] schema.type_clash(a, b),
        decreases total - i,
    {
        if is_config_list(schema, i) {
            proof {
                schema.starts_within(i as int);
            }
            let chain = segment_chain(schema, i);
            assert(texts(chain.segments@).len() == chain.collapsible@.len());
            let name = chain.name_from(root_len);
            if let Some(k) = find_text(&names, &name) {
                assert(opt_text(names@[k as int]) == schema.scope_name(k as int));
                assert(schema.type_clash(k as int, i as int));
                return Err(
                    GenError::DuplicateType {
                        name,
                        other: schema.entries[k].path.clone(),
                        path: schema.entries[i].path.clone(),
                    },
                );
            }
            proof {
                assert forall|a: int, b: int| b < i + 1 implies !#[trigger] schema.type_clash(a, b) by {
                    if schema.type_clash(a, b) && b == i {
                        assert(opt_text(names@[a]) == schema.scope_name(a));
                    }
                }
            }
            names.push(Some(name));
        } else {
            names.push(None);
        }
        i = i + 1;
    }
    Ok(names)
}

/// A scope's entry change type must not collide with the change type of a scope
/// whose name ends in "Entry".
fn check_entry_names(schema: &Schema, names: &Vec<Option<String>>) -> (r: Result<(), GenError>)
    requires
        schema.no_type_clash(),
        names@.len() == schema.entries@.len(),
        forall|i: int| 0 <= i < names@.len() ==> opt_text(#[trigger] names@[i]) == schema.scope_name(i),
    ensures
        match r {
            Ok(_) => schema.no_entry_clash(),
            Err(e) => e is DuplicateChangeType && schema.reports(e),
        },
{
    let mut j: usize = 0;
    while j < names.len()
        invariant
            schema.no_type_clash(),
            names@.len() == schema.entries@.len(),
            j <= names@.len(),
            forall|i: int| 0 <= i < names@.len() ==> opt_text(#[trigger] names@[i]) == schema.scope_name(i),
            forall|a: int, b: int| b < j ==> !#[trigger] schema.entry_clash(a, b),
        decreases names@.len() - j,
    {
        if let Some(name) = &names[j] {
            assert(opt_text(names@[j as int]) == schema.scope_name(j as int));
            if let Some(stem) = strip_suffix(name.as_str(), "Entry") {
                if let Some(k) = find_text(names, &stem) {
                    assert(opt_text(names@[k as int]) == schema.scope_name(k as int));
                    assert(schema.entry_clash(k as int, j as int));
                    return Err(
                        GenError::DuplicateChangeType {
                            name: name.clone(),
                            other: schema.entries[k].path.clone(),
                            path: schema.entries[j].path.clone(),
                        },
                    );
                }
            }
        }
        proof {
            assert forall|a: int, b: int| b < j + 1 implies !#[trigger] schema.entry_clash(a, b) by {
                if schema.entry_clash(a, b) && b == j {
                    assert(opt_text(names@[a]) == schema.scope_name(a));
                    assert(opt_text(names@[b]) == schema.scope_name(b));
                }
            }
        }
        j = j + 1;
    }
    Ok(())
}

/// The first position that holds the given text in the given scope.
fn find_variant(
    names: &Vec<Option<String>>,
    scopes: &Vec<Option<usize>>,
    name: &String,
    scope: Option<usize>,
) -> (r: Option<usize>)
    requires
        names@.len() == scopes@.len(),
    ensures
        match r {
            Some(k) => k < names@.len() && opt_text(names@[k as int]) == Some(name@) && scopes@[k as int] == scope,
            None => forall|k: int|
                0 <= k < names@.len() ==> opt_text(#[trigger] names@[k]) != Some(name@) || scopes@[k] != scope,
        },
{
    let mut k: usize = 0;
    while k < names.len()
        invariant
            k <= names@.len(),
            names@.len() == scopes@.len(),
            forall|x: int| 0 <= x < k ==> opt_text(#[trigger] names@[x]) != Some(name@) || scopes@[x] != scope,
        decreases names@.len() - k,
    {
        if let Some(other) = &names[k] {
            if *other == *name && scopes[k] == scope {
                return Some(k);
            }
        }
        k = k + 1;
    }
    None
}

/// Computes the variant name of each change node, relative to its scope root,
/// along with its scope.
fn variant_names(schema: &Schema, root_len: usize) -> (r: Result<(Vec<Option<String>>, Vec<Option<usize>>), GenError>)
    requires
        schema.wf(),
        root_len == schema.root_len(),
        schema.share_root(root_len as nat),
        schema.no_type_clash(),
        schema.no_entry_clash(),
    ensures
        match r {
            Ok((names, scopes)) => {
                &&& schema.no_variant_clash()
                &&& names@.len() == schema.entries@.len()
                &&& scopes@.len() == schema.entries@.len()
                &&& forall|i: int|
                    0 <= i < names@.len() ==> opt_text(#[trigger] names@[i]) == schema.variant_name(i)
                &&& forall|i: int|
                    0 <= i < scopes@.len() ==> position(#[trigger] scopes@[i]) == schema.scope_of(i)
            },
            Err(e) => e is DuplicateVariant && schema.reports(e),
        },
{
    let total: usize = schema.entries.len();
    let mut names: Vec<Option<String>> = Vec::new();
    let mut scopes: Vec<Option<usize>> = Vec::new();
    let mut i: usize = 0;
    while i < total
        invariant
            schema.wf(),
            root_len == schema.root_len(),
            schema.share_root(root_len as nat),
            schema.no_type_clash(),
            schema.no_entry_clash(),
            i <= total,
            total == schema.entries@.len(),
            names@.len() == i,
            scopes@.len() == i,
            forall|k: int| 0 <= k < i ==> opt_text(#[trigger] names@[k]) == schema.variant_name(k),
            forall|k: int| 0 <= k < i ==> position(#[trigger] scopes@[k]) == schema.scope_of(k),
            forall|a: int, b: int| b < i ==> !#[trigger] schema.variant_clash(a, b),
        decreases total - i,
    {
        let scope = scope_parent(schema, i);
        if is_change_node(schema, i) {
            proof {
                schema.starts_within(i as int);
            }
            let start: usize = match scope {
                Some(k) => ancestors(schema, k).len(),
                None => root_len,
            };
            let chain = segment_chain(schema, i);
            assert(texts(chain.segments@).len() == chain.collapsible@.len());
            let name = chain.name_from(start);
            if let Some(k) = find_variant(&names, &scopes, &name, scope) {
                assert(opt_text(names@[k as int]) == schema.variant_name(k as int));
                assert(position(scopes@[k as int]) == schema.scope_of(k as int));
                assert(schema.variant_clash(k as int, i as int));
                return Err(
                    GenError::DuplicateVariant {
                        name,
                        other: schema.entries[k].path.clone(),
                        path: schema.entries[i].path.clone(),
                    },
                );
            }
            proof {
                assert forall|a: int, b: int| b < i + 1 implies !#[trigger] schema.variant_clash(a, b) by {
                    if schema.variant_clash(a, b) && b == i {
                        assert(opt_text(names@[a]) == schema.variant_name(a));
                        assert(position(scopes@[a]) == schema.scope_of(a));
                        assert(scopes@[a] == scope);
                    }
                }
            }
            names.push(Some(name));
        } else {
            names.push(None);
        }
        scopes.push(scope);
        i = i + 1;
    }
    Ok((names, scopes))
}

/// Flags the scopes that own changes other than their own list entry creation
/// and deletion.
fn entry_flags(schema: &Schema, nodes: &Vec<usize>, scopes: &Vec<Option<usize>>) -> (r: Vec<bool>)
    requires
        schema.wf(),
        nodes@ == schema.change_nodes(),
        scopes@.len() == schema.entries@.len(),
        forall|i: int| 0 <= i < scopes@.len() ==> position(#[trigger] scopes@[i]) == schema.scope_of(i),
    ensures
        r@.len() == schema.entries@.len(),
        forall|k: int| 0 <= k < r@.len() ==> #[trigger] r@[k] == schema.has_entry_changes(k),
{
    let total: usize = schema.entries.len();
    proof {
        schema.change_node_facts();
    }
    let mut flags: Vec<bool> = Vec::new();
    let mut k: usize = 0;
    while k < total
        invariant
            k <= total,
            flags@.len() == k,
            forall|y: int| 0 <= y < k ==> !#[trigger] flags@[y],
        decreases total - k,
    {
        flags.push(false);
        k = k + 1;
    }
    let mut x: usize = 0;
    while x < nodes.len()
        invariant
            schema.wf(),
            x <= nodes@.len(),
            flags@.len() == total,
            total == schema.entries@.len(),
            nodes@ == schema.change_nodes(),
            scopes@.len() == schema.entries@.len(),
            forall|i: int| 0 <= i < scopes@.len() ==> position(#[trigger] scopes@[i]) == schema.scope_of(i),
            forall|y: int|
                0 <= y < nodes@.len() ==> (
                    #[trigger] nodes@[y]
                ) < schema.entries@.len() && schema.changes(nodes@[y] as int),
            forall|k: int|
                0 <= k < total ==> #[trigger] flags@[k] == exists|y: int|
                    0 <= y < x && scopes@[#[trigger] nodes@[y] as int] == Some(k as usize),
        decreases nodes@.len() - x,
    {
        let ghost before = flags@;
        let scope = scopes[nodes[x]];
        proof {
            schema.scope_line(nodes@[x as int] as int);
            assert(position(scopes@[nodes@[x as int] as int]) == schema.scope_of(nodes@[x as int] as int));
        }
        if let Some(k) = scope {
            flags.set(k, true);
        }
        proof {
            assert forall|k: int| 0 <= k < total implies #[trigger] flags@[k] == exists|y: int|
                0 <= y < x + 1 && scopes@[#[trigger] nodes@[y] as int] == Some(k as usize) by {
                if scope == Some(k as usize) {
                    assert(scopes@[nodes@[x as int] as int] == Some(k as usize));
                } else {
                    assert(flags@[k] == before[k]);
                    if before[k] {
                        let y = choose|y: int| 0 <= y < x && scopes@[#[trigger] nodes@[y] as int] == Some(k as usize);
                        assert(scopes@[nodes@[y] as int] == Some(k as usize));
                    }
                }
            }
        }
        x = x + 1;
    }
    proof {
        assert forall|k: int| 0 <= k < total implies #[trigger] flags@[k] == schema.has_entry_changes(k) by {
            if flags@[k] {
                let y = choose|y: int| 0 <= y < nodes@.len() && scopes@[
                    #[trigger] nodes@[y] as int
                ] == Some(k as usize);
                assert(position(scopes@[nodes@[y] as int]) == schema.scope_of(nodes@[y] as int));
                assert(schema.changes(nodes@[y] as int));
            }
            if schema.has_entry_changes(k) {
                let i = choose|i: int|
                    0 <= i < schema.entries@.len() && #[trigger] schema.changes(i) && schema.scope_of(i) == Some(k);
                let y = choose|y: int| 0 <= y < schema.change_nodes().len() && schema.change_nodes()[y] == i;
                assert(position(scopes@[i]) == schema.scope_of(i));
                assert(scopes@[nodes@[y] as int] == Some(k as usize));
            }
        }
    }
    flags
}

fn scope_infos(names: &Vec<Option<String>>, flags: &Vec<bool>) -> (r: Vec<Option<ScopeInfo>>)
    requires
        names@.len() == flags@.len(),
    ensures
        r@.len() == names@.len(),
        forall|i: int|
            0 <= i < r@.len() ==> match #[trigger] r@[i] {
                Some(info) => opt_text(names@[i]) == Some(info.type_base@) && info.has_entry_changes == flags@[i],
                None => names@[i] is None,
            },
{
    let mut r: Vec<Option<ScopeInfo>> = Vec::new();
    let mut i: usize = 0;
    while i < names.len()
        invariant
            i <= names@.len(),
            names@.len() == flags@.len(),
            r@.len() == i,
            forall|k: int|
                0 <= k < i ==> match #[trigger] r@[k] {
                    Some(info) => opt_text(names@[k]) == Some(info.type_base@) && info.has_entry_changes == flags@[k],
                    None => names@[k] is None,
                },
        decreases names@.len() - i,
    {
        match &names[i] {
            Some(name) => {
                r.push(Some(ScopeInfo { type_base: name.clone(), has_entry_changes: flags[i] }));
            },
            None => {
                r.push(None);
            },
        }
        i = i + 1;
    }
    r
}

impl GenCtx {
    /// Computes the generated names. Fails if two nodes would get the same one.
    pub fn new(schema: &Schema) -> (r: Result<GenCtx, GenError>)
        requires
            schema.wf(),
        ensures
            match r {
                Ok(ctx) => ctx.fits(*schema) && schema.no_type_clash() && schema.no_entry_clash()
                    && schema.no_variant_clash(),
                Err(e) => schema.reports(e),
            },
    {
        let nodes = change_nodes(schema);
        let all_chains = chains(schema, &nodes);

        // The config root is the deepest ancestor shared by all change nodes;
        // generated names are relative to it.
        let root_len: usize = root_length(schema, &all_chains);

        // Compute the generated type names of all configuration list scopes.
        let names = match scope_names(schema, root_len) {
            Ok(names) => names,
            Err(e) => {
                return Err(e);
            },
        };
        if let Err(e) = check_entry_names(schema, &names) {
            return Err(e);
        }

        // Compute the variant name of each change node, relative to its scope
        // root.
        let (variants, parents) = match variant_names(schema, root_len) {
            Ok(r) => r,
            Err(e) => {
                return Err(e);
            },
        };
        let flags = entry_flags(schema, &nodes, &parents);
        let scopes = scope_infos(&names, &flags);
        let ctx = GenCtx { change_nodes: nodes, scopes, variants };
        proof {
            assert forall|i: int| 0 <= i < schema.entries@.len() implies match #[trigger] ctx.scopes@[i] {
                Some(info) => schema.defines_scope(i) && info.type_base@ == schema.type_base(i)
                    && info.has_entry_changes == schema.has_entry_changes(i),
                None => !schema.defines_scope(i),
            } by {
                assert(opt_text(names@[i]) == schema.scope_name(i));
                assert(flags@[i] == schema.has_entry_changes(i));
            }
        }
        Ok(ctx)
    }
}

// ===== emitted code =====

/// A line of generated code.
pub struct Line {
    /// Depth of indentation.
    pub level: usize,
    pub text: String,
}

pub struct LineView {
    pub level: nat,
    pub text: Seq<char>,
}

impl View for Line {
    type V = LineView;

    open spec fn view(&self) -> LineView {
        LineView { level: self.level as nat, text: self.text@ }
    }
}

/// The lines of code generated so far.
pub struct CodeWriter {
    pub lines: Vec<Line>,
}

impl View for CodeWriter {
    type V = Seq<LineView>;

    open spec fn view(&self) -> Seq<LineView> {
        Seq::new(self.lines@.len(), |x: int| self.lines@[x]@)
    }
}

/// A line with the given indentation.
pub open spec fn line(level: nat, text: Seq<char>) -> LineView {
    LineView { level, text }
}

fn emit(w: &mut CodeWriter, level: usize, text: String)
    ensures
        final(w)@ == old(w)@.push(line(level as nat, text@)),
{
    let ghost before = w@;
    w.lines.push(Line { level, text });
    assert(w@ =~= before.push(line(level as nat, text@)));
}

impl ScopeInfo {
    fn keys_type(&self) -> (r: String)
        ensures
            r@ == self.type_base@ + "Keys"@,
    {
        self.type_base.clone().concat("Keys")
    }

    fn change_type(&self) -> (r: String)
        ensures
            r@ == self.type_base@ + "Change"@,
    {
        self.type_base.clone().concat("Change")
    }

    fn entry_change_type(&self) -> (r: String)
        ensures
            r@ == self.type_base@ + "EntryChange"@,
    {
        self.type_base.clone().concat("EntryChange")
    }

    fn keys_fn(&self) -> (r: String)
        ensures
            r@ == snake_case(self.type_base@) + "_keys"@,
    {
        to_snake(&self.type_base).concat("_keys")
    }
}

impl Schema {
    pub open spec fn keys_type(self, k: int) -> Seq<char> {
        self.type_base(k) + "Keys"@
    }

    pub open spec fn change_type(self, k: int) -> Seq<char> {
        self.type_base(k) + "Change"@
    }

    pub open spec fn entry_change_type(self, k: int) -> Seq<char> {
        self.type_base(k) + "EntryChange"@
    }

    pub open spec fn keys_fn(self, k: int) -> Seq<char> {
        snake_case(self.type_base(k)) + "_keys"@
    }

    /// Enum type holding the changes of an existing entry of the given scope,
    /// or the root enum for the root scope.
    pub open spec fn scope_type(self, scope: Option<int>) -> Seq<char> {
        match scope {
            Some(k) => self.entry_change_type(k),
            None => "ConfigChange"@,
        }
    }

    /// Type of a node's values in the generated code.
    pub open spec fn rust_type(self, i: int) -> Option<Seq<char>> {
        opt_text(self.entries@[i].rust_type)
    }
}

/// The expression that parses an owned leaf value from its canonical text.
pub open spec fn value_expr(rust_type: Seq<char>) -> Seq<char> {
    if rust_type == "String"@ {
        "value"@
    } else {
        "TryFromYang::try_from_yang(&value).ok_or(ParseError::InvalidValue(value))?"@
    }
}

/// Returns the generated code expression for parsing an owned leaf value from
/// its canonical string representation.
pub fn parse_value_expr(rust_type: &String) -> (r: String)
    ensures
        r@ == value_expr(rust_type@),
{
    if *rust_type == owned("String") {
        owned("value")
    } else {
        owned("TryFromYang::try_from_yang(&value).ok_or(ParseError::InvalidValue(value))?")
    }
}

/// Rust payload type and match arms for a change enum variant.
pub struct VariantOps {
    pub payload: String,
    /// Patterns of operations and payload expressions. The payload expression
    /// may reference `value`, the leaf's canonical value string.
    pub arms: Vec<(String, String)>,
}

pub struct VariantOpsView {
    pub payload: Seq<char>,
    pub arms: Seq<(Seq<char>, Seq<char>)>,
}

pub open spec fn arms_view(s: Seq<(String, String)>) -> Seq<(Seq<char>, Seq<char>)> {
    Seq::new(s.len(), |x: int| (s[x].0@, s[x].1@))
}

impl View for VariantOps {
    type V = VariantOpsView;

    open spec fn view(&self) -> VariantOpsView {
        VariantOpsView { payload: self.payload@, arms: arms_view(self.arms@) }
    }
}

/// What an optional variant holds.
pub open spec fn ops_view(ops: Option<VariantOps>) -> Option<VariantOpsView> {
    match ops {
        Some(ops) => Some(ops@),
        None => None,
    }
}

fn variant(payload: String, arms: Vec<(String, String)>) -> (r: Option<VariantOps>)
    ensures
        ops_view(r) == Some(VariantOpsView { payload: payload@, arms: arms_view(arms@) }),
{
    Some(VariantOps { payload, arms })
}

fn one_arm(op: &str, expr: String) -> (r: Vec<(String, String)>)
    ensures
        arms_view(r@) == seq![(op@, expr@)],
{
    let mut r: Vec<(String, String)> = Vec::new();
    r.push((owned(op), expr));
    assert(arms_view(r@) =~= seq![(op@, expr@)]);
    r
}

fn two_arms(op1: &str, expr1: String, op2: &str, expr2: String) -> (r: Vec<(String, String)>)
    ensures
        arms_view(r@) == seq![(op1@, expr1@), (op2@, expr2@)],
{
    let mut r: Vec<(String, String)> = Vec::new();
    r.push((owned(op1), expr1));
    r.push((owned(op2), expr2));
    assert(arms_view(r@) =~= seq![(op1@, expr1@), (op2@, expr2@)]);
    r
}

/// The variant of a node that can only be created or deleted.
pub open spec fn on_off_ops() -> VariantOpsView {
    VariantOpsView {
        payload: "ConfigOp"@,
        arms: seq![
            ("ChangeOp::Create"@, "ConfigOp::Create"@),
            ("ChangeOp::Delete"@, "ConfigOp::Delete"@),
        ],
    }
}

/// The variant payload type and per-operation constructors of a node, or none
/// for lists, whose creation and deletion live in their own scope enum.
pub open spec fn node_ops(snode: SchemaNode, rust_type: Option<Seq<char>>) -> Option<VariantOpsView> {
    match snode.kind {
        SchemaNodeKind::Leaf => match rust_type {
            Some(t) => if snode.empty_type {
                Some(on_off_ops())
            } else if ChangeOp::Delete.valid(snode) {
                Some(
                    VariantOpsView {
                        payload: "Option<"@ + t + ">"@,
                        arms: seq![
                            ("ChangeOp::Modify"@, "Some("@ + value_expr(t) + ")"@),
                            ("ChangeOp::Delete"@, "None"@),
                        ],
                    },
                )
            } else {
                Some(VariantOpsView { payload: t, arms: seq![("ChangeOp::Modify"@, value_expr(t))] })
            },
            None => None,
        },
        SchemaNodeKind::LeafList => match rust_type {
            Some(t) => Some(
                VariantOpsView {
                    payload: "ConfigOp, "@ + t,
                    arms: seq![
                        ("ChangeOp::Create"@, "ConfigOp::Create, "@ + value_expr(t)),
                        ("ChangeOp::Delete"@, "ConfigOp::Delete, "@ + value_expr(t)),
                    ],
                },
            ),
            None => None,
        },
        SchemaNodeKind::Container => Some(on_off_ops()),
        _ => None,
    }
}

/// Returns the variant payload type and per-operation constructors for a
/// change node, or none for list nodes (whose creation and deletion live in
/// their own scope enum).
pub fn variant_ops(entry: &SchemaEntry) -> (r: Option<VariantOps>)
    ensures
        ops_view(r) == node_ops(entry.snode, opt_text(entry.rust_type)),
{
    match entry.snode.kind {
        SchemaNodeKind::Leaf => {
            let rust_type = match &entry.rust_type {
                Some(rust_type) => rust_type,
                None => {
                    return None;
                },
            };
            // Leaves of type empty can only be created or deleted.
            if entry.snode.empty_type {
                return variant(
                    owned("ConfigOp"),
                    two_arms("ChangeOp::Create", owned("ConfigOp::Create"), "ChangeOp::Delete", owned("ConfigOp::Delete")),
                );
            }
            let value = parse_value_expr(rust_type);
            if ChangeOp::Delete.is_valid(&entry.snode) {
                variant(
                    owned("Option<").concat(rust_type.as_str()).concat(">"),
                    two_arms(
                        "ChangeOp::Modify",
                        owned("Some(").concat(value.as_str()).concat(")"),
                        "ChangeOp::Delete",
                        owned("None"),
                    ),
                )
            } else {
                variant(rust_type.clone(), one_arm("ChangeOp::Modify", value))
            }
        },
        SchemaNodeKind::LeafList => {
            let rust_type = match &entry.rust_type {
                Some(rust_type) => rust_type,
                None => {
                    return None;
                },
            };
            let value = parse_value_expr(rust_type);
            variant(
                owned("ConfigOp, ").concat(rust_type.as_str()),
                two_arms(
                    "ChangeOp::Create",
                    owned("ConfigOp::Create, ").concat(value.as_str()),
                    "ChangeOp::Delete",
                    owned("ConfigOp::Delete, ").concat(value.as_str()),
                ),
            )
        },
        // Presence containers.
        SchemaNodeKind::Container => variant(
            owned("ConfigOp"),
            two_arms("ChangeOp::Create", owned("ConfigOp::Create"), "ChangeOp::Delete", owned("ConfigOp::Delete")),
        ),
        _ => None,
    }
}

// ===== keys =====

impl Schema {
    pub open spec fn key_field(self) -> spec_fn(usize) -> Seq<LineView> {
        |k: usize|
            seq![line(1, "pub "@ + snake_case(self.name(k as int)) + ": "@ + self.rust_type(k as int)->0 + ","@)]
    }

    /// The struct that holds the keys of a list.
    pub open spec fn keys_struct(self, i: int) -> Seq<LineView> {
        seq![
            line(0, "#[derive(Clone, Debug)]"@),
            line(0, "pub struct "@ + self.keys_type(i) + " {"@),
        ] + flat_map(self.list_keys(i), self.key_field()) + seq![line(0, "}"@)]
    }

    /// The expression that reads a key of a list entry.
    pub open spec fn key_expr(self, k: int) -> Seq<char> {
        if self.rust_type(k)->0 == "String"@ {
            "dnode.get_string_relative(\"./"@ + self.name(k) + "\").ok_or(ParseError::MissingListKey(\""@ + self.name(k)
                + "\"))?"@
        } else {
            "dnode.get_string_relative(\"./"@ + self.name(k)
                + "\").and_then(|value| TryFromYang::try_from_yang(&value)).ok_or(ParseError::InvalidListKey(\""@
                + self.name(k) + "\"))?"@
        }
    }

    pub open spec fn key_parse(self) -> spec_fn(usize) -> Seq<LineView> {
        |k: usize| seq![line(2, snake_case(self.name(k as int)) + ": "@ + self.key_expr(k as int) + ","@)]
    }

    /// The function that reads the keys of a list entry.
    pub open spec fn keys_function(self, i: int) -> Seq<LineView> {
        seq![
            line(
                0,
                "fn "@ + self.keys_fn(i) + "(dnode: &DataNodeRef<'_>) -> Result<"@ + self.keys_type(i)
                    + ", ParseError> {"@,
            ),
            line(
                1,
                "let dnode = dnode.inclusive_ancestors().find(|dnode| dnode.schema().data_path() == \""@ + self.path(i)
                    + "\").ok_or(ParseError::ListEntryNotFound)?;"@,
            ),
            line(1, "Ok("@ + self.keys_type(i) + " {"@),
        ] + flat_map(self.list_keys(i), self.key_parse()) + seq![line(1, "})"@), line(0, "}"@)]
    }
}

fn list_keys(schema: &Schema, list: usize) -> (r: Vec<usize>)
    ensures
        r@ == schema.list_keys(list as int),
        forall|x: int|
            0 <= x < r@.len() ==> (#[trigger] r@[x]) < schema.entries@.len()
                && schema.entries@[r@[x] as int].snode.list_key,
{
    let mut keys: Vec<usize> = Vec::new();
    let mut j: usize = 0;
    while j < schema.entries.len()
        invariant
            j <= schema.entries@.len(),
            keys@ == schema.keys_among(list as int, j as nat),
        decreases schema.entries@.len() - j,
    {
        if schema.entries[j].snode.list_key && schema.entries[j].parent == Some(list) {
            keys.push(j);
        }
        j = j + 1;
    }
    proof {
        schema.keys_are_keys(list as int, j as nat);
    }
    keys
}

fn generate_keys_struct(w: &mut CodeWriter, schema: &Schema, i: usize, info: &ScopeInfo)
    requires
        schema.wf(),
        info.type_base@ == schema.type_base(i as int),
    ensures
        final(w)@ == old(w)@ + schema.keys_struct(i as int),
{
    let ghost start = w@;
    emit(w, 0, owned("#[derive(Clone, Debug)]"));
    emit(w, 0, owned("pub struct ").concat(info.keys_type().as_str()).concat(" {"));
    let ghost first = w@;
    let keys = list_keys(schema, i);
    let ghost f = schema.key_field();
    let mut x: usize = 0;
    assert(keys@.take(0) =~= Seq::empty());
    assert(w@ =~= first + Seq::<LineView>::empty());
    while x < keys.len()
        invariant
            schema.wf(),
            x <= keys@.len(),
            f == schema.key_field(),
            forall|y: int|
                0 <= y < keys@.len() ==> (#[trigger] keys@[y]) < schema.entries@.len()
                    && schema.entries@[keys@[y] as int].snode.list_key,
            w@ == first + flat_map(keys@.take(x as int), f),
        decreases keys@.len() - x,
    {
        proof {
            flat_map_step(keys@, x as int, f);
        }
        let key = &schema.entries[keys[x]];
        if let Some(rust_type) = &key.rust_type {
            emit(
                w,
                1,
                owned("pub ").concat(to_snake(&key.name).as_str()).concat(": ").concat(rust_type.as_str()).concat(","),
            );
        }
        assert(w@ =~= first + flat_map(keys@.take(x + 1), f));
        x = x + 1;
    }
    assert(keys@.take(x as int) =~= keys@);
    emit(w, 0, owned("}"));
    assert(w@ =~= start + schema.keys_struct(i as int));
}

fn key_expression(key: &SchemaEntry, rust_type: &String) -> (r: String)
    ensures
        r@ == (if rust_type@ == "String"@ {
            "dnode.get_string_relative(\"./"@ + key.name@ + "\").ok_or(ParseError::MissingListKey(\""@ + key.name@
                + "\"))?"@
        } else {
            "dnode.get_string_relative(\"./"@ + key.name@
                + "\").and_then(|value| TryFromYang::try_from_yang(&value)).ok_or(ParseError::InvalidListKey(\""@
                + key.name@ + "\"))?"@
        }),
{
    if *rust_type == owned("String") {
        owned("dnode.get_string_relative(\"./").concat(key.name.as_str()).concat(
            "\").ok_or(ParseError::MissingListKey(\"",
        ).concat(key.name.as_str()).concat("\"))?")
    } else {
        owned("dnode.get_string_relative(\"./").concat(key.name.as_str()).concat(
            "\").and_then(|value| TryFromYang::try_from_yang(&value)).ok_or(ParseError::InvalidListKey(\"",
        ).concat(key.name.as_str()).concat("\"))?")
    }
}

fn generate_keys_fn(w: &mut CodeWriter, schema: &Schema, i: usize, info: &ScopeInfo)
    requires
        schema.wf(),
        i < schema.entries@.len(),
        info.type_base@ == schema.type_base(i as int),
    ensures
        final(w)@ == old(w)@ + schema.keys_function(i as int),
{
    let ghost start = w@;
    emit(
        w,
        0,
        owned("fn ").concat(info.keys_fn().as_str()).concat("(dnode: &DataNodeRef<'_>) -> Result<").concat(
            info.keys_type().as_str(),
        ).concat(", ParseError> {"),
    );
    emit(
        w,
        1,
        owned("let dnode = dnode.inclusive_ancestors().find(|dnode| dnode.schema().data_path() == \"").concat(
            schema.entries[i].path.as_str(),
        ).concat("\").ok_or(ParseError::ListEntryNotFound)?;"),
    );
    emit(w, 1, owned("Ok(").concat(info.keys_type().as_str()).concat(" {"));
    let ghost first = w@;
    let keys = list_keys(schema, i);
    let ghost f = schema.key_parse();
    let mut x: usize = 0;
    assert(keys@.take(0) =~= Seq::empty());
    assert(w@ =~= first + Seq::<LineView>::empty());
    while x < keys.len()
        invariant
            schema.wf(),
            x <= keys@.len(),
            f == schema.key_parse(),
            forall|y: int|
                0 <= y < keys@.len() ==> (#[trigger] keys@[y]) < schema.entries@.len()
                    && schema.entries@[keys@[y] as int].snode.list_key,
            w@ == first + flat_map(keys@.take(x as int), f),
        decreases keys@.len() - x,
    {
        proof {
            flat_map_step(keys@, x as int, f);
        }
        let key = &schema.entries[keys[x]];
        if let Some(rust_type) = &key.rust_type {
            emit(
                w,
                2,
                to_snake(&key.name).concat(": ").concat(key_expression(key, rust_type).as_str()).concat(","),
            );
        }
        assert(w@ =~= first + flat_map(keys@.take(x + 1), f));
        x = x + 1;
    }
    assert(keys@.take(x as int) =~= keys@);
    emit(w, 1, owned("})"));
    emit(w, 0, owned("}"));
    assert(w@ =~= start + schema.keys_function(i as int));
}

// ===== change enums =====

impl GenCtx {
    /// Returns the generated info of the scope defined by the given list.
    fn scope_info(&self, schema: &Schema, k: usize) -> (r: &ScopeInfo)
        requires
            self.fits(*schema),
            k < schema.entries@.len(),
            schema.defines_scope(k as int),
        ensures
            r.type_base@ == schema.type_base(k as int),
            r.has_entry_changes == schema.has_entry_changes(k as int),
    {
        assert(self.scopes@[k as int] is Some);
        self.scopes[k].as_ref().unwrap()
    }

    /// Enum type holding the changes of an existing entry of the given scope,
    /// or the root ConfigChange enum for the root scope.
    fn scope_entry_change_type(&self, schema: &Schema, scope: Option<usize>) -> (r: String)
        requires
            self.fits(*schema),
            scope matches Some(k) ==> k < schema.entries@.len() && schema.defines_scope(k as int),
        ensures
            r@ == schema.scope_type(position(scope)),
    {
        match scope {
            Some(k) => self.scope_info(schema, k).entry_change_type(),
            None => owned("ConfigChange"),
        }
    }

    /// Variant name of the given node within its scope's change enum.
    fn variant_name(&self, schema: &Schema, i: usize) -> (r: String)
        requires
            self.fits(*schema),
            i < schema.entries@.len(),
            schema.changes(i as int),
        ensures
            r@ == schema.variant(i as int),
    {
        assert(opt_text(self.variants@[i as int]) == schema.variant_name(i as int));
        match &self.variants[i] {
            Some(name) => name.clone(),
            None => owned(""),
        }
    }
}

impl Schema {
    /// The variant of a node in the change enum of its scope.
    pub open spec fn variant_line(self, i: int) -> Seq<LineView> {
        if self.is_list(i) {
            seq![line(1, self.variant(i) + "("@ + self.keys_type(i) + ", "@ + self.change_type(i) + "),"@)]
        } else {
            match node_ops(self.entries@[i].snode, self.rust_type(i)) {
                Some(ops) => seq![line(1, self.variant(i) + "("@ + ops.payload + "),"@)],
                None => Seq::empty(),
            }
        }
    }

    pub open spec fn variant_lines(self, scope: Option<int>) -> spec_fn(usize) -> Seq<LineView> {
        |i: usize|
            if self.scope_of(i as int) == scope {
                self.variant_line(i as int)
            } else {
                Seq::empty()
            }
    }

    /// The enum covering the creation and deletion of the entries of a list.
    pub open spec fn list_enum(self, k: int) -> Seq<LineView> {
        seq![
            line(0, "#[derive(Debug)]"@),
            line(0, "pub enum "@ + self.change_type(k) + " {"@),
            line(1, "Create,"@),
            line(1, "Delete,"@),
        ] + (if self.has_entry_changes(k) {
            seq![line(1, "Entry("@ + self.entry_change_type(k) + "),"@)]
        } else {
            Seq::empty()
        }) + seq![line(0, "}"@)]
    }

    /// The enum covering the changes within a scope.
    pub open spec fn entry_enum(self, scope: Option<int>) -> Seq<LineView> {
        seq![line(0, "#[derive(Debug)]"@), line(0, "pub enum "@ + self.scope_type(scope) + " {"@)] + flat_map(
            self.change_nodes(),
            self.variant_lines(scope),
        ) + seq![line(0, "}"@)]
    }

    /// The change enums of a scope.
    pub open spec fn change_enums(self, scope: Option<int>) -> Seq<LineView> {
        match scope {
            Some(k) => if self.has_entry_changes(k) {
                self.list_enum(k) + self.entry_enum(scope)
            } else {
                self.list_enum(k)
            },
            None => self.entry_enum(scope),
        }
    }
}

fn generate_variant(w: &mut CodeWriter, schema: &Schema, ctx: &GenCtx, i: usize)
    requires
        ctx.fits(*schema),
        i < schema.entries@.len(),
        schema.changes(i as int),
    ensures
        final(w)@ == old(w)@ + schema.variant_line(i as int),
{
    let ghost start = w@;
    let name = ctx.variant_name(schema, i);
    if schema.entries[i].snode.kind == SchemaNodeKind::List {
        let info = ctx.scope_info(schema, i);
        emit(
            w,
            1,
            name.concat("(").concat(info.keys_type().as_str()).concat(", ").concat(info.change_type().as_str()).concat(
                "),",
            ),
        );
    } else if let Some(ops) = variant_ops(&schema.entries[i]) {
        emit(w, 1, name.concat("(").concat(ops.payload.as_str()).concat("),"));
    }
    assert(w@ =~= start + schema.variant_line(i as int));
}

fn generate_list_enum(w: &mut CodeWriter, schema: &Schema, k: usize, info: &ScopeInfo)
    requires
        info.type_base@ == schema.type_base(k as int),
        info.has_entry_changes == schema.has_entry_changes(k as int),
    ensures
        final(w)@ == old(w)@ + schema.list_enum(k as int),
{
    let ghost start = w@;
    emit(w, 0, owned("#[derive(Debug)]"));
    emit(w, 0, owned("pub enum ").concat(info.change_type().as_str()).concat(" {"));
    emit(w, 1, owned("Create,"));
    emit(w, 1, owned("Delete,"));
    if info.has_entry_changes {
        emit(w, 1, owned("Entry(").concat(info.entry_change_type().as_str()).concat("),"));
    }
    emit(w, 0, owned("}"));
    assert(w@ =~= start + schema.list_enum(k as int));
}

/// Emits the change enum of a scope. List scopes get two enums: one covering
/// the creation and deletion of their entries, and one covering the changes
/// within an existing entry.
fn generate_change_enum(w: &mut CodeWriter, schema: &Schema, ctx: &GenCtx, scope: Option<usize>)
    requires
        schema.wf(),
        ctx.fits(*schema),
        scope matches Some(k) ==> k < schema.entries@.len() && schema.defines_scope(k as int),
    ensures
        final(w)@ == old(w)@ + schema.change_enums(position(scope)),
{
    let ghost start = w@;
    if let Some(k) = scope {
        let info = ctx.scope_info(schema, k);
        generate_list_enum(w, schema, k, info);
        if !info.has_entry_changes {
            return;
        }
    }
    let ghost second = w@;
    emit(w, 0, owned("#[derive(Debug)]"));
    emit(
        w,
        0,
        owned("pub enum ").concat(ctx.scope_entry_change_type(schema, scope).as_str()).concat(" {"),
    );
    let ghost first = w@;
    let ghost f = schema.variant_lines(position(scope));
    let nodes = &ctx.change_nodes;
    let total: usize = schema.entries.len();
    proof {
        schema.change_node_facts();
    }
    let mut x: usize = 0;
    assert(nodes@.take(0) =~= Seq::empty());
    assert(w@ =~= first + Seq::<LineView>::empty());
    while x < nodes.len()
        invariant
            schema.wf(),
            ctx.fits(*schema),
            nodes@ == schema.change_nodes(),
            x <= nodes@.len(),
            f == schema.variant_lines(position(scope)),
            forall|y: int|
                0 <= y < nodes@.len() ==> (
                    #[trigger] nodes@[y]
                ) < schema.entries@.len() && schema.changes(nodes@[y] as int),
            w@ == first + flat_map(nodes@.take(x as int), f),
        decreases nodes@.len() - x,
    {
        proof {
            flat_map_step(nodes@, x as int, f);
        }
        let i = nodes[x];
        let parent = scope_parent(schema, i);
        if parent == scope {
            generate_variant(w, schema, ctx, i);
        }
        assert(w@ =~= first + flat_map(nodes@.take(x + 1), f));
        x = x + 1;
    }
    assert(nodes@.take(x as int) =~= nodes@);
    emit(w, 0, owned("}"));
    assert(w@ =~= second + schema.entry_enum(position(scope)));
    assert(w@ =~= start + schema.change_enums(position(scope)));
}

// ===== parse table =====

impl Schema {
    pub open spec fn entry_wrap(self, k: int) -> LineView {
        line(2, "let change = "@ + self.change_type(k) + "::Entry(change);"@)
    }

    /// The statements that wrap a change of a list into the root enum, adding
    /// the keys of each enclosing list.
    pub open spec fn list_wraps(self, i: int) -> Seq<LineView>
        decreases i,
    {
        let scope = self.scope_of(i);
        let wrap = line(
            2,
            "let change = "@ + self.scope_type(scope) + "::"@ + self.variant(i) + "("@ + self.keys_fn(i)
                + "(dnode)?, change);"@,
        );
        match scope {
            Some(k) => if 0 <= k < i {
                seq![wrap, self.entry_wrap(k)] + self.list_wraps(k)
            } else {
                seq![wrap]
            },
            None => seq![wrap],
        }
    }

    /// The statements that wrap a scope-local change value into the root enum.
    pub open spec fn wraps_of(self, i: int) -> Seq<LineView> {
        if self.is_list(i) {
            self.list_wraps(i)
        } else {
            match self.scope_of(i) {
                Some(k) => seq![self.entry_wrap(k)] + self.list_wraps(k),
                None => Seq::empty(),
            }
        }
    }

    /// The match arms that build the scope-local change value of a node.
    pub open spec fn change_arms(self, i: int) -> Option<Seq<(Seq<char>, Seq<char>)>> {
        if self.is_list(i) {
            Some(
                seq![
                    ("ChangeOp::Create"@, self.change_type(i) + "::Create"@),
                    ("ChangeOp::Delete"@, self.change_type(i) + "::Delete"@),
                ],
            )
        } else {
            match node_ops(self.entries@[i].snode, self.rust_type(i)) {
                Some(ops) => Some(
                    scoped_arms(ops.arms, self.scope_type(self.scope_of(i)) + "::"@ + self.variant(i) + "("@),
                ),
                None => None,
            }
        }
    }

    /// Whether the match arms of a node refer to the value of a leaf.
    pub open spec fn uses_value(self, i: int) -> bool {
        !self.is_list(i) && exists|x: int|
            0 <= x < self.change_arms(i)->0.len() && occurs_in((#[trigger] self.change_arms(i)->0[x]).1, "value"@)
    }

    /// The entry of the parse table for a node.
    pub open spec fn parse_entry(self, i: int) -> Seq<LineView> {
        match self.change_arms(i) {
            Some(arms) => seq![line(1, "\""@ + self.path(i) + "\" => |op, dnode| {"@)] + (if self.uses_value(i) {
                seq![line(2, "let value = dnode.value_canonical().ok_or(ParseError::MissingLeafValue)?;"@)]
            } else {
                Seq::empty()
            }) + seq![line(2, "let change = match op {"@)] + flat_map(arms, arm_line()) + seq![
                line(3, "_ => return Err(ParseError::UnexpectedOperation),"@),
                line(2, "};"@),
            ] + self.wraps_of(i) + seq![line(2, "Ok(change)"@), line(1, "},"@)],
            None => Seq::empty(),
        }
    }

    pub open spec fn parse_entries(self) -> spec_fn(usize) -> Seq<LineView> {
        |i: usize| self.parse_entry(i as int)
    }

    /// The table of functions that parse changes, by path.
    pub open spec fn parse_table(self) -> Seq<LineView> {
        seq![
            line(
                0,
                "const YANG_CONFIG_PARSE: phf::Map<&'static str, ConfigChangeParseFn<ConfigChange>> = phf_map! {"@,
            ),
        ] + flat_map(self.change_nodes(), self.parse_entries()) + seq![line(0, "};"@)]
    }
}

pub open spec fn scoped_arms(arms: Seq<(Seq<char>, Seq<char>)>, prefix: Seq<char>) -> Seq<(Seq<char>, Seq<char>)> {
    Seq::new(arms.len(), |x: int| (arms[x].0, prefix + arms[x].1 + ")"@))
}

pub open spec fn arm_line() -> spec_fn((Seq<char>, Seq<char>)) -> Seq<LineView> {
    |arm: (Seq<char>, Seq<char>)| seq![line(3, arm.0 + " => "@ + arm.1 + ","@)]
}

fn generate_entry_wrap(w: &mut CodeWriter, schema: &Schema, ctx: &GenCtx, k: usize)
    requires
        ctx.fits(*schema),
        k < schema.entries@.len(),
        schema.defines_scope(k as int),
    ensures
        final(w)@ == old(w)@.push(schema.entry_wrap(k as int)),
{
    emit(
        w,
        2,
        owned("let change = ").concat(ctx.scope_info(schema, k).change_type().as_str()).concat("::Entry(change);"),
    );
}

fn generate_list_wraps(w: &mut CodeWriter, schema: &Schema, ctx: &GenCtx, i: usize)
    requires
        schema.wf(),
        ctx.fits(*schema),
        i < schema.entries@.len(),
        schema.defines_scope(i as int),
    ensures
        final(w)@ == old(w)@ + schema.list_wraps(i as int),
    decreases i,
{
    let ghost start = w@;
    let scope = scope_parent(schema, i);
    let scope_type = ctx.scope_entry_change_type(schema, scope);
    let name = ctx.variant_name(schema, i);
    let info = ctx.scope_info(schema, i);
    emit(
        w,
        2,
        owned("let change = ").concat(scope_type.as_str()).concat("::").concat(name.as_str()).concat("(").concat(
            info.keys_fn().as_str(),
        ).concat("(dnode)?, change);"),
    );
    if let Some(k) = scope {
        generate_entry_wrap(w, schema, ctx, k);
        generate_list_wraps(w, schema, ctx, k);
    }
    assert(w@ =~= start + schema.list_wraps(i as int));
}

/// Emits the statements that wrap a scope-local change value into the root
/// ConfigChange enum, adding the keys of each enclosing list.
fn generate_wrap_stmts(w: &mut CodeWriter, schema: &Schema, ctx: &GenCtx, i: usize)
    requires
        schema.wf(),
        ctx.fits(*schema),
        i < schema.entries@.len(),
        schema.changes(i as int),
    ensures
        final(w)@ == old(w)@ + schema.wraps_of(i as int),
{
    let ghost start = w@;
    if schema.entries[i].snode.kind == SchemaNodeKind::List {
        generate_list_wraps(w, schema, ctx, i);
    } else if let Some(k) = scope_parent(schema, i) {
        // Changes of an existing list entry are wrapped into the scope's change
        // enum. List creations and deletions are already scope-local values.
        generate_entry_wrap(w, schema, ctx, k);
        generate_list_wraps(w, schema, ctx, k);
    }
    assert(w@ =~= start + schema.wraps_of(i as int));
}

/// What optional arms hold.
pub open spec fn opt_arms(arms: Option<Vec<(String, String)>>) -> Option<Seq<(Seq<char>, Seq<char>)>> {
    match arms {
        Some(arms) => Some(arms_view(arms@)),
        None => None,
    }
}

fn scope_arms(arms: &Vec<(String, String)>, prefix: &String) -> (r: Vec<(String, String)>)
    ensures
        arms_view(r@) == scoped_arms(arms_view(arms@), prefix@),
{
    let mut r: Vec<(String, String)> = Vec::new();
    let mut x: usize = 0;
    while x < arms.len()
        invariant
            x <= arms@.len(),
            r@.len() == x,
            forall|y: int|
                0 <= y < x ==> (#[trigger] r@[y]).0@ == arms@[y].0@ && r@[y].1@ == prefix@ + arms@[y].1@ + ")"@,
        decreases arms@.len() - x,
    {
        r.push((arms[x].0.clone(), prefix.clone().concat(arms[x].1.as_str()).concat(")")));
        x = x + 1;
    }
    assert(arms_view(r@) =~= scoped_arms(arms_view(arms@), prefix@));
    r
}

/// Computes the match arms that build the scope-local change value.
fn change_arms(schema: &Schema, ctx: &GenCtx, i: usize) -> (r: Option<Vec<(String, String)>>)
    requires
        schema.wf(),
        ctx.fits(*schema),
        i < schema.entries@.len(),
        schema.changes(i as int),
    ensures
        opt_arms(r) == schema.change_arms(i as int),
{
    if schema.entries[i].snode.kind == SchemaNodeKind::List {
        let change_type = ctx.scope_info(schema, i).change_type();
        return Some(
            two_arms(
                "ChangeOp::Create",
                change_type.clone().concat("::Create"),
                "ChangeOp::Delete",
                change_type.concat("::Delete"),
            ),
        );
    }
    let ops = match variant_ops(&schema.entries[i]) {
        Some(ops) => ops,
        None => {
            return None;
        },
    };
    let scope = scope_parent(schema, i);
    let scope_type = ctx.scope_entry_change_type(schema, scope);
    let name = ctx.variant_name(schema, i);
    Some(scope_arms(&ops.arms, &scope_type.concat("::").concat(name.as_str()).concat("(")))
}

fn any_uses_value(arms: &Vec<(String, String)>) -> (r: bool)
    ensures
        r == exists|x: int| 0 <= x < arms@.len() && occurs_in((#[trigger] arms_view(arms@)[x]).1, "value"@),
{
    let ghost view = arms_view(arms@);
    let mut x: usize = 0;
    while x < arms.len()
        invariant
            x <= arms@.len(),
            view == arms_view(arms@),
            forall|y: int| 0 <= y < x ==> !occurs_in((#[trigger] view[y]).1, "value"@),
        decreases arms@.len() - x,
    {
        assert(view[x as int].1 == arms@[x as int].1@);
        if contains(arms[x].1.as_str(), "value") {
            return true;
        }
        x = x + 1;
    }
    false
}

fn generate_arms(w: &mut CodeWriter, arms: &Vec<(String, String)>)
    ensures
        final(w)@ == old(w)@ + flat_map(arms_view(arms@), arm_line()),
{
    let ghost first = w@;
    let ghost view = arms_view(arms@);
    let ghost f = arm_line();
    let mut x: usize = 0;
    assert(view.take(0) =~= Seq::empty());
    assert(w@ =~= first + Seq::<LineView>::empty());
    while x < arms.len()
        invariant
            x <= arms@.len(),
            view == arms_view(arms@),
            f == arm_line(),
            w@ == first + flat_map(view.take(x as int), f),
        decreases arms@.len() - x,
    {
        proof {
            flat_map_step(view, x as int, f);
        }
        emit(w, 3, arms[x].0.clone().concat(" => ").concat(arms[x].1.as_str()).concat(","));
        assert(w@ =~= first + flat_map(view.take(x + 1), f));
        x = x + 1;
    }
    assert(view.take(x as int) =~= view);
}

fn generate_parse_entry(w: &mut CodeWriter, schema: &Schema, ctx: &GenCtx, i: usize)
    requires
        schema.wf(),
        ctx.fits(*schema),
        i < schema.entries@.len(),
        schema.changes(i as int),
    ensures
        final(w)@ == old(w)@ + schema.parse_entry(i as int),
{
    let ghost start = w@;
    let arms = match change_arms(schema, ctx, i) {
        Some(arms) => arms,
        None => {
            assert(w@ =~= start + schema.parse_entry(i as int));
            return;
        },
    };
    let uses_value = schema.entries[i].snode.kind != SchemaNodeKind::List && any_uses_value(&arms);
    emit(w, 1, owned("\"").concat(schema.entries[i].path.as_str()).concat("\" => |op, dnode| {"));
    if uses_value {
        emit(w, 2, owned("let value = dnode.value_canonical().ok_or(ParseError::MissingLeafValue)?;"));
    }
    emit(w, 2, owned("let change = match op {"));
    generate_arms(w, &arms);
    emit(w, 3, owned("_ => return Err(ParseError::UnexpectedOperation),"));
    emit(w, 2, owned("};"));
    generate_wrap_stmts(w, schema, ctx, i);
    emit(w, 2, owned("Ok(change)"));
    emit(w, 1, owned("},"));
    assert(w@ =~= start + schema.parse_entry(i as int));
}

fn generate_parse_table(w: &mut CodeWriter, schema: &Schema, ctx: &GenCtx)
    requires
        schema.wf(),
        ctx.fits(*schema),
    ensures
        final(w)@ == old(w)@ + schema.parse_table(),
{
    let ghost start = w@;
    emit(
        w,
        0,
        owned(
            "const YANG_CONFIG_PARSE: phf::Map<&'static str, ConfigChangeParseFn<ConfigChange>> = phf_map! {",
        ),
    );
    let ghost first = w@;
    let ghost f = schema.parse_entries();
    let nodes = &ctx.change_nodes;
    let total: usize = schema.entries.len();
    proof {
        schema.change_node_facts();
    }
    let mut x: usize = 0;
    assert(nodes@.take(0) =~= Seq::empty());
    assert(w@ =~= first + Seq::<LineView>::empty());
    while x < nodes.len()
        invariant
            schema.wf(),
            ctx.fits(*schema),
            nodes@ == schema.change_nodes(),
            x <= nodes@.len(),
            f == schema.parse_entries(),
            forall|y: int|
                0 <= y < nodes@.len() ==> (
                    #[trigger] nodes@[y]
                ) < schema.entries@.len() && schema.changes(nodes@[y] as int),
            w@ == first + flat_map(nodes@.take(x as int), f),
        decreases nodes@.len() - x,
    {
        proof {
            flat_map_step(nodes@, x as int, f);
        }
        generate_parse_entry(w, schema, ctx, nodes[x]);
        assert(w@ =~= first + flat_map(nodes@.take(x + 1), f));
        x = x + 1;
    }
    assert(nodes@.take(x as int) =~= nodes@);
    emit(w, 0, owned("};"));
    assert(w@ =~= start + schema.parse_table());
}

// ===== change keys =====

impl Schema {
    pub open spec fn change_key(self, i: int, op: ChangeOp) -> Seq<LineView> {
        if op.valid(self.entries@[i].snode) {
            seq![
                line(
                    1,
                    "(\""@ + self.path(i) + "\", ChangeOp::"@ + (match op {
                        ChangeOp::Create => "Create"@,
                        ChangeOp::Modify => "Modify"@,
                        ChangeOp::Delete => "Delete"@,
                    }) + "),"@,
                ),
            ]
        } else {
            Seq::empty()
        }
    }

    pub open spec fn change_keys(self) -> spec_fn(usize) -> Seq<LineView> {
        |i: usize|
            self.change_key(i as int, ChangeOp::Create) + self.change_key(i as int, ChangeOp::Modify) + self.change_key(
                i as int,
                ChangeOp::Delete,
            )
    }

    /// The list of all changes that can occur.
    pub open spec fn change_key_table(self) -> Seq<LineView> {
        seq![line(0, "static CHANGE_KEYS: &[(&str, ChangeOp)] = &["@)] + flat_map(
            self.change_nodes(),
            self.change_keys(),
        ) + seq![line(0, "];"@)]
    }
}

fn generate_change_key(w: &mut CodeWriter, schema: &Schema, i: usize, op: ChangeOp)
    requires
        i < schema.entries@.len(),
    ensures
        final(w)@ == old(w)@ + schema.change_key(i as int, op),
{
    let ghost start = w@;
    if op.is_valid(&schema.entries[i].snode) {
        let name = match op {
            ChangeOp::Create => "Create",
            ChangeOp::Modify => "Modify",
            ChangeOp::Delete => "Delete",
        };
        emit(
            w,
            1,
            owned("(\"").concat(schema.entries[i].path.as_str()).concat("\", ChangeOp::").concat(name).concat("),"),
        );
    }
    assert(w@ =~= start + schema.change_key(i as int, op));
}

fn generate_change_keys(w: &mut CodeWriter, schema: &Schema, ctx: &GenCtx)
    requires
        schema.wf(),
        ctx.fits(*schema),
    ensures
        final(w)@ == old(w)@ + schema.change_key_table(),
{
    let ghost start = w@;
    emit(w, 0, owned("static CHANGE_KEYS: &[(&str, ChangeOp)] = &["));
    let ghost first = w@;
    let ghost f = schema.change_keys();
    let nodes = &ctx.change_nodes;
    let total: usize = schema.entries.len();
    proof {
        schema.change_node_facts();
    }
    let mut x: usize = 0;
    assert(nodes@.take(0) =~= Seq::empty());
    assert(w@ =~= first + Seq::<LineView>::empty());
    while x < nodes.len()
        invariant
            nodes@ == schema.change_nodes(),
            x <= nodes@.len(),
            f == schema.change_keys(),
            forall|y: int| 0 <= y < nodes@.len() ==> (#[trigger] nodes@[y]) < schema.entries@.len(),
            w@ == first + flat_map(nodes@.take(x as int), f),
        decreases nodes@.len() - x,
    {
        proof {
            flat_map_step(nodes@, x as int, f);
        }
        generate_change_key(w, schema, nodes[x], ChangeOp::Create);
        generate_change_key(w, schema, nodes[x], ChangeOp::Modify);
        generate_change_key(w, schema, nodes[x], ChangeOp::Delete);
        assert(w@ =~= first + flat_map(nodes@.take(x + 1), f));
        x = x + 1;
    }
    assert(nodes@.take(x as int) =~= nodes@);
    emit(w, 0, owned("];"));
    assert(w@ =~= start + schema.change_key_table());
}

// ===== all code =====

impl Schema {
    pub open spec fn keys_code(self) -> spec_fn(usize) -> Seq<LineView> {
        |i: usize|
            if self.is_list(i as int) {
                self.keys_struct(i as int) + self.keys_function(i as int)
            } else {
                Seq::empty()
            }
    }

    pub open spec fn enum_code(self) -> spec_fn(usize) -> Seq<LineView> {
        |i: usize|
            if self.is_list(i as int) {
                self.change_enums(Some(i as int))
            } else {
                Seq::empty()
            }
    }

    /// All code generated for the schema: the keys of each list, the change
    /// enums of each scope, the parse table, and the list of changes.
    pub open spec fn code(self) -> Seq<LineView> {
        flat_map(self.change_nodes(), self.keys_code()) + self.change_enums(None) + flat_map(
            self.change_nodes(),
            self.enum_code(),
        ) + self.parse_table() + self.change_key_table() + seq![
            line(0, "pub const YANG_OPS_CONFIG: YangConfigOps<ConfigChange> = YangConfigOps {"@),
            line(1, "parse: YANG_CONFIG_PARSE,"@),
            line(1, "change_keys: CHANGE_KEYS,"@),
            line(0, "};"@),
        ]
    }
}

fn generate_keys(w: &mut CodeWriter, schema: &Schema, ctx: &GenCtx)
    requires
        schema.wf(),
        ctx.fits(*schema),
    ensures
        final(w)@ == old(w)@ + flat_map(schema.change_nodes(), schema.keys_code()),
{
    let ghost first = w@;
    let ghost f = schema.keys_code();
    let nodes = &ctx.change_nodes;
    let total: usize = schema.entries.len();
    proof {
        schema.change_node_facts();
    }
    let mut x: usize = 0;
    assert(nodes@.take(0) =~= Seq::empty());
    assert(w@ =~= first + Seq::<LineView>::empty());
    while x < nodes.len()
        invariant
            schema.wf(),
            ctx.fits(*schema),
            nodes@ == schema.change_nodes(),
            x <= nodes@.len(),
            f == schema.keys_code(),
            forall|y: int|
                0 <= y < nodes@.len() ==> (
                    #[trigger] nodes@[y]
                ) < schema.entries@.len() && schema.changes(nodes@[y] as int),
            w@ == first + flat_map(nodes@.take(x as int), f),
        decreases nodes@.len() - x,
    {
        proof {
            flat_map_step(nodes@, x as int, f);
        }
        let i = nodes[x];
        if schema.entries[i].snode.kind == SchemaNodeKind::List {
            let info = ctx.scope_info(schema, i);
            generate_keys_struct(w, schema, i, info);
            generate_keys_fn(w, schema, i, info);
        }
        assert(w@ =~= first + flat_map(nodes@.take(x + 1), f));
        x = x + 1;
    }
    assert(nodes@.take(x as int) =~= nodes@);
}

fn generate_list_enums(w: &mut CodeWriter, schema: &Schema, ctx: &GenCtx)
    requires
        schema.wf(),
        ctx.fits(*schema),
    ensures
        final(w)@ == old(w)@ + flat_map(schema.change_nodes(), schema.enum_code()),
{
    let ghost first = w@;
    let ghost f = schema.enum_code();
    let nodes = &ctx.change_nodes;
    let total: usize = schema.entries.len();
    proof {
        schema.change_node_facts();
    }
    let mut x: usize = 0;
    assert(nodes@.take(0) =~= Seq::empty());
    assert(w@ =~= first + Seq::<LineView>::empty());
    while x < nodes.len()
        invariant
            schema.wf(),
            ctx.fits(*schema),
            nodes@ == schema.change_nodes(),
            x <= nodes@.len(),
            f == schema.enum_code(),
            forall|y: int|
                0 <= y < nodes@.len() ==> (
                    #[trigger] nodes@[y]
                ) < schema.entries@.len() && schema.changes(nodes@[y] as int),
            w@ == first + flat_map(nodes@.take(x as int), f),
        decreases nodes@.len() - x,
    {
        proof {
            flat_map_step(nodes@, x as int, f);
        }
        let i = nodes[x];
        if schema.entries[i].snode.kind == SchemaNodeKind::List {
            generate_change_enum(w, schema, ctx, Some(i));
        }
        assert(w@ =~= first + flat_map(nodes@.take(x + 1), f));
        x = x + 1;
    }
    assert(nodes@.take(x as int) =~= nodes@);
}

/// Generates the configuration changes of a schema, after what was generated
/// before. Fails, having generated nothing, if two nodes would get the same
/// name.
pub fn generate_yang_config(w: &mut CodeWriter, schema: &Schema) -> (r: Result<(), GenError>)
    requires
        schema.wf(),
    ensures
        match r {
            Ok(_) => schema.no_type_clash() && schema.no_entry_clash() && schema.no_variant_clash() && final(w)@ == old(
                w,
            )@ + schema.code(),
            Err(e) => schema.reports(e) && final(w)@ == old(w)@,
        },
{
    let ctx = match GenCtx::new(schema) {
        Ok(ctx) => ctx,
        Err(e) => {
            return Err(e);
        },
    };
    let ghost start = w@;

    // Generate keys structs and their parsing functions.
    generate_keys(w, schema, &ctx);

    // Generate the change enum of each scope.
    generate_change_enum(w, schema, &ctx, None);
    generate_list_enums(w, schema, &ctx);

    // Generate the parse dispatch table and change key registrations.
    generate_parse_table(w, schema, &ctx);
    generate_change_keys(w, schema, &ctx);

    emit(w, 0, owned("pub const YANG_OPS_CONFIG: YangConfigOps<ConfigChange> = YangConfigOps {"));
    emit(w, 1, owned("parse: YANG_CONFIG_PARSE,"));
    emit(w, 1, owned("change_keys: CHANGE_KEYS,"));
    emit(w, 0, owned("};"));
    assert(w@ =~= start + schema.code());
    Ok(())
}

// ===== laws =====

proof fn same_suffix(a: Seq<char>, b: Seq<char>, suffix: Seq<char>)
    requires
        a + suffix == b + suffix,
    ensures
        a == b,
{
    let c = a + suffix;
    assert(c.len() == a.len() + suffix.len());
    assert(c.len() == b.len() + suffix.len());
    assert(c.take(a.len() as int) =~= a);
    assert(c.take(b.len() as int) =~= b);
    assert(a =~= b);
}

/// The types generated for different lists have different names.
pub proof fn generated_types_are_distinct(schema: Schema, i: int, j: int)
    requires
        schema.no_type_clash(),
        schema.no_entry_clash(),
        0 <= i < schema.entries@.len(),
        0 <= j < schema.entries@.len(),
        i != j,
        schema.defines_scope(i),
        schema.defines_scope(j),
    ensures
        schema.keys_type(i) != schema.keys_type(j),
        schema.change_type(i) != schema.change_type(j),
        schema.entry_change_type(i) != schema.entry_change_type(j),
        schema.entry_change_type(i) != schema.change_type(j),
{
    let a = schema.type_base(i);
    let b = schema.type_base(j);
    assert(!schema.type_clash(i, j) && !schema.type_clash(j, i));
    if a + "Keys"@ == b + "Keys"@ {
        same_suffix(a, b, "Keys"@);
    }
    if a + "Change"@ == b + "Change"@ {
        same_suffix(a, b, "Change"@);
    }
    if a + "EntryChange"@ == b + "EntryChange"@ {
        same_suffix(a, b, "EntryChange"@);
    }
    if a + "EntryChange"@ == b + "Change"@ {
        reveal_strlit("Entry");
        reveal_strlit("Change");
        reveal_strlit("EntryChange");
        assert("EntryChange"@ =~= "Entry"@ + "Change"@);
        assert(a + "EntryChange"@ =~= (a + "Entry"@) + "Change"@);
        same_suffix(a + "Entry"@, b, "Change"@);
        assert(b.subrange(b.len() - 5, b.len() as int) =~= "Entry"@);
        assert(b.take(b.len() - 5) =~= a);
        assert(schema.entry_clash(i, j));
    }
}

/// The nodes of a scope have different variants in its change enum.
pub proof fn variants_are_distinct(schema: Schema, i: int, j: int)
    requires
        schema.no_variant_clash(),
        0 <= i < schema.entries@.len(),
        0 <= j < schema.entries@.len(),
        i != j,
        schema.changes(i),
        schema.changes(j),
        schema.scope_of(i) == schema.scope_of(j),
    ensures
        schema.variant(i) != schema.variant(j),
{
    assert(!schema.variant_clash(i, j) && !schema.variant_clash(j, i));
}

/// A wrapper named by the plural of its list is redundant in generated names.
pub proof fn plurals_are_restated(list: Seq<char>, stem: Seq<char>)
    ensures
        restates(list, list),
        restates(list + "s"@, list),
        restates(list + "es"@, list),
        restates(stem + "ies"@, stem + "y"@),
{
    reveal_strlit("s");
    reveal_strlit("es");
    reveal_strlit("ies");
    let a = list + "s"@;
    assert(a.subrange(a.len() - 1, a.len() as int) =~= "s"@);
    assert(a.take(a.len() - 1) =~= list);
    let b = list + "es"@;
    assert(b.subrange(b.len() - 2, b.len() as int) =~= "es"@);
    assert(b.take(b.len() - 2) =~= list);
    let c = stem + "ies"@;
    assert(c.subrange(c.len() - 3, c.len() as int) =~= "ies"@);
    assert(c.take(c.len() - 3) =~= stem);
}

/// Nodes that produce changes are current configuration of the chosen modules, below the
/// chosen node if there is one, and can be created, modified or deleted. All such nodes do.
pub proof fn configuration_of_the_modules_changes(schema: Schema, i: int, m: int)
    ensures
        ({
            let e = schema.entries@[i];
            let valid = ChangeOp::Create.valid(e.snode) || ChangeOp::Modify.valid(e.snode) || ChangeOp::Delete.valid(
                e.snode,
            );
            &&& !e.snode.config ==> !schema.changes(i)
            &&& !e.status_current ==> !schema.changes(i)
            &&& (forall|x: int| 0 <= x < schema.modules@.len() ==> (#[trigger] schema.modules@[x])@ != e.module@)
                ==> !schema.changes(i)
            &&& schema.path_root is Some && !schema.below(i, (schema.path_root->0)@) ==> !schema.changes(i)
            &&& !valid ==> !schema.changes(i)
            &&& e.snode.config && e.status_current && 0 <= m < schema.modules@.len() && schema.modules@[m]@
                == e.module@ && valid && (schema.path_root is None || schema.below(i, (schema.path_root->0)@))
                ==> schema.changes(i)
        }),
{
}

/// A node is below its parent, and below whatever its parent is below. One without a
/// parent is below none.
pub proof fn nodes_are_below_their_ancestors(schema: Schema, i: int, p: usize, name: Seq<char>)
    requires
        schema.wf(),
        0 <= i < schema.entries@.len(),
    ensures
        schema.entries@[i].parent == Some(p) ==> {
            &&& schema.below(i, schema.entries@[p as int].name@)
            &&& schema.below(p as int, name) ==> schema.below(i, name)
            &&& name != schema.entries@[p as int].name@ && !schema.below(p as int, name) ==> !schema.below(i, name)
        },
        schema.entries@[i].parent is None ==> !schema.below(i, name),
{
}

/// The scope of a node is the nearest list above it that produces changes itself.
pub proof fn nearest_changing_list_is_the_scope(schema: Schema, i: int, p: usize)
    requires
        schema.wf(),
        0 <= i < schema.entries@.len(),
    ensures
        schema.entries@[i].parent == Some(p) ==> {
            let list = schema.entries@[p as int].snode.kind == SchemaNodeKind::List && schema.changes(p as int);
            &&& list ==> schema.scope_of(i) == Some(p as int)
            &&& !list ==> schema.scope_of(i) == schema.scope_of(p as int)
        },
        schema.entries@[i].parent is None ==> schema.scope_of(i) is None,
{
}

/// The line of a node leads down to it from the top. Choices and cases are left out, as
/// data has none.
pub proof fn lines_lead_down(schema: Schema, i: int, p: usize)
    requires
        schema.wf(),
        0 <= i < schema.entries@.len(),
    ensures
        ({
            let kind = schema.entries@[i].snode.kind;
            let schema_only = kind == SchemaNodeKind::Choice || kind == SchemaNodeKind::Case;
            let parent = schema.entries@[i].parent;
            &&& parent == Some(p) && schema_only ==> schema.line(i) == schema.line(p as int)
            &&& parent == Some(p) && !schema_only ==> schema.line(i) == schema.line(p as int).push(i as usize)
            &&& parent is None && schema_only ==> schema.line(i).len() == 0
            &&& parent is None && !schema_only ==> schema.line(i) == seq![i as usize]
        }),
{
}

/// Every node that produces changes is taken, once and in the order of the schema, and no
/// other one is.
pub proof fn change_nodes_are_taken_in_order(schema: Schema, i: int, x: int, y: int)
    requires
        schema.entries@.len() <= usize::MAX,
    ensures
        0 <= i < schema.entries@.len() && schema.changes(i) ==> schema.change_nodes().contains(i as usize),
        0 <= x < schema.change_nodes().len() ==> schema.change_nodes()[x] < schema.entries@.len() && schema.changes(
            schema.change_nodes()[x] as int,
        ),
        0 <= x < y < schema.change_nodes().len() ==> schema.change_nodes()[x] < schema.change_nodes()[y],
{
    schema.change_nodes_among(schema.entries@.len());
    if 0 <= i < schema.entries@.len() && schema.changes(i) {
        let z = choose|z: int| 0 <= z < schema.change_nodes().len() && schema.change_nodes()[z] == i;
        assert(schema.change_nodes()[z] == i as usize);
    }
}

proof fn keys_among_are_all(schema: Schema, list: int, n: nat)
    requires
        n <= schema.entries@.len() <= usize::MAX,
    ensures
        forall|i: int|
            0 <= i < n && (#[trigger] schema.entries@[i]).snode.list_key && schema.entries@[i].parent == Some(
                list as usize,
            ) ==> schema.keys_among(list, n).contains(i as usize),
        forall|x: int|
            0 <= x < schema.keys_among(list, n).len() ==> schema.entries@[(
            #[trigger] schema.keys_among(list, n)[x]) as int].snode.list_key && schema.entries@[schema.keys_among(
                list,
                n,
            )[x] as int].parent == Some(list as usize),
    decreases n,
{
    if n > 0 {
        keys_among_are_all(schema, list, (n - 1) as nat);
        let a = schema.keys_among(list, (n - 1) as nat);
        let b = schema.keys_among(list, n);
        assert forall|i: int|
            0 <= i < n && (#[trigger] schema.entries@[i]).snode.list_key && schema.entries@[i].parent == Some(
                list as usize,
            ) implies b.contains(i as usize) by {
            if i < n - 1 {
                let z = choose|z: int| 0 <= z < a.len() && a[z] == i as usize;
                assert(b[z] == i as usize);
            } else {
                assert(b[b.len() - 1] == i as usize);
            }
        }
    }
}

/// The keys of a list are the key nodes that it is the parent of, and no others.
pub proof fn keys_are_those_of_the_list(schema: Schema, list: int, i: int, x: int)
    requires
        schema.entries@.len() <= usize::MAX,
    ensures
        0 <= i < schema.entries@.len() && schema.entries@[i].snode.list_key && schema.entries@[i].parent == Some(
            list as usize,
        ) ==> schema.list_keys(list).contains(i as usize),
        0 <= x < schema.list_keys(list).len() ==> schema.entries@[schema.list_keys(list)[x] as int].snode.list_key
            && schema.entries@[schema.list_keys(list)[x] as int].parent == Some(list as usize),
{
    keys_among_are_all(schema, list, schema.entries@.len());
}

/// What is left out of a name is left out, and the rest is joined in order.
pub proof fn names_join_their_segments(segments: Seq<Seq<char>>, collapsible: Seq<bool>, start: int)
    ensures
        start >= segments.len() ==> joined(segments, collapsible, start).len() == 0,
        start < segments.len() && collapsible[start] ==> joined(segments, collapsible, start) == joined(
            segments,
            collapsible,
            start + 1,
        ),
        start < segments.len() && !collapsible[start] ==> joined(segments, collapsible, start) == segments[start]
            + joined(segments, collapsible, start + 1),
{
}

/// A container is left out of names if it is there for a single list only, has no presence,
/// and says what the list says. Each segment is the name of its node.
pub proof fn wrappers_are_left_out(schema: Schema, i: int, x: int)
    requires
        0 <= x < schema.line(i).len(),
    ensures
        schema.segments(i).len() == schema.line(i).len(),
        schema.segments(i)[x] == pascal_case(schema.entries@[schema.line(i)[x] as int].name@),
        schema.collapsible(i).len() == schema.line(i).len(),
        x == schema.line(i).len() - 1 ==> !schema.collapsible(i)[x],
        x < schema.line(i).len() - 1 ==> {
            let e = schema.entries@[schema.line(i)[x] as int];
            let f = schema.entries@[schema.line(i)[x + 1] as int];
            schema.collapsible(i)[x] == (e.snode.kind == SchemaNodeKind::Container && e.snode.np_container
                && e.children == 1 && f.snode.kind == SchemaNodeKind::List && restates(e.name@, f.name@))
        },
{
}

/// A list restates a name that it begins with, as a whole or up to a hyphen.
pub proof fn lists_restate_their_beginning(name: Seq<char>, rest: Seq<char>, list: Seq<char>)
    ensures
        restates_as(name, name),
        restates_as(name + "-"@ + rest, name),
        restates_as(list, name) && list != name ==> list.len() > name.len() && list.take(name.len() as int) == name
            && list[name.len() as int] == '-',
{
    reveal_strlit("-");
    let a = name + "-"@ + rest;
    assert(a.subrange(0, name.len() as int + 1) =~= name + "-"@);
    if restates_as(list, name) && list != name {
        let b = name + "-"@;
        assert(list.subrange(0, b.len() as int) == b);
        assert(list.take(name.len() as int) =~= b.take(name.len() as int));
        assert(b.take(name.len() as int) =~= name);
        assert(list[name.len() as int] == b[name.len() as int]);
    }
}

/// The root of all names is the longest beginning that the nodes share and that leaves
/// each of them a segment.
pub proof fn root_is_what_all_nodes_share(schema: Schema, n: nat, a: int, b: int)
    requires
        ({
            let nodes = schema.change_nodes();
            &&& 0 <= a < nodes.len() && 0 <= b < nodes.len()
            &&& forall|x: int| 0 <= x < nodes.len() ==> n < schema.segments(#[trigger] nodes[x] as int).len()
            &&& forall|x: int, z: int|
                0 <= x < nodes.len() && 0 <= z < n ==> #[trigger] schema.segments(nodes[x] as int)[z]
                    == schema.segments(nodes[0] as int)[z]
            &&& schema.segments(nodes[a] as int).len() == n + 1 || schema.segments(nodes[a] as int)[n as int]
                != schema.segments(nodes[b] as int)[n as int]
        }),
    ensures
        schema.root_len() == n,
{
    let nodes = schema.change_nodes();
    assert forall|x: int, y: int| 0 <= x < nodes.len() && 0 <= y < nodes.len() implies schema.segments(
        #[trigger] nodes[x] as int,
    ).take(n as int) == schema.segments(#[trigger] nodes[y] as int).take(n as int) by {
        let s = schema.segments(nodes[x] as int);
        let t = schema.segments(nodes[y] as int);
        assert(s.take(n as int) =~= t.take(n as int)) by {
            assert forall|z: int| 0 <= z < n implies s[z] == t[z] by {
                assert(schema.segments(nodes[x] as int)[z] == schema.segments(nodes[0] as int)[z]);
                assert(schema.segments(nodes[y] as int)[z] == schema.segments(nodes[0] as int)[z]);
            }
        }
    }
    assert forall|x: int| 0 <= x < nodes.len() implies n < schema.line(#[trigger] nodes[x] as int).len() by {
        assert(n < schema.segments(nodes[x] as int).len());
    }
    if schema.share_root(n + 1) {
        let s = schema.segments(nodes[a] as int);
        let t = schema.segments(nodes[b] as int);
        assert(n + 1 < schema.line(nodes[a] as int).len());
        assert(s.take(n as int + 1) == t.take(n as int + 1));
        assert(s.take(n as int + 1)[n as int] == s[n as int]);
        assert(t.take(n as int + 1)[n as int] == t[n as int]);
    }
    schema.root_unique(n);
}

/// Types are named below the root of all names, and variants below their scope.
pub proof fn variants_are_named_below_their_scope(schema: Schema, i: int, k: int)
    ensures
        schema.type_base(i) == joined(schema.segments(i), schema.collapsible(i), schema.root_len() as int),
        schema.scope_of(i) == Some(k) ==> schema.variant(i) == joined(
            schema.segments(i),
            schema.collapsible(i),
            schema.line(k).len() as int,
        ),
        schema.scope_of(i) is None ==> schema.variant(i) == schema.type_base(i),
        schema.keys_type(i) == schema.type_base(i) + "Keys"@,
        schema.change_type(i) == schema.type_base(i) + "Change"@,
        schema.entry_change_type(i) == schema.type_base(i) + "EntryChange"@,
        schema.keys_fn(i) == snake_case(schema.type_base(i)) + "_keys"@,
        schema.scope_type(Some(k)) == schema.entry_change_type(k),
        schema.scope_type(None) == "ConfigChange"@,
{
}

/// A list has changes of its entries if it is the scope of some node that produces changes.
pub proof fn entries_change_with_their_nodes(schema: Schema, k: int, i: int)
    ensures
        0 <= i < schema.entries@.len() && schema.changes(i) && schema.scope_of(i) == Some(k)
            ==> schema.has_entry_changes(k),
        (forall|j: int|
            0 <= j < schema.entries@.len() && #[trigger] schema.changes(j) ==> schema.scope_of(j) != Some(k))
            ==> !schema.has_entry_changes(k),
{
}

/// An error names the later of two nodes with the same name and the path of both.
pub proof fn clashes_are_reported(schema: Schema, e: GenError)
    requires
        schema.reports(e),
    ensures
        e is DuplicateType ==> exists|i: int, j: int|
            {
                &&& 0 <= i < j < schema.entries@.len()
                &&& #[trigger] schema.defines_scope(i) && #[trigger] schema.defines_scope(j)
                &&& schema.type_base(i) == schema.type_base(j)
                &&& e.text() == "Duplicate generated type name "@ + schema.type_base(j) + ": "@
                    + schema.entries@[i].path@ + " vs "@ + schema.entries@[j].path@
            },
        e is DuplicateVariant ==> exists|i: int, j: int|
            {
                &&& 0 <= i < j < schema.entries@.len()
                &&& #[trigger] schema.changes(i) && #[trigger] schema.changes(j)
                &&& schema.scope_of(i) == schema.scope_of(j)
                &&& schema.variant(i) == schema.variant(j)
                &&& e.text() == "Duplicate generated variant name "@ + schema.variant(j) + ": "@
                    + schema.entries@[i].path@ + " vs "@ + schema.entries@[j].path@
            },
        e is DuplicateChangeType ==> exists|i: int, j: int|
            {
                &&& #[trigger] schema.defines_scope(i) && #[trigger] schema.defines_scope(j)
                &&& schema.type_base(i) + "Entry"@ == schema.type_base(j)
                &&& e.text() == "Duplicate generated type name "@ + schema.type_base(j) + "Change: "@
                    + schema.entries@[i].path@ + " vs "@ + schema.entries@[j].path@
            },
{
    if let GenError::DuplicateType { name, other, path } = e {
        let (i, j) = choose|i: int, j: int| #[trigger]
            schema.type_clash(i, j) && name@ == schema.type_base(j) && other@ == schema.path(i) && path@
                == schema.path(j);
        assert(schema.defines_scope(i) && schema.defines_scope(j));
    }
    if let GenError::DuplicateVariant { name, other, path } = e {
        let (i, j) = choose|i: int, j: int| #[trigger]
            schema.variant_clash(i, j) && name@ == schema.variant(j) && other@ == schema.path(i) && path@
                == schema.path(j);
        assert(schema.changes(i) && schema.changes(j));
    }
    if let GenError::DuplicateChangeType { name, other, path } = e {
        let (i, j) = choose|i: int, j: int| #[trigger]
            schema.entry_clash(i, j) && name@ == schema.type_base(j) && other@ == schema.path(i) && path@
                == schema.path(j);
        assert(schema.defines_scope(i) && schema.defines_scope(j));
        let s = schema.type_base(j);
        let t = "Entry"@;
        assert(s.subrange(s.len() - t.len(), s.len() as int) == t);
        assert(s =~= s.take(s.len() - t.len()) + t);
    }
}

/// Texts are taken as they are, and other values are parsed.
pub proof fn values_are_parsed(t: Seq<char>)
    ensures
        value_expr("String"@) == "value"@,
        t != "String"@ ==> value_expr(t)
            == "TryFromYang::try_from_yang(&value).ok_or(ParseError::InvalidValue(value))?"@,
{
}

/// A leaf without a value and a container with presence are on or off; a leaf that can go
/// has a value or none, another one always has a value; values of a leaf-list come and go.
pub proof fn operations_follow_the_kind_of_node(snode: SchemaNode, t: Seq<char>, any: Option<Seq<char>>)
    ensures
        ({
            let on_off = VariantOpsView {
                payload: "ConfigOp"@,
                arms: seq![
                    ("ChangeOp::Create"@, "ConfigOp::Create"@),
                    ("ChangeOp::Delete"@, "ConfigOp::Delete"@),
                ],
            };
            let ops = node_ops(snode, Some(t));
            &&& snode.kind == SchemaNodeKind::Container ==> node_ops(snode, any) == Some(on_off)
            &&& snode.kind == SchemaNodeKind::List ==> node_ops(snode, any) is None
            &&& snode.kind == SchemaNodeKind::Leaf || snode.kind == SchemaNodeKind::LeafList ==> node_ops(
                snode,
                None,
            ) is None
            &&& snode.kind == SchemaNodeKind::Leaf && snode.empty_type ==> ops == Some(on_off)
            &&& snode.kind == SchemaNodeKind::Leaf && !snode.empty_type && ChangeOp::Delete.valid(snode) ==> {
                &&& ops is Some && (ops->0).payload == "Option<"@ + t + ">"@
                &&& (ops->0).arms == seq![
                    ("ChangeOp::Modify"@, "Some("@ + value_expr(t) + ")"@),
                    ("ChangeOp::Delete"@, "None"@),
                ]
            }
            &&& snode.kind == SchemaNodeKind::Leaf && !snode.empty_type && !ChangeOp::Delete.valid(snode) ==> {
                &&& ops is Some && (ops->0).payload == t
                &&& (ops->0).arms == seq![("ChangeOp::Modify"@, value_expr(t))]
            }
            &&& snode.kind == SchemaNodeKind::LeafList ==> {
                &&& ops is Some && (ops->0).payload == "ConfigOp, "@ + t
                &&& (ops->0).arms == seq![
                    ("ChangeOp::Create"@, "ConfigOp::Create, "@ + value_expr(t)),
                    ("ChangeOp::Delete"@, "ConfigOp::Delete, "@ + value_expr(t)),
                ]
            }
        }),
{
}

/// The keys of a list make up a struct with a field of its own type for each.
pub proof fn keys_have_a_field_each(schema: Schema, i: int, k: usize)
    ensures
        ({
            let s = schema.keys_struct(i);
            &&& s.len() >= 3
            &&& s[0] == line(0, "#[derive(Clone, Debug)]"@)
            &&& s[1] == line(0, "pub struct "@ + (schema.type_base(i) + "Keys"@) + " {"@)
            &&& s.last() == line(0, "}"@)
            &&& s.subrange(2, s.len() - 1) == flat_map(schema.list_keys(i), schema.key_field())
        }),
        schema.key_field()(k) == seq![
            line(
                1,
                "pub "@ + snake_case(schema.entries@[k as int].name@) + ": "@ + schema.rust_type(k as int)->0 + ","@,
            ),
        ],
{
    let s = schema.keys_struct(i);
    let f = flat_map(schema.list_keys(i), schema.key_field());
    assert(s.subrange(2, s.len() - 1) =~= f);
}

/// The keys of a list are read from its entry, each by its name: texts have to be there,
/// other values have to be valid.
pub proof fn keys_are_read_from_the_entry(schema: Schema, i: int, k: usize)
    ensures
        ({
            let s = schema.keys_function(i);
            &&& s.len() >= 5
            &&& s[0] == line(
                0,
                "fn "@ + schema.keys_fn(i) + "(dnode: &DataNodeRef<'_>) -> Result<"@ + schema.keys_type(i)
                    + ", ParseError> {"@,
            )
            &&& s[1] == line(
                1,
                "let dnode = dnode.inclusive_ancestors().find(|dnode| dnode.schema().data_path() == \""@
                    + schema.entries@[i].path@ + "\").ok_or(ParseError::ListEntryNotFound)?;"@,
            )
            &&& s[2] == line(1, "Ok("@ + schema.keys_type(i) + " {"@)
            &&& s[s.len() - 2] == line(1, "})"@)
            &&& s.last() == line(0, "}"@)
            &&& s.subrange(3, s.len() - 2) == flat_map(schema.list_keys(i), schema.key_parse())
        }),
        ({
            let name = schema.entries@[k as int].name@;
            let text = schema.rust_type(k as int) == Some("String"@);
            let s = schema.key_parse()(k);
            &&& schema.rust_type(k as int) is Some && text ==> s == seq![
                line(
                    2,
                    snake_case(name) + ": "@ + ("dnode.get_string_relative(\"./"@ + name
                        + "\").ok_or(ParseError::MissingListKey(\""@ + name + "\"))?"@) + ","@,
                ),
            ]
            &&& schema.rust_type(k as int) is Some && !text ==> s == seq![
                line(
                    2,
                    snake_case(name) + ": "@ + ("dnode.get_string_relative(\"./"@ + name
                        + "\").and_then(|value| TryFromYang::try_from_yang(&value)).ok_or(ParseError::InvalidListKey(\""@
                        + name + "\"))?"@) + ","@,
                ),
            ]
        }),
{
    let s = schema.keys_function(i);
    let f = flat_map(schema.list_keys(i), schema.key_parse());
    assert(s.subrange(3, s.len() - 2) =~= f);
}

/// Lists and the changes within them have enums of their own: an entry is created, deleted,
/// or changed within, and each node of a scope has a variant with what it carries.
pub proof fn scopes_have_enums(schema: Schema, k: int, i: usize, scope: Option<int>)
    ensures
        ({
            let s = schema.list_enum(k);
            &&& s[0] == line(0, "#[derive(Debug)]"@)
            &&& s[1] == line(0, "pub enum "@ + schema.change_type(k) + " {"@)
            &&& s[2] == line(1, "Create,"@)
            &&& s[3] == line(1, "Delete,"@)
            &&& s.last() == line(0, "}"@)
            &&& schema.has_entry_changes(k) ==> s.len() == 6 && s[4] == line(
                1,
                "Entry("@ + schema.entry_change_type(k) + "),"@,
            ) && schema.change_enums(Some(k)) == s + schema.entry_enum(Some(k))
            &&& !schema.has_entry_changes(k) ==> s.len() == 5 && schema.change_enums(Some(k)) == s
        }),
        schema.change_enums(None) == schema.entry_enum(None),
        ({
            let s = schema.entry_enum(scope);
            &&& s[0] == line(0, "#[derive(Debug)]"@)
            &&& s[1] == line(0, "pub enum "@ + schema.scope_type(scope) + " {"@)
            &&& s.last() == line(0, "}"@)
            &&& s.subrange(2, s.len() - 1) == flat_map(schema.change_nodes(), schema.variant_lines(scope))
        }),
        schema.scope_of(i as int) != scope ==> schema.variant_lines(scope)(i).len() == 0,
        schema.scope_of(i as int) == scope && schema.entries@[i as int].snode.kind == SchemaNodeKind::List
            ==> schema.variant_lines(scope)(i) == seq![
            line(
                1,
                schema.variant(i as int) + "("@ + schema.keys_type(i as int) + ", "@ + schema.change_type(i as int)
                    + "),"@,
            ),
        ],
        ({
            let ops = node_ops(schema.entries@[i as int].snode, schema.rust_type(i as int));
            schema.scope_of(i as int) == scope && schema.entries@[i as int].snode.kind != SchemaNodeKind::List ==> {
                &&& ops is Some ==> schema.variant_lines(scope)(i) == seq![
                    line(1, schema.variant(i as int) + "("@ + (ops->0).payload + "),"@),
                ]
                &&& ops is None ==> schema.variant_lines(scope)(i).len() == 0
            }
        }),
{
    let s = schema.entry_enum(scope);
    let f = flat_map(schema.change_nodes(), schema.variant_lines(scope));
    assert(s.subrange(2, s.len() - 1) =~= f);
}

/// A change within lists is wrapped from the inside out: in the entry of its scope, then in
/// the variant of the list with its keys, and so on up.
pub proof fn changes_are_wrapped_from_the_inside(schema: Schema, i: int, k: int)
    requires
        0 <= k < i,
    ensures
        ({
            let wrap = line(
                2,
                "let change = "@ + schema.scope_type(schema.scope_of(i)) + "::"@ + schema.variant(i) + "("@
                    + schema.keys_fn(i) + "(dnode)?, change);"@,
            );
            let entry = line(2, "let change = "@ + schema.change_type(k) + "::Entry(change);"@);
            &&& schema.scope_of(i) is None ==> schema.list_wraps(i) == seq![wrap]
            &&& schema.scope_of(i) == Some(k) ==> schema.list_wraps(i) == seq![wrap, entry] + schema.list_wraps(k)
            &&& schema.is_list(i) ==> schema.wraps_of(i) == schema.list_wraps(i)
            &&& !schema.is_list(i) && schema.scope_of(i) is None ==> schema.wraps_of(i).len() == 0
            &&& !schema.is_list(i) && schema.scope_of(i) == Some(k) ==> schema.wraps_of(i) == seq![entry]
                + schema.list_wraps(k)
        }),
{
}

/// The operations on a list create and delete its entries; those on another node give its
/// variant in the scope of the node.
pub proof fn operations_give_changes(schema: Schema, i: int, x: int)
    ensures
        schema.is_list(i) ==> schema.change_arms(i) == Some(
            seq![
                ("ChangeOp::Create"@, schema.change_type(i) + "::Create"@),
                ("ChangeOp::Delete"@, schema.change_type(i) + "::Delete"@),
            ],
        ),
        ({
            let ops = node_ops(schema.entries@[i].snode, schema.rust_type(i));
            let arms = schema.change_arms(i);
            !schema.is_list(i) ==> {
                &&& ops is None ==> arms is None
                &&& ops is Some ==> arms is Some && (arms->0).len() == (ops->0).arms.len()
                &&& ops is Some && 0 <= x < (ops->0).arms.len() ==> (arms->0)[x] == (
                    (ops->0).arms[x].0,
                    schema.scope_type(schema.scope_of(i)) + "::"@ + schema.variant(i) + "("@ + (ops->0).arms[x].1
                        + ")"@,
                )
            }
        }),
{
}

/// A node is parsed by its path: its value is read if a change needs it, the operation
/// selects the change, any other operation is refused, and the change is wrapped.
pub proof fn nodes_are_parsed_by_path(schema: Schema, i: int, arm: (Seq<char>, Seq<char>))
    ensures
        schema.change_arms(i) is None ==> schema.parse_entry(i).len() == 0,
        schema.change_arms(i) is Some ==> schema.parse_entry(i) == seq![
            line(1, "\""@ + schema.entries@[i].path@ + "\" => |op, dnode| {"@),
        ] + (if schema.uses_value(i) {
            seq![line(2, "let value = dnode.value_canonical().ok_or(ParseError::MissingLeafValue)?;"@)]
        } else {
            Seq::empty()
        }) + seq![line(2, "let change = match op {"@)] + flat_map(schema.change_arms(i)->0, arm_line()) + seq![
            line(3, "_ => return Err(ParseError::UnexpectedOperation),"@),
            line(2, "};"@),
        ] + schema.wraps_of(i) + seq![line(2, "Ok(change)"@), line(1, "},"@)],
        arm_line()(arm) == seq![line(3, arm.0 + " => "@ + arm.1 + ","@)],
        schema.is_list(i) ==> !schema.uses_value(i),
        !schema.is_list(i) ==> schema.uses_value(i) == exists|x: int|
            0 <= x < (schema.change_arms(i)->0).len() && occurs_in(
                (#[trigger] (schema.change_arms(i)->0)[x]).1,
                "value"@,
            ),
{
}

/// Every change of a node is listed by its path and operation, where the operation is
/// valid, and no other one is.
pub proof fn valid_operations_are_listed(schema: Schema, i: usize)
    ensures
        ({
            let e = schema.entries@[i as int];
            let key = |s: Seq<char>| seq![line(1, "(\""@ + e.path@ + "\", ChangeOp::"@ + s + "),"@)];
            &&& ChangeOp::Create.valid(e.snode) ==> schema.change_key(i as int, ChangeOp::Create) == key("Create"@)
            &&& !ChangeOp::Create.valid(e.snode) ==> schema.change_key(i as int, ChangeOp::Create).len() == 0
            &&& ChangeOp::Modify.valid(e.snode) ==> schema.change_key(i as int, ChangeOp::Modify) == key("Modify"@)
            &&& !ChangeOp::Modify.valid(e.snode) ==> schema.change_key(i as int, ChangeOp::Modify).len() == 0
            &&& ChangeOp::Delete.valid(e.snode) ==> schema.change_key(i as int, ChangeOp::Delete) == key("Delete"@)
            &&& !ChangeOp::Delete.valid(e.snode) ==> schema.change_key(i as int, ChangeOp::Delete).len() == 0
            &&& schema.change_keys()(i) == schema.change_key(i as int, ChangeOp::Create) + schema.change_key(
                i as int,
                ChangeOp::Modify,
            ) + schema.change_key(i as int, ChangeOp::Delete)
        }),
        schema.change_key_table() == seq![line(0, "static CHANGE_KEYS: &[(&str, ChangeOp)] = &["@)] + flat_map(
            schema.change_nodes(),
            schema.change_keys(),
        ) + seq![line(0, "];"@)],
{
}

/// The code has the keys of all lists, then the changes of the instance and of each list,
/// then how they are parsed and listed.
pub proof fn code_has_its_parts_in_order(schema: Schema, i: usize)
    ensures
        schema.code() == flat_map(schema.change_nodes(), schema.keys_code()) + schema.entry_enum(None) + flat_map(
            schema.change_nodes(),
            schema.enum_code(),
        ) + schema.parse_table() + schema.change_key_table() + seq![
            line(0, "pub const YANG_OPS_CONFIG: YangConfigOps<ConfigChange> = YangConfigOps {"@),
            line(1, "parse: YANG_CONFIG_PARSE,"@),
            line(1, "change_keys: CHANGE_KEYS,"@),
            line(0, "};"@),
        ],
        schema.parse_table() == seq![
            line(
                0,
                "const YANG_CONFIG_PARSE: phf::Map<&'static str, ConfigChangeParseFn<ConfigChange>> = phf_map! {"@,
            ),
        ] + flat_map(schema.change_nodes(), schema.parse_entries()) + seq![line(0, "};"@)],
        schema.parse_entries()(i) == schema.parse_entry(i as int),
        schema.is_list(i as int) ==> {
            &&& schema.keys_code()(i) == schema.keys_struct(i as int) + schema.keys_function(i as int)
            &&& schema.enum_code()(i) == schema.change_enums(Some(i as int))
        },
        !schema.is_list(i as int) ==> schema.keys_code()(i).len() == 0 && schema.enum_code()(i).len() == 0,
{
}

} // verus!
