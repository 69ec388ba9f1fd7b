//! The boundary to the tree-sitter machinery. The trusted items here
//! declare the opaque grammar types, build parsers, run queries and flatten
//! parse trees into plain records; everything downstream works on those
//! records and is verified against them.

use vstd::prelude::*;

use std::collections::HashMap;
use std::sync::{Arc, Mutex};
use tree_sitter::StreamingIterator;

use crate::text::str_eq;

verus! {

#[verifier::external_type_specification]
#[verifier::external_body]
pub struct ExLanguage(tree_sitter::Language);

#[verifier::external_type_specification]
#[verifier::external_body]
pub struct ExTree(tree_sitter::Tree);

#[verifier::external_type_specification]
#[verifier::external_body]
pub struct ExParser(tree_sitter::Parser);

#[verifier::external_type_specification]
#[verifier::external_body]
pub struct ExQuery(tree_sitter::Query);

#[verifier::external_type_specification]
#[verifier::external_body]
#[verifier::reject_recursive_types(T)]
pub struct ExMutex<T: ?Sized>(Mutex<T>);

/// One node of a flattened parse tree: its kind, the index of its parent
/// (itself for the root at index 0), its stable id and its byte range.
pub struct FlatNode {
    pub kind: String,
    pub parent: usize,
    pub id: usize,
    pub start_byte: usize,
    pub end_byte: usize,
}

pub ghost struct FlatNodeV {
    pub kind: Seq<char>,
    pub parent: int,
    pub id: int,
    pub start_byte: int,
    pub end_byte: int,
}

impl View for FlatNode {
    type V = FlatNodeV;

    open spec fn view(&self) -> FlatNodeV {
        FlatNodeV {
            kind: self.kind@,
            parent: self.parent as int,
            id: self.id as int,
            start_byte: self.start_byte as int,
            end_byte: self.end_byte as int,
        }
    }
}

pub open spec fn flat_view_item() -> spec_fn(FlatNode) -> FlatNodeV {
    |n: FlatNode| n@
}

pub open spec fn flat_views(nodes: Seq<FlatNode>) -> Seq<FlatNodeV> {
    nodes.map_values(flat_view_item())
}

/// Parent indices point strictly backwards, so every ancestor walk ends.
pub open spec fn flat_wf(nodes: Seq<FlatNodeV>) -> bool {
    forall|i: int| 1 <= i < nodes.len() ==> 0 <= (#[trigger] nodes[i]).parent < i
}

/// One query capture as a plain record: the capture's name, the captured
/// node's id, byte range and starting position.
pub struct RawCapture {
    pub name: String,
    pub node_id: usize,
    pub start_byte: usize,
    pub end_byte: usize,
    pub row: usize,
    pub column: usize,
}

pub ghost struct RawCaptureV {
    pub name: Seq<char>,
    pub node_id: int,
    pub start_byte: int,
    pub end_byte: int,
    pub row: int,
    pub column: int,
}

impl View for RawCapture {
    type V = RawCaptureV;

    open spec fn view(&self) -> RawCaptureV {
        RawCaptureV {
            name: self.name@,
            node_id: self.node_id as int,
            start_byte: self.start_byte as int,
            end_byte: self.end_byte as int,
            row: self.row as int,
            column: self.column as int,
        }
    }
}

pub open spec fn capture_view_item() -> spec_fn(RawCapture) -> RawCaptureV {
    |c: RawCapture| c@
}

pub open spec fn capture_views(caps: Seq<RawCapture>) -> Seq<RawCaptureV> {
    caps.map_values(capture_view_item())
}

// Language constructors, one per grammar.

/// Relies on tree_sitter_python::LANGUAGE.
#[verifier::external_body]
pub fn language_python() -> tree_sitter::Language {
    tree_sitter_python::LANGUAGE.into()
}

/// Relies on tree_sitter_rust::LANGUAGE.
#[verifier::external_body]
pub fn language_rust() -> tree_sitter::Language {
    tree_sitter_rust::LANGUAGE.into()
}

/// Relies on tree_sitter_javascript::LANGUAGE.
#[verifier::external_body]
pub fn language_javascript() -> tree_sitter::Language {
    tree_sitter_javascript::LANGUAGE.into()
}

/// Relies on tree_sitter_go::LANGUAGE.
#[verifier::external_body]
pub fn language_go() -> tree_sitter::Language {
    tree_sitter_go::LANGUAGE.into()
}

/// Relies on tree_sitter_java::LANGUAGE.
#[verifier::external_body]
pub fn language_java() -> tree_sitter::Language {
    tree_sitter_java::LANGUAGE.into()
}

/// Relies on tree_sitter_kotlin_ng::LANGUAGE.
#[verifier::external_body]
pub fn language_kotlin() -> tree_sitter::Language {
    tree_sitter_kotlin_ng::LANGUAGE.into()
}

/// Relies on tree_sitter_swift::LANGUAGE.
#[verifier::external_body]
pub fn language_swift() -> tree_sitter::Language {
    tree_sitter_swift::LANGUAGE.into()
}

/// Relies on tree_sitter_ruby::LANGUAGE.
#[verifier::external_body]
pub fn language_ruby() -> tree_sitter::Language {
    tree_sitter_ruby::LANGUAGE.into()
}

/// The shared pool of per-language parser instances behind one lock. The
/// lock and the parsers are opaque to the verifier, so the pool lives in an
/// opaque struct with trusted accessors; nothing observable depends on its
/// contents, only construction cost.
#[verifier::external_body]
pub struct ParserPool {
    inner: Arc<Mutex<HashMap<String, Arc<Mutex<tree_sitter::Parser>>>>>,
}

impl ParserPool {
    /// Relies on Arc, Mutex and HashMap construction.
    #[verifier::external_body]
    pub fn new() -> ParserPool {
        ParserPool { inner: Arc::new(Mutex::new(HashMap::new())) }
    }

    /// Relies on HashMap::get under the pool lock; a poisoned lock is
    /// recovered by clearing the pool rather than blocking all callers.
    #[verifier::external_body]
    pub fn lookup(&self, language: &str) -> Option<Arc<Mutex<tree_sitter::Parser>>> {
        let map = self.inner.lock().unwrap_or_else(|poisoned| {
            let mut guard = poisoned.into_inner();
            guard.clear();
            guard
        });
        map.get(language).map(Arc::clone)
    }

    /// Relies on HashMap::insert under the pool lock, with the same
    /// poison recovery.
    #[verifier::external_body]
    pub fn store(&self, language: &str, parser: tree_sitter::Parser) -> Arc<
        Mutex<tree_sitter::Parser>,
    > {
        let mut map = self.inner.lock().unwrap_or_else(|poisoned| {
            let mut guard = poisoned.into_inner();
            guard.clear();
            guard
        });
        let arc = Arc::new(Mutex::new(parser));
        map.insert(language.to_string(), Arc::clone(&arc));
        arc
    }
}

/// Relies on tree_sitter::Parser::new and set_language: a fresh parser for
/// `lang`, or nothing when the grammar does not fit this library version.
#[verifier::external_body]
pub fn make_parser(lang: &tree_sitter::Language) -> Option<tree_sitter::Parser> {
    let mut parser = tree_sitter::Parser::new();
    match parser.set_language(lang) {
        Ok(()) => Some(parser),
        Err(_) => None,
    }
}

/// Relies on tree_sitter::Parser::parse under the instance lock; a poisoned
/// instance lock is recovered by taking the parser as it stands.
#[verifier::external_body]
pub fn parse_with(handle: &Arc<Mutex<tree_sitter::Parser>>, content: &Vec<u8>) -> Option<
    tree_sitter::Tree,
> {
    let mut parser = handle.lock().unwrap_or_else(|poisoned| poisoned.into_inner());
    parser.parse(content.as_slice(), None)
}

/// Relies on tree_sitter::Query::new: compiles query text against the
/// tree's grammar; a malformed query yields its error text.
#[verifier::external_body]
pub fn compile_query(tree: &tree_sitter::Tree, query: &str) -> Result<tree_sitter::Query, String> {
    tree_sitter::Query::new(&tree.language(), query).map_err(|e| e.to_string())
}

/// Relies on tree_sitter::QueryCursor::matches and the node accessors:
/// every capture of every match over the tree, in match order, each as a
/// plain record.
#[verifier::external_body]
pub fn query_captures(
    tree: &tree_sitter::Tree,
    q: &tree_sitter::Query,
    source: &Vec<u8>,
) -> Vec<RawCapture> {
    let mut cursor = tree_sitter::QueryCursor::new();
    let mut matches = cursor.matches(q, tree.root_node(), source.as_slice());
    let mut out: Vec<RawCapture> = Vec::new();
    while let Some(m) = matches.next() {
        for c in m.captures() {
            let (name, node_id) = (q.capture_names()[c.index as usize].to_string(), c.node.id());
            let (start_byte, end_byte) = (c.node.start_byte(), c.node.end_byte());
            let (row, column) = (c.node.start_position().row, c.node.start_position().column);
            out.push(RawCapture { name, node_id, start_byte, end_byte, row, column });
        }
    }
    out
}

/// Relies on tree_sitter::Node's child and position accessors: the whole
/// tree as one preorder list of plain records, each node's parent standing
/// strictly before it.
#[verifier::external_body]
pub fn flatten_tree(tree: &tree_sitter::Tree) -> (r: Vec<FlatNode>)
    ensures
        flat_wf(flat_views(r@)),
        r@.len() >= 1,
{
    let mut out: Vec<FlatNode> = Vec::new();
    let mut stack: Vec<(tree_sitter::Node, usize)> = vec![(tree.root_node(), 0)];
    while let Some((n, parent)) = stack.pop() {
        let idx = out.len();
        let (kind, id) = (n.kind().to_string(), n.id());
        let (start_byte, end_byte) = (n.start_byte(), n.end_byte());
        out.push(FlatNode { kind, parent, id, start_byte, end_byte });
        for i in (0..n.child_count()).rev() {
            if let Some(c) = n.child(i) {
                stack.push((c, idx));
            }
        }
    }
    out
}

// Verified helpers over the flattened tree.

/// Index of the first arena entry with the given id, if any.
pub open spec fn spec_node_by_id(nodes: Seq<FlatNodeV>, id: int, from: int) -> Option<int>
    decreases nodes.len() - from,
{
    if from < 0 || from >= nodes.len() {
        None
    } else if nodes[from].id == id {
        Some(from)
    } else {
        spec_node_by_id(nodes, id, from + 1)
    }
}

pub fn node_by_id(nodes: &Vec<FlatNode>, id: usize) -> (r: Option<usize>)
    ensures
        (match r {
            Some(i) => spec_node_by_id(flat_views(nodes@), id as int, 0) == Some(i as int) && i
                < nodes@.len(),
            None => spec_node_by_id(flat_views(nodes@), id as int, 0) is None,
        }),
{
    let n = nodes.len();
    let mut i: usize = 0;
    while i < n
        invariant
            i <= n,
            n == nodes@.len(),
            spec_node_by_id(flat_views(nodes@), id as int, 0) == spec_node_by_id(
                flat_views(nodes@),
                id as int,
                i as int,
            ),
        decreases n - i,
    {
        if nodes[i].id == id {
            proof {
                assert(flat_views(nodes@)[i as int] == nodes@[i as int]@);
            }
            return Some(i);
        }
        proof {
            assert(flat_views(nodes@)[i as int] == nodes@[i as int]@);
        }
        i = i + 1;
    }
    None
}

/// Index of the first direct child of `p` (scanning the arena upward from
/// `from`) whose kind is `kind`.
pub open spec fn spec_child_with_kind(
    nodes: Seq<FlatNodeV>,
    p: int,
    kind: Seq<char>,
    from: int,
) -> Option<int>
    decreases nodes.len() - from,
{
    if from < 0 || from >= nodes.len() {
        None
    } else if from > p && nodes[from].parent == p && nodes[from].kind == kind {
        Some(from)
    } else {
        spec_child_with_kind(nodes, p, kind, from + 1)
    }
}

pub fn child_with_kind(nodes: &Vec<FlatNode>, p: usize, kind: &str) -> (r: Option<usize>)
    ensures
        (match r {
            Some(i) => spec_child_with_kind(flat_views(nodes@), p as int, kind@, 0) == Some(
                i as int,
            ) && i < nodes@.len(),
            None => spec_child_with_kind(flat_views(nodes@), p as int, kind@, 0) is None,
        }),
{
    let n = nodes.len();
    let mut i: usize = 0;
    while i < n
        invariant
            i <= n,
            n == nodes@.len(),
            spec_child_with_kind(flat_views(nodes@), p as int, kind@, 0) == spec_child_with_kind(
                flat_views(nodes@),
                p as int,
                kind@,
                i as int,
            ),
        decreases n - i,
    {
        proof {
            assert(flat_views(nodes@)[i as int] == nodes@[i as int]@);
        }
        if i > p && nodes[i].parent == p && str_eq(nodes[i].kind.as_str(), kind) {
            return Some(i);
        }
        i = i + 1;
    }
    None
}


/// Membership of a kind in a set of kinds.
pub open spec fn kind_in(kinds: Seq<Seq<char>>, k: Seq<char>) -> bool {
    exists|i: int| 0 <= i < kinds.len() && kinds[i] == k
}

pub fn kinds_contain(kinds: &Vec<String>, k: &str) -> (r: bool)
    ensures
        r == kind_in(kinds.deep_view(), k@),
{
    let n = kinds.len();
    let mut i: usize = 0;
    while i < n
        invariant
            i <= n,
            n == kinds@.len(),
            forall|j: int| 0 <= j < i ==> kinds.deep_view()[j] != k@,
        decreases n - i,
    {
        proof {
            assert(kinds.deep_view()[i as int] == kinds@[i as int]@);
        }
        if str_eq(kinds[i].as_str(), k) {
            return true;
        }
        i = i + 1;
    }
    proof {
        if kind_in(kinds.deep_view(), k@) {
            let j = choose|j: int| 0 <= j < kinds.deep_view().len() && kinds.deep_view()[j] == k@;
        }
    }
    false
}

/// Index of the first direct child of `p` whose kind is one of `kinds`.
pub open spec fn spec_child_with_kind_in(
    nodes: Seq<FlatNodeV>,
    p: int,
    kinds: Seq<Seq<char>>,
    from: int,
) -> Option<int>
    decreases nodes.len() - from,
{
    if from < 0 || from >= nodes.len() {
        None
    } else if from > p && nodes[from].parent == p && kind_in(kinds, nodes[from].kind) {
        Some(from)
    } else {
        spec_child_with_kind_in(nodes, p, kinds, from + 1)
    }
}

pub fn child_with_kind_in(nodes: &Vec<FlatNode>, p: usize, kinds: &Vec<String>) -> (r: Option<
    usize,
>)
    ensures
        (match r {
            Some(i) => spec_child_with_kind_in(flat_views(nodes@), p as int, kinds.deep_view(), 0)
                == Some(i as int) && i < nodes@.len(),
            None => spec_child_with_kind_in(flat_views(nodes@), p as int, kinds.deep_view(), 0)
                is None,
        }),
{
    let n = nodes.len();
    let mut i: usize = 0;
    while i < n
        invariant
            i <= n,
            n == nodes@.len(),
            spec_child_with_kind_in(flat_views(nodes@), p as int, kinds.deep_view(), 0)
                == spec_child_with_kind_in(flat_views(nodes@), p as int, kinds.deep_view(), i as int),
        decreases n - i,
    {
        proof {
            assert(flat_views(nodes@)[i as int] == nodes@[i as int]@);
        }
        if i > p && nodes[i].parent == p && kinds_contain(kinds, nodes[i].kind.as_str()) {
            return Some(i);
        }
        i = i + 1;
    }
    None
}

/// Climbing from `node`, the decoded name of the nearest enclosing
/// `scope_kind` ancestor: the text of that ancestor's first `name_kind`
/// child. An ancestor of the right kind without such a child is skipped;
/// a child whose text does not decode ends the climb empty-handed.
pub open spec fn spec_named_ancestor_text(
    nodes: Seq<FlatNodeV>,
    src: Seq<u8>,
    node: int,
    scope_kind: Seq<char>,
    name_kind: Seq<char>,
) -> Option<Seq<char>>
    decreases node,
{
    if !(0 < node < nodes.len()) {
        None
    } else {
        let p = nodes[node].parent;
        if !(0 <= p < node) {
            None
        } else if nodes[p].kind == scope_kind {
            match spec_child_with_kind(nodes, p, name_kind, 0) {
                Some(c) => crate::text::spec_text_at(src, nodes[c].start_byte, nodes[c].end_byte),
                None => spec_named_ancestor_text(nodes, src, p, scope_kind, name_kind),
            }
        } else {
            spec_named_ancestor_text(nodes, src, p, scope_kind, name_kind)
        }
    }
}

pub fn named_ancestor_text(
    nodes: &Vec<FlatNode>,
    source: &Vec<u8>,
    node: usize,
    scope_kind: &str,
    name_kind: &str,
) -> (r: Option<String>)
    requires
        flat_wf(flat_views(nodes@)),
    ensures
        crate::analyze::types::opt_view(r) == spec_named_ancestor_text(
            flat_views(nodes@),
            source@,
            node as int,
            scope_kind@,
            name_kind@,
        ),
{
    if node == 0 || node >= nodes.len() {
        return None;
    }
    let mut cur: usize = node;
    loop
        invariant
            0 < cur < nodes@.len(),
            flat_wf(flat_views(nodes@)),
            spec_named_ancestor_text(
                flat_views(nodes@),
                source@,
                node as int,
                scope_kind@,
                name_kind@,
            ) == spec_named_ancestor_text(
                flat_views(nodes@),
                source@,
                cur as int,
                scope_kind@,
                name_kind@,
            ),
        decreases cur,
    {
        proof {
            assert(flat_views(nodes@)[cur as int] == nodes@[cur as int]@);
        }
        let p = nodes[cur].parent;
        proof {
            assert(flat_views(nodes@)[p as int] == nodes@[p as int]@);
        }
        if str_eq(nodes[p].kind.as_str(), scope_kind) {
            match child_with_kind(nodes, p, name_kind) {
                Some(c) => {
                    proof {
                        assert(flat_views(nodes@)[c as int] == nodes@[c as int]@);
                        assert(spec_named_ancestor_text(
                            flat_views(nodes@),
                            source@,
                            cur as int,
                            scope_kind@,
                            name_kind@,
                        ) == crate::text::spec_text_at(
                            source@,
                            flat_views(nodes@)[c as int].start_byte,
                            flat_views(nodes@)[c as int].end_byte,
                        ));
                    }
                    let nd = &nodes[c];
                    return crate::text::text_of(source, nd.start_byte, nd.end_byte);
                },
                None => {},
            }
        }
        if p == 0 {
            proof {
                assert(spec_named_ancestor_text(
                    flat_views(nodes@),
                    source@,
                    0,
                    scope_kind@,
                    name_kind@,
                ) is None);
                assert(spec_named_ancestor_text(
                    flat_views(nodes@),
                    source@,
                    cur as int,
                    scope_kind@,
                    name_kind@,
                ) is None);
            }
            return None;
        }
        cur = p;
    }
}

} // verus!
