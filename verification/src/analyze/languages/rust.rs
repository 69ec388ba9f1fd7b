//! The Rust grammar's queries and name-resolution hooks.

use vstd::prelude::*;

use crate::analyze::sitter::{
    child_with_kind, flat_views, flat_wf, spec_child_with_kind, spec_named_ancestor_text,
    named_ancestor_text, FlatNode, FlatNodeV,
};
use crate::analyze::types::opt_view;
use crate::text::{spec_text_at, str_eq, text_of};

verus! {

/// Query for Rust code elements.
pub fn element_query() -> (r: &'static str)
    ensures
        r@.len() > 0,
{
    let q = "
    (function_item name: (identifier) @func)
    (impl_item type: (type_identifier) @class)
    (struct_item name: (type_identifier) @struct)
    (use_declaration) @import
";
    proof {
        reveal_strlit("
    (function_item name: (identifier) @func)
    (impl_item type: (type_identifier) @class)
    (struct_item name: (type_identifier) @struct)
    (use_declaration) @import
");
    }
    q
}

/// Query for Rust call expressions: direct, method, scoped and macro calls.
pub fn call_query() -> (r: &'static str)
    ensures
        r@.len() > 0,
{
    let q = "
    (call_expression
      function: (identifier) @function.call)

    (call_expression
      function: (field_expression
        field: (field_identifier) @method.call))

    (call_expression
      function: (scoped_identifier) @scoped.call)

    (macro_invocation
      macro: (identifier) @macro.call)
";
    proof {
        reveal_strlit("
    (call_expression
      function: (identifier) @function.call)

    (call_expression
      function: (field_expression
        field: (field_identifier) @method.call))

    (call_expression
      function: (scoped_identifier) @scoped.call)

    (macro_invocation
      macro: (identifier) @macro.call)
");
    }
    q
}

/// Query for Rust type references and usage patterns.
pub fn reference_query() -> (r: &'static str)
    ensures
        r@.len() > 0,
{
    let q = "
    (self_parameter) @method.receiver

    (struct_expression
      name: (type_identifier) @struct.literal)

    (field_declaration
      type: (type_identifier) @field.type)

    (field_declaration
      type: (reference_type
        (type_identifier) @field.type))

    (field_declaration
      type: (generic_type
        type: (type_identifier) @field.type))

    (let_declaration
      type: (type_identifier) @var.type)

    (let_declaration
      type: (reference_type
        (type_identifier) @var.type))

    (parameter
      type: (type_identifier) @param.type)

    (parameter
      type: (reference_type
        (type_identifier) @param.type))
";
    proof {
        reveal_strlit("
    (self_parameter) @method.receiver

    (struct_expression
      name: (type_identifier) @struct.literal)

    (field_declaration
      type: (type_identifier) @field.type)

    (field_declaration
      type: (reference_type
        (type_identifier) @field.type))

    (field_declaration
      type: (generic_type
        type: (type_identifier) @field.type))

    (let_declaration
      type: (type_identifier) @var.type)

    (let_declaration
      type: (reference_type
        (type_identifier) @var.type))

    (parameter
      type: (type_identifier) @param.type)

    (parameter
      type: (reference_type
        (type_identifier) @param.type))
");
    }
    q
}

/// For an impl block, the synthetic scope name "impl T", T being the
/// block's first type_identifier child.
pub open spec fn spec_extract_function_name_for_kind(
    nodes: Seq<FlatNodeV>,
    src: Seq<u8>,
    node: int,
    kind: Seq<char>,
) -> Option<Seq<char>> {
    if kind == "impl_item"@ {
        match spec_child_with_kind(nodes, node, "type_identifier"@, 0) {
            Some(c) => match spec_text_at(src, nodes[c].start_byte, nodes[c].end_byte) {
                Some(t) => Some("impl "@ + t),
                None => None,
            },
            None => None,
        }
    } else {
        None
    }
}

/// Extract function name for Rust-specific node kinds
pub fn extract_function_name_for_kind(
    nodes: &Vec<FlatNode>,
    source: &Vec<u8>,
    node: usize,
    kind: &str,
) -> (r: Option<String>)
    ensures
        opt_view(r) == spec_extract_function_name_for_kind(
            flat_views(nodes@),
            source@,
            node as int,
            kind@,
        ),
{
    if str_eq(kind, "impl_item") {
        match child_with_kind(nodes, node, "type_identifier") {
            Some(c) => {
                proof {
                    assert(flat_views(nodes@)[c as int] == nodes@[c as int]@);
                }
                let nd = &nodes[c];
                match text_of(source, nd.start_byte, nd.end_byte) {
                    Some(t) => Some(String::from_str("impl ").concat(t.as_str())),
                    None => None,
                }
            },
            None => None,
        }
    } else {
        None
    }
}

/// The name of the method a `self` receiver belongs to: the identifier
/// child of the nearest enclosing function item.
pub open spec fn spec_find_method_for_receiver(
    nodes: Seq<FlatNodeV>,
    src: Seq<u8>,
    node: int,
) -> Option<Seq<char>> {
    spec_named_ancestor_text(nodes, src, node, "function_item"@, "identifier"@)
}

/// Find the method name for a method receiver node in Rust
pub fn find_method_for_receiver(
    nodes: &Vec<FlatNode>,
    source: &Vec<u8>,
    node: usize,
    _ast_recursion_limit: Option<usize>,
) -> (r: Option<String>)
    requires
        flat_wf(flat_views(nodes@)),
    ensures
        opt_view(r) == spec_find_method_for_receiver(flat_views(nodes@), source@, node as int),
{
    named_ancestor_text(nodes, source, node, "function_item", "identifier")
}

/// The type a `self` receiver belongs to: the type_identifier child of the
/// nearest enclosing impl block.
pub open spec fn spec_find_receiver_type(
    nodes: Seq<FlatNodeV>,
    src: Seq<u8>,
    node: int,
) -> Option<Seq<char>> {
    spec_named_ancestor_text(nodes, src, node, "impl_item"@, "type_identifier"@)
}

/// Find the receiver type for a self parameter in Rust
pub fn find_receiver_type(nodes: &Vec<FlatNode>, source: &Vec<u8>, node: usize) -> (r: Option<
    String,
>)
    requires
        flat_wf(flat_views(nodes@)),
    ensures
        opt_view(r) == spec_find_receiver_type(flat_views(nodes@), source@, node as int),
{
    named_ancestor_text(nodes, source, node, "impl_item", "type_identifier")
}

} // verus!
