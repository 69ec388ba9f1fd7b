//! The Go grammar's queries and receiver hook.

use vstd::prelude::*;

use crate::analyze::sitter::{
    flat_views, flat_wf, named_ancestor_text, spec_named_ancestor_text, FlatNode, FlatNodeV,
};
use crate::analyze::types::opt_view;

verus! {

/// Query for Go code elements.
pub fn element_query() -> (r: &'static str)
    ensures
        r@.len() > 0,
{
    let q = "
    (function_declaration name: (identifier) @func)
    (method_declaration name: (field_identifier) @func)
    (type_declaration (type_spec name: (type_identifier) @struct))
    (import_declaration) @import
";
    proof {
        reveal_strlit("
    (function_declaration name: (identifier) @func)
    (method_declaration name: (field_identifier) @func)
    (type_declaration (type_spec name: (type_identifier) @struct))
    (import_declaration) @import
");
    }
    q
}

/// Query for Go call expressions.
pub fn call_query() -> (r: &'static str)
    ensures
        r@.len() > 0,
{
    let q = "
    (call_expression
      function: (identifier) @function.call)

    (call_expression
      function: (selector_expression
        field: (field_identifier) @method.call))
";
    proof {
        reveal_strlit("
    (call_expression
      function: (identifier) @function.call)

    (call_expression
      function: (selector_expression
        field: (field_identifier) @method.call))
");
    }
    q
}

/// Query for Go type references and usage patterns.
pub fn reference_query() -> (r: &'static str)
    ensures
        r@.len() > 0,
{
    let q = "
    (method_declaration
      receiver: (parameter_list
        (parameter_declaration
          type: (type_identifier) @method.receiver)))

    (composite_literal
      type: (type_identifier) @struct.literal)

    (field_declaration
      type: (type_identifier) @field.type)

    (parameter_declaration
      type: (type_identifier) @param.type)
";
    proof {
        reveal_strlit("
    (method_declaration
      receiver: (parameter_list
        (parameter_declaration
          type: (type_identifier) @method.receiver)))

    (composite_literal
      type: (type_identifier) @struct.literal)

    (field_declaration
      type: (type_identifier) @field.type)

    (parameter_declaration
      type: (type_identifier) @param.type)
");
    }
    q
}

/// The name of the method a Go receiver belongs to: the field_identifier
/// child of the nearest enclosing method declaration.
pub open spec fn spec_find_method_for_receiver(
    nodes: Seq<FlatNodeV>,
    src: Seq<u8>,
    node: int,
) -> Option<Seq<char>> {
    spec_named_ancestor_text(nodes, src, node, "method_declaration"@, "field_identifier"@)
}

/// Find the method name for a receiver type node in Go
pub fn find_method_for_receiver(
    nodes: &Vec<FlatNode>,
    source: &Vec<u8>,
    node: usize,
    _ast_recursion_limit: Option<usize>,
) -> (r: Option<String>)
    requires
        flat_wf(flat_views(nodes@)),
    ensures
        opt_view(r) == spec_find_method_for_receiver(flat_views(nodes@), source@, node as int),
{
    named_ancestor_text(nodes, source, node, "method_declaration", "field_identifier")
}

} // verus!
