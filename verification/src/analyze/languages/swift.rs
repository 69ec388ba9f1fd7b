//! The Swift grammar's queries and declaration-name hook.

use vstd::prelude::*;

use crate::analyze::sitter::{FlatNode, FlatNodeV};
use crate::analyze::types::opt_view;
use crate::text::str_eq;

verus! {

/// Query for Swift code elements.
pub fn element_query() -> (r: &'static str)
    ensures
        r@.len() > 0,
{
    let q = "
    (function_declaration name: (simple_identifier) @func)
    (class_declaration name: (type_identifier) @class)
    (import_declaration) @import
";
    proof {
        reveal_strlit("
    (function_declaration name: (simple_identifier) @func)
    (class_declaration name: (type_identifier) @class)
    (import_declaration) @import
");
    }
    q
}

/// Query for Swift call expressions.
pub fn call_query() -> (r: &'static str)
    ensures
        r@.len() > 0,
{
    let q = "
    (call_expression
      (simple_identifier) @function.call)
";
    proof {
        reveal_strlit("
    (call_expression
      (simple_identifier) @function.call)
");
    }
    q
}

/// The synthetic names of Swift declarations that carry none of their own:
/// initializers, deinitializers and subscripts.
pub open spec fn spec_extract_function_name_for_kind(
    nodes: Seq<FlatNodeV>,
    src: Seq<u8>,
    node: int,
    kind: Seq<char>,
) -> Option<Seq<char>> {
    if kind == "init_declaration"@ {
        Some("init"@)
    } else if kind == "deinit_declaration"@ {
        Some("deinit"@)
    } else if kind == "subscript_declaration"@ {
        Some("subscript"@)
    } else {
        None
    }
}

/// Extract function name for Swift-specific node kinds
pub fn extract_function_name_for_kind(
    nodes: &Vec<FlatNode>,
    source: &Vec<u8>,
    node: usize,
    kind: &str,
) -> (r: Option<String>)
    ensures
        opt_view(r) == spec_extract_function_name_for_kind(
            crate::analyze::sitter::flat_views(nodes@),
            source@,
            node as int,
            kind@,
        ),
{
    if str_eq(kind, "init_declaration") {
        Some(String::from_str("init"))
    } else if str_eq(kind, "deinit_declaration") {
        Some(String::from_str("deinit"))
    } else if str_eq(kind, "subscript_declaration") {
        Some(String::from_str("subscript"))
    } else {
        None
    }
}

} // verus!
