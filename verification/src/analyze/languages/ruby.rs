//! The Ruby grammar's queries and receiver hook.

use vstd::prelude::*;

use crate::analyze::sitter::{
    flat_views, flat_wf, named_ancestor_text, spec_named_ancestor_text, FlatNode, FlatNodeV,
};
use crate::analyze::types::opt_view;

verus! {

/// Query for Ruby code elements.
pub fn element_query() -> (r: &'static str)
    ensures
        r@.len() > 0,
{
    let q = "
    (method name: (identifier) @func)
    (singleton_method name: (identifier) @func)
    (class name: (constant) @class)
    (module name: (constant) @class)
";
    proof {
        reveal_strlit("
    (method name: (identifier) @func)
    (singleton_method name: (identifier) @func)
    (class name: (constant) @class)
    (module name: (constant) @class)
");
    }
    q
}

/// Query for Ruby call expressions.
pub fn call_query() -> (r: &'static str)
    ensures
        r@.len() > 0,
{
    let q = "
    (call
      method: (identifier) @method.call)
";
    proof {
        reveal_strlit("
    (call
      method: (identifier) @method.call)
");
    }
    q
}

/// Query for Ruby type-usage patterns.
pub fn reference_query() -> (r: &'static str)
    ensures
        r@.len() > 0,
{
    let q = "
    (call
      receiver: (constant) @struct.literal)
";
    proof {
        reveal_strlit("
    (call
      receiver: (constant) @struct.literal)
");
    }
    q
}

/// The name of the method a Ruby receiver belongs to: the identifier child
/// of the nearest enclosing method definition.
pub open spec fn spec_find_method_for_receiver(
    nodes: Seq<FlatNodeV>,
    src: Seq<u8>,
    node: int,
) -> Option<Seq<char>> {
    spec_named_ancestor_text(nodes, src, node, "method"@, "identifier"@)
}

/// Find the method name for a receiver node in Ruby
pub fn find_method_for_receiver(
    nodes: &Vec<FlatNode>,
    source: &Vec<u8>,
    node: usize,
    _ast_recursion_limit: Option<usize>,
) -> (r: Option<String>)
    requires
        flat_wf(flat_views(nodes@)),
    ensures
        opt_view(r) == spec_find_method_for_receiver(flat_views(nodes@), source@, node as int),
{
    named_ancestor_text(nodes, source, node, "method", "identifier")
}

} // verus!
