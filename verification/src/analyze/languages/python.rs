//! The Python grammar's queries.

use vstd::prelude::*;

verus! {

/// Query for Python code elements.
pub fn element_query() -> (r: &'static str)
    ensures
        r@.len() > 0,
{
    let q = "
    (function_definition name: (identifier) @func)
    (class_definition name: (identifier) @class)
    (import_statement) @import
    (import_from_statement) @import
";
    proof {
        reveal_strlit("
    (function_definition name: (identifier) @func)
    (class_definition name: (identifier) @class)
    (import_statement) @import
    (import_from_statement) @import
");
    }
    q
}

/// Query for Python call expressions.
pub fn call_query() -> (r: &'static str)
    ensures
        r@.len() > 0,
{
    let q = "
    (call
      function: (identifier) @function.call)

    (call
      function: (attribute
        attribute: (identifier) @method.call))
";
    proof {
        reveal_strlit("
    (call
      function: (identifier) @function.call)

    (call
      function: (attribute
        attribute: (identifier) @method.call))
");
    }
    q
}

} // verus!
