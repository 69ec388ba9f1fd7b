//! The JavaScript/TypeScript grammar's queries.

use vstd::prelude::*;

verus! {

/// Query for JavaScript code elements.
pub fn element_query() -> (r: &'static str)
    ensures
        r@.len() > 0,
{
    let q = "
    (function_declaration name: (identifier) @func)
    (method_definition name: (property_identifier) @func)
    (class_declaration name: (identifier) @class)
    (import_statement) @import
";
    proof {
        reveal_strlit("
    (function_declaration name: (identifier) @func)
    (method_definition name: (property_identifier) @func)
    (class_declaration name: (identifier) @class)
    (import_statement) @import
");
    }
    q
}

/// Query for JavaScript call expressions.
pub fn call_query() -> (r: &'static str)
    ensures
        r@.len() > 0,
{
    let q = "
    (call_expression
      function: (identifier) @function.call)

    (call_expression
      function: (member_expression
        property: (property_identifier) @method.call))
";
    proof {
        reveal_strlit("
    (call_expression
      function: (identifier) @function.call)

    (call_expression
      function: (member_expression
        property: (property_identifier) @method.call))
");
    }
    q
}

} // verus!
