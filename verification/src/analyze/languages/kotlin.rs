//! The Kotlin grammar's queries.

use vstd::prelude::*;

verus! {

/// Query for Kotlin code elements.
pub fn element_query() -> (r: &'static str)
    ensures
        r@.len() > 0,
{
    let q = "
    (function_declaration name: (identifier) @func)

    (class_declaration name: (identifier) @class)

    (object_declaration name: (identifier) @class)

    (import) @import
";
    proof {
        reveal_strlit("
    (function_declaration name: (identifier) @func)

    (class_declaration name: (identifier) @class)

    (object_declaration name: (identifier) @class)

    (import) @import
");
    }
    q
}

/// Query for Kotlin call expressions.
pub fn call_query() -> (r: &'static str)
    ensures
        r@.len() > 0,
{
    let q = "
    (call_expression
      (identifier) @function.call)

    (call_expression
      (navigation_expression
        (identifier) @method.call))
";
    proof {
        reveal_strlit("
    (call_expression
      (identifier) @function.call)

    (call_expression
      (navigation_expression
        (identifier) @method.call))
");
    }
    q
}

} // verus!
