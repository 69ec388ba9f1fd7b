//! The Java grammar's queries.

use vstd::prelude::*;

verus! {

/// Query for Java code elements.
pub fn element_query() -> (r: &'static str)
    ensures
        r@.len() > 0,
{
    let q = "
    (method_declaration name: (identifier) @func)
    (constructor_declaration name: (identifier) @func)
    (class_declaration name: (identifier) @class)
    (interface_declaration name: (identifier) @class)
    (import_declaration) @import
";
    proof {
        reveal_strlit("
    (method_declaration name: (identifier) @func)
    (constructor_declaration name: (identifier) @func)
    (class_declaration name: (identifier) @class)
    (interface_declaration name: (identifier) @class)
    (import_declaration) @import
");
    }
    q
}

/// Query for Java call expressions.
pub fn call_query() -> (r: &'static str)
    ensures
        r@.len() > 0,
{
    let q = "
    (method_invocation
      name: (identifier) @method.call)

    (object_creation_expression
      type: (type_identifier) @constructor.call)
";
    proof {
        reveal_strlit("
    (method_invocation
      name: (identifier) @method.call)

    (object_creation_expression
      type: (type_identifier) @constructor.call)
");
    }
    q
}

} // verus!
