//! The per-language query catalog: one table row per supported grammar,
//! each a uniform configuration of queries, scope kinds and optional
//! name-resolution hooks.

pub mod go;
pub mod java;
pub mod javascript;
pub mod kotlin;
pub mod python;
pub mod ruby;
pub mod rust;
pub mod swift;

use vstd::prelude::*;

use crate::text::str_eq;

verus! {

/// Tag naming a special-case function-name extractor.
#[derive(Debug, Clone, Copy, PartialEq, Eq, Structural)]
pub enum NameHook {
    RustImplName,
    SwiftDeclarationName,
}

/// Tag naming a receiver-to-enclosing-method-name resolver.
#[derive(Debug, Clone, Copy, PartialEq, Eq, Structural)]
pub enum ReceiverMethodHook {
    RustReceiverMethod,
    GoReceiverMethod,
    RubyReceiverMethod,
}

/// Tag naming a receiver-to-enclosing-type-name resolver.
#[derive(Debug, Clone, Copy, PartialEq, Eq, Structural)]
pub enum ReceiverTypeHook {
    RustReceiverType,
}

/// Language configuration containing all language-specific information
pub struct LanguageInfo {
    pub element_query: &'static str,
    pub call_query: &'static str,
    pub reference_query: &'static str,
    pub function_node_kinds: Vec<String>,
    pub function_name_kinds: Vec<String>,
    pub extract_function_name_handler: Option<NameHook>,
    pub find_method_for_receiver_handler: Option<ReceiverMethodHook>,
    pub find_receiver_type_handler: Option<ReceiverTypeHook>,
}

/// The grammars this library ships.
pub open spec fn supported_language(l: Seq<char>) -> bool {
    ||| l == "python"@
    ||| l == "rust"@
    ||| l == "javascript"@
    ||| l == "typescript"@
    ||| l == "go"@
    ||| l == "java"@
    ||| l == "kotlin"@
    ||| l == "swift"@
    ||| l == "ruby"@
}

/// The identifier-holding node kinds most grammars share.
pub open spec fn default_name_kind_views() -> Seq<Seq<char>> {
    seq!["identifier"@, "field_identifier"@, "property_identifier"@]
}


fn kinds1(a: &str) -> (r: Vec<String>)
    ensures
        r.deep_view() =~= seq![a@],
{
    let r = vec![String::from_str(a)];
    proof {
        assert(r.deep_view() =~= seq![a@]);
    }
    r
}

fn kinds2(a: &str, b: &str) -> (r: Vec<String>)
    ensures
        r.deep_view() =~= seq![a@, b@],
{
    let r = vec![String::from_str(a), String::from_str(b)];
    proof {
        assert(r.deep_view() =~= seq![a@, b@]);
    }
    r
}

fn kinds3(a: &str, b: &str, c: &str) -> (r: Vec<String>)
    ensures
        r.deep_view() =~= seq![a@, b@, c@],
{
    let r = vec![String::from_str(a), String::from_str(b), String::from_str(c)];
    proof {
        assert(r.deep_view() =~= seq![a@, b@, c@]);
    }
    r
}

fn kinds4(a: &str, b: &str, c: &str, d: &str) -> (r: Vec<String>)
    ensures
        r.deep_view() =~= seq![a@, b@, c@, d@],
{
    let r = vec![
        String::from_str(a),
        String::from_str(b),
        String::from_str(c),
        String::from_str(d),
    ];
    proof {
        assert(r.deep_view() =~= seq![a@, b@, c@, d@]);
    }
    r
}

fn default_name_kinds() -> (r: Vec<String>)
    ensures
        r.deep_view() =~= default_name_kind_views(),
{
    let r = vec![
        String::from_str("identifier"),
        String::from_str("field_identifier"),
        String::from_str("property_identifier"),
    ];
    proof {
        assert(r.deep_view() =~= default_name_kind_views());
    }
    r
}

/// The nine shipped language identifiers are pairwise distinct, and the
/// empty query text is empty.
proof fn lemma_language_names_distinct()
    ensures
        "python"@ != "rust"@,
        "python"@ != "javascript"@,
        "python"@ != "typescript"@,
        "python"@ != "go"@,
        "python"@ != "java"@,
        "python"@ != "kotlin"@,
        "python"@ != "swift"@,
        "python"@ != "ruby"@,
        "rust"@ != "javascript"@,
        "rust"@ != "typescript"@,
        "rust"@ != "go"@,
        "rust"@ != "java"@,
        "rust"@ != "kotlin"@,
        "rust"@ != "swift"@,
        "rust"@ != "ruby"@,
        "javascript"@ != "typescript"@,
        "javascript"@ != "go"@,
        "javascript"@ != "java"@,
        "javascript"@ != "kotlin"@,
        "javascript"@ != "swift"@,
        "javascript"@ != "ruby"@,
        "typescript"@ != "go"@,
        "typescript"@ != "java"@,
        "typescript"@ != "kotlin"@,
        "typescript"@ != "swift"@,
        "typescript"@ != "ruby"@,
        "go"@ != "java"@,
        "go"@ != "kotlin"@,
        "go"@ != "swift"@,
        "go"@ != "ruby"@,
        "java"@ != "kotlin"@,
        "java"@ != "swift"@,
        "java"@ != "ruby"@,
        "kotlin"@ != "swift"@,
        "kotlin"@ != "ruby"@,
        "swift"@ != "ruby"@,
        ""@.len() == 0,
{
    broadcast use vstd::string::group_string_axioms;

    reveal_strlit("");
    reveal_strlit("python");
    reveal_strlit("rust");
    reveal_strlit("javascript");
    reveal_strlit("typescript");
    reveal_strlit("go");
    reveal_strlit("java");
    reveal_strlit("kotlin");
    reveal_strlit("swift");
    reveal_strlit("ruby");
    assert("python"@.len() == 6);
    assert("rust"@.len() == 4);
    assert("javascript"@.len() == 10);
    assert("typescript"@.len() == 10);
    assert("go"@.len() == 2);
    assert("java"@.len() == 4);
    assert("kotlin"@.len() == 6);
    assert("swift"@.len() == 5);
    assert("ruby"@.len() == 4);
    assert("rust"@[0] == 'r' && "java"@[0] == 'j' && "ruby"@[2] == 'b' && "rust"@[2] == 's');
    assert("python"@[0] == 'p' && "kotlin"@[0] == 'k');
    assert("javascript"@[0] == 'j' && "typescript"@[0] == 't');
    assert("rust"@[1] == 'u' && "java"@[1] == 'a');
}

/// Get language configuration for a given language. Every shipped row is
/// pinned: non-empty element and call queries, the language's scope and
/// identifier kinds, its hooks, and whether it defines a reference query
/// (javascript and typescript share one configuration).
pub fn get_language_info(language: &str) -> (r: Option<LanguageInfo>)
    ensures
        r is Some <==> supported_language(language@),
        (match r {
            Some(info) => {
                &&& info.element_query@.len() > 0
                &&& info.call_query@.len() > 0
                &&& info.function_node_kinds.deep_view().len() > 0
                &&& info.function_name_kinds.deep_view().len() > 0
                &&& (language@ == "python"@ ==> info.function_node_kinds.deep_view() =~= seq![
                    "function_definition"@,
                ] && info.function_name_kinds.deep_view() =~= default_name_kind_views()
                    && info.extract_function_name_handler is None
                    && info.find_method_for_receiver_handler is None
                    && info.find_receiver_type_handler is None && info.reference_query@.len() == 0)
                &&& (language@ == "rust"@ ==> info.function_node_kinds.deep_view() =~= seq![
                    "function_item"@,
                    "impl_item"@,
                ] && info.function_name_kinds.deep_view() =~= default_name_kind_views()
                    && info.extract_function_name_handler == Some(NameHook::RustImplName)
                    && info.find_method_for_receiver_handler == Some(
                    ReceiverMethodHook::RustReceiverMethod,
                ) && info.find_receiver_type_handler == Some(ReceiverTypeHook::RustReceiverType)
                    && info.reference_query@.len() > 0)
                &&& (language@ == "javascript"@ || language@ == "typescript"@
                    ==> info.function_node_kinds.deep_view() =~= seq![
                    "function_declaration"@,
                    "method_definition"@,
                    "arrow_function"@,
                ] && info.function_name_kinds.deep_view() =~= default_name_kind_views()
                    && info.extract_function_name_handler is None
                    && info.find_method_for_receiver_handler is None
                    && info.find_receiver_type_handler is None && info.reference_query@.len() == 0)
                &&& (language@ == "go"@ ==> info.function_node_kinds.deep_view() =~= seq![
                    "function_declaration"@,
                    "method_declaration"@,
                ] && info.function_name_kinds.deep_view() =~= default_name_kind_views()
                    && info.extract_function_name_handler is None
                    && info.find_method_for_receiver_handler == Some(
                    ReceiverMethodHook::GoReceiverMethod,
                ) && info.find_receiver_type_handler is None && info.reference_query@.len() > 0)
                &&& (language@ == "java"@ ==> info.function_node_kinds.deep_view() =~= seq![
                    "method_declaration"@,
                    "constructor_declaration"@,
                ] && info.function_name_kinds.deep_view() =~= default_name_kind_views()
                    && info.extract_function_name_handler is None
                    && info.find_method_for_receiver_handler is None
                    && info.find_receiver_type_handler is None && info.reference_query@.len() == 0)
                &&& (language@ == "kotlin"@ ==> info.function_node_kinds.deep_view() =~= seq![
                    "function_declaration"@,
                    "class_body"@,
                ] && info.function_name_kinds.deep_view() =~= default_name_kind_views()
                    && info.extract_function_name_handler is None
                    && info.find_method_for_receiver_handler is None
                    && info.find_receiver_type_handler is None && info.reference_query@.len() == 0)
                &&& (language@ == "swift"@ ==> info.function_node_kinds.deep_view() =~= seq![
                    "function_declaration"@,
                    "init_declaration"@,
                    "deinit_declaration"@,
                    "subscript_declaration"@,
                ] && info.function_name_kinds.deep_view() =~= seq!["simple_identifier"@]
                    && info.extract_function_name_handler == Some(NameHook::SwiftDeclarationName)
                    && info.find_method_for_receiver_handler is None
                    && info.find_receiver_type_handler is None && info.reference_query@.len() == 0)
                &&& (language@ == "ruby"@ ==> info.function_node_kinds.deep_view() =~= seq![
                    "method"@,
                    "singleton_method"@,
                ] && info.function_name_kinds.deep_view() =~= default_name_kind_views()
                    && info.extract_function_name_handler is None
                    && info.find_method_for_receiver_handler == Some(
                    ReceiverMethodHook::RubyReceiverMethod,
                ) && info.find_receiver_type_handler is None && info.reference_query@.len() > 0)
            },
            None => true,
        }),
{
    proof {
        lemma_language_names_distinct();
    }
    if str_eq(language, "python") {
        Some(
            LanguageInfo {
                element_query: python::element_query(),
                call_query: python::call_query(),
                reference_query: "",
                function_node_kinds: kinds1("function_definition"),
                function_name_kinds: default_name_kinds(),
                extract_function_name_handler: None,
                find_method_for_receiver_handler: None,
                find_receiver_type_handler: None,
            },
        )
    } else if str_eq(language, "rust") {
        Some(
            LanguageInfo {
                element_query: rust::element_query(),
                call_query: rust::call_query(),
                reference_query: rust::reference_query(),
                function_node_kinds: kinds2("function_item", "impl_item"),
                function_name_kinds: default_name_kinds(),
                extract_function_name_handler: Some(NameHook::RustImplName),
                find_method_for_receiver_handler: Some(ReceiverMethodHook::RustReceiverMethod),
                find_receiver_type_handler: Some(ReceiverTypeHook::RustReceiverType),
            },
        )
    } else if str_eq(language, "javascript") || str_eq(language, "typescript") {
        Some(
            LanguageInfo {
                element_query: javascript::element_query(),
                call_query: javascript::call_query(),
                reference_query: "",
                function_node_kinds: kinds3(
                    "function_declaration",
                    "method_definition",
                    "arrow_function",
                ),
                function_name_kinds: default_name_kinds(),
                extract_function_name_handler: None,
                find_method_for_receiver_handler: None,
                find_receiver_type_handler: None,
            },
        )
    } else if str_eq(language, "go") {
        Some(
            LanguageInfo {
                element_query: go::element_query(),
                call_query: go::call_query(),
                reference_query: go::reference_query(),
                function_node_kinds: kinds2("function_declaration", "method_declaration"),
                function_name_kinds: default_name_kinds(),
                extract_function_name_handler: None,
                find_method_for_receiver_handler: Some(ReceiverMethodHook::GoReceiverMethod),
                find_receiver_type_handler: None,
            },
        )
    } else if str_eq(language, "java") {
        Some(
            LanguageInfo {
                element_query: java::element_query(),
                call_query: java::call_query(),
                reference_query: "",
                function_node_kinds: kinds2("method_declaration", "constructor_declaration"),
                function_name_kinds: default_name_kinds(),
                extract_function_name_handler: None,
                find_method_for_receiver_handler: None,
                find_receiver_type_handler: None,
            },
        )
    } else if str_eq(language, "kotlin") {
        Some(
            LanguageInfo {
                element_query: kotlin::element_query(),
                call_query: kotlin::call_query(),
                reference_query: "",
                function_node_kinds: kinds2("function_declaration", "class_body"),
                function_name_kinds: default_name_kinds(),
                extract_function_name_handler: None,
                find_method_for_receiver_handler: None,
                find_receiver_type_handler: None,
            },
        )
    } else if str_eq(language, "swift") {
        Some(
            LanguageInfo {
                element_query: swift::element_query(),
                call_query: swift::call_query(),
                reference_query: "",
                function_node_kinds: kinds4(
                    "function_declaration",
                    "init_declaration",
                    "deinit_declaration",
                    "subscript_declaration",
                ),
                function_name_kinds: kinds1("simple_identifier"),
                extract_function_name_handler: Some(NameHook::SwiftDeclarationName),
                find_method_for_receiver_handler: None,
                find_receiver_type_handler: None,
            },
        )
    } else if str_eq(language, "ruby") {
        Some(
            LanguageInfo {
                element_query: ruby::element_query(),
                call_query: ruby::call_query(),
                reference_query: ruby::reference_query(),
                function_node_kinds: kinds2("method", "singleton_method"),
                function_name_kinds: default_name_kinds(),
                extract_function_name_handler: None,
                find_method_for_receiver_handler: Some(ReceiverMethodHook::RubyReceiverMethod),
                find_receiver_type_handler: None,
            },
        )
    } else {
        None
    }
}

} // verus!
