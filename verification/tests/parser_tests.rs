use code_analyze::analyze::parser::{ElementExtractor, ParserManager};
use code_analyze::analyze::types::AnalysisError;
use code_analyze::analyze::types::ReferenceType;

fn bytes(code: &str) -> Vec<u8> {
    code.as_bytes().to_vec()
}

#[test]
fn parser_manager_creates_for_supported_languages() {
    let pm = ParserManager::new();
    for lang in &[
        "python",
        "rust",
        "javascript",
        "typescript",
        "go",
        "java",
        "kotlin",
        "swift",
        "ruby",
    ] {
        assert!(pm.get_or_create_parser(lang).is_ok(), "failed for {}", lang);
    }
}

#[test]
fn parser_manager_rejects_unsupported() {
    let pm = ParserManager::new();
    assert!(pm.get_or_create_parser("brainfuck").is_err());
}

#[test]
fn parser_manager_caches_parser() {
    let pm = ParserManager::new();
    let p1 = pm.get_or_create_parser("rust").unwrap();
    let p2 = pm.get_or_create_parser("rust").unwrap();
    assert!(std::sync::Arc::ptr_eq(&p1, &p2));
}

#[test]
fn parse_rust_code() {
    let pm = ParserManager::new();
    let tree = pm.parse(&bytes("fn main() {}"), "rust");
    assert!(tree.is_ok());
}

#[test]
fn parse_python_code() {
    let pm = ParserManager::new();
    let tree = pm.parse(&bytes("def hello():\n    pass\n"), "python");
    assert!(tree.is_ok());
}

#[test]
fn parse_go_code() {
    let pm = ParserManager::new();
    let tree = pm.parse(&bytes("package main\nfunc main() {}\n"), "go");
    assert!(tree.is_ok());
}

#[test]
fn extract_elements_rust() {
    let pm = ParserManager::new();
    let code = "use std::io;\n\nstruct Foo;\n\nfn bar() {}\nfn main() {}\n";
    let tree = pm.parse(&bytes(code), "rust").unwrap();
    let result = ElementExtractor::extract_elements(&tree, &bytes(code), "rust").unwrap();
    assert!(result.functions.iter().any(|f| f.name == "bar"));
    assert!(result.functions.iter().any(|f| f.name == "main"));
    assert!(result.classes.iter().any(|c| c.name == "Foo"));
    assert!(result.main_line.is_some());
}

#[test]
fn extract_elements_python() {
    let pm = ParserManager::new();
    let code = "import os\n\nclass Foo:\n    pass\n\ndef bar():\n    pass\n";
    let tree = pm.parse(&bytes(code), "python").unwrap();
    let result = ElementExtractor::extract_elements(&tree, &bytes(code), "python").unwrap();
    assert!(result.functions.iter().any(|f| f.name == "bar"));
    assert!(result.classes.iter().any(|c| c.name == "Foo"));
}

#[test]
fn extract_with_depth_structure() {
    let pm = ParserManager::new();
    let code = "fn foo() {}\nfn main() {}\n";
    let tree = pm.parse(&bytes(code), "rust").unwrap();
    let result =
        ElementExtractor::extract_with_depth(&tree, &bytes(code), "rust", "structure", None)
            .unwrap();
    // Structure mode clears functions/classes/imports
    assert!(result.functions.is_empty());
    assert!(result.classes.is_empty());
    assert!(result.imports.is_empty());
}

#[test]
fn extract_with_depth_semantic() {
    let pm = ParserManager::new();
    let code = "fn foo() { bar(); }\nfn bar() {}\n";
    let tree = pm.parse(&bytes(code), "rust").unwrap();
    let result =
        ElementExtractor::extract_with_depth(&tree, &bytes(code), "rust", "semantic", None)
            .unwrap();
    assert!(!result.functions.is_empty());
    // Should have calls extracted
    assert!(!result.calls.is_empty() || !result.references.is_empty());
}

#[test]
fn extract_elements_unsupported_returns_empty() {
    let pm = ParserManager::new();
    // Parse as JS but ask for elements of "haskell" which has no language info
    let code = "function f() {}";
    let tree = pm.parse(&bytes(code), "javascript").unwrap();
    let result = ElementExtractor::extract_elements(&tree, &bytes(code), "haskell").unwrap();
    assert!(result.functions.is_empty());
}

#[test]
fn parser_manager_default_works() {
    let _pm = ParserManager::default();
}

#[test]
fn unsupported_language_error_variant() {
    let pm = ParserManager::new();
    let err = pm.parse(&bytes("x"), "brainfuck").unwrap_err();
    assert!(matches!(err, AnalysisError::UnsupportedLanguage(ref l) if l == "brainfuck"));
    assert_eq!(err.message(), "Unsupported language: brainfuck");
}

#[test]
fn error_messages_name_the_failure() {
    assert_eq!(
        AnalysisError::ParserInit("go".to_string()).message(),
        "Failed to set language for go"
    );
    assert_eq!(
        AnalysisError::ParseFailed("rust".to_string()).message(),
        "Failed to parse file as rust"
    );
    assert_eq!(
        AnalysisError::MalformedQuery("query: boom".to_string()).message(),
        "Failed to create query: boom"
    );
    assert_eq!(
        AnalysisError::MalformedQuery("call query: boom".to_string()).message(),
        "Failed to create call query: boom"
    );
    assert_eq!(
        AnalysisError::MalformedQuery("reference query: boom".to_string()).message(),
        "Failed to create reference query: boom"
    );
}

#[test]
fn semantic_rust_attributes_calls_to_their_functions() {
    let pm = ParserManager::new();
    let code = "fn foo() { bar(); }\nfn bar() {}\n";
    let tree = pm.parse(&bytes(code), "rust").unwrap();
    let result =
        ElementExtractor::extract_with_depth(&tree, &bytes(code), "rust", "semantic", None)
            .unwrap();
    let call = result
        .calls
        .iter()
        .find(|c| c.callee_name == "bar")
        .expect("expected a call to bar");
    assert_eq!(call.caller_name.as_deref(), Some("foo"));
    assert_eq!(call.line, 1);
    assert_eq!(call.context, "fn foo() { bar(); }");
}

#[test]
fn semantic_rust_records_impl_scope_and_receiver() {
    let pm = ParserManager::new();
    let code = "struct W;\nimpl W {\n    fn go(&self) {\n        run();\n    }\n}\nfn run() {}\n";
    let tree = pm.parse(&bytes(code), "rust").unwrap();
    let result =
        ElementExtractor::extract_with_depth(&tree, &bytes(code), "rust", "semantic", None)
            .unwrap();
    let call = result
        .calls
        .iter()
        .find(|c| c.callee_name == "run")
        .expect("expected a call to run");
    assert_eq!(call.caller_name.as_deref(), Some("go"));
    let method_def = result
        .references
        .iter()
        .find(|r| r.ref_type == ReferenceType::MethodDefinition)
        .expect("expected a method-definition reference for the receiver");
    assert_eq!(method_def.symbol, "go");
    assert_eq!(method_def.associated_type.as_deref(), Some("W"));
}

#[test]
fn semantic_mirrors_every_call_as_reference() {
    let pm = ParserManager::new();
    let code = "fn a() { b(); c(); }\nfn b() {}\nfn c() {}\n";
    let tree = pm.parse(&bytes(code), "rust").unwrap();
    let result =
        ElementExtractor::extract_with_depth(&tree, &bytes(code), "rust", "semantic", None)
            .unwrap();
    assert!(result.references.len() >= result.calls.len());
    for (i, call) in result.calls.iter().enumerate() {
        let r = &result.references[i];
        assert_eq!(r.symbol, call.callee_name);
        assert_eq!(r.ref_type, ReferenceType::Call);
        assert_eq!(r.line, call.line);
    }
}

#[test]
fn element_lines_count_preceding_newlines() {
    let pm = ParserManager::new();
    let code = "fn one() {}\n\nfn two() {}\n";
    let tree = pm.parse(&bytes(code), "rust").unwrap();
    let result = ElementExtractor::extract_elements(&tree, &bytes(code), "rust").unwrap();
    let one = result.functions.iter().find(|f| f.name == "one").unwrap();
    let two = result.functions.iter().find(|f| f.name == "two").unwrap();
    assert_eq!(one.line, 1);
    assert_eq!(two.line, 3);
    assert_eq!(result.main_line, None);
}

#[test]
fn all_language_queries_compile_and_run() {
    let pm = ParserManager::new();
    let samples: &[(&str, &str)] = &[
        ("python", "def f():\n    g()\n"),
        ("rust", "fn f() { g(); }\n"),
        ("javascript", "function f() { g(); }\n"),
        ("typescript", "function f() { g(); }\n"),
        ("go", "package m\n\nfunc f() {\n\tg()\n}\n"),
        ("java", "class A { void f() { g(); } }\n"),
        ("kotlin", "fun f() {\n    g()\n}\n"),
        ("swift", "func f() {\n    g()\n}\n"),
        ("ruby", "def f\n  g()\nend\n"),
    ];
    for (lang, code) in samples {
        let tree = pm.parse(&code.as_bytes().to_vec(), lang).unwrap();
        let res = ElementExtractor::extract_with_depth(
            &tree,
            &code.as_bytes().to_vec(),
            lang,
            "semantic",
            None,
        );
        assert!(res.is_ok(), "semantic extraction failed for {}", lang);
        let res = res.unwrap();
        assert!(
            res.functions.iter().any(|f| f.name == "f"),
            "function f not captured for {}",
            lang
        );
    }
}
