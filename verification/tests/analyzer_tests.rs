use code_analyze::analyze::types::AnalysisMode;
use code_analyze::{analyze, AnalyzeOutput, CodeAnalyzer, FileInput};

fn input(path: &str, code: &[u8]) -> FileInput {
    FileInput {
        path: path.to_string(),
        mtime: 1,
        content: Some(code.to_vec()),
    }
}

#[test]
fn analyze_single_file_semantically() {
    let mut analyzer = CodeAnalyzer::new();
    let files = vec![input("src/sample.rs", b"fn main() { helper(); }\nfn helper() {}\n")];
    let out = analyze(&mut analyzer, &files, true, None, 2, None).unwrap();
    match out {
        AnalyzeOutput::File(res) => {
            assert_eq!(res.function_count, 2);
            assert_eq!(res.line_count, 2);
            assert!(res.functions.iter().any(|f| f.name == "helper"));
            assert!(res.calls.iter().any(|c| c.callee_name == "helper"));
        }
        _ => panic!("expected a single-file report"),
    }
}

#[test]
fn analyze_directory_structurally() {
    let mut analyzer = CodeAnalyzer::new();
    let files = vec![
        input("a.rs", b"fn a() {}\n"),
        input("b.py", b"def b():\n    pass\n"),
        input("notes.txt", b"hello\n"),
    ];
    let out = analyze(&mut analyzer, &files, false, None, 2, None).unwrap();
    match out {
        AnalyzeOutput::Directory(entries) => {
            assert_eq!(entries.len(), 3);
            let a = match &entries[0].1 {
                code_analyze::analyze::types::EntryType::File(r) => r,
            };
            assert_eq!(a.function_count, 1);
            assert!(a.functions.is_empty());
            let t = match &entries[2].1 {
                code_analyze::analyze::types::EntryType::File(r) => r,
            };
            assert_eq!(t.function_count, 0);
            assert_eq!(t.line_count, 1);
        }
        _ => panic!("expected a directory report"),
    }
}

#[test]
fn focused_analysis_tracks_symbol_across_files() {
    let mut analyzer = CodeAnalyzer::new();
    let files = vec![
        input("lib.rs", b"fn helper() {}\n"),
        input("main.rs", b"fn main() { helper(); }\n"),
    ];
    let out = analyze(&mut analyzer, &files, false, Some("helper"), 2, None).unwrap();
    match out {
        AnalyzeOutput::Focused(data) => {
            assert_eq!(data.focus_symbol, "helper");
            assert_eq!(data.files_analyzed.len(), 2);
            assert_eq!(data.definitions.len(), 1);
            assert_eq!(data.definitions[0].0, "lib.rs");
            assert!(!data.incoming_chains.is_empty());
            let hop = &data.incoming_chains[0].path[0];
            assert_eq!(hop.2, "main");
            assert_eq!(hop.3, "helper");
        }
        _ => panic!("expected a focused report"),
    }
}

#[test]
fn focused_depth_zero_reports_definitions_only() {
    let mut analyzer = CodeAnalyzer::new();
    let files = vec![input("m.rs", b"fn a() { b(); }\nfn b() {}\n")];
    let out = analyze(&mut analyzer, &files, false, Some("b"), 0, None).unwrap();
    match out {
        AnalyzeOutput::Focused(data) => {
            assert_eq!(data.definitions.len(), 1);
            assert!(data.incoming_chains.is_empty());
            assert!(data.outgoing_chains.is_empty());
        }
        _ => panic!("expected a focused report"),
    }
}

#[test]
fn binary_content_degrades_to_empty() {
    let mut analyzer = CodeAnalyzer::new();
    let mut bad = vec![0xffu8, 0xfe, 0x00, 0x80, 0xc3];
    bad.extend_from_slice(b"garbage");
    let res = analyzer
        .analyze_file("data.rs", 1, &AnalysisMode::Semantic, Some(&bad), None)
        .unwrap();
    assert_eq!(res.function_count, 0);
    assert_eq!(res.class_count, 0);
    assert_eq!(res.line_count, 0);
    assert!(res.functions.is_empty());
    assert!(res.calls.is_empty());
}

#[test]
fn unreadable_content_degrades_to_empty() {
    let mut analyzer = CodeAnalyzer::new();
    let unreadable = FileInput {
        path: "gone.rs".to_string(),
        mtime: 1,
        content: None,
    };
    let out = analyze(&mut analyzer, &vec![unreadable], true, None, 2, None).unwrap();
    match out {
        AnalyzeOutput::File(res) => {
            assert_eq!(res.line_count, 0);
            assert_eq!(res.function_count, 0);
        }
        _ => panic!("expected a single-file report"),
    }
}

#[test]
fn unknown_language_degrades_to_line_count_only() {
    let mut analyzer = CodeAnalyzer::new();
    let res = analyzer
        .analyze_file(
            "file.xyz",
            1,
            &AnalysisMode::Semantic,
            Some(&b"one\ntwo\nthree".to_vec()),
            None,
        )
        .unwrap();
    assert_eq!(res.line_count, 3);
    assert_eq!(res.function_count, 0);
    assert!(res.functions.is_empty());
}

#[test]
fn mode_isolation_same_counts_different_detail() {
    let code: &[u8] = b"import os\nimport sys\nimport re\n\nclass Box:\n    pass\n\ndef f1():\n    pass\n\ndef f2():\n    pass\n";
    let mut analyzer = CodeAnalyzer::new();
    let structure = analyzer
        .analyze_file("s.py", 1, &AnalysisMode::Structure, Some(&code.to_vec()), None)
        .unwrap();
    assert_eq!(structure.function_count, 2);
    assert_eq!(structure.class_count, 1);
    assert_eq!(structure.import_count, 3);
    assert!(structure.functions.is_empty());
    assert!(structure.classes.is_empty());
    assert!(structure.imports.is_empty());

    let semantic = analyzer
        .analyze_file("s.py", 2, &AnalysisMode::Semantic, Some(&code.to_vec()), None)
        .unwrap();
    assert_eq!(semantic.function_count, 2);
    assert_eq!(semantic.class_count, 1);
    assert_eq!(semantic.import_count, 3);
    assert_eq!(semantic.functions.len(), 2);
    assert_eq!(semantic.classes.len(), 1);
    assert_eq!(semantic.imports.len(), 3);
}

#[test]
fn cache_serves_repeated_extraction() {
    let mut analyzer = CodeAnalyzer::new();
    let code = b"fn main() {}\n".to_vec();
    let first = analyzer
        .analyze_file("c.rs", 5, &AnalysisMode::Semantic, Some(&code), None)
        .unwrap();
    // Same key, no content at all: only the cache can answer.
    let second = analyzer
        .analyze_file("c.rs", 5, &AnalysisMode::Semantic, None, None)
        .unwrap();
    assert_eq!(first.function_count, second.function_count);
    assert_eq!(first.line_count, second.line_count);
    assert_eq!(second.main_line, first.main_line);
}

#[test]
fn focused_cycle_terminates() {
    let mut analyzer = CodeAnalyzer::new();
    let files = vec![input(
        "cyc.rs",
        b"fn ping() { pong(); }\nfn pong() { ping(); }\n",
    )];
    let out = analyze(&mut analyzer, &files, false, Some("ping"), 64, None).unwrap();
    match out {
        AnalyzeOutput::Focused(data) => {
            assert!(!data.outgoing_chains.is_empty());
            for chain in &data.outgoing_chains {
                assert!(chain.path.len() <= 64);
            }
        }
        _ => panic!("expected a focused report"),
    }
}
