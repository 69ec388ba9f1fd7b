use code_analyze::lang::get_language_identifier;

#[test]
fn detect_rust() {
    assert_eq!(get_language_identifier("main.rs"), "rust");
}

#[test]
fn detect_python() {
    assert_eq!(get_language_identifier("script.py"), "python");
}

#[test]
fn detect_javascript() {
    assert_eq!(get_language_identifier("app.js"), "javascript");
}

#[test]
fn detect_typescript() {
    assert_eq!(get_language_identifier("app.ts"), "typescript");
}

#[test]
fn detect_go() {
    assert_eq!(get_language_identifier("main.go"), "go");
}

#[test]
fn detect_java() {
    assert_eq!(get_language_identifier("App.java"), "java");
}

#[test]
fn detect_kotlin() {
    assert_eq!(get_language_identifier("App.kt"), "kotlin");
    assert_eq!(get_language_identifier("build.kts"), "kotlin");
}

#[test]
fn detect_swift() {
    assert_eq!(get_language_identifier("App.swift"), "swift");
}

#[test]
fn detect_ruby() {
    assert_eq!(get_language_identifier("app.rb"), "ruby");
}

#[test]
fn detect_c_cpp() {
    assert_eq!(get_language_identifier("main.c"), "c");
    assert_eq!(get_language_identifier("main.cpp"), "cpp");
    assert_eq!(get_language_identifier("main.cc"), "cpp");
    assert_eq!(get_language_identifier("main.h"), "cpp");
}

#[test]
fn detect_misc_languages() {
    assert_eq!(get_language_identifier("a.json"), "json");
    assert_eq!(get_language_identifier("a.toml"), "toml");
    assert_eq!(get_language_identifier("a.yaml"), "yaml");
    assert_eq!(get_language_identifier("a.yml"), "yaml");
    assert_eq!(get_language_identifier("a.sh"), "bash");
    assert_eq!(get_language_identifier("a.md"), "markdown");
    assert_eq!(get_language_identifier("a.html"), "html");
    assert_eq!(get_language_identifier("a.css"), "css");
    assert_eq!(get_language_identifier("a.sql"), "sql");
}

#[test]
fn unknown_extension_returns_empty() {
    assert_eq!(get_language_identifier("file.xyz"), "");
}

#[test]
fn no_extension_returns_empty() {
    assert_eq!(get_language_identifier("Makefile"), "");
}

#[test]
fn nested_path_uses_final_component() {
    assert_eq!(get_language_identifier("src/deep/dir/main.rs"), "rust");
    assert_eq!(get_language_identifier("a.rs/plain"), "");
}

#[test]
fn hidden_file_has_no_extension() {
    assert_eq!(get_language_identifier(".bashrc"), "");
    assert_eq!(get_language_identifier("dir/.rs"), "");
}
