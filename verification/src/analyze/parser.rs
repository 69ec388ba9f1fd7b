//! Parser management and the fact extractor: queries run over one parsed
//! tree, and the verified pipeline that turns plain capture records into
//! the uniform fact schema.

use vstd::prelude::*;

use std::sync::{Arc, Mutex};

use crate::analyze::languages::{
    self, LanguageInfo, NameHook, ReceiverMethodHook, ReceiverTypeHook,
};
use crate::analyze::sitter::{
    capture_views, child_with_kind_in, compile_query, flat_views, flat_wf, flatten_tree, kind_in,
    make_parser, node_by_id, parse_with, query_captures, spec_child_with_kind_in, spec_node_by_id,
    FlatNode, FlatNodeV, ParserPool, RawCapture, RawCaptureV,
};
use crate::analyze::types::{
    calls_view, classes_view, empty_result_view, funcs_view, opt_view, refs_view, AnalysisError,
    AnalysisResult, CallInfo, CallInfoV, ClassInfo, ClassInfoV, ElementQueryResult, FunctionInfo,
    FunctionInfoV, ReferenceInfo, ReferenceInfoV, ReferenceType,
};
use crate::text::{
    spec_context, spec_line_at, spec_text_at, context_of, line_at, str_eq, text_of,
};

verus! {

/// Keeps one parser per language behind a shared lock, so the non-trivial
/// construction cost is paid once per language.
pub struct ParserManager {
    pool: ParserPool,
}

/// The tree-sitter grammar for a supported language identifier.
fn language_for(language: &str) -> (r: Option<tree_sitter::Language>)
    ensures
        r is Some <==> languages::supported_language(language@),
{
    if str_eq(language, "python") {
        Some(crate::analyze::sitter::language_python())
    } else if str_eq(language, "rust") {
        Some(crate::analyze::sitter::language_rust())
    } else if str_eq(language, "javascript") || str_eq(language, "typescript") {
        Some(crate::analyze::sitter::language_javascript())
    } else if str_eq(language, "go") {
        Some(crate::analyze::sitter::language_go())
    } else if str_eq(language, "java") {
        Some(crate::analyze::sitter::language_java())
    } else if str_eq(language, "kotlin") {
        Some(crate::analyze::sitter::language_kotlin())
    } else if str_eq(language, "swift") {
        Some(crate::analyze::sitter::language_swift())
    } else if str_eq(language, "ruby") {
        Some(crate::analyze::sitter::language_ruby())
    } else {
        None
    }
}

impl ParserManager {
    pub fn new() -> Self {
        ParserManager { pool: ParserPool::new() }
    }

    /// The shared parser for `language`, created on first use. Exactly the
    /// unrecognized identifiers are refused; a grammar the parser library
    /// cannot load is reported as an initialization failure.
    pub fn get_or_create_parser(&self, language: &str) -> (r: Result<
        Arc<Mutex<tree_sitter::Parser>>,
        AnalysisError,
    >)
        ensures
            (match r {
                Ok(_) => languages::supported_language(language@),
                Err(e) => match e {
                    AnalysisError::UnsupportedLanguage(l) => !languages::supported_language(
                        language@,
                    ) && l@ == language@,
                    AnalysisError::ParserInit(l) => languages::supported_language(language@) && l@
                        == language@,
                    _ => false,
                },
            }),
    {
        let lang = match language_for(language) {
            Some(l) => l,
            None => {
                return Err(AnalysisError::UnsupportedLanguage(String::from_str(language)));
            },
        };
        match self.pool.lookup(language) {
            Some(p) => {
                return Ok(p);
            },
            None => {},
        }
        match make_parser(&lang) {
            Some(parser) => Ok(self.pool.store(language, parser)),
            None => Err(AnalysisError::ParserInit(String::from_str(language))),
        }
    }

    /// Parse one file's content. Errors are exactly: the language is not
    /// recognized, its grammar would not load, or the parser returned no
    /// tree.
    pub fn parse(&self, content: &Vec<u8>, language: &str) -> (r: Result<
        tree_sitter::Tree,
        AnalysisError,
    >)
        ensures
            (match r {
                Ok(_) => languages::supported_language(language@),
                Err(e) => match e {
                    AnalysisError::UnsupportedLanguage(l) => !languages::supported_language(
                        language@,
                    ) && l@ == language@,
                    AnalysisError::ParserInit(l) => languages::supported_language(language@) && l@
                        == language@,
                    AnalysisError::ParseFailed(l) => languages::supported_language(language@) && l@
                        == language@,
                    _ => false,
                },
            }),
    {
        let parser = match self.get_or_create_parser(language) {
            Ok(p) => p,
            Err(e) => {
                return Err(e);
            },
        };
        match parse_with(&parser, content) {
            Some(tree) => Ok(tree),
            None => Err(AnalysisError::ParseFailed(String::from_str(language))),
        }
    }
}

impl Default for ParserManager {
    fn default() -> Self {
        Self::new()
    }
}

/// Runs catalog queries over one parsed tree and assembles fact records.
pub struct ElementExtractor;

// What one element capture contributes: a function, a class or an import,
// named by the capture's text, at the 1-indexed line of its start offset.

pub open spec fn spec_element_at(c: RawCaptureV, src: Seq<u8>) -> (
    Seq<FunctionInfoV>,
    Seq<ClassInfoV>,
    Seq<Seq<char>>,
) {
    match spec_text_at(src, c.start_byte, c.end_byte) {
        None => (Seq::empty(), Seq::empty(), Seq::empty()),
        Some(t) => if c.name == "func"@ || c.name == "const"@ {
            (
                seq![
                    FunctionInfoV {
                        name: t,
                        line: spec_line_at(src, c.start_byte),
                        params: Seq::empty(),
                    },
                ],
                Seq::empty(),
                Seq::empty(),
            )
        } else if c.name == "class"@ || c.name == "struct"@ {
            (
                Seq::empty(),
                seq![
                    ClassInfoV {
                        name: t,
                        line: spec_line_at(src, c.start_byte),
                        methods: Seq::empty(),
                    },
                ],
                Seq::empty(),
            )
        } else if c.name == "import"@ {
            (Seq::empty(), Seq::empty(), seq![t])
        } else {
            (Seq::empty(), Seq::empty(), Seq::empty())
        },
    }
}

pub open spec fn spec_elements(caps: Seq<RawCaptureV>, src: Seq<u8>) -> (
    Seq<FunctionInfoV>,
    Seq<ClassInfoV>,
    Seq<Seq<char>>,
)
    decreases caps.len(),
{
    if caps.len() == 0 {
        (Seq::empty(), Seq::empty(), Seq::empty())
    } else {
        let h = spec_element_at(caps[0], src);
        let rest = spec_elements(caps.drop_first(), src);
        (h.0 + rest.0, h.1 + rest.1, h.2 + rest.2)
    }
}

/// The line of the first function named `main`, if any.
pub open spec fn spec_first_main_line(fs: Seq<FunctionInfoV>) -> Option<int>
    decreases fs.len(),
{
    if fs.len() == 0 {
        None
    } else if fs[0].name == "main"@ {
        Some(fs[0].line)
    } else {
        spec_first_main_line(fs.drop_first())
    }
}

impl ElementExtractor {
    /// Sort one query's captures into function, class and import facts;
    /// a capture whose byte range does not decode is skipped.
    #[verifier::loop_isolation(false)]
    pub fn elements_from_captures(captures: &Vec<RawCapture>, source: &Vec<u8>) -> (r:
        ElementQueryResult)
        requires
            source@.len() < usize::MAX,
        ensures
            ({
                let s = spec_elements(capture_views(captures@), source@);
                &&& funcs_view(r.0@) == s.0
                &&& classes_view(r.1@) == s.1
                &&& r.2.deep_view() == s.2
            }),
    {
        let ghost cv = capture_views(captures@);
        let ghost target = spec_elements(cv, source@);
        let mut functions: Vec<FunctionInfo> = Vec::new();
        let mut classes: Vec<ClassInfo> = Vec::new();
        let mut imports: Vec<String> = Vec::new();
        proof {
            assert(funcs_view(functions@) =~= Seq::<FunctionInfoV>::empty());
            assert(classes_view(classes@) =~= Seq::<ClassInfoV>::empty());
            assert(imports.deep_view() =~= Seq::<Seq<char>>::empty());
            assert(cv.skip(0) =~= cv);
        }
        let n = captures.len();
        let mut i: usize = 0;
        while i < n
            invariant
                i <= n,
                target.0 == funcs_view(functions@) + spec_elements(cv.skip(i as int), source@).0,
                target.1 == classes_view(classes@) + spec_elements(cv.skip(i as int), source@).1,
                target.2 == imports.deep_view() + spec_elements(cv.skip(i as int), source@).2,
            decreases n - i,
        {
            let c = &captures[i];
            let ghost cvi: RawCaptureV = cv[i as int];
            proof {
                assert(cvi == captures@[i as int]@);
                assert(cv.skip(i as int)[0] == cvi);
                assert(cv.skip(i as int).drop_first() =~= cv.skip(i as int + 1));
            }
            let ghost funcs0 = functions@;
            let ghost classes0 = classes@;
            let ghost imports0 = imports@;
            match text_of(source, c.start_byte, c.end_byte) {
                Some(t) => {
                    let line = line_at(source, c.start_byte);
                    if str_eq(c.name.as_str(), "func") || str_eq(c.name.as_str(), "const") {
                        let ghost tv = t@;
                        functions.push(FunctionInfo { name: t, line, params: vec![] });
                        proof {
                            let fv = FunctionInfoV {
                                name: tv,
                                line: spec_line_at(source@, cvi.start_byte),
                                params: Seq::empty(),
                            };
                            assert(functions@.last()@ =~~= fv);
                            assert(funcs_view(functions@) =~= funcs_view(funcs0).push(fv));
                            assert(funcs_view(funcs0) + (seq![fv] + spec_elements(
                                cv.skip(i as int + 1),
                                source@,
                            ).0) =~= funcs_view(funcs0).push(fv) + spec_elements(
                                cv.skip(i as int + 1),
                                source@,
                            ).0);
                        }
                    } else if str_eq(c.name.as_str(), "class") || str_eq(
                        c.name.as_str(),
                        "struct",
                    ) {
                        let ghost tv = t@;
                        classes.push(ClassInfo { name: t, line, methods: vec![] });
                        proof {
                            let clv = ClassInfoV {
                                name: tv,
                                line: spec_line_at(source@, cvi.start_byte),
                                methods: Seq::empty(),
                            };
                            assert(classes@.last()@ =~~= clv);
                            assert(classes_view(classes@) =~= classes_view(classes0).push(clv));
                            assert(classes_view(classes0) + (seq![clv] + spec_elements(
                                cv.skip(i as int + 1),
                                source@,
                            ).1) =~= classes_view(classes0).push(clv) + spec_elements(
                                cv.skip(i as int + 1),
                                source@,
                            ).1);
                        }
                    } else if str_eq(c.name.as_str(), "import") {
                        let ghost tv = t@;
                        imports.push(t);
                        proof {
                            assert(imports.deep_view() =~= imports0.map_values(
                                |s: String| s.deep_view(),
                            ).push(tv));
                            assert(imports0.map_values(|s: String| s.deep_view()) + (seq![tv]
                                + spec_elements(cv.skip(i as int + 1), source@).2) =~= imports0
                                .map_values(|s: String| s.deep_view()).push(tv) + spec_elements(
                                cv.skip(i as int + 1),
                                source@,
                            ).2);
                        }
                    }
                },
                None => {},
            }
            i = i + 1;
        }
        proof {
            assert(cv.skip(n as int) =~= Seq::<RawCaptureV>::empty());
        }
        (functions, classes, imports)
    }

    /// The line of the first function named `main`.
    #[verifier::loop_isolation(false)]
    pub fn first_main_line(functions: &Vec<FunctionInfo>) -> (r: Option<usize>)
        ensures
            crate::analyze::types::opt_usize_view(r) == spec_first_main_line(
                funcs_view(functions@),
            ),
    {
        let ghost fv = funcs_view(functions@);
        proof {
            assert(fv.skip(0) =~= fv);
        }
        let n = functions.len();
        let mut i: usize = 0;
        while i < n
            invariant
                i <= n,
                spec_first_main_line(fv) == spec_first_main_line(fv.skip(i as int)),
            decreases n - i,
        {
            proof {
                assert(fv.skip(i as int)[0] == functions@[i as int]@);
                assert(fv.skip(i as int).drop_first() =~= fv.skip(i as int + 1));
            }
            if str_eq(functions[i].name.as_str(), "main") {
                return Some(functions[i].line);
            }
            i = i + 1;
        }
        proof {
            assert(fv.skip(n as int) =~= Seq::<FunctionInfoV>::empty());
        }
        None
    }

    /// Run one query, surfacing a malformed query as the hard error it is;
    /// `label` names the query category in the error.
    fn run_query(tree: &tree_sitter::Tree, source: &Vec<u8>, query: &str, label: &str) -> (r:
        Result<Vec<RawCapture>, AnalysisError>)
        ensures
            (match r {
                Ok(_) => true,
                Err(e) => e matches AnalysisError::MalformedQuery(_),
            }),
    {
        match compile_query(tree, query) {
            Ok(q) => Ok(query_captures(tree, &q, source)),
            Err(m) => Err(
                AnalysisError::MalformedQuery(
                    String::from_str(label).concat(": ").concat(m.as_str()),
                ),
            ),
        }
    }

    /// Run the element query and sort its captures.
    fn process_element_query(tree: &tree_sitter::Tree, source: &Vec<u8>, query_str: &str) -> (r:
        Result<ElementQueryResult, AnalysisError>)
        requires
            source@.len() < usize::MAX,
        ensures
            (match r {
                Ok(eq) => exists|caps: Seq<RawCaptureV>|
                    {
                        let s = #[trigger] spec_elements(caps, source@);
                        &&& funcs_view(eq.0@) == s.0
                        &&& classes_view(eq.1@) == s.1
                        &&& eq.2.deep_view() == s.2
                    },
                Err(e) => e matches AnalysisError::MalformedQuery(_),
            }),
    {
        let caps = match Self::run_query(tree, source, query_str, "query") {
            Ok(c) => c,
            Err(e) => {
                return Err(e);
            },
        };
        let r = Self::elements_from_captures(&caps, source);
        proof {
            let s = spec_elements(capture_views(caps@), source@);
            assert(funcs_view(r.0@) == s.0);
        }
        Ok(r)
    }

    /// The all-zero fact record.
    pub fn empty_analysis_result() -> (r: AnalysisResult)
        ensures
            r@ =~~= empty_result_view(0),
    {
        AnalysisResult::empty(0)
    }

    /// Definitions and import counts only: run the element query and count
    /// what it captured. An unrecognized language degrades to the all-zero
    /// record; a malformed built-in query is a hard error.
    pub fn extract_elements(tree: &tree_sitter::Tree, source: &Vec<u8>, language: &str) -> (r:
        Result<AnalysisResult, AnalysisError>)
        requires
            source@.len() < usize::MAX,
        ensures
            (match r {
                Ok(res) => {
                    &&& res@.function_count == res@.functions.len()
                    &&& res@.class_count == res@.classes.len()
                    &&& res@.import_count == res@.imports.len()
                    &&& res@.calls.len() == 0
                    &&& res@.references.len() == 0
                    &&& res@.line_count == 0
                    &&& res@.main_line == spec_first_main_line(res@.functions)
                    &&& !languages::supported_language(language@) ==> res@ =~~= empty_result_view(
                        0,
                    )
                },
                Err(e) => languages::supported_language(language@) && (
                e matches AnalysisError::MalformedQuery(_)),
            }),
    {
        let info = match languages::get_language_info(language) {
            Some(i) => i,
            None => {
                return Ok(Self::empty_analysis_result());
            },
        };
        if info.element_query.is_empty() {
            return Ok(Self::empty_analysis_result());
        }
        let (functions, classes, imports) = match Self::process_element_query(
            tree,
            source,
            info.element_query,
        ) {
            Ok(eq) => eq,
            Err(e) => {
                return Err(e);
            },
        };
        let main_line = Self::first_main_line(&functions);
        let function_count = functions.len();
        let class_count = classes.len();
        let import_count = imports.len();
        let r = AnalysisResult {
            functions,
            classes,
            imports,
            calls: vec![],
            references: vec![],
            function_count,
            class_count,
            line_count: 0,
            import_count,
            main_line,
        };
        proof {
            assert(r@.calls =~= Seq::<CallInfoV>::empty());
            assert(r@.references =~= Seq::<ReferenceInfoV>::empty());
            assert(r@.functions.len() == function_count);
            assert(r@.classes.len() == class_count);
            assert(r@.imports.len() == import_count);
        }
        Ok(r)
    }
}


// The call-extraction pipeline: which captures are call expressions, and
// how a call is attributed to its lexically enclosing function.

/// The next 1-indexed line for a 0-indexed row, saturating at the machine
/// limit.
pub open spec fn spec_sat_inc(r: int) -> int {
    if r + 1 <= usize::MAX {
        r + 1
    } else {
        usize::MAX as int
    }
}

fn sat_inc(r: usize) -> (l: usize)
    ensures
        l == spec_sat_inc(r as int),
{
    if r == usize::MAX {
        r
    } else {
        r + 1
    }
}

/// The capture names the call query may use for a call expression.
pub open spec fn is_call_capture(n: Seq<char>) -> bool {
    ||| n == "function.call"@
    ||| n == "method.call"@
    ||| n == "scoped.call"@
    ||| n == "macro.call"@
    ||| n == "constructor.call"@
    ||| n == "identifier.reference"@
}

pub open spec fn spec_apply_name_hook(
    hook: Option<NameHook>,
    nodes: Seq<FlatNodeV>,
    src: Seq<u8>,
    p: int,
    kind: Seq<char>,
) -> Option<Seq<char>> {
    match hook {
        Some(NameHook::RustImplName) => languages::rust::spec_extract_function_name_for_kind(
            nodes,
            src,
            p,
            kind,
        ),
        Some(NameHook::SwiftDeclarationName) => languages::swift::spec_extract_function_name_for_kind(
            nodes,
            src,
            p,
            kind,
        ),
        None => None,
    }
}

/// The decoded text of the first direct child of `p` whose kind is in
/// `kinds`, when both the child and its text exist.
pub open spec fn spec_text_from_child(
    nodes: Seq<FlatNodeV>,
    src: Seq<u8>,
    p: int,
    kinds: Seq<Seq<char>>,
) -> Option<Seq<char>> {
    match spec_child_with_kind_in(nodes, p, kinds, 0) {
        Some(c) => spec_text_at(src, nodes[c].start_byte, nodes[c].end_byte),
        None => None,
    }
}

/// The name of the lexically enclosing function of `node`: climb the
/// ancestors; at each whose kind is a function scope, try the language's
/// special-case hook, then the first identifier-kind child; otherwise keep
/// climbing. No such ancestor means module scope.
pub open spec fn spec_containing_function(
    nodes: Seq<FlatNodeV>,
    src: Seq<u8>,
    node: int,
    fnk: Seq<Seq<char>>,
    nmk: Seq<Seq<char>>,
    hook: Option<NameHook>,
) -> Option<Seq<char>>
    decreases node,
{
    if !(0 < node < nodes.len()) {
        None
    } else {
        let p = nodes[node].parent;
        if !(0 <= p < node) {
            None
        } else {
            let up = spec_containing_function(nodes, src, p, fnk, nmk, hook);
            if kind_in(fnk, nodes[p].kind) {
                match spec_apply_name_hook(hook, nodes, src, p, nodes[p].kind) {
                    Some(nm) => Some(nm),
                    None => match spec_text_from_child(nodes, src, p, nmk) {
                        Some(nm) => Some(nm),
                        None => up,
                    },
                }
            } else {
                up
            }
        }
    }
}

pub open spec fn spec_call_at(
    c: RawCaptureV,
    nodes: Seq<FlatNodeV>,
    src: Seq<u8>,
    fnk: Seq<Seq<char>>,
    nmk: Seq<Seq<char>>,
    hook: Option<NameHook>,
) -> Option<CallInfoV> {
    if is_call_capture(c.name) {
        match spec_text_at(src, c.start_byte, c.end_byte) {
            None => None,
            Some(t) => Some(
                CallInfoV {
                    caller_name: match spec_node_by_id(nodes, c.node_id, 0) {
                        Some(n) => spec_containing_function(nodes, src, n, fnk, nmk, hook),
                        None => None,
                    },
                    callee_name: t,
                    line: spec_sat_inc(c.row),
                    column: c.column,
                    context: spec_context(src, c.start_byte, c.end_byte),
                },
            ),
        }
    } else {
        None
    }
}

pub open spec fn spec_calls(
    caps: Seq<RawCaptureV>,
    nodes: Seq<FlatNodeV>,
    src: Seq<u8>,
    fnk: Seq<Seq<char>>,
    nmk: Seq<Seq<char>>,
    hook: Option<NameHook>,
) -> Seq<CallInfoV>
    decreases caps.len(),
{
    if caps.len() == 0 {
        Seq::empty()
    } else {
        (match spec_call_at(caps[0], nodes, src, fnk, nmk, hook) {
            Some(c) => seq![c],
            None => Seq::empty(),
        }) + spec_calls(caps.drop_first(), nodes, src, fnk, nmk, hook)
    }
}

pub open spec fn spec_apply_receiver_method_hook(
    hook: Option<ReceiverMethodHook>,
    nodes: Seq<FlatNodeV>,
    src: Seq<u8>,
    node: int,
) -> Option<Seq<char>> {
    match hook {
        Some(ReceiverMethodHook::RustReceiverMethod) => languages::rust::spec_find_method_for_receiver(
            nodes,
            src,
            node,
        ),
        Some(ReceiverMethodHook::GoReceiverMethod) => languages::go::spec_find_method_for_receiver(
            nodes,
            src,
            node,
        ),
        Some(ReceiverMethodHook::RubyReceiverMethod) => languages::ruby::spec_find_method_for_receiver(
            nodes,
            src,
            node,
        ),
        None => None,
    }
}

pub open spec fn spec_apply_receiver_type_hook(
    hook: Option<ReceiverTypeHook>,
    nodes: Seq<FlatNodeV>,
    src: Seq<u8>,
    node: int,
) -> Option<Seq<char>> {
    match hook {
        Some(ReceiverTypeHook::RustReceiverType) => languages::rust::spec_find_receiver_type(
            nodes,
            src,
            node,
        ),
        None => None,
    }
}

/// What one reference-query capture records: a method receiver becomes a
/// method-definition reference owned by its resolved (or captured) type;
/// the other capture names map to their reference kinds.
pub open spec fn spec_ref_at(
    c: RawCaptureV,
    nodes: Seq<FlatNodeV>,
    src: Seq<u8>,
    mhook: Option<ReceiverMethodHook>,
    thook: Option<ReceiverTypeHook>,
) -> Option<ReferenceInfoV> {
    match spec_text_at(src, c.start_byte, c.end_byte) {
        None => None,
        Some(t) => {
            let line = spec_sat_inc(c.row);
            let ctx = spec_context(src, c.start_byte, c.end_byte);
            if c.name == "method.receiver"@ {
                let mname = match spec_node_by_id(nodes, c.node_id, 0) {
                    Some(n) => spec_apply_receiver_method_hook(mhook, nodes, src, n),
                    None => None,
                };
                match mname {
                    Some(m) => {
                        let tname = match spec_node_by_id(nodes, c.node_id, 0) {
                            Some(n) => match spec_apply_receiver_type_hook(thook, nodes, src, n) {
                                Some(tn) => tn,
                                None => t,
                            },
                            None => t,
                        };
                        Some(
                            ReferenceInfoV {
                                symbol: m,
                                ref_type: ReferenceType::MethodDefinition,
                                line: line,
                                context: ctx,
                                associated_type: Some(tname),
                            },
                        )
                    },
                    None => None,
                }
            } else if c.name == "struct.literal"@ {
                Some(
                    ReferenceInfoV {
                        symbol: t,
                        ref_type: ReferenceType::TypeInstantiation,
                        line: line,
                        context: ctx,
                        associated_type: None,
                    },
                )
            } else if c.name == "field.type"@ {
                Some(
                    ReferenceInfoV {
                        symbol: t,
                        ref_type: ReferenceType::FieldType,
                        line: line,
                        context: ctx,
                        associated_type: None,
                    },
                )
            } else if c.name == "param.type"@ {
                Some(
                    ReferenceInfoV {
                        symbol: t,
                        ref_type: ReferenceType::ParameterType,
                        line: line,
                        context: ctx,
                        associated_type: None,
                    },
                )
            } else if c.name == "var.type"@ || c.name == "shortvar.type"@ {
                Some(
                    ReferenceInfoV {
                        symbol: t,
                        ref_type: ReferenceType::VariableType,
                        line: line,
                        context: ctx,
                        associated_type: None,
                    },
                )
            } else if c.name == "type.assertion"@ || c.name == "type.conversion"@ {
                Some(
                    ReferenceInfoV {
                        symbol: t,
                        ref_type: ReferenceType::Call,
                        line: line,
                        context: ctx,
                        associated_type: None,
                    },
                )
            } else {
                None
            }
        },
    }
}

pub open spec fn spec_refs(
    caps: Seq<RawCaptureV>,
    nodes: Seq<FlatNodeV>,
    src: Seq<u8>,
    mhook: Option<ReceiverMethodHook>,
    thook: Option<ReceiverTypeHook>,
) -> Seq<ReferenceInfoV>
    decreases caps.len(),
{
    if caps.len() == 0 {
        Seq::empty()
    } else {
        (match spec_ref_at(caps[0], nodes, src, mhook, thook) {
            Some(r) => seq![r],
            None => Seq::empty(),
        }) + spec_refs(caps.drop_first(), nodes, src, mhook, thook)
    }
}

/// The reference a call fact is mirrored as.
pub open spec fn call_as_ref_item() -> spec_fn(CallInfoV) -> ReferenceInfoV {
    |c: CallInfoV|
        ReferenceInfoV {
            symbol: c.callee_name,
            ref_type: ReferenceType::Call,
            line: c.line,
            context: c.context,
            associated_type: None,
        }
}

impl ElementExtractor {
    /// First decoded text among the direct children of `node` whose kind is
    /// one of `kinds`.
    fn extract_text_from_child(
        nodes: &Vec<FlatNode>,
        source: &Vec<u8>,
        node: usize,
        kinds: &Vec<String>,
    ) -> (r: Option<String>)
        ensures
            opt_view(r) == spec_text_from_child(
                flat_views(nodes@),
                source@,
                node as int,
                kinds.deep_view(),
            ),
    {
        match child_with_kind_in(nodes, node, kinds) {
            Some(c) => {
                proof {
                    assert(flat_views(nodes@)[c as int] == nodes@[c as int]@);
                }
                let nd = &nodes[c];
                text_of(source, nd.start_byte, nd.end_byte)
            },
            None => None,
        }
    }

    fn apply_name_hook(
        hook: Option<NameHook>,
        nodes: &Vec<FlatNode>,
        source: &Vec<u8>,
        p: usize,
        kind: &str,
    ) -> (r: Option<String>)
        ensures
            opt_view(r) == spec_apply_name_hook(hook, flat_views(nodes@), source@, p as int, kind@),
    {
        match hook {
            Some(NameHook::RustImplName) => languages::rust::extract_function_name_for_kind(
                nodes,
                source,
                p,
                kind,
            ),
            Some(NameHook::SwiftDeclarationName) => languages::swift::extract_function_name_for_kind(
                nodes,
                source,
                p,
                kind,
            ),
            None => None,
        }
    }

    fn apply_receiver_method_hook(
        hook: Option<ReceiverMethodHook>,
        nodes: &Vec<FlatNode>,
        source: &Vec<u8>,
        node: usize,
        ast_recursion_limit: Option<usize>,
    ) -> (r: Option<String>)
        requires
            flat_wf(flat_views(nodes@)),
        ensures
            opt_view(r) == spec_apply_receiver_method_hook(
                hook,
                flat_views(nodes@),
                source@,
                node as int,
            ),
    {
        match hook {
            Some(ReceiverMethodHook::RustReceiverMethod) => languages::rust::find_method_for_receiver(
                nodes,
                source,
                node,
                ast_recursion_limit,
            ),
            Some(ReceiverMethodHook::GoReceiverMethod) => languages::go::find_method_for_receiver(
                nodes,
                source,
                node,
                ast_recursion_limit,
            ),
            Some(ReceiverMethodHook::RubyReceiverMethod) => languages::ruby::find_method_for_receiver(
                nodes,
                source,
                node,
                ast_recursion_limit,
            ),
            None => None,
        }
    }

    fn apply_receiver_type_hook(
        hook: Option<ReceiverTypeHook>,
        nodes: &Vec<FlatNode>,
        source: &Vec<u8>,
        node: usize,
    ) -> (r: Option<String>)
        requires
            flat_wf(flat_views(nodes@)),
        ensures
            opt_view(r) == spec_apply_receiver_type_hook(
                hook,
                flat_views(nodes@),
                source@,
                node as int,
            ),
    {
        match hook {
            Some(ReceiverTypeHook::RustReceiverType) => languages::rust::find_receiver_type(
                nodes,
                source,
                node,
            ),
            None => None,
        }
    }

    /// The name of the function lexically enclosing `node`, per the
    /// language's scope kinds and hooks; nothing means module scope.
    #[verifier::loop_isolation(false)]
    pub fn find_containing_function(
        nodes: &Vec<FlatNode>,
        source: &Vec<u8>,
        node: usize,
        info: &LanguageInfo,
    ) -> (r: Option<String>)
        requires
            flat_wf(flat_views(nodes@)),
        ensures
            opt_view(r) == spec_containing_function(
                flat_views(nodes@),
                source@,
                node as int,
                info.function_node_kinds.deep_view(),
                info.function_name_kinds.deep_view(),
                info.extract_function_name_handler,
            ),
    {
        let ghost fnk = info.function_node_kinds.deep_view();
        let ghost nmk = info.function_name_kinds.deep_view();
        let ghost hook = info.extract_function_name_handler;
        if node == 0 || node >= nodes.len() {
            return None;
        }
        let mut cur: usize = node;
        loop
            invariant
                0 < cur < nodes@.len(),
                spec_containing_function(flat_views(nodes@), source@, node as int, fnk, nmk, hook)
                    == spec_containing_function(
                    flat_views(nodes@),
                    source@,
                    cur as int,
                    fnk,
                    nmk,
                    hook,
                ),
            decreases cur,
        {
            proof {
                assert(flat_views(nodes@)[cur as int] == nodes@[cur as int]@);
            }
            let p = nodes[cur].parent;
            proof {
                assert(flat_views(nodes@)[p as int] == nodes@[p as int]@);
            }
            if crate::analyze::sitter::kinds_contain(
                &info.function_node_kinds,
                nodes[p].kind.as_str(),
            ) {
                match Self::apply_name_hook(
                    info.extract_function_name_handler,
                    nodes,
                    source,
                    p,
                    nodes[p].kind.as_str(),
                ) {
                    Some(nm) => {
                        return Some(nm);
                    },
                    None => {},
                }
                match Self::extract_text_from_child(
                    nodes,
                    source,
                    p,
                    &info.function_name_kinds,
                ) {
                    Some(nm) => {
                        return Some(nm);
                    },
                    None => {},
                }
            }
            if p == 0 {
                proof {
                    assert(spec_containing_function(
                        flat_views(nodes@),
                        source@,
                        0,
                        fnk,
                        nmk,
                        hook,
                    ) is None);
                }
                return None;
            }
            cur = p;
        }
    }

    /// Turn the call query's captures into call facts: one per call-shaped
    /// capture whose text decodes, attributed to its enclosing function.
    #[verifier::loop_isolation(false)]
    pub fn calls_from_captures(
        captures: &Vec<RawCapture>,
        nodes: &Vec<FlatNode>,
        source: &Vec<u8>,
        info: &LanguageInfo,
    ) -> (r: Vec<CallInfo>)
        requires
            flat_wf(flat_views(nodes@)),
        ensures
            calls_view(r@) == spec_calls(
                capture_views(captures@),
                flat_views(nodes@),
                source@,
                info.function_node_kinds.deep_view(),
                info.function_name_kinds.deep_view(),
                info.extract_function_name_handler,
            ),
    {
        let ghost cv = capture_views(captures@);
        let ghost nv = flat_views(nodes@);
        let ghost fnk = info.function_node_kinds.deep_view();
        let ghost nmk = info.function_name_kinds.deep_view();
        let ghost hook = info.extract_function_name_handler;
        let ghost target = spec_calls(cv, nv, source@, fnk, nmk, hook);
        let mut calls: Vec<CallInfo> = Vec::new();
        proof {
            assert(calls_view(calls@) =~= Seq::<CallInfoV>::empty());
            assert(cv.skip(0) =~= cv);
        }
        let n = captures.len();
        let mut i: usize = 0;
        while i < n
            invariant
                i <= n,
                target == calls_view(calls@) + spec_calls(
                    cv.skip(i as int),
                    nv,
                    source@,
                    fnk,
                    nmk,
                    hook,
                ),
            decreases n - i,
        {
            let c = &captures[i];
            let ghost cvi: RawCaptureV = cv[i as int];
            proof {
                assert(cvi == captures@[i as int]@);
                assert(cv.skip(i as int)[0] == cvi);
                assert(cv.skip(i as int).drop_first() =~= cv.skip(i as int + 1));
            }
            let ghost calls0 = calls@;
            let nm = &c.name;
            let is_call = str_eq(nm.as_str(), "function.call") || str_eq(nm.as_str(), "method.call")
                || str_eq(nm.as_str(), "scoped.call") || str_eq(nm.as_str(), "macro.call")
                || str_eq(nm.as_str(), "constructor.call") || str_eq(
                nm.as_str(),
                "identifier.reference",
            );
            if is_call {
                match text_of(source, c.start_byte, c.end_byte) {
                    Some(t) => {
                        let caller_name = match node_by_id(nodes, c.node_id) {
                            Some(nidx) => Self::find_containing_function(
                                nodes,
                                source,
                                nidx,
                                info,
                            ),
                            None => None,
                        };
                        let context = context_of(source, c.start_byte, c.end_byte);
                        let line = sat_inc(c.row);
                        let ghost tv = t@;
                        calls.push(
                            CallInfo {
                                caller_name,
                                callee_name: t,
                                line,
                                column: c.column,
                                context,
                            },
                        );
                        proof {
                            let callv = spec_call_at(cvi, nv, source@, fnk, nmk, hook)->Some_0;
                            assert(calls@.last()@ =~~= callv);
                            assert(calls_view(calls@) =~= calls_view(calls0).push(callv));
                            assert(calls_view(calls0) + (seq![callv] + spec_calls(
                                cv.skip(i as int + 1),
                                nv,
                                source@,
                                fnk,
                                nmk,
                                hook,
                            )) =~= calls_view(calls0).push(callv) + spec_calls(
                                cv.skip(i as int + 1),
                                nv,
                                source@,
                                fnk,
                                nmk,
                                hook,
                            ));
                        }
                    },
                    None => {},
                }
            }
            i = i + 1;
        }
        proof {
            assert(cv.skip(n as int) =~= Seq::<RawCaptureV>::empty());
        }
        calls
    }

    /// Turn the reference query's captures into reference facts.
    #[verifier::loop_isolation(false)]
    pub fn references_from_captures(
        captures: &Vec<RawCapture>,
        nodes: &Vec<FlatNode>,
        source: &Vec<u8>,
        info: &LanguageInfo,
        ast_recursion_limit: Option<usize>,
    ) -> (r: Vec<ReferenceInfo>)
        requires
            flat_wf(flat_views(nodes@)),
        ensures
            refs_view(r@) == spec_refs(
                capture_views(captures@),
                flat_views(nodes@),
                source@,
                info.find_method_for_receiver_handler,
                info.find_receiver_type_handler,
            ),
    {
        let ghost cv = capture_views(captures@);
        let ghost nv = flat_views(nodes@);
        let ghost mhook = info.find_method_for_receiver_handler;
        let ghost thook = info.find_receiver_type_handler;
        let ghost target = spec_refs(cv, nv, source@, mhook, thook);
        let mut refs: Vec<ReferenceInfo> = Vec::new();
        proof {
            assert(refs_view(refs@) =~= Seq::<ReferenceInfoV>::empty());
            assert(cv.skip(0) =~= cv);
        }
        let n = captures.len();
        let mut i: usize = 0;
        while i < n
            invariant
                i <= n,
                target == refs_view(refs@) + spec_refs(cv.skip(i as int), nv, source@, mhook, thook),
            decreases n - i,
        {
            let c = &captures[i];
            let ghost cvi: RawCaptureV = cv[i as int];
            proof {
                assert(cvi == captures@[i as int]@);
                assert(cv.skip(i as int)[0] == cvi);
                assert(cv.skip(i as int).drop_first() =~= cv.skip(i as int + 1));
            }
            let ghost refs0 = refs@;
            match text_of(source, c.start_byte, c.end_byte) {
                Some(t) => {
                    let line = sat_inc(c.row);
                    let context = context_of(source, c.start_byte, c.end_byte);
                    let nm = &c.name;
                    let mut pushed: Option<ReferenceInfo> = None;
                    if str_eq(nm.as_str(), "method.receiver") {
                        let method_name = match node_by_id(nodes, c.node_id) {
                            Some(nidx) => Self::apply_receiver_method_hook(
                                info.find_method_for_receiver_handler,
                                nodes,
                                source,
                                nidx,
                                ast_recursion_limit,
                            ),
                            None => None,
                        };
                        match method_name {
                            Some(m) => {
                                let owner_type = match node_by_id(nodes, c.node_id) {
                                    Some(nidx) => match Self::apply_receiver_type_hook(
                                        info.find_receiver_type_handler,
                                        nodes,
                                        source,
                                        nidx,
                                    ) {
                                        Some(tn) => tn,
                                        None => t,
                                    },
                                    None => t,
                                };
                                pushed = Some(
                                    ReferenceInfo {
                                        symbol: m,
                                        ref_type: ReferenceType::MethodDefinition,
                                        line,
                                        context,
                                        associated_type: Some(owner_type),
                                    },
                                );
                            },
                            None => {},
                        }
                    } else if str_eq(nm.as_str(), "struct.literal") {
                        pushed = Some(
                            ReferenceInfo {
                                symbol: t,
                                ref_type: ReferenceType::TypeInstantiation,
                                line,
                                context,
                                associated_type: None,
                            },
                        );
                    } else if str_eq(nm.as_str(), "field.type") {
                        pushed = Some(
                            ReferenceInfo {
                                symbol: t,
                                ref_type: ReferenceType::FieldType,
                                line,
                                context,
                                associated_type: None,
                            },
                        );
                    } else if str_eq(nm.as_str(), "param.type") {
                        pushed = Some(
                            ReferenceInfo {
                                symbol: t,
                                ref_type: ReferenceType::ParameterType,
                                line,
                                context,
                                associated_type: None,
                            },
                        );
                    } else if str_eq(nm.as_str(), "var.type") || str_eq(
                        nm.as_str(),
                        "shortvar.type",
                    ) {
                        pushed = Some(
                            ReferenceInfo {
                                symbol: t,
                                ref_type: ReferenceType::VariableType,
                                line,
                                context,
                                associated_type: None,
                            },
                        );
                    } else if str_eq(nm.as_str(), "type.assertion") || str_eq(
                        nm.as_str(),
                        "type.conversion",
                    ) {
                        pushed = Some(
                            ReferenceInfo {
                                symbol: t,
                                ref_type: ReferenceType::Call,
                                line,
                                context,
                                associated_type: None,
                            },
                        );
                    }
                    match pushed {
                        Some(rf) => {
                            refs.push(rf);
                            proof {
                                let refv = spec_ref_at(cvi, nv, source@, mhook, thook)->Some_0;
                                assert(refs@.last()@ =~~= refv);
                                assert(refs_view(refs@) =~= refs_view(refs0).push(refv));
                                assert(refs_view(refs0) + (seq![refv] + spec_refs(
                                    cv.skip(i as int + 1),
                                    nv,
                                    source@,
                                    mhook,
                                    thook,
                                )) =~= refs_view(refs0).push(refv) + spec_refs(
                                    cv.skip(i as int + 1),
                                    nv,
                                    source@,
                                    mhook,
                                    thook,
                                ));
                            }
                        },
                        None => {
                            proof {
                                assert(spec_ref_at(cvi, nv, source@, mhook, thook) is None);
                            }
                        },
                    }
                },
                None => {},
            }
            i = i + 1;
        }
        proof {
            assert(cv.skip(n as int) =~= Seq::<RawCaptureV>::empty());
        }
        refs
    }

    /// Call facts for one tree, or nothing for a language without a call
    /// query.
    fn extract_calls(tree: &tree_sitter::Tree, source: &Vec<u8>, language: &str) -> (r: Result<
        Vec<CallInfo>,
        AnalysisError,
    >)
        requires
            source@.len() < usize::MAX,
        ensures
            (match r {
                Ok(cs) => !languages::supported_language(language@) ==> cs@.len() == 0,
                Err(e) => languages::supported_language(language@) && (
                e matches AnalysisError::MalformedQuery(_)),
            }),
    {
        let info = match languages::get_language_info(language) {
            Some(i) => i,
            None => {
                return Ok(Vec::new());
            },
        };
        if info.call_query.is_empty() {
            return Ok(Vec::new());
        }
        let caps = match Self::run_query(tree, source, info.call_query, "call query") {
            Ok(c) => c,
            Err(e) => {
                return Err(e);
            },
        };
        let nodes = flatten_tree(tree);
        Ok(Self::calls_from_captures(&caps, &nodes, source, &info))
    }

    /// Reference facts for one tree, or nothing for a language without a
    /// reference query.
    fn extract_references(
        tree: &tree_sitter::Tree,
        source: &Vec<u8>,
        language: &str,
        ast_recursion_limit: Option<usize>,
    ) -> (r: Result<Vec<ReferenceInfo>, AnalysisError>)
        requires
            source@.len() < usize::MAX,
        ensures
            (match r {
                Ok(rs) => !languages::supported_language(language@) ==> rs@.len() == 0,
                Err(e) => languages::supported_language(language@) && (
                e matches AnalysisError::MalformedQuery(_)),
            }),
    {
        let info = match languages::get_language_info(language) {
            Some(i) => i,
            None => {
                return Ok(Vec::new());
            },
        };
        if info.reference_query.is_empty() {
            return Ok(Vec::new());
        }
        let caps = match Self::run_query(tree, source, info.reference_query, "reference query") {
            Ok(c) => c,
            Err(e) => {
                return Err(e);
            },
        };
        let nodes = flatten_tree(tree);
        Ok(
            Self::references_from_captures(
                &caps,
                &nodes,
                source,
                &info,
                ast_recursion_limit,
            ),
        )
    }

    /// Assemble one mode's fact record from already-run query results.
    /// The counts and the main line always come from the element captures,
    /// so structure mode reports accurate counts over cleared detail
    /// lists; semantic mode keeps the lists and adds the given call facts,
    /// each mirrored as a reference of kind Call, followed by the
    /// language's reference facts.
    #[verifier::loop_isolation(false)]
    pub fn assemble_with_depth(
        element_caps: &Vec<RawCapture>,
        calls: Vec<CallInfo>,
        lang_refs: Vec<ReferenceInfo>,
        source: &Vec<u8>,
        depth: &str,
    ) -> (r: AnalysisResult)
        requires
            source@.len() < usize::MAX,
        ensures
            ({
                let s = spec_elements(capture_views(element_caps@), source@);
                &&& r@.function_count == s.0.len()
                &&& r@.class_count == s.1.len()
                &&& r@.import_count == s.2.len()
                &&& r@.main_line == spec_first_main_line(s.0)
                &&& r@.line_count == 0
                &&& (depth@ == "structure"@ ==> r@.functions.len() == 0 && r@.classes.len() == 0
                    && r@.imports.len() == 0 && r@.calls.len() == 0 && r@.references.len() == 0)
                &&& (depth@ != "structure"@ ==> r@.functions == s.0 && r@.classes == s.1
                    && r@.imports == s.2)
                &&& (depth@ == "semantic"@ ==> r@.calls == calls_view(calls@) && r@.references
                    == calls_view(calls@).map_values(call_as_ref_item()) + refs_view(lang_refs@))
                &&& (depth@ != "semantic"@ ==> r@.calls.len() == 0 && r@.references.len() == 0)
            }),
    {
        proof {
            reveal_strlit("structure");
            reveal_strlit("semantic");
            assert("structure"@.len() == 9);
            assert("semantic"@.len() == 8);
        }
        let (functions, classes, imports) = Self::elements_from_captures(element_caps, source);
        let main_line = Self::first_main_line(&functions);
        let function_count = functions.len();
        let class_count = classes.len();
        let import_count = imports.len();
        let mut result = AnalysisResult {
            functions,
            classes,
            imports,
            calls: vec![],
            references: vec![],
            function_count,
            class_count,
            line_count: 0,
            import_count,
            main_line,
        };
        proof {
            assert(result@.calls =~= Seq::<CallInfoV>::empty());
            assert(result@.references =~= Seq::<ReferenceInfoV>::empty());
        }
        if str_eq(depth, "structure") {
            result.functions = Vec::new();
            result.classes = Vec::new();
            result.imports = Vec::new();
            proof {
                assert(result@.functions =~= Seq::<FunctionInfoV>::empty());
                assert(result@.classes =~= Seq::<ClassInfoV>::empty());
                assert(result@.imports =~= Seq::<Seq<char>>::empty());
            }
        } else if str_eq(depth, "semantic") {
            let ghost cv = calls_view(calls@);
            result.calls = calls;
            let mut references: Vec<ReferenceInfo> = Vec::new();
            proof {
                assert(refs_view(references@) =~= cv.take(0).map_values(call_as_ref_item()));
            }
            let ncalls = result.calls.len();
            let mut k: usize = 0;
            while k < ncalls
                invariant
                    k <= ncalls,
                    ncalls == result.calls@.len(),
                    calls_view(result.calls@) == cv,
                    refs_view(references@) == cv.take(k as int).map_values(call_as_ref_item()),
                decreases ncalls - k,
            {
                let call = &result.calls[k];
                let ghost refs0 = references@;
                references.push(
                    ReferenceInfo {
                        symbol: call.callee_name.clone(),
                        ref_type: ReferenceType::Call,
                        line: call.line,
                        context: call.context.clone(),
                        associated_type: None,
                    },
                );
                proof {
                    assert(cv[k as int] == result.calls@[k as int]@);
                    assert(references@.last()@ =~~= call_as_ref_item()(cv[k as int]));
                    assert forall|j: int| 0 <= j < k + 1 implies refs_view(references@)[j]
                        == cv.take(k as int + 1).map_values(call_as_ref_item())[j] by {
                        assert(refs_view(references@)[j] == references@[j]@);
                        if j < k {
                            assert(references@[j] == refs0[j]);
                            assert(refs_view(refs0)[j] == refs0[j]@);
                            assert(cv.take(k as int)[j] == cv.take(k as int + 1)[j]);
                        }
                    }
                    assert(refs_view(references@) =~= cv.take(k as int + 1).map_values(
                        call_as_ref_item(),
                    ));
                }
                k = k + 1;
            }
            let ghost lrv = lang_refs@;
            let mut more = lang_refs;
            let ghost refs_pre = references@;
            references.append(&mut more);
            proof {
                assert(cv.take(ncalls as int) =~= cv);
                assert forall|j: int| 0 <= j < references@.len() implies refs_view(references@)[j]
                    == (cv.map_values(call_as_ref_item()) + refs_view(lrv))[j] by {
                    assert(refs_view(references@)[j] == references@[j]@);
                    if j < ncalls {
                        assert(references@[j] == refs_pre[j]);
                        assert(refs_view(refs_pre)[j] == refs_pre[j]@);
                    } else {
                        assert(references@[j] == lrv[j - ncalls]);
                        assert(refs_view(lrv)[j - ncalls] == lrv[j - ncalls]@);
                    }
                }
                assert(refs_view(references@) =~= cv.map_values(call_as_ref_item()) + refs_view(
                    lrv,
                ));
            }
            result.references = references;
        }
        result
    }

    /// Mode-aware extraction. Structure mode keeps the counts and clears
    /// the detail lists; semantic mode adds call facts, mirrors each call
    /// as a reference of kind Call, and appends the language's type
    /// references when it defines a reference query.
    #[verifier::loop_isolation(false)]
    pub fn extract_with_depth(
        tree: &tree_sitter::Tree,
        source: &Vec<u8>,
        language: &str,
        depth: &str,
        ast_recursion_limit: Option<usize>,
    ) -> (r: Result<AnalysisResult, AnalysisError>)
        requires
            source@.len() < usize::MAX,
        ensures
            (match r {
                Ok(res) => {
                    &&& res@.line_count == 0
                    &&& depth@ == "structure"@ ==> res@.functions.len() == 0 && res@.classes.len()
                        == 0 && res@.imports.len() == 0 && res@.calls.len() == 0
                        && res@.references.len() == 0
                    &&& depth@ != "structure"@ ==> res@.function_count == res@.functions.len()
                        && res@.class_count == res@.classes.len() && res@.import_count
                        == res@.imports.len() && res@.main_line == spec_first_main_line(
                        res@.functions,
                    )
                    &&& depth@ != "structure"@ && depth@ != "semantic"@ ==> res@.calls.len() == 0
                        && res@.references.len() == 0
                    &&& depth@ == "semantic"@ ==> res@.references.len() >= res@.calls.len() && (
                    forall|j: int|
                        0 <= j < res@.calls.len() ==> res@.references[j] == call_as_ref_item()(
                            #[trigger] res@.calls[j],
                        ))
                    &&& !languages::supported_language(language@) ==> res@ =~~= empty_result_view(
                        0,
                    )
                },
                Err(e) => languages::supported_language(language@) && (
                e matches AnalysisError::MalformedQuery(_)),
            }),
    {
        let info = match languages::get_language_info(language) {
            Some(i) => i,
            None => {
                return Ok(Self::empty_analysis_result());
            },
        };
        let element_caps = match Self::run_query(tree, source, info.element_query, "query") {
            Ok(c) => c,
            Err(e) => {
                return Err(e);
            },
        };
        let mut calls: Vec<CallInfo> = Vec::new();
        let mut lang_refs: Vec<ReferenceInfo> = Vec::new();
        if str_eq(depth, "semantic") {
            calls = match Self::extract_calls(tree, source, language) {
                Ok(c) => c,
                Err(e) => {
                    return Err(e);
                },
            };
            if !info.reference_query.is_empty() {
                lang_refs = match Self::extract_references(
                    tree,
                    source,
                    language,
                    ast_recursion_limit,
                ) {
                    Ok(rs) => rs,
                    Err(e) => {
                        return Err(e);
                    },
                };
            }
        }
        let result = Self::assemble_with_depth(&element_caps, calls, lang_refs, source, depth);
        proof {
            if depth@ == "semantic"@ {
                assert forall|j: int| 0 <= j < result@.calls.len() implies result@.references[j]
                    == call_as_ref_item()(#[trigger] result@.calls[j]) by {}
            }
        }
        Ok(result)
    }
}

} // verus!
