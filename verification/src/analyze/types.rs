//! The uniform fact schema: what analyzing one file at one mode produces.

use vstd::prelude::*;

verus! {

/// Facts extracted from one file: definitions, imports, calls, type
/// references, derived counts, and the line of a `main` entry point.
#[derive(Debug, Clone)]
pub struct AnalysisResult {
    pub functions: Vec<FunctionInfo>,
    pub classes: Vec<ClassInfo>,
    pub imports: Vec<String>,
    pub calls: Vec<CallInfo>,
    pub references: Vec<ReferenceInfo>,
    pub function_count: usize,
    pub class_count: usize,
    pub line_count: usize,
    pub import_count: usize,
    pub main_line: Option<usize>,
}

#[derive(Debug, Clone)]
pub struct FunctionInfo {
    pub name: String,
    pub line: usize,
    pub params: Vec<String>,
}

#[derive(Debug, Clone)]
pub struct ClassInfo {
    pub name: String,
    pub line: usize,
    pub methods: Vec<FunctionInfo>,
}

/// One call expression: who makes it (if a lexically enclosing function was
/// found), what is called, and where.
#[derive(Debug, Clone)]
pub struct CallInfo {
    pub caller_name: Option<String>,
    pub callee_name: String,
    pub line: usize,
    pub column: usize,
    pub context: String,
}

#[derive(Debug, Clone)]
pub struct ReferenceInfo {
    pub symbol: String,
    pub ref_type: ReferenceType,
    pub line: usize,
    pub context: String,
    pub associated_type: Option<String>,
}

/// The closed set of reference kinds the extractor can record.
#[derive(Debug, Clone, PartialEq, Eq, Structural)]
pub enum ReferenceType {
    Definition,
    MethodDefinition,
    Call,
    TypeInstantiation,
    FieldType,
    VariableType,
    ParameterType,
    Import,
}

#[derive(Debug, Clone)]
pub enum EntryType {
    File(AnalysisResult),
}

pub type ElementQueryResult = (Vec<FunctionInfo>, Vec<ClassInfo>, Vec<String>);

/// One discovered path through the call graph: hops of
/// (file, line, from-symbol, to-symbol).
#[derive(Debug, Clone)]
pub struct CallChain {
    pub path: Vec<(String, usize, String, String)>,
}

/// The answer to one focused-analysis request. `facts` carries the views
/// of the per-file records the call graph was aggregated from, so the
/// contract can tie the definitions and chains to them; it takes no space
/// at run time.
#[derive(Clone)]
pub struct FocusedAnalysisData {
    pub focus_symbol: String,
    pub follow_depth: u32,
    pub files_analyzed: Vec<String>,
    pub definitions: Vec<(String, usize)>,
    pub incoming_chains: Vec<CallChain>,
    pub outgoing_chains: Vec<CallChain>,
    pub facts: Ghost<Seq<(Seq<char>, AnalysisResultV)>>,
}

/// Why an analysis failed. Unsupported languages and unreadable or
/// undecodable content are not failures: they degrade to empty facts.
#[derive(Debug, Clone)]
pub enum AnalysisError {
    /// No grammar ships for this language identifier.
    UnsupportedLanguage(String),
    /// The grammar refused the parser (library version mismatch).
    ParserInit(String),
    /// The parser produced no tree for this content.
    ParseFailed(String),
    /// A built-in query failed to compile: an internal defect, surfaced
    /// immediately and never swallowed. Holds which query category failed
    /// and the compiler's words.
    MalformedQuery(String),
}

/// Analysis modes
#[derive(Debug, Clone, Copy, PartialEq, Eq, Hash, Structural)]
pub enum AnalysisMode {
    Structure,
    Semantic,
    Focused,
}

// Mathematical views of the fact schema, used by every contract below.

pub ghost struct FunctionInfoV {
    pub name: Seq<char>,
    pub line: int,
    pub params: Seq<Seq<char>>,
}

pub ghost struct ClassInfoV {
    pub name: Seq<char>,
    pub line: int,
    pub methods: Seq<FunctionInfoV>,
}

pub ghost struct CallInfoV {
    pub caller_name: Option<Seq<char>>,
    pub callee_name: Seq<char>,
    pub line: int,
    pub column: int,
    pub context: Seq<char>,
}

pub ghost struct ReferenceInfoV {
    pub symbol: Seq<char>,
    pub ref_type: ReferenceType,
    pub line: int,
    pub context: Seq<char>,
    pub associated_type: Option<Seq<char>>,
}

pub ghost struct AnalysisResultV {
    pub functions: Seq<FunctionInfoV>,
    pub classes: Seq<ClassInfoV>,
    pub imports: Seq<Seq<char>>,
    pub calls: Seq<CallInfoV>,
    pub references: Seq<ReferenceInfoV>,
    pub function_count: int,
    pub class_count: int,
    pub line_count: int,
    pub import_count: int,
    pub main_line: Option<int>,
}

pub open spec fn opt_view(o: Option<String>) -> Option<Seq<char>> {
    match o {
        Some(s) => Some(s@),
        None => None,
    }
}

pub open spec fn opt_usize_view(o: Option<usize>) -> Option<int> {
    match o {
        Some(n) => Some(n as int),
        None => None,
    }
}

pub open spec fn func_view_item() -> spec_fn(FunctionInfo) -> FunctionInfoV {
    |f: FunctionInfo| f@
}

pub open spec fn class_view_item() -> spec_fn(ClassInfo) -> ClassInfoV {
    |c: ClassInfo| c@
}

pub open spec fn call_view_item() -> spec_fn(CallInfo) -> CallInfoV {
    |c: CallInfo| c@
}

pub open spec fn ref_view_item() -> spec_fn(ReferenceInfo) -> ReferenceInfoV {
    |r: ReferenceInfo| r@
}

pub open spec fn funcs_view(s: Seq<FunctionInfo>) -> Seq<FunctionInfoV> {
    s.map_values(func_view_item())
}

pub open spec fn classes_view(s: Seq<ClassInfo>) -> Seq<ClassInfoV> {
    s.map_values(class_view_item())
}

pub open spec fn calls_view(s: Seq<CallInfo>) -> Seq<CallInfoV> {
    s.map_values(call_view_item())
}

pub open spec fn refs_view(s: Seq<ReferenceInfo>) -> Seq<ReferenceInfoV> {
    s.map_values(ref_view_item())
}

impl View for FunctionInfo {
    type V = FunctionInfoV;

    open spec fn view(&self) -> FunctionInfoV {
        FunctionInfoV {
            name: self.name@,
            line: self.line as int,
            params: self.params.deep_view(),
        }
    }
}

impl View for ClassInfo {
    type V = ClassInfoV;

    open spec fn view(&self) -> ClassInfoV {
        ClassInfoV {
            name: self.name@,
            line: self.line as int,
            methods: funcs_view(self.methods@),
        }
    }
}

impl View for CallInfo {
    type V = CallInfoV;

    open spec fn view(&self) -> CallInfoV {
        CallInfoV {
            caller_name: opt_view(self.caller_name),
            callee_name: self.callee_name@,
            line: self.line as int,
            column: self.column as int,
            context: self.context@,
        }
    }
}

impl View for ReferenceInfo {
    type V = ReferenceInfoV;

    open spec fn view(&self) -> ReferenceInfoV {
        ReferenceInfoV {
            symbol: self.symbol@,
            ref_type: self.ref_type,
            line: self.line as int,
            context: self.context@,
            associated_type: opt_view(self.associated_type),
        }
    }
}

impl View for AnalysisResult {
    type V = AnalysisResultV;

    open spec fn view(&self) -> AnalysisResultV {
        AnalysisResultV {
            functions: funcs_view(self.functions@),
            classes: classes_view(self.classes@),
            imports: self.imports.deep_view(),
            calls: calls_view(self.calls@),
            references: refs_view(self.references@),
            function_count: self.function_count as int,
            class_count: self.class_count as int,
            line_count: self.line_count as int,
            import_count: self.import_count as int,
            main_line: opt_usize_view(self.main_line),
        }
    }
}

/// One hop of a chain, at the view level.
pub ghost struct HopV {
    pub file: Seq<char>,
    pub line: int,
    pub from: Seq<char>,
    pub to: Seq<char>,
}

pub open spec fn hop_view(h: (String, usize, String, String)) -> HopV {
    HopV { file: h.0@, line: h.1 as int, from: h.2@, to: h.3@ }
}

pub open spec fn hop_view_item() -> spec_fn((String, usize, String, String)) -> HopV {
    |h: (String, usize, String, String)| hop_view(h)
}

pub open spec fn hops_view(path: Seq<(String, usize, String, String)>) -> Seq<HopV> {
    path.map_values(hop_view_item())
}

impl View for CallChain {
    type V = Seq<HopV>;

    open spec fn view(&self) -> Seq<HopV> {
        hops_view(self.path@)
    }
}

impl AnalysisMode {
    pub fn as_str(&self) -> (r: &'static str)
        ensures
            *self == AnalysisMode::Structure ==> r@ == "structure"@,
            *self == AnalysisMode::Semantic ==> r@ == "semantic"@,
            *self == AnalysisMode::Focused ==> r@ == "focused"@,
    {
        match self {
            AnalysisMode::Structure => "structure",
            AnalysisMode::Semantic => "semantic",
            AnalysisMode::Focused => "focused",
        }
    }
}

impl AnalysisError {
    /// The human-readable description of the failure.
    pub fn message(&self) -> (r: String)
        ensures
            (match self {
                AnalysisError::UnsupportedLanguage(l) => r@ == "Unsupported language: "@ + l@,
                AnalysisError::ParserInit(l) => r@ == "Failed to set language for "@ + l@,
                AnalysisError::ParseFailed(l) => r@ == "Failed to parse file as "@ + l@,
                AnalysisError::MalformedQuery(m) => r@ == "Failed to create "@ + m@,
            }),
    {
        match self {
            AnalysisError::UnsupportedLanguage(l) => String::from_str(
                "Unsupported language: ",
            ).concat(l.as_str()),
            AnalysisError::ParserInit(l) => String::from_str("Failed to set language for ").concat(
                l.as_str(),
            ),
            AnalysisError::ParseFailed(l) => String::from_str("Failed to parse file as ").concat(
                l.as_str(),
            ),
            AnalysisError::MalformedQuery(m) => String::from_str("Failed to create ").concat(
                m.as_str(),
            ),
        }
    }
}

/// The all-zero fact record every degraded extraction produces.
pub open spec fn empty_result_view(line_count: int) -> AnalysisResultV {
    AnalysisResultV {
        functions: Seq::empty(),
        classes: Seq::empty(),
        imports: Seq::empty(),
        calls: Seq::empty(),
        references: Seq::empty(),
        function_count: 0,
        class_count: 0,
        line_count: line_count,
        import_count: 0,
        main_line: None,
    }
}

impl AnalysisResult {
    pub fn empty(line_count: usize) -> (r: Self)
        ensures
            r@ =~~= empty_result_view(line_count as int),
    {
        let r = Self {
            functions: vec![],
            classes: vec![],
            imports: vec![],
            calls: vec![],
            references: vec![],
            function_count: 0,
            class_count: 0,
            line_count,
            import_count: 0,
            main_line: None,
        };
        proof {
            assert(r@.functions =~= Seq::<FunctionInfoV>::empty());
            assert(r@.classes =~= Seq::<ClassInfoV>::empty());
            assert(r@.imports =~= Seq::<Seq<char>>::empty());
            assert(r@.calls =~= Seq::<CallInfoV>::empty());
            assert(r@.references =~= Seq::<ReferenceInfoV>::empty());
        }
        r
    }
}

} // verus!
