use code_analyze::analyze::graph::CallGraph;
use code_analyze::analyze::types::{
    AnalysisResult, CallInfo, ClassInfo, FunctionInfo, ReferenceInfo, ReferenceType,
};

fn make_result(funcs: &[&str], calls: &[(&str, &str)]) -> AnalysisResult {
    let functions: Vec<FunctionInfo> = funcs
        .iter()
        .enumerate()
        .map(|(i, name)| FunctionInfo {
            name: name.to_string(),
            line: i + 1,
            params: vec![],
        })
        .collect();

    let call_infos: Vec<CallInfo> = calls
        .iter()
        .enumerate()
        .map(|(i, (caller, callee))| CallInfo {
            caller_name: Some(caller.to_string()),
            callee_name: callee.to_string(),
            line: i + 10,
            column: 0,
            context: String::new(),
        })
        .collect();

    AnalysisResult {
        function_count: functions.len(),
        class_count: 0,
        import_count: 0,
        line_count: 50,
        functions,
        classes: vec![],
        imports: vec![],
        calls: call_infos,
        references: vec![],
        main_line: None,
    }
}

#[test]
fn empty_graph() {
    let graph = CallGraph::new();
    assert!(graph.definitions.is_empty());
    assert!(graph.find_incoming_chains("x", 2).is_empty());
    assert!(graph.find_outgoing_chains("x", 2).is_empty());
}

#[test]
fn build_from_results_records_definitions() {
    let results = vec![("test.rs".to_string(), make_result(&["foo", "bar"], &[]))];
    let graph = CallGraph::build_from_results(&results);
    assert!(graph.has_definition("foo"));
    assert!(graph.has_definition("bar"));
    assert_eq!(graph.definitions_for("foo").len(), 1);
}

#[test]
fn build_from_results_records_calls() {
    let results = vec![(
        "test.rs".to_string(),
        make_result(&["main", "helper"], &[("main", "helper")]),
    )];
    let graph = CallGraph::build_from_results(&results);

    // main calls helper -> helper has incoming from main
    let incoming = graph.find_incoming_chains("helper", 1);
    assert!(
        !incoming.is_empty(),
        "expected incoming chains for 'helper'"
    );

    // main calls helper -> main has outgoing to helper
    let outgoing = graph.find_outgoing_chains("main", 1);
    assert!(!outgoing.is_empty(), "expected outgoing chains from 'main'");
}

#[test]
fn find_incoming_zero_depth() {
    let results = vec![(
        "test.rs".to_string(),
        make_result(&["a", "b"], &[("a", "b")]),
    )];
    let graph = CallGraph::build_from_results(&results);
    assert!(graph.find_incoming_chains("b", 0).is_empty());
}

#[test]
fn find_outgoing_zero_depth() {
    let results = vec![(
        "test.rs".to_string(),
        make_result(&["a", "b"], &[("a", "b")]),
    )];
    let graph = CallGraph::build_from_results(&results);
    assert!(graph.find_outgoing_chains("a", 0).is_empty());
}

#[test]
fn transitive_chains() {
    // a -> b -> c
    let results = vec![(
        "test.rs".to_string(),
        make_result(&["a", "b", "c"], &[("a", "b"), ("b", "c")]),
    )];
    let graph = CallGraph::build_from_results(&results);

    // At depth 2, c should see chain from a through b
    let incoming = graph.find_incoming_chains("c", 2);
    assert!(
        !incoming.is_empty(),
        "expected transitive incoming chains for 'c'"
    );
}

#[test]
fn classes_added_to_definitions() {
    let mut result = make_result(&[], &[]);
    result.classes.push(ClassInfo {
        name: "MyStruct".to_string(),
        line: 5,
        methods: vec![],
    });
    result.class_count = 1;
    let results = vec![("test.rs".to_string(), result)];
    let graph = CallGraph::build_from_results(&results);
    assert!(graph.has_definition("MyStruct"));
}

#[test]
fn depth_one_chains_are_exactly_the_direct_edges() {
    let results = vec![(
        "test.rs".to_string(),
        make_result(&["a", "b", "c"], &[("a", "c"), ("b", "c")]),
    )];
    let graph = CallGraph::build_from_results(&results);
    let incoming = graph.find_incoming_chains("c", 1);
    assert_eq!(incoming.len(), 2);
    assert_eq!(
        incoming[0].path,
        vec![("test.rs".to_string(), 10, "a".to_string(), "c".to_string())]
    );
    assert_eq!(
        incoming[1].path,
        vec![("test.rs".to_string(), 11, "b".to_string(), "c".to_string())]
    );
}

#[test]
fn transitive_chain_lists_both_hops_in_order() {
    let results = vec![(
        "test.rs".to_string(),
        make_result(&["a", "b", "c"], &[("a", "b"), ("b", "c")]),
    )];
    let graph = CallGraph::build_from_results(&results);

    let at_one = graph.find_incoming_chains("c", 1);
    assert_eq!(at_one.len(), 1);
    assert_eq!(at_one[0].path.last().unwrap().2, "b");
    assert_eq!(at_one[0].path.last().unwrap().3, "c");

    let at_two = graph.find_incoming_chains("c", 2);
    assert_eq!(at_two.len(), 1);
    assert_eq!(
        at_two[0].path,
        vec![
            ("test.rs".to_string(), 10, "a".to_string(), "b".to_string()),
            ("test.rs".to_string(), 11, "b".to_string(), "c".to_string()),
        ]
    );
}

#[test]
fn cycle_terminates_with_bounded_chains() {
    // a -> b -> a: discovery must end and stay within the hop bound even
    // for depths far beyond the cycle length.
    let results = vec![(
        "test.rs".to_string(),
        make_result(&["a", "b"], &[("a", "b"), ("b", "a")]),
    )];
    let graph = CallGraph::build_from_results(&results);
    for depth in [1u32, 2, 3, 10, 50] {
        let outgoing = graph.find_outgoing_chains("a", depth);
        assert!(!outgoing.is_empty());
        for chain in &outgoing {
            assert!(chain.path.len() >= 1);
            assert!(chain.path.len() <= depth as usize);
            assert_eq!(chain.path[0].2, "a");
        }
        let incoming = graph.find_incoming_chains("a", depth);
        for chain in &incoming {
            assert!(chain.path.len() >= 1 && chain.path.len() <= depth as usize);
        }
    }
}

#[test]
fn module_scope_calls_have_no_outgoing_edge() {
    let mut result = make_result(&["helper"], &[]);
    result.calls.push(CallInfo {
        caller_name: None,
        callee_name: "helper".to_string(),
        line: 3,
        column: 0,
        context: String::new(),
    });
    let results = vec![("test.rs".to_string(), result)];
    let graph = CallGraph::build_from_results(&results);
    // The callee sees an incoming edge from the synthetic module scope...
    let incoming = graph.find_incoming_chains("helper", 1);
    assert_eq!(incoming.len(), 1);
    assert_eq!(incoming[0].path[0].2, "<module>");
    // ...but the synthetic scope hangs no outgoing edge anywhere.
    assert!(graph.find_outgoing_chains("<module>", 1).is_empty());
}

#[test]
fn type_usage_recorded_with_sentinel_caller() {
    let mut result = make_result(&[], &[]);
    result.references.push(ReferenceInfo {
        symbol: "Widget".to_string(),
        ref_type: ReferenceType::FieldType,
        line: 4,
        context: String::new(),
        associated_type: None,
    });
    let results = vec![("test.rs".to_string(), result)];
    let graph = CallGraph::build_from_results(&results);
    let incoming = graph.find_incoming_chains("Widget", 1);
    assert_eq!(incoming.len(), 1);
    assert_eq!(incoming[0].path[0].2, "<reference>");
}

#[test]
fn method_definition_links_type_to_method() {
    let mut result = make_result(&[], &[]);
    result.references.push(ReferenceInfo {
        symbol: "render".to_string(),
        ref_type: ReferenceType::MethodDefinition,
        line: 9,
        context: String::new(),
        associated_type: Some("Widget".to_string()),
    });
    let results = vec![("test.rs".to_string(), result)];
    let graph = CallGraph::build_from_results(&results);
    let outgoing = graph.find_outgoing_chains("Widget", 1);
    assert_eq!(outgoing.len(), 1);
    assert_eq!(outgoing[0].path[0].3, "render");
}
