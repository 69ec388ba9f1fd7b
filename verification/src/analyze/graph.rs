//! The call-graph index: caller, callee and definition tables aggregated
//! from per-file facts, and bounded breadth-first chain discovery.

use vstd::prelude::*;

use crate::analyze::types::{
    AnalysisResult, AnalysisResultV, CallChain, CallInfoV, ClassInfoV, FunctionInfoV, HopV,
    ReferenceInfoV, ReferenceType,
};
use crate::text::str_eq;

verus! {

/// Synthetic caller recorded when a call is not inside any known function.
pub open spec fn module_scope() -> Seq<char> {
    "<module>"@
}

/// Sentinel caller label marking a "used as a type" edge.
pub open spec fn reference_caller() -> Seq<char> {
    "<reference>"@
}

/// One edge of the graph: where it was seen, and the symbol at its far end.
pub ghost struct EdgeV {
    pub file: Seq<char>,
    pub line: int,
    pub sym: Seq<char>,
}

/// One definition site.
pub ghost struct DefV {
    pub file: Seq<char>,
    pub line: int,
}

/// Concatenation of `f` over the elements of `xs`, in order.
pub open spec fn concat_map<T, E>(xs: Seq<T>, f: spec_fn(T) -> Seq<E>) -> Seq<E>
    decreases xs.len(),
{
    if xs.len() == 0 {
        Seq::empty()
    } else {
        f(xs[0]) + concat_map(xs.drop_first(), f)
    }
}

pub proof fn lemma_concat_map_take_step<T, E>(xs: Seq<T>, f: spec_fn(T) -> Seq<E>, k: int)
    requires
        0 <= k < xs.len(),
    ensures
        concat_map(xs.take(k + 1), f) == concat_map(xs.take(k), f) + f(xs[k]),
    decreases k,
{
    if k == 0 {
        let t1 = xs.take(1);
        assert(t1[0] == xs[0]);
        assert(t1.drop_first() =~= Seq::<T>::empty());
        assert(concat_map(t1, f) == f(xs[0]) + concat_map(Seq::<T>::empty(), f));
        assert(f(xs[0]) + Seq::<E>::empty() =~= f(xs[0]));
        assert(xs.take(0) =~= Seq::<T>::empty());
        assert(Seq::<E>::empty() + f(xs[0]) =~= f(xs[0]));
    } else {
        let ys = xs.drop_first();
        lemma_concat_map_take_step(ys, f, k - 1);
        assert(xs.take(k + 1).drop_first() =~= ys.take(k));
        assert(xs.take(k).drop_first() =~= ys.take(k - 1));
        assert(xs.take(k + 1)[0] == xs[0]);
        assert(xs.take(k)[0] == xs[0]);
        assert(xs[k] == ys[k - 1]);
        assert((f(xs[0]) + concat_map(ys.take(k - 1), f)) + f(ys[k - 1]) =~= f(xs[0]) + (
        concat_map(ys.take(k - 1), f) + f(ys[k - 1])));
    }
}

pub proof fn lemma_concat_map_push<T, E>(xs: Seq<T>, f: spec_fn(T) -> Seq<E>, x: T)
    ensures
        concat_map(xs.push(x), f) == concat_map(xs, f) + f(x),
{
    let ys = xs.push(x);
    lemma_concat_map_take_step(ys, f, xs.len() as int);
    assert(ys.take(xs.len() as int) =~= xs);
    assert(ys.take(xs.len() as int + 1) =~= ys);
    assert(ys[xs.len() as int] == x);
}

pub proof fn lemma_concat_map_mem<T, E>(xs: Seq<T>, f: spec_fn(T) -> Seq<E>, e: E)
    requires
        concat_map(xs, f).contains(e),
    ensures
        exists|i: int| 0 <= i < xs.len() && #[trigger] f(xs[i]).contains(e),
    decreases xs.len(),
{
    let whole = concat_map(xs, f);
    let idx = choose|idx: int| 0 <= idx < whole.len() && whole[idx] == e;
    if idx < f(xs[0]).len() {
        assert(f(xs[0])[idx] == e);
        assert(f(xs[0]).contains(e));
    } else {
        let rest = concat_map(xs.drop_first(), f);
        assert(rest[idx - f(xs[0]).len()] == e);
        assert(rest.contains(e));
        lemma_concat_map_mem(xs.drop_first(), f, e);
        let i = choose|i: int|
            0 <= i < xs.drop_first().len() && #[trigger] f(xs.drop_first()[i]).contains(e);
        assert(xs.drop_first()[i] == xs[i + 1]);
        assert(f(xs[i + 1]).contains(e));
    }
}

// The row stores. An edge row is (key, file, line, symbol); a definition row
// is (symbol, file, line). Looking a key up collects its rows in insertion
// order, so every symbol's edge list is ordered by discovery.

pub open spec fn edge_item(key: Seq<char>) -> spec_fn((String, String, usize, String)) -> Seq<
    EdgeV,
> {
    |r: (String, String, usize, String)|
        if r.0@ == key {
            seq![EdgeV { file: r.1@, line: r.2 as int, sym: r.3@ }]
        } else {
            Seq::empty()
        }
}

pub open spec fn def_item(key: Seq<char>) -> spec_fn((String, String, usize)) -> Seq<DefV> {
    |r: (String, String, usize)|
        if r.0@ == key {
            seq![DefV { file: r.1@, line: r.2 as int }]
        } else {
            Seq::empty()
        }
}

pub open spec fn edges_for(rows: Seq<(String, String, usize, String)>, key: Seq<char>) -> Seq<
    EdgeV,
> {
    concat_map(rows, edge_item(key))
}

pub open spec fn defs_for(rows: Seq<(String, String, usize)>, key: Seq<char>) -> Seq<DefV> {
    concat_map(rows, def_item(key))
}

// What building from a batch of per-file facts must produce, stated per
// symbol. Within one file: function definitions, then class definitions;
// call edges, then reference edges — in input order across files.

pub open spec fn spec_caller_label(c: CallInfoV) -> Seq<char> {
    match c.caller_name {
        Some(n) => n,
        None => module_scope(),
    }
}

pub open spec fn is_type_usage(t: ReferenceType) -> bool {
    t == ReferenceType::TypeInstantiation || t == ReferenceType::FieldType || t
        == ReferenceType::VariableType || t == ReferenceType::ParameterType
}

pub open spec fn func_def_item(file: Seq<char>, sym: Seq<char>) -> spec_fn(FunctionInfoV) -> Seq<
    DefV,
> {
    |f: FunctionInfoV|
        if f.name == sym {
            seq![DefV { file: file, line: f.line }]
        } else {
            Seq::empty()
        }
}

pub open spec fn class_def_item(file: Seq<char>, sym: Seq<char>) -> spec_fn(ClassInfoV) -> Seq<
    DefV,
> {
    |c: ClassInfoV|
        if c.name == sym {
            seq![DefV { file: file, line: c.line }]
        } else {
            Seq::empty()
        }
}

pub open spec fn call_caller_item(file: Seq<char>, sym: Seq<char>) -> spec_fn(CallInfoV) -> Seq<
    EdgeV,
> {
    |c: CallInfoV|
        if c.callee_name == sym {
            seq![EdgeV { file: file, line: c.line, sym: spec_caller_label(c) }]
        } else {
            Seq::empty()
        }
}

pub open spec fn call_callee_item(file: Seq<char>, sym: Seq<char>) -> spec_fn(CallInfoV) -> Seq<
    EdgeV,
> {
    |c: CallInfoV|
        if spec_caller_label(c) == sym && spec_caller_label(c) != module_scope() {
            seq![EdgeV { file: file, line: c.line, sym: c.callee_name }]
        } else {
            Seq::empty()
        }
}

pub open spec fn ref_caller_item(file: Seq<char>, sym: Seq<char>) -> spec_fn(
    ReferenceInfoV,
) -> Seq<EdgeV> {
    |rf: ReferenceInfoV|
        if is_type_usage(rf.ref_type) && rf.symbol == sym {
            seq![EdgeV { file: file, line: rf.line, sym: reference_caller() }]
        } else {
            Seq::empty()
        }
}

pub open spec fn ref_callee_item(file: Seq<char>, sym: Seq<char>) -> spec_fn(
    ReferenceInfoV,
) -> Seq<EdgeV> {
    |rf: ReferenceInfoV|
        if rf.ref_type == ReferenceType::MethodDefinition && rf.associated_type == Some(sym) {
            seq![EdgeV { file: file, line: rf.line, sym: rf.symbol }]
        } else {
            Seq::empty()
        }
}

pub open spec fn file_defs(file: Seq<char>, r: AnalysisResultV, sym: Seq<char>) -> Seq<DefV> {
    concat_map(r.functions, func_def_item(file, sym)) + concat_map(
        r.classes,
        class_def_item(file, sym),
    )
}

pub open spec fn file_callers(file: Seq<char>, r: AnalysisResultV, sym: Seq<char>) -> Seq<EdgeV> {
    concat_map(r.calls, call_caller_item(file, sym)) + concat_map(
        r.references,
        ref_caller_item(file, sym),
    )
}

pub open spec fn file_callees(file: Seq<char>, r: AnalysisResultV, sym: Seq<char>) -> Seq<EdgeV> {
    concat_map(r.calls, call_callee_item(file, sym)) + concat_map(
        r.references,
        ref_callee_item(file, sym),
    )
}

pub open spec fn results_view(rs: Seq<(String, AnalysisResult)>) -> Seq<
    (Seq<char>, AnalysisResultV),
> {
    rs.map_values(|p: (String, AnalysisResult)| (p.0@, p.1@))
}

pub open spec fn built_defs_item(sym: Seq<char>) -> spec_fn((Seq<char>, AnalysisResultV)) -> Seq<
    DefV,
> {
    |p: (Seq<char>, AnalysisResultV)| file_defs(p.0, p.1, sym)
}

pub open spec fn built_callers_item(sym: Seq<char>) -> spec_fn(
    (Seq<char>, AnalysisResultV),
) -> Seq<EdgeV> {
    |p: (Seq<char>, AnalysisResultV)| file_callers(p.0, p.1, sym)
}

pub open spec fn built_callees_item(sym: Seq<char>) -> spec_fn(
    (Seq<char>, AnalysisResultV),
) -> Seq<EdgeV> {
    |p: (Seq<char>, AnalysisResultV)| file_callees(p.0, p.1, sym)
}

pub open spec fn built_defs(rv: Seq<(Seq<char>, AnalysisResultV)>, sym: Seq<char>) -> Seq<DefV> {
    concat_map(rv, built_defs_item(sym))
}

pub open spec fn built_callers(rv: Seq<(Seq<char>, AnalysisResultV)>, sym: Seq<char>) -> Seq<
    EdgeV,
> {
    concat_map(rv, built_callers_item(sym))
}

pub open spec fn built_callees(rv: Seq<(Seq<char>, AnalysisResultV)>, sym: Seq<char>) -> Seq<
    EdgeV,
> {
    concat_map(rv, built_callees_item(sym))
}

/// Caller/callee/definition indices over one batch of per-file facts.
#[derive(Debug)]
pub struct CallGraph {
    callers: Vec<(String, String, usize, String)>,
    callees: Vec<(String, String, usize, String)>,
    pub definitions: Vec<(String, String, usize)>,
}

impl CallGraph {
    pub closed spec fn callers_rows(&self) -> Seq<(String, String, usize, String)> {
        self.callers@
    }

    pub closed spec fn callees_rows(&self) -> Seq<(String, String, usize, String)> {
        self.callees@
    }

    /// Everything recorded as calling `sym`, in discovery order.
    pub open spec fn callers_of(&self, sym: Seq<char>) -> Seq<EdgeV> {
        edges_for(self.callers_rows(), sym)
    }

    /// Everything `sym` is recorded as calling, in discovery order.
    pub open spec fn callees_of(&self, sym: Seq<char>) -> Seq<EdgeV> {
        edges_for(self.callees_rows(), sym)
    }

    pub closed spec fn defs_rows(&self) -> Seq<(String, String, usize)> {
        self.definitions@
    }

    /// Where `sym` is defined, in discovery order.
    pub open spec fn defs_of(&self, sym: Seq<char>) -> Seq<DefV> {
        defs_for(self.defs_rows(), sym)
    }

    pub fn new() -> (g: Self)
        ensures
            g.defs_rows().len() == 0,
            forall|sym: Seq<char>| #[trigger] g.defs_of(sym) == Seq::<DefV>::empty(),
            forall|sym: Seq<char>| #[trigger] g.callers_of(sym) == Seq::<EdgeV>::empty(),
            forall|sym: Seq<char>| #[trigger] g.callees_of(sym) == Seq::<EdgeV>::empty(),
    {
        let g = CallGraph { callers: Vec::new(), callees: Vec::new(), definitions: Vec::new() };
        proof {
            assert(g.callers@ =~= Seq::<(String, String, usize, String)>::empty());
            assert(g.callees@ =~= Seq::<(String, String, usize, String)>::empty());
            assert(g.definitions@ =~= Seq::<(String, String, usize)>::empty());
        }
        g
    }

    /// Record every function and class definition of one file.
    #[verifier::loop_isolation(false)]
    fn record_definitions(
        defs: &mut Vec<(String, String, usize)>,
        res: &AnalysisResult,
        file: &String,
    )
        ensures
            forall|sym: Seq<char>| #[trigger] defs_for(final(defs)@, sym) == defs_for(
                old(defs)@,
                sym,
            ) + file_defs(file@, res@, sym),
    {
        let ghost fs: Seq<FunctionInfoV> = res@.functions;
        let ghost cs: Seq<ClassInfoV> = res@.classes;
        let ghost defs0 = defs@;
        proof {
            assert(fs.take(0) =~= Seq::<FunctionInfoV>::empty());
        }
        let nfun = res.functions.len();
        let mut k: usize = 0;
        while k < nfun
            invariant
                k <= nfun,
                forall|sym: Seq<char>| #[trigger] defs_for(defs@, sym) == defs_for(defs0, sym)
                    + concat_map(fs.take(k as int), func_def_item(file@, sym)),
            decreases nfun - k,
        {
            let f = &res.functions[k];
            let ghost pre = defs@;
            defs.push((f.name.clone(), file.clone(), f.line));
            proof {
                assert forall|sym: Seq<char>| #[trigger] defs_for(defs@, sym) == defs_for(
                    defs0,
                    sym,
                ) + concat_map(fs.take(k as int + 1), func_def_item(file@, sym)) by {
                    assert(defs_for(pre, sym) == defs_for(defs0, sym) + concat_map(
                        fs.take(k as int),
                        func_def_item(file@, sym),
                    ));
                    lemma_concat_map_push(pre, def_item(sym), defs@.last());
                    assert(pre.push(defs@.last()) =~= defs@);
                    lemma_concat_map_take_step(fs, func_def_item(file@, sym), k as int);
                    assert(fs[k as int] == res.functions@[k as int]@);
                    assert(def_item(sym)(defs@.last()) =~= func_def_item(file@, sym)(fs[k as int]));
                    assert((defs_for(defs0, sym) + concat_map(
                        fs.take(k as int),
                        func_def_item(file@, sym),
                    )) + func_def_item(file@, sym)(fs[k as int]) =~= defs_for(defs0, sym) + (
                    concat_map(fs.take(k as int), func_def_item(file@, sym)) + func_def_item(
                        file@,
                        sym,
                    )(fs[k as int])));
                }
            }
            k = k + 1;
        }
        let ghost defs1 = defs@;
        proof {
            assert(fs.take(nfun as int) =~= fs);
            assert(cs.take(0) =~= Seq::<ClassInfoV>::empty());
        }
        let ncls = res.classes.len();
        let mut k2: usize = 0;
        while k2 < ncls
            invariant
                k2 <= ncls,
                forall|sym: Seq<char>| #[trigger] defs_for(defs@, sym) == defs_for(defs1, sym)
                    + concat_map(cs.take(k2 as int), class_def_item(file@, sym)),
            decreases ncls - k2,
        {
            let c = &res.classes[k2];
            let ghost pre = defs@;
            defs.push((c.name.clone(), file.clone(), c.line));
            proof {
                assert forall|sym: Seq<char>| #[trigger] defs_for(defs@, sym) == defs_for(
                    defs1,
                    sym,
                ) + concat_map(cs.take(k2 as int + 1), class_def_item(file@, sym)) by {
                    assert(defs_for(pre, sym) == defs_for(defs1, sym) + concat_map(
                        cs.take(k2 as int),
                        class_def_item(file@, sym),
                    ));
                    lemma_concat_map_push(pre, def_item(sym), defs@.last());
                    assert(pre.push(defs@.last()) =~= defs@);
                    lemma_concat_map_take_step(cs, class_def_item(file@, sym), k2 as int);
                    assert(cs[k2 as int] == res.classes@[k2 as int]@);
                    assert(def_item(sym)(defs@.last()) =~= class_def_item(file@, sym)(
                    cs[k2 as int]));
                    assert((defs_for(defs1, sym) + concat_map(
                        cs.take(k2 as int),
                        class_def_item(file@, sym),
                    )) + class_def_item(file@, sym)(cs[k2 as int]) =~= defs_for(defs1, sym) + (
                    concat_map(cs.take(k2 as int), class_def_item(file@, sym)) + class_def_item(
                        file@,
                        sym,
                    )(cs[k2 as int])));
                }
            }
            k2 = k2 + 1;
        }
        proof {
            assert(cs.take(ncls as int) =~= cs);
            assert forall|sym: Seq<char>| #[trigger] defs_for(defs@, sym) == defs_for(defs0, sym)
                + file_defs(file@, res@, sym) by {
                assert(defs_for(defs@, sym) == defs_for(defs1, sym) + concat_map(
                    cs.take(ncls as int),
                    class_def_item(file@, sym),
                ));
                assert(defs_for(defs1, sym) == defs_for(defs0, sym) + concat_map(
                    fs.take(nfun as int),
                    func_def_item(file@, sym),
                ));
                assert((defs_for(defs0, sym) + concat_map(fs, func_def_item(file@, sym)))
                    + concat_map(cs, class_def_item(file@, sym)) =~= defs_for(defs0, sym) + (
                concat_map(fs, func_def_item(file@, sym)) + concat_map(
                    cs,
                    class_def_item(file@, sym),
                )));
            }
        }
    }

    /// Record the edges of one file's calls: every call gives its callee an
    /// incoming edge; calls attributed to a real function also give the
    /// caller an outgoing edge.
    #[verifier::loop_isolation(false)]
    fn record_calls(
        callers: &mut Vec<(String, String, usize, String)>,
        callees: &mut Vec<(String, String, usize, String)>,
        res: &AnalysisResult,
        file: &String,
    )
        ensures
            forall|sym: Seq<char>| #[trigger] edges_for(final(callers)@, sym) == edges_for(
                old(callers)@,
                sym,
            ) + concat_map(res@.calls, call_caller_item(file@, sym)),
            forall|sym: Seq<char>| #[trigger] edges_for(final(callees)@, sym) == edges_for(
                old(callees)@,
                sym,
            ) + concat_map(res@.calls, call_callee_item(file@, sym)),
    {
        let ghost calls_v: Seq<CallInfoV> = res@.calls;
        let ghost callers0 = callers@;
        let ghost callees0 = callees@;
        proof {
            assert(calls_v.take(0) =~= Seq::<CallInfoV>::empty());
        }
        let ncalls = res.calls.len();
        let mut k: usize = 0;
        while k < ncalls
            invariant
                k <= ncalls,
                forall|sym: Seq<char>| #[trigger] edges_for(callers@, sym) == edges_for(
                    callers0,
                    sym,
                ) + concat_map(calls_v.take(k as int), call_caller_item(file@, sym)),
                forall|sym: Seq<char>| #[trigger] edges_for(callees@, sym) == edges_for(
                    callees0,
                    sym,
                ) + concat_map(calls_v.take(k as int), call_callee_item(file@, sym)),
            decreases ncalls - k,
        {
            let c = &res.calls[k];
            let ghost cv: CallInfoV = calls_v[k as int];
            let caller: String = match &c.caller_name {
                Some(n) => n.clone(),
                None => String::from_str("<module>"),
            };
            proof {
                assert(cv == res.calls@[k as int]@);
                assert(caller@ == spec_caller_label(cv));
            }
            let ghost callers_pre = callers@;
            callers.push((c.callee_name.clone(), file.clone(), c.line, caller.clone()));
            proof {
                assert forall|sym: Seq<char>| #[trigger] edges_for(callers@, sym) == edges_for(
                    callers0,
                    sym,
                ) + concat_map(calls_v.take(k as int + 1), call_caller_item(file@, sym)) by {
                    assert(edges_for(callers_pre, sym) == edges_for(callers0, sym) + concat_map(
                        calls_v.take(k as int),
                        call_caller_item(file@, sym),
                    ));
                    lemma_concat_map_push(callers_pre, edge_item(sym), callers@.last());
                    assert(callers_pre.push(callers@.last()) =~= callers@);
                    lemma_concat_map_take_step(calls_v, call_caller_item(file@, sym), k as int);
                    assert(edge_item(sym)(callers@.last()) =~= call_caller_item(file@, sym)(cv));
                    assert((edges_for(callers0, sym) + concat_map(
                        calls_v.take(k as int),
                        call_caller_item(file@, sym),
                    )) + call_caller_item(file@, sym)(cv) =~= edges_for(callers0, sym) + (
                    concat_map(calls_v.take(k as int), call_caller_item(file@, sym))
                        + call_caller_item(file@, sym)(cv)));
                }
            }
            let is_module = str_eq(caller.as_str(), "<module>");
            let ghost callees_pre = callees@;
            if !is_module {
                callees.push((caller, file.clone(), c.line, c.callee_name.clone()));
            }
            proof {
                assert forall|sym: Seq<char>| #[trigger] edges_for(callees@, sym) == edges_for(
                    callees0,
                    sym,
                ) + concat_map(calls_v.take(k as int + 1), call_callee_item(file@, sym)) by {
                    assert(edges_for(callees_pre, sym) == edges_for(callees0, sym) + concat_map(
                        calls_v.take(k as int),
                        call_callee_item(file@, sym),
                    ));
                    lemma_concat_map_take_step(calls_v, call_callee_item(file@, sym), k as int);
                    if spec_caller_label(cv) != module_scope() {
                        lemma_concat_map_push(callees_pre, edge_item(sym), callees@.last());
                        assert(callees_pre.push(callees@.last()) =~= callees@);
                        assert(edge_item(sym)(callees@.last()) =~= call_callee_item(file@, sym)(
                        cv));
                    } else {
                        assert(callees@ =~= callees_pre);
                        assert(call_callee_item(file@, sym)(cv) =~= Seq::<EdgeV>::empty());
                        assert(concat_map(calls_v.take(k as int), call_callee_item(file@, sym))
                            + Seq::<EdgeV>::empty() =~= concat_map(
                            calls_v.take(k as int),
                            call_callee_item(file@, sym),
                        ));
                    }
                    assert((edges_for(callees0, sym) + concat_map(
                        calls_v.take(k as int),
                        call_callee_item(file@, sym),
                    )) + call_callee_item(file@, sym)(cv) =~= edges_for(callees0, sym) + (
                    concat_map(calls_v.take(k as int), call_callee_item(file@, sym))
                        + call_callee_item(file@, sym)(cv)));
                }
            }
            k = k + 1;
        }
        proof {
            assert(calls_v.take(ncalls as int) =~= calls_v);
        }
    }

    /// Record the edges of one file's type references: a method definition
    /// makes its owning type an outgoing edge to the method; a type usage
    /// marks the symbol with an incoming sentinel edge.
    #[verifier::loop_isolation(false)]
    fn record_references(
        callers: &mut Vec<(String, String, usize, String)>,
        callees: &mut Vec<(String, String, usize, String)>,
        res: &AnalysisResult,
        file: &String,
    )
        ensures
            forall|sym: Seq<char>| #[trigger] edges_for(final(callers)@, sym) == edges_for(
                old(callers)@,
                sym,
            ) + concat_map(res@.references, ref_caller_item(file@, sym)),
            forall|sym: Seq<char>| #[trigger] edges_for(final(callees)@, sym) == edges_for(
                old(callees)@,
                sym,
            ) + concat_map(res@.references, ref_callee_item(file@, sym)),
    {
        let ghost refs_v: Seq<ReferenceInfoV> = res@.references;
        let ghost callers0 = callers@;
        let ghost callees0 = callees@;
        proof {
            assert(refs_v.take(0) =~= Seq::<ReferenceInfoV>::empty());
        }
        let nrefs = res.references.len();
        let mut k: usize = 0;
        while k < nrefs
            invariant
                k <= nrefs,
                forall|sym: Seq<char>| #[trigger] edges_for(callers@, sym) == edges_for(
                    callers0,
                    sym,
                ) + concat_map(refs_v.take(k as int), ref_caller_item(file@, sym)),
                forall|sym: Seq<char>| #[trigger] edges_for(callees@, sym) == edges_for(
                    callees0,
                    sym,
                ) + concat_map(refs_v.take(k as int), ref_callee_item(file@, sym)),
            decreases nrefs - k,
        {
            let rf = &res.references[k];
            let ghost rfv: ReferenceInfoV = refs_v[k as int];
            proof {
                assert(rfv == res.references@[k as int]@);
            }
            let ghost callers_pre = callers@;
            let ghost callees_pre = callees@;
            match &rf.ref_type {
                ReferenceType::MethodDefinition => {
                    match &rf.associated_type {
                        Some(tn) => {
                            callees.push((tn.clone(), file.clone(), rf.line, rf.symbol.clone()));
                        },
                        None => {},
                    }
                },
                ReferenceType::TypeInstantiation
                | ReferenceType::FieldType
                | ReferenceType::VariableType
                | ReferenceType::ParameterType => {
                    callers.push(
                        (rf.symbol.clone(), file.clone(), rf.line, String::from_str("<reference>")),
                    );
                },
                _ => {},
            }
            proof {
                assert forall|sym: Seq<char>| #[trigger] edges_for(callers@, sym) == edges_for(
                    callers0,
                    sym,
                ) + concat_map(refs_v.take(k as int + 1), ref_caller_item(file@, sym)) by {
                    assert(edges_for(callers_pre, sym) == edges_for(callers0, sym) + concat_map(
                        refs_v.take(k as int),
                        ref_caller_item(file@, sym),
                    ));
                    lemma_concat_map_take_step(refs_v, ref_caller_item(file@, sym), k as int);
                    if is_type_usage(rfv.ref_type) {
                        lemma_concat_map_push(callers_pre, edge_item(sym), callers@.last());
                        assert(callers_pre.push(callers@.last()) =~= callers@);
                        assert(edge_item(sym)(callers@.last()) =~= ref_caller_item(file@, sym)(
                        rfv));
                    } else {
                        assert(callers@ =~= callers_pre);
                        assert(ref_caller_item(file@, sym)(rfv) =~= Seq::<EdgeV>::empty());
                        assert(concat_map(refs_v.take(k as int), ref_caller_item(file@, sym))
                            + Seq::<EdgeV>::empty() =~= concat_map(
                            refs_v.take(k as int),
                            ref_caller_item(file@, sym),
                        ));
                    }
                    assert((edges_for(callers0, sym) + concat_map(
                        refs_v.take(k as int),
                        ref_caller_item(file@, sym),
                    )) + ref_caller_item(file@, sym)(rfv) =~= edges_for(callers0, sym) + (
                    concat_map(refs_v.take(k as int), ref_caller_item(file@, sym))
                        + ref_caller_item(file@, sym)(rfv)));
                }
                assert forall|sym: Seq<char>| #[trigger] edges_for(callees@, sym) == edges_for(
                    callees0,
                    sym,
                ) + concat_map(refs_v.take(k as int + 1), ref_callee_item(file@, sym)) by {
                    assert(edges_for(callees_pre, sym) == edges_for(callees0, sym) + concat_map(
                        refs_v.take(k as int),
                        ref_callee_item(file@, sym),
                    ));
                    lemma_concat_map_take_step(refs_v, ref_callee_item(file@, sym), k as int);
                    if rfv.ref_type == ReferenceType::MethodDefinition && rfv.associated_type
                        is Some {
                        lemma_concat_map_push(callees_pre, edge_item(sym), callees@.last());
                        assert(callees_pre.push(callees@.last()) =~= callees@);
                        assert(edge_item(sym)(callees@.last()) =~= ref_callee_item(file@, sym)(
                        rfv));
                    } else {
                        assert(callees@ =~= callees_pre);
                        assert(ref_callee_item(file@, sym)(rfv) =~= Seq::<EdgeV>::empty());
                        assert(concat_map(refs_v.take(k as int), ref_callee_item(file@, sym))
                            + Seq::<EdgeV>::empty() =~= concat_map(
                            refs_v.take(k as int),
                            ref_callee_item(file@, sym),
                        ));
                    }
                    assert((edges_for(callees0, sym) + concat_map(
                        refs_v.take(k as int),
                        ref_callee_item(file@, sym),
                    )) + ref_callee_item(file@, sym)(rfv) =~= edges_for(callees0, sym) + (
                    concat_map(refs_v.take(k as int), ref_callee_item(file@, sym))
                        + ref_callee_item(file@, sym)(rfv)));
                }
            }
            k = k + 1;
        }
        proof {
            assert(refs_v.take(nrefs as int) =~= refs_v);
        }
    }

    /// Fold a batch of per-file fact records into the three indices,
    /// applying the build rules file by file in input order.
    #[verifier::loop_isolation(false)]
    pub fn build_from_results(results: &Vec<(String, AnalysisResult)>) -> (g: Self)
        ensures
            forall|sym: Seq<char>| #[trigger] g.defs_of(sym) == built_defs(
                results_view(results@),
                sym,
            ),
            forall|sym: Seq<char>| #[trigger] g.callers_of(sym) == built_callers(
                results_view(results@),
                sym,
            ),
            forall|sym: Seq<char>| #[trigger] g.callees_of(sym) == built_callees(
                results_view(results@),
                sym,
            ),
    {
        let ghost rv = results_view(results@);
        let mut defs: Vec<(String, String, usize)> = Vec::new();
        let mut callers: Vec<(String, String, usize, String)> = Vec::new();
        let mut callees: Vec<(String, String, usize, String)> = Vec::new();
        proof {
            assert(defs@ =~= Seq::<(String, String, usize)>::empty());
            assert(callers@ =~= Seq::<(String, String, usize, String)>::empty());
            assert(callees@ =~= Seq::<(String, String, usize, String)>::empty());
            assert(rv.take(0) =~= Seq::<(Seq<char>, AnalysisResultV)>::empty());
        }
        let nf = results.len();
        let mut fi: usize = 0;
        while fi < nf
            invariant
                fi <= nf,
                forall|sym: Seq<char>| #[trigger] defs_for(defs@, sym) == built_defs(
                    rv.take(fi as int),
                    sym,
                ),
                forall|sym: Seq<char>| #[trigger] edges_for(callers@, sym) == built_callers(
                    rv.take(fi as int),
                    sym,
                ),
                forall|sym: Seq<char>| #[trigger] edges_for(callees@, sym) == built_callees(
                    rv.take(fi as int),
                    sym,
                ),
            decreases nf - fi,
        {
            let file: String = results[fi].0.clone();
            let ghost resv: AnalysisResultV = results@[fi as int].1@;
            let ghost defs_a = defs@;
            let ghost callers_a = callers@;
            let ghost callees_a = callees@;
            Self::record_definitions(&mut defs, &results[fi].1, &file);
            Self::record_calls(&mut callers, &mut callees, &results[fi].1, &file);
            let ghost callers_b = callers@;
            let ghost callees_b = callees@;
            Self::record_references(&mut callers, &mut callees, &results[fi].1, &file);
            proof {
                assert(rv[fi as int].0 == file@);
                assert(rv[fi as int].1 == resv);
                assert forall|sym: Seq<char>| #[trigger] defs_for(defs@, sym) == built_defs(
                    rv.take(fi as int + 1),
                    sym,
                ) by {
                    assert(defs_for(defs_a, sym) == built_defs(rv.take(fi as int), sym));
                    assert(defs_for(defs@, sym) == defs_for(defs_a, sym) + file_defs(
                        file@,
                        results@[fi as int].1@,
                        sym,
                    ));
                    lemma_concat_map_take_step(rv, built_defs_item(sym), fi as int);
                    assert(built_defs_item(sym)(rv[fi as int]) == file_defs(file@, resv, sym));
                }
                assert forall|sym: Seq<char>| #[trigger] edges_for(callers@, sym) == built_callers(
                    rv.take(fi as int + 1),
                    sym,
                ) by {
                    assert(edges_for(callers_a, sym) == built_callers(rv.take(fi as int), sym));
                    assert(edges_for(callers_b, sym) == edges_for(callers_a, sym) + concat_map(
                        results@[fi as int].1@.calls,
                        call_caller_item(file@, sym),
                    ));
                    assert(edges_for(callers@, sym) == edges_for(callers_b, sym) + concat_map(
                        results@[fi as int].1@.references,
                        ref_caller_item(file@, sym),
                    ));
                    lemma_concat_map_take_step(rv, built_callers_item(sym), fi as int);
                    assert(built_callers_item(sym)(rv[fi as int]) == file_callers(
                        file@,
                        resv,
                        sym,
                    ));
                    assert((edges_for(callers_a, sym) + concat_map(
                        resv.calls,
                        call_caller_item(file@, sym),
                    )) + concat_map(resv.references, ref_caller_item(file@, sym)) =~= edges_for(
                        callers_a,
                        sym,
                    ) + (concat_map(resv.calls, call_caller_item(file@, sym)) + concat_map(
                        resv.references,
                        ref_caller_item(file@, sym),
                    )));
                }
                assert forall|sym: Seq<char>| #[trigger] edges_for(callees@, sym) == built_callees(
                    rv.take(fi as int + 1),
                    sym,
                ) by {
                    assert(edges_for(callees_a, sym) == built_callees(rv.take(fi as int), sym));
                    assert(edges_for(callees_b, sym) == edges_for(callees_a, sym) + concat_map(
                        results@[fi as int].1@.calls,
                        call_callee_item(file@, sym),
                    ));
                    assert(edges_for(callees@, sym) == edges_for(callees_b, sym) + concat_map(
                        results@[fi as int].1@.references,
                        ref_callee_item(file@, sym),
                    ));
                    lemma_concat_map_take_step(rv, built_callees_item(sym), fi as int);
                    assert(built_callees_item(sym)(rv[fi as int]) == file_callees(
                        file@,
                        resv,
                        sym,
                    ));
                    assert((edges_for(callees_a, sym) + concat_map(
                        resv.calls,
                        call_callee_item(file@, sym),
                    )) + concat_map(resv.references, ref_callee_item(file@, sym)) =~= edges_for(
                        callees_a,
                        sym,
                    ) + (concat_map(resv.calls, call_callee_item(file@, sym)) + concat_map(
                        resv.references,
                        ref_callee_item(file@, sym),
                    )));
                }
            }
            fi = fi + 1;
        }
        proof {
            assert(rv.take(nf as int) =~= rv);
        }
        CallGraph { callers, callees, definitions: defs }
    }

    /// Collect the outward halves of the edges recorded for `symbol`.
    #[verifier::loop_isolation(false)]
    fn rows_lookup(rows: &Vec<(String, String, usize, String)>, symbol: &str) -> (r: Vec<
        (String, usize, String),
    >)
        ensures
            edges_view(r@) == edges_for(rows@, symbol@),
    {
        let mut r: Vec<(String, usize, String)> = Vec::new();
        proof {
            assert(rows@.take(0) =~= Seq::<(String, String, usize, String)>::empty());
            assert(edges_view(r@) =~= edges_for(rows@.take(0), symbol@));
        }
        let n = rows.len();
        let mut i: usize = 0;
        while i < n
            invariant
                i <= n,
                edges_view(r@) == edges_for(rows@.take(i as int), symbol@),
            decreases n - i,
        {
            let row = &rows[i];
            let ghost pre = r@;
            if str_eq(row.0.as_str(), symbol) {
                r.push((row.1.clone(), row.2, row.3.clone()));
            }
            proof {
                lemma_concat_map_take_step(rows@, edge_item(symbol@), i as int);
                if rows@[i as int].0@ == symbol@ {
                    assert(edges_view(r@) =~= edges_view(pre).push(out_edge_item()(r@.last())));
                    assert(edge_item(symbol@)(rows@[i as int]) =~= seq![
                        out_edge_item()(r@.last()),
                    ]);
                    assert(edges_view(pre) + edge_item(symbol@)(rows@[i as int]) =~= edges_view(
                        pre,
                    ).push(out_edge_item()(r@.last())));
                } else {
                    assert(r@ =~= pre);
                    assert(edge_item(symbol@)(rows@[i as int]) =~= Seq::<EdgeV>::empty());
                    assert(edges_view(pre) + Seq::<EdgeV>::empty() =~= edges_view(pre));
                }
            }
            i = i + 1;
        }
        proof {
            assert(rows@.take(n as int) =~= rows@);
        }
        r
    }

    /// The definition sites recorded for `symbol`, in discovery order.
    #[verifier::loop_isolation(false)]
    pub fn definitions_for(&self, symbol: &str) -> (r: Vec<(String, usize)>)
        ensures
            defs_view(r@) == self.defs_of(symbol@),
    {
        let rows = &self.definitions;
        let mut r: Vec<(String, usize)> = Vec::new();
        proof {
            assert(rows@.take(0) =~= Seq::<(String, String, usize)>::empty());
            assert(defs_view(r@) =~= defs_for(rows@.take(0), symbol@));
        }
        let n = rows.len();
        let mut i: usize = 0;
        while i < n
            invariant
                i <= n,
                defs_view(r@) == defs_for(rows@.take(i as int), symbol@),
            decreases n - i,
        {
            let row = &rows[i];
            let ghost pre = r@;
            if str_eq(row.0.as_str(), symbol) {
                r.push((row.1.clone(), row.2));
            }
            proof {
                lemma_concat_map_take_step(rows@, def_item(symbol@), i as int);
                if rows@[i as int].0@ == symbol@ {
                    assert(defs_view(r@) =~= defs_view(pre).push(def_site_item()(r@.last())));
                    assert(def_item(symbol@)(rows@[i as int]) =~= seq![def_site_item()(r@.last())]);
                    assert(defs_view(pre) + def_item(symbol@)(rows@[i as int]) =~= defs_view(
                        pre,
                    ).push(def_site_item()(r@.last())));
                } else {
                    assert(r@ =~= pre);
                    assert(def_item(symbol@)(rows@[i as int]) =~= Seq::<DefV>::empty());
                    assert(defs_view(pre) + Seq::<DefV>::empty() =~= defs_view(pre));
                }
            }
            i = i + 1;
        }
        proof {
            assert(rows@.take(n as int) =~= rows@);
        }
        r
    }

    /// Whether any definition of `symbol` was recorded.
    pub fn has_definition(&self, symbol: &str) -> (r: bool)
        ensures
            r == (self.defs_of(symbol@).len() > 0),
    {
        let d = self.definitions_for(symbol);
        let n = d.len();
        proof {
            assert(defs_view(d@).len() == d@.len());
        }
        n > 0
    }

    fn clone_hops(v: &Vec<(String, usize, String, String)>) -> (r: Vec<
        (String, usize, String, String),
    >)
        ensures
            r@ == v@,
    {
        let mut r: Vec<(String, usize, String, String)> = Vec::new();
        let n = v.len();
        let mut i: usize = 0;
        while i < n
            invariant
                i <= n,
                n == v@.len(),
                r@ =~= v@.take(i as int),
            decreases n - i,
        {
            let h = &v[i];
            r.push((h.0.clone(), h.1, h.2.clone(), h.3.clone()));
            proof {
                assert(r@ =~= v@.take(i as int + 1));
            }
            i = i + 1;
        }
        proof {
            assert(v@.take(n as int) =~= v@);
        }
        r
    }

    /// Whether `v` holds a string with the same characters as `s`.
    #[verifier::loop_isolation(false)]
    fn contains_sym(v: &Vec<String>, s: &String) -> (r: bool)
        ensures
            r == vis_views(v@).contains(s@),
    {
        let n = v.len();
        let mut i: usize = 0;
        while i < n
            invariant
                i <= n,
                forall|j: int| 0 <= j < i ==> v@[j]@ != s@,
            decreases n - i,
        {
            if str_eq(v[i].as_str(), s.as_str()) {
                proof {
                    assert(vis_views(v@)[i as int] == s@);
                }
                return true;
            }
            i = i + 1;
        }
        proof {
            if vis_views(v@).contains(s@) {
                let j = choose|j: int|
                    0 <= j < vis_views(v@).len() && vis_views(v@)[j] == s@;
                assert(v@[j]@ == s@);
            }
        }
        false
    }

    /// Everything a queued breadth-first entry must satisfy while searching
    /// for chains that reach `symv` through the callers index.
    pub open spec fn in_entry_ok(
        &self,
        symv: Seq<char>,
        max_depth: int,
        entry: (String, Vec<(String, usize, String, String)>, u32),
    ) -> bool {
        let hops = crate::analyze::types::hops_view(entry.1@);
        &&& entry.2 as int == hops.len()
        &&& 1 <= hops.len() < max_depth
        &&& hops[hops.len() - 1].to == symv
        &&& chain_linked(hops)
        &&& self.incoming_hops_ok(hops)
        &&& hops[0].from == entry.0@
        &&& edge_syms(self.callers_rows()).contains(entry.0@)
    }

    /// The same for outgoing discovery: the path grows away from `symv`
    /// through the callees index.
    pub open spec fn out_entry_ok(
        &self,
        symv: Seq<char>,
        max_depth: int,
        entry: (String, Vec<(String, usize, String, String)>, u32),
    ) -> bool {
        let hops = crate::analyze::types::hops_view(entry.1@);
        &&& entry.2 as int == hops.len()
        &&& 1 <= hops.len() < max_depth
        &&& hops[0].from == symv
        &&& chain_linked(hops)
        &&& self.outgoing_hops_ok(hops)
        &&& hops[hops.len() - 1].to == entry.0@
        &&& edge_syms(self.callees_rows()).contains(entry.0@)
    }

    /// Every hop is a recorded caller edge of the symbol it reaches.
    pub open spec fn incoming_hops_ok(&self, hops: Seq<HopV>) -> bool {
        forall|j: int|
            0 <= j < hops.len() ==> self.callers_of((#[trigger] hops[j]).to).contains(
                EdgeV { file: hops[j].file, line: hops[j].line, sym: hops[j].from },
            )
    }

    /// Every hop is a recorded callee edge of the symbol it leaves.
    pub open spec fn outgoing_hops_ok(&self, hops: Seq<HopV>) -> bool {
        forall|j: int|
            0 <= j < hops.len() ==> self.callees_of((#[trigger] hops[j]).from).contains(
                EdgeV { file: hops[j].file, line: hops[j].line, sym: hops[j].to },
            )
    }

    /// A finished incoming chain: non-empty, within the hop bound, linked
    /// hop to hop, ending at the queried symbol, every hop a real edge.
    pub open spec fn valid_incoming_chain(
        &self,
        symv: Seq<char>,
        max_depth: int,
        hops: Seq<HopV>,
    ) -> bool {
        &&& 1 <= hops.len() <= max_depth
        &&& hops[hops.len() - 1].to == symv
        &&& chain_linked(hops)
        &&& self.incoming_hops_ok(hops)
    }

    /// A finished outgoing chain: starts at the queried symbol.
    pub open spec fn valid_outgoing_chain(
        &self,
        symv: Seq<char>,
        max_depth: int,
        hops: Seq<HopV>,
    ) -> bool {
        &&& 1 <= hops.len() <= max_depth
        &&& hops[0].from == symv
        &&& chain_linked(hops)
        &&& self.outgoing_hops_ok(hops)
    }

    /// Breadth-first discovery of caller chains reaching `symbol`: at most
    /// `max_depth` hops per chain, one visited set for the whole call, a
    /// cyclic path truncated where it reaches an already-expanded symbol.
    /// Depth 0 yields no chains at all. At depth 1 the result is exactly the
    /// direct caller edges; deeper searches return at least one chain per
    /// direct edge, and every returned chain is well-formed and bounded.
    #[verifier::loop_isolation(false)]
    #[verifier::rlimit(100)]
    #[verifier::spinoff_prover]
    pub fn find_incoming_chains(&self, symbol: &str, max_depth: u32) -> (r: Vec<CallChain>)
        ensures
            max_depth == 0 ==> r@.len() == 0,
            forall|i: int|
                0 <= i < r@.len() ==> self.valid_incoming_chain(
                    symbol@,
                    max_depth as int,
                    (#[trigger] r@[i])@,
                ),
            max_depth >= 1 ==> r@.len() >= self.callers_of(symbol@).len(),
            max_depth >= 1 ==> (forall|ei: int|
                0 <= ei < self.callers_of(symbol@).len() ==> incoming_witnessed(
                    r@,
                    Seq::empty(),
                    0,
                    one_hop_in(#[trigger] self.callers_of(symbol@)[ei], symbol@),
                )),
            forall|i: int|
                0 <= i < r@.len() && (#[trigger] r@[i])@.len() < max_depth
                    ==> self.callers_of(r@[i]@[0].from).len() == 0 || incoming_expanded(
                    r@,
                    Seq::empty(),
                    0,
                    r@[i]@[0].from,
                ),
            self.callers_of(symbol@).len() == 0 ==> r@.len() == 0,
            max_depth == 1 ==> r@.len() == self.callers_of(symbol@).len() && (forall|i: int|
                0 <= i < r@.len() ==> (#[trigger] r@[i])@ == seq![
                    one_hop_in(self.callers_of(symbol@)[i], symbol@),
                ]),
    {
        let mut chains: Vec<CallChain> = Vec::new();
        if max_depth == 0 {
            return chains;
        }
        let ghost symv = symbol@;
        let ghost direct_e: Seq<EdgeV> = self.callers_of(symv);
        let direct = Self::rows_lookup(&self.callers, symbol);
        let symbol_string = String::from_str(symbol);
        let mut queue: Vec<(String, Vec<(String, usize, String, String)>, u32)> = Vec::new();
        let nd = direct.len();
        proof {
            assert(edges_view(direct@).len() == direct@.len());
        }
        let mut di: usize = 0;
        while di < nd
            invariant
                di <= nd,
                nd == direct@.len(),
                max_depth == 1 ==> queue@.len() == 0 && chains@.len() == di && (forall|i: int|
                    0 <= i < chains@.len() ==> (#[trigger] chains@[i])@ == seq![
                        one_hop_in(direct_e[i], symv),
                    ]),
                max_depth != 1 ==> chains@.len() == 0 && queue@.len() == di && (forall|k: int|
                    0 <= k < queue@.len() ==> self.in_entry_ok(
                        symv,
                        max_depth as int,
                        #[trigger] queue@[k],
                    )),
                max_depth != 1 ==> (forall|k: int|
                    0 <= k < queue@.len() ==> ends_with_hop(
                        crate::analyze::types::hops_view((#[trigger] queue@[k]).1@),
                        one_hop_in(direct_e[k], symv),
                    )),
            decreases nd - di,
        {
            let e = &direct[di];
            let ghost ev: EdgeV = direct_e[di as int];
            proof {
                assert(out_edge_item()(direct@[di as int]) == ev);
            }
            let mut path: Vec<(String, usize, String, String)> = Vec::new();
            path.push((e.0.clone(), e.1, e.2.clone(), symbol_string.clone()));
            proof {
                assert(crate::analyze::types::hops_view(path@) =~= seq![one_hop_in(ev, symv)]);
            }
            if max_depth == 1 {
                chains.push(CallChain { path });
            } else {
                queue.push((e.2.clone(), path, 1));
                proof {
                    let entry = queue@.last();
                    let hops = crate::analyze::types::hops_view(entry.1@);
                    assert(hops =~= seq![one_hop_in(ev, symv)]);
                    assert(self.callers_of(symv).contains(ev)) by {
                        assert(self.callers_of(symv)[di as int] == ev);
                    }
                    lemma_edges_for_sym_in(self.callers_rows(), symv, ev);
                    assert(self.in_entry_ok(symv, max_depth as int, entry));
                }
            }
            di = di + 1;
        }
        let ghost univ = edge_syms(self.callers_rows());
        proof {
            vstd::seq_lib::seq_to_set_is_finite(
                self.callers_rows().map_values(edge_sym_item()),
            );
            assert forall|ei: int| 0 <= ei < direct_e.len() implies incoming_witnessed(
                chains@,
                queue@,
                0,
                one_hop_in(#[trigger] direct_e[ei], symv),
            ) by {
                if max_depth == 1 {
                    assert(ends_with_hop(chains@[ei]@, one_hop_in(direct_e[ei], symv)));
                } else {
                    assert(ends_with_hop(
                        crate::analyze::types::hops_view(queue@[ei].1@),
                        one_hop_in(direct_e[ei], symv),
                    ));
                }
            }
        }
        let mut visited: Vec<String> = Vec::new();
        let mut head: usize = 0;
        #[verifier::loop_isolation(true)]
        while head < queue.len()
            invariant
                head <= queue@.len(),
                direct_e == self.callers_of(symv),
                univ == edge_syms(self.callers_rows()),
                forall|k: int|
                    head <= k < queue@.len() ==> self.in_entry_ok(
                        symv,
                        max_depth as int,
                        #[trigger] queue@[k],
                    ),
                forall|i: int|
                    0 <= i < chains@.len() ==> self.valid_incoming_chain(
                        symv,
                        max_depth as int,
                        (#[trigger] chains@[i])@,
                    ),
                chains@.len() + queue@.len() - head >= direct_e.len(),
                direct_e.len() == 0 ==> chains@.len() == 0 && queue@.len() == 0,
                max_depth == 1 ==> queue@.len() == 0 && chains@.len() == direct_e.len() && (
                forall|i: int|
                    0 <= i < chains@.len() ==> (#[trigger] chains@[i])@ == seq![
                        one_hop_in(direct_e[i], symv),
                    ]),
                forall|ei: int|
                    0 <= ei < direct_e.len() ==> incoming_witnessed(
                        chains@,
                        queue@,
                        head as int,
                        one_hop_in(#[trigger] direct_e[ei], symv),
                    ),
                forall|i: int|
                    0 <= i < chains@.len() && (#[trigger] chains@[i])@.len() < max_depth
                        ==> self.callers_of(chains@[i]@[0].from).len() == 0 || vis_views(
                        visited@,
                    ).contains(chains@[i]@[0].from),
                forall|s: Seq<char>|
                    #[trigger] vis_views(visited@).contains(s) ==> self.callers_of(s).len() == 0
                        || incoming_expanded(chains@, queue@, head as int, s),
                forall|i: int, j: int| 0 <= i < j < visited@.len() ==> visited@[i]@ != visited@[j]@,
                forall|i: int| 0 <= i < visited@.len() ==> univ.contains(#[trigger] visited@[i]@),
                visited@.len() <= univ.len(),
                univ.finite(),
            decreases univ.len() - visited@.len(), queue@.len() - head,
        {
            let ghost chains_at_entry = chains@;
            let ghost queue_at_entry = queue@;
            let ghost head_at_entry = head as int;
            let current: String = queue[head].0.clone();
            let depth: u32 = queue[head].2;
            let path = Self::clone_hops(&queue[head].1);
            let ghost entry = queue@[head as int];
            let ghost popped_last = crate::analyze::types::hops_view(entry.1@)[crate::analyze::types::hops_view(
                entry.1@,
            ).len() - 1];
            proof {
                assert(self.in_entry_ok(symv, max_depth as int, entry));
            }
            head = head + 1;
            if depth >= max_depth {
                chains.push(CallChain { path });
                proof {
                    assert(chains@[chains@.len() - 1]@ == crate::analyze::types::hops_view(
                        entry.1@,
                    ));
                    assert(ends_with_hop(chains@[chains@.len() - 1]@, popped_last));
                    lemma_incoming_witnesses(
                        chains_at_entry,
                        queue_at_entry,
                        head_at_entry,
                        chains@,
                        queue@,
                        head as int,
                        direct_e,
                        symv,
                        popped_last,
                    );
                    assert(chains@[chains_at_entry.len() as int]@ == crate::analyze::types::hops_view(
                        entry.1@,
                    ));
                    lemma_incoming_expanded_bulk(
                        self,
                        vis_views(visited@),
                        chains_at_entry,
                        queue_at_entry,
                        head_at_entry,
                        chains@,
                        queue@,
                        head as int,
                        crate::analyze::types::hops_view(entry.1@),
                    );
                }
                continue;
            }
            if Self::contains_sym(&visited, &current) {
                chains.push(CallChain { path });
                proof {
                    assert(chains@[chains@.len() - 1]@ == crate::analyze::types::hops_view(
                        entry.1@,
                    ));
                    assert(ends_with_hop(chains@[chains@.len() - 1]@, popped_last));
                    assert(chains@[chains@.len() - 1]@[0].from == entry.0@);
                    assert(vis_views(visited@).contains(current@));
                    lemma_incoming_witnesses(
                        chains_at_entry,
                        queue_at_entry,
                        head_at_entry,
                        chains@,
                        queue@,
                        head as int,
                        direct_e,
                        symv,
                        popped_last,
                    );
                    assert(chains@[chains_at_entry.len() as int]@ == crate::analyze::types::hops_view(
                        entry.1@,
                    ));
                    lemma_incoming_expanded_bulk(
                        self,
                        vis_views(visited@),
                        chains_at_entry,
                        queue_at_entry,
                        head_at_entry,
                        chains@,
                        queue@,
                        head as int,
                        crate::analyze::types::hops_view(entry.1@),
                    );
                }
                continue;
            }
            let ghost visited_pre = visited@;
            visited.push(current.clone());
            proof {
                assert(visited@ =~= visited_pre.push(current));
                assert forall|i: int, j: int| 0 <= i < j < visited@.len() implies visited@[i]@
                    != visited@[j]@ by {
                    if j == visited@.len() - 1 {
                        assert(visited@[i] == visited_pre[i]);
                        assert(vis_views(visited_pre)[i] == visited_pre[i]@);
                        assert(visited@[j]@ == current@);
                    } else {
                        assert(visited@[i] == visited_pre[i]);
                        assert(visited@[j] == visited_pre[j]);
                    }
                }
                assert(vis_views(visited@).no_duplicates()) by {
                    assert forall|i: int, j: int|
                        0 <= i < vis_views(visited@).len() && 0 <= j < vis_views(visited@).len()
                            && i != j implies vis_views(visited@)[i] != vis_views(visited@)[j] by {
                        assert(vis_views(visited@)[i] == visited@[i]@);
                        assert(vis_views(visited@)[j] == visited@[j]@);
                    }
                }
                assert forall|i: int| 0 <= i < vis_views(visited@).len() implies univ.contains(
                    #[trigger] vis_views(visited@)[i],
                ) by {
                    assert(vis_views(visited@)[i] == visited@[i]@);
                    if i < visited_pre.len() {
                        assert(visited@[i] == visited_pre[i]);
                        assert(univ.contains(visited_pre[i]@));
                    } else {
                        assert(visited@[i]@ == current@);
                    }
                }
                lemma_visited_bound(vis_views(visited@), univ);
                assert(vis_views(visited@).len() == visited@.len());
            }
            let edges = Self::rows_lookup(&self.callers, current.as_str());
            let ghost cur_edges: Seq<EdgeV> = self.callers_of(entry.0@);
            proof {
                assert(edges_view(edges@) == cur_edges);
                assert(edges_view(edges@).len() == edges@.len());
            }
            if edges.len() == 0 {
                chains.push(CallChain { path });
                proof {
                    assert(chains@[chains@.len() - 1]@ == crate::analyze::types::hops_view(
                        entry.1@,
                    ));
                    assert(ends_with_hop(chains@[chains@.len() - 1]@, popped_last));
                    assert(self.callers_of(entry.0@).len() == 0);
                    assert(vis_views(visited@)[visited@.len() - 1] == visited@[visited@.len()
                        - 1]@);
                    assert(vis_views(visited@).contains(current@));
                    lemma_incoming_witnesses(
                        chains_at_entry,
                        queue_at_entry,
                        head_at_entry,
                        chains@,
                        queue@,
                        head as int,
                        direct_e,
                        symv,
                        popped_last,
                    );
                    assert(chains@[chains_at_entry.len() as int]@ == crate::analyze::types::hops_view(
                        entry.1@,
                    ));
                    lemma_vis_views_push(visited_pre, visited@.last());
                    assert(visited@ =~= visited_pre.push(visited@.last()));
                    lemma_incoming_expanded_bulk(
                        self,
                        vis_views(visited_pre),
                        chains_at_entry,
                        queue_at_entry,
                        head_at_entry,
                        chains@,
                        queue@,
                        head as int,
                        crate::analyze::types::hops_view(entry.1@),
                    );
                    assert forall|s: Seq<char>| #[trigger] vis_views(visited@).contains(s)
                        implies self.callers_of(s).len() == 0 || incoming_expanded(
                        chains@,
                        queue@,
                        head as int,
                        s,
                    ) by {}
                    assert(visited@.last()@ == current@);
                    assert forall|i: int|
                        0 <= i < chains@.len() && (#[trigger] chains@[i])@.len() < max_depth
                            implies self.callers_of(chains@[i]@[0].from).len() == 0 || vis_views(
                            visited@,
                        ).contains(chains@[i]@[0].from) by {
                        if i < chains_at_entry.len() {
                            assert(chains@[i] == chains_at_entry[i]);
                            if self.callers_of(chains@[i]@[0].from).len() != 0 {
                                assert(vis_views(visited_pre).contains(chains@[i]@[0].from));
                            }
                        } else {
                            assert(chains@[i]@[0].from == entry.0@);
                        }
                    }
                }
                continue;
            }
            let ne = edges.len();
            let ghost chains0 = chains@;
            let ghost queue0 = queue@;
            let mut ei: usize = 0;
            while ei < ne
                invariant
                    ei <= ne,
                    ne == edges@.len(),
                    head <= queue@.len(),
                    chains@.len() + queue@.len() == chains0.len() + queue0.len() + ei,
                    chains@.len() >= chains0.len(),
                    forall|i: int| 0 <= i < chains0.len() ==> chains@[i] == chains0[i],
                    queue@.len() >= queue0.len(),
                    forall|k: int| 0 <= k < queue0.len() ==> queue@[k] == queue0[k],
                    ei >= 1 ==> ((exists|i: int|
                        chains0.len() <= i < chains@.len() && ends_with_hop(
                            (#[trigger] chains@[i])@,
                            popped_last,
                        )) || (exists|k: int|
                        queue0.len() <= k < queue@.len() && ends_with_hop(
                            crate::analyze::types::hops_view((#[trigger] queue@[k]).1@),
                            popped_last,
                        ))),
                    ei >= 1 ==> ((exists|i: int|
                        chains0.len() <= i < chains@.len() && extends_front(
                            (#[trigger] chains@[i])@,
                            crate::analyze::types::hops_view(entry.1@),
                        )) || (exists|k: int|
                        queue0.len() <= k < queue@.len() && extends_front(
                            crate::analyze::types::hops_view((#[trigger] queue@[k]).1@),
                            crate::analyze::types::hops_view(entry.1@),
                        ))),
                    forall|i: int|
                        chains0.len() <= i < chains@.len() ==> (#[trigger] chains@[i])@.len()
                            >= max_depth,
                    forall|k: int|
                        head <= k < queue@.len() ==> self.in_entry_ok(
                            symv,
                            max_depth as int,
                            #[trigger] queue@[k],
                        ),
                    forall|i: int|
                        0 <= i < chains@.len() ==> self.valid_incoming_chain(
                            symv,
                            max_depth as int,
                            (#[trigger] chains@[i])@,
                        ),
                decreases ne - ei,
            {
                let e = &edges[ei];
                let ghost ev: EdgeV = cur_edges[ei as int];
                proof {
                    assert(out_edge_item()(edges@[ei as int]) == ev);
                    assert(cur_edges.contains(ev)) by {
                        assert(cur_edges[ei as int] == ev);
                    }
                }
                let mut np: Vec<(String, usize, String, String)> = Vec::new();
                np.push((e.0.clone(), e.1, e.2.clone(), current.clone()));
                let mut tail = Self::clone_hops(&path);
                np.append(&mut tail);
                proof {
                    let hops = crate::analyze::types::hops_view(np@);
                    let oldhops = crate::analyze::types::hops_view(entry.1@);
                    assert(hops =~= seq![one_hop_in(ev, entry.0@)] + oldhops);
                    assert(hops[hops.len() - 1] == oldhops[oldhops.len() - 1]);
                    assert(ends_with_hop(hops, popped_last));
                    assert(extends_front(hops, oldhops)) by {
                        assert forall|j2: int| 0 <= j2 < oldhops.len() implies hops[j2 + 1] == (
                        #[trigger] oldhops[j2]) by {}
                    }
                    assert(hops[0].to == entry.0@ && oldhops[0].from == entry.0@);
                    assert(chain_linked(hops)) by {
                        assert forall|j: int| 0 <= j < hops.len() - 1 implies (
                        #[trigger] hops[j]).to == hops[j + 1].from by {
                            if j > 0 {
                                assert(oldhops[j - 1].to == oldhops[j].from);
                            }
                        }
                    }
                    assert(self.incoming_hops_ok(hops)) by {
                        assert forall|j: int| 0 <= j < hops.len() implies self.callers_of(
                            (#[trigger] hops[j]).to,
                        ).contains(
                            EdgeV { file: hops[j].file, line: hops[j].line, sym: hops[j].from },
                        ) by {
                            if j > 0 {
                                assert(hops[j] == oldhops[j - 1]);
                            }
                        }
                    }
                    assert(hops[hops.len() - 1].to == symv);
                    assert(hops.len() == depth + 1);
                }
                if depth + 1 >= max_depth {
                    chains.push(CallChain { path: np });
                    proof {
                        assert(ends_with_hop(chains@[chains@.len() - 1]@, popped_last));
                        assert(extends_front(
                            chains@[chains@.len() - 1]@,
                            crate::analyze::types::hops_view(entry.1@),
                        ));
                    }
                } else {
                    queue.push((e.2.clone(), np, depth + 1));
                    proof {
                        lemma_edges_for_sym_in(self.callers_rows(), entry.0@, ev);
                        assert(self.in_entry_ok(symv, max_depth as int, queue@.last()));
                        assert(ends_with_hop(
                            crate::analyze::types::hops_view(queue@[queue@.len() - 1].1@),
                            popped_last,
                        ));
                        assert(extends_front(
                            crate::analyze::types::hops_view(queue@[queue@.len() - 1].1@),
                            crate::analyze::types::hops_view(entry.1@),
                        ));
                    }
                }
                ei = ei + 1;
            }
            proof {
                lemma_incoming_witnesses(
                    chains_at_entry,
                    queue_at_entry,
                    head_at_entry,
                    chains@,
                    queue@,
                    head as int,
                    direct_e,
                    symv,
                    popped_last,
                );
                let ghost oldhops = crate::analyze::types::hops_view(entry.1@);
                lemma_vis_views_push(visited_pre, visited@.last());
                assert(visited@ =~= visited_pre.push(visited@.last()));
                lemma_incoming_expanded_bulk(
                    self,
                    vis_views(visited_pre),
                    chains_at_entry,
                    queue_at_entry,
                    head_at_entry,
                    chains@,
                    queue@,
                    head as int,
                    oldhops,
                );
                lemma_incoming_fresh_expanded(
                    chains0.len() as int,
                    queue0.len() as int,
                    chains@,
                    queue@,
                    head as int,
                    oldhops,
                    current@,
                );
                assert forall|s: Seq<char>| #[trigger] vis_views(visited@).contains(s)
                    implies self.callers_of(s).len() == 0 || incoming_expanded(
                    chains@,
                    queue@,
                    head as int,
                    s,
                ) by {}
                assert forall|i: int|
                    0 <= i < chains@.len() && (#[trigger] chains@[i])@.len() < max_depth
                        implies self.callers_of(chains@[i]@[0].from).len() == 0 || vis_views(
                        visited@,
                    ).contains(chains@[i]@[0].from) by {
                    if i < chains0.len() {
                        assert(chains@[i] == chains_at_entry[i]);
                        if self.callers_of(chains@[i]@[0].from).len() != 0 {
                            assert(vis_views(visited_pre).contains(chains@[i]@[0].from));
                        }
                    } else {
                        assert(chains@[i]@.len() >= max_depth);
                    }
                }
            }
        }
        proof {
            assert(head == queue@.len());
            assert forall|ei: int| 0 <= ei < direct_e.len() implies incoming_witnessed(
                chains@,
                Seq::empty(),
                0,
                one_hop_in(#[trigger] direct_e[ei], symv),
            ) by {
                assert(incoming_witnessed(
                    chains@,
                    queue@,
                    head as int,
                    one_hop_in(direct_e[ei], symv),
                ));
            }
            assert forall|i: int|
                0 <= i < chains@.len() && (#[trigger] chains@[i])@.len() < max_depth
                    implies self.callers_of(chains@[i]@[0].from).len() == 0 || incoming_expanded(
                chains@,
                Seq::empty(),
                0,
                chains@[i]@[0].from,
            ) by {
                let hf = chains@[i]@[0].from;
                if self.callers_of(hf).len() != 0 {
                    assert(vis_views(visited@).contains(hf));
                    assert(incoming_expanded(chains@, queue@, head as int, hf));
                }
            }
        }
        chains
    }

    /// Breadth-first discovery of callee chains leaving `symbol`; the mirror
    /// image of incoming discovery over the callees index.
    #[verifier::loop_isolation(false)]
    #[verifier::rlimit(100)]
    #[verifier::spinoff_prover]
    pub fn find_outgoing_chains(&self, symbol: &str, max_depth: u32) -> (r: Vec<CallChain>)
        ensures
            max_depth == 0 ==> r@.len() == 0,
            forall|i: int|
                0 <= i < r@.len() ==> self.valid_outgoing_chain(
                    symbol@,
                    max_depth as int,
                    (#[trigger] r@[i])@,
                ),
            max_depth >= 1 ==> r@.len() >= self.callees_of(symbol@).len(),
            max_depth >= 1 ==> (forall|ei: int|
                0 <= ei < self.callees_of(symbol@).len() ==> outgoing_witnessed(
                    r@,
                    Seq::empty(),
                    0,
                    one_hop_out(#[trigger] self.callees_of(symbol@)[ei], symbol@),
                )),
            forall|i: int|
                0 <= i < r@.len() && (#[trigger] r@[i])@.len() < max_depth
                    ==> self.callees_of(r@[i]@[r@[i]@.len() - 1].to).len() == 0
                    || outgoing_expanded(r@, Seq::empty(), 0, r@[i]@[r@[i]@.len() - 1].to),
            self.callees_of(symbol@).len() == 0 ==> r@.len() == 0,
            max_depth == 1 ==> r@.len() == self.callees_of(symbol@).len() && (forall|i: int|
                0 <= i < r@.len() ==> (#[trigger] r@[i])@ == seq![
                    one_hop_out(self.callees_of(symbol@)[i], symbol@),
                ]),
    {
        let mut chains: Vec<CallChain> = Vec::new();
        if max_depth == 0 {
            return chains;
        }
        let ghost symv = symbol@;
        let ghost direct_e: Seq<EdgeV> = self.callees_of(symv);
        let direct = Self::rows_lookup(&self.callees, symbol);
        let symbol_string = String::from_str(symbol);
        let mut queue: Vec<(String, Vec<(String, usize, String, String)>, u32)> = Vec::new();
        let nd = direct.len();
        proof {
            assert(edges_view(direct@).len() == direct@.len());
        }
        let mut di: usize = 0;
        while di < nd
            invariant
                di <= nd,
                nd == direct@.len(),
                max_depth == 1 ==> queue@.len() == 0 && chains@.len() == di && (forall|i: int|
                    0 <= i < chains@.len() ==> (#[trigger] chains@[i])@ == seq![
                        one_hop_out(direct_e[i], symv),
                    ]),
                max_depth != 1 ==> chains@.len() == 0 && queue@.len() == di && (forall|k: int|
                    0 <= k < queue@.len() ==> self.out_entry_ok(
                        symv,
                        max_depth as int,
                        #[trigger] queue@[k],
                    )),
                max_depth != 1 ==> (forall|k: int|
                    0 <= k < queue@.len() ==> starts_with_hop(
                        crate::analyze::types::hops_view((#[trigger] queue@[k]).1@),
                        one_hop_out(direct_e[k], symv),
                    )),
            decreases nd - di,
        {
            let e = &direct[di];
            let ghost ev: EdgeV = direct_e[di as int];
            proof {
                assert(out_edge_item()(direct@[di as int]) == ev);
            }
            let mut path: Vec<(String, usize, String, String)> = Vec::new();
            path.push((e.0.clone(), e.1, symbol_string.clone(), e.2.clone()));
            proof {
                assert(crate::analyze::types::hops_view(path@) =~= seq![one_hop_out(ev, symv)]);
            }
            if max_depth == 1 {
                chains.push(CallChain { path });
            } else {
                queue.push((e.2.clone(), path, 1));
                proof {
                    let entry = queue@.last();
                    let hops = crate::analyze::types::hops_view(entry.1@);
                    assert(hops =~= seq![one_hop_out(ev, symv)]);
                    assert(self.callees_of(symv).contains(ev)) by {
                        assert(self.callees_of(symv)[di as int] == ev);
                    }
                    lemma_edges_for_sym_in(self.callees_rows(), symv, ev);
                    assert(self.out_entry_ok(symv, max_depth as int, entry));
                }
            }
            di = di + 1;
        }
        let ghost univ = edge_syms(self.callees_rows());
        proof {
            vstd::seq_lib::seq_to_set_is_finite(
                self.callees_rows().map_values(edge_sym_item()),
            );
            assert forall|ei: int| 0 <= ei < direct_e.len() implies outgoing_witnessed(
                chains@,
                queue@,
                0,
                one_hop_out(#[trigger] direct_e[ei], symv),
            ) by {
                if max_depth == 1 {
                    assert(starts_with_hop(chains@[ei]@, one_hop_out(direct_e[ei], symv)));
                } else {
                    assert(starts_with_hop(
                        crate::analyze::types::hops_view(queue@[ei].1@),
                        one_hop_out(direct_e[ei], symv),
                    ));
                }
            }
        }
        let mut visited: Vec<String> = Vec::new();
        let mut head: usize = 0;
        #[verifier::loop_isolation(true)]
        while head < queue.len()
            invariant
                head <= queue@.len(),
                direct_e == self.callees_of(symv),
                univ == edge_syms(self.callees_rows()),
                forall|k: int|
                    head <= k < queue@.len() ==> self.out_entry_ok(
                        symv,
                        max_depth as int,
                        #[trigger] queue@[k],
                    ),
                forall|i: int|
                    0 <= i < chains@.len() ==> self.valid_outgoing_chain(
                        symv,
                        max_depth as int,
                        (#[trigger] chains@[i])@,
                    ),
                chains@.len() + queue@.len() - head >= direct_e.len(),
                direct_e.len() == 0 ==> chains@.len() == 0 && queue@.len() == 0,
                max_depth == 1 ==> queue@.len() == 0 && chains@.len() == direct_e.len() && (
                forall|i: int|
                    0 <= i < chains@.len() ==> (#[trigger] chains@[i])@ == seq![
                        one_hop_out(direct_e[i], symv),
                    ]),
                forall|ei: int|
                    0 <= ei < direct_e.len() ==> outgoing_witnessed(
                        chains@,
                        queue@,
                        head as int,
                        one_hop_out(#[trigger] direct_e[ei], symv),
                    ),
                forall|i: int|
                    0 <= i < chains@.len() && (#[trigger] chains@[i])@.len() < max_depth
                        ==> self.callees_of(chains@[i]@[chains@[i]@.len() - 1].to).len() == 0
                        || vis_views(visited@).contains(chains@[i]@[chains@[i]@.len() - 1].to),
                forall|s: Seq<char>|
                    #[trigger] vis_views(visited@).contains(s) ==> self.callees_of(s).len() == 0
                        || outgoing_expanded(chains@, queue@, head as int, s),
                forall|i: int, j: int| 0 <= i < j < visited@.len() ==> visited@[i]@ != visited@[j]@,
                forall|i: int| 0 <= i < visited@.len() ==> univ.contains(#[trigger] visited@[i]@),
                visited@.len() <= univ.len(),
                univ.finite(),
            decreases univ.len() - visited@.len(), queue@.len() - head,
        {
            let ghost chains_at_entry = chains@;
            let ghost queue_at_entry = queue@;
            let ghost head_at_entry = head as int;
            let current: String = queue[head].0.clone();
            let depth: u32 = queue[head].2;
            let path = Self::clone_hops(&queue[head].1);
            let ghost entry = queue@[head as int];
            let ghost popped_first = crate::analyze::types::hops_view(entry.1@)[0];
            proof {
                assert(self.out_entry_ok(symv, max_depth as int, entry));
            }
            head = head + 1;
            if depth >= max_depth {
                chains.push(CallChain { path });
                proof {
                    assert(chains@[chains@.len() - 1]@ == crate::analyze::types::hops_view(
                        entry.1@,
                    ));
                    assert(starts_with_hop(chains@[chains@.len() - 1]@, popped_first));
                    lemma_outgoing_witnesses(
                        chains_at_entry,
                        queue_at_entry,
                        head_at_entry,
                        chains@,
                        queue@,
                        head as int,
                        direct_e,
                        symv,
                        popped_first,
                    );
                    lemma_outgoing_expanded_bulk(
                        self,
                        vis_views(visited@),
                        chains_at_entry,
                        queue_at_entry,
                        head_at_entry,
                        chains@,
                        queue@,
                        head as int,
                        crate::analyze::types::hops_view(entry.1@),
                    );
                }
                continue;
            }
            if Self::contains_sym(&visited, &current) {
                chains.push(CallChain { path });
                proof {
                    assert(chains@[chains@.len() - 1]@ == crate::analyze::types::hops_view(
                        entry.1@,
                    ));
                    assert(starts_with_hop(chains@[chains@.len() - 1]@, popped_first));
                    assert(chains@[chains@.len() - 1]@[chains@[chains@.len() - 1]@.len() - 1].to
                        == entry.0@);
                    assert(vis_views(visited@).contains(current@));
                    lemma_outgoing_witnesses(
                        chains_at_entry,
                        queue_at_entry,
                        head_at_entry,
                        chains@,
                        queue@,
                        head as int,
                        direct_e,
                        symv,
                        popped_first,
                    );
                    lemma_outgoing_expanded_bulk(
                        self,
                        vis_views(visited@),
                        chains_at_entry,
                        queue_at_entry,
                        head_at_entry,
                        chains@,
                        queue@,
                        head as int,
                        crate::analyze::types::hops_view(entry.1@),
                    );
                }
                continue;
            }
            let ghost visited_pre = visited@;
            visited.push(current.clone());
            proof {
                assert(visited@ =~= visited_pre.push(current));
                assert forall|i: int, j: int| 0 <= i < j < visited@.len() implies visited@[i]@
                    != visited@[j]@ by {
                    if j == visited@.len() - 1 {
                        assert(visited@[i] == visited_pre[i]);
                        assert(vis_views(visited_pre)[i] == visited_pre[i]@);
                        assert(visited@[j]@ == current@);
                    } else {
                        assert(visited@[i] == visited_pre[i]);
                        assert(visited@[j] == visited_pre[j]);
                    }
                }
                assert(vis_views(visited@).no_duplicates()) by {
                    assert forall|i: int, j: int|
                        0 <= i < vis_views(visited@).len() && 0 <= j < vis_views(visited@).len()
                            && i != j implies vis_views(visited@)[i] != vis_views(visited@)[j] by {
                        assert(vis_views(visited@)[i] == visited@[i]@);
                        assert(vis_views(visited@)[j] == visited@[j]@);
                    }
                }
                assert forall|i: int| 0 <= i < vis_views(visited@).len() implies univ.contains(
                    #[trigger] vis_views(visited@)[i],
                ) by {
                    assert(vis_views(visited@)[i] == visited@[i]@);
                    if i < visited_pre.len() {
                        assert(visited@[i] == visited_pre[i]);
                        assert(univ.contains(visited_pre[i]@));
                    } else {
                        assert(visited@[i]@ == current@);
                    }
                }
                lemma_visited_bound(vis_views(visited@), univ);
                assert(vis_views(visited@).len() == visited@.len());
            }
            let edges = Self::rows_lookup(&self.callees, current.as_str());
            let ghost cur_edges: Seq<EdgeV> = self.callees_of(entry.0@);
            proof {
                assert(edges_view(edges@) == cur_edges);
                assert(edges_view(edges@).len() == edges@.len());
            }
            if edges.len() == 0 {
                chains.push(CallChain { path });
                proof {
                    assert(chains@[chains@.len() - 1]@ == crate::analyze::types::hops_view(
                        entry.1@,
                    ));
                    assert(starts_with_hop(chains@[chains@.len() - 1]@, popped_first));
                    assert(self.callees_of(entry.0@).len() == 0);
                    assert(vis_views(visited@)[visited@.len() - 1] == visited@[visited@.len()
                        - 1]@);
                    assert(vis_views(visited@).contains(current@));
                    lemma_outgoing_witnesses(
                        chains_at_entry,
                        queue_at_entry,
                        head_at_entry,
                        chains@,
                        queue@,
                        head as int,
                        direct_e,
                        symv,
                        popped_first,
                    );
                    lemma_vis_views_push(visited_pre, visited@.last());
                    assert(visited@ =~= visited_pre.push(visited@.last()));
                    lemma_outgoing_expanded_bulk(
                        self,
                        vis_views(visited_pre),
                        chains_at_entry,
                        queue_at_entry,
                        head_at_entry,
                        chains@,
                        queue@,
                        head as int,
                        crate::analyze::types::hops_view(entry.1@),
                    );
                    assert forall|s: Seq<char>| #[trigger] vis_views(visited@).contains(s)
                        implies self.callees_of(s).len() == 0 || outgoing_expanded(
                        chains@,
                        queue@,
                        head as int,
                        s,
                    ) by {}
                    assert(visited@.last()@ == current@);
                    assert forall|i: int|
                        0 <= i < chains@.len() && (#[trigger] chains@[i])@.len() < max_depth
                            implies self.callees_of(
                            chains@[i]@[chains@[i]@.len() - 1].to,
                        ).len() == 0 || vis_views(visited@).contains(
                            chains@[i]@[chains@[i]@.len() - 1].to,
                        ) by {
                        if i < chains_at_entry.len() {
                            assert(chains@[i] == chains_at_entry[i]);
                            if self.callees_of(chains@[i]@[chains@[i]@.len() - 1].to).len() != 0 {
                                assert(vis_views(visited_pre).contains(
                                    chains@[i]@[chains@[i]@.len() - 1].to,
                                ));
                            }
                        } else {
                            assert(chains@[i]@[chains@[i]@.len() - 1].to == entry.0@);
                        }
                    }
                }
                continue;
            }
            let ne = edges.len();
            let ghost chains0 = chains@;
            let ghost queue0 = queue@;
            let mut ei: usize = 0;
            while ei < ne
                invariant
                    ei <= ne,
                    ne == edges@.len(),
                    head <= queue@.len(),
                    chains@.len() + queue@.len() == chains0.len() + queue0.len() + ei,
                    chains@.len() >= chains0.len(),
                    forall|i: int| 0 <= i < chains0.len() ==> chains@[i] == chains0[i],
                    queue@.len() >= queue0.len(),
                    forall|k: int| 0 <= k < queue0.len() ==> queue@[k] == queue0[k],
                    ei >= 1 ==> ((exists|i: int|
                        chains0.len() <= i < chains@.len() && starts_with_hop(
                            (#[trigger] chains@[i])@,
                            popped_first,
                        )) || (exists|k: int|
                        queue0.len() <= k < queue@.len() && starts_with_hop(
                            crate::analyze::types::hops_view((#[trigger] queue@[k]).1@),
                            popped_first,
                        ))),
                    ei >= 1 ==> ((exists|i: int|
                        chains0.len() <= i < chains@.len() && extends_back(
                            (#[trigger] chains@[i])@,
                            crate::analyze::types::hops_view(entry.1@),
                        )) || (exists|k: int|
                        queue0.len() <= k < queue@.len() && extends_back(
                            crate::analyze::types::hops_view((#[trigger] queue@[k]).1@),
                            crate::analyze::types::hops_view(entry.1@),
                        ))),
                    forall|i: int|
                        chains0.len() <= i < chains@.len() ==> (#[trigger] chains@[i])@.len()
                            >= max_depth,
                    forall|k: int|
                        head <= k < queue@.len() ==> self.out_entry_ok(
                            symv,
                            max_depth as int,
                            #[trigger] queue@[k],
                        ),
                    forall|i: int|
                        0 <= i < chains@.len() ==> self.valid_outgoing_chain(
                            symv,
                            max_depth as int,
                            (#[trigger] chains@[i])@,
                        ),
                decreases ne - ei,
            {
                let e = &edges[ei];
                let ghost ev: EdgeV = cur_edges[ei as int];
                proof {
                    assert(out_edge_item()(edges@[ei as int]) == ev);
                    assert(cur_edges.contains(ev)) by {
                        assert(cur_edges[ei as int] == ev);
                    }
                }
                let mut np = Self::clone_hops(&path);
                np.push((e.0.clone(), e.1, current.clone(), e.2.clone()));
                proof {
                    let hops = crate::analyze::types::hops_view(np@);
                    let oldhops = crate::analyze::types::hops_view(entry.1@);
                    assert(hops =~= oldhops + seq![one_hop_out(ev, entry.0@)]);
                    assert(hops[0] == oldhops[0]);
                    assert(starts_with_hop(hops, popped_first));
                    assert(extends_back(hops, oldhops)) by {
                        assert forall|j2: int| 0 <= j2 < oldhops.len() implies hops[j2] == (
                        #[trigger] oldhops[j2]) by {}
                    }
                    assert(oldhops[oldhops.len() - 1].to == entry.0@);
                    assert(chain_linked(hops)) by {
                        assert forall|j: int| 0 <= j < hops.len() - 1 implies (
                        #[trigger] hops[j]).to == hops[j + 1].from by {
                            if j < oldhops.len() - 1 {
                                assert(oldhops[j].to == oldhops[j + 1].from);
                            }
                        }
                    }
                    assert(self.outgoing_hops_ok(hops)) by {
                        assert forall|j: int| 0 <= j < hops.len() implies self.callees_of(
                            (#[trigger] hops[j]).from,
                        ).contains(
                            EdgeV { file: hops[j].file, line: hops[j].line, sym: hops[j].to },
                        ) by {
                            if j < oldhops.len() {
                                assert(hops[j] == oldhops[j]);
                            }
                        }
                    }
                    assert(hops[0].from == symv);
                    assert(hops.len() == depth + 1);
                }
                if depth + 1 >= max_depth {
                    chains.push(CallChain { path: np });
                    proof {
                        assert(starts_with_hop(chains@[chains@.len() - 1]@, popped_first));
                        assert(extends_back(
                            chains@[chains@.len() - 1]@,
                            crate::analyze::types::hops_view(entry.1@),
                        ));
                    }
                } else {
                    queue.push((e.2.clone(), np, depth + 1));
                    proof {
                        lemma_edges_for_sym_in(self.callees_rows(), entry.0@, ev);
                        assert(self.out_entry_ok(symv, max_depth as int, queue@.last()));
                        assert(starts_with_hop(
                            crate::analyze::types::hops_view(queue@[queue@.len() - 1].1@),
                            popped_first,
                        ));
                        assert(extends_back(
                            crate::analyze::types::hops_view(queue@[queue@.len() - 1].1@),
                            crate::analyze::types::hops_view(entry.1@),
                        ));
                    }
                }
                ei = ei + 1;
            }
            proof {
                lemma_outgoing_witnesses(
                    chains_at_entry,
                    queue_at_entry,
                    head_at_entry,
                    chains@,
                    queue@,
                    head as int,
                    direct_e,
                    symv,
                    popped_first,
                );
                let ghost oldhops = crate::analyze::types::hops_view(entry.1@);
                lemma_vis_views_push(visited_pre, visited@.last());
                assert(visited@ =~= visited_pre.push(visited@.last()));
                lemma_outgoing_expanded_bulk(
                    self,
                    vis_views(visited_pre),
                    chains_at_entry,
                    queue_at_entry,
                    head_at_entry,
                    chains@,
                    queue@,
                    head as int,
                    oldhops,
                );
                lemma_outgoing_fresh_expanded(
                    chains0.len() as int,
                    queue0.len() as int,
                    chains@,
                    queue@,
                    head as int,
                    oldhops,
                    current@,
                );
                assert forall|s: Seq<char>| #[trigger] vis_views(visited@).contains(s)
                    implies self.callees_of(s).len() == 0 || outgoing_expanded(
                    chains@,
                    queue@,
                    head as int,
                    s,
                ) by {}
                assert forall|i: int|
                    0 <= i < chains@.len() && (#[trigger] chains@[i])@.len() < max_depth
                        implies self.callees_of(chains@[i]@[chains@[i]@.len() - 1].to).len() == 0
                        || vis_views(visited@).contains(
                        chains@[i]@[chains@[i]@.len() - 1].to,
                    ) by {
                    if i < chains0.len() {
                        assert(chains@[i] == chains_at_entry[i]);
                        if self.callees_of(chains@[i]@[chains@[i]@.len() - 1].to).len() != 0 {
                            assert(vis_views(visited_pre).contains(
                                chains@[i]@[chains@[i]@.len() - 1].to,
                            ));
                        }
                    } else {
                        assert(chains@[i]@.len() >= max_depth);
                    }
                }
            }
        }
        proof {
            assert(head == queue@.len());
            assert forall|ei: int| 0 <= ei < direct_e.len() implies outgoing_witnessed(
                chains@,
                Seq::empty(),
                0,
                one_hop_out(#[trigger] direct_e[ei], symv),
            ) by {
                assert(outgoing_witnessed(
                    chains@,
                    queue@,
                    head as int,
                    one_hop_out(direct_e[ei], symv),
                ));
            }
            assert forall|i: int|
                0 <= i < chains@.len() && (#[trigger] chains@[i])@.len() < max_depth
                    implies self.callees_of(chains@[i]@[chains@[i]@.len() - 1].to).len() == 0
                    || outgoing_expanded(
                    chains@,
                    Seq::empty(),
                    0,
                    chains@[i]@[chains@[i]@.len() - 1].to,
                ) by {
                let ht = chains@[i]@[chains@[i]@.len() - 1].to;
                if self.callees_of(ht).len() != 0 {
                    assert(vis_views(visited@).contains(ht));
                    assert(outgoing_expanded(chains@, queue@, head as int, ht));
                }
            }
        }
        chains
    }
}


/// Carries one symbol's expansion witness forward across one incoming
/// discovery step: a witness elsewhere survives untouched; a witness in
/// the entry just taken from the frontier is re-witnessed by whatever that
/// entry produced, which holds its whole path.
proof fn lemma_incoming_expanded_transfer(
    chains0: Seq<CallChain>,
    queue0: Seq<(String, Vec<(String, usize, String, String)>, u32)>,
    head0: int,
    chains1: Seq<CallChain>,
    queue1: Seq<(String, Vec<(String, usize, String, String)>, u32)>,
    head1: int,
    popped_hops: Seq<HopV>,
    s: Seq<char>,
)
    requires
        incoming_expanded(chains0, queue0, head0, s),
        0 <= head0 < queue0.len(),
        head1 == head0 + 1,
        crate::analyze::types::hops_view(queue0[head0].1@) == popped_hops,
        chains1.len() >= chains0.len(),
        forall|i: int| 0 <= i < chains0.len() ==> chains1[i] == chains0[i],
        queue1.len() >= queue0.len(),
        forall|k: int| 0 <= k < queue0.len() ==> queue1[k] == queue0[k],
        (exists|i: int|
            chains0.len() <= i < chains1.len() && ((#[trigger] chains1[i])@ == popped_hops
                || extends_front(chains1[i]@, popped_hops))) || (exists|k: int|
            queue0.len() <= k < queue1.len() && (crate::analyze::types::hops_view(
                (#[trigger] queue1[k]).1@,
            ) == popped_hops || extends_front(
                crate::analyze::types::hops_view(queue1[k].1@),
                popped_hops,
            ))),
    ensures
        incoming_expanded(chains1, queue1, head1, s),
{
    if exists|i: int| 0 <= i < chains0.len() && mid_from((#[trigger] chains0[i])@, s) {
        let i = choose|i: int| 0 <= i < chains0.len() && mid_from((#[trigger] chains0[i])@, s);
        assert(chains1[i] == chains0[i]);
        assert(mid_from(chains1[i]@, s));
    } else {
        let k = choose|k: int|
            head0 <= k < queue0.len() && mid_from(
                crate::analyze::types::hops_view((#[trigger] queue0[k]).1@),
                s,
            );
        if k != head0 {
            assert(queue1[k] == queue0[k]);
            assert(mid_from(crate::analyze::types::hops_view(queue1[k].1@), s));
        } else {
            let j = choose|j: int| 1 <= j < popped_hops.len() && popped_hops[j].from == s;
            if exists|i: int|
                chains0.len() <= i < chains1.len() && ((#[trigger] chains1[i])@ == popped_hops
                    || extends_front(chains1[i]@, popped_hops)) {
                let i = choose|i: int|
                    chains0.len() <= i < chains1.len() && ((#[trigger] chains1[i])@ == popped_hops
                        || extends_front(chains1[i]@, popped_hops));
                if chains1[i]@ == popped_hops {
                    assert(mid_from(chains1[i]@, s));
                } else {
                    assert(chains1[i]@[j + 1] == popped_hops[j]);
                    assert(mid_from(chains1[i]@, s));
                }
            } else {
                let k2 = choose|k2: int|
                    queue0.len() <= k2 < queue1.len() && (crate::analyze::types::hops_view(
                        (#[trigger] queue1[k2]).1@,
                    ) == popped_hops || extends_front(
                        crate::analyze::types::hops_view(queue1[k2].1@),
                        popped_hops,
                    ));
                let h2 = crate::analyze::types::hops_view(queue1[k2].1@);
                if h2 == popped_hops {
                    assert(mid_from(h2, s));
                } else {
                    assert(h2[j + 1] == popped_hops[j]);
                    assert(mid_from(h2, s));
                }
            }
        }
    }
}

/// Bulk form of the expansion-witness transfer: every already-expanded
/// symbol keeps its witness across one incoming discovery step.
proof fn lemma_incoming_expanded_bulk(
    g: &CallGraph,
    vis: Seq<Seq<char>>,
    chains0: Seq<CallChain>,
    queue0: Seq<(String, Vec<(String, usize, String, String)>, u32)>,
    head0: int,
    chains1: Seq<CallChain>,
    queue1: Seq<(String, Vec<(String, usize, String, String)>, u32)>,
    head1: int,
    popped_hops: Seq<HopV>,
)
    requires
        forall|s: Seq<char>|
            #[trigger] vis.contains(s) ==> g.callers_of(s).len() == 0 || incoming_expanded(
                chains0,
                queue0,
                head0,
                s,
            ),
        0 <= head0 < queue0.len(),
        head1 == head0 + 1,
        crate::analyze::types::hops_view(queue0[head0].1@) == popped_hops,
        chains1.len() >= chains0.len(),
        forall|i: int| 0 <= i < chains0.len() ==> chains1[i] == chains0[i],
        queue1.len() >= queue0.len(),
        forall|k: int| 0 <= k < queue0.len() ==> queue1[k] == queue0[k],
        (exists|i: int|
            chains0.len() <= i < chains1.len() && ((#[trigger] chains1[i])@ == popped_hops
                || extends_front(chains1[i]@, popped_hops))) || (exists|k: int|
            queue0.len() <= k < queue1.len() && (crate::analyze::types::hops_view(
                (#[trigger] queue1[k]).1@,
            ) == popped_hops || extends_front(
                crate::analyze::types::hops_view(queue1[k].1@),
                popped_hops,
            ))),
    ensures
        forall|s: Seq<char>|
            #[trigger] vis.contains(s) ==> g.callers_of(s).len() == 0 || incoming_expanded(
                chains1,
                queue1,
                head1,
                s,
            ),
{
    assert forall|s: Seq<char>|
        #[trigger] vis.contains(s) && g.callers_of(s).len() != 0 implies incoming_expanded(
        chains1,
        queue1,
        head1,
        s,
    ) by {
        lemma_incoming_expanded_transfer(
            chains0,
            queue0,
            head0,
            chains1,
            queue1,
            head1,
            popped_hops,
            s,
        );
    }
}

/// The views of a grown visited list: its members are the old members plus
/// the pushed symbol.
proof fn lemma_vis_views_push(pre: Seq<String>, x: String)
    ensures
        forall|s: Seq<char>|
            #[trigger] vis_views(pre.push(x)).contains(s) ==> s == x@ || vis_views(pre).contains(
                s,
            ),
        vis_views(pre.push(x)).contains(x@),
        forall|s: Seq<char>|
            #[trigger] vis_views(pre).contains(s) ==> vis_views(pre.push(x)).contains(s),
{
    let post = pre.push(x);
    assert(vis_views(post)[pre.len() as int] == post[pre.len() as int]@);
    assert forall|s: Seq<char>| #[trigger] vis_views(post).contains(s) implies s == x@
        || vis_views(pre).contains(s) by {
        let idx = choose|idx: int| 0 <= idx < vis_views(post).len() && vis_views(post)[idx] == s;
        assert(vis_views(post)[idx] == post[idx]@);
        if idx < pre.len() {
            assert(post[idx] == pre[idx]);
            assert(vis_views(pre)[idx] == pre[idx]@);
        }
    }
    assert forall|s: Seq<char>| #[trigger] vis_views(pre).contains(s) implies vis_views(
        post,
    ).contains(s) by {
        let idx = choose|idx: int| 0 <= idx < vis_views(pre).len() && vis_views(pre)[idx] == s;
        assert(vis_views(pre)[idx] == pre[idx]@);
        assert(vis_views(post)[idx] == post[idx]@);
    }
}

/// A fresh expansion witness for the symbol just expanded: whatever its
/// entry produced starts with a hop into that symbol one step in.
proof fn lemma_incoming_fresh_expanded(
    chains0len: int,
    queue0len: int,
    chains1: Seq<CallChain>,
    queue1: Seq<(String, Vec<(String, usize, String, String)>, u32)>,
    head1: int,
    oldhops: Seq<HopV>,
    cur: Seq<char>,
)
    requires
        oldhops.len() >= 1,
        oldhops[0].from == cur,
        head1 <= queue0len,
        (exists|i: int|
            chains0len <= i < chains1.len() && extends_front(
                (#[trigger] chains1[i])@,
                oldhops,
            )) || (exists|k: int|
            queue0len <= k < queue1.len() && extends_front(
                crate::analyze::types::hops_view((#[trigger] queue1[k]).1@),
                oldhops,
            )),
        chains0len >= 0,
    ensures
        incoming_expanded(chains1, queue1, head1, cur),
{
    if exists|i: int|
        chains0len <= i < chains1.len() && extends_front((#[trigger] chains1[i])@, oldhops) {
        let i = choose|i: int|
            chains0len <= i < chains1.len() && extends_front((#[trigger] chains1[i])@, oldhops);
        assert(chains1[i]@[1] == oldhops[0]);
        assert(mid_from(chains1[i]@, cur));
    } else {
        let k = choose|k: int|
            queue0len <= k < queue1.len() && extends_front(
                crate::analyze::types::hops_view((#[trigger] queue1[k]).1@),
                oldhops,
            );
        let h = crate::analyze::types::hops_view(queue1[k].1@);
        assert(h[1] == oldhops[0]);
        assert(mid_from(h, cur));
    }
}

/// Carries the per-edge witness forward across one discovery step: every
/// direct edge that had a finished chain keeps it; one whose witness was
/// the entry just taken from the frontier is re-witnessed by whatever that
/// entry produced.
proof fn lemma_incoming_witnesses(
    chains0: Seq<CallChain>,
    queue0: Seq<(String, Vec<(String, usize, String, String)>, u32)>,
    head0: int,
    chains1: Seq<CallChain>,
    queue1: Seq<(String, Vec<(String, usize, String, String)>, u32)>,
    head1: int,
    direct_e: Seq<EdgeV>,
    symv: Seq<char>,
    popped_last: HopV,
)
    requires
        forall|ei: int|
            0 <= ei < direct_e.len() ==> incoming_witnessed(
                chains0,
                queue0,
                head0,
                one_hop_in(#[trigger] direct_e[ei], symv),
            ),
        0 <= head0 < queue0.len(),
        head1 == head0 + 1,
        ends_with_hop(crate::analyze::types::hops_view(queue0[head0].1@), popped_last),
        chains1.len() >= chains0.len(),
        forall|i: int| 0 <= i < chains0.len() ==> chains1[i] == chains0[i],
        queue1.len() >= queue0.len(),
        forall|k: int| 0 <= k < queue0.len() ==> queue1[k] == queue0[k],
        (exists|i: int|
            chains0.len() <= i < chains1.len() && ends_with_hop(
                (#[trigger] chains1[i])@,
                popped_last,
            )) || (exists|k: int|
            queue0.len() <= k < queue1.len() && ends_with_hop(
                crate::analyze::types::hops_view((#[trigger] queue1[k]).1@),
                popped_last,
            )),
    ensures
        forall|ei: int|
            0 <= ei < direct_e.len() ==> incoming_witnessed(
                chains1,
                queue1,
                head1,
                one_hop_in(#[trigger] direct_e[ei], symv),
            ),
{
    assert forall|ei: int| 0 <= ei < direct_e.len() implies incoming_witnessed(
        chains1,
        queue1,
        head1,
        one_hop_in(#[trigger] direct_e[ei], symv),
    ) by {
        assert(incoming_witnessed(chains0, queue0, head0, one_hop_in(direct_e[ei], symv)));
        let h = one_hop_in(direct_e[ei], symv);
        if exists|i: int|
            0 <= i < chains0.len() && ends_with_hop((#[trigger] chains0[i])@, h) {
            let i = choose|i: int|
                0 <= i < chains0.len() && ends_with_hop((#[trigger] chains0[i])@, h);
            assert(chains1[i] == chains0[i]);
            assert(ends_with_hop(chains1[i]@, h));
        } else {
            let k = choose|k: int|
                head0 <= k < queue0.len() && ends_with_hop(
                    crate::analyze::types::hops_view((#[trigger] queue0[k]).1@),
                    h,
                );
            if k == head0 {
                assert(h == popped_last);
            } else {
                assert(queue1[k] == queue0[k]);
                assert(ends_with_hop(crate::analyze::types::hops_view(queue1[k].1@), h));
            }
        }
    }
}


/// Carries one symbol's expansion witness forward across one outgoing
/// discovery step.
proof fn lemma_outgoing_expanded_transfer(
    chains0: Seq<CallChain>,
    queue0: Seq<(String, Vec<(String, usize, String, String)>, u32)>,
    head0: int,
    chains1: Seq<CallChain>,
    queue1: Seq<(String, Vec<(String, usize, String, String)>, u32)>,
    head1: int,
    popped_hops: Seq<HopV>,
    s: Seq<char>,
)
    requires
        outgoing_expanded(chains0, queue0, head0, s),
        0 <= head0 < queue0.len(),
        head1 == head0 + 1,
        crate::analyze::types::hops_view(queue0[head0].1@) == popped_hops,
        chains1.len() >= chains0.len(),
        forall|i: int| 0 <= i < chains0.len() ==> chains1[i] == chains0[i],
        queue1.len() >= queue0.len(),
        forall|k: int| 0 <= k < queue0.len() ==> queue1[k] == queue0[k],
        (exists|i: int|
            chains0.len() <= i < chains1.len() && ((#[trigger] chains1[i])@ == popped_hops
                || extends_back(chains1[i]@, popped_hops))) || (exists|k: int|
            queue0.len() <= k < queue1.len() && (crate::analyze::types::hops_view(
                (#[trigger] queue1[k]).1@,
            ) == popped_hops || extends_back(
                crate::analyze::types::hops_view(queue1[k].1@),
                popped_hops,
            ))),
    ensures
        outgoing_expanded(chains1, queue1, head1, s),
{
    if exists|i: int| 0 <= i < chains0.len() && mid_to((#[trigger] chains0[i])@, s) {
        let i = choose|i: int| 0 <= i < chains0.len() && mid_to((#[trigger] chains0[i])@, s);
        assert(chains1[i] == chains0[i]);
        assert(mid_to(chains1[i]@, s));
    } else {
        let k = choose|k: int|
            head0 <= k < queue0.len() && mid_to(
                crate::analyze::types::hops_view((#[trigger] queue0[k]).1@),
                s,
            );
        if k != head0 {
            assert(queue1[k] == queue0[k]);
            assert(mid_to(crate::analyze::types::hops_view(queue1[k].1@), s));
        } else {
            let j = choose|j: int| 0 <= j < popped_hops.len() - 1 && popped_hops[j].to == s;
            if exists|i: int|
                chains0.len() <= i < chains1.len() && ((#[trigger] chains1[i])@ == popped_hops
                    || extends_back(chains1[i]@, popped_hops)) {
                let i = choose|i: int|
                    chains0.len() <= i < chains1.len() && ((#[trigger] chains1[i])@ == popped_hops
                        || extends_back(chains1[i]@, popped_hops));
                if chains1[i]@ == popped_hops {
                    assert(mid_to(chains1[i]@, s));
                } else {
                    assert(chains1[i]@[j] == popped_hops[j]);
                    assert(mid_to(chains1[i]@, s));
                }
            } else {
                let k2 = choose|k2: int|
                    queue0.len() <= k2 < queue1.len() && (crate::analyze::types::hops_view(
                        (#[trigger] queue1[k2]).1@,
                    ) == popped_hops || extends_back(
                        crate::analyze::types::hops_view(queue1[k2].1@),
                        popped_hops,
                    ));
                let h2 = crate::analyze::types::hops_view(queue1[k2].1@);
                if h2 == popped_hops {
                    assert(mid_to(h2, s));
                } else {
                    assert(h2[j] == popped_hops[j]);
                    assert(mid_to(h2, s));
                }
            }
        }
    }
}

/// Bulk form of the outgoing expansion-witness transfer.
proof fn lemma_outgoing_expanded_bulk(
    g: &CallGraph,
    vis: Seq<Seq<char>>,
    chains0: Seq<CallChain>,
    queue0: Seq<(String, Vec<(String, usize, String, String)>, u32)>,
    head0: int,
    chains1: Seq<CallChain>,
    queue1: Seq<(String, Vec<(String, usize, String, String)>, u32)>,
    head1: int,
    popped_hops: Seq<HopV>,
)
    requires
        forall|s: Seq<char>|
            #[trigger] vis.contains(s) ==> g.callees_of(s).len() == 0 || outgoing_expanded(
                chains0,
                queue0,
                head0,
                s,
            ),
        0 <= head0 < queue0.len(),
        head1 == head0 + 1,
        crate::analyze::types::hops_view(queue0[head0].1@) == popped_hops,
        chains1.len() >= chains0.len(),
        forall|i: int| 0 <= i < chains0.len() ==> chains1[i] == chains0[i],
        queue1.len() >= queue0.len(),
        forall|k: int| 0 <= k < queue0.len() ==> queue1[k] == queue0[k],
        (exists|i: int|
            chains0.len() <= i < chains1.len() && ((#[trigger] chains1[i])@ == popped_hops
                || extends_back(chains1[i]@, popped_hops))) || (exists|k: int|
            queue0.len() <= k < queue1.len() && (crate::analyze::types::hops_view(
                (#[trigger] queue1[k]).1@,
            ) == popped_hops || extends_back(
                crate::analyze::types::hops_view(queue1[k].1@),
                popped_hops,
            ))),
    ensures
        forall|s: Seq<char>|
            #[trigger] vis.contains(s) ==> g.callees_of(s).len() == 0 || outgoing_expanded(
                chains1,
                queue1,
                head1,
                s,
            ),
{
    assert forall|s: Seq<char>|
        #[trigger] vis.contains(s) && g.callees_of(s).len() != 0 implies outgoing_expanded(
        chains1,
        queue1,
        head1,
        s,
    ) by {
        lemma_outgoing_expanded_transfer(
            chains0,
            queue0,
            head0,
            chains1,
            queue1,
            head1,
            popped_hops,
            s,
        );
    }
}

/// A fresh outgoing expansion witness for the symbol just expanded.
proof fn lemma_outgoing_fresh_expanded(
    chains0len: int,
    queue0len: int,
    chains1: Seq<CallChain>,
    queue1: Seq<(String, Vec<(String, usize, String, String)>, u32)>,
    head1: int,
    oldhops: Seq<HopV>,
    cur: Seq<char>,
)
    requires
        oldhops.len() >= 1,
        oldhops[oldhops.len() - 1].to == cur,
        head1 <= queue0len,
        (exists|i: int|
            chains0len <= i < chains1.len() && extends_back(
                (#[trigger] chains1[i])@,
                oldhops,
            )) || (exists|k: int|
            queue0len <= k < queue1.len() && extends_back(
                crate::analyze::types::hops_view((#[trigger] queue1[k]).1@),
                oldhops,
            )),
        chains0len >= 0,
    ensures
        outgoing_expanded(chains1, queue1, head1, cur),
{
    if exists|i: int|
        chains0len <= i < chains1.len() && extends_back((#[trigger] chains1[i])@, oldhops) {
        let i = choose|i: int|
            chains0len <= i < chains1.len() && extends_back((#[trigger] chains1[i])@, oldhops);
        assert(chains1[i]@[oldhops.len() - 1] == oldhops[oldhops.len() - 1]);
        assert(mid_to(chains1[i]@, cur));
    } else {
        let k = choose|k: int|
            queue0len <= k < queue1.len() && extends_back(
                crate::analyze::types::hops_view((#[trigger] queue1[k]).1@),
                oldhops,
            );
        let h = crate::analyze::types::hops_view(queue1[k].1@);
        assert(h[oldhops.len() - 1] == oldhops[oldhops.len() - 1]);
        assert(mid_to(h, cur));
    }
}

/// The outgoing mirror of the witness-transfer argument above.
proof fn lemma_outgoing_witnesses(
    chains0: Seq<CallChain>,
    queue0: Seq<(String, Vec<(String, usize, String, String)>, u32)>,
    head0: int,
    chains1: Seq<CallChain>,
    queue1: Seq<(String, Vec<(String, usize, String, String)>, u32)>,
    head1: int,
    direct_e: Seq<EdgeV>,
    symv: Seq<char>,
    popped_first: HopV,
)
    requires
        forall|ei: int|
            0 <= ei < direct_e.len() ==> outgoing_witnessed(
                chains0,
                queue0,
                head0,
                one_hop_out(#[trigger] direct_e[ei], symv),
            ),
        0 <= head0 < queue0.len(),
        head1 == head0 + 1,
        starts_with_hop(crate::analyze::types::hops_view(queue0[head0].1@), popped_first),
        chains1.len() >= chains0.len(),
        forall|i: int| 0 <= i < chains0.len() ==> chains1[i] == chains0[i],
        queue1.len() >= queue0.len(),
        forall|k: int| 0 <= k < queue0.len() ==> queue1[k] == queue0[k],
        (exists|i: int|
            chains0.len() <= i < chains1.len() && starts_with_hop(
                (#[trigger] chains1[i])@,
                popped_first,
            )) || (exists|k: int|
            queue0.len() <= k < queue1.len() && starts_with_hop(
                crate::analyze::types::hops_view((#[trigger] queue1[k]).1@),
                popped_first,
            )),
    ensures
        forall|ei: int|
            0 <= ei < direct_e.len() ==> outgoing_witnessed(
                chains1,
                queue1,
                head1,
                one_hop_out(#[trigger] direct_e[ei], symv),
            ),
{
    assert forall|ei: int| 0 <= ei < direct_e.len() implies outgoing_witnessed(
        chains1,
        queue1,
        head1,
        one_hop_out(#[trigger] direct_e[ei], symv),
    ) by {
        assert(outgoing_witnessed(chains0, queue0, head0, one_hop_out(direct_e[ei], symv)));
        let h = one_hop_out(direct_e[ei], symv);
        if exists|i: int|
            0 <= i < chains0.len() && starts_with_hop((#[trigger] chains0[i])@, h) {
            let i = choose|i: int|
                0 <= i < chains0.len() && starts_with_hop((#[trigger] chains0[i])@, h);
            assert(chains1[i] == chains0[i]);
            assert(starts_with_hop(chains1[i]@, h));
        } else {
            let k = choose|k: int|
                head0 <= k < queue0.len() && starts_with_hop(
                    crate::analyze::types::hops_view((#[trigger] queue0[k]).1@),
                    h,
                );
            if k == head0 {
                assert(h == popped_first);
            } else {
                assert(queue1[k] == queue0[k]);
                assert(starts_with_hop(crate::analyze::types::hops_view(queue1[k].1@), h));
            }
        }
    }
}

impl Default for CallGraph {
    fn default() -> (g: Self)
        ensures
            g.defs_rows().len() == 0,
            forall|sym: Seq<char>| #[trigger] g.defs_of(sym) == Seq::<DefV>::empty(),
            forall|sym: Seq<char>| #[trigger] g.callers_of(sym) == Seq::<EdgeV>::empty(),
            forall|sym: Seq<char>| #[trigger] g.callees_of(sym) == Seq::<EdgeV>::empty(),
    {
        Self::new()
    }
}

// Shared views and helpers of the lookup and discovery code above.

pub open spec fn out_edge_item() -> spec_fn((String, usize, String)) -> EdgeV {
    |e: (String, usize, String)| EdgeV { file: e.0@, line: e.1 as int, sym: e.2@ }
}

pub open spec fn edges_view(s: Seq<(String, usize, String)>) -> Seq<EdgeV> {
    s.map_values(out_edge_item())
}

pub open spec fn def_site_item() -> spec_fn((String, usize)) -> DefV {
    |d: (String, usize)| DefV { file: d.0@, line: d.1 as int }
}

pub open spec fn defs_view(s: Seq<(String, usize)>) -> Seq<DefV> {
    s.map_values(def_site_item())
}

pub open spec fn str_view_item() -> spec_fn(String) -> Seq<char> {
    |s: String| s@
}

pub open spec fn vis_views(v: Seq<String>) -> Seq<Seq<char>> {
    v.map_values(str_view_item())
}

pub open spec fn edge_sym_item() -> spec_fn((String, String, usize, String)) -> Seq<char> {
    |r: (String, String, usize, String)| r.3@
}

/// Every symbol that some edge row points at.
pub open spec fn edge_syms(rows: Seq<(String, String, usize, String)>) -> Set<Seq<char>> {
    rows.map_values(edge_sym_item()).to_set()
}

/// Consecutive hops share their middle symbol.
pub open spec fn chain_linked(hops: Seq<HopV>) -> bool {
    forall|j: int| 0 <= j < hops.len() - 1 ==> (#[trigger] hops[j]).to == hops[j + 1].from
}

/// The one-hop chain a direct caller edge of `sym` yields.
pub open spec fn one_hop_in(e: EdgeV, sym: Seq<char>) -> HopV {
    HopV { file: e.file, line: e.line, from: e.sym, to: sym }
}

/// A non-empty chain whose final hop is `h`.
pub open spec fn ends_with_hop(hops: Seq<HopV>, h: HopV) -> bool {
    hops.len() >= 1 && hops[hops.len() - 1] == h
}

/// A non-empty chain whose first hop is `h`.
pub open spec fn starts_with_hop(hops: Seq<HopV>, h: HopV) -> bool {
    hops.len() >= 1 && hops[0] == h
}

/// Hop source `s` occurs mid-chain: the chain continues backward past it.
pub open spec fn mid_from(hops: Seq<HopV>, s: Seq<char>) -> bool {
    exists|j: int| 1 <= j < hops.len() && (#[trigger] hops[j]).from == s
}

/// Hop target `s` occurs before the final hop: the chain continues forward
/// past it.
pub open spec fn mid_to(hops: Seq<HopV>, s: Seq<char>) -> bool {
    exists|j: int| 0 <= j < hops.len() - 1 && (#[trigger] hops[j]).to == s
}

/// `s` was expanded during incoming discovery: some finished chain, or
/// some frontier entry still awaiting expansion, continues backward past
/// it.
pub open spec fn incoming_expanded(
    chains: Seq<CallChain>,
    queue: Seq<(String, Vec<(String, usize, String, String)>, u32)>,
    head: int,
    s: Seq<char>,
) -> bool {
    (exists|i: int| 0 <= i < chains.len() && mid_from((#[trigger] chains[i])@, s)) || (exists|
        k: int,
    |
        head <= k < queue.len() && mid_from(
            crate::analyze::types::hops_view((#[trigger] queue[k]).1@),
            s,
        ))
}

/// `s` was expanded during outgoing discovery: something continues forward
/// past it.
pub open spec fn outgoing_expanded(
    chains: Seq<CallChain>,
    queue: Seq<(String, Vec<(String, usize, String, String)>, u32)>,
    head: int,
    s: Seq<char>,
) -> bool {
    (exists|i: int| 0 <= i < chains.len() && mid_to((#[trigger] chains[i])@, s)) || (exists|
        k: int,
    |
        head <= k < queue.len() && mid_to(
            crate::analyze::types::hops_view((#[trigger] queue[k]).1@),
            s,
        ))
}

/// `hops_new` is `oldhops` with one hop prepended.
pub open spec fn extends_front(hops_new: Seq<HopV>, oldhops: Seq<HopV>) -> bool {
    hops_new.len() == oldhops.len() + 1 && (forall|j: int|
        0 <= j < oldhops.len() ==> hops_new[j + 1] == #[trigger] oldhops[j])
}

/// `hops_new` is `oldhops` with one hop appended.
pub open spec fn extends_back(hops_new: Seq<HopV>, oldhops: Seq<HopV>) -> bool {
    hops_new.len() == oldhops.len() + 1 && (forall|j: int|
        0 <= j < oldhops.len() ==> hops_new[j] == #[trigger] oldhops[j])
}

/// A finished incoming chain judged directly against a batch of per-file
/// records: within bounds, linked, ending at the queried symbol, every hop
/// an edge the batch's build rules record.
pub open spec fn valid_incoming_chain_over(
    rv: Seq<(Seq<char>, AnalysisResultV)>,
    symv: Seq<char>,
    max_depth: int,
    hops: Seq<HopV>,
) -> bool {
    &&& 1 <= hops.len() <= max_depth
    &&& hops[hops.len() - 1].to == symv
    &&& chain_linked(hops)
    &&& (forall|j: int|
        0 <= j < hops.len() ==> built_callers(rv, (#[trigger] hops[j]).to).contains(
            EdgeV { file: hops[j].file, line: hops[j].line, sym: hops[j].from },
        ))
}

/// The outgoing mirror of the judgement above.
pub open spec fn valid_outgoing_chain_over(
    rv: Seq<(Seq<char>, AnalysisResultV)>,
    symv: Seq<char>,
    max_depth: int,
    hops: Seq<HopV>,
) -> bool {
    &&& 1 <= hops.len() <= max_depth
    &&& hops[0].from == symv
    &&& chain_linked(hops)
    &&& (forall|j: int|
        0 <= j < hops.len() ==> built_callees(rv, (#[trigger] hops[j]).from).contains(
            EdgeV { file: hops[j].file, line: hops[j].line, sym: hops[j].to },
        ))
}

/// Some finished chain ends with hop `h`, or some frontier entry still
/// awaiting expansion does.
pub open spec fn incoming_witnessed(
    chains: Seq<CallChain>,
    queue: Seq<(String, Vec<(String, usize, String, String)>, u32)>,
    head: int,
    h: HopV,
) -> bool {
    (exists|i: int| 0 <= i < chains.len() && ends_with_hop((#[trigger] chains[i])@, h)) || (
    exists|k: int|
        head <= k < queue.len() && ends_with_hop(
            crate::analyze::types::hops_view((#[trigger] queue[k]).1@),
            h,
        ))
}

/// Some finished chain starts with hop `h`, or some frontier entry still
/// awaiting expansion does.
pub open spec fn outgoing_witnessed(
    chains: Seq<CallChain>,
    queue: Seq<(String, Vec<(String, usize, String, String)>, u32)>,
    head: int,
    h: HopV,
) -> bool {
    (exists|i: int| 0 <= i < chains.len() && starts_with_hop((#[trigger] chains[i])@, h)) || (
    exists|k: int|
        head <= k < queue.len() && starts_with_hop(
            crate::analyze::types::hops_view((#[trigger] queue[k]).1@),
            h,
        ))
}

/// The one-hop chain a direct callee edge of `sym` yields.
pub open spec fn one_hop_out(e: EdgeV, sym: Seq<char>) -> HopV {
    HopV { file: e.file, line: e.line, from: sym, to: e.sym }
}

/// A symbol at the far end of a recorded edge is among the rows' symbols.
proof fn lemma_edges_for_sym_in(
    rows: Seq<(String, String, usize, String)>,
    key: Seq<char>,
    e: EdgeV,
)
    requires
        edges_for(rows, key).contains(e),
    ensures
        edge_syms(rows).contains(e.sym),
{
    lemma_concat_map_mem(rows, edge_item(key), e);
    let i = choose|i: int| 0 <= i < rows.len() && #[trigger] edge_item(key)(rows[i]).contains(e);
    assert(e.sym == rows[i].3@);
    assert(rows.map_values(edge_sym_item())[i] == rows[i].3@);
    assert(rows.map_values(edge_sym_item()).contains(e.sym));
}

/// A duplicate-free sequence of symbols drawn from a finite set is no longer
/// than the set.
proof fn lemma_visited_bound(visited: Seq<Seq<char>>, univ: Set<Seq<char>>)
    requires
        visited.no_duplicates(),
        forall|i: int| 0 <= i < visited.len() ==> univ.contains(#[trigger] visited[i]),
        univ.finite(),
    ensures
        visited.len() <= univ.len(),
{
    visited.unique_seq_to_set();
    assert forall|x: Seq<char>| visited.to_set().contains(x) implies univ.contains(x) by {
        let i = choose|i: int| 0 <= i < visited.len() && visited[i] == x;
        assert(univ.contains(visited[i]));
    }
    vstd::set_lib::lemma_len_subset(visited.to_set(), univ);
}

} // verus!
