//! The analyzer: cache-aware per-file extraction and the mode dispatch
//! over a batch of already-read files.

pub mod cache;
pub mod graph;
pub mod languages;
pub mod parser;
pub mod sitter;
pub mod types;

use vstd::prelude::*;

use crate::analyze::cache::{
    cache_after_get, cache_key_v, cache_lookup, cache_put, AnalysisCache, CacheKeyV,
};
use crate::analyze::graph::{
    built_callees, built_callers, built_defs, defs_view, incoming_expanded, incoming_witnessed,
    one_hop_in, one_hop_out, outgoing_expanded, outgoing_witnessed, results_view,
    valid_incoming_chain_over, valid_outgoing_chain_over, CallGraph,
};
use crate::analyze::parser::{ElementExtractor, ParserManager};
use crate::analyze::types::{
    empty_result_view, AnalysisError, AnalysisMode, AnalysisResult, AnalysisResultV, EntryType,
    FocusedAnalysisData,
};
use crate::lang;
use crate::text::{count_lines, decode_range, spec_line_count};

verus! {

/// One file of a batch, already read by the caller: its path, its
/// modification timestamp, and its raw bytes; an unreadable file carries
/// no content.
pub struct FileInput {
    pub path: String,
    pub mtime: u64,
    pub content: Option<Vec<u8>>,
}

pub open spec fn file_input_ok(f: FileInput) -> bool {
    match f.content {
        Some(c) => c@.len() < usize::MAX,
        None => true,
    }
}

/// What the analysis entry point produces, before any rendering.
#[derive(Clone)]
pub enum AnalyzeOutput {
    File(AnalysisResult),
    Directory(Vec<(String, EntryType)>),
    Focused(FocusedAnalysisData),
}

/// Content that a cache miss will actually send through the parser: it is
/// present, decodes, and its path names a shipped grammar. Anything else
/// degrades to an empty record without touching the store.
pub open spec fn analyzable(content: Option<&Vec<u8>>, path: Seq<char>) -> bool {
    match content {
        Some(c) => vstd::utf8::valid_utf8(c@) && crate::analyze::languages::supported_language(
            lang::spec_language_id(path),
        ),
        None => false,
    }
}

pub open spec fn opt_bytes_view(c: Option<&Vec<u8>>) -> Option<Seq<u8>> {
    match c {
        Some(v) => Some(v@),
        None => None,
    }
}

pub open spec fn content_view(c: Option<Vec<u8>>) -> Option<Seq<u8>> {
    match c {
        Some(v) => Some(v@),
        None => None,
    }
}

/// Everything a per-file result owes, given the pre-call store and the
/// file's raw content: a hit returns the cached record; unreadable or
/// undecodable content degrades to the all-zero record; an unrecognized
/// language keeps only the line count; otherwise the line count is exact,
/// structure mode carries no detail lists, and no error ever blames the
/// language once extraction began.
pub open spec fn file_report_ok(
    pre: Seq<(CacheKeyV, AnalysisResultV)>,
    path: Seq<char>,
    mtime: int,
    mode: AnalysisMode,
    content: Option<Seq<u8>>,
    r: Result<AnalysisResult, AnalysisError>,
) -> bool {
    let hit = cache_lookup(pre, cache_key_v(path, mtime, mode));
    &&& (hit is Some ==> (r matches Ok(res) && res@ == hit->Some_0))
    &&& (hit is None ==> (match content {
        None => r matches Ok(res) && (res@ =~~= empty_result_view(0)),
        Some(c) => {
            &&& (!vstd::utf8::valid_utf8(c) ==> (r matches Ok(res) && (res@
                =~~= empty_result_view(0))))
            &&& (vstd::utf8::valid_utf8(c) && !crate::analyze::languages::supported_language(
                lang::spec_language_id(path),
            ) ==> (r matches Ok(res) && (res@ =~~= empty_result_view(spec_line_count(c)))))
            &&& (vstd::utf8::valid_utf8(c) ==> (match r {
                Ok(res) => {
                    &&& res@.line_count == spec_line_count(c)
                    &&& (mode == AnalysisMode::Structure ==> res@.functions.len() == 0
                        && res@.classes.len() == 0 && res@.imports.len() == 0 && res@.calls.len()
                        == 0 && res@.references.len() == 0)
                },
                Err(e) => !(e is UnsupportedLanguage),
            }))
        },
    }))
}

/// What a freshly extracted record for one input may be: the miss-path
/// cases of `file_report_ok`, seen from the record alone.
pub open spec fn record_matches_input(f: FileInput, mode: AnalysisMode, resv: AnalysisResultV) -> bool {
    match f.content {
        None => resv =~~= empty_result_view(0),
        Some(c) => {
            &&& (!vstd::utf8::valid_utf8(c@) ==> (resv =~~= empty_result_view(0)))
            &&& (vstd::utf8::valid_utf8(c@) && !crate::analyze::languages::supported_language(
                lang::spec_language_id(f.path@),
            ) ==> (resv =~~= empty_result_view(spec_line_count(c@))))
            &&& (vstd::utf8::valid_utf8(c@) ==> resv.line_count == spec_line_count(c@) && (mode
                == AnalysisMode::Structure ==> resv.functions.len() == 0 && resv.classes.len() == 0
                && resv.imports.len() == 0 && resv.calls.len() == 0 && resv.references.len() == 0))
        },
    }
}

/// The cache identity one input is served and stored under.
pub open spec fn input_key(f: FileInput, mode: AnalysisMode) -> CacheKeyV {
    cache_key_v(f.path@, f.mtime as int, mode)
}

/// A batch whose keys are all absent from the store and pairwise distinct:
/// every file of it is then freshly extracted, never served stale.
pub open spec fn inputs_fresh(
    pre: Seq<(CacheKeyV, AnalysisResultV)>,
    files: Seq<FileInput>,
    mode: AnalysisMode,
) -> bool {
    &&& (forall|i: int|
        0 <= i < files.len() ==> cache_lookup(pre, input_key(#[trigger] files[i], mode)) is None)
    &&& (forall|i: int, j: int|
        0 <= i < j < files.len() ==> input_key(files[i], mode) != input_key(files[j], mode))
}

/// What a directory report owes: one entry per input, in order, under the
/// input's path; for a fresh batch, each entry's record is determined by
/// its file's content.
pub open spec fn directory_report_ok(
    pre: Seq<(CacheKeyV, AnalysisResultV)>,
    files: Seq<FileInput>,
    entries: Seq<(String, EntryType)>,
) -> bool {
    &&& entries.len() == files.len()
    &&& (forall|i: int| 0 <= i < entries.len() ==> (#[trigger] entries[i]).0@ == files[i].path@)
    &&& (inputs_fresh(pre, files, AnalysisMode::Structure) ==> (forall|i: int|
        0 <= i < entries.len() ==> (match (#[trigger] entries[i]).1 {
            EntryType::File(res) => record_matches_input(
                files[i],
                AnalysisMode::Structure,
                res@,
            ),
        })))
}

/// What a focused report owes. Its ghost `facts` field names the per-file
/// records the call graph was aggregated from: the definitions equal the
/// build rules' definition list for the focus symbol, every chain is a
/// well-formed bounded chain over those records' edges, depth 1 returns
/// exactly the direct edges, deeper searches keep at least one chain per
/// direct edge with that edge still in it, and a fresh batch ties each
/// record to its file's content.
pub open spec fn focused_report_ok(
    pre: Seq<(CacheKeyV, AnalysisResultV)>,
    files: Seq<FileInput>,
    focus: Seq<char>,
    follow_depth: u32,
    data: FocusedAnalysisData,
) -> bool {
    let rv = data.facts@;
    &&& data.focus_symbol@ == focus
    &&& data.follow_depth == follow_depth
    &&& rv.len() == files.len()
    &&& (forall|i: int| 0 <= i < rv.len() ==> (#[trigger] rv[i]).0 == files[i].path@)
    &&& data.files_analyzed@.len() == files.len()
    &&& (forall|i: int|
        0 <= i < files.len() ==> (#[trigger] data.files_analyzed@[i])@ == files[i].path@)
    &&& defs_view(data.definitions@) == built_defs(rv, focus)
    &&& (follow_depth == 0 ==> data.incoming_chains@.len() == 0 && data.outgoing_chains@.len()
        == 0)
    &&& (forall|i: int|
        0 <= i < data.incoming_chains@.len() ==> valid_incoming_chain_over(
            rv,
            focus,
            follow_depth as int,
            (#[trigger] data.incoming_chains@[i])@,
        ))
    &&& (forall|i: int|
        0 <= i < data.outgoing_chains@.len() ==> valid_outgoing_chain_over(
            rv,
            focus,
            follow_depth as int,
            (#[trigger] data.outgoing_chains@[i])@,
        ))
    &&& (follow_depth >= 1 ==> data.incoming_chains@.len() >= built_callers(rv, focus).len()
        && data.outgoing_chains@.len() >= built_callees(rv, focus).len())
    &&& (follow_depth == 1 ==> data.incoming_chains@.len() == built_callers(rv, focus).len() && (
    forall|i: int|
        0 <= i < data.incoming_chains@.len() ==> (#[trigger] data.incoming_chains@[i])@ == seq![
            one_hop_in(built_callers(rv, focus)[i], focus),
        ]))
    &&& (follow_depth == 1 ==> data.outgoing_chains@.len() == built_callees(rv, focus).len() && (
    forall|i: int|
        0 <= i < data.outgoing_chains@.len() ==> (#[trigger] data.outgoing_chains@[i])@ == seq![
            one_hop_out(built_callees(rv, focus)[i], focus),
        ]))
    &&& (follow_depth >= 1 ==> (forall|ei: int|
        0 <= ei < built_callers(rv, focus).len() ==> incoming_witnessed(
            data.incoming_chains@,
            Seq::empty(),
            0,
            one_hop_in(#[trigger] built_callers(rv, focus)[ei], focus),
        )))
    &&& (follow_depth >= 1 ==> (forall|ei: int|
        0 <= ei < built_callees(rv, focus).len() ==> outgoing_witnessed(
            data.outgoing_chains@,
            Seq::empty(),
            0,
            one_hop_out(#[trigger] built_callees(rv, focus)[ei], focus),
        )))
    &&& (forall|i: int|
        0 <= i < data.incoming_chains@.len() && (#[trigger] data.incoming_chains@[i])@.len()
            < follow_depth ==> built_callers(rv, data.incoming_chains@[i]@[0].from).len() == 0
            || incoming_expanded(
            data.incoming_chains@,
            Seq::empty(),
            0,
            data.incoming_chains@[i]@[0].from,
        ))
    &&& (forall|i: int|
        0 <= i < data.outgoing_chains@.len() && (#[trigger] data.outgoing_chains@[i])@.len()
            < follow_depth ==> built_callees(
            rv,
            data.outgoing_chains@[i]@[data.outgoing_chains@[i]@.len() - 1].to,
        ).len() == 0 || outgoing_expanded(
            data.outgoing_chains@,
            Seq::empty(),
            0,
            data.outgoing_chains@[i]@[data.outgoing_chains@[i]@.len() - 1].to,
        ))
    &&& (inputs_fresh(pre, files, AnalysisMode::Semantic) ==> (forall|i: int|
        0 <= i < files.len() ==> record_matches_input(
            #[trigger] files[i],
            AnalysisMode::Semantic,
            rv[i].1,
        )))
}

/// Code analyzer with caching and grammar-based parsing.
pub struct CodeAnalyzer {
    parser_manager: ParserManager,
    cache: AnalysisCache,
}

impl CodeAnalyzer {
    pub closed spec fn wf(&self) -> bool {
        self.cache.wf()
    }

    pub closed spec fn cache_entries(
        &self,
    ) -> Seq<(crate::analyze::cache::CacheKeyV, AnalysisResultV)> {
        self.cache.entries()
    }

    pub closed spec fn cache_capacity(&self) -> int {
        self.cache.capacity()
    }

    pub fn new() -> (r: Self)
        ensures
            r.wf(),
            r.cache_entries().len() == 0,
    {
        CodeAnalyzer { parser_manager: ParserManager::new(), cache: AnalysisCache::new(100) }
    }

    /// The mode a request implies: a focus symbol means focused analysis;
    /// otherwise one file is read semantically, a directory structurally.
    fn determine_mode(&self, focus: &Option<String>, path_is_file: bool) -> (m: AnalysisMode)
        ensures
            focus is Some ==> m == AnalysisMode::Focused,
            focus is None && path_is_file ==> m == AnalysisMode::Semantic,
            focus is None && !path_is_file ==> m == AnalysisMode::Structure,
    {
        if focus.is_some() {
            return AnalysisMode::Focused;
        }
        if path_is_file {
            AnalysisMode::Semantic
        } else {
            AnalysisMode::Structure
        }
    }

    /// Analyze one file's bytes in one mode, serving and feeding the fact
    /// cache. Unreadable (no content) and undecodable content degrade to
    /// the all-zero record; an unrecognized language degrades to counts
    /// only. Neither is an error, so one bad file never stops a batch.
    pub fn analyze_file(
        &mut self,
        path: &str,
        mtime: u64,
        mode: &AnalysisMode,
        content: Option<&Vec<u8>>,
        ast_recursion_limit: Option<usize>,
    ) -> (r: Result<AnalysisResult, AnalysisError>)
        requires
            old(self).wf(),
            (match content {
                Some(c) => c@.len() < usize::MAX,
                None => true,
            }),
        ensures
            final(self).wf(),
            file_report_ok(
                old(self).cache_entries(),
                path@,
                mtime as int,
                *mode,
                opt_bytes_view(content),
                r,
            ),
            ({
                let key = cache_key_v(path@, mtime as int, *mode);
                let hit = cache_lookup(old(self).cache_entries(), key);
                &&& (hit is Some ==> final(self).cache_entries() == cache_after_get(
                    old(self).cache_entries(),
                    key,
                ))
                &&& (hit is None && !analyzable(content, path@) ==> final(self).cache_entries()
                    == old(self).cache_entries())
                &&& (hit is None && analyzable(content, path@) ==> (match r {
                    Ok(res) => final(self).cache_entries() == cache_put(
                        old(self).cache_entries(),
                        old(self).cache_capacity(),
                        key,
                        res@,
                    ),
                    Err(_) => final(self).cache_entries() == old(self).cache_entries(),
                }))
                &&& final(self).cache_capacity() == old(self).cache_capacity()
            }),
    {
        match self.cache.get(path, mtime, mode) {
            Some(cached) => {
                return Ok(cached);
            },
            None => {},
        }
        let c = match content {
            Some(c) => c,
            None => {
                return Ok(AnalysisResult::empty(0));
            },
        };
        proof {
            assert(c@.subrange(0, c@.len() as int) =~= c@);
        }
        match decode_range(c, 0, c.len()) {
            Some(_) => {},
            None => {
                return Ok(AnalysisResult::empty(0));
            },
        }
        let line_count = count_lines(c);
        let language = lang::get_language_identifier(path);
        let language_supported = crate::analyze::languages::get_language_info(language).is_some();
        if !language_supported {
            return Ok(AnalysisResult::empty(line_count));
        }
        let tree = match self.parser_manager.parse(c, language) {
            Ok(t) => t,
            Err(e) => {
                return Err(e);
            },
        };
        let depth = mode.as_str();
        let mut result = match ElementExtractor::extract_with_depth(
            &tree,
            c,
            language,
            depth,
            ast_recursion_limit,
        ) {
            Ok(res) => res,
            Err(e) => {
                return Err(e);
            },
        };
        result.line_count = line_count;
        self.cache.put(String::from_str(path), mtime, mode, &result);
        Ok(result)
    }

    /// Structure-mode extraction over a whole batch, one entry per file in
    /// input order; the first real failure aborts the batch, and the two
    /// degrade-to-empty cases never do.
    pub fn analyze_directory(
        &mut self,
        files: &Vec<FileInput>,
        ast_recursion_limit: Option<usize>,
    ) -> (r: Result<Vec<(String, EntryType)>, AnalysisError>)
        requires
            old(self).wf(),
            forall|i: int| 0 <= i < files@.len() ==> file_input_ok(#[trigger] files@[i]),
        ensures
            final(self).wf(),
            (match r {
                Ok(entries) => directory_report_ok(old(self).cache_entries(), files@, entries@),
                Err(e) => !(e is UnsupportedLanguage),
            }),
    {
        let mut entries: Vec<(String, EntryType)> = Vec::new();
        let n = files.len();
        let mut i: usize = 0;
        while i < n
            invariant
                i <= n,
                n == files@.len(),
                self.wf(),
                forall|k: int| 0 <= k < files@.len() ==> file_input_ok(#[trigger] files@[k]),
                entries@.len() == i,
                forall|k: int| 0 <= k < i ==> (#[trigger] entries@[k]).0@ == files@[k].path@,
                inputs_fresh(old(self).cache_entries(), files@, AnalysisMode::Structure) ==> (
                forall|k: int|
                    i <= k < files@.len() ==> cache_lookup(
                        self.cache_entries(),
                        input_key(#[trigger] files@[k], AnalysisMode::Structure),
                    ) is None),
                inputs_fresh(old(self).cache_entries(), files@, AnalysisMode::Structure) ==> (
                forall|k: int|
                    0 <= k < i ==> (match (#[trigger] entries@[k]).1 {
                        EntryType::File(res) => record_matches_input(
                            files@[k],
                            AnalysisMode::Structure,
                            res@,
                        ),
                    })),
            decreases n - i,
        {
            proof {
                assert(file_input_ok(files@[i as int]));
            }
            let ghost store0 = self.cache_entries();
            let ghost cap0 = self.cache_capacity();
            let f = &files[i];
            let content_ref = f.content.as_ref();
            let res = match self.analyze_file(
                f.path.as_str(),
                f.mtime,
                &AnalysisMode::Structure,
                content_ref,
                ast_recursion_limit,
            ) {
                Ok(res) => res,
                Err(e) => {
                    proof {
                        assert(!(e is UnsupportedLanguage));
                    }
                    return Err(e);
                },
            };
            proof {
                if inputs_fresh(old(self).cache_entries(), files@, AnalysisMode::Structure) {
                    let key_i = input_key(files@[i as int], AnalysisMode::Structure);
                    assert(cache_lookup(store0, key_i) is None);
                    assert(record_matches_input(
                        files@[i as int],
                        AnalysisMode::Structure,
                        res@,
                    ));
                    assert forall|k: int| i + 1 <= k < files@.len() implies cache_lookup(
                        self.cache_entries(),
                        input_key(#[trigger] files@[k], AnalysisMode::Structure),
                    ) is None by {
                        let key_k = input_key(files@[k], AnalysisMode::Structure);
                        assert(cache_lookup(store0, key_k) is None);
                        if analyzable(content_ref, files@[i as int].path@) {
                            assert(self.cache_entries() == cache_put(store0, cap0, key_i, res@));
                            crate::analyze::cache::lemma_find_first(store0, key_k);
                            crate::analyze::cache::lemma_cache_distinct_key_miss(
                                store0,
                                cap0,
                                key_i,
                                res@,
                                key_k,
                            );
                        } else {
                            assert(self.cache_entries() == store0);
                        }
                    }
                }
            }
            entries.push((f.path.clone(), EntryType::File(res)));
            i = i + 1;
        }
        Ok(entries)
    }

    /// Focused analysis: extract every file of the batch in semantic mode,
    /// aggregate the call graph, and answer the definition and chain
    /// queries for the focus symbol; the records the graph was built from
    /// ride along as the result's ghost `facts`. A traversal depth of zero
    /// asks only where the symbol is defined and yields no chains. The
    /// first real failure aborts the batch; the degrade-to-empty cases
    /// never do.
    pub fn analyze_focused(
        &mut self,
        files: &Vec<FileInput>,
        focus: &str,
        follow_depth: u32,
        ast_recursion_limit: Option<usize>,
    ) -> (r: Result<FocusedAnalysisData, AnalysisError>)
        requires
            old(self).wf(),
            forall|i: int| 0 <= i < files@.len() ==> file_input_ok(#[trigger] files@[i]),
        ensures
            final(self).wf(),
            (match r {
                Ok(data) => focused_report_ok(
                    old(self).cache_entries(),
                    files@,
                    focus@,
                    follow_depth,
                    data,
                ),
                Err(e) => !(e is UnsupportedLanguage),
            }),
    {
        let mut results: Vec<(String, AnalysisResult)> = Vec::new();
        let mut files_analyzed: Vec<String> = Vec::new();
        let n = files.len();
        let mut i: usize = 0;
        while i < n
            invariant
                i <= n,
                n == files@.len(),
                self.wf(),
                forall|k: int| 0 <= k < files@.len() ==> file_input_ok(#[trigger] files@[k]),
                files_analyzed@.len() == i,
                forall|k: int| 0 <= k < i ==> (#[trigger] files_analyzed@[k])@ == files@[k].path@,
                results@.len() == i,
                forall|k: int| 0 <= k < i ==> (#[trigger] results@[k]).0@ == files@[k].path@,
                inputs_fresh(old(self).cache_entries(), files@, AnalysisMode::Semantic) ==> (
                forall|k: int|
                    i <= k < files@.len() ==> cache_lookup(
                        self.cache_entries(),
                        input_key(#[trigger] files@[k], AnalysisMode::Semantic),
                    ) is None),
                inputs_fresh(old(self).cache_entries(), files@, AnalysisMode::Semantic) ==> (
                forall|k: int|
                    0 <= k < i ==> record_matches_input(
                        files@[k],
                        AnalysisMode::Semantic,
                        (#[trigger] results@[k]).1@,
                    )),
            decreases n - i,
        {
            proof {
                assert(file_input_ok(files@[i as int]));
            }
            let ghost store0 = self.cache_entries();
            let ghost cap0 = self.cache_capacity();
            let f = &files[i];
            let content_ref = f.content.as_ref();
            let res = match self.analyze_file(
                f.path.as_str(),
                f.mtime,
                &AnalysisMode::Semantic,
                content_ref,
                ast_recursion_limit,
            ) {
                Ok(res) => res,
                Err(e) => {
                    proof {
                        assert(!(e is UnsupportedLanguage));
                    }
                    return Err(e);
                },
            };
            proof {
                if inputs_fresh(old(self).cache_entries(), files@, AnalysisMode::Semantic) {
                    let key_i = input_key(files@[i as int], AnalysisMode::Semantic);
                    assert(cache_lookup(store0, key_i) is None);
                    assert(record_matches_input(files@[i as int], AnalysisMode::Semantic, res@));
                    assert forall|k: int| i + 1 <= k < files@.len() implies cache_lookup(
                        self.cache_entries(),
                        input_key(#[trigger] files@[k], AnalysisMode::Semantic),
                    ) is None by {
                        let key_k = input_key(files@[k], AnalysisMode::Semantic);
                        assert(cache_lookup(store0, key_k) is None);
                        if analyzable(content_ref, files@[i as int].path@) {
                            assert(self.cache_entries() == cache_put(store0, cap0, key_i, res@));
                            crate::analyze::cache::lemma_find_first(store0, key_k);
                            crate::analyze::cache::lemma_cache_distinct_key_miss(
                                store0,
                                cap0,
                                key_i,
                                res@,
                                key_k,
                            );
                        } else {
                            assert(self.cache_entries() == store0);
                        }
                    }
                }
            }
            results.push((f.path.clone(), res));
            files_analyzed.push(f.path.clone());
            i = i + 1;
        }
        let graph = CallGraph::build_from_results(&results);
        let ghost rv = results_view(results@);
        proof {
            assert forall|k: int| 0 <= k < rv.len() implies (#[trigger] rv[k]).0
                == files@[k].path@ by {
                assert(rv[k].0 == results@[k].0@);
            }
            assert forall|k: int|
                0 <= k < rv.len() implies (#[trigger] rv[k]).1 == results@[k].1@ by {}
        }
        let incoming_chains = if follow_depth > 0 {
            graph.find_incoming_chains(focus, follow_depth)
        } else {
            Vec::new()
        };
        let outgoing_chains = if follow_depth > 0 {
            graph.find_outgoing_chains(focus, follow_depth)
        } else {
            Vec::new()
        };
        let definitions = graph.definitions_for(focus);
        proof {
            assert(graph.defs_of(focus@) == built_defs(rv, focus@));
            assert(graph.callers_of(focus@) == built_callers(rv, focus@));
            assert(graph.callees_of(focus@) == built_callees(rv, focus@));
            if follow_depth > 0 {
                assert forall|i2: int| 0 <= i2 < incoming_chains@.len() implies
                    valid_incoming_chain_over(
                    rv,
                    focus@,
                    follow_depth as int,
                    (#[trigger] incoming_chains@[i2])@,
                ) by {
                    let hops = incoming_chains@[i2]@;
                    assert(graph.valid_incoming_chain(focus@, follow_depth as int, hops));
                    assert forall|j: int| 0 <= j < hops.len() implies built_callers(
                        rv,
                        (#[trigger] hops[j]).to,
                    ).contains(
                        crate::analyze::graph::EdgeV {
                            file: hops[j].file,
                            line: hops[j].line,
                            sym: hops[j].from,
                        },
                    ) by {
                        assert(graph.callers_of(hops[j].to) == built_callers(rv, hops[j].to));
                        assert(graph.callers_of(hops[j].to).contains(
                            crate::analyze::graph::EdgeV {
                                file: hops[j].file,
                                line: hops[j].line,
                                sym: hops[j].from,
                            },
                        ));
                    }
                }
                assert forall|i2: int| 0 <= i2 < outgoing_chains@.len() implies
                    valid_outgoing_chain_over(
                    rv,
                    focus@,
                    follow_depth as int,
                    (#[trigger] outgoing_chains@[i2])@,
                ) by {
                    let hops = outgoing_chains@[i2]@;
                    assert(graph.valid_outgoing_chain(focus@, follow_depth as int, hops));
                    assert forall|j: int| 0 <= j < hops.len() implies built_callees(
                        rv,
                        (#[trigger] hops[j]).from,
                    ).contains(
                        crate::analyze::graph::EdgeV {
                            file: hops[j].file,
                            line: hops[j].line,
                            sym: hops[j].to,
                        },
                    ) by {
                        assert(graph.callees_of(hops[j].from) == built_callees(rv, hops[j].from));
                        assert(graph.callees_of(hops[j].from).contains(
                            crate::analyze::graph::EdgeV {
                                file: hops[j].file,
                                line: hops[j].line,
                                sym: hops[j].to,
                            },
                        ));
                    }
                }
                assert forall|ei: int| 0 <= ei < built_callers(rv, focus@).len() implies
                    incoming_witnessed(
                    incoming_chains@,
                    Seq::empty(),
                    0,
                    one_hop_in(#[trigger] built_callers(rv, focus@)[ei], focus@),
                ) by {
                    assert(built_callers(rv, focus@)[ei] == graph.callers_of(focus@)[ei]);
                    assert(incoming_witnessed(
                        incoming_chains@,
                        Seq::empty(),
                        0,
                        one_hop_in(graph.callers_of(focus@)[ei], focus@),
                    ));
                }
                assert forall|ei: int| 0 <= ei < built_callees(rv, focus@).len() implies
                    outgoing_witnessed(
                    outgoing_chains@,
                    Seq::empty(),
                    0,
                    one_hop_out(#[trigger] built_callees(rv, focus@)[ei], focus@),
                ) by {
                    assert(built_callees(rv, focus@)[ei] == graph.callees_of(focus@)[ei]);
                    assert(outgoing_witnessed(
                        outgoing_chains@,
                        Seq::empty(),
                        0,
                        one_hop_out(graph.callees_of(focus@)[ei], focus@),
                    ));
                }
                assert forall|i2: int|
                    0 <= i2 < incoming_chains@.len() && (#[trigger] incoming_chains@[i2])@.len()
                        < follow_depth implies built_callers(
                    rv,
                    incoming_chains@[i2]@[0].from,
                ).len() == 0 || incoming_expanded(
                    incoming_chains@,
                    Seq::empty(),
                    0,
                    incoming_chains@[i2]@[0].from,
                ) by {
                    assert(graph.callers_of(incoming_chains@[i2]@[0].from) == built_callers(
                        rv,
                        incoming_chains@[i2]@[0].from,
                    ));
                }
                assert forall|i2: int|
                    0 <= i2 < outgoing_chains@.len() && (#[trigger] outgoing_chains@[i2])@.len()
                        < follow_depth implies built_callees(
                    rv,
                    outgoing_chains@[i2]@[outgoing_chains@[i2]@.len() - 1].to,
                ).len() == 0 || outgoing_expanded(
                    outgoing_chains@,
                    Seq::empty(),
                    0,
                    outgoing_chains@[i2]@[outgoing_chains@[i2]@.len() - 1].to,
                ) by {
                    assert(graph.callees_of(outgoing_chains@[i2]@[outgoing_chains@[i2]@.len()
                        - 1].to) == built_callees(
                        rv,
                        outgoing_chains@[i2]@[outgoing_chains@[i2]@.len() - 1].to,
                    ));
                }
            }
        }
        Ok(
            FocusedAnalysisData {
                focus_symbol: String::from_str(focus),
                follow_depth,
                files_analyzed,
                definitions,
                incoming_chains,
                outgoing_chains,
                facts: Ghost(rv),
            },
        )
    }
}

impl Default for CodeAnalyzer {
    fn default() -> (r: Self)
        ensures
            r.wf(),
            r.cache_entries().len() == 0,
    {
        Self::new()
    }
}

/// The analysis entry point over pre-read inputs. The request's shape
/// picks the mode: a focus symbol means focused analysis; otherwise a
/// single file is analyzed semantically and a directory batch structurally.
pub fn analyze(
    analyzer: &mut CodeAnalyzer,
    files: &Vec<FileInput>,
    path_is_file: bool,
    focus: Option<&str>,
    follow_depth: u32,
    ast_recursion_limit: Option<usize>,
) -> (r: Result<AnalyzeOutput, AnalysisError>)
    requires
        old(analyzer).wf(),
        forall|i: int| 0 <= i < files@.len() ==> file_input_ok(#[trigger] files@[i]),
        path_is_file ==> files@.len() == 1,
    ensures
        final(analyzer).wf(),
        (match r {
            Ok(out) => match out {
                AnalyzeOutput::Focused(data) => {
                    &&& focus is Some
                    &&& focused_report_ok(
                        old(analyzer).cache_entries(),
                        files@,
                        focus->Some_0@,
                        follow_depth,
                        data,
                    )
                },
                AnalyzeOutput::File(res) => {
                    &&& focus is None
                    &&& path_is_file
                    &&& file_report_ok(
                        old(analyzer).cache_entries(),
                        files@[0].path@,
                        files@[0].mtime as int,
                        AnalysisMode::Semantic,
                        content_view(files@[0].content),
                        Ok(res),
                    )
                },
                AnalyzeOutput::Directory(entries) => {
                    &&& focus is None
                    &&& !path_is_file
                    &&& directory_report_ok(old(analyzer).cache_entries(), files@, entries@)
                },
            },
            Err(e) => !(e is UnsupportedLanguage),
        }),
{
    let focus_owned: Option<String> = match focus {
        Some(s) => Some(String::from_str(s)),
        None => None,
    };
    let mode = analyzer.determine_mode(&focus_owned, path_is_file);
    match mode {
        AnalysisMode::Focused => {
            let focus_str: &str = match focus {
                Some(s) => s,
                None => "",
            };
            match analyzer.analyze_focused(files, focus_str, follow_depth, ast_recursion_limit) {
                Ok(data) => Ok(AnalyzeOutput::Focused(data)),
                Err(e) => Err(e),
            }
        },
        AnalysisMode::Semantic => {
            proof {
                assert(file_input_ok(files@[0]));
            }
            let f = &files[0];
            let content_ref = f.content.as_ref();
            proof {
                assert(opt_bytes_view(content_ref) == content_view(files@[0].content));
            }
            match analyzer.analyze_file(
                f.path.as_str(),
                f.mtime,
                &AnalysisMode::Semantic,
                content_ref,
                ast_recursion_limit,
            ) {
                Ok(res) => Ok(AnalyzeOutput::File(res)),
                Err(e) => Err(e),
            }
        },
        AnalysisMode::Structure => {
            match analyzer.analyze_directory(files, ast_recursion_limit) {
                Ok(entries) => Ok(AnalyzeOutput::Directory(entries)),
                Err(e) => Err(e),
            }
        },
    }
}

} // verus!
