//! File-extension based language identification.

use vstd::prelude::*;

use crate::text::str_eq;

verus! {

/// Index of the last occurrence of `c` in `p`, or -1.
pub open spec fn last_index_of(p: Seq<char>, c: char) -> int
    decreases p.len(),
{
    if p.len() == 0 {
        -1
    } else if p[p.len() - 1] == c {
        p.len() - 1
    } else {
        last_index_of(p.drop_last(), c)
    }
}

pub proof fn lemma_last_index_bounds(p: Seq<char>, c: char)
    ensures
        -1 <= last_index_of(p, c) < p.len(),
    decreases p.len(),
{
    if p.len() > 0 && p[p.len() - 1] != c {
        lemma_last_index_bounds(p.drop_last(), c);
    }
}

proof fn lemma_last_index_scan(p: Seq<char>, c: char, i: int)
    requires
        0 <= i <= p.len(),
        forall|j: int| i <= j < p.len() ==> p[j] != c,
    ensures
        last_index_of(p, c) == last_index_of(p.take(i), c),
    decreases p.len() - i,
{
    if i == p.len() {
        assert(p.take(i) =~= p);
    } else {
        let q = p.drop_last();
        assert(q =~= p.take(p.len() - 1));
        lemma_last_index_scan(q, c, i);
        assert(q.take(i) =~= p.take(i));
    }
}

/// Last position of `c` among the characters of `s`, scanning from the end.
pub fn last_char_index(s: &str, c: char) -> (r: Option<usize>)
    ensures
        (match r {
            Some(i) => last_index_of(s@, c) == i as int && i < usize::MAX,
            None => last_index_of(s@, c) == -1,
        }),
{
    let n = s.unicode_len();
    let mut i: usize = n;
    while i > 0
        invariant
            i <= n,
            n as nat == s@.len(),
            forall|j: int| i <= j < s@.len() ==> s@[j] != c,
        decreases i,
    {
        if s.get_char(i - 1) == c {
            proof {
                lemma_last_index_scan(s@, c, i as int);
                assert(s@.take(i as int)[i - 1] == c);
            }
            return Some(i - 1);
        }
        i = i - 1;
    }
    proof {
        lemma_last_index_scan(s@, c, 0);
        assert(s@.take(0) =~= Seq::<char>::empty());
    }
    None
}

/// The extension of a file path: what follows the last dot of the final path
/// component, provided that dot is not the component's first character.
pub open spec fn spec_extension(p: Seq<char>) -> Option<Seq<char>> {
    let name_start = last_index_of(p, '/') + 1;
    let dot = last_index_of(p, '.');
    if dot > name_start {
        Some(p.subrange(dot + 1, p.len() as int))
    } else {
        None
    }
}

/// The markdown language identifier for one extension; empty when the
/// extension is not recognized.
pub open spec fn spec_language_for_ext(e: Seq<char>) -> Seq<char> {
    if e == "rs"@ {
        "rust"@
    } else if e == "hs"@ {
        "haskell"@
    } else if e == "rkt"@ || e == "scm"@ {
        "scheme"@
    } else if e == "py"@ {
        "python"@
    } else if e == "js"@ {
        "javascript"@
    } else if e == "ts"@ {
        "typescript"@
    } else if e == "json"@ {
        "json"@
    } else if e == "toml"@ {
        "toml"@
    } else if e == "yaml"@ || e == "yml"@ {
        "yaml"@
    } else if e == "sh"@ {
        "bash"@
    } else if e == "ps1"@ {
        "powershell"@
    } else if e == "bat"@ || e == "cmd"@ {
        "batch"@
    } else if e == "vbs"@ {
        "vbscript"@
    } else if e == "go"@ {
        "go"@
    } else if e == "md"@ {
        "markdown"@
    } else if e == "html"@ {
        "html"@
    } else if e == "css"@ {
        "css"@
    } else if e == "sql"@ {
        "sql"@
    } else if e == "java"@ {
        "java"@
    } else if e == "cpp"@ || e == "cc"@ || e == "cxx"@ {
        "cpp"@
    } else if e == "c"@ {
        "c"@
    } else if e == "h"@ || e == "hpp"@ {
        "cpp"@
    } else if e == "rb"@ {
        "ruby"@
    } else if e == "php"@ {
        "php"@
    } else if e == "swift"@ {
        "swift"@
    } else if e == "kt"@ || e == "kts"@ {
        "kotlin"@
    } else if e == "scala"@ {
        "scala"@
    } else if e == "r"@ {
        "r"@
    } else if e == "m"@ {
        "matlab"@
    } else if e == "pl"@ {
        "perl"@
    } else if e == "dockerfile"@ {
        "dockerfile"@
    } else {
        ""@
    }
}

/// The language identifier of a path: empty when the path carries no
/// recognized source-file extension.
pub open spec fn spec_language_id(p: Seq<char>) -> Seq<char> {
    match spec_extension(p) {
        Some(e) => spec_language_for_ext(e),
        None => ""@,
    }
}

fn language_for_ext(e: &str) -> (r: &'static str)
    ensures
        r@ == spec_language_for_ext(e@),
{
    if str_eq(e, "rs") {
        "rust"
    } else if str_eq(e, "hs") {
        "haskell"
    } else if str_eq(e, "rkt") || str_eq(e, "scm") {
        "scheme"
    } else if str_eq(e, "py") {
        "python"
    } else if str_eq(e, "js") {
        "javascript"
    } else if str_eq(e, "ts") {
        "typescript"
    } else if str_eq(e, "json") {
        "json"
    } else if str_eq(e, "toml") {
        "toml"
    } else if str_eq(e, "yaml") || str_eq(e, "yml") {
        "yaml"
    } else if str_eq(e, "sh") {
        "bash"
    } else if str_eq(e, "ps1") {
        "powershell"
    } else if str_eq(e, "bat") || str_eq(e, "cmd") {
        "batch"
    } else if str_eq(e, "vbs") {
        "vbscript"
    } else if str_eq(e, "go") {
        "go"
    } else if str_eq(e, "md") {
        "markdown"
    } else if str_eq(e, "html") {
        "html"
    } else if str_eq(e, "css") {
        "css"
    } else if str_eq(e, "sql") {
        "sql"
    } else if str_eq(e, "java") {
        "java"
    } else if str_eq(e, "cpp") || str_eq(e, "cc") || str_eq(e, "cxx") {
        "cpp"
    } else if str_eq(e, "c") {
        "c"
    } else if str_eq(e, "h") || str_eq(e, "hpp") {
        "cpp"
    } else if str_eq(e, "rb") {
        "ruby"
    } else if str_eq(e, "php") {
        "php"
    } else if str_eq(e, "swift") {
        "swift"
    } else if str_eq(e, "kt") || str_eq(e, "kts") {
        "kotlin"
    } else if str_eq(e, "scala") {
        "scala"
    } else if str_eq(e, "r") {
        "r"
    } else if str_eq(e, "m") {
        "matlab"
    } else if str_eq(e, "pl") {
        "perl"
    } else if str_eq(e, "dockerfile") {
        "dockerfile"
    } else {
        ""
    }
}

/// Get the markdown language identifier for a file extension
pub fn get_language_identifier(path: &str) -> (r: &'static str)
    ensures
        r@ == spec_language_id(path@),
{
    let slash = last_char_index(path, '/');
    let dot = last_char_index(path, '.');
    let name_start: usize = match slash {
        Some(i) => i + 1,
        None => 0,
    };
    proof {
        lemma_last_index_bounds(path@, '.');
    }
    if let Some(d) = dot {
        if d > name_start {
            let n = path.unicode_len();
            let e = path.substring_char(d + 1, n);
            return language_for_ext(e);
        }
    }
    ""
}

} // verus!
