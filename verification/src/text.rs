//! Byte-level text utilities: line numbering, line boundaries, trimming and
//! UTF-8 decoding, shared by the fact extractor.

use vstd::prelude::*;

verus! {

/// String slice equality, specified over the views.
pub fn str_eq(a: &str, b: &str) -> (r: bool)
    ensures
        r == (a@ == b@),
{
    let av = a.as_bytes_vec();
    let bv = b.as_bytes_vec();
    proof {
        vstd::utf8::encode_utf8_decode_utf8(a@);
        vstd::utf8::encode_utf8_decode_utf8(b@);
    }
    if av.len() != bv.len() {
        return false;
    }
    let n = av.len();
    let mut i: usize = 0;
    while i < n
        invariant
            i <= n,
            n == av@.len(),
            n == bv@.len(),
            av@ == vstd::utf8::encode_utf8(a@),
            bv@ == vstd::utf8::encode_utf8(b@),
            vstd::utf8::decode_utf8(vstd::utf8::encode_utf8(a@)) == a@,
            vstd::utf8::decode_utf8(vstd::utf8::encode_utf8(b@)) == b@,
            forall|j: int| 0 <= j < i ==> av@[j] == bv@[j],
        decreases n - i,
    {
        if av[i] != bv[i] {
            return false;
        }
        i = i + 1;
    }
    proof {
        assert(av@ =~= bv@);
    }
    true
}

/// How many newline bytes occur before offset `end`.
pub open spec fn newline_count(s: Seq<u8>, end: int) -> int
    decreases end,
{
    if end <= 0 {
        0
    } else {
        newline_count(s, end - 1) + if s[end - 1] == 10 {
            1int
        } else {
            0int
        }
    }
}

pub proof fn lemma_newline_count_bounds(s: Seq<u8>, end: int)
    requires
        end >= 0,
    ensures
        0 <= newline_count(s, end) <= end,
    decreases end,
{
    if end > 0 {
        lemma_newline_count_bounds(s, end - 1);
    }
}

/// Number of lines, as `str::lines` counts them: one per newline byte, plus
/// one for a final line not ended by a newline.
pub open spec fn spec_line_count(s: Seq<u8>) -> int {
    newline_count(s, s.len() as int) + if s.len() > 0 && s[s.len() - 1] != 10 {
        1int
    } else {
        0int
    }
}

pub fn count_lines(src: &Vec<u8>) -> (r: usize)
    ensures
        r == spec_line_count(src@),
{
    let n = src.len();
    let mut count: usize = 0;
    let mut i: usize = 0;
    while i < n
        invariant
            i <= n,
            n == src@.len(),
            count == newline_count(src@, i as int),
            count <= i,
        decreases n - i,
    {
        if src[i] == 10 {
            count = count + 1;
        }
        i = i + 1;
    }
    if n > 0 && src[n - 1] != 10 {
        proof {
            lemma_newline_count_bounds(src@, n as int - 1);
        }
        count = count + 1;
    }
    count
}

/// 1-indexed line number of byte offset `off`: one more than the number of
/// newline bytes before it. An offset beyond the buffer counts as line 1.
pub open spec fn spec_line_at(s: Seq<u8>, off: int) -> int {
    if off > s.len() {
        1
    } else {
        1 + newline_count(s, off)
    }
}

pub fn line_at(src: &Vec<u8>, off: usize) -> (r: usize)
    requires
        src@.len() < usize::MAX,
    ensures
        r == spec_line_at(src@, off as int),
{
    let n = src.len();
    if off > n {
        return 1;
    }
    let mut count: usize = 0;
    let mut i: usize = 0;
    while i < off
        invariant
            i <= off <= n,
            n == src@.len(),
            n < usize::MAX,
            count == newline_count(src@, i as int),
            count <= i,
        decreases off - i,
    {
        if src[i] == 10 {
            count = count + 1;
        }
        i = i + 1;
    }
    count + 1
}

/// Index of the last newline before offset `off`, or -1 if there is none.
pub open spec fn last_newline_before(s: Seq<u8>, off: int) -> int
    decreases off,
{
    if off <= 0 {
        -1
    } else if s[off - 1] == 10 {
        off - 1
    } else {
        last_newline_before(s, off - 1)
    }
}

pub proof fn lemma_last_newline_bounds(s: Seq<u8>, off: int)
    requires
        off >= 0,
    ensures
        -1 <= last_newline_before(s, off) < off,
    decreases off,
{
    if off > 0 && s[off - 1] != 10 {
        lemma_last_newline_bounds(s, off - 1);
    }
}

/// Index of the first newline at or after `from`, or the length if none.
pub open spec fn first_newline_at(s: Seq<u8>, from: int) -> int
    decreases s.len() - from,
{
    if from < 0 {
        first_newline_at(s, 0)
    } else if from >= s.len() {
        s.len() as int
    } else if s[from] == 10 {
        from
    } else {
        first_newline_at(s, from + 1)
    }
}

pub proof fn lemma_first_newline_bounds(s: Seq<u8>, from: int)
    requires
        0 <= from <= s.len(),
    ensures
        from <= first_newline_at(s, from),
        first_newline_at(s, from) <= s.len(),
    decreases s.len() - from,
{
    if from < s.len() && s[from] != 10 {
        lemma_first_newline_bounds(s, from + 1);
    }
}

/// Where the source line containing offset `off` begins: one past the last
/// newline before `off`, or 0. An offset beyond the buffer gives 0.
pub open spec fn spec_line_start(s: Seq<u8>, off: int) -> int {
    if off > s.len() {
        0
    } else {
        last_newline_before(s, off) + 1
    }
}

pub fn line_start_at(src: &Vec<u8>, off: usize) -> (r: usize)
    ensures
        r == spec_line_start(src@, off as int),
        r <= src@.len(),
{
    let n = src.len();
    if off > n {
        return 0;
    }
    proof {
        lemma_last_newline_bounds(src@, off as int);
    }
    let mut i: usize = off;
    while i > 0
        invariant
            i <= off <= n,
            n == src@.len(),
            last_newline_before(src@, off as int) == last_newline_before(src@, i as int),
        decreases i,
    {
        if src[i - 1] == 10 {
            return i;
        }
        i = i - 1;
    }
    0
}

/// Where the source line containing the match ending at `off` ends: the
/// first newline at or after `off`, or the buffer's length.
pub open spec fn spec_line_end(s: Seq<u8>, off: int) -> int {
    if off > s.len() {
        s.len() as int
    } else {
        first_newline_at(s, off)
    }
}

pub fn line_end_at(src: &Vec<u8>, off: usize) -> (r: usize)
    ensures
        r == spec_line_end(src@, off as int),
        r <= src@.len(),
{
    let n = src.len();
    if off > n {
        return n;
    }
    let mut i: usize = off;
    while i < n
        invariant
            off <= i <= n,
            n == src@.len(),
            first_newline_at(src@, off as int) == first_newline_at(src@, i as int),
        decreases n - i,
    {
        if src[i] == 10 {
            return i;
        }
        i = i + 1;
    }
    proof {
        lemma_first_newline_bounds(src@, off as int);
    }
    n
}

/// ASCII whitespace, as trimming understands it. Context lines are
/// trimmed of these four bytes only; other Unicode spacing (a no-break
/// space, say) is kept, unlike a full Unicode trim.
pub open spec fn is_ws(b: u8) -> bool {
    b == 32 || b == 9 || b == 10 || b == 13
}

/// First index in [a, b) holding a non-whitespace byte, or b.
pub open spec fn skip_ws_front(s: Seq<u8>, a: int, b: int) -> int
    decreases b - a,
{
    if a >= b {
        b
    } else if is_ws(s[a]) {
        skip_ws_front(s, a + 1, b)
    } else {
        a
    }
}

pub proof fn lemma_skip_ws_front_bounds(s: Seq<u8>, a: int, b: int)
    requires
        a <= b,
    ensures
        a <= skip_ws_front(s, a, b) <= b,
    decreases b - a,
{
    if a < b && is_ws(s[a]) {
        lemma_skip_ws_front_bounds(s, a + 1, b);
    }
}

/// One past the last index in [a, b) holding a non-whitespace byte, or a.
pub open spec fn skip_ws_back(s: Seq<u8>, a: int, b: int) -> int
    decreases b - a,
{
    if b <= a {
        a
    } else if is_ws(s[b - 1]) {
        skip_ws_back(s, a, b - 1)
    } else {
        b
    }
}

pub proof fn lemma_skip_ws_back_bounds(s: Seq<u8>, a: int, b: int)
    requires
        a <= b,
    ensures
        a <= skip_ws_back(s, a, b) <= b,
    decreases b - a,
{
    if a < b && is_ws(s[b - 1]) {
        lemma_skip_ws_back_bounds(s, a, b - 1);
    }
}

/// Relies on String::from_utf8: it succeeds exactly on valid UTF-8 input and
/// decodes the bytes to the characters they encode.
#[verifier::external_body]
pub fn decode_range(src: &Vec<u8>, a: usize, b: usize) -> (r: Option<String>)
    requires
        a <= b,
        b <= src@.len(),
    ensures
        match r {
            Some(s) => vstd::utf8::valid_utf8(src@.subrange(a as int, b as int)) && s@
                == vstd::utf8::decode_utf8(src@.subrange(a as int, b as int)),
            None => !vstd::utf8::valid_utf8(src@.subrange(a as int, b as int)),
        },
{
    match String::from_utf8(src[a..b].to_vec()) {
        Ok(s) => Some(s),
        Err(_) => None,
    }
}

/// The characters that the bytes in [a, b) encode, or nothing when the range
/// is out of bounds or not valid UTF-8. Mirrors `str::get` followed by
/// `to_string` on an indexed range.
pub open spec fn spec_text_at(s: Seq<u8>, a: int, b: int) -> Option<Seq<char>> {
    if 0 <= a <= b <= s.len() && vstd::utf8::valid_utf8(s.subrange(a, b)) {
        Some(vstd::utf8::decode_utf8(s.subrange(a, b)))
    } else {
        None
    }
}

pub fn text_of(src: &Vec<u8>, a: usize, b: usize) -> (r: Option<String>)
    ensures
        (match r {
            Some(s) => spec_text_at(src@, a as int, b as int) == Some(s@),
            None => spec_text_at(src@, a as int, b as int) is None,
        }),
{
    if a <= b && b <= src.len() {
        decode_range(src, a, b)
    } else {
        None
    }
}

/// The trimmed text of the single source line containing the byte range
/// [start, end): scan back from `start` and forward from `end` to newline
/// boundaries, strip ASCII whitespace at both ends, and decode. Undecodable
/// or inverted ranges give the empty string.
pub open spec fn spec_context(s: Seq<u8>, start: int, end: int) -> Seq<char> {
    let ls = spec_line_start(s, start);
    let le = spec_line_end(s, end);
    if ls > le {
        Seq::empty()
    } else {
        let a = skip_ws_front(s, ls, le);
        let b = skip_ws_back(s, a, le);
        match spec_text_at(s, a, b) {
            Some(t) => t,
            None => Seq::empty(),
        }
    }
}

fn trim_front(src: &Vec<u8>, a0: usize, b: usize) -> (r: usize)
    requires
        a0 <= b,
        b <= src@.len(),
    ensures
        r == skip_ws_front(src@, a0 as int, b as int),
        a0 <= r <= b,
{
    let mut a: usize = a0;
    while a < b
        invariant
            a0 <= a <= b,
            b <= src@.len(),
            skip_ws_front(src@, a0 as int, b as int) == skip_ws_front(src@, a as int, b as int),
        decreases b - a,
    {
        let c = src[a];
        if c != 32 && c != 9 && c != 10 && c != 13 {
            return a;
        }
        a = a + 1;
    }
    b
}

fn trim_back(src: &Vec<u8>, a: usize, b0: usize) -> (r: usize)
    requires
        a <= b0,
        b0 <= src@.len(),
    ensures
        r == skip_ws_back(src@, a as int, b0 as int),
        a <= r <= b0,
{
    let mut b: usize = b0;
    while b > a
        invariant
            a <= b <= b0,
            b0 <= src@.len(),
            skip_ws_back(src@, a as int, b0 as int) == skip_ws_back(src@, a as int, b as int),
        decreases b,
    {
        let c = src[b - 1];
        if c != 32 && c != 9 && c != 10 && c != 13 {
            return b;
        }
        b = b - 1;
    }
    a
}

pub fn context_of(src: &Vec<u8>, start: usize, end: usize) -> (r: String)
    ensures
        r@ == spec_context(src@, start as int, end as int),
{
    let ls = line_start_at(src, start);
    let le = line_end_at(src, end);
    if ls > le {
        return String::new();
    }
    let a = trim_front(src, ls, le);
    let b = trim_back(src, a, le);
    match decode_range(src, a, b) {
        Some(s) => s,
        None => String::new(),
    }
}

} // verus!
