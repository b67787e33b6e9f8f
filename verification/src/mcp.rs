//! The four tools an agent calls over MCP: `kei_spec` (spec sections and
//! error-code notes), `kei_check` (diagnostics as JSON), `kei_fmt` (the
//! canonical layout) and `kei_examples` (example search). The documents they
//! serve come as a [`Bundle`] of `(relative path, content)` pairs.
use vstd::prelude::*;
use crate::diag_json::{diagnostics_json, diagnostics_json_text};
use crate::diagnostic::Diagnostic;
use crate::seeds::is_white_space;
use crate::text::{chars_of, is_prefix, push_char, push_str, string_of};

verus! {

broadcast use vstd::string::group_string_axioms;

// ---------------------------------------------------------------------------
// Text helpers
// ---------------------------------------------------------------------------

/// `s` without its leading white space.
pub open spec fn trim_start(s: Seq<char>) -> Seq<char>
    decreases s.len(),
{
    if s.len() > 0 && is_white_space(s[0]) { trim_start(s.drop_first()) } else { s }
}

/// `s` without its trailing white space.
pub open spec fn trim_end(s: Seq<char>) -> Seq<char>
    decreases s.len(),
{
    if s.len() > 0 && is_white_space(s.last()) { trim_end(s.drop_last()) } else { s }
}

/// `str::trim`: `s` without leading and trailing white space.
pub open spec fn trim(s: Seq<char>) -> Seq<char> {
    trim_end(trim_start(s))
}

fn trim_end_range(cs: &Vec<char>, lo: usize) -> (hi: usize)
    requires
        lo <= cs@.len(),
    ensures
        lo <= hi <= cs@.len(),
        trim_end(cs@.subrange(lo as int, cs@.len() as int)) == cs@.subrange(lo as int, hi as int),
{
    let mut hi = cs.len();
    while hi > lo && crate::seeds::white_space(cs[hi - 1])
        invariant
            lo <= hi <= cs@.len(),
            trim_end(cs@.subrange(lo as int, cs@.len() as int)) == trim_end(cs@.subrange(lo as int, hi as int)),
        decreases hi,
    {
        assert(cs@.subrange(lo as int, hi as int).drop_last() =~= cs@.subrange(lo as int, hi - 1));
        hi = hi - 1;
    }
    proof {
        let t = cs@.subrange(lo as int, hi as int);
        if hi > lo {
            assert(t.last() == cs@[hi - 1]);
        }
    }
    hi
}

fn sub_chars(cs: &Vec<char>, lo: usize, hi: usize) -> (r: String)
    requires
        lo <= hi <= cs@.len(),
    ensures
        r@ == cs@.subrange(lo as int, hi as int),
{
    let mut s = String::new();
    let mut k = lo;
    while k < hi
        invariant
            lo <= k <= hi <= cs@.len(),
            s@ == cs@.subrange(lo as int, k as int),
        decreases hi - k,
    {
        push_char(&mut s, cs[k]);
        assert(s@ =~= cs@.subrange(lo as int, k + 1));
        k = k + 1;
    }
    s
}

/// `str::trim`.
pub fn trim_text(t: &str) -> (r: String)
    ensures
        r@ == trim(t@),
{
    let cs = chars_of(t);
    let mut lo: usize = 0;
    assert(cs@.subrange(0, cs@.len() as int) =~= cs@);
    while lo < cs.len() && crate::seeds::white_space(cs[lo])
        invariant
            lo <= cs@.len(),
            trim_start(cs@) == trim_start(cs@.subrange(lo as int, cs@.len() as int)),
        decreases cs@.len() - lo,
    {
        assert(cs@.subrange(lo as int, cs@.len() as int).drop_first() =~= cs@.subrange(lo + 1, cs@.len() as int));
        lo = lo + 1;
    }
    proof {
        let t = cs@.subrange(lo as int, cs@.len() as int);
        if t.len() > 0 {
            assert(t[0] == cs@[lo as int]);
        }
        assert(cs@.subrange(0, cs@.len() as int) =~= cs@);
        assert(trim_start(cs@) == t);
    }
    let hi = trim_end_range(&cs, lo);
    sub_chars(&cs, lo, hi)
}

/// `str::trim_end`.
fn trim_end_text(t: &str) -> (r: String)
    ensures
        r@ == trim_end(t@),
{
    let cs = chars_of(t);
    let hi = trim_end_range(&cs, 0);
    assert(cs@.subrange(0, cs@.len() as int) =~= cs@);
    sub_chars(&cs, 0, hi)
}

/// Whether `n` occurs in `h` as a contiguous part.
pub open spec fn has_infix(h: Seq<char>, n: Seq<char>) -> bool {
    exists|i: int| 0 <= i && i + n.len() <= h.len() && #[trigger] h.subrange(i, i + n.len()) == n
}

/// `str::contains` with a string pattern.
fn contains_text(h: &str, n: &str) -> (r: bool)
    ensures
        r == has_infix(h@, n@),
{
    let hv = chars_of(h);
    let nv = chars_of(n);
    if nv.len() > hv.len() {
        return false;
    }
    if nv.len() == 0 {
        assert(has_infix(hv@, nv@)) by {
            assert(hv@.subrange(0, 0 + nv@.len() as int) =~= nv@);
        }
        return true;
    }
    let last = hv.len() - nv.len();
    let mut i: usize = 0;
    while i <= last
        invariant
            last == hv@.len() - nv@.len(),
            0 < nv@.len() <= hv@.len(),
            hv@.len() <= usize::MAX,
            hv@ == h@,
            nv@ == n@,
            nv@.len() <= hv@.len(),
            i <= hv@.len() - nv@.len() + 1,
            forall|k: int| 0 <= k < i ==> #[trigger] hv@.subrange(k, k + nv@.len()) != nv@,
        decreases hv@.len() - i,
    {
        let mut j: usize = 0;
        let mut same = true;
        while j < nv.len()
            invariant
                i <= last,
                nv@.len() <= hv@.len(),
                hv@.len() <= usize::MAX,
                last == hv@.len() - nv@.len(),
                j <= nv@.len(),
                same <==> (forall|k: int| 0 <= k < j ==> hv@[i + k] == nv@[k]),
            decreases nv@.len() - j,
        {
            if hv[i + j] != nv[j] {
                same = false;
            }
            j = j + 1;
        }
        if same {
            assert(hv@.subrange(i as int, i + nv@.len()) =~= nv@);
            assert(has_infix(hv@, nv@));
            return true;
        }
        proof {
            let k0 = choose|k: int| 0 <= k < nv@.len() && hv@[i + k] != nv@[k];
            assert(hv@.subrange(i as int, i + nv@.len())[k0] != nv@[k0]);
        }
        i = i + 1;
    }
    proof {
        if has_infix(hv@, nv@) {
            let w = choose|w: int| 0 <= w && w + nv@.len() <= hv@.len() && #[trigger] hv@.subrange(w, w + nv@.len()) == nv@;
            assert(hv@.subrange(w, w + nv@.len()) != nv@);
        }
    }
    false
}

/// The lower-case form of `s` (Unicode case mapping, as `str::to_lowercase`).
pub uninterp spec fn lowercase(s: Seq<char>) -> Seq<char>;

/// The upper-case form of `s` (Unicode case mapping, as `str::to_uppercase`).
pub uninterp spec fn uppercase(s: Seq<char>) -> Seq<char>;

/// `str::to_lowercase`: the contract names the answer (a function of `s`
/// alone) without restating the Unicode case tables.
#[verifier::external_body]
fn to_lower(s: &str) -> (r: String)
    ensures
        r@ == lowercase(s@),
{
    s.to_lowercase()
}

/// `str::to_uppercase`: the contract names the answer (a function of `s`
/// alone) without restating the Unicode case tables.
#[verifier::external_body]
fn to_upper(s: &str) -> (r: String)
    ensures
        r@ == uppercase(s@),
{
    s.to_uppercase()
}

/// The number of UTF-8 bytes of `s`.
pub open spec fn utf8_len(s: Seq<char>) -> nat
    decreases s.len(),
{
    if s.len() == 0 {
        0
    } else {
        let c = s.last() as u32;
        utf8_len(s.drop_last()) + if c < 0x80 { 1nat } else if c < 0x800 { 2nat } else if c < 0x10000 { 3nat } else { 4nat }
    }
}

/// Whether `s` holds at least `k` UTF-8 bytes.
fn utf8_at_least(s: &str, k: usize) -> (r: bool)
    ensures
        r == (utf8_len(s@) >= k),
{
    if k == 0 {
        return true;
    }
    let cs = chars_of(s);
    let mut n: usize = 0;
    let mut i: usize = 0;
    while i < cs.len()
        invariant
            cs@ == s@,
            i <= cs@.len(),
            n as nat == utf8_len(cs@.take(i as int)),
            n < k,
        decreases cs@.len() - i,
    {
        let c = cs[i] as u32;
        let w: usize = if c < 0x80 { 1 } else if c < 0x800 { 2 } else if c < 0x10000 { 3 } else { 4 };
        assert(cs@.take(i + 1).drop_last() =~= cs@.take(i as int));
        proof {
            assert(cs@.take(i + 1).last() == cs@[i as int]);
            assert(utf8_len(cs@.take(i + 1)) == n + w);
        }
        if w >= k - n {
            proof {
                lemma_utf8_len_prefix(cs@, i + 1);
            }
            return true;
        }
        n = n + w;
        i = i + 1;
    }
    assert(cs@.take(cs@.len() as int) =~= cs@);
    false
}

proof fn lemma_utf8_len_prefix(s: Seq<char>, k: int)
    requires
        0 <= k <= s.len(),
    ensures
        utf8_len(s.take(k)) <= utf8_len(s),
    decreases s.len(),
{
    if k < s.len() {
        lemma_utf8_len_prefix(s.drop_last(), k);
        assert(s.drop_last().take(k) =~= s.take(k));
    } else {
        assert(s.take(k) =~= s);
    }
}

// ---------------------------------------------------------------------------
// Tool results and the document bundle
// ---------------------------------------------------------------------------

/// The result of one tool call; `is_error` is MCP's `isError`.
pub struct ToolOutcome {
    pub text: String,
    pub is_error: bool,
}

/// A required argument is missing.
pub fn missing_arg(name: &str) -> (r: ToolOutcome)
    ensures
        r.is_error,
        r.text@ == "Missing required argument '"@ + name@ + "'."@,
{
    ToolOutcome { text: crate::text::cat3("Missing required argument '", name, "'."), is_error: true }
}

/// The tool name is not one of the four.
pub fn unknown_tool(name: &str) -> (r: ToolOutcome)
    ensures
        r.is_error,
        r.text@ == "Unknown tool '"@ + name@ + "'."@,
{
    ToolOutcome { text: crate::text::cat3("Unknown tool '", name, "'."), is_error: true }
}

/// The documents served by the tools: the spec files (paths relative to the
/// spec root, e.g. `errors/KEI-E3001.md`) and the example files (relative to
/// the examples root), each ordered by path.
pub struct Bundle {
    pub spec: Vec<(String, String)>,
    pub examples: Vec<(String, String)>,
}

/// The spec files, ordered by path.
pub fn spec_files(b: &Bundle) -> (r: &Vec<(String, String)>)
    ensures
        r@ == b.spec@,
{
    &b.spec
}

/// The example files, ordered by path.
pub fn example_files(b: &Bundle) -> (r: &Vec<(String, String)>)
    ensures
        r@ == b.examples@,
{
    &b.examples
}

/// The content of the spec file at `relpath` (the first entry with that path).
pub fn spec_file(b: &Bundle, relpath: &str) -> (r: Option<String>)
    ensures
        r is None <==> !crate::table::has_key(b.spec@, relpath@),
        r matches Some(c) ==> exists|i: int| 0 <= i < b.spec@.len() && b.spec@[i].0@ == relpath@
            && c@ == b.spec@[i].1@ && forall|j: int| 0 <= j < i ==> #[trigger] b.spec@[j].0@ != relpath@,
{
    match crate::table::find_key(&b.spec, relpath) {
        Some(i) => Some(crate::text::owned(b.spec[i].1.as_str())),
        None => None,
    }
}

// ---------------------------------------------------------------------------
// kei_spec
// ---------------------------------------------------------------------------

/// The main spec document, split into level-2 sections.
pub const MAIN_SPEC: &'static str = "kei-spec-v0.1.md";
/// The diagnostic schema document.
pub const DIAGNOSTIC_SCHEMA: &'static str = "diagnostic-schema.md";

/// The content of the first file at `rel`.
pub open spec fn lookup(files: Seq<(String, String)>, rel: Seq<char>) -> Option<Seq<char>> {
    match crate::table::spec_find(files, rel) {
        Some(i) => Some(files[i].1@),
        None => None,
    }
}

/// The first index at or after `i` where `pat` occurs in `s`.
pub open spec fn find_from(s: Seq<char>, pat: Seq<char>, i: int) -> Option<int>
    decreases s.len() + 1 - i,
{
    if i < 0 || i + pat.len() > s.len() {
        None
    } else if s.subrange(i, i + pat.len()) == pat {
        Some(i)
    } else {
        find_from(s, pat, i + 1)
    }
}

/// `(number, title)` of a line `## <digits>. <title>`; nothing for any other
/// line (deeper headings included).
pub open spec fn heading(line: Seq<char>) -> Option<(Seq<char>, Seq<char>)> {
    if is_prefix("## "@, line) {
        let rest = line.subrange(3, line.len() as int);
        match find_from(rest, ". "@, 0) {
            Some(i) => {
                let num = rest.subrange(0, i);
                if num.len() > 0 && crate::lexer::all_digits(num) {
                    Some((num, rest.subrange(i + 2, rest.len() as int)))
                } else {
                    None
                }
            },
            None => None,
        }
    } else {
        None
    }
}

/// Lines joined with line breaks.
pub open spec fn join_lines(ls: Seq<Seq<char>>) -> Seq<char>
    decreases ls.len(),
{
    if ls.len() == 0 {
        Seq::empty()
    } else if ls.len() == 1 {
        ls[0]
    } else {
        join_lines(ls.drop_last()) + "\n"@ + ls.last()
    }
}

/// The sections closed among the first `k` lines, and the section still open.
pub open spec fn sections_upto(ls: Seq<Seq<char>>, k: nat)
    -> (Seq<(Seq<char>, Seq<char>, Seq<char>)>, Option<(Seq<char>, Seq<char>, Seq<Seq<char>>)>)
    decreases k,
{
    if k == 0 || k > ls.len() {
        (Seq::empty(), None)
    } else {
        let (done, cur) = sections_upto(ls, (k - 1) as nat);
        let line = ls[k - 1];
        match heading(line) {
            Some((n, t)) => (
                match cur { Some((cn, ct, cb)) => done.push((cn, ct, join_lines(cb))), None => done },
                Some((n, t, seq![line])),
            ),
            None => (done, match cur { Some((cn, ct, cb)) => Some((cn, ct, cb.push(line))), None => None }),
        }
    }
}

/// The level-2 sections of a document: `(number, title, text)`, where the
/// text runs from the heading to the next level-2 heading (deeper headings
/// belong to the section above them).
pub open spec fn sections(doc: Seq<char>) -> Seq<(Seq<char>, Seq<char>, Seq<char>)> {
    let ls = crate::text::lines(doc);
    let (done, cur) = sections_upto(ls, ls.len());
    match cur {
        Some((n, t, b)) => done.push((n, t, join_lines(b))),
        None => done,
    }
}

fn heading_of(line: &Vec<char>) -> (r: Option<(String, String)>)
    ensures
        r matches Some((n, t)) ==> heading(line@) == Some((n@, t@)),
        r is None ==> heading(line@) is None,
{
    let p = crate::text::chars_of("## ");
    proof {
        reveal_strlit("## ");
        reveal_strlit(". ");
    }
    if !crate::text::chars_starts_with(line, &p) {
        return None;
    }
    let ghost rest = line@.subrange(3, line@.len() as int);
    assert(line@.len() >= 3);
    let last = line.len() - 1;
    let mut i: usize = 3;
    while i < last
        invariant
            3 <= i,
            last == line@.len() - 1,
            line@.len() >= 3,
            line@.len() <= usize::MAX,
            is_prefix("## "@, line@),
            rest == line@.subrange(3, line@.len() as int),
            find_from(rest, ". "@, 0) == find_from(rest, ". "@, i - 3),
        decreases line@.len() - i,
    {
        proof {
            reveal_strlit(". ");
        }
        if line[i] == '.' && line[i + 1] == ' ' {
            assert(rest.subrange(i - 3, i - 3 + 2) =~= ". "@);
            assert(find_from(rest, ". "@, 0) == Some(i - 3));
            let num = sub_chars(line, 3, i);
            assert(num@ =~= rest.subrange(0, i - 3));
            let mut all = true;
            let mut k: usize = 3;
            while k < i
                invariant
                    3 <= k <= i < last,
                    last == line@.len() - 1,
                    line@.len() <= usize::MAX,
                    all <==> forall|j: int| 3 <= j < k ==> crate::lexer::is_digit(#[trigger] line@[j]),
                decreases i - k,
            {
                if !('0' <= line[k] && line[k] <= '9') {
                    all = false;
                }
                k = k + 1;
            }
            if i > 3 && all {
                let title = sub_chars(line, i + 2, line.len());
                assert(title@ =~= rest.subrange(i - 3 + 2, rest.len() as int));
                assert(crate::lexer::all_digits(num@)) by {
                    assert forall|j: int| 0 <= j < num@.len() implies crate::lexer::is_digit(#[trigger] num@[j]) by {
                        assert(num@[j] == line@[j + 3]);
                    }
                }
                return Some((num, title));
            }
            proof {
                if i > 3 {
                    let j0 = choose|j: int| 3 <= j < i && !crate::lexer::is_digit(#[trigger] line@[j]);
                    assert(num@[j0 - 3] == line@[j0]);
                }
            }
            return None;
        }
        assert(rest.subrange(i - 3, i - 3 + 2)[0] == line@[i as int]);
        assert(rest.subrange(i - 3, i - 3 + 2)[1] == line@[i + 1]);
        i = i + 1;
    }
    proof {
        reveal_strlit(". ");
        assert(find_from(rest, ". "@, i - 3) is None);
    }
    None
}

fn join_line_vecs(ls: &Vec<Vec<char>>, lo: usize, hi: usize) -> (r: String)
    requires
        lo <= hi <= ls@.len(),
    ensures
        r@ == join_lines(ls@.map_values(|l: Vec<char>| l@).subrange(lo as int, hi as int)),
{
    let ghost v = ls@.map_values(|l: Vec<char>| l@);
    let mut s = String::new();
    let mut k = lo;
    while k < hi
        invariant
            lo <= k <= hi <= ls@.len(),
            v == ls@.map_values(|l: Vec<char>| l@),
            s@ == join_lines(v.subrange(lo as int, k as int)),
        decreases hi - k,
    {
        if k > lo {
            push_str(&mut s, "\n");
        }
        crate::text::push_chars(&mut s, &ls[k]);
        proof {
            let w = v.subrange(lo as int, k + 1);
            assert(w.drop_last() =~= v.subrange(lo as int, k as int));
            assert(w.last() == ls@[k as int]@);
            if k == lo {
                assert(s@ =~= join_lines(w));
            } else {
                assert(s@ =~= join_lines(w));
            }
        }
        k = k + 1;
    }
    s
}

/// The level-2 sections of `doc` (see [`sections`]).
fn split_sections(doc: &str) -> (r: Vec<(String, String, String)>)
    ensures
        r@.len() == sections(doc@).len(),
        forall|i: int| 0 <= i < r@.len() ==> (#[trigger] r@[i]).0@ == sections(doc@)[i].0
            && r@[i].1@ == sections(doc@)[i].1 && r@[i].2@ == sections(doc@)[i].2,
{
    let ls = crate::text::split_lines(doc);
    let ghost v = ls@.map_values(|l: Vec<char>| l@);
    let mut out: Vec<(String, String, String)> = Vec::new();
    let mut cur: Option<(String, String, usize)> = None;
    let mut k: usize = 0;
    while k < ls.len()
        invariant
            k <= ls@.len(),
            v == ls@.map_values(|l: Vec<char>| l@),
            v == crate::text::lines(doc@),
            sections_upto(v, k as nat).0.len() == out@.len(),
            forall|i: int| 0 <= i < out@.len() ==> (#[trigger] out@[i]).0@ == sections_upto(v, k as nat).0[i].0
                && out@[i].1@ == sections_upto(v, k as nat).0[i].1 && out@[i].2@ == sections_upto(v, k as nat).0[i].2,
            match cur {
                Some((n, t, start)) => start < k && sections_upto(v, k as nat).1 == Some((n@, t@, v.subrange(start as int, k as int))),
                None => sections_upto(v, k as nat).1 is None,
            },
        decreases ls@.len() - k,
    {
        let ghost prev = sections_upto(v, k as nat);
        assert(v[k as int] == ls@[k as int]@);
        match heading_of(&ls[k]) {
            Some((n, t)) => {
                if let Some((cn, ct, start)) = cur {
                    let body = join_line_vecs(&ls, start, k);
                    out.push((cn, ct, body));
                }
                cur = Some((n, t, k));
                proof {
                    assert(v.subrange(k as int, k + 1) =~= seq![v[k as int]]);
                }
            },
            None => {
                proof {
                    if cur is Some {
                        let start = cur.unwrap().2;
                        assert(v.subrange(start as int, k + 1) =~= v.subrange(start as int, k as int).push(v[k as int]));
                    }
                }
            },
        }
        k = k + 1;
    }
    if let Some((cn, ct, start)) = cur {
        let body = join_line_vecs(&ls, start, ls.len());
        out.push((cn, ct, body));
    }
    out
}

/// The leading `§` and `#` marks removed.
pub open spec fn strip_marks(s: Seq<char>) -> Seq<char>
    decreases s.len(),
{
    if s.len() > 0 && (s[0] == '§' || s[0] == '#') { strip_marks(s.drop_first()) } else { s }
}

/// The trailing `.` removed.
pub open spec fn strip_dots(s: Seq<char>) -> Seq<char>
    decreases s.len(),
{
    if s.len() > 0 && s.last() == '.' { strip_dots(s.drop_last()) } else { s }
}

/// A lower-cased topic made ready for matching headings.
pub open spec fn normalize_topic(lower: Seq<char>) -> Seq<char> {
    strip_dots(trim(strip_marks(trim(lower))))
}

fn normalize(lower: &str) -> (r: String)
    ensures
        r@ == normalize_topic(lower@),
{
    let t = trim_text(lower);
    let cs = chars_of(t.as_str());
    let mut lo: usize = 0;
    assert(cs@.subrange(0, cs@.len() as int) =~= cs@);
    while lo < cs.len() && (cs[lo] == '§' || cs[lo] == '#')
        invariant
            lo <= cs@.len(),
            strip_marks(cs@) == strip_marks(cs@.subrange(lo as int, cs@.len() as int)),
        decreases cs@.len() - lo,
    {
        assert(cs@.subrange(lo as int, cs@.len() as int).drop_first() =~= cs@.subrange(lo + 1, cs@.len() as int));
        lo = lo + 1;
    }
    proof {
        let rest = cs@.subrange(lo as int, cs@.len() as int);
        if rest.len() > 0 {
            assert(rest[0] == cs@[lo as int]);
        }
    }
    let m = sub_chars(&cs, lo, cs.len());
    let t2 = trim_text(m.as_str());
    let ds = chars_of(t2.as_str());
    let mut hi: usize = ds.len();
    assert(ds@.subrange(0, ds@.len() as int) =~= ds@);
    while hi > 0 && ds[hi - 1] == '.'
        invariant
            hi <= ds@.len(),
            strip_dots(ds@) == strip_dots(ds@.subrange(0, hi as int)),
        decreases hi,
    {
        assert(ds@.subrange(0, hi as int).drop_last() =~= ds@.subrange(0, hi - 1));
        hi = hi - 1;
    }
    proof {
        let rest = ds@.subrange(0, hi as int);
        if hi > 0 {
            assert(rest.last() == ds@[hi - 1]);
        }
    }
    sub_chars(&ds, 0, hi)
}

/// Whether `s` ends with `p`.
pub open spec fn is_suffix(p: Seq<char>, s: Seq<char>) -> bool {
    p.len() <= s.len() && s.subrange(s.len() - p.len(), s.len() as int) == p
}

fn ends_with(t: &str, p: &str) -> (r: bool)
    ensures
        r == is_suffix(p@, t@),
{
    let tv = chars_of(t);
    let pv = chars_of(p);
    if pv.len() > tv.len() {
        return false;
    }
    let off = tv.len() - pv.len();
    let mut i: usize = 0;
    while i < pv.len()
        invariant
            tv@ == t@,
            pv@ == p@,
            tv@.len() <= usize::MAX,
            off == tv@.len() - pv@.len(),
            pv@.len() <= tv@.len(),
            i <= pv@.len(),
            forall|k: int| 0 <= k < i ==> tv@[off + k] == pv@[k],
        decreases pv@.len() - i,
    {
        if tv[off + i] != pv[i] {
            assert(tv@.subrange(off as int, tv@.len() as int)[i as int] != pv@[i as int]);
            assert(tv@.subrange(off as int, tv@.len() as int) != pv@);
            return false;
        }
        i = i + 1;
    }
    assert(tv@.subrange(off as int, tv@.len() as int) =~= pv@);
    true
}

/// The spec documents besides the main one, the schema and the error notes,
/// as `(name without .md, content)`, over the first `k` files.
pub open spec fn extra_docs(files: Seq<(String, String)>, k: nat) -> Seq<(Seq<char>, Seq<char>)>
    decreases k,
{
    if k == 0 || k > files.len() {
        Seq::empty()
    } else {
        let rel = files[k - 1].0@;
        let keep = rel != MAIN_SPEC@ && rel != DIAGNOSTIC_SCHEMA@ && !is_prefix("errors/"@, rel) && is_suffix(".md"@, rel);
        extra_docs(files, (k - 1) as nat) + if keep {
            seq![(rel.subrange(0, rel.len() - 3), files[k - 1].1@)]
        } else {
            Seq::empty()
        }
    }
}

fn extra_spec_docs(files: &Vec<(String, String)>) -> (r: Vec<(String, String)>)
    ensures
        r@.len() == extra_docs(files@, files@.len()).len(),
        forall|i: int| 0 <= i < r@.len() ==> (#[trigger] r@[i]).0@ == extra_docs(files@, files@.len())[i].0
            && r@[i].1@ == extra_docs(files@, files@.len())[i].1,
{
    let mut out: Vec<(String, String)> = Vec::new();
    let mut k: usize = 0;
    while k < files.len()
        invariant
            k <= files@.len(),
            out@.len() == extra_docs(files@, k as nat).len(),
            forall|i: int| 0 <= i < out@.len() ==> (#[trigger] out@[i]).0@ == extra_docs(files@, k as nat)[i].0
                && out@[i].1@ == extra_docs(files@, k as nat)[i].1,
        decreases files@.len() - k,
    {
        let rel = files[k].0.as_str();
        let keep = !crate::text::str_eq(rel, MAIN_SPEC) && !crate::text::str_eq(rel, DIAGNOSTIC_SCHEMA)
            && !crate::text::starts_with(rel, "errors/") && ends_with(rel, ".md");
        let ghost before = extra_docs(files@, k as nat);
        if keep {
            let rc = chars_of(rel);
            proof {
                reveal_strlit(".md");
            }
            let stem = sub_chars(&rc, 0, rc.len() - 3);
            out.push((stem, crate::text::owned(files[k].1.as_str())));
            proof {
                assert(extra_docs(files@, (k + 1) as nat) =~= before.push((rel@.subrange(0, rel@.len() - 3), files@[k as int].1@)));
            }
        } else {
            assert(extra_docs(files@, (k + 1) as nat) =~= before);
        }
        k = k + 1;
    }
    out
}

/// The body of the first section whose number is `needle` or whose
/// lower-cased title contains it, from section `i` on.
pub open spec fn section_hit(secs: Seq<(Seq<char>, Seq<char>, Seq<char>)>, needle: Seq<char>, i: int) -> Option<Seq<char>>
    decreases secs.len() - i,
{
    if i < 0 || i >= secs.len() {
        None
    } else if needle == secs[i].0 || has_infix(lowercase(secs[i].1), needle) {
        Some(secs[i].2)
    } else {
        section_hit(secs, needle, i + 1)
    }
}

/// The content of the first extra document whose lower-cased name contains
/// `needle`, from document `i` on.
pub open spec fn extra_hit(docs: Seq<(Seq<char>, Seq<char>)>, needle: Seq<char>, i: int) -> Option<Seq<char>>
    decreases docs.len() - i,
{
    if i < 0 || i >= docs.len() {
        None
    } else if has_infix(lowercase(docs[i].0), needle) {
        Some(docs[i].1)
    } else {
        extra_hit(docs, needle, i + 1)
    }
}

/// The part of `s` after its last `-` (all of `s` when there is none).
pub open spec fn after_last_dash(s: Seq<char>) -> Seq<char>
    decreases s.len(),
{
    if s.len() == 0 {
        s
    } else if s.last() == '-' {
        Seq::empty()
    } else {
        after_last_dash(s.drop_last()).push(s.last())
    }
}

pub open spec fn index_sections(secs: Seq<(Seq<char>, Seq<char>, Seq<char>)>, k: nat) -> Seq<char>
    decreases k,
{
    if k == 0 || k > secs.len() {
        Seq::empty()
    } else {
        index_sections(secs, (k - 1) as nat) + "- "@ + secs[k - 1].0 + ". "@ + secs[k - 1].1 + "\n"@
    }
}

pub open spec fn index_extras(docs: Seq<(Seq<char>, Seq<char>)>, k: nat) -> Seq<char>
    decreases k,
{
    if k == 0 || k > docs.len() {
        Seq::empty()
    } else {
        index_extras(docs, (k - 1) as nat) + "- "@ + docs[k - 1].0 + ".md (topic: \""@ + after_last_dash(docs[k - 1].0) + "\")\n"@
    }
}

pub open spec fn index_codes(files: Seq<(String, String)>, k: nat) -> Seq<char>
    decreases k,
{
    if k == 0 || k > files.len() {
        Seq::empty()
    } else {
        let rel = files[k - 1].0@;
        index_codes(files, (k - 1) as nat) + if is_prefix("errors/"@, rel) && is_suffix(".md"@, rel.subrange(7, rel.len() as int)) {
            "- "@ + rel.subrange(7, rel.len() - 3) + "\n"@
        } else {
            Seq::empty()
        }
    }
}

pub open spec fn spec_index_text(files: Seq<(String, String)>) -> Seq<char> {
    let extras = extra_docs(files, files.len());
    "# Kei spec index\n\n"@
        + "`kei_spec` の `topic` にセクション番号・見出しキーワード・エラーコードを渡すと\n該当箇所を返す。topic を空にするとこの索引を返す。\n\n"@
        + "## セクション (kei-spec-v0.1.md)\n\n"@
        + (match lookup(files, MAIN_SPEC@) {
            Some(m) => index_sections(sections(m), sections(m).len()),
            None => Seq::<char>::empty(),
        })
        + (if extras.len() > 0 {
            "\n## 追加仕様ドラフト (spec/)\n\n"@ + index_extras(extras, extras.len())
        } else {
            Seq::<char>::empty()
        })
        + "\n## Diagnostic スキーマ\n\n- diagnostic-schema (topic: \"diagnostic\")\n"@
        + "\n## エラーコード (spec/errors/)\n\n"@
        + index_codes(files, files.len())
}

/// What `kei_spec` answers for `topic`: the text and whether it is an error.
pub open spec fn spec_reply(files: Seq<(String, String)>, topic: Seq<char>) -> (Seq<char>, bool) {
    let t = trim(topic);
    let index = spec_index_text(files);
    if t.len() == 0 {
        (index, false)
    } else if is_prefix("KEI-E"@, uppercase(t)) {
        match lookup(files, "errors/"@ + uppercase(t) + ".md"@) {
            Some(c) => (c, false),
            None => ("Unknown error code '"@ + t + "'.\n\n"@ + index, true),
        }
    } else if has_infix(lowercase(t), "diagnostic"@) && lookup(files, DIAGNOSTIC_SCHEMA@) is Some {
        (lookup(files, DIAGNOSTIC_SCHEMA@).unwrap(), false)
    } else {
        let needle = normalize_topic(lowercase(t));
        let in_main = match lookup(files, MAIN_SPEC@) {
            Some(m) => section_hit(sections(m), needle, 0),
            None => None,
        };
        match in_main {
            Some(body) => (body, false),
            None => {
                let extra = if utf8_len(needle) >= 3 {
                    extra_hit(extra_docs(files, files.len()), needle, 0)
                } else {
                    None
                };
                match extra {
                    Some(c) => (c, false),
                    None => ("No spec section matched '"@ + t + "'.\n\n"@ + index, true),
                }
            },
        }
    }
}

fn after_last_dash_of(s: &str) -> (r: String)
    ensures
        r@ == after_last_dash(s@),
{
    let cs = chars_of(s);
    let mut start: usize = 0;
    let mut i: usize = 0;
    while i < cs.len()
        invariant
            i <= cs@.len(),
            start <= i,
            cs@ == s@,
            after_last_dash(cs@.take(i as int)) == cs@.subrange(start as int, i as int),
        decreases cs@.len() - i,
    {
        proof {
            let t = cs@.take(i + 1);
            assert(t.drop_last() =~= cs@.take(i as int));
            assert(t.last() == cs@[i as int]);
        }
        if cs[i] == '-' {
            start = i + 1;
            assert(cs@.subrange(start as int, (i + 1) as int) =~= Seq::<char>::empty());
        } else {
            assert(cs@.subrange(start as int, i + 1) =~= cs@.subrange(start as int, i as int).push(cs@[i as int]));
        }
        i = i + 1;
    }
    assert(cs@.take(cs@.len() as int) =~= cs@);
    sub_chars(&cs, start, cs.len())
}

/// The index of sections, extra documents and error codes.
fn spec_index(b: &Bundle) -> (r: String)
    ensures
        r@ == spec_index_text(b.spec@),
{
    let files = &b.spec;
    let mut s = String::new();
    push_str(&mut s, "# Kei spec index\n\n");
    push_str(&mut s, "`kei_spec` の `topic` にセクション番号・見出しキーワード・エラーコードを渡すと\n該当箇所を返す。topic を空にするとこの索引を返す。\n\n");
    push_str(&mut s, "## セクション (kei-spec-v0.1.md)\n\n");
    let ghost s1 = s@;
    match spec_file(b, MAIN_SPEC) {
        Some(main) => {
            let secs = split_sections(main.as_str());
            let ghost ss = sections(main@);
            let mut i: usize = 0;
            while i < secs.len()
                invariant
                    i <= secs@.len(),
                    secs@.len() == ss.len(),
                    forall|k: int| 0 <= k < secs@.len() ==> (#[trigger] secs@[k]).0@ == ss[k].0
                        && secs@[k].1@ == ss[k].1 && secs@[k].2@ == ss[k].2,
                    s@ == s1 + index_sections(ss, i as nat),
                decreases secs@.len() - i,
            {
                push_str(&mut s, "- ");
                push_str(&mut s, secs[i].0.as_str());
                push_str(&mut s, ". ");
                push_str(&mut s, secs[i].1.as_str());
                push_str(&mut s, "\n");
                assert(s@ =~= s1 + index_sections(ss, (i + 1) as nat));
                i = i + 1;
            }
            proof {
                assert(lookup(files@, MAIN_SPEC@) == Some(main@));
            }
        },
        None => {
            proof {
                assert(lookup(files@, MAIN_SPEC@) is None);
            }
        },
    }
    let ghost s2 = s@;
    let extras = extra_spec_docs(files);
    let ghost ex = extra_docs(files@, files@.len());
    if extras.len() > 0 {
        push_str(&mut s, "\n## 追加仕様ドラフト (spec/)\n\n");
        let ghost s3 = s@;
        let mut i: usize = 0;
        while i < extras.len()
            invariant
                i <= extras@.len(),
                extras@.len() == ex.len(),
                forall|k: int| 0 <= k < extras@.len() ==> (#[trigger] extras@[k]).0@ == ex[k].0 && extras@[k].1@ == ex[k].1,
                s@ == s3 + index_extras(ex, i as nat),
            decreases extras@.len() - i,
        {
            push_str(&mut s, "- ");
            push_str(&mut s, extras[i].0.as_str());
            push_str(&mut s, ".md (topic: \"");
            let topic = after_last_dash_of(extras[i].0.as_str());
            push_str(&mut s, topic.as_str());
            push_str(&mut s, "\")\n");
            assert(s@ =~= s3 + index_extras(ex, (i + 1) as nat));
            i = i + 1;
        }
    }
    let ghost s4 = s@;
    push_str(&mut s, "\n## Diagnostic スキーマ\n\n- diagnostic-schema (topic: \"diagnostic\")\n");
    push_str(&mut s, "\n## エラーコード (spec/errors/)\n\n");
    let ghost s5 = s@;
    let mut k: usize = 0;
    while k < files.len()
        invariant
            k <= files@.len(),
            s@ == s5 + index_codes(files@, k as nat),
        decreases files@.len() - k,
    {
        let rel = files[k].0.as_str();
        let ghost before = s@;
        if crate::text::starts_with(rel, "errors/") {
            let rc = chars_of(rel);
            proof {
                reveal_strlit("errors/");
            }
            let tail = sub_chars(&rc, 7, rc.len());
            if ends_with(tail.as_str(), ".md") {
                proof {
                    reveal_strlit(".md");
                }
                let code = sub_chars(&rc, 7, rc.len() - 3);
                push_str(&mut s, "- ");
                push_str(&mut s, code.as_str());
                push_str(&mut s, "\n");
            }
        }
        assert(s@ =~= s5 + index_codes(files@, (k + 1) as nat));
        k = k + 1;
    }
    proof {
        assert(s@ =~= spec_index_text(files@));
    }
    s
}

/// The sections as plain text triples.
pub open spec fn secs_view(secs: Seq<(String, String, String)>) -> Seq<(Seq<char>, Seq<char>, Seq<char>)> {
    Seq::new(secs.len(), |i: int| (secs[i].0@, secs[i].1@, secs[i].2@))
}

/// Documents as plain text pairs.
pub open spec fn docs_view(docs: Seq<(String, String)>) -> Seq<(Seq<char>, Seq<char>)> {
    Seq::new(docs.len(), |i: int| (docs[i].0@, docs[i].1@))
}

fn section_search(secs: &Vec<(String, String, String)>, needle: &str) -> (r: Option<String>)
    ensures
        r matches Some(c) ==> section_hit(secs_view(secs@), needle@, 0) == Some(c@),
        r is None ==> section_hit(secs_view(secs@), needle@, 0) is None,
{
    let ghost v = secs_view(secs@);
    let mut i: usize = 0;
    while i < secs.len()
        invariant
            i <= secs@.len(),
            v == secs_view(secs@),
            section_hit(v, needle@, 0) == section_hit(v, needle@, i as int),
        decreases secs@.len() - i,
    {
        let lt = to_lower(secs[i].1.as_str());
        if crate::text::str_eq(needle, secs[i].0.as_str()) || contains_text(lt.as_str(), needle) {
            return Some(crate::text::owned(secs[i].2.as_str()));
        }
        i = i + 1;
    }
    None
}

fn extra_search(docs: &Vec<(String, String)>, needle: &str) -> (r: Option<String>)
    ensures
        r matches Some(c) ==> extra_hit(docs_view(docs@), needle@, 0) == Some(c@),
        r is None ==> extra_hit(docs_view(docs@), needle@, 0) is None,
{
    let ghost v = docs_view(docs@);
    let mut i: usize = 0;
    while i < docs.len()
        invariant
            i <= docs@.len(),
            v == docs_view(docs@),
            extra_hit(v, needle@, 0) == extra_hit(v, needle@, i as int),
        decreases docs@.len() - i,
    {
        let lt = to_lower(docs[i].0.as_str());
        if contains_text(lt.as_str(), needle) {
            return Some(crate::text::owned(docs[i].1.as_str()));
        }
        i = i + 1;
    }
    None
}

/// `kei_spec`: a spec section, an error-code note, the diagnostic schema or
/// an extra spec document for `topic`; the index when `topic` is blank; an
/// error with the index when nothing matches.
pub fn run_spec(b: &Bundle, topic: &str) -> (r: ToolOutcome)
    ensures
        (r.text@, r.is_error) == spec_reply(b.spec@, topic@),
{
    let t = trim_text(topic);
    if crate::text::chars_of(t.as_str()).len() == 0 {
        return ToolOutcome { text: spec_index(b), is_error: false };
    }
    let upper = to_upper(t.as_str());
    if crate::text::starts_with(upper.as_str(), "KEI-E") {
        let rel = crate::text::cat3("errors/", upper.as_str(), ".md");
        return match spec_file(b, rel.as_str()) {
            Some(content) => ToolOutcome { text: content, is_error: false },
            None => {
                let mut m = crate::text::cat3("Unknown error code '", t.as_str(), "'.\n\n");
                let idx = spec_index(b);
                push_str(&mut m, idx.as_str());
                ToolOutcome { text: m, is_error: true }
            },
        };
    }
    let lower = to_lower(t.as_str());
    if contains_text(lower.as_str(), "diagnostic") {
        if let Some(content) = spec_file(b, DIAGNOSTIC_SCHEMA) {
            return ToolOutcome { text: content, is_error: false };
        }
    }
    let needle = normalize(lower.as_str());
    if let Some(main) = spec_file(b, MAIN_SPEC) {
        let secs = split_sections(main.as_str());
        assert(secs_view(secs@) =~= sections(main@));
        if let Some(body) = section_search(&secs, needle.as_str()) {
            return ToolOutcome { text: body, is_error: false };
        }
    }
    if utf8_at_least(needle.as_str(), 3) {
        let extras = extra_spec_docs(&b.spec);
        assert(docs_view(extras@) =~= extra_docs(b.spec@, b.spec@.len()));
        if let Some(content) = extra_search(&extras, needle.as_str()) {
            return ToolOutcome { text: content, is_error: false };
        }
    }
    let mut m = crate::text::cat3("No spec section matched '", t.as_str(), "'.\n\n");
    let idx = spec_index(b);
    push_str(&mut m, idx.as_str());
    ToolOutcome { text: m, is_error: true }
}

// ---------------------------------------------------------------------------
// kei_check / kei_fmt
// ---------------------------------------------------------------------------

/// `kei_check`: the syntax diagnostics of `source` and, when it parses, the
/// checker's, as a JSON array (diagnostics are data here, not an error).
pub fn run_check(source: &str) -> (r: ToolOutcome)
    requires
        source@.len() < crate::lexer::max_source_len(),
    ensures
        !r.is_error,
        exists|ds: Seq<Diagnostic>| crate::checkenv::reported_in(ds, crate::hover::SYNTHETIC_FILE@)
            && r.text@ == diagnostics_json_text(ds),
{
    let parsed = crate::syntax::parse_module(source);
    let mut diags = crate::boundary::syntax_diagnostics(crate::hover::SYNTHETIC_FILE, parsed.errors.as_slice());
    let ghost d0 = diags@;
    proof {
        assert forall|i: int| 0 <= i < d0.len() implies crate::diagnostic::has_fix(#[trigger] d0[i])
            && d0[i].span.file@ == crate::hover::SYNTHETIC_FILE@ by {
            assert(crate::boundary::reports_syntax_error(crate::hover::SYNTHETIC_FILE@, parsed.errors@[i], d0[i]));
        }
    }
    if parsed.errors.len() == 0 {
        let mut more = crate::check::check_module(crate::hover::SYNTHETIC_FILE, &parsed.module);
        let ghost m0 = more@;
        diags.append(&mut more);
        proof {
            assert forall|i: int| 0 <= i < diags@.len() implies crate::diagnostic::has_fix(#[trigger] diags@[i])
                && diags@[i].span.file@ == crate::hover::SYNTHETIC_FILE@ by {
                if i < d0.len() {
                    assert(diags@[i] == d0[i]);
                } else {
                    assert(diags@[i] == m0[i - d0.len()]);
                }
            }
        }
    }
    let text = diagnostics_json(&diags);
    ToolOutcome { text, is_error: false }
}

/// `kei_fmt`: the canonical layout of `source`; with syntax errors the text
/// is not rewritten and their diagnostics come back as a JSON array, as an
/// error.
pub fn run_fmt(source: &str) -> (r: ToolOutcome)
    requires
        source@.len() < crate::lexer::max_source_len(),
    ensures
        r.is_error ==> exists|ds: Seq<Diagnostic>| ds.len() > 0
            && crate::checkenv::reported_in(ds, crate::hover::SYNTHETIC_FILE@) && r.text@ == diagnostics_json_text(ds),
        !r.is_error ==> crate::fmt::is_layout_of_some_module(r.text@),
{
    let res = crate::fmt::format_source(source);
    match res {
        Ok(formatted) => ToolOutcome { text: formatted, is_error: false },
        Err(errors) => {
            let diags = crate::boundary::syntax_diagnostics(crate::hover::SYNTHETIC_FILE, errors.as_slice());
            proof {
                assert forall|i: int| 0 <= i < diags@.len() implies crate::diagnostic::has_fix(#[trigger] diags@[i])
                    && diags@[i].span.file@ == crate::hover::SYNTHETIC_FILE@ by {
                    assert(crate::boundary::reports_syntax_error(crate::hover::SYNTHETIC_FILE@, errors@[i], diags@[i]));
                }
            }
            let text = diagnostics_json(&diags);
            ToolOutcome { text, is_error: true }
        },
    }
}

// ---------------------------------------------------------------------------
// kei_examples
// ---------------------------------------------------------------------------

pub open spec fn examples_index_lines(files: Seq<(String, String)>, k: nat) -> Seq<char>
    decreases k,
{
    if k == 0 || k > files.len() {
        Seq::empty()
    } else {
        examples_index_lines(files, (k - 1) as nat) + "- examples/"@ + files[k - 1].0@ + "\n"@
    }
}

pub open spec fn examples_index_text(files: Seq<(String, String)>) -> Seq<char> {
    "# Kei examples\n\n"@
        + "`kei_examples` の `query` にキーワードを渡すと該当する例を返す\n(パス・本文を部分一致で検索)。query を空にするとこの一覧を返す。\n\n"@
        + examples_index_lines(files, files.len())
}

/// The example blocks of the first `k` files whose path or body contains
/// `q` (ignoring case).
pub open spec fn example_hits(files: Seq<(String, String)>, q: Seq<char>, k: nat) -> Seq<char>
    decreases k,
{
    if k == 0 || k > files.len() {
        Seq::empty()
    } else {
        let (p, c) = (files[k - 1].0@, files[k - 1].1@);
        example_hits(files, q, (k - 1) as nat) + if has_infix(lowercase(p), q) || has_infix(lowercase(c), q) {
            "### examples/"@ + p + "\n\n```kei\n"@ + trim_end(c) + "\n```\n\n"@
        } else {
            Seq::empty()
        }
    }
}

/// What `kei_examples` answers for `query`.
pub open spec fn examples_reply(files: Seq<(String, String)>, query: Seq<char>) -> (Seq<char>, bool) {
    let q = lowercase(trim(query));
    if q.len() == 0 {
        (examples_index_text(files), false)
    } else {
        let hits = example_hits(files, q, files.len());
        if hits.len() == 0 {
            ("No example matched '"@ + query + "'.\n\n"@ + examples_index_text(files), true)
        } else {
            (trim_end(hits), false)
        }
    }
}

fn examples_index(files: &Vec<(String, String)>) -> (r: String)
    ensures
        r@ == examples_index_text(files@),
{
    let mut s = String::new();
    push_str(&mut s, "# Kei examples\n\n");
    push_str(&mut s, "`kei_examples` の `query` にキーワードを渡すと該当する例を返す\n(パス・本文を部分一致で検索)。query を空にするとこの一覧を返す。\n\n");
    let ghost s1 = s@;
    let mut i: usize = 0;
    while i < files.len()
        invariant
            i <= files@.len(),
            s@ == s1 + examples_index_lines(files@, i as nat),
        decreases files@.len() - i,
    {
        push_str(&mut s, "- examples/");
        push_str(&mut s, files[i].0.as_str());
        push_str(&mut s, "\n");
        assert(s@ =~= s1 + examples_index_lines(files@, (i + 1) as nat));
        i = i + 1;
    }
    s
}

/// `kei_examples`: the examples whose path or body contains `query`
/// (ignoring case); the list of examples when `query` is blank; an error
/// with the list when nothing matches.
pub fn run_examples(b: &Bundle, query: &str) -> (r: ToolOutcome)
    ensures
        (r.text@, r.is_error) == examples_reply(b.examples@, query@),
{
    let files = &b.examples;
    let tq = trim_text(query);
    let q = to_lower(tq.as_str());
    if chars_of(q.as_str()).len() == 0 {
        return ToolOutcome { text: examples_index(files), is_error: false };
    }
    let mut out = String::new();
    let mut i: usize = 0;
    while i < files.len()
        invariant
            i <= files@.len(),
            out@ == example_hits(files@, q@, i as nat),
        decreases files@.len() - i,
    {
        let p = files[i].0.as_str();
        let c = files[i].1.as_str();
        let lp = to_lower(p);
        let lc = to_lower(c);
        let ghost before = out@;
        if contains_text(lp.as_str(), q.as_str()) || contains_text(lc.as_str(), q.as_str()) {
            push_str(&mut out, "### examples/");
            push_str(&mut out, p);
            push_str(&mut out, "\n\n```kei\n");
            let body = trim_end_text(c);
            push_str(&mut out, body.as_str());
            push_str(&mut out, "\n```\n\n");
        }
        assert(out@ =~= example_hits(files@, q@, (i + 1) as nat));
        i = i + 1;
    }
    if chars_of(out.as_str()).len() == 0 {
        let mut m = crate::text::cat3("No example matched '", query, "'.\n\n");
        let idx = examples_index(files);
        push_str(&mut m, idx.as_str());
        return ToolOutcome { text: m, is_error: true };
    }
    ToolOutcome { text: trim_end_text(out.as_str()), is_error: false }
}

/// What a JSON-RPC request asks of the server.
#[derive(Debug, Clone, Copy, PartialEq, Eq, Structural)]
pub enum RequestRoute {
    /// A notification (no `id`): no reply.
    Notification,
    /// No `method`: an invalid request (`-32600`).
    MissingMethod,
    Initialize,
    Ping,
    ToolsList,
    ToolsCall,
    /// Any other method: method not found (`-32601`).
    UnknownMethod,
}

/// The route of a request with (or without) an `id` and a `method`.
pub fn route_request(has_id: bool, method: Option<&str>) -> (r: RequestRoute)
    ensures
        r == (if !has_id {
            RequestRoute::Notification
        } else {
            match method {
                None => RequestRoute::MissingMethod,
                Some(m) => if m@ == "initialize"@ {
                    RequestRoute::Initialize
                } else if m@ == "ping"@ {
                    RequestRoute::Ping
                } else if m@ == "tools/list"@ {
                    RequestRoute::ToolsList
                } else if m@ == "tools/call"@ {
                    RequestRoute::ToolsCall
                } else {
                    RequestRoute::UnknownMethod
                },
            }
        }),
{
    if !has_id {
        return RequestRoute::Notification;
    }
    match method {
        None => RequestRoute::MissingMethod,
        Some(m) => {
            if crate::text::str_eq(m, "initialize") {
                RequestRoute::Initialize
            } else if crate::text::str_eq(m, "ping") {
                RequestRoute::Ping
            } else if crate::text::str_eq(m, "tools/list") {
                RequestRoute::ToolsList
            } else if crate::text::str_eq(m, "tools/call") {
                RequestRoute::ToolsCall
            } else {
                RequestRoute::UnknownMethod
            }
        },
    }
}

/// The reply to a source text too long to check or format.
pub open spec fn too_large_text() -> Seq<char> {
    "Source text is too large."@
}

/// Runs the tool `name` with its string arguments (`topic`, `source`,
/// `query`, each absent when not given): a source at the length limit or
/// over it is refused, a missing source is reported, an unknown tool too.
pub fn call_tool(b: &Bundle, name: &str, topic: Option<&str>, source: Option<&str>, query: Option<&str>) -> (r: ToolOutcome)
    ensures
        name@ == "kei_spec"@ ==> (r.text@, r.is_error) == spec_reply(b.spec@, match topic { Some(t) => t@, None => Seq::empty() }),
        name@ == "kei_examples"@ ==> (r.text@, r.is_error) == examples_reply(b.examples@, match query { Some(q) => q@, None => Seq::empty() }),
        (name@ == "kei_check"@ || name@ == "kei_fmt"@) ==> match source {
            None => r.is_error && r.text@ == "Missing required argument '"@ + "source"@ + "'."@,
            Some(src) => src@.len() >= crate::lexer::max_source_len() ==> (r.is_error && r.text@ == too_large_text()),
        },
        name@ == "kei_check"@ && (source matches Some(src) && src@.len() < crate::lexer::max_source_len()) ==> !r.is_error,
        name@ == "kei_fmt"@ && (source matches Some(src) && src@.len() < crate::lexer::max_source_len()) ==>
            (!r.is_error ==> crate::fmt::is_layout_of_some_module(r.text@)),
        !(name@ == "kei_spec"@ || name@ == "kei_examples"@ || name@ == "kei_check"@ || name@ == "kei_fmt"@)
            ==> r.is_error && r.text@ == "Unknown tool '"@ + name@ + "'."@,
{
    proof {
        reveal_strlit("kei_spec");
        reveal_strlit("kei_examples");
        reveal_strlit("kei_check");
        reveal_strlit("kei_fmt");
        reveal_strlit("");
        assert("kei_spec"@.len() == 8 && "kei_examples"@.len() == 12 && "kei_check"@.len() == 9 && "kei_fmt"@.len() == 7);
    }
    if crate::text::str_eq(name, "kei_spec") {
        return match topic {
            Some(t) => run_spec(b, t),
            None => run_spec(b, ""),
        };
    }
    if crate::text::str_eq(name, "kei_examples") {
        let q: &str = match query {
            Some(q) => q,
            None => "",
        };
        let out = run_examples(b, q);
        assert(q@ == match query { Some(q) => q@, None => Seq::<char>::empty() });
        return out;
    }
    let check = crate::text::str_eq(name, "kei_check");
    if check || crate::text::str_eq(name, "kei_fmt") {
        return match source {
            None => missing_arg("source"),
            Some(src) => {
                let n = crate::text::chars_of(src).len();
                if n >= 0xffff_fff0 {
                    ToolOutcome { text: crate::text::owned("Source text is too large."), is_error: true }
                } else if check {
                    run_check(src)
                } else {
                    run_fmt(src)
                }
            },
        };
    }
    unknown_tool(name)
}

/// The MCP server. It keeps no state: every request is answered from the
/// tools above.
pub struct Server;

impl Server {
    pub fn new() -> (s: Server) {
        Server
    }
}

} // verus!
