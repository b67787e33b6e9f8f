//! Prose rendering of diagnostics (rustc style) and of the `fmt --check`
//! line diff. The structured diagnostic is authoritative; this is a derived
//! view that draws every element (severity, code, message, span, fixes).
use vstd::prelude::*;
use crate::diagnostic::{Diagnostic, Fix, Severity};
use crate::report::{contract_kind_text, verification_text, ContractInfo};
use crate::text::{decimal, lines, push_char, push_chars, push_repeat, push_str, push_u64, repeat_char, split_lines, chars_of};

verus! {

broadcast use vstd::string::group_string_axioms;

pub open spec fn severity_text(s: Severity) -> Seq<char> {
    match s {
        Severity::Error => "error"@,
        Severity::Warning => "warning"@,
        Severity::Info => "info"@,
    }
}

pub fn severity_word(severity: Severity) -> (r: &'static str)
    ensures
        r@ == severity_text(severity),
{
    match severity {
        Severity::Error => "error",
        Severity::Warning => "warning",
        Severity::Info => "info",
    }
}

pub open spec fn sat_sub(a: u32, b: u32) -> nat {
    if a >= b { (a - b) as nat } else { 0 }
}

/// The length of the caret underline (at least one): to the end column on a
/// one-line span, to the end of the start line otherwise.
pub open spec fn spec_caret_len(d: Diagnostic, src: Seq<char>) -> nat {
    let start = d.span.start;
    let end = d.span.end;
    let len = if start.line == end.line {
        sat_sub(end.col, start.col)
    } else {
        sat_sub(src.len() as u32, sat_sub(start.col, 1) as u32)
    };
    if len >= 1 { len } else { 1 }
}

pub fn caret_len(d: &Diagnostic, src: &Vec<char>) -> (r: usize)
    ensures
        r == spec_caret_len(*d, src@),
{
    let start = d.span.start;
    let end = d.span.end;
    let len: u32 = if start.line == end.line {
        end.col.saturating_sub(start.col)
    } else {
        let n = src.len() as u32;
        n.saturating_sub(start.col.saturating_sub(1))
    };
    if len >= 1 { len as usize } else { 1 }
}

/// The fix lines of a diagnostic, over its first `n` fixes.
pub open spec fn fixes_text(fixes: Seq<Fix>, n: nat, pad: Seq<char>) -> Seq<char>
    decreases n,
{
    if n == 0 || n > fixes.len() {
        Seq::empty()
    } else {
        fixes_text(fixes, (n - 1) as nat, pad) + pad + " = fix: "@ + fixes[n - 1].title@ + "\n"@
    }
}

/// The rendering of one diagnostic, given the source lines.
pub open spec fn render_text(src_lines: Seq<Seq<char>>, d: Diagnostic) -> Seq<char> {
    let st = d.span.start;
    let pad = repeat_char(' ', decimal(st.line as nat).len());
    let body = if 1 <= st.line && st.line - 1 < src_lines.len() {
        source_text(d, src_lines[st.line - 1], pad)
    } else {
        Seq::empty()
    };
    head_text(d, pad) + body + fixes_text(d.fixes@, d.fixes@.len(), pad)
}

/// The blocks of the first `n` diagnostics joined by empty lines.
pub open spec fn blocks_text(src_lines: Seq<Seq<char>>, ds: Seq<Diagnostic>, n: nat) -> Seq<char>
    decreases n,
{
    if n == 0 || n > ds.len() {
        Seq::empty()
    } else if n == 1 {
        render_text(src_lines, ds[0])
    } else {
        blocks_text(src_lines, ds, (n - 1) as nat) + "\n"@ + render_text(src_lines, ds[n - 1])
    }
}

pub open spec fn diagnostics_text(source: Seq<char>, ds: Seq<Diagnostic>) -> Seq<char> {
    if ds.len() == 0 {
        Seq::empty()
    } else {
        blocks_text(lines(source), ds, ds.len()) + "\n"@
    }
}

/// Renders diagnostics as prose. `source` is the full text, used for the
/// caret underline. Blocks are separated by an empty line and the text ends
/// with a line break; no diagnostics give the empty string.
pub fn diagnostics(source: &str, diags: &[Diagnostic]) -> (r: String)
    ensures
        r@ == diagnostics_text(source@, diags@),
{
    if diags.len() == 0 {
        return String::new();
    }
    let src_lines = split_lines(source);
    let ghost lv = src_lines@.map_values(|l: Vec<char>| l@);
    let mut out = String::new();
    let mut i: usize = 0;
    while i < diags.len()
        invariant
            i <= diags@.len(),
            lv == lines(source@),
            lv == src_lines@.map_values(|l: Vec<char>| l@),
            out@ == blocks_text(lv, diags@, i as nat),
        decreases diags@.len() - i,
    {
        let ghost o0 = out@;
        if i > 0 {
            push_char(&mut out, '\n');
        }
        render_one(&mut out, &src_lines, &diags[i]);
        proof {
            reveal_strlit("\n");
            if i > 0 {
                assert(out@ =~= blocks_text(lv, diags@, i as nat) + "\n"@ + render_text(lv, diags@[i as int]));
            } else {
                assert(out@ =~= render_text(lv, diags@[0]));
            }
        }
        i = i + 1;
    }
    push_char(&mut out, '\n');
    proof { reveal_strlit("\n"); }
    assert(out@ =~= diagnostics_text(source@, diags@));
    out
}

pub open spec fn head_text(d: Diagnostic, pad: Seq<char>) -> Seq<char> {
    let st = d.span.start;
    severity_text(d.severity) + "["@ + d.code@ + "]: "@ + d.message@ + "\n"@
        + pad + "--> "@ + d.span.file@ + ":"@ + decimal(st.line as nat) + ":"@ + decimal(st.col as nat) + "\n"@
        + pad + " |\n"@
}

pub open spec fn source_text(d: Diagnostic, src: Seq<char>, pad: Seq<char>) -> Seq<char> {
    let st = d.span.start;
    decimal(st.line as nat) + " | "@ + src + "\n"@ + pad + " | "@ + repeat_char(' ', sat_sub(st.col, 1))
        + repeat_char('^', spec_caret_len(d, src)) + "\n"@
}

fn push_head(out: &mut String, d: &Diagnostic, num: &String, gutter: usize)
    requires
        num@ == decimal(d.span.start.line as nat),
    ensures
        final(out)@ == old(out)@ + head_text(*d, repeat_char(' ', gutter as nat)),
{
    let ghost o0 = out@;
    push_str(out, severity_word(d.severity));
    push_str(out, "[");
    push_str(out, d.code.as_str());
    push_str(out, "]: ");
    push_str(out, d.message.as_str());
    push_str(out, "\n");
    push_repeat(out, ' ', gutter);
    push_str(out, "--> ");
    push_str(out, d.span.file.as_str());
    push_str(out, ":");
    push_str(out, num.as_str());
    push_str(out, ":");
    push_u64(out, d.span.start.col as u64);
    push_str(out, "\n");
    push_repeat(out, ' ', gutter);
    push_str(out, " |\n");
    assert(out@ =~= o0 + head_text(*d, repeat_char(' ', gutter as nat)));
}

fn push_source(out: &mut String, d: &Diagnostic, src: &Vec<char>, num: &String, gutter: usize)
    requires
        num@ == decimal(d.span.start.line as nat),
    ensures
        final(out)@ == old(out)@ + source_text(*d, src@, repeat_char(' ', gutter as nat)),
{
    let ghost o0 = out@;
    push_str(out, num.as_str());
    push_str(out, " | ");
    push_chars(out, src);
    push_str(out, "\n");
    push_repeat(out, ' ', gutter);
    push_str(out, " | ");
    push_repeat(out, ' ', d.span.start.col.saturating_sub(1) as usize);
    push_repeat(out, '^', caret_len(d, src));
    push_str(out, "\n");
    assert(out@ =~= o0 + source_text(*d, src@, repeat_char(' ', gutter as nat)));
}

fn push_fixes(out: &mut String, fixes: &Vec<Fix>, gutter: usize)
    ensures
        final(out)@ == old(out)@ + fixes_text(fixes@, fixes@.len(), repeat_char(' ', gutter as nat)),
{
    let ghost o2 = out@;
    let ghost pad = repeat_char(' ', gutter as nat);
    let mut k: usize = 0;
    while k < fixes.len()
        invariant
            k <= fixes@.len(),
            out@ == o2 + fixes_text(fixes@, k as nat, pad),
            pad == repeat_char(' ', gutter as nat),
        decreases fixes@.len() - k,
    {
        push_repeat(out, ' ', gutter);
        push_str(out, " = fix: ");
        push_str(out, fixes[k].title.as_str());
        push_str(out, "\n");
        assert(out@ =~= o2 + (fixes_text(fixes@, k as nat, pad) + pad + " = fix: "@ + fixes@[k as int].title@ + "\n"@));
        k = k + 1;
    }
}

/// Appends the rendering of one diagnostic.
pub fn render_one(out: &mut String, src_lines: &Vec<Vec<char>>, d: &Diagnostic)
    ensures
        final(out)@ == old(out)@ + render_text(src_lines@.map_values(|l: Vec<char>| l@), *d),
{
    let ghost lv = src_lines@.map_values(|l: Vec<char>| l@);
    let ghost o0 = out@;
    let start = d.span.start;
    let num = crate::text::u64_string(start.line as u64);
    let gutter = chars_of(num.as_str()).len();
    let ghost pad = repeat_char(' ', gutter as nat);
    push_head(out, d, &num, gutter);
    let ghost o1 = out@;
    if start.line >= 1 && ((start.line - 1) as usize) < src_lines.len() {
        let src = &src_lines[(start.line - 1) as usize];
        assert(src@ == lv[start.line - 1]);
        push_source(out, d, src, &num, gutter);
    }
    let ghost o2 = out@;
    push_fixes(out, &d.fixes, gutter);
    proof {
        crate::text::lemma_repeat_len(' ', gutter as nat);
        assert(pad.len() == decimal(start.line as nat).len());
        assert(out@ =~= o0 + render_text(lv, *d));
    }
}

/// The verification summary lines, over the first `n` contracts.
pub open spec fn contract_lines(infos: Seq<ContractInfo>, n: nat) -> Seq<char>
    decreases n,
{
    if n == 0 || n > infos.len() {
        Seq::empty()
    } else {
        let c = infos[n - 1];
        contract_lines(infos, (n - 1) as nat) + "  "@ + c.func@ + " "@ + contract_kind_text(c.kind) + " "@
            + c.expr@ + "  ["@ + verification_text(c.verification) + "]\n"@
    }
}

/// The prose summary of contract verification levels: empty without
/// contracts, otherwise `verification:` followed by one line per clause.
pub fn contracts(infos: &[ContractInfo]) -> (r: String)
    ensures
        infos@.len() == 0 ==> r@.len() == 0,
        infos@.len() > 0 ==> r@ == "verification:\n"@ + contract_lines(infos@, infos@.len()),
{
    if infos.len() == 0 {
        return String::new();
    }
    let mut out = crate::text::owned("verification:\n");
    let mut i: usize = 0;
    while i < infos.len()
        invariant
            i <= infos@.len(),
            out@ == "verification:\n"@ + contract_lines(infos@, i as nat),
        decreases infos@.len() - i,
    {
        let c = &infos[i];
        push_str(&mut out, "  ");
        push_str(&mut out, c.func.as_str());
        push_str(&mut out, " ");
        push_str(&mut out, c.kind.as_str());
        push_str(&mut out, " ");
        push_str(&mut out, c.expr.as_str());
        push_str(&mut out, "  [");
        push_str(&mut out, c.verification.as_str());
        push_str(&mut out, "]\n");
        assert(out@ =~= "verification:\n"@ + contract_lines(infos@, (i + 1) as nat));
        i = i + 1;
    }
    out
}

} // verus!

verus! {

/// One line of a line diff.
#[derive(Debug, Clone, Copy, PartialEq, Eq, Structural)]
pub enum DiffTag {
    /// Common to both sides (` `).
    Keep,
    /// Only in the current text (`-`).
    Remove,
    /// Only in the formatted text (`+`).
    Add,
}

/// The lines a diff keeps from the side it starts from (tags other than `Add`).
pub open spec fn diff_old(ops: Seq<(DiffTag, Seq<char>)>) -> Seq<Seq<char>>
    decreases ops.len(),
{
    if ops.len() == 0 {
        Seq::empty()
    } else if ops.last().0 != DiffTag::Add {
        diff_old(ops.drop_last()).push(ops.last().1)
    } else {
        diff_old(ops.drop_last())
    }
}

/// The lines of the side a diff leads to (tags other than `Remove`).
pub open spec fn diff_new(ops: Seq<(DiffTag, Seq<char>)>) -> Seq<Seq<char>>
    decreases ops.len(),
{
    if ops.len() == 0 {
        Seq::empty()
    } else if ops.last().0 != DiffTag::Remove {
        diff_new(ops.drop_last()).push(ops.last().1)
    } else {
        diff_new(ops.drop_last())
    }
}

pub open spec fn ops_view(ops: Seq<(DiffTag, Vec<char>)>) -> Seq<(DiffTag, Seq<char>)> {
    ops.map_values(|o: (DiffTag, Vec<char>)| (o.0, o.1@))
}

pub open spec fn lines_view(ls: Seq<Vec<char>>) -> Seq<Seq<char>> {
    ls.map_values(|l: Vec<char>| l@)
}

/// The length of a longest common subsequence of `a[i..]` and `b[j..]`, by
/// the standard recurrence: equal heads are matched, otherwise the better
/// of dropping either head.
pub open spec fn lcs(a: Seq<Seq<char>>, b: Seq<Seq<char>>, i: int, j: int) -> nat
    decreases (a.len() - i) + (b.len() - j),
{
    if i < 0 || j < 0 || i >= a.len() || j >= b.len() {
        0
    } else if a[i] == b[j] {
        1 + lcs(a, b, i + 1, j + 1)
    } else {
        let x = lcs(a, b, i + 1, j);
        let y = lcs(a, b, i, j + 1);
        if x >= y { x } else { y }
    }
}

/// The number of lines a diff keeps.
pub open spec fn keep_count(ops: Seq<(DiffTag, Seq<char>)>) -> nat
    decreases ops.len(),
{
    if ops.len() == 0 {
        0
    } else if ops.last().0 == DiffTag::Keep {
        keep_count(ops.drop_last()) + 1
    } else {
        keep_count(ops.drop_last())
    }
}

/// Entry `j` of an LCS row; past the end (the empty suffix) it is zero.
fn lcs_at(row: &Vec<usize>, j: usize) -> (v: usize)
    ensures
        j < row@.len() ==> v == row@[j as int],
        j >= row@.len() ==> v == 0,
{
    if j < row.len() { row[j] } else { 0 }
}

/// A line diff guided by the longest common subsequence: reading the lines
/// tagged `Keep` or `Remove` gives `a` back, and the lines tagged `Keep` or
/// `Add` give `b`.
pub fn diff_lines(a: &Vec<Vec<char>>, b: &Vec<Vec<char>>) -> (ops: Vec<(DiffTag, Vec<char>)>)
    ensures
        diff_old(ops_view(ops@)) == lines_view(a@),
        diff_new(ops_view(ops@)) == lines_view(b@),
        keep_count(ops_view(ops@)) == lcs(lines_view(a@), lines_view(b@), 0, 0),
{
    let ghost la = lines_view(a@);
    let ghost lb = lines_view(b@);
    let n = a.len();
    let m = b.len();
    // rows[k] holds the LCS lengths of a[n - k..] against b[j..] for j < m
    // (against the empty suffix the length is zero).
    let mut rows: Vec<Vec<usize>> = Vec::new();
    rows.push(vec![0usize; m]);
    let mut k: usize = 0;
    while k < n
        invariant
            k <= n,
            n == a@.len(),
            m == b@.len(),
            rows@.len() == k + 1,
            forall|r: int| 0 <= r < rows@.len() ==> (#[trigger] rows@[r])@.len() == m,
            forall|r: int, j: int| 0 <= r < rows@.len() && 0 <= j < m ==> (#[trigger] rows@[r]@[j]) <= r,
            forall|r: int, j: int| 0 <= r < rows@.len() && 0 <= j < m ==> (#[trigger] rows@[r]@[j]) == lcs(la, lb, n - r, j),
            la == lines_view(a@),
            lb == lines_view(b@),
        decreases n - k,
    {
        let i = n - 1 - k;
        let mut row: Vec<usize> = vec![0usize; m];
        let mut jj: usize = m;
        while jj > 0
            invariant
                k < n,
                i == n - 1 - k,
                n == a@.len(),
                m == b@.len(),
                jj <= m,
                row@.len() == m,
                rows@.len() == k + 1,
                forall|r: int| 0 <= r < rows@.len() ==> (#[trigger] rows@[r])@.len() == m,
                forall|r: int, j: int| 0 <= r < rows@.len() && 0 <= j < m ==> (#[trigger] rows@[r]@[j]) <= r,
                forall|j: int| 0 <= j < m ==> row@[j] <= k + 1,
                forall|r: int, j: int| 0 <= r < rows@.len() && 0 <= j < m ==> (#[trigger] rows@[r]@[j]) == lcs(la, lb, n - r, j),
                forall|j: int| jj <= j < m ==> #[trigger] row@[j] == lcs(la, lb, i as int, j),
                la == lines_view(a@),
                lb == lines_view(b@),
            decreases jj,
        {
            let j = jj - 1;
            let v = if crate::text::chars_eq(&a[i], &b[j]) {
                lcs_at(&rows[k], j + 1) + 1
            } else {
                let x = rows[k][j];
                let y = lcs_at(&row, j + 1);
                if x >= y { x } else { y }
            };
            proof {
                assert(la[i as int] == a@[i as int]@ && lb[j as int] == b@[j as int]@);
                assert(lcs(la, lb, i as int + 1, m as int) == 0);
                assert(lcs(la, lb, i as int, m as int) == 0);
                assert(v == lcs(la, lb, i as int, j as int));
            }
            row.set(j, v);
            jj = j;
        }
        rows.push(row);
        k = k + 1;
    }
    let mut ops: Vec<(DiffTag, Vec<char>)> = Vec::new();
    let mut i: usize = 0;
    let mut j: usize = 0;
    while i < n && j < m
        invariant
            i <= n,
            j <= m,
            n == a@.len(),
            m == b@.len(),
            rows@.len() == n + 1,
            forall|r: int| 0 <= r < rows@.len() ==> (#[trigger] rows@[r])@.len() == m,
            forall|r: int, j: int| 0 <= r < rows@.len() && 0 <= j < m ==> (#[trigger] rows@[r]@[j]) == lcs(la, lb, n - r, j),
            la == lines_view(a@),
            lb == lines_view(b@),
            diff_old(ops_view(ops@)) == lines_view(a@).take(i as int),
            diff_new(ops_view(ops@)) == lines_view(b@).take(j as int),
            keep_count(ops_view(ops@)) + lcs(la, lb, i as int, j as int) == lcs(la, lb, 0, 0),
        decreases n + m - i - j,
    {
        let ghost before = ops_view(ops@);
        if crate::text::chars_eq(&a[i], &b[j]) {
            ops.push((DiffTag::Keep, crate::text::copy_chars(&a[i])));
            proof {
                assert(ops_view(ops@) =~= before.push((DiffTag::Keep, a@[i as int]@)));
                assert(ops_view(ops@).drop_last() =~= before);
                assert(lines_view(a@).take(i + 1) =~= lines_view(a@).take(i as int).push(a@[i as int]@));
                assert(lines_view(b@).take(j + 1) =~= lines_view(b@).take(j as int).push(b@[j as int]@));
            }
            i = i + 1;
            j = j + 1;
        } else if rows[n - i - 1][j] >= lcs_at(&rows[n - i], j + 1) {
            ops.push((DiffTag::Remove, crate::text::copy_chars(&a[i])));
            proof {
                assert(ops_view(ops@) =~= before.push((DiffTag::Remove, a@[i as int]@)));
                assert(ops_view(ops@).drop_last() =~= before);
                assert(lines_view(a@).take(i + 1) =~= lines_view(a@).take(i as int).push(a@[i as int]@));
            }
            i = i + 1;
        } else {
            ops.push((DiffTag::Add, crate::text::copy_chars(&b[j])));
            proof {
                assert(ops_view(ops@) =~= before.push((DiffTag::Add, b@[j as int]@)));
                assert(ops_view(ops@).drop_last() =~= before);
                assert(lines_view(b@).take(j + 1) =~= lines_view(b@).take(j as int).push(b@[j as int]@));
            }
            j = j + 1;
        }
    }
    while i < n
        invariant
            i <= n,
            n == a@.len(),
            diff_old(ops_view(ops@)) == lines_view(a@).take(i as int),
            diff_new(ops_view(ops@)) == lines_view(b@).take(j as int),
            la == lines_view(a@),
            lb == lines_view(b@),
            i < n ==> j == m,
            m == b@.len(),
            keep_count(ops_view(ops@)) + lcs(la, lb, i as int, j as int) == lcs(la, lb, 0, 0),
        decreases n - i,
    {
        let ghost before = ops_view(ops@);
        ops.push((DiffTag::Remove, crate::text::copy_chars(&a[i])));
        proof {
            assert(ops_view(ops@) =~= before.push((DiffTag::Remove, a@[i as int]@)));
                assert(ops_view(ops@).drop_last() =~= before);
            assert(lines_view(a@).take(i + 1) =~= lines_view(a@).take(i as int).push(a@[i as int]@));
        }
        i = i + 1;
    }
    while j < m
        invariant
            j <= m,
            m == b@.len(),
            diff_old(ops_view(ops@)) == lines_view(a@).take(n as int),
            n == a@.len(),
            diff_new(ops_view(ops@)) == lines_view(b@).take(j as int),
            la == lines_view(a@),
            lb == lines_view(b@),
            keep_count(ops_view(ops@)) + lcs(la, lb, n as int, j as int) == lcs(la, lb, 0, 0),
        decreases m - j,
    {
        let ghost before = ops_view(ops@);
        ops.push((DiffTag::Add, crate::text::copy_chars(&b[j])));
        proof {
            assert(ops_view(ops@) =~= before.push((DiffTag::Add, b@[j as int]@)));
                assert(ops_view(ops@).drop_last() =~= before);
            assert(lines_view(b@).take(j + 1) =~= lines_view(b@).take(j as int).push(b@[j as int]@));
        }
        j = j + 1;
    }
    assert(lines_view(a@).take(n as int) =~= lines_view(a@));
    assert(lines_view(b@).take(m as int) =~= lines_view(b@));
    ops
}

pub open spec fn diff_tag_char(t: DiffTag) -> char {
    match t {
        DiffTag::Keep => ' ',
        DiffTag::Remove => '-',
        DiffTag::Add => '+',
    }
}

/// The diff text: each line prefixed by ` `, `-` or `+` and ended by a line break.
pub open spec fn diff_text(ops: Seq<(DiffTag, Seq<char>)>) -> Seq<char>
    decreases ops.len(),
{
    if ops.len() == 0 {
        Seq::empty()
    } else {
        diff_text(ops.drop_last()) + seq![diff_tag_char(ops.last().0)] + ops.last().1 + seq!['\n']
    }
}

/// The line diff from `a` to `b`, one tagged line per line (see [`diff_lines`]):
/// it keeps as many lines as a longest common subsequence has.
pub fn line_diff(a: &str, b: &str) -> (r: String)
    ensures
        exists|ops: Seq<(DiffTag, Seq<char>)>| r@ == diff_text(ops)
            && diff_old(ops) == lines(a@) && diff_new(ops) == lines(b@)
            && keep_count(ops) == lcs(lines(a@), lines(b@), 0, 0),
{
    let av = split_lines(a);
    let bv = split_lines(b);
    let ops = diff_lines(&av, &bv);
    let ghost ov = ops_view(ops@);
    let mut out = String::new();
    let mut k: usize = 0;
    while k < ops.len()
        invariant
            k <= ops@.len(),
            ov == ops_view(ops@),
            out@ == diff_text(ov.take(k as int)),
        decreases ops@.len() - k,
    {
        let tag = ops[k].0;
        let c = match tag {
            DiffTag::Keep => ' ',
            DiffTag::Remove => '-',
            DiffTag::Add => '+',
        };
        let ghost o0 = out@;
        push_char(&mut out, c);
        push_chars(&mut out, &ops[k].1);
        push_char(&mut out, '\n');
        proof {
            assert(ov.take(k + 1).drop_last() =~= ov.take(k as int));
            assert(out@ =~= diff_text(ov.take(k + 1)));
        }
        k = k + 1;
    }
    assert(ov.take(ops@.len() as int) =~= ov);
    assert(lines_view(av@) == lines(a@));
    assert(lines_view(bv@) == lines(b@));
    out
}

/// The `fmt --check` report for an unformatted file: a heading naming the
/// file, then the line diff from the current text to the formatted one.
pub fn format_diff(file: &str, current: &str, formatted: &str) -> (r: String)
    ensures
        exists|ops: Seq<(DiffTag, Seq<char>)>| r@ == file@ + ": not formatted (run `kei fmt --write "@ + file@ + "`)\n"@ + diff_text(ops)
            && diff_old(ops) == lines(current@) && diff_new(ops) == lines(formatted@)
            && keep_count(ops) == lcs(lines(current@), lines(formatted@), 0, 0),
{
    let mut out = crate::text::owned(file);
    push_str(&mut out, ": not formatted (run `kei fmt --write ");
    push_str(&mut out, file);
    push_str(&mut out, "`)\n");
    let d = line_diff(current, formatted);
    push_str(&mut out, d.as_str());
    out
}

} // verus!
