//! Diagnostics as JSON text, laid out as `serde_json`'s pretty printer lays
//! out the diagnostic records: fields in declaration order, two-space
//! indentation, `[]` for an empty array, and `suggested_contract` only when
//! there is one.
use vstd::prelude::*;
use crate::diagnostic::{Diagnostic, Fix, Position, Severity, Span, SuggestedContract, TextEdit};
use crate::json::{json_quote, json_string};
use crate::text::{int_text, push_i64, push_str, repeat_text};

verus! {


/// `n` indentation steps.
pub open spec fn ind(n: nat) -> Seq<char> {
    repeat_text("  "@, n)
}

#[verifier::opaque]
pub open spec fn j_pos(p: Position, n: nat) -> Seq<char> {
    "{\n"@ + ind(n + 1) + "\"line\": "@ + int_text(p.line as int) + ",\n"@
        + ind(n + 1) + "\"col\": "@ + int_text(p.col as int) + "\n"@ + ind(n) + "}"@
}

#[verifier::opaque]
pub open spec fn j_span(s: Span, n: nat) -> Seq<char> {
    "{\n"@ + ind(n + 1) + "\"file\": "@ + json_quote(s.file@) + ",\n"@
        + ind(n + 1) + "\"start\": "@ + j_pos(s.start, n + 1) + ",\n"@
        + ind(n + 1) + "\"end\": "@ + j_pos(s.end, n + 1) + "\n"@ + ind(n) + "}"@
}

#[verifier::opaque]
pub open spec fn j_edit(e: TextEdit, n: nat) -> Seq<char> {
    "{\n"@ + ind(n + 1) + "\"span\": "@ + j_span(e.span, n + 1) + ",\n"@
        + ind(n + 1) + "\"new_text\": "@ + json_quote(e.new_text@) + "\n"@ + ind(n) + "}"@
}

/// The first `k` edits, one per line one step deeper than `n`, separated by `,`.
pub open spec fn j_edits(es: Seq<TextEdit>, k: nat, n: nat) -> Seq<char>
    decreases k,
{
    if k == 0 || k > es.len() {
        Seq::empty()
    } else if k == 1 {
        ind(n + 1) + j_edit(es[0], n + 1)
    } else {
        j_edits(es, (k - 1) as nat, n) + ",\n"@ + ind(n + 1) + j_edit(es[k - 1], n + 1)
    }
}

#[verifier::opaque]
pub open spec fn j_edit_array(es: Seq<TextEdit>, n: nat) -> Seq<char> {
    if es.len() == 0 { "[]"@ } else { "[\n"@ + j_edits(es, es.len(), n) + "\n"@ + ind(n) + "]"@ }
}

#[verifier::opaque]
pub open spec fn j_fix(f: Fix, n: nat) -> Seq<char> {
    "{\n"@ + ind(n + 1) + "\"title\": "@ + json_quote(f.title@) + ",\n"@
        + ind(n + 1) + "\"edits\": "@ + j_edit_array(f.edits@, n + 1) + "\n"@ + ind(n) + "}"@
}

pub open spec fn j_fixes(fs: Seq<Fix>, k: nat, n: nat) -> Seq<char>
    decreases k,
{
    if k == 0 || k > fs.len() {
        Seq::empty()
    } else if k == 1 {
        ind(n + 1) + j_fix(fs[0], n + 1)
    } else {
        j_fixes(fs, (k - 1) as nat, n) + ",\n"@ + ind(n + 1) + j_fix(fs[k - 1], n + 1)
    }
}

#[verifier::opaque]
pub open spec fn j_fix_array(fs: Seq<Fix>, n: nat) -> Seq<char> {
    if fs.len() == 0 { "[]"@ } else { "[\n"@ + j_fixes(fs, fs.len(), n) + "\n"@ + ind(n) + "]"@ }
}

#[verifier::opaque]
pub open spec fn j_suggested(s: SuggestedContract, n: nat) -> Seq<char> {
    "{\n"@ + ind(n + 1) + "\"kind\": "@ + json_quote(s.kind@) + ",\n"@
        + ind(n + 1) + "\"function\": "@ + json_quote(s.function@) + ",\n"@
        + ind(n + 1) + "\"clause\": "@ + json_quote(s.clause@) + ",\n"@
        + ind(n + 1) + "\"expr\": "@ + json_quote(s.expr@) + "\n"@ + ind(n) + "}"@
}

pub open spec fn severity_name(s: Severity) -> Seq<char> {
    match s {
        Severity::Error => "error"@,
        Severity::Warning => "warning"@,
        Severity::Info => "info"@,
    }
}

/// The severity, code and message lines of a diagnostic.
#[verifier::opaque]
pub open spec fn j_diag_head(d: Diagnostic, n: nat) -> Seq<char> {
    ind(n + 1) + "\"severity\": "@ + json_quote(severity_name(d.severity)) + ",\n"@
        + ind(n + 1) + "\"code\": "@ + json_quote(d.code@) + ",\n"@
        + ind(n + 1) + "\"message\": "@ + json_quote(d.message@) + ",\n"@
}

/// The span and fixes lines of a diagnostic.
#[verifier::opaque]
pub open spec fn j_diag_body(d: Diagnostic, n: nat) -> Seq<char> {
    ind(n + 1) + "\"span\": "@ + j_span(d.span, n + 1) + ",\n"@
        + ind(n + 1) + "\"fixes\": "@ + j_fix_array(d.fixes@, n + 1)
}

/// The `suggested_contract` line, when there is one.
#[verifier::opaque]
pub open spec fn j_diag_tail(d: Diagnostic, n: nat) -> Seq<char> {
    match d.suggested_contract {
        Some(s) => ",\n"@ + ind(n + 1) + "\"suggested_contract\": "@ + j_suggested(s, n + 1),
        None => Seq::<char>::empty(),
    }
}

#[verifier::opaque]
pub open spec fn j_diag(d: Diagnostic, n: nat) -> Seq<char> {
    "{\n"@ + j_diag_head(d, n) + j_diag_body(d, n) + j_diag_tail(d, n) + "\n"@ + ind(n) + "}"@
}

pub open spec fn j_diags(ds: Seq<Diagnostic>, k: nat) -> Seq<char>
    decreases k,
{
    if k == 0 || k > ds.len() {
        Seq::empty()
    } else if k == 1 {
        ind(1) + j_diag(ds[0], 1)
    } else {
        j_diags(ds, (k - 1) as nat) + ",\n"@ + ind(1) + j_diag(ds[k - 1], 1)
    }
}

/// The pretty JSON array of `ds`.
pub open spec fn diagnostics_json_text(ds: Seq<Diagnostic>) -> Seq<char> {
    if ds.len() == 0 { "[]"@ } else { "[\n"@ + j_diags(ds, ds.len()) + "\n]"@ }
}

fn push_ind(s: &mut String, n: usize)
    ensures
        final(s)@ == old(s)@ + ind(n as nat),
{
    let ghost s0 = s@;
    let mut k: usize = 0;
    while k < n
        invariant
            k <= n,
            s@ == s0 + repeat_text("  "@, k as nat),
        decreases n - k,
    {
        push_str(s, "  ");
        assert(s@ =~= s0 + repeat_text("  "@, (k + 1) as nat));
        k = k + 1;
    }
}

fn push_quoted(s: &mut String, t: &str)
    ensures
        final(s)@ == old(s)@ + json_quote(t@),
{
    let q = json_string(t);
    push_str(s, q.as_str());
}

fn push_pos(s: &mut String, p: Position, n: usize)
    requires
        n < usize::MAX,
    ensures
        final(s)@ == old(s)@ + j_pos(p, n as nat),
{
    let ghost s0 = s@;
    push_str(s, "{\n");
    push_ind(s, n + 1);
    push_str(s, "\"line\": ");
    push_i64(s, p.line as i64);
    push_str(s, ",\n");
    push_ind(s, n + 1);
    push_str(s, "\"col\": ");
    push_i64(s, p.col as i64);
    push_str(s, "\n");
    push_ind(s, n);
    push_str(s, "}");
    proof {
        reveal(j_pos);
    }
    assert(s@ =~= s0 + j_pos(p, n as nat));
}

fn push_span(s: &mut String, sp: &Span, n: usize)
    requires
        n + 1 < usize::MAX,
    ensures
        final(s)@ == old(s)@ + j_span(*sp, n as nat),
{
    let ghost s0 = s@;
    push_str(s, "{\n");
    push_ind(s, n + 1);
    push_str(s, "\"file\": ");
    push_quoted(s, sp.file.as_str());
    push_str(s, ",\n");
    push_ind(s, n + 1);
    push_str(s, "\"start\": ");
    push_pos(s, sp.start, n + 1);
    push_str(s, ",\n");
    push_ind(s, n + 1);
    push_str(s, "\"end\": ");
    push_pos(s, sp.end, n + 1);
    push_str(s, "\n");
    push_ind(s, n);
    push_str(s, "}");
    proof {
        reveal(j_span);
    }
    assert(s@ =~= s0 + j_span(*sp, n as nat));
}

fn push_edit(s: &mut String, e: &TextEdit, n: usize)
    requires
        n + 2 < usize::MAX,
    ensures
        final(s)@ == old(s)@ + j_edit(*e, n as nat),
{
    let ghost s0 = s@;
    push_str(s, "{\n");
    push_ind(s, n + 1);
    push_str(s, "\"span\": ");
    push_span(s, &e.span, n + 1);
    push_str(s, ",\n");
    push_ind(s, n + 1);
    push_str(s, "\"new_text\": ");
    push_quoted(s, e.new_text.as_str());
    push_str(s, "\n");
    push_ind(s, n);
    push_str(s, "}");
    proof {
        reveal(j_edit);
    }
    assert(s@ =~= s0 + j_edit(*e, n as nat));
}

fn push_edit_array(s: &mut String, es: &Vec<TextEdit>, n: usize)
    requires
        n + 3 < usize::MAX,
    ensures
        final(s)@ == old(s)@ + j_edit_array(es@, n as nat),
{
    let ghost s0 = s@;
    if es.len() == 0 {
        push_str(s, "[]");
        proof {
            reveal(j_edit_array);
        }
        return;
    }
    push_str(s, "[\n");
    let ghost s1 = s@;
    let mut i: usize = 0;
    while i < es.len()
        invariant
            n + 3 < usize::MAX,
            i <= es@.len(),
            s@ == s1 + j_edits(es@, i as nat, n as nat),
        decreases es@.len() - i,
    {
        if i > 0 {
            push_str(s, ",\n");
        }
        push_ind(s, n + 1);
        push_edit(s, &es[i], n + 1);
        proof {
            if i > 0 {
                assert(s@ =~= s1 + (j_edits(es@, i as nat, n as nat) + ",\n"@ + ind((n + 1) as nat) + j_edit(es@[i as int], (n + 1) as nat)));
            } else {
                assert(s@ =~= s1 + (ind((n + 1) as nat) + j_edit(es@[0], (n + 1) as nat)));
            }
        }
        i = i + 1;
    }
    push_str(s, "\n");
    push_ind(s, n);
    push_str(s, "]");
    proof {
        reveal(j_edit_array);
    }
    assert(s@ =~= s0 + j_edit_array(es@, n as nat));
}

fn push_fix(s: &mut String, f: &Fix, n: usize)
    requires
        n + 4 < usize::MAX,
    ensures
        final(s)@ == old(s)@ + j_fix(*f, n as nat),
{
    let ghost s0 = s@;
    push_str(s, "{\n");
    push_ind(s, n + 1);
    push_str(s, "\"title\": ");
    push_quoted(s, f.title.as_str());
    push_str(s, ",\n");
    push_ind(s, n + 1);
    push_str(s, "\"edits\": ");
    push_edit_array(s, &f.edits, n + 1);
    push_str(s, "\n");
    push_ind(s, n);
    push_str(s, "}");
    proof {
        reveal(j_fix);
    }
    assert(s@ =~= s0 + j_fix(*f, n as nat));
}

fn push_fix_array(s: &mut String, fs: &Vec<Fix>, n: usize)
    requires
        n + 5 < usize::MAX,
    ensures
        final(s)@ == old(s)@ + j_fix_array(fs@, n as nat),
{
    let ghost s0 = s@;
    if fs.len() == 0 {
        push_str(s, "[]");
        proof {
            reveal(j_fix_array);
        }
        return;
    }
    push_str(s, "[\n");
    let ghost s1 = s@;
    let mut i: usize = 0;
    while i < fs.len()
        invariant
            n + 5 < usize::MAX,
            i <= fs@.len(),
            s@ == s1 + j_fixes(fs@, i as nat, n as nat),
        decreases fs@.len() - i,
    {
        if i > 0 {
            push_str(s, ",\n");
        }
        push_ind(s, n + 1);
        push_fix(s, &fs[i], n + 1);
        proof {
            if i > 0 {
                assert(s@ =~= s1 + (j_fixes(fs@, i as nat, n as nat) + ",\n"@ + ind((n + 1) as nat) + j_fix(fs@[i as int], (n + 1) as nat)));
            } else {
                assert(s@ =~= s1 + (ind((n + 1) as nat) + j_fix(fs@[0], (n + 1) as nat)));
            }
        }
        i = i + 1;
    }
    push_str(s, "\n");
    push_ind(s, n);
    push_str(s, "]");
    proof {
        reveal(j_fix_array);
    }
    assert(s@ =~= s0 + j_fix_array(fs@, n as nat));
}

#[verifier::rlimit(40)]
fn push_suggested(s: &mut String, c: &SuggestedContract, n: usize)
    requires
        n + 1 < usize::MAX,
    ensures
        final(s)@ == old(s)@ + j_suggested(*c, n as nat),
{
    let ghost s0 = s@;
    push_str(s, "{\n");
    push_ind(s, n + 1);
    push_str(s, "\"kind\": ");
    push_quoted(s, c.kind.as_str());
    push_str(s, ",\n");
    push_ind(s, n + 1);
    push_str(s, "\"function\": ");
    push_quoted(s, c.function.as_str());
    push_str(s, ",\n");
    push_ind(s, n + 1);
    push_str(s, "\"clause\": ");
    push_quoted(s, c.clause.as_str());
    push_str(s, ",\n");
    push_ind(s, n + 1);
    push_str(s, "\"expr\": ");
    push_quoted(s, c.expr.as_str());
    push_str(s, "\n");
    push_ind(s, n);
    push_str(s, "}");
    proof {
        reveal(j_suggested);
    }
    assert(s@ =~= s0 + j_suggested(*c, n as nat));
}

fn push_diag_head(s: &mut String, d: &Diagnostic, n: usize)
    requires
        n + 1 < usize::MAX,
    ensures
        final(s)@ == old(s)@ + j_diag_head(*d, n as nat),
{
    let ghost s0 = s@;
    push_ind(s, n + 1);
    push_str(s, "\"severity\": ");
    let sev: &str = match d.severity {
        Severity::Error => "error",
        Severity::Warning => "warning",
        Severity::Info => "info",
    };
    push_quoted(s, sev);
    push_str(s, ",\n");
    push_ind(s, n + 1);
    push_str(s, "\"code\": ");
    push_quoted(s, d.code.as_str());
    push_str(s, ",\n");
    push_ind(s, n + 1);
    push_str(s, "\"message\": ");
    push_quoted(s, d.message.as_str());
    push_str(s, ",\n");
    proof {
        reveal(j_diag_head);
        assert(sev@ == severity_name(d.severity));
    }
    assert(s@ =~= s0 + j_diag_head(*d, n as nat));
}

fn push_diag_body(s: &mut String, d: &Diagnostic, n: usize)
    requires
        n + 6 < usize::MAX,
    ensures
        final(s)@ == old(s)@ + j_diag_body(*d, n as nat),
{
    let ghost s0 = s@;
    push_ind(s, n + 1);
    push_str(s, "\"span\": ");
    push_span(s, &d.span, n + 1);
    push_str(s, ",\n");
    push_ind(s, n + 1);
    push_str(s, "\"fixes\": ");
    push_fix_array(s, &d.fixes, n + 1);
    proof {
        reveal(j_diag_body);
    }
    assert(s@ =~= s0 + j_diag_body(*d, n as nat));
}

fn push_diag_tail(s: &mut String, d: &Diagnostic, n: usize)
    requires
        n + 2 < usize::MAX,
    ensures
        final(s)@ == old(s)@ + j_diag_tail(*d, n as nat),
{
    let ghost s0 = s@;
    proof {
        reveal(j_diag_tail);
    }
    match &d.suggested_contract {
        Some(c) => {
            push_str(s, ",\n");
            push_ind(s, n + 1);
            push_str(s, "\"suggested_contract\": ");
            push_suggested(s, c, n + 1);
            assert(s@ =~= s0 + j_diag_tail(*d, n as nat));
        },
        None => {
            assert(s@ =~= s0 + j_diag_tail(*d, n as nat));
        },
    }
}

fn push_diag(s: &mut String, d: &Diagnostic, n: usize)
    requires
        n + 6 < usize::MAX,
    ensures
        final(s)@ == old(s)@ + j_diag(*d, n as nat),
{
    let ghost s0 = s@;
    push_str(s, "{\n");
    push_diag_head(s, d, n);
    push_diag_body(s, d, n);
    push_diag_tail(s, d, n);
    push_str(s, "\n");
    push_ind(s, n);
    push_str(s, "}");
    proof {
        reveal(j_diag);
    }
    assert(s@ =~= s0 + j_diag(*d, n as nat));
}

/// The diagnostics as a pretty JSON array (`[]` when there are none).
pub fn diagnostics_json(ds: &Vec<Diagnostic>) -> (r: String)
    ensures
        r@ == diagnostics_json_text(ds@),
{
    let mut s = String::new();
    if ds.len() == 0 {
        push_str(&mut s, "[]");
        return s;
    }
    push_str(&mut s, "[\n");
    let ghost s1 = s@;
    let mut i: usize = 0;
    while i < ds.len()
        invariant
            i <= ds@.len(),
            s@ == s1 + j_diags(ds@, i as nat),
        decreases ds@.len() - i,
    {
        if i > 0 {
            push_str(&mut s, ",\n");
        }
        push_ind(&mut s, 1);
        push_diag(&mut s, &ds[i], 1);
        proof {
            if i > 0 {
                assert(s@ =~= s1 + (j_diags(ds@, i as nat) + ",\n"@ + ind(1) + j_diag(ds@[i as int], 1)));
            } else {
                assert(s@ =~= s1 + (ind(1) + j_diag(ds@[0], 1)));
            }
        }
        i = i + 1;
    }
    push_str(&mut s, "\n]");
    assert(s@ =~= "[\n"@ + j_diags(ds@, ds@.len()) + "\n]"@);
    s
}

} // verus!
