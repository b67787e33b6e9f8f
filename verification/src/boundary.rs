//! The boundary from syntax errors to diagnostics. A syntax error always
//! carries one fix hint, so every diagnostic made here offers a fix.
use vstd::prelude::*;
use crate::diagnostic::{has_fix, Diagnostic, Fix, Position, Severity, Span, TextEdit};
use crate::error::SyntaxError;
use crate::span;
use crate::text::owned;

verus! {

broadcast use vstd::string::group_string_axioms;

/// A syntax-tree span placed in `file`.
pub open spec fn spec_convert_span(file: Seq<char>, s: span::Span, r: Span) -> bool {
    &&& r.file@ == file
    &&& r.start == Position { line: s.start.line, col: s.start.col }
    &&& r.end == Position { line: s.end.line, col: s.end.col }
}

/// The diagnostic that reports syntax error `e` in `file`.
pub open spec fn reports_syntax_error(file: Seq<char>, e: SyntaxError, d: Diagnostic) -> bool {
    &&& d.severity == Severity::Error
    &&& d.code@ == e.code@
    &&& d.message == e.message
    &&& spec_convert_span(file, e.span, d.span)
    &&& d.fixes@.len() == 1
    &&& d.fixes@[0].title == e.fix.title
    &&& d.fixes@[0].edits@.len() == e.fix.edits@.len()
    &&& forall|i: int| 0 <= i < e.fix.edits@.len() ==> {
        &&& spec_convert_span(file, e.fix.edits@[i].0, #[trigger] d.fixes@[0].edits@[i].span)
        &&& d.fixes@[0].edits@[i].new_text == e.fix.edits@[i].1
    }
    &&& d.suggested_contract is None
}

/// Converts syntax errors to diagnostics, one each, in order. `file` is the
/// path relative to the repository root.
pub fn syntax_diagnostics(file: &str, errors: &[SyntaxError]) -> (r: Vec<Diagnostic>)
    ensures
        r@.len() == errors@.len(),
        forall|i: int| 0 <= i < errors@.len() ==> reports_syntax_error(file@, errors@[i], #[trigger] r@[i]),
        forall|i: int| 0 <= i < r@.len() ==> has_fix(#[trigger] r@[i]),
{
    let mut out: Vec<Diagnostic> = Vec::new();
    let mut i: usize = 0;
    while i < errors.len()
        invariant
            i <= errors@.len(),
            out@.len() == i,
            forall|k: int| 0 <= k < i ==> reports_syntax_error(file@, errors@[k], #[trigger] out@[k]),
        decreases errors@.len() - i,
    {
        let e = &errors[i];
        let mut edits: Vec<TextEdit> = Vec::new();
        let mut j: usize = 0;
        while j < e.fix.edits.len()
            invariant
                j <= e.fix.edits@.len(),
                edits@.len() == j,
                forall|k: int| 0 <= k < j ==> {
                    &&& spec_convert_span(file@, e.fix.edits@[k].0, #[trigger] edits@[k].span)
                    &&& edits@[k].new_text == e.fix.edits@[k].1
                },
            decreases e.fix.edits@.len() - j,
        {
            let pair = &e.fix.edits[j];
            let new_text: String = pair.1.clone();
            let ghost old_edits = edits@;
            edits.push(TextEdit { span: convert_span(file, pair.0), new_text });
            assert(edits@[j as int].new_text == e.fix.edits@[j as int].1);
            assert(spec_convert_span(file@, e.fix.edits@[j as int].0, edits@[j as int].span));
            assert(forall|k: int| 0 <= k < j ==> edits@[k] == old_edits[k]);
            j = j + 1;
        }
        let mut fixes: Vec<Fix> = Vec::new();
        fixes.push(Fix { title: e.fix.title.clone(), edits });
        let d = Diagnostic {
            severity: Severity::Error,
            code: owned(e.code),
            message: e.message.clone(),
            span: convert_span(file, e.span),
            fixes,
            suggested_contract: None,
        };
        out.push(d);
        i = i + 1;
    }
    out
}

/// A syntax-tree span placed in `file`.
pub fn convert_span(file: &str, s: span::Span) -> (r: Span)
    ensures
        spec_convert_span(file@, s, r),
{
    Span {
        file: owned(file),
        start: Position { line: s.start.line, col: s.start.col },
        end: Position { line: s.end.line, col: s.end.col },
    }
}

} // verus!
