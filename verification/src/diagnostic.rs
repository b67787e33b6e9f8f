//! Structured diagnostics: every diagnostic carries a span, a code and at
//! least one fix. The structured form is authoritative; prose is derived.
use vstd::prelude::*;

verus! {

/// How serious a diagnostic is.
#[derive(Debug, Clone, Copy, PartialEq, Eq, Structural)]
pub enum Severity {
    Error,
    Warning,
    Info,
}

/// A 1-based position; `col` counts Unicode scalar values.
#[derive(Debug, Clone, Copy, PartialEq, Eq, Structural)]
pub struct Position {
    pub line: u32,
    pub col: u32,
}

/// A range in a named file: `start` included, `end` excluded.
#[derive(Debug, Clone, PartialEq, Eq)]
pub struct Span {
    /// Path relative to the repository root.
    pub file: String,
    pub start: Position,
    pub end: Position,
}

/// One machine-applicable edit; an insertion has `start == end`.
#[derive(Debug, Clone, PartialEq, Eq)]
pub struct TextEdit {
    pub span: Span,
    pub new_text: String,
}

/// A fix candidate. With no edits it only states the direction of the fix.
#[derive(Debug, Clone, PartialEq, Eq)]
pub struct Fix {
    pub title: String,
    pub edits: Vec<TextEdit>,
}

/// A structured repair proposal at the contract level, which an agent can
/// apply and check again.
#[derive(Debug, Clone, PartialEq, Eq)]
pub struct SuggestedContract {
    /// The kind of proposal (e.g. `"ContractMissing"`).
    pub kind: String,
    /// The function that receives the contract.
    pub function: String,
    /// The clause kind (`"requires"` or `"ensures"`).
    pub clause: String,
    /// The proposed contract expression in Kei source notation.
    pub expr: String,
}

/// A structured diagnostic.
#[derive(Debug, Clone, PartialEq, Eq)]
pub struct Diagnostic {
    pub severity: Severity,
    /// `KEI-E<category digit><three digits>`.
    pub code: String,
    pub message: String,
    pub span: Span,
    /// At least one element when built through [`Diagnostic::new`].
    pub fixes: Vec<Fix>,
    pub suggested_contract: Option<SuggestedContract>,
}

/// The invariant of every diagnostic: it offers at least one fix.
pub open spec fn has_fix(d: Diagnostic) -> bool {
    d.fixes@.len() > 0
}

impl Diagnostic {
    /// Builds a diagnostic; `None` when `fixes` is empty (the entry check of
    /// the at-least-one-fix invariant).
    pub fn new(severity: Severity, code: String, message: String, span: Span, fixes: Vec<Fix>) -> (r: Option<Self>)
        ensures
            r is Some <==> fixes@.len() > 0,
            r matches Some(d) ==> d.severity == severity && d.code == code && d.message == message
                && d.span == span && d.fixes == fixes && d.suggested_contract is None && has_fix(d),
    {
        if fixes.len() == 0 {
            return None;
        }
        Some(Diagnostic { severity, code, message, span, fixes, suggested_contract: None })
    }

    /// Attaches a structured repair proposal; the fixes are kept.
    pub fn with_suggested_contract(self, suggested: SuggestedContract) -> (r: Self)
        ensures
            r.severity == self.severity,
            r.code == self.code,
            r.message == self.message,
            r.span == self.span,
            r.fixes == self.fixes,
            r.suggested_contract == Some(suggested),
    {
        let mut d = self;
        d.suggested_contract = Some(suggested);
        d
    }
}

} // verus!
