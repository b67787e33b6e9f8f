//! Lexical and syntax errors. Every syntax error carries exactly one fix hint,
//! so that the diagnostics built from it always offer at least one fix.
use vstd::prelude::*;
use crate::span::Span;

verus! {

/// A lexical or syntax error (category 0 codes, `KEI-E0xxx`).
#[derive(Debug, Clone, PartialEq, Eq)]
pub struct SyntaxError {
    pub code: &'static str,
    /// One English sentence, read by people and agents alike.
    pub message: String,
    pub span: Span,
    pub fix: FixHint,
}

/// A fix suggestion. With no edits it only names the direction of the fix.
#[derive(Debug, Clone, PartialEq, Eq)]
pub struct FixHint {
    pub title: String,
    /// `(span to replace, replacement text)` pairs; an insertion uses a zero-width span.
    pub edits: Vec<(Span, String)>,
}

impl FixHint {
    /// A fix that only states its direction.
    pub fn direction(title: String) -> (f: Self)
        ensures
            f.title == title,
            f.edits@.len() == 0,
    {
        FixHint { title, edits: Vec::new() }
    }

    /// A fix that replaces `span` with `new_text`.
    pub fn replace(title: String, span: Span, new_text: String) -> (f: Self)
        ensures
            f.title == title,
            f.edits@.len() == 1,
            f.edits@[0].0 == span,
            f.edits@[0].1 == new_text,
    {
        let mut edits = Vec::new();
        edits.push((span, new_text));
        FixHint { title, edits }
    }
}

/// Unrecognised character.
pub const UNEXPECTED_CHAR: &'static str = "KEI-E0001";
/// Unterminated string literal.
pub const UNTERMINATED_STRING: &'static str = "KEI-E0002";
/// Invalid escape sequence.
pub const INVALID_ESCAPE: &'static str = "KEI-E0003";
/// Integer literal out of the 64-bit range.
pub const INT_OUT_OF_RANGE: &'static str = "KEI-E0004";
/// Unexpected token.
pub const UNEXPECTED_TOKEN: &'static str = "KEI-E0101";
/// Reserved word used as an identifier.
pub const RESERVED_IDENT: &'static str = "KEI-E0102";
/// Unclosed delimiter.
pub const UNCLOSED_DELIMITER: &'static str = "KEI-E0103";
/// Misspelt contract clause keyword (uses / requires / ensures).
pub const UNKNOWN_CLAUSE: &'static str = "KEI-E0104";

} // verus!
