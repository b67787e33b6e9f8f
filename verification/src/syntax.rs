//! Parsing a whole source file: lexing, separating `//` comments from the
//! token stream, parsing, and ordering the errors by source position.
use vstd::prelude::*;
use crate::ast::Module;
use crate::error::SyntaxError;
use crate::lexer::{lex, max_source_len};
use crate::parser::{parsable, Parser};
use crate::span::{Position, Span};
use crate::token::{Token, TokenKind};

verus! {

/// A `//` line comment: `text` is what follows the two slashes.
#[derive(Debug, Clone, PartialEq, Eq)]
pub struct Comment {
    pub text: String,
    pub span: Span,
}

/// The result of parsing. With errors, `module` still holds the recovered tree.
#[derive(Debug, PartialEq, Eq)]
pub struct ParseResult {
    pub module: Module,
    /// Ordered by source position (line, then column).
    pub errors: Vec<SyntaxError>,
    /// The `//` comments, in source order.
    pub comments: Vec<Comment>,
}

/// `a` comes no later than `b` in the source.
pub open spec fn pos_le(a: Position, b: Position) -> bool {
    a.line < b.line || (a.line == b.line && a.col <= b.col)
}

/// The errors are ordered by the start of their spans.
pub open spec fn sorted_by_position(errors: Seq<SyntaxError>) -> bool {
    forall|i: int, j: int| 0 <= i < j < errors.len() ==> pos_le(errors[i].span.start, errors[j].span.start)
}

/// Parses one source file.
pub fn parse_module(source: &str) -> (r: ParseResult)
    requires
        source@.len() < max_source_len(),
    ensures
        sorted_by_position(r.errors@),
{
    let (tokens, lex_errors) = lex(source);
    let (code, comments) = split_comments(tokens);
    let mut parser = Parser::new(code, lex_errors);
    let module = parser.parse_module();
    let errors = sort_by_position(parser.into_errors());
    ParseResult { module, errors, comments }
}

/// Moves the `Comment` tokens out of the stream, keeping the order of both parts.
fn split_comments(tokens: Vec<Token>) -> (r: (Vec<Token>, Vec<Comment>))
    requires
        tokens@.len() > 0,
        tokens@.last().kind == TokenKind::Eof,
        forall|i: int| 0 <= i < tokens@.len() - 1 ==> (#[trigger] tokens@[i]).kind != TokenKind::Eof,
    ensures
        parsable(r.0@),
        forall|i: int| 0 <= i < r.0@.len() ==> (#[trigger] r.0@[i]).kind != TokenKind::Comment,
{
    let mut code: Vec<Token> = Vec::new();
    let mut comments: Vec<Comment> = Vec::new();
    let n = tokens.len();
    let mut rest = tokens;
    // Walk front to back by reversing once.
    let mut rev: Vec<Token> = Vec::new();
    while rest.len() > 0
        invariant
            rev@.len() + rest@.len() == n,
            n == tokens@.len(),
            forall|i: int| 0 <= i < rest@.len() ==> rest@[i] == tokens@[i],
            forall|i: int| 0 <= i < rev@.len() ==> rev@[i] == tokens@[n - 1 - i],
        decreases rest@.len(),
    {
        let t = rest.pop().unwrap();
        rev.push(t);
    }
    let mut k: usize = 0;
    while rev.len() > 0
        invariant
            n == tokens@.len(),
            n > 0,
            tokens@.last().kind == TokenKind::Eof,
            forall|i: int| 0 <= i < n - 1 ==> (#[trigger] tokens@[i]).kind != TokenKind::Eof,
            k + rev@.len() == n,
            forall|i: int| 0 <= i < rev@.len() ==> rev@[i] == tokens@[n - 1 - i],
            forall|i: int| 0 <= i < code@.len() ==> (#[trigger] code@[i]).kind != TokenKind::Comment,
            k < n ==> forall|i: int| 0 <= i < code@.len() ==> (#[trigger] code@[i]).kind != TokenKind::Eof,
            k == n ==> code@.len() > 0 && code@.last().kind == TokenKind::Eof
                && forall|i: int| 0 <= i < code@.len() - 1 ==> (#[trigger] code@[i]).kind != TokenKind::Eof,
        decreases rev@.len(),
    {
        let t = rev.pop().unwrap();
        assert(t == tokens@[k as int]);
        if t.kind == TokenKind::Comment {
            comments.push(Comment { text: t.text, span: t.span });
        } else if t.kind == TokenKind::Eof {
            code.push(t);
        } else {
            code.push(t);
        }
        k = k + 1;
    }
    (code, comments)
}

/// Orders errors by start position, keeping the original order among equal
/// positions (insertion sort).
pub fn sort_by_position(errors: Vec<SyntaxError>) -> (r: Vec<SyntaxError>)
    ensures
        sorted_by_position(r@),
        r@.to_multiset() == errors@.to_multiset(),
{
    let mut out: Vec<SyntaxError> = Vec::new();
    let mut input = errors;
    let mut rev: Vec<SyntaxError> = Vec::new();
    let n = input.len();
    while input.len() > 0
        invariant
            rev@.len() + input@.len() == n,
            n == errors@.len(),
            forall|i: int| 0 <= i < input@.len() ==> input@[i] == errors@[i],
            forall|i: int| 0 <= i < rev@.len() ==> rev@[i] == errors@[n - 1 - i],
        decreases input@.len(),
    {
        let e = input.pop().unwrap();
        rev.push(e);
    }
    let mut k: usize = 0;
    assert(errors@.take(0) =~= Seq::<SyntaxError>::empty());
    while rev.len() > 0
        invariant
            n == errors@.len(),
            k + rev@.len() == n,
            forall|i: int| 0 <= i < rev@.len() ==> rev@[i] == errors@[n - 1 - i],
            sorted_by_position(out@),
            out@.to_multiset() == errors@.take(k as int).to_multiset(),
        decreases rev@.len(),
    {
        let e = rev.pop().unwrap();
        assert(e == errors@[k as int]);
        // The insertion point: after every error that does not come later.
        let mut j: usize = out.len();
        while j > 0 && pos_lt_exec(e.span.start, out[j - 1].span.start)
            invariant
                j <= out@.len(),
                sorted_by_position(out@),
                forall|m: int| j <= m < out@.len() ==> !pos_le(out@[m].span.start, e.span.start),
            decreases j,
        {
            j = j - 1;
        }
        let ghost before = out@;
        assert(j == 0 || pos_le(before[j - 1].span.start, e.span.start));
        proof {
            vstd::seq_lib::to_multiset_insert(before, j as int, e);
        }
        out.insert(j, e);
        proof {
            assert(errors@.take(k + 1) =~= errors@.take(k as int).push(errors@[k as int]));
            vstd::seq_lib::to_multiset_build(errors@.take(k as int), errors@[k as int]);
            assert forall|a: int, b: int| 0 <= a < b < out@.len() implies pos_le(out@[a].span.start, out@[b].span.start) by {
                if b < j {
                    assert(out@[a] == before[a] && out@[b] == before[b]);
                } else if b == j {
                    assert(out@[a] == before[a] && out@[b] == e);
                    assert(pos_le(before[a].span.start, before[j - 1].span.start));
                } else if a < j {
                    assert(out@[a] == before[a] && out@[b] == before[b - 1]);
                } else if a == j {
                    assert(out@[a] == e && out@[b] == before[b - 1]);
                } else {
                    assert(out@[a] == before[a - 1] && out@[b] == before[b - 1]);
                }
            }
        }
        k = k + 1;
    }
    assert(errors@.take(n as int) =~= errors@);
    out
}

fn pos_lt_exec(a: Position, b: Position) -> (r: bool)
    ensures
        r == !pos_le(b, a),
{
    a.line < b.line || (a.line == b.line && a.col < b.col)
}

} // verus!
