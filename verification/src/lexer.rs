//! The lexer. It keeps producing tokens after an error and returns the errors
//! it met alongside the tokens (error recovery).
use vstd::prelude::*;
use crate::error::{self, FixHint, SyntaxError};
use crate::span::{Position, Span};
use crate::text::{owned, push_char, push_str, chars_of, string_of};
use crate::token::{spec_keyword, spec_literal, Token, TokenKind};

verus! {

broadcast use vstd::string::group_string_axioms;

/// The largest input, in characters, whose line and column numbers fit in `u32`.
pub open spec fn max_source_len() -> nat {
    0xffff_fff0
}

pub open spec fn is_alpha(c: char) -> bool {
    ('a' <= c && c <= 'z') || ('A' <= c && c <= 'Z')
}

pub open spec fn is_digit(c: char) -> bool {
    '0' <= c && c <= '9'
}

pub open spec fn is_ident_start(c: char) -> bool {
    is_alpha(c) || c == '_'
}

pub open spec fn is_ident_char(c: char) -> bool {
    is_alpha(c) || is_digit(c) || c == '_'
}

/// The value of a non-empty string of decimal digits.
pub open spec fn digits_value(s: Seq<char>) -> nat
    decreases s.len(),
{
    if s.len() == 0 {
        0
    } else {
        digits_value(s.drop_last()) * 10 + ((s.last() as int) - ('0' as int)) as nat
    }
}

pub open spec fn all_digits(s: Seq<char>) -> bool {
    forall|i: int| 0 <= i < s.len() ==> is_digit(#[trigger] s[i])
}

/// What the lexer promises of each token it produces.
pub open spec fn token_wf(t: Token) -> bool {
    let s = t.text@;
    match t.kind {
        TokenKind::Ident => s.len() > 0 && is_ident_start(s[0])
            && (forall|i: int| 0 <= i < s.len() ==> is_ident_char(#[trigger] s[i]))
            && spec_keyword(s) is None,
        TokenKind::Int => s.len() > 0 && all_digits(s),
        TokenKind::Str => true,
        TokenKind::Comment => forall|i: int| 0 <= i < s.len() ==> #[trigger] s[i] != '\n',
        TokenKind::Newline => s == seq!['\n'],
        TokenKind::Eof => s.len() == 0,
        _ => spec_literal(t.kind) == Some(s),
    }
}

fn is_alpha_exec(c: char) -> (r: bool)
    ensures
        r == is_alpha(c),
{
    ('a' <= c && c <= 'z') || ('A' <= c && c <= 'Z')
}

fn is_digit_exec(c: char) -> (r: bool)
    ensures
        r == is_digit(c),
{
    '0' <= c && c <= '9'
}

/// Parses a string of decimal digits as an `i64`; `None` when it does not fit.
pub fn parse_i64_digits(s: &Vec<char>) -> (r: Option<i64>)
    requires
        all_digits(s@),
    ensures
        r is Some <==> digits_value(s@) <= i64::MAX,
        r matches Some(v) ==> v as int == digits_value(s@),
{
    let mut v: i64 = 0;
    let mut i: usize = 0;
    while i < s.len()
        invariant
            i <= s.len(),
            all_digits(s@),
            v as int == digits_value(s@.take(i as int)),
            v >= 0,
        decreases s.len() - i,
    {
        assert(s@.take(i + 1).drop_last() =~= s@.take(i as int));
        assert(is_digit(s@[i as int]));
        let d = (s[i] as u32 - '0' as u32) as i64;
        if v > (i64::MAX - d) / 10 {
            proof { lemma_digits_value_prefix_monotone(s@, i + 1); }
            return None;
        }
        v = v * 10 + d;
        i = i + 1;
    }
    assert(s@.take(s.len() as int) =~= s@);
    Some(v)
}

/// Extending a digit string never lowers its value.
pub proof fn lemma_digits_value_prefix_monotone(s: Seq<char>, k: int)
    requires
        0 <= k <= s.len(),
        all_digits(s),
    ensures
        digits_value(s.take(k)) <= digits_value(s),
    decreases s.len() - k,
{
    if k < s.len() {
        lemma_digits_value_prefix_monotone(s, k + 1);
        assert(s.take(k + 1).drop_last() =~= s.take(k));
        assert(is_digit(s[k]));
    } else {
        assert(s.take(k) =~= s);
    }
}

/// Splits `source` into tokens and collects the lexical errors met on the way.
/// Whether position `a` is not after `b` (by line, then column).
pub open spec fn pos_le(a: Position, b: Position) -> bool {
    a.line < b.line || (a.line == b.line && a.col <= b.col)
}

/// Tokens in source order: each span runs forwards, and each token ends
/// where or before the next one starts.
#[verifier::opaque]
pub open spec fn tokens_in_order(ts: Seq<Token>) -> bool {
    &&& forall|i: int| 0 <= i < ts.len() ==> pos_le((#[trigger] ts[i]).span.start, ts[i].span.end)
    &&& forall|i: int, j: int| 0 <= i < j < ts.len() ==> pos_le((#[trigger] ts[i]).span.end, (#[trigger] ts[j]).span.start)
}

/// A token pushed after tokens in order, starting after the last one ends
/// and running forwards, keeps them in order.
proof fn lemma_push_in_order(ts: Seq<Token>, t: Token)
    requires
        tokens_in_order(ts),
        pos_le(t.span.start, t.span.end),
        ts.len() > 0 ==> pos_le(ts.last().span.end, t.span.start),
    ensures
        tokens_in_order(ts.push(t)),
{
    reveal(tokens_in_order);
    let n = ts.push(t);
    assert forall|i: int, j: int| 0 <= i < j < n.len() implies pos_le((#[trigger] n[i]).span.end, (#[trigger] n[j]).span.start) by {
        if j < ts.len() {
            assert(n[i] == ts[i] && n[j] == ts[j]);
        } else {
            assert(n[i] == ts[i]);
            if i < ts.len() - 1 {
                assert(pos_le(ts[i].span.end, ts[ts.len() - 1].span.start));
                assert(pos_le(ts[ts.len() - 1].span.start, ts[ts.len() - 1].span.end));
            }
        }
    }
    assert forall|i: int| 0 <= i < n.len() implies pos_le((#[trigger] n[i]).span.start, n[i].span.end) by {
        if i < ts.len() {
            assert(n[i] == ts[i]);
        }
    }
}

/// The 1-based line and column just after `s`: each line break starts a
/// new line at column one, any other character moves one column on.
pub open spec fn end_line_col(s: Seq<char>) -> (int, int)
    decreases s.len(),
{
    if s.len() == 0 {
        (1, 1)
    } else {
        let (l, c) = end_line_col(s.drop_last());
        if s.last() == '\n' { (l + 1, 1) } else { (l, c + 1) }
    }
}

pub fn lex(source: &str) -> (r: (Vec<Token>, Vec<SyntaxError>))
    requires
        source@.len() < max_source_len(),
    ensures
        r.0@.len() > 0,
        r.0@.last().kind == TokenKind::Eof,
        forall|i: int| 0 <= i < r.0@.len() - 1 ==> (#[trigger] r.0@[i]).kind != TokenKind::Eof,
        forall|i: int| 0 <= i < r.0@.len() ==> token_wf(#[trigger] r.0@[i]),
        r.0@.last().span.start == r.0@.last().span.end,
        tokens_in_order(r.0@),
        (r.0@.last().span.end.line as int, r.0@.last().span.end.col as int) == end_line_col(source@),
{
    let mut lexer = Lexer {
        chars: chars_of(source),
        idx: 0,
        line: 1,
        col: 1,
        tokens: Vec::new(),
        errors: Vec::new(),
    };
    proof {
        reveal(tokens_in_order);
        assert(lexer.chars@.take(0) =~= Seq::<char>::empty());
    }
    lexer.run();
    (lexer.tokens, lexer.errors)
}

struct Lexer {
    chars: Vec<char>,
    idx: usize,
    line: u32,
    col: u32,
    tokens: Vec<Token>,
    errors: Vec<SyntaxError>,
}

impl Lexer {
    spec fn inv(&self) -> bool {
        &&& self.chars@.len() < max_source_len()
        &&& self.idx <= self.chars@.len()
        &&& 1 <= self.line <= self.idx + 1
        &&& 1 <= self.col <= self.idx + 1
        &&& (self.line as int, self.col as int) == end_line_col(self.chars@.take(self.idx as int))
        &&& tokens_in_order(self.tokens@)
        &&& self.tokens@.len() > 0 ==> pos_le(self.tokens@.last().span.end, self.cur())
        &&& forall|i: int| 0 <= i < self.tokens@.len() ==> token_wf(#[trigger] self.tokens@[i])
        &&& forall|i: int| 0 <= i < self.tokens@.len() ==> (#[trigger] self.tokens@[i]).kind != TokenKind::Eof
    }

    spec fn cur(&self) -> Position {
        Position { line: self.line, col: self.col }
    }

    spec fn frame(&self, old: &Lexer) -> bool {
        &&& self.chars == old.chars
        &&& self.idx >= old.idx
        &&& self.tokens@.len() >= old.tokens@.len()
    }

    fn pos(&self) -> (p: Position)
        ensures
            p.line == self.line,
            p.col == self.col,
    {
        Position::new(self.line, self.col)
    }

    fn peek(&self) -> (r: Option<char>)
        requires
            self.idx <= self.chars@.len(),
        ensures
            self.idx < self.chars@.len() ==> r == Some(self.chars@[self.idx as int]),
            self.idx >= self.chars@.len() ==> r is None,
    {
        if self.idx < self.chars.len() {
            Some(self.chars[self.idx])
        } else {
            None
        }
    }

    fn peek2(&self) -> (r: Option<char>)
        requires
            self.idx <= self.chars@.len(),
            self.chars@.len() < max_source_len(),
        ensures
            self.idx + 1 < self.chars@.len() ==> r == Some(self.chars@[self.idx + 1]),
            self.idx + 1 >= self.chars@.len() ==> r is None,
    {
        if self.idx + 1 < self.chars.len() {
            Some(self.chars[self.idx + 1])
        } else {
            None
        }
    }

    fn bump(&mut self) -> (c: char)
        requires
            old(self).inv(),
            old(self).idx < old(self).chars@.len(),
        ensures
            final(self).inv(),
            final(self).chars == old(self).chars,
            final(self).idx == old(self).idx + 1,
            final(self).tokens == old(self).tokens,
            c == old(self).chars@[old(self).idx as int],
            pos_le(old(self).cur(), final(self).cur()),
    {
        let c = self.chars[self.idx];
        proof {
            assert(self.chars@.take(self.idx + 1).drop_last() =~= self.chars@.take(self.idx as int));
        }
        self.idx = self.idx + 1;
        if c == '\n' {
            self.line = self.line + 1;
            self.col = 1;
        } else {
            self.col = self.col + 1;
        }
        c
    }

    fn push(&mut self, kind: TokenKind, text: String, start: Position)
        requires
            old(self).inv(),
            kind != TokenKind::Eof,
            token_wf(Token { kind, text, span: Span { start, end: Position { line: old(self).line, col: old(self).col } } }),
            pos_le(start, old(self).cur()),
            old(self).tokens@.len() > 0 ==> pos_le(old(self).tokens@.last().span.end, start),
        ensures
            final(self).inv(),
            final(self).chars == old(self).chars,
            final(self).idx == old(self).idx,
            final(self).tokens@.len() == old(self).tokens@.len() + 1,
    {
        let end = self.pos();
        let ghost t0 = self.tokens@;
        let t = Token { kind, text, span: Span::new(start, end) };
        proof { lemma_push_in_order(t0, t); }
        self.tokens.push(t);
    }

    fn error(&mut self, code: &'static str, message: String, span: Span, fix: FixHint)
        requires
            old(self).inv(),
        ensures
            final(self).inv(),
            final(self).chars == old(self).chars,
            final(self).idx == old(self).idx,
            final(self).tokens == old(self).tokens,
            final(self).cur() == old(self).cur(),
    {
        self.errors.push(SyntaxError { code, message, span, fix });
    }

    fn run(&mut self)
        requires
            old(self).inv(),
            old(self).tokens@.len() == 0,
        ensures
            final(self).tokens@.len() > 0,
            final(self).tokens@.last().kind == TokenKind::Eof,
            forall|i: int| 0 <= i < final(self).tokens@.len() - 1 ==> (#[trigger] final(self).tokens@[i]).kind != TokenKind::Eof,
            forall|i: int| 0 <= i < final(self).tokens@.len() ==> token_wf(#[trigger] final(self).tokens@[i]),
            final(self).tokens@.last().span.start == final(self).tokens@.last().span.end,
            tokens_in_order(final(self).tokens@),
            (final(self).tokens@.last().span.end.line as int, final(self).tokens@.last().span.end.col as int)
                == end_line_col(old(self).chars@),
    {
        while self.idx < self.chars.len()
            invariant
                self.inv(),
                self.chars == old(self).chars,
            decreases self.chars@.len() - self.idx,
        {
            let c = self.chars[self.idx];
            let start = self.pos();
            if c == ' ' || c == '\t' || c == '\r' {
                self.bump();
            } else if c == '\n' {
                self.bump();
                let t = owned("\n");
                proof {
                    reveal_strlit("\n");
                    assert(t@ =~= seq!['\n']);
                }
                self.push(TokenKind::Newline, t, start);
            } else if c == '/' && self.peek2() == Some('/') {
                self.comment();
            } else if is_alpha_exec(c) || c == '_' {
                self.ident();
            } else if is_digit_exec(c) {
                self.number();
            } else if c == '"' {
                self.string();
            } else {
                self.punct();
            }
        }
        let eof = self.pos();
        assert(self.chars@.take(self.idx as int) =~= self.chars@);
        let ghost t0 = self.tokens@;
        let t = Token { kind: TokenKind::Eof, text: String::new(), span: Span::new(eof, eof) };
        proof { lemma_push_in_order(t0, t); }
        self.tokens.push(t);
    }

    /// `// ...` up to (not including) the end of the line.
    fn comment(&mut self)
        requires
            old(self).inv(),
            old(self).idx + 1 < old(self).chars@.len(),
            old(self).chars@[old(self).idx as int] == '/',
        ensures
            final(self).inv(),
            final(self).chars == old(self).chars,
            final(self).idx > old(self).idx,
    {
        let start = self.pos();
        self.bump();
        self.bump();
        let mut text = String::new();
        while self.idx < self.chars.len() && self.chars[self.idx] != '\n'
            invariant
                self.inv(),
                self.chars == old(self).chars,
                self.idx > old(self).idx,
                forall|i: int| 0 <= i < text@.len() ==> #[trigger] text@[i] != '\n',
                self.tokens == old(self).tokens,
                start == old(self).cur(),
                pos_le(start, self.cur()),
            decreases self.chars@.len() - self.idx,
        {
            let c = self.bump();
            push_char(&mut text, c);
        }
        self.push(TokenKind::Comment, text, start);
    }

    fn ident(&mut self)
        requires
            old(self).inv(),
            old(self).idx < old(self).chars@.len(),
            is_ident_start(old(self).chars@[old(self).idx as int]),
        ensures
            final(self).inv(),
            final(self).chars == old(self).chars,
            final(self).idx > old(self).idx,
    {
        let start = self.pos();
        let mut text = String::new();
        while self.idx < self.chars.len() && (is_alpha_exec(self.chars[self.idx]) || is_digit_exec(self.chars[self.idx]) || self.chars[self.idx] == '_')
            invariant
                self.inv(),
                self.chars == old(self).chars,
                self.idx >= old(self).idx,
                text@.len() == self.idx - old(self).idx,
                text@.len() > 0 ==> text@[0] == old(self).chars@[old(self).idx as int],
                forall|i: int| 0 <= i < text@.len() ==> is_ident_char(#[trigger] text@[i]),
                self.tokens == old(self).tokens,
                start == old(self).cur(),
                pos_le(start, self.cur()),
            decreases self.chars@.len() - self.idx,
        {
            let c = self.bump();
            push_char(&mut text, c);
        }
        let kind = match TokenKind::keyword(text.as_str()) {
            Some(k) => k,
            None => TokenKind::Ident,
        };
        proof {
            crate::token::law_keyword_literal_roundtrip(kind, text@);
        }
        self.push(kind, text, start);
    }

    fn number(&mut self)
        requires
            old(self).inv(),
            old(self).idx < old(self).chars@.len(),
            is_digit(old(self).chars@[old(self).idx as int]),
        ensures
            final(self).inv(),
            final(self).chars == old(self).chars,
            final(self).idx > old(self).idx,
    {
        let start = self.pos();
        let mut digits: Vec<char> = Vec::new();
        while self.idx < self.chars.len() && is_digit_exec(self.chars[self.idx])
            invariant
                self.inv(),
                self.chars == old(self).chars,
                self.idx >= old(self).idx,
                digits@.len() == self.idx - old(self).idx,
                all_digits(digits@),
                self.tokens == old(self).tokens,
                start == old(self).cur(),
                pos_le(start, self.cur()),
            decreases self.chars@.len() - self.idx,
        {
            let c = self.bump();
            digits.push(c);
        }
        let text = string_of(&digits);
        let span = Span::new(start, self.pos());
        if parse_i64_digits(&digits).is_none() {
            let mut message = owned("integer literal '");
            push_str(&mut message, text.as_str());
            push_str(&mut message, "' is out of range for 64-bit integers");
            self.error(error::INT_OUT_OF_RANGE, message, span, FixHint::direction(owned("Use a smaller integer value")));
        }
        self.push(TokenKind::Int, text, start);
    }

    fn string(&mut self)
        requires
            old(self).inv(),
            old(self).idx < old(self).chars@.len(),
        ensures
            final(self).inv(),
            final(self).chars == old(self).chars,
            final(self).idx > old(self).idx,
    {
        let start = self.pos();
        self.bump();
        let mut value = String::new();
        loop
            invariant
                self.inv(),
                self.chars == old(self).chars,
                self.idx > old(self).idx,
                self.tokens == old(self).tokens,
                start == old(self).cur(),
                pos_le(start, self.cur()),
            decreases self.chars@.len() - self.idx,
        {
            match self.peek() {
                None => {
                    self.unterminated(start);
                    break;
                }
                Some(c) => {
                    if c == '\n' {
                        self.unterminated(start);
                        break;
                    } else if c == '"' {
                        self.bump();
                        break;
                    } else if c == '\\' {
                        let esc_start = self.pos();
                        self.bump();
                        match self.peek() {
                            Some(e) => {
                                if e == 'n' {
                                    self.bump();
                                    push_char(&mut value, '\n');
                                } else if e == 't' {
                                    self.bump();
                                    push_char(&mut value, '\t');
                                } else if e == 'r' {
                                    self.bump();
                                    push_char(&mut value, '\r');
                                } else if e == '\\' {
                                    self.bump();
                                    push_char(&mut value, '\\');
                                } else if e == '"' {
                                    self.bump();
                                    push_char(&mut value, '"');
                                } else if e != '\n' {
                                    self.bump();
                                    let span = Span::new(esc_start, self.pos());
                                    let mut message = owned("invalid escape sequence '\\");
                                    push_char(&mut message, e);
                                    push_str(&mut message, "'");
                                    let mut replacement = owned("\\\\");
                                    push_char(&mut replacement, e);
                                    self.error(error::INVALID_ESCAPE, message, span,
                                        FixHint::replace(owned("Escape the backslash itself"), span, replacement));
                                    push_char(&mut value, e);
                                }
                                // A backslash right before the end of the line is left
                                // to the unterminated-string handling.
                            },
                            None => {},
                        }
                    } else {
                        self.bump();
                        push_char(&mut value, c);
                    }
                },
            }
        }
        self.push(TokenKind::Str, value, start);
    }

    fn unterminated(&mut self, start: Position)
        requires
            old(self).inv(),
        ensures
            final(self).inv(),
            final(self).chars == old(self).chars,
            final(self).idx == old(self).idx,
            final(self).tokens == old(self).tokens,
            final(self).cur() == old(self).cur(),
    {
        let here = self.pos();
        self.error(error::UNTERMINATED_STRING, owned("unterminated string literal"), Span::new(start, here),
            FixHint::replace(owned("Insert a closing '\"'"), Span::point(here), owned("\"")));
    }

    fn punct(&mut self)
        requires
            old(self).inv(),
            old(self).idx < old(self).chars@.len(),
        ensures
            final(self).inv(),
            final(self).chars == old(self).chars,
            final(self).idx > old(self).idx,
    {
        let start = self.pos();
        let c = self.bump();
        let next = self.peek();
        let kind = if c == '-' && next == Some('>') {
            self.bump();
            TokenKind::Arrow
        } else if c == '=' && next == Some('=') {
            self.bump();
            TokenKind::EqEq
        } else if c == '=' && next == Some('>') {
            self.bump();
            TokenKind::FatArrow
        } else if c == '!' && next == Some('=') {
            self.bump();
            TokenKind::NotEq
        } else if c == '<' && next == Some('=') {
            self.bump();
            TokenKind::Le
        } else if c == '>' && next == Some('=') {
            self.bump();
            TokenKind::Ge
        } else if c == '|' && next == Some('|') {
            self.bump();
            TokenKind::OrOr
        } else if c == '(' { TokenKind::LParen }
        else if c == ')' { TokenKind::RParen }
        else if c == '{' { TokenKind::LBrace }
        else if c == '}' { TokenKind::RBrace }
        else if c == '[' { TokenKind::LBracket }
        else if c == ']' { TokenKind::RBracket }
        else if c == ',' { TokenKind::Comma }
        else if c == ':' { TokenKind::Colon }
        else if c == '.' { TokenKind::Dot }
        else if c == '=' { TokenKind::Eq }
        else if c == '<' { TokenKind::Lt }
        else if c == '>' { TokenKind::Gt }
        else if c == '+' { TokenKind::Plus }
        else if c == '-' { TokenKind::Minus }
        else if c == '*' { TokenKind::Star }
        else if c == '/' { TokenKind::Slash }
        else if c == '%' { TokenKind::Percent }
        else if c == '!' { TokenKind::Bang }
        else {
            let span = Span::new(start, self.pos());
            let mut message = owned("unexpected character '");
            push_char(&mut message, c);
            push_str(&mut message, "'");
            self.error(error::UNEXPECTED_CHAR, message, span, FixHint::replace(owned("Remove this character"), span, String::new()));
            return;
        };
        match kind.literal() {
            Some(t) => {
                let text = owned(t);
                self.push(kind, text, start);
            },
            None => {},
        }
    }
}

} // verus!
