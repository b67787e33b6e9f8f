//! Seed files: hand-written inputs for contract-based tests. A seed file
//! supplies inputs only: its grammar has no way to state an expected value
//! (`expected`, `output`, `result`, `returns` are refused), because the
//! oracle is the contract. Each seed is checked against the target
//! function: its names and types (`KEI-E4007`), its `requires`
//! (`KEI-E4007`), then the `ensures` on the function's result (`KEI-E4005`
//! for a counterexample). Grammar errors are `KEI-E4006`.
//!
//! ```text
//! seeds for <fn> {
//!   input { <field>: <literal>, ... }
//! }
//! ```
use vstd::prelude::*;
use crate::ast::{self, Item, Module};
use crate::check::{sort_by_start, sorted_by_start};
use crate::checkenv::reported_in;
use crate::contracts::direction;
use crate::diagnostic::{has_fix, Diagnostic, Fix, Position, Severity, Span};
use crate::eval::{eval_body, eval_bool, find_func, lookup, Value, TOP_FUEL};
use crate::lexer::{all_digits, digits_value, is_digit};
use crate::notation::contract_expr_text;
use crate::table::{find_key, has_key, keys_unique, table_insert};
use crate::text::{cat3, cat5, chars_of, owned, push_char, push_str, str_eq};

verus! {

broadcast use vstd::string::group_string_axioms;

/// Whether `c` has the Unicode `White_Space` property (what
/// `char::is_whitespace` tests).
pub open spec fn is_white_space(c: char) -> bool {
    ('\u{9}' <= c && c <= '\u{d}') || c == ' ' || c == '\u{85}' || c == '\u{a0}' || c == '\u{1680}'
        || ('\u{2000}' <= c && c <= '\u{200a}') || c == '\u{2028}' || c == '\u{2029}' || c == '\u{202f}'
        || c == '\u{205f}' || c == '\u{3000}'
}

pub(crate) fn white_space(c: char) -> (r: bool)
    ensures
        r == is_white_space(c),
{
    ('\u{9}' <= c && c <= '\u{d}') || c == ' ' || c == '\u{85}' || c == '\u{a0}' || c == '\u{1680}'
        || ('\u{2000}' <= c && c <= '\u{200a}') || c == '\u{2028}' || c == '\u{2029}' || c == '\u{202f}'
        || c == '\u{205f}' || c == '\u{3000}'
}

/// Whether `c` has the Unicode `Alphabetic` property.
pub uninterp spec fn unicode_alphabetic(c: char) -> bool;

/// Whether `c` is Unicode alphabetic or numeric.
pub uninterp spec fn unicode_alphanumeric(c: char) -> bool;

/// `char::is_alphabetic`: whether `c` has the Unicode `Alphabetic`
/// property; the contract names the answer without restating the tables.
#[verifier::external_body]
fn is_alphabetic(c: char) -> (r: bool)
    ensures
        r == unicode_alphabetic(c),
{
    c.is_alphabetic()
}

/// `char::is_alphanumeric`: `Alphabetic` or `Numeric` (so every alphabetic
/// character is alphanumeric); the contract names the answer without
/// restating the tables.
#[verifier::external_body]
fn is_alphanumeric(c: char) -> (r: bool)
    ensures
        r == unicode_alphanumeric(c),
        unicode_alphabetic(c) ==> r,
{
    c.is_alphanumeric()
}

/// A seed-file token kind.
#[derive(Debug, PartialEq, Eq)]
pub enum SeedTok {
    Ident(String),
    Int(i64),
    Str(String),
    LBrace,
    RBrace,
    Colon,
    Comma,
    Eof,
}

/// Whether two tokens are the same punctuation (or both the end).
pub open spec fn same_punct(a: SeedTok, b: SeedTok) -> bool {
    ||| a is LBrace && b is LBrace
    ||| a is RBrace && b is RBrace
    ||| a is Colon && b is Colon
    ||| a is Comma && b is Comma
    ||| a is Eof && b is Eof
}

/// The value a literal token stands for: an integer, a string, `true` or
/// `false`.
pub open spec fn literal_value(k: SeedTok) -> Option<Value> {
    match k {
        SeedTok::Int(n) => Some(Value::Int(n)),
        SeedTok::Str(s) => Some(Value::Str(s)),
        SeedTok::Ident(id) => if id@ == "true"@ {
            Some(Value::Bool(true))
        } else if id@ == "false"@ {
            Some(Value::Bool(false))
        } else {
            None
        },
        _ => None,
    }
}

/// A token with its 1-based position and its length in characters.
pub struct SeedToken {
    pub kind: SeedTok,
    pub line: u32,
    pub col: u32,
    pub len: u32,
}

/// The largest seed file handled, in characters: positions fit in `u32`.
pub open spec fn max_seed_len() -> nat {
    0x7fff_0000
}

/// The integer a seed literal denotes: the signed decimal number, or 0 when
/// there are no digits or it does not fit in an `i64`.
pub open spec fn seed_int(neg: bool, digits: Seq<char>) -> int {
    let v = digits_value(digits);
    if digits.len() == 0 {
        0
    } else if neg {
        if v <= 0x8000_0000_0000_0000 { -v } else { 0 }
    } else {
        if v <= i64::MAX { v as int } else { 0 }
    }
}

fn parse_seed_int(neg: bool, digits: &Vec<char>) -> (r: i64)
    requires
        all_digits(digits@),
    ensures
        r as int == seed_int(neg, digits@),
{
    if digits.len() == 0 {
        return 0;
    }
    let mut v: u64 = 0;
    let mut i: usize = 0;
    while i < digits.len()
        invariant
            i <= digits@.len(),
            all_digits(digits@),
            v as int == digits_value(digits@.take(i as int)),
        decreases digits@.len() - i,
    {
        assert(digits@.take(i + 1).drop_last() =~= digits@.take(i as int));
        assert(is_digit(digits@[i as int]));
        let d = (digits[i] as u32 - '0' as u32) as u64;
        if v > (u64::MAX - d) / 10 {
            proof { crate::lexer::lemma_digits_value_prefix_monotone(digits@, i + 1); }
            return 0;
        }
        v = v * 10 + d;
        i = i + 1;
    }
    assert(digits@.take(digits@.len() as int) =~= digits@);
    if neg {
        if v <= 0x8000_0000_0000_0000u64 {
            if v == 0x8000_0000_0000_0000u64 {
                i64::MIN
            } else {
                -(v as i64)
            }
        } else {
            0
        }
    } else if v <= i64::MAX as u64 {
        v as i64
    } else {
        0
    }
}

/// A seed token as the contracts see it: its kind, with the text or value
/// it carries, its 1-based line and column, and its length in characters.
pub enum SeedLexeme {
    Ident(Seq<char>),
    Int(int),
    Str(Seq<char>),
    LBrace,
    RBrace,
    Colon,
    Comma,
    Eof,
}

pub struct SeedLex {
    pub kind: SeedLexeme,
    pub line: nat,
    pub col: nat,
    pub len: nat,
}

pub open spec fn seed_tok_view(t: SeedToken) -> SeedLex {
    SeedLex {
        kind: match t.kind {
            SeedTok::Ident(s) => SeedLexeme::Ident(s@),
            SeedTok::Int(v) => SeedLexeme::Int(v as int),
            SeedTok::Str(s) => SeedLexeme::Str(s@),
            SeedTok::LBrace => SeedLexeme::LBrace,
            SeedTok::RBrace => SeedLexeme::RBrace,
            SeedTok::Colon => SeedLexeme::Colon,
            SeedTok::Comma => SeedLexeme::Comma,
            SeedTok::Eof => SeedLexeme::Eof,
        },
        line: t.line as nat,
        col: t.col as nat,
        len: t.len as nat,
    }
}

pub open spec fn seed_toks_view(ts: Seq<SeedToken>) -> Seq<SeedLex> {
    ts.map_values(|t: SeedToken| seed_tok_view(t))
}

/// How many characters from `k` on stay on the line (a comment's extent).
pub open spec fn comment_run(s: Seq<char>, k: int) -> nat
    decreases s.len() - k,
{
    if k < 0 || k >= s.len() || s[k] == '\n' { 0 } else { 1 + comment_run(s, k + 1) }
}

/// How many decimal digits follow from `k` on.
pub open spec fn digit_run(s: Seq<char>, k: int) -> nat
    decreases s.len() - k,
{
    if k < 0 || k >= s.len() || !is_digit(s[k]) { 0 } else { 1 + digit_run(s, k + 1) }
}

/// Whether `c` continues a seed identifier.
pub open spec fn seed_ident_char(c: char) -> bool {
    unicode_alphanumeric(c) || c == '_'
}

/// How many identifier characters follow from `k` on.
pub open spec fn ident_run(s: Seq<char>, k: int) -> nat
    decreases s.len() - k,
{
    if k < 0 || k >= s.len() || !seed_ident_char(s[k]) { 0 } else { 1 + ident_run(s, k + 1) }
}

/// The character an escape `\c` stands for in a seed string.
pub open spec fn seed_unescape(c: char) -> char {
    if c == 'n' { '\n' } else if c == 't' { '\t' } else { c }
}

/// The body of a string literal from `k` on: how many characters it spans
/// up to its closing quote (or the end of the text), and the characters it
/// denotes. A backslash takes the next character with it.
pub open spec fn str_body(s: Seq<char>, k: int) -> (nat, Seq<char>)
    decreases s.len() - k,
{
    if k < 0 || k >= s.len() || s[k] == '"' {
        (0, Seq::empty())
    } else if s[k] == '\\' && k + 1 < s.len() {
        let r = str_body(s, k + 2);
        (r.0 + 2, seq![seed_unescape(s[k + 1])] + r.1)
    } else {
        let r = str_body(s, k + 1);
        (r.0 + 1, seq![s[k]] + r.1)
    }
}

/// `k`, or the end of the text when `k` lies past it.
pub open spec fn upto(k: int, n: int) -> int {
    if k < n { k } else { n }
}

/// The one-character token of `c`, when `c` is one.
pub open spec fn seed_punct(c: char) -> Option<SeedLexeme> {
    if c == '{' {
        Some(SeedLexeme::LBrace)
    } else if c == '}' {
        Some(SeedLexeme::RBrace)
    } else if c == ':' {
        Some(SeedLexeme::Colon)
    } else if c == ',' {
        Some(SeedLexeme::Comma)
    } else {
        None
    }
}

/// The tokens of `s` from index `i` on, the reader standing at `line` and
/// `col`: white space moves the position (a line break starts the next
/// line), `#` skips to the end of the line, an unknown character is
/// skipped, and `Eof` closes the sequence where the text ends.
pub open spec fn seed_lex_from(s: Seq<char>, i: int, line: nat, col: nat) -> Seq<SeedLex>
    decreases s.len() - i,
{
    if i < 0 || i >= s.len() {
        seq![SeedLex { kind: SeedLexeme::Eof, line, col, len: 0 }]
    } else {
        let c = s[i];
        let n = s.len() as int;
        if c == '\n' {
            seed_lex_from(s, i + 1, line + 1, 1)
        } else if is_white_space(c) {
            seed_lex_from(s, i + 1, line, col + 1)
        } else if c == '#' {
            let m = comment_run(s, i + 1);
            seed_lex_from(s, upto(i + 1 + m, n), line, col + 1 + m)
        } else if seed_punct(c) is Some {
            seq![SeedLex { kind: seed_punct(c)->0, line, col, len: 1 }] + seed_lex_from(s, i + 1, line, col + 1)
        } else if c == '"' {
            let b = str_body(s, i + 1);
            seq![SeedLex { kind: SeedLexeme::Str(b.1), line, col, len: b.0 + 2 }]
                + seed_lex_from(s, upto(i + 2 + b.0, n), line, col + b.0 + 2)
        } else if c == '-' || is_digit(c) {
            let m = digit_run(s, i + 1);
            let digits = if c == '-' { s.subrange(i + 1, i + 1 + m) } else { s.subrange(i, i + 1 + m) };
            seq![SeedLex { kind: SeedLexeme::Int(seed_int(c == '-', digits)), line, col, len: m + 1 }]
                + seed_lex_from(s, upto(i + 1 + m, n), line, col + m + 1)
        } else if unicode_alphabetic(c) || c == '_' {
            let m = ident_run(s, i + 1);
            seq![SeedLex { kind: SeedLexeme::Ident(s.subrange(i, i + 1 + m)), line, col, len: m + 1 }]
                + seed_lex_from(s, upto(i + 1 + m, n), line, col + m + 1)
        } else {
            seed_lex_from(s, i + 1, line, col + 1)
        }
    }
}

/// The tokens of a seed file.
pub open spec fn seed_lex(s: Seq<char>) -> Seq<SeedLex> {
    seed_lex_from(s, 0, 1, 1)
}

proof fn lemma_comment_run_bound(s: Seq<char>, k: int)
    requires
        0 <= k <= s.len(),
    ensures
        k + comment_run(s, k) <= s.len(),
    decreases s.len() - k,
{
    if k < s.len() && s[k] != '\n' {
        lemma_comment_run_bound(s, k + 1);
    }
}

proof fn lemma_digit_run_bound(s: Seq<char>, k: int)
    requires
        0 <= k <= s.len(),
    ensures
        k + digit_run(s, k) <= s.len(),
    decreases s.len() - k,
{
    if k < s.len() && is_digit(s[k]) {
        lemma_digit_run_bound(s, k + 1);
    }
}

proof fn lemma_ident_run_bound(s: Seq<char>, k: int)
    requires
        0 <= k <= s.len(),
    ensures
        k + ident_run(s, k) <= s.len(),
    decreases s.len() - k,
{
    if k < s.len() && seed_ident_char(s[k]) {
        lemma_ident_run_bound(s, k + 1);
    }
}

proof fn lemma_lex_at_end(s: Seq<char>, i: int, j: int, line: nat, col: nat)
    requires
        i >= s.len(),
        j >= s.len(),
    ensures
        seed_lex_from(s, i, line, col) == seed_lex_from(s, j, line, col),
{
}

/// The position bounds a seed scan keeps: columns and lines never run ahead
/// of the index, so they fit in `u32`.
spec fn scan_bounds(n: int, i: int, line: u32, col: u32) -> bool {
    &&& n < max_seed_len()
    &&& 1 <= col
    &&& col as int <= i + 1
    &&& line as int <= i + 1
}

/// A `#` comment: skips to the end of the line.
fn scan_comment(chars: &Vec<char>, i0: usize, line: u32, col0: u32) -> (r: (usize, u32))
    requires
        i0 < chars@.len(),
        chars@[i0 as int] == '#',
        scan_bounds(chars@.len() as int, i0 as int, line, col0),
    ensures
        i0 < r.0 <= chars@.len(),
        scan_bounds(chars@.len() as int, r.0 as int, line, r.1),
        seed_lex_from(chars@, r.0 as int, line as nat, r.1 as nat) == seed_lex_from(chars@, i0 as int, line as nat, col0 as nat),
{
    let ghost s = chars@;
    let n = chars.len();
    let mut i = i0 + 1;
    let mut col = col0 + 1;
    while i < n && chars[i] != '\n'
        invariant
            n == s.len(),
            s == chars@,
            i0 < i <= n,
            scan_bounds(n as int, i as int, line, col),
            col as int - i == col0 - i0,
            comment_run(s, i0 + 1) == (i - i0 - 1) + comment_run(s, i as int),
        decreases n - i,
    {
        i = i + 1;
        col = col + 1;
    }
    proof {
        lemma_comment_run_bound(s, i0 + 1);
    }
    (i, col)
}

/// A string literal (the reader stands on its opening quote).
fn scan_string(chars: &Vec<char>, i0: usize, line: u32, col0: u32) -> (r: (SeedToken, usize, u32))
    requires
        i0 < chars@.len(),
        chars@[i0 as int] == '"',
        scan_bounds(chars@.len() as int, i0 as int, line, col0),
    ensures
        i0 < r.1 <= chars@.len() + 1,
        scan_bounds(chars@.len() as int, r.1 as int, line, r.2),
        r.0.kind != SeedTok::Eof,
        r.0.col as int + r.0.len as int <= max_seed_len() + 2,
        seq![seed_tok_view(r.0)] + seed_lex_from(chars@, r.1 as int, line as nat, r.2 as nat)
            == seed_lex_from(chars@, i0 as int, line as nat, col0 as nat),
{
    let ghost s = chars@;
    let n = chars.len();
    let mut i = i0 + 1;
    let mut col = col0 + 1;
    let mut st = String::new();
    assert(str_body(s, i0 + 1).1 =~= st@ + str_body(s, i as int).1);
    while i < n && chars[i] != '"'
        invariant
            n == s.len(),
            s == chars@,
            i0 < i <= n,
            scan_bounds(n as int, i as int, line, col),
            col as int - i == col0 - i0,
            str_body(s, i0 + 1).0 == (i - i0 - 1) + str_body(s, i as int).0,
            str_body(s, i0 + 1).1 == st@ + str_body(s, i as int).1,
        decreases n - i,
    {
        let ghost sv = st@;
        let ghost k = i as int;
        if chars[i] == '\\' && i + 1 < n {
            i = i + 1;
            col = col + 1;
            let e = chars[i];
            push_char(&mut st, if e == 'n' { '\n' } else if e == 't' { '\t' } else { e });
            assert(st@ == sv.push(seed_unescape(s[k + 1])));
            assert(sv + str_body(s, k).1 =~= st@ + str_body(s, k + 2).1);
        } else {
            push_char(&mut st, chars[i]);
            assert(sv + str_body(s, k).1 =~= st@ + str_body(s, k + 1).1);
        }
        i = i + 1;
        col = col + 1;
    }
    assert(st@ =~= str_body(s, i0 + 1).1);
    i = i + 1;
    col = col + 1;
    let len = col - col0;
    let t = SeedToken { kind: SeedTok::Str(st), line, col: col0, len };
    proof {
        let m = str_body(s, i0 + 1).0;
        assert(len == m + 2);
        if i > n {
            lemma_lex_at_end(s, i as int, upto(i0 + 2 + m, n as int), line as nat, col as nat);
        }
    }
    (t, i, col)
}

/// An integer literal: an optional `-` and the digits after it.
fn scan_number(chars: &Vec<char>, i0: usize, line: u32, col0: u32) -> (r: (SeedToken, usize, u32))
    requires
        i0 < chars@.len(),
        chars@[i0 as int] == '-' || is_digit(chars@[i0 as int]),
        scan_bounds(chars@.len() as int, i0 as int, line, col0),
    ensures
        i0 < r.1 <= chars@.len(),
        scan_bounds(chars@.len() as int, r.1 as int, line, r.2),
        r.0.kind != SeedTok::Eof,
        r.0.col as int + r.0.len as int <= max_seed_len() + 2,
        seq![seed_tok_view(r.0)] + seed_lex_from(chars@, r.1 as int, line as nat, r.2 as nat)
            == seed_lex_from(chars@, i0 as int, line as nat, col0 as nat),
{
    let ghost s = chars@;
    let n = chars.len();
    let c = chars[i0];
    let neg = c == '-';
    let mut digits: Vec<char> = Vec::new();
    if !neg {
        digits.push(c);
    }
    let mut i = i0 + 1;
    let mut col = col0 + 1;
    let ghost d0: int = if neg { i0 + 1 } else { i0 as int };
    assert(digits@ =~= s.subrange(d0, i as int));
    while i < n && '0' <= chars[i] && chars[i] <= '9'
        invariant
            n == s.len(),
            s == chars@,
            i0 < i <= n,
            scan_bounds(n as int, i as int, line, col),
            col as int - i == col0 - i0,
            d0 == (if neg { i0 + 1 } else { i0 as int }),
            all_digits(digits@),
            digits@ == s.subrange(d0, i as int),
            digit_run(s, i0 + 1) == (i - i0 - 1) + digit_run(s, i as int),
        decreases n - i,
    {
        let ghost before = digits@;
        digits.push(chars[i]);
        assert(digits@ == before.push(chars@[i as int]));
        assert(all_digits(digits@)) by {
            assert forall|k: int| 0 <= k < digits@.len() implies is_digit(#[trigger] digits@[k]) by {
                if k < before.len() {
                    assert(digits@[k] == before[k]);
                }
            }
        }
        assert(digits@ =~= s.subrange(d0, i + 1));
        i = i + 1;
        col = col + 1;
    }
    let value = parse_seed_int(neg, &digits);
    let len = col - col0;
    let t = SeedToken { kind: SeedTok::Int(value), line, col: col0, len };
    proof {
        lemma_digit_run_bound(s, i0 + 1);
    }
    (t, i, col)
}

/// An identifier: a letter or `_`, then letters, digits and `_`.
fn scan_ident(chars: &Vec<char>, i0: usize, line: u32, col0: u32) -> (r: (SeedToken, usize, u32))
    requires
        i0 < chars@.len(),
        unicode_alphabetic(chars@[i0 as int]) || chars@[i0 as int] == '_',
        chars@[i0 as int] != '-' && !is_digit(chars@[i0 as int]),
        chars@[i0 as int] != '"' && chars@[i0 as int] != '#' && chars@[i0 as int] != '\n',
        !is_white_space(chars@[i0 as int]),
        seed_punct(chars@[i0 as int]) is None,
        scan_bounds(chars@.len() as int, i0 as int, line, col0),
    ensures
        i0 < r.1 <= chars@.len(),
        scan_bounds(chars@.len() as int, r.1 as int, line, r.2),
        r.0.kind != SeedTok::Eof,
        r.0.col as int + r.0.len as int <= max_seed_len() + 2,
        seq![seed_tok_view(r.0)] + seed_lex_from(chars@, r.1 as int, line as nat, r.2 as nat)
            == seed_lex_from(chars@, i0 as int, line as nat, col0 as nat),
{
    let ghost s = chars@;
    let n = chars.len();
    let mut id = String::new();
    push_char(&mut id, chars[i0]);
    let mut i = i0 + 1;
    let mut col = col0 + 1;
    assert(id@ =~= s.subrange(i0 as int, i as int));
    while i < n && (is_alphanumeric(chars[i]) || chars[i] == '_')
        invariant
            n == s.len(),
            s == chars@,
            i0 < i <= n,
            scan_bounds(n as int, i as int, line, col),
            col as int - i == col0 - i0,
            id@ == s.subrange(i0 as int, i as int),
            ident_run(s, i0 + 1) == (i - i0 - 1) + ident_run(s, i as int),
        decreases n - i,
    {
        push_char(&mut id, chars[i]);
        assert(id@ =~= s.subrange(i0 as int, i + 1));
        i = i + 1;
        col = col + 1;
    }
    let len = col - col0;
    let t = SeedToken { kind: SeedTok::Ident(id), line, col: col0, len };
    proof {
        lemma_ident_run_bound(s, i0 + 1);
    }
    (t, i, col)
}

/// Tokenizes a seed file. Whitespace separates tokens, `#` starts a line
/// comment, unknown characters are skipped; the last token is `Eof`.
pub fn lex_seeds(src: &str) -> (toks: Vec<SeedToken>)
    requires
        src@.len() < max_seed_len(),
    ensures
        seed_toks_view(toks@) == seed_lex(src@),
        toks@.len() >= 1,
        toks@.last().kind == SeedTok::Eof,
        forall|i: int| 0 <= i < toks@.len() ==> (#[trigger] toks@[i]).col as int + toks@[i].len as int <= max_seed_len() + 2,
        forall|i: int| 0 <= i < toks@.len() - 1 ==> (#[trigger] toks@[i]).kind != SeedTok::Eof,
{
    let chars = chars_of(src);
    let n = chars.len();
    let ghost s = chars@;
    let mut toks: Vec<SeedToken> = Vec::new();
    let mut i: usize = 0;
    let mut line: u32 = 1;
    let mut col: u32 = 1;
    assert(seed_toks_view(toks@) + seed_lex_from(s, 0, 1, 1) =~= seed_lex(s));
    while i < n
        invariant
            n == s.len(),
            s == chars@,
            s == src@,
            i <= n + 1,
            scan_bounds(n as int, i as int, line, col),
            forall|k: int| 0 <= k < toks@.len() ==> (#[trigger] toks@[k]).col as int + toks@[k].len as int <= max_seed_len() + 2,
            forall|k: int| 0 <= k < toks@.len() ==> (#[trigger] toks@[k]).kind != SeedTok::Eof,
            seed_toks_view(toks@) + seed_lex_from(s, i as int, line as nat, col as nat) == seed_lex(s),
        decreases n + 1 - i,
    {
        let c = chars[i];
        let ghost v0 = seed_toks_view(toks@);
        if c == '\n' {
            line = line + 1;
            col = 1;
            i = i + 1;
        } else if white_space(c) {
            col = col + 1;
            i = i + 1;
        } else if c == '#' {
            let (j, k) = scan_comment(&chars, i, line, col);
            i = j;
            col = k;
        } else if c == '{' || c == '}' || c == ':' || c == ',' {
            let kind = if c == '{' {
                SeedTok::LBrace
            } else if c == '}' {
                SeedTok::RBrace
            } else if c == ':' {
                SeedTok::Colon
            } else {
                SeedTok::Comma
            };
            let t = SeedToken { kind, line, col, len: 1 };
            let ghost tail = seed_lex_from(s, i as int, line as nat, col as nat);
            toks.push(t);
            col = col + 1;
            i = i + 1;
            proof {
                assert(seed_toks_view(toks@) =~= v0.push(seed_tok_view(t)));
                assert(seed_toks_view(toks@) + seed_lex_from(s, i as int, line as nat, col as nat) =~= v0 + tail);
            }
        } else if c == '"' || c == '-' || ('0' <= c && c <= '9') || is_alphabetic(c) || c == '_' {
            let ghost tail = seed_lex_from(s, i as int, line as nat, col as nat);
            let (t, j, k) = if c == '"' {
                scan_string(&chars, i, line, col)
            } else if c == '-' || ('0' <= c && c <= '9') {
                scan_number(&chars, i, line, col)
            } else {
                scan_ident(&chars, i, line, col)
            };
            toks.push(t);
            i = j;
            col = k;
            proof {
                assert(seed_toks_view(toks@) =~= v0.push(seed_tok_view(t)));
                assert(seed_toks_view(toks@) + seed_lex_from(s, i as int, line as nat, col as nat) =~= v0 + tail);
            }
        } else {
            col = col + 1;
            i = i + 1;
        }
    }
    let ghost v0 = seed_toks_view(toks@);
    let t = SeedToken { kind: SeedTok::Eof, line, col, len: 0 };
    toks.push(t);
    proof {
        assert(seed_toks_view(toks@) =~= v0.push(seed_tok_view(t)));
        assert(seed_lex_from(s, i as int, line as nat, col as nat) == seq![seed_tok_view(t)]);
        assert(seed_toks_view(toks@) =~= v0 + seed_lex_from(s, i as int, line as nat, col as nat));
    }
    toks
}

/// Whether every diagnostic offers a fix, lies in `file`, and has one of
/// the seed codes (`KEI-E4005`, `KEI-E4006`, `KEI-E4007`).
pub open spec fn seed_reported(ds: Seq<Diagnostic>, file: Seq<char>) -> bool {
    forall|i: int| 0 <= i < ds.len() ==> has_fix(#[trigger] ds[i]) && ds[i].span.file@ == file
        && (ds[i].code@ == "KEI-E4005"@ || ds[i].code@ == "KEI-E4006"@ || ds[i].code@ == "KEI-E4007"@)
}

/// The tokens a seed parser reads: at least one, `Eof` last and only last.
pub open spec fn tokens_wf(toks: Seq<SeedToken>) -> bool {
    &&& toks.len() >= 1
    &&& toks.last().kind == SeedTok::Eof
    &&& forall|i: int| 0 <= i < toks.len() - 1 ==> (#[trigger] toks[i]).kind != SeedTok::Eof
    &&& forall|i: int| 0 <= i < toks.len() ==> (#[trigger] toks[i]).col as int + toks[i].len as int <= max_seed_len() + 2
}

/// One seed: the target function, where it is named, and the inputs.
pub struct Seed {
    pub func: String,
    pub func_line: u32,
    pub func_col: u32,
    pub inputs: Vec<(String, Value)>,
    pub line: u32,
    pub col: u32,
}

/// A diagnostic of a seed file with a directional fix, at `(line, col)`
/// over `len` characters.
fn seed_diag(diags: &mut Vec<Diagnostic>, file: &String, code: &str, message: String, line: u32, col: u32, len: u32, fix: &str)
    requires
        seed_reported(old(diags)@, file@),
        col as int + len as int <= max_seed_len() + 3,
        code@ == "KEI-E4005"@ || code@ == "KEI-E4006"@ || code@ == "KEI-E4007"@,
    ensures
        seed_reported(final(diags)@, file@),
        final(diags)@.len() == old(diags)@.len() + 1,
        final(diags)@.last().code@ == code@,
        forall|i: int| 0 <= i < old(diags)@.len() ==> final(diags)@[i] == old(diags)@[i],
{
    let mut fixes: Vec<Fix> = Vec::new();
    fixes.push(direction(owned(fix)));
    let d = Diagnostic {
        severity: Severity::Error,
        code: owned(code),
        message,
        span: Span { file: file.clone(), start: Position { line, col }, end: Position { line, col: col + len } },
        fixes,
        suggested_contract: None,
    };
    diags.push(d);
}

/// A seed's positions lie within the file's bounds.
pub open spec fn seed_bounded(s: Seed) -> bool {
    s.col as int <= max_seed_len() + 2 && s.func_col as int <= max_seed_len() + 2
}

pub open spec fn seeds_bounded(v: Seq<Seed>) -> bool {
    forall|i: int| 0 <= i < v.len() ==> seed_bounded(#[trigger] v[i])
}

/// A recursive-descent parser over seed tokens.
struct SeedParser {
    toks: Vec<SeedToken>,
    pos: usize,
    file: String,
    diags: Vec<Diagnostic>,
}

impl SeedParser {
    spec fn wf(&self) -> bool {
        &&& tokens_wf(self.toks@)
        &&& self.pos < self.toks@.len()
        &&& seed_reported(self.diags@, self.file@)
    }

    spec fn at_eof(&self) -> bool {
        self.toks@[self.pos as int].kind == SeedTok::Eof
    }

    /// The fields that never change while parsing.
    spec fn same_input(&self, other: &SeedParser) -> bool {
        self.toks@ == other.toks@ && self.file@ == other.file@
    }

    fn kind_is(&self, k: &SeedTok) -> (r: bool)
        requires
            self.wf(),
        ensures
            r == same_punct(self.toks@[self.pos as int].kind, *k),
    {
        match (&self.toks[self.pos].kind, k) {
            (SeedTok::LBrace, SeedTok::LBrace) => true,
            (SeedTok::RBrace, SeedTok::RBrace) => true,
            (SeedTok::Colon, SeedTok::Colon) => true,
            (SeedTok::Comma, SeedTok::Comma) => true,
            (SeedTok::Eof, SeedTok::Eof) => true,
            _ => false,
        }
    }

    fn ident_is(&self, word: &str) -> (r: bool)
        requires
            self.wf(),
        ensures
            r ==> self.toks@[self.pos as int].kind is Ident,
    {
        match &self.toks[self.pos].kind {
            SeedTok::Ident(id) => str_eq(id.as_str(), word),
            _ => false,
        }
    }

    /// Moves past the current token (never past `Eof`).
    fn bump(&mut self)
        requires
            old(self).wf(),
        ensures
            final(self).wf(),
            final(self).same_input(&*old(self)),
            final(self).diags@ == old(self).diags@,
            !old(self).at_eof() ==> final(self).pos == old(self).pos + 1,
            old(self).at_eof() ==> final(self).pos == old(self).pos,
    {
        if self.pos < self.toks.len() - 1 {
            self.pos = self.pos + 1;
        }
    }

    /// Reports a grammar error (`KEI-E4006`) at the current token.
    fn err_here(&mut self, message: String, len_one: bool, fix: &str)
        requires
            old(self).wf(),
        ensures
            final(self).wf(),
            final(self).same_input(&*old(self)),
            final(self).pos == old(self).pos,
            final(self).diags@.len() == old(self).diags@.len() + 1,
    {
        let t = &self.toks[self.pos];
        let len = if len_one && t.len >= 1 { 1 } else { t.len };
        let (line, col) = (t.line, t.col);
        seed_diag(&mut self.diags, &self.file, "KEI-E4006", message, line, col, len, fix);
    }

    /// The seeds of the file; parsing stops at the first error it cannot
    /// recover from.
    fn parse(&mut self) -> (seeds: Vec<Seed>)
        requires
            old(self).wf(),
        ensures
            final(self).wf(),
            final(self).same_input(&*old(self)),
            seeds_bounded(seeds@),
    {
        let mut seeds: Vec<Seed> = Vec::new();
        loop
            invariant
                self.wf(),
                self.same_input(&*old(self)),
                seeds_bounded(seeds@),
            decreases self.toks@.len() - self.pos,
        {
            if self.kind_is(&SeedTok::Eof) {
                break;
            }
            if self.ident_is("seeds") {
                let p0 = self.pos;
                match self.parse_block() {
                    Some(mut block) => {
                        let ghost s0 = seeds@;
                        let ghost b0 = block@;
                        seeds.append(&mut block);
                        assert(seeds@ == s0 + b0);
                        assert forall|i: int| 0 <= i < seeds@.len() implies seed_bounded(#[trigger] seeds@[i]) by {
                            if i < s0.len() {
                                assert(seeds@[i] == s0[i]);
                            } else {
                                assert(seeds@[i] == b0[i - s0.len()]);
                            }
                        }
                    },
                    None => {
                        break;
                    },
                }
                if self.pos <= p0 {
                    break;
                }
            } else {
                self.err_here(owned("expected 'seeds for <fn> { ... }'"), false, "Start a seed block with 'seeds for <fn>'");
                break;
            }
        }
        seeds
    }

    fn parse_block(&mut self) -> (r: Option<Vec<Seed>>)
        requires
            old(self).wf(),
        ensures
            final(self).wf(),
            final(self).same_input(&*old(self)),
            final(self).pos >= old(self).pos,
            r matches Some(v) ==> seeds_bounded(v@),
            r is None ==> final(self).diags@.len() > old(self).diags@.len(),
    {
        self.bump();
        if self.ident_is("for") {
            self.bump();
        } else {
            self.err_here(owned("expected 'for' after 'seeds'"), false, "Write 'seeds for <fn>'");
            return None;
        }
        let (func, fline, fcol) = match &self.toks[self.pos].kind {
            SeedTok::Ident(id) => (id.clone(), self.toks[self.pos].line, self.toks[self.pos].col),
            _ => {
                self.err_here(owned("expected a function name"), false, "Name the function the seeds target");
                return None;
            },
        };
        proof {
            assert(self.toks@[self.pos as int].col as int + self.toks@[self.pos as int].len as int <= max_seed_len() + 2);
        }
        self.bump();
        if !self.expect(SeedTok::LBrace, "expected '{'", "Open a block with '{'") {
            return None;
        }
        let mut seeds: Vec<Seed> = Vec::new();
        loop
            invariant
                self.wf(),
                self.same_input(&*old(self)),
                self.pos >= old(self).pos,
                fcol as int <= max_seed_len() + 2,
                seeds_bounded(seeds@),
            decreases self.toks@.len() - self.pos,
        {
            if self.kind_is(&SeedTok::RBrace) {
                self.bump();
                break;
            }
            if self.kind_is(&SeedTok::Eof) {
                self.err_here(owned("unclosed seed block; expected '}'"), false, "Close the seed block with '}'");
                break;
            }
            if self.ident_is("input") {
                let p0 = self.pos;
                match self.parse_input(&func, fline, fcol) {
                    Some(seed) => seeds.push(seed),
                    None => {
                        return Some(seeds);
                    },
                }
                if self.pos <= p0 {
                    return Some(seeds);
                }
                continue;
            }
            match &self.toks[self.pos].kind {
                SeedTok::Ident(bad) => {
                    let b = bad.as_str();
                    let msg = if str_eq(b, "expected") || str_eq(b, "output") || str_eq(b, "result") || str_eq(b, "returns") {
                        cat3("'", b, "' is not allowed: seed files supply inputs only — the oracle is the contract (ensures), never the seed")
                    } else {
                        cat3("expected 'input { ... }', found '", b, "'")
                    };
                    self.err_here(msg, false, "Provide only 'input { ... }' cases");
                    return Some(seeds);
                },
                _ => {
                    self.err_here(owned("expected 'input { ... }' or '}'"), false, "Provide 'input { ... }' cases");
                    return Some(seeds);
                },
            }
        }
        Some(seeds)
    }

    /// Requires a brace or colon; reports `message` when it is missing.
    fn expect(&mut self, k: SeedTok, message: &str, fix: &str) -> (ok: bool)
        requires
            old(self).wf(),
        ensures
            final(self).wf(),
            final(self).same_input(&*old(self)),
            final(self).pos >= old(self).pos,
            ok ==> final(self).diags@ == old(self).diags@,
            !ok ==> final(self).diags@.len() == old(self).diags@.len() + 1,
    {
        if self.kind_is(&k) {
            self.bump();
            true
        } else {
            self.err_here(owned(message), false, fix);
            false
        }
    }

    fn parse_input(&mut self, func: &String, fline: u32, fcol: u32) -> (r: Option<Seed>)
        requires
            old(self).wf(),
            fcol as int <= max_seed_len() + 2,
        ensures
            final(self).wf(),
            final(self).same_input(&*old(self)),
            final(self).pos >= old(self).pos,
            r matches Some(s) ==> seed_bounded(s),
            r is None ==> final(self).diags@.len() > old(self).diags@.len(),
    {
        let line = self.toks[self.pos].line;
        let col = self.toks[self.pos].col;
        proof {
            assert(self.toks@[self.pos as int].col as int + self.toks@[self.pos as int].len as int <= max_seed_len() + 2);
        }
        self.bump();
        if !self.expect(SeedTok::LBrace, "expected '{'", "Open a block with '{'") {
            return None;
        }
        let mut inputs: Vec<(String, Value)> = Vec::new();
        loop
            invariant
                self.wf(),
                self.same_input(&*old(self)),
                self.pos >= old(self).pos,
                self.diags@.len() >= old(self).diags@.len(),
            decreases self.toks@.len() - self.pos,
        {
            if self.kind_is(&SeedTok::RBrace) {
                self.bump();
                break;
            }
            if self.kind_is(&SeedTok::Eof) {
                self.err_here(owned("unclosed 'input'; expected '}'"), true, "Close 'input' with '}'");
                return None;
            }
            let field = match &self.toks[self.pos].kind {
                SeedTok::Ident(f) => f.clone(),
                _ => {
                    self.err_here(owned("expected a field name or '}'"), false, "Write '<field>: <value>'");
                    return None;
                },
            };
            let p0 = self.pos;
            self.bump();
            if !self.expect(SeedTok::Colon, "expected ':' after the field name", "Write '<field>: <value>'") {
                return None;
            }
            let value = match self.parse_literal() {
                Some(v) => v,
                None => {
                    return None;
                },
            };
            inputs.push((field, value));
            if self.kind_is(&SeedTok::Comma) {
                self.bump();
            }
            if self.pos <= p0 {
                return None;
            }
        }
        Some(Seed { func: func.clone(), func_line: fline, func_col: fcol, inputs, line, col })
    }

    fn parse_literal(&mut self) -> (r: Option<Value>)
        requires
            old(self).wf(),
        ensures
            final(self).wf(),
            final(self).same_input(&*old(self)),
            final(self).pos >= old(self).pos,
            r == literal_value(old(self).toks@[old(self).pos as int].kind),
            r is Some ==> final(self).diags@ == old(self).diags@,
            r is Some && !old(self).at_eof() ==> final(self).pos == old(self).pos + 1,
            r is None ==> final(self).pos == old(self).pos,
            r is None ==> final(self).diags@.len() == old(self).diags@.len() + 1,
    {
        let v = match &self.toks[self.pos].kind {
            SeedTok::Int(n) => Some(Value::Int(*n)),
            SeedTok::Str(s) => Some(Value::Str(s.clone())),
            SeedTok::Ident(id) => {
                if str_eq(id.as_str(), "true") {
                    Some(Value::Bool(true))
                } else if str_eq(id.as_str(), "false") {
                    Some(Value::Bool(false))
                } else {
                    None
                }
            },
            _ => None,
        };
        match v {
            Some(x) => {
                self.bump();
                Some(x)
            },
            None => {
                self.err_here(owned("expected an Int, String, or Bool literal"), false, "Use a literal value (no expressions)");
                None
            },
        }
    }
}

/// Whether a seed value fits a declared parameter type (types with a
/// dotted path are not judged).
pub open spec fn value_fits(v: Value, t: ast::Type) -> bool {
    if t.path@.len() != 1 {
        true
    } else {
        match v {
            Value::Int(_) => t.path@[0].name@ == "Int"@,
            Value::Bool(_) => t.path@[0].name@ == "Bool"@,
            Value::Str(_) => t.path@[0].name@ == "String"@,
            _ => false,
        }
    }
}

/// Whether a seed value fits a declared parameter type (types with a
/// dotted path are not judged).
fn value_matches_type(v: &Value, t: &ast::Type) -> (r: bool)
    ensures
        r == value_fits(*v, *t),
{
    if t.path.len() != 1 {
        return true;
    }
    let n = t.path[0].name.as_str();
    match v {
        Value::Int(_) => str_eq(n, "Int"),
        Value::Bool(_) => str_eq(n, "Bool"),
        Value::Str(_) => str_eq(n, "String"),
        _ => false,
    }
}

/// Each input as `name = value`.
pub open spec fn input_texts(inputs: Seq<(String, Value)>) -> Seq<Seq<char>> {
    inputs.map_values(|p: (String, Value)| p.0@ + " = "@ + crate::eval::value_text(p.1))
}

fn seed_inputs_text(seed: &Seed) -> (r: String)
    ensures
        r@ == crate::text::joined_with(input_texts(seed.inputs@), ", "@),
{
    let mut s = String::new();
    let mut i: usize = 0;
    while i < seed.inputs.len()
        invariant
            i <= seed.inputs@.len(),
            s@ == crate::text::joined_with(input_texts(seed.inputs@).take(i as int), ", "@),
        decreases seed.inputs@.len() - i,
    {
        proof {
            let it = seed.inputs@[i as int].0@ + " = "@ + crate::eval::value_text(seed.inputs@[i as int].1);
            assert(input_texts(seed.inputs@).take(i + 1) =~= input_texts(seed.inputs@).take(i as int).push(it));
            crate::text::lemma_joined_push(input_texts(seed.inputs@).take(i as int), it, ", "@);
        }
        let ghost s0 = s@;
        if i > 0 {
            push_str(&mut s, ", ");
        }
        push_str(&mut s, seed.inputs[i].0.as_str());
        push_str(&mut s, " = ");
        seed.inputs[i].1.push_text(&mut s);
        proof {
            let it = seed.inputs@[i as int].0@ + " = "@ + crate::eval::value_text(seed.inputs@[i as int].1);
            if i > 0 {
                assert(s@ =~= s0 + ", "@ + it);
            } else {
                assert(s@ =~= s0 + it);
            }
        }
        i = i + 1;
    }
    proof { assert(input_texts(seed.inputs@).take(seed.inputs@.len() as int) =~= input_texts(seed.inputs@)); }
    s
}

/// The first parameter named `x` from position `p` on.
pub open spec fn first_param_from(params: Seq<ast::Param>, x: Seq<char>, p: int) -> Option<int>
    decreases params.len() - p,
{
    if p < 0 || p >= params.len() {
        None
    } else if params[p].name.name@ == x {
        Some(p)
    } else {
        first_param_from(params, x, p + 1)
    }
}

/// Whether a seed input does not fit the function: it names no parameter,
/// or its value does not fit the first parameter of that name.
pub open spec fn input_misfit(input: (String, Value), params: Seq<ast::Param>) -> bool {
    match first_param_from(params, input.0@, 0) {
        None => true,
        Some(p) => !value_fits(input.1, params[p].ty),
    }
}

/// How many of the first `n` seed inputs do not fit the function.
pub open spec fn misfit_count(inputs: Seq<(String, Value)>, params: Seq<ast::Param>, n: nat) -> nat
    decreases n,
{
    if n == 0 || n > inputs.len() {
        0
    } else {
        misfit_count(inputs, params, (n - 1) as nat) + if input_misfit(inputs[n - 1], params) { 1nat } else { 0nat }
    }
}

proof fn lemma_first_param_found(params: Seq<ast::Param>, x: Seq<char>, from: int, p: int)
    requires
        0 <= from <= p < params.len(),
        params[p].name.name@ == x,
    ensures
        first_param_from(params, x, from) is Some,
    decreases p - from,
{
    if params[from].name.name@ != x {
        lemma_first_param_found(params, x, from + 1, p);
    }
}

/// Whether some parameter is given by no seed input.
pub open spec fn input_missing(inputs: Seq<(String, Value)>, params: Seq<ast::Param>) -> bool {
    exists|p: int| 0 <= p < params.len() && !(exists|k: int| 0 <= k < inputs.len() && #[trigger] inputs[k].0@ == (#[trigger] params[p]).name.name@)
}

/// The function item a seed targets, when the last item of its name is one.
pub open spec fn seed_target(seed: Seed, module: Module) -> Option<ast::FuncDecl> {
    match crate::eval::last_func_index(module.items@, seed.func@, module.items@.len()) {
        Some(i) => match module.items@[i] {
            Item::Func(f) => Some(f),
            _ => None,
        },
        None => None,
    }
}

/// Checks one seed against its target function: the function exists, the
/// inputs name its parameters with values of their types, every parameter
/// is given, the `requires` hold; then the `ensures` are checked on the
/// function's result.
#[verifier::loop_isolation(false)]
fn validate_seed(seed: &Seed, module: &Module, file: &String, diags: &mut Vec<Diagnostic>)
    requires
        seed_reported(old(diags)@, file@),
        seed.col as int <= max_seed_len() + 2,
        seed.func_col as int <= max_seed_len() + 2,
    ensures
        seed_reported(final(diags)@, file@),
        crate::eval::last_func_index(module.items@, seed.func@, module.items@.len()) is None ==> {
            &&& final(diags)@.len() == old(diags)@.len() + 1
            &&& final(diags)@.last().code@ == "KEI-E4007"@
        },
        seed_target(*seed, *module) matches Some(f) ==> {
            &&& final(diags)@.len() >= old(diags)@.len() + misfit_count(seed.inputs@, f.params@, seed.inputs@.len())
            &&& input_missing(seed.inputs@, f.params@) ==> {
                &&& final(diags)@.len() == old(diags)@.len() + misfit_count(seed.inputs@, f.params@, seed.inputs@.len()) + 1
                &&& final(diags)@.last().code@ == "KEI-E4007"@
            }
        },
{
    let f = match find_func(module, seed.func.as_str()) {
        Some(i) => match &module.items[i] {
            Item::Func(f) => f,
            _ => {
                return;
            },
        },
        None => {
            seed_diag(diags, file, "KEI-E4007", cat3("seeds target unknown function '", seed.func.as_str(), "'"),
                seed.func_line, seed.func_col, 1, "Reference a function defined in the module");
            return;
        },
    };
    let mut env: Vec<(String, Value)> = Vec::new();
    let mut k: usize = 0;
    while k < seed.inputs.len()
        invariant
            seed_reported(diags@, file@),
            keys_unique(env@),
            k <= seed.inputs@.len(),
            diags@.len() == old(diags)@.len() + misfit_count(seed.inputs@, f.params@, k as nat),
            forall|x: Seq<char>| has_key(env@, x) <==>
                (exists|k2: int| 0 <= k2 < k && #[trigger] seed.inputs@[k2].0@ == x && first_param_from(f.params@, x, 0) is Some),
        decreases seed.inputs@.len() - k,
    {
        let name = seed.inputs[k].0.as_str();
        let mut found: Option<usize> = None;
        let mut p: usize = 0;
        while p < f.params.len()
            invariant
                p <= f.params@.len(),
                found matches Some(x) ==> x < f.params@.len(),
                found matches Some(x) ==> first_param_from(f.params@, name@, 0) == Some(x as int),
                found is None ==> first_param_from(f.params@, name@, 0) == first_param_from(f.params@, name@, p as int),
            decreases f.params@.len() - p,
        {
            if found.is_none() && str_eq(f.params[p].name.name.as_str(), name) {
                found = Some(p);
            }
            p = p + 1;
        }
        match found {
            Some(p) => {
                if !value_matches_type(&seed.inputs[k].1, &f.params[p].ty) {
                    seed_diag(diags, file, "KEI-E4007", cat5("seed input '", name, "' has the wrong type for '", seed.func.as_str(), "'"),
                        seed.line, seed.col, 1, "Match the parameter's declared type");
                }
                let ghost env0 = env@;
                table_insert(&mut env, seed.inputs[k].0.clone(), seed.inputs[k].1.duplicate());
                proof {
                    assert forall|x: Seq<char>| has_key(env@, x) <==>
                        (exists|k2: int| 0 <= k2 < k + 1 && #[trigger] seed.inputs@[k2].0@ == x && first_param_from(f.params@, x, 0) is Some) by {
                        if x != seed.inputs@[k as int].0@ {
                            if exists|k2: int| 0 <= k2 < k + 1 && #[trigger] seed.inputs@[k2].0@ == x && first_param_from(f.params@, x, 0) is Some {
                                let k2 = choose|k2: int| 0 <= k2 < k + 1 && #[trigger] seed.inputs@[k2].0@ == x && first_param_from(f.params@, x, 0) is Some;
                                assert(k2 < k);
                            }
                        } else {
                            assert(seed.inputs@[k as int].0@ == x);
                        }
                    }
                }
            },
            None => {
                seed_diag(diags, file, "KEI-E4007", cat5("seed input '", name, "' is not a parameter of '", seed.func.as_str(), "'"),
                    seed.line, seed.col, 1, "Use the function's parameter names");
            },
        }
        proof {
            assert(misfit_count(seed.inputs@, f.params@, (k + 1) as nat)
                == misfit_count(seed.inputs@, f.params@, k as nat) + if input_misfit(seed.inputs@[k as int], f.params@) { 1nat } else { 0nat });
            assert forall|x: Seq<char>| has_key(env@, x) <==>
                (exists|k2: int| 0 <= k2 < k + 1 && #[trigger] seed.inputs@[k2].0@ == x && first_param_from(f.params@, x, 0) is Some) by {
                if x == seed.inputs@[k as int].0@ && first_param_from(f.params@, x, 0) is Some {
                    assert(seed.inputs@[k as int].0@ == x);
                }
            }
        }
        k = k + 1;
    }
    let ghost dl = diags@.len();
    let mut p: usize = 0;
    while p < f.params.len()
        invariant
            seed_reported(diags@, file@),
            p <= f.params@.len(),
            diags@.len() == dl,
            forall|p2: int| 0 <= p2 < p ==> has_key(env@, (#[trigger] f.params@[p2]).name.name@),
        decreases f.params@.len() - p,
    {
        proof {
            assert(first_param_from(f.params@, f.params@[p as int].name.name@, 0) is Some) by {
                lemma_first_param_found(f.params@, f.params@[p as int].name.name@, 0, p as int);
            }
        }
        if find_key(&env, f.params[p].name.name.as_str()).is_none() {
            let m = cat5("seed for '", seed.func.as_str(), "' is missing input '", f.params[p].name.name.as_str(), "'");
            seed_diag(diags, file, "KEI-E4007", m, seed.line, seed.col, 1, "Supply every parameter as an input");
            proof {
                assert(!(exists|k2: int| 0 <= k2 < seed.inputs@.len() && #[trigger] seed.inputs@[k2].0@ == f.params@[p as int].name.name@));
                assert(input_missing(seed.inputs@, f.params@));
            }
            return;
        }
        p = p + 1;
    }
    proof {
        assert forall|p2: int| 0 <= p2 < f.params@.len() implies
            (exists|k2: int| 0 <= k2 < seed.inputs@.len() && #[trigger] seed.inputs@[k2].0@ == (#[trigger] f.params@[p2]).name.name@) by {
            assert(has_key(env@, f.params@[p2].name.name@));
        }
        assert(!input_missing(seed.inputs@, f.params@));
    }
    let mut requires_ok = true;
    let mut r: usize = 0;
    while r < f.requires.len()
        invariant
            seed_reported(diags@, file@),
            keys_unique(env@),
            r <= f.requires@.len(),
            diags@.len() >= dl,
        decreases f.requires@.len() - r,
    {
        match eval_bool(&f.requires[r], &env, module, false, TOP_FUEL) {
            Ok(false) => {
                requires_ok = false;
                let mut m = cat3("seed input (", seed_inputs_text(seed).as_str(), ") does not satisfy requires '");
                push_str(&mut m, contract_expr_text(&f.requires[r]).as_str());
                push_str(&mut m, "' of '");
                push_str(&mut m, seed.func.as_str());
                push_str(&mut m, "'");
                seed_diag(diags, file, "KEI-E4007", m, seed.line, seed.col, 1, "Provide an input that satisfies the function's requires");
            },
            _ => {},
        }
        r = r + 1;
    }
    if !requires_ok {
        return;
    }
    let mut args: Vec<Value> = Vec::new();
    let mut p: usize = 0;
    while p < f.params.len()
        invariant
            p <= f.params@.len(),
        decreases f.params@.len() - p,
    {
        args.push(match lookup(&env, f.params[p].name.name.as_str()) {
            Some(v) => v,
            None => Value::Int(0),
        });
        p = p + 1;
    }
    let result = match eval_body(f, &args, module, TOP_FUEL) {
        Ok(v) => v,
        Err(_) => {
            return;
        },
    };
    let mut ens_env: Vec<(String, Value)> = Vec::new();
    let mut k: usize = 0;
    while k < env.len()
        invariant
            keys_unique(ens_env@),
            k <= env@.len(),
        decreases env@.len() - k,
    {
        table_insert(&mut ens_env, env[k].0.clone(), env[k].1.duplicate());
        k = k + 1;
    }
    table_insert(&mut ens_env, owned("result"), result);
    let mut e: usize = 0;
    while e < f.ensures.len()
        invariant
            seed_reported(diags@, file@),
            e <= f.ensures@.len(),
            diags@.len() >= dl,
        decreases f.ensures@.len() - e,
    {
        match eval_bool(&f.ensures[e], &ens_env, module, true, TOP_FUEL) {
            Ok(false) => {
                let mut m = cat3("ensures '", contract_expr_text(&f.ensures[e]).as_str(), "' of '");
                push_str(&mut m, seed.func.as_str());
                push_str(&mut m, "' is violated by the seeded input (");
                push_str(&mut m, seed_inputs_text(seed).as_str());
                push_str(&mut m, ")");
                seed_diag(diags, file, "KEI-E4005", m, seed.line, seed.col, 1,
                    "Fix the implementation to satisfy the contract, or correct the contract");
            },
            _ => {},
        }
        e = e + 1;
    }
}

/// Checks a seed file (`source`, placed in `file`) against `module`: the
/// grammar errors, the seeds that do not fit their function, and the
/// counterexamples the seeds exhibit, in order of position.
pub fn check_seeds(file: &str, source: &str, module: &Module) -> (r: Vec<Diagnostic>)
    requires
        source@.len() < max_seed_len(),
    ensures
        seed_reported(r@, file@),
        sorted_by_start(r@),
{
    let toks = lex_seeds(source);
    let mut parser = SeedParser { toks, pos: 0, file: owned(file), diags: Vec::new() };
    let seeds = parser.parse();
    let mut diags = parser.diags;
    let fname = owned(file);
    let mut i: usize = 0;
    while i < seeds.len()
        invariant
            seed_reported(diags@, file@),
            fname@ == file@,
            i <= seeds@.len(),
            seeds_bounded(seeds@),
        decreases seeds@.len() - i,
    {
        validate_seed(&seeds[i], module, &fname, &mut diags);
        i = i + 1;
    }
    let ghost all = diags@;
    let sorted = sort_by_start(diags);
    proof {
        broadcast use vstd::seq_lib::group_to_multiset_ensures;
        assert forall|k: int| 0 <= k < sorted@.len() implies has_fix(#[trigger] sorted@[k]) && sorted@[k].span.file@ == file@
            && (sorted@[k].code@ == "KEI-E4005"@ || sorted@[k].code@ == "KEI-E4006"@ || sorted@[k].code@ == "KEI-E4007"@) by {
            assert(sorted@.to_multiset().count(sorted@[k]) > 0);
            assert(all.contains(sorted@[k]));
        }
    }
    sorted
}

} // verus!
