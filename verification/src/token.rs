//! Tokens. Line breaks separate statements and fields, so they surface as
//! `Newline` tokens that the parser skips where the context allows.
use vstd::prelude::*;
use crate::span::Span;
use crate::text::{owned, push_str, str_eq};

verus! {

broadcast use vstd::string::group_string_axioms;

#[derive(Debug, Clone, Copy, PartialEq, Eq, Structural)]
pub enum TokenKind {
    Ident,
    Int,
    Str,
    Module,
    Import,
    As,
    Type,
    Record,
    Enum,
    Func,
    Uses,
    Requires,
    Ensures,
    Let,
    If,
    Else,
    Fail,
    Return,
    Tagged,
    True,
    False,
    Implies,
    Match,
    Extern,
    LParen,
    RParen,
    LBrace,
    RBrace,
    LBracket,
    RBracket,
    Comma,
    Colon,
    Dot,
    Arrow,
    FatArrow,
    Eq,
    EqEq,
    NotEq,
    Lt,
    Gt,
    Le,
    Ge,
    Plus,
    Minus,
    Star,
    Slash,
    Percent,
    OrOr,
    Bang,
    Comment,
    Newline,
    Eof,
}

/// Whether `k` is a reserved word.
pub open spec fn spec_is_keyword(k: TokenKind) -> bool {
    match k {
        TokenKind::Module | TokenKind::Import | TokenKind::As | TokenKind::Type
        | TokenKind::Record | TokenKind::Enum | TokenKind::Func | TokenKind::Uses
        | TokenKind::Requires | TokenKind::Ensures | TokenKind::Let | TokenKind::If
        | TokenKind::Else | TokenKind::Fail | TokenKind::Return | TokenKind::Tagged
        | TokenKind::True | TokenKind::False | TokenKind::Implies | TokenKind::Match
        | TokenKind::Extern => true,
        _ => false,
    }
}

/// The canonical spelling of a fixed-spelling token, if it has one.
pub open spec fn spec_literal(k: TokenKind) -> Option<Seq<char>> {
    match k {
        TokenKind::LParen => Some("("@),
        TokenKind::RParen => Some(")"@),
        TokenKind::LBrace => Some("{"@),
        TokenKind::RBrace => Some("}"@),
        TokenKind::LBracket => Some("["@),
        TokenKind::RBracket => Some("]"@),
        TokenKind::Comma => Some(","@),
        TokenKind::Colon => Some(":"@),
        TokenKind::Dot => Some("."@),
        TokenKind::Arrow => Some("->"@),
        TokenKind::FatArrow => Some("=>"@),
        TokenKind::Eq => Some("="@),
        TokenKind::EqEq => Some("=="@),
        TokenKind::NotEq => Some("!="@),
        TokenKind::Lt => Some("<"@),
        TokenKind::Gt => Some(">"@),
        TokenKind::Le => Some("<="@),
        TokenKind::Ge => Some(">="@),
        TokenKind::Plus => Some("+"@),
        TokenKind::Minus => Some("-"@),
        TokenKind::Star => Some("*"@),
        TokenKind::Slash => Some("/"@),
        TokenKind::Percent => Some("%"@),
        TokenKind::OrOr => Some("||"@),
        TokenKind::Bang => Some("!"@),
        TokenKind::Module => Some("module"@),
        TokenKind::Import => Some("import"@),
        TokenKind::As => Some("as"@),
        TokenKind::Type => Some("type"@),
        TokenKind::Record => Some("record"@),
        TokenKind::Enum => Some("enum"@),
        TokenKind::Func => Some("func"@),
        TokenKind::Uses => Some("uses"@),
        TokenKind::Requires => Some("requires"@),
        TokenKind::Ensures => Some("ensures"@),
        TokenKind::Let => Some("let"@),
        TokenKind::If => Some("if"@),
        TokenKind::Else => Some("else"@),
        TokenKind::Fail => Some("fail"@),
        TokenKind::Return => Some("return"@),
        TokenKind::Tagged => Some("tagged"@),
        TokenKind::True => Some("true"@),
        TokenKind::False => Some("false"@),
        TokenKind::Implies => Some("implies"@),
        TokenKind::Match => Some("match"@),
        TokenKind::Extern => Some("extern"@),
        _ => None,
    }
}

/// The keyword spelled `text`, if `text` is reserved.
pub open spec fn spec_keyword(text: Seq<char>) -> Option<TokenKind> {
    if text == "module"@ { Some(TokenKind::Module) }
    else if text == "import"@ { Some(TokenKind::Import) }
    else if text == "as"@ { Some(TokenKind::As) }
    else if text == "type"@ { Some(TokenKind::Type) }
    else if text == "record"@ { Some(TokenKind::Record) }
    else if text == "enum"@ { Some(TokenKind::Enum) }
    else if text == "func"@ { Some(TokenKind::Func) }
    else if text == "uses"@ { Some(TokenKind::Uses) }
    else if text == "requires"@ { Some(TokenKind::Requires) }
    else if text == "ensures"@ { Some(TokenKind::Ensures) }
    else if text == "let"@ { Some(TokenKind::Let) }
    else if text == "if"@ { Some(TokenKind::If) }
    else if text == "else"@ { Some(TokenKind::Else) }
    else if text == "fail"@ { Some(TokenKind::Fail) }
    else if text == "return"@ { Some(TokenKind::Return) }
    else if text == "tagged"@ { Some(TokenKind::Tagged) }
    else if text == "true"@ { Some(TokenKind::True) }
    else if text == "false"@ { Some(TokenKind::False) }
    else if text == "implies"@ { Some(TokenKind::Implies) }
    else if text == "match"@ { Some(TokenKind::Match) }
    else if text == "extern"@ { Some(TokenKind::Extern) }
    else { None }
}

/// The description used in error messages.
pub open spec fn spec_describe(k: TokenKind) -> Seq<char> {
    match k {
        TokenKind::Ident => "identifier"@,
        TokenKind::Int => "integer literal"@,
        TokenKind::Str => "string literal"@,
        TokenKind::Newline => "end of line"@,
        TokenKind::Eof => "end of file"@,
        _ => match spec_literal(k) {
            Some(t) => t,
            None => "token"@,
        },
    }
}

impl TokenKind {
    /// The keyword kind spelled by `text`, or `None` when `text` is not reserved.
    pub fn keyword(text: &str) -> (r: Option<TokenKind>)
        ensures
            r == spec_keyword(text@),
    {
        if str_eq(text, "module") { Some(TokenKind::Module) }
        else if str_eq(text, "import") { Some(TokenKind::Import) }
        else if str_eq(text, "as") { Some(TokenKind::As) }
        else if str_eq(text, "type") { Some(TokenKind::Type) }
        else if str_eq(text, "record") { Some(TokenKind::Record) }
        else if str_eq(text, "enum") { Some(TokenKind::Enum) }
        else if str_eq(text, "func") { Some(TokenKind::Func) }
        else if str_eq(text, "uses") { Some(TokenKind::Uses) }
        else if str_eq(text, "requires") { Some(TokenKind::Requires) }
        else if str_eq(text, "ensures") { Some(TokenKind::Ensures) }
        else if str_eq(text, "let") { Some(TokenKind::Let) }
        else if str_eq(text, "if") { Some(TokenKind::If) }
        else if str_eq(text, "else") { Some(TokenKind::Else) }
        else if str_eq(text, "fail") { Some(TokenKind::Fail) }
        else if str_eq(text, "return") { Some(TokenKind::Return) }
        else if str_eq(text, "tagged") { Some(TokenKind::Tagged) }
        else if str_eq(text, "true") { Some(TokenKind::True) }
        else if str_eq(text, "false") { Some(TokenKind::False) }
        else if str_eq(text, "implies") { Some(TokenKind::Implies) }
        else if str_eq(text, "match") { Some(TokenKind::Match) }
        else if str_eq(text, "extern") { Some(TokenKind::Extern) }
        else { None }
    }

    pub fn is_keyword(self) -> (r: bool)
        ensures
            r == spec_is_keyword(self),
    {
        match self {
            TokenKind::Module | TokenKind::Import | TokenKind::As | TokenKind::Type
            | TokenKind::Record | TokenKind::Enum | TokenKind::Func | TokenKind::Uses
            | TokenKind::Requires | TokenKind::Ensures | TokenKind::Let | TokenKind::If
            | TokenKind::Else | TokenKind::Fail | TokenKind::Return | TokenKind::Tagged
            | TokenKind::True | TokenKind::False | TokenKind::Implies | TokenKind::Match
            | TokenKind::Extern => true,
            _ => false,
        }
    }

    /// The canonical text of a fixed-spelling token (used to build insertion fixes).
    pub fn literal(self) -> (r: Option<&'static str>)
        ensures
            r is Some <==> spec_literal(self) is Some,
            r matches Some(t) ==> Some(t@) == spec_literal(self),
    {
        match self {
            TokenKind::LParen => Some("("),
            TokenKind::RParen => Some(")"),
            TokenKind::LBrace => Some("{"),
            TokenKind::RBrace => Some("}"),
            TokenKind::LBracket => Some("["),
            TokenKind::RBracket => Some("]"),
            TokenKind::Comma => Some(","),
            TokenKind::Colon => Some(":"),
            TokenKind::Dot => Some("."),
            TokenKind::Arrow => Some("->"),
            TokenKind::FatArrow => Some("=>"),
            TokenKind::Eq => Some("="),
            TokenKind::EqEq => Some("=="),
            TokenKind::NotEq => Some("!="),
            TokenKind::Lt => Some("<"),
            TokenKind::Gt => Some(">"),
            TokenKind::Le => Some("<="),
            TokenKind::Ge => Some(">="),
            TokenKind::Plus => Some("+"),
            TokenKind::Minus => Some("-"),
            TokenKind::Star => Some("*"),
            TokenKind::Slash => Some("/"),
            TokenKind::Percent => Some("%"),
            TokenKind::OrOr => Some("||"),
            TokenKind::Bang => Some("!"),
            TokenKind::Module => Some("module"),
            TokenKind::Import => Some("import"),
            TokenKind::As => Some("as"),
            TokenKind::Type => Some("type"),
            TokenKind::Record => Some("record"),
            TokenKind::Enum => Some("enum"),
            TokenKind::Func => Some("func"),
            TokenKind::Uses => Some("uses"),
            TokenKind::Requires => Some("requires"),
            TokenKind::Ensures => Some("ensures"),
            TokenKind::Let => Some("let"),
            TokenKind::If => Some("if"),
            TokenKind::Else => Some("else"),
            TokenKind::Fail => Some("fail"),
            TokenKind::Return => Some("return"),
            TokenKind::Tagged => Some("tagged"),
            TokenKind::True => Some("true"),
            TokenKind::False => Some("false"),
            TokenKind::Implies => Some("implies"),
            TokenKind::Match => Some("match"),
            TokenKind::Extern => Some("extern"),
            _ => None,
        }
    }

    /// The description of this kind for error messages.
    pub fn describe(self) -> (r: &'static str)
        ensures
            r@ == spec_describe(self),
    {
        match self {
            TokenKind::Ident => "identifier",
            TokenKind::Int => "integer literal",
            TokenKind::Str => "string literal",
            TokenKind::Newline => "end of line",
            TokenKind::Eof => "end of file",
            other => match other.literal() {
                Some(t) => t,
                None => "token",
            },
        }
    }
}

/// Every reserved word's canonical spelling is recognised as that same keyword,
/// and every spelling that is recognised as a keyword is that keyword's spelling.
pub proof fn law_keyword_literal_roundtrip(k: TokenKind, text: Seq<char>)
    ensures
        spec_is_keyword(k) ==> spec_literal(k) is Some && spec_keyword(spec_literal(k)->0) == Some(k),
        spec_keyword(text) matches Some(kw) ==> spec_is_keyword(kw) && spec_literal(kw) == Some(text),
{
    reveal_strlit("module");
    reveal_strlit("import");
    reveal_strlit("as");
    reveal_strlit("type");
    reveal_strlit("record");
    reveal_strlit("enum");
    reveal_strlit("func");
    reveal_strlit("uses");
    reveal_strlit("requires");
    reveal_strlit("ensures");
    reveal_strlit("let");
    reveal_strlit("if");
    reveal_strlit("else");
    reveal_strlit("fail");
    reveal_strlit("return");
    reveal_strlit("tagged");
    reveal_strlit("true");
    reveal_strlit("false");
    reveal_strlit("implies");
    reveal_strlit("match");
    reveal_strlit("extern");
    if spec_is_keyword(k) {
        let t = spec_literal(k)->0;
        assert(spec_keyword(t) == Some(k)) by {
            match k {
                TokenKind::Module => { assert(t =~= "module"@); }
                TokenKind::Import => { assert(t =~= "import"@); assert(t[0] != "module"@[0]); }
                TokenKind::As => { assert(t =~= "as"@); assert(t.len() != "module"@.len()); assert(t.len() != "import"@.len()); }
                TokenKind::Type => { assert(t =~= "type"@); assert(t.len() != "module"@.len()); assert(t.len() != "import"@.len()); assert(t.len() != "as"@.len()); }
                TokenKind::Record => { assert(t =~= "record"@); assert(t[0] != "module"@[0]); assert(t[0] != "import"@[0]); assert(t.len() != "as"@.len()); assert(t.len() != "type"@.len()); }
                TokenKind::Enum => { assert(t =~= "enum"@); assert(t.len() != "module"@.len()); assert(t.len() != "import"@.len()); assert(t.len() != "as"@.len()); assert(t[0] != "type"@[0]); assert(t.len() != "record"@.len()); }
                TokenKind::Func => { assert(t =~= "func"@); assert(t.len() != "module"@.len()); assert(t.len() != "import"@.len()); assert(t.len() != "as"@.len()); assert(t[0] != "type"@[0]); assert(t.len() != "record"@.len()); assert(t[0] != "enum"@[0]); }
                TokenKind::Uses => { assert(t =~= "uses"@); assert(t.len() != "module"@.len()); assert(t.len() != "import"@.len()); assert(t.len() != "as"@.len()); assert(t[0] != "type"@[0]); assert(t.len() != "record"@.len()); assert(t[0] != "enum"@[0]); assert(t[0] != "func"@[0]); }
                TokenKind::Requires => { assert(t =~= "requires"@); assert(t.len() != "module"@.len()); assert(t.len() != "import"@.len()); assert(t.len() != "as"@.len()); assert(t.len() != "type"@.len()); assert(t.len() != "record"@.len()); assert(t.len() != "enum"@.len()); assert(t.len() != "func"@.len()); assert(t.len() != "uses"@.len()); }
                TokenKind::Ensures => { assert(t =~= "ensures"@); assert(t.len() != "module"@.len()); assert(t.len() != "import"@.len()); assert(t.len() != "as"@.len()); assert(t.len() != "type"@.len()); assert(t.len() != "record"@.len()); assert(t.len() != "enum"@.len()); assert(t.len() != "func"@.len()); assert(t.len() != "uses"@.len()); assert(t.len() != "requires"@.len()); }
                TokenKind::Let => { assert(t =~= "let"@); assert(t.len() != "module"@.len()); assert(t.len() != "import"@.len()); assert(t.len() != "as"@.len()); assert(t.len() != "type"@.len()); assert(t.len() != "record"@.len()); assert(t.len() != "enum"@.len()); assert(t.len() != "func"@.len()); assert(t.len() != "uses"@.len()); assert(t.len() != "requires"@.len()); assert(t.len() != "ensures"@.len()); }
                TokenKind::If => { assert(t =~= "if"@); assert(t.len() != "module"@.len()); assert(t.len() != "import"@.len()); assert(t[0] != "as"@[0]); assert(t.len() != "type"@.len()); assert(t.len() != "record"@.len()); assert(t.len() != "enum"@.len()); assert(t.len() != "func"@.len()); assert(t.len() != "uses"@.len()); assert(t.len() != "requires"@.len()); assert(t.len() != "ensures"@.len()); assert(t.len() != "let"@.len()); }
                TokenKind::Else => { assert(t =~= "else"@); assert(t.len() != "module"@.len()); assert(t.len() != "import"@.len()); assert(t.len() != "as"@.len()); assert(t[0] != "type"@[0]); assert(t.len() != "record"@.len()); assert(t[1] != "enum"@[1]); assert(t[0] != "func"@[0]); assert(t[0] != "uses"@[0]); assert(t.len() != "requires"@.len()); assert(t.len() != "ensures"@.len()); assert(t.len() != "let"@.len()); assert(t.len() != "if"@.len()); }
                TokenKind::Fail => { assert(t =~= "fail"@); assert(t.len() != "module"@.len()); assert(t.len() != "import"@.len()); assert(t.len() != "as"@.len()); assert(t[0] != "type"@[0]); assert(t.len() != "record"@.len()); assert(t[0] != "enum"@[0]); assert(t[1] != "func"@[1]); assert(t[0] != "uses"@[0]); assert(t.len() != "requires"@.len()); assert(t.len() != "ensures"@.len()); assert(t.len() != "let"@.len()); assert(t.len() != "if"@.len()); assert(t[0] != "else"@[0]); }
                TokenKind::Return => { assert(t =~= "return"@); assert(t[0] != "module"@[0]); assert(t[0] != "import"@[0]); assert(t.len() != "as"@.len()); assert(t.len() != "type"@.len()); assert(t[2] != "record"@[2]); assert(t.len() != "enum"@.len()); assert(t.len() != "func"@.len()); assert(t.len() != "uses"@.len()); assert(t.len() != "requires"@.len()); assert(t.len() != "ensures"@.len()); assert(t.len() != "let"@.len()); assert(t.len() != "if"@.len()); assert(t.len() != "else"@.len()); assert(t.len() != "fail"@.len()); }
                TokenKind::Tagged => { assert(t =~= "tagged"@); assert(t[0] != "module"@[0]); assert(t[0] != "import"@[0]); assert(t.len() != "as"@.len()); assert(t.len() != "type"@.len()); assert(t[0] != "record"@[0]); assert(t.len() != "enum"@.len()); assert(t.len() != "func"@.len()); assert(t.len() != "uses"@.len()); assert(t.len() != "requires"@.len()); assert(t.len() != "ensures"@.len()); assert(t.len() != "let"@.len()); assert(t.len() != "if"@.len()); assert(t.len() != "else"@.len()); assert(t.len() != "fail"@.len()); assert(t[0] != "return"@[0]); }
                TokenKind::True => { assert(t =~= "true"@); assert(t.len() != "module"@.len()); assert(t.len() != "import"@.len()); assert(t.len() != "as"@.len()); assert(t[1] != "type"@[1]); assert(t.len() != "record"@.len()); assert(t[0] != "enum"@[0]); assert(t[0] != "func"@[0]); assert(t[0] != "uses"@[0]); assert(t.len() != "requires"@.len()); assert(t.len() != "ensures"@.len()); assert(t.len() != "let"@.len()); assert(t.len() != "if"@.len()); assert(t[0] != "else"@[0]); assert(t[0] != "fail"@[0]); assert(t.len() != "return"@.len()); assert(t.len() != "tagged"@.len()); }
                TokenKind::False => { assert(t =~= "false"@); assert(t.len() != "module"@.len()); assert(t.len() != "import"@.len()); assert(t.len() != "as"@.len()); assert(t.len() != "type"@.len()); assert(t.len() != "record"@.len()); assert(t.len() != "enum"@.len()); assert(t.len() != "func"@.len()); assert(t.len() != "uses"@.len()); assert(t.len() != "requires"@.len()); assert(t.len() != "ensures"@.len()); assert(t.len() != "let"@.len()); assert(t.len() != "if"@.len()); assert(t.len() != "else"@.len()); assert(t.len() != "fail"@.len()); assert(t.len() != "return"@.len()); assert(t.len() != "tagged"@.len()); assert(t.len() != "true"@.len()); }
                TokenKind::Implies => { assert(t =~= "implies"@); assert(t.len() != "module"@.len()); assert(t.len() != "import"@.len()); assert(t.len() != "as"@.len()); assert(t.len() != "type"@.len()); assert(t.len() != "record"@.len()); assert(t.len() != "enum"@.len()); assert(t.len() != "func"@.len()); assert(t.len() != "uses"@.len()); assert(t.len() != "requires"@.len()); assert(t[0] != "ensures"@[0]); assert(t.len() != "let"@.len()); assert(t.len() != "if"@.len()); assert(t.len() != "else"@.len()); assert(t.len() != "fail"@.len()); assert(t.len() != "return"@.len()); assert(t.len() != "tagged"@.len()); assert(t.len() != "true"@.len()); assert(t.len() != "false"@.len()); }
                TokenKind::Match => { assert(t =~= "match"@); assert(t.len() != "module"@.len()); assert(t.len() != "import"@.len()); assert(t.len() != "as"@.len()); assert(t.len() != "type"@.len()); assert(t.len() != "record"@.len()); assert(t.len() != "enum"@.len()); assert(t.len() != "func"@.len()); assert(t.len() != "uses"@.len()); assert(t.len() != "requires"@.len()); assert(t.len() != "ensures"@.len()); assert(t.len() != "let"@.len()); assert(t.len() != "if"@.len()); assert(t.len() != "else"@.len()); assert(t.len() != "fail"@.len()); assert(t.len() != "return"@.len()); assert(t.len() != "tagged"@.len()); assert(t.len() != "true"@.len()); assert(t[0] != "false"@[0]); assert(t.len() != "implies"@.len()); }
                TokenKind::Extern => { assert(t =~= "extern"@); assert(t[0] != "module"@[0]); assert(t[0] != "import"@[0]); assert(t.len() != "as"@.len()); assert(t.len() != "type"@.len()); assert(t[0] != "record"@[0]); assert(t.len() != "enum"@.len()); assert(t.len() != "func"@.len()); assert(t.len() != "uses"@.len()); assert(t.len() != "requires"@.len()); assert(t.len() != "ensures"@.len()); assert(t.len() != "let"@.len()); assert(t.len() != "if"@.len()); assert(t.len() != "else"@.len()); assert(t.len() != "fail"@.len()); assert(t[0] != "return"@[0]); assert(t[0] != "tagged"@[0]); assert(t.len() != "true"@.len()); assert(t.len() != "false"@.len()); assert(t.len() != "implies"@.len()); assert(t.len() != "match"@.len()); }
                _ => {}
            }
        }
    }
}

#[derive(Debug, Clone, PartialEq, Eq)]
pub struct Token {
    pub kind: TokenKind,
    /// The identifier name for `Ident`, the unescaped value for `Str`, the
    /// digits for `Int`, the comment body for `Comment`, and the canonical
    /// spelling for fixed-spelling tokens.
    pub text: String,
    pub span: Span,
}

/// The "found ..." wording used in error messages.
pub open spec fn spec_found_label(kind: TokenKind, text: Seq<char>) -> Seq<char> {
    match kind {
        TokenKind::Ident => "identifier '"@ + text + "'"@,
        TokenKind::Int => "integer literal '"@ + text + "'"@,
        TokenKind::Str => "string literal"@,
        TokenKind::Newline => "end of line"@,
        TokenKind::Eof => "end of file"@,
        _ => if spec_is_keyword(kind) {
            "keyword '"@ + text + "'"@
        } else {
            "'"@ + text + "'"@
        },
    }
}

impl Token {
    /// The "found ..." wording for this token in error messages.
    pub fn found_label(&self) -> (r: String)
        ensures
            r@ == spec_found_label(self.kind, self.text@),
    {
        let text = self.text.as_str();
        match self.kind {
            TokenKind::Ident => quoted("identifier '", text),
            TokenKind::Int => quoted("integer literal '", text),
            TokenKind::Str => owned("string literal"),
            TokenKind::Newline => owned("end of line"),
            TokenKind::Eof => owned("end of file"),
            k => if k.is_keyword() {
                quoted("keyword '", text)
            } else {
                quoted("'", text)
            },
        }
    }
}

/// `prefix + text + "'"`.
fn quoted(prefix: &str, text: &str) -> (r: String)
    ensures
        r@ == prefix@ + text@ + "'"@,
{
    let mut s = owned(prefix);
    push_str(&mut s, text);
    push_str(&mut s, "'");
    s
}

} // verus!
