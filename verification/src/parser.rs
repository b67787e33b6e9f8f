//! Recursive-descent parser with error recovery: one run collects several
//! syntax errors and still returns as much of the tree as it could build.
//!
//! Recovery:
//! - declarations: skip to the next declaration keyword
//!   (func / record / enum / type / import / module);
//! - statements: skip to the next line break or `}`;
//! - a single missing token (`)`, `:`, ...) is taken as inserted.
use vstd::prelude::*;
use crate::ast::{BinOp, Block, EffectRef, ElseBranch, EnumDecl, Expr, ExprStmt, ExternDecl, FieldDef, FuncDecl, Ident, IfStmt, Import, Item, LetStmt, MatchArm, Module, ModuleDecl, Param, Pattern, PatternPayload, RecordDecl, RecordLitField, ReturnStmt, Stmt, Type, TypeAlias, UnaryOp, Variant, VariantPayload};
use crate::edit::{edit_distance, lemma_edit_distance_lower_bound, levenshtein};
use crate::error::{self, FixHint, SyntaxError};
use crate::lexer::{all_digits, parse_i64_digits};
use crate::span::Span;
use crate::text::{cat2, cat3, cat4, cat5, chars_of, owned};
use crate::token::{spec_is_keyword, Token, TokenKind as T};

verus! {

broadcast use vstd::string::group_string_axioms;

pub struct Parser {
    tokens: Vec<Token>,
    pos: usize,
    errors: Vec<SyntaxError>,
}

/// Whether `k` begins a declaration (used by declaration-level recovery).
pub open spec fn is_decl_start(k: T) -> bool {
    k == T::Module || k == T::Import || k == T::Type || k == T::Record || k == T::Enum || k == T::Func
}

/// What a token stream must satisfy to be parsed: it ends with `Eof` and
/// holds no other `Eof`.
pub open spec fn parsable(tokens: Seq<Token>) -> bool {
    &&& tokens.len() > 0
    &&& tokens.last().kind == T::Eof
    &&& forall|i: int| 0 <= i < tokens.len() - 1 ==> (#[trigger] tokens[i]).kind != T::Eof
}

fn copy_token(t: &Token) -> (r: Token)
    ensures
        r == *t,
{
    Token { kind: t.kind, text: t.text.clone(), span: t.span }
}

fn copy_ident(i: &Ident) -> (r: Ident)
    ensures
        r == *i,
{
    Ident { name: i.name.clone(), span: i.span }
}

/// Whether the `func` keyword at `p` is followed by a name (an identifier,
/// or a reserved word taken as one) and `(`.
pub open spec fn func_head_ok(toks: Seq<Token>, p: int) -> bool {
    &&& (toks[p + 1].kind == T::Ident || spec_is_keyword(toks[p + 1].kind))
    &&& toks[p + 2].kind == T::LParen
}

/// Whether a token kind begins a declaration (`module`, `import`, `type`,
/// `record`, `enum`, `func`, `extern`).
pub open spec fn starts_decl(k: T) -> bool {
    k == T::Module || k == T::Import || k == T::Type || k == T::Record || k == T::Enum || k == T::Func || k == T::Extern
}

/// How tightly a binary operator binds (larger binds tighter): `implies`,
/// `||`, comparisons, `+ -`, `* / %`.
pub open spec fn bin_level(op: BinOp) -> nat {
    match op {
        BinOp::Implies => 0,
        BinOp::Or => 1,
        BinOp::Eq | BinOp::Ne | BinOp::Lt | BinOp::Gt | BinOp::Le | BinOp::Ge => 2,
        BinOp::Add | BinOp::Sub => 3,
        BinOp::Mul | BinOp::Div | BinOp::Rem => 4,
    }
}

/// `e` is a binary node whose operator binds less tightly than level `l`.
pub open spec fn binary_below(e: Expr, l: nat) -> bool {
    match e {
        Expr::Binary { op, .. } => bin_level(op) < l,
        _ => false,
    }
}

/// `e` is a node of the left-grouping level `l` whose operands break the
/// grouping rules: a left operand that binds less tightly, or a right operand
/// that binds no more tightly (`a - (b - c)`, `(a + b) * c`). Without
/// parentheses in the source a parser never builds this shape.
pub open spec fn misgrouped(e: Expr, l: nat) -> bool {
    match e {
        Expr::Binary { op, lhs, rhs, .. } => bin_level(op) == l && (binary_below(*lhs, l) || binary_below(*rhs, l + 1)),
        _ => false,
    }
}

/// `e` is an `implies` whose premise is itself an `implies`: since `implies`
/// groups to the right, only parentheses give this shape.
pub open spec fn implies_misgrouped(e: Expr) -> bool {
    match e {
        Expr::Binary { op, lhs, .. } => op == BinOp::Implies && binary_below(*lhs, 1),
        _ => false,
    }
}

/// Whether a token is one of the comparison operators.
pub open spec fn is_comparison_token(k: T) -> bool {
    k == T::EqEq || k == T::NotEq || k == T::Lt || k == T::Gt || k == T::Le || k == T::Ge
}

/// Some token in `from..to` is an opening parenthesis.
pub open spec fn paren_between(tokens: Seq<Token>, from: int, to: int) -> bool {
    exists|q: int| from <= q < to && (#[trigger] tokens[q]).kind == T::LParen
}

impl Parser {
    pub closed spec fn wf(&self) -> bool {
        &&& parsable(self.tokens@)
        &&& self.pos < self.tokens@.len()
    }

    pub closed spec fn errors_view(&self) -> Seq<SyntaxError> {
        self.errors@
    }

    pub closed spec fn token_view(&self) -> Seq<Token> {
        self.tokens@
    }

    pub closed spec fn position(&self) -> nat {
        self.pos as nat
    }

    closed spec fn kind(&self) -> T {
        self.tokens@[self.pos as int].kind
    }

    /// `self` is `old` moved forward: same tokens, position not behind, and the
    /// errors of `old` kept as a prefix.
    closed spec fn keeps(&self, old: Parser) -> bool {
        &&& self.wf()
        &&& self.tokens == old.tokens
        &&& self.pos >= old.pos
        &&& self.errors@.len() >= old.errors@.len()
        &&& forall|i: int| 0 <= i < old.errors@.len() ==> self.errors@[i] == old.errors@[i]
    }

    /// Some token from `start`'s position up to this one is `(`.
    closed spec fn paren_since(&self, start: Parser) -> bool {
        paren_between(self.tokens@, start.pos as int, self.pos as int)
    }

    /// A parser over `tokens`, starting with the lexical errors `lex_errors`.
    pub fn new(tokens: Vec<Token>, lex_errors: Vec<SyntaxError>) -> (p: Self)
        requires
            parsable(tokens@),
        ensures
            p.wf(),
            p.errors_view() == lex_errors@,
            p.token_view() == tokens@,
            p.position() == 0,
    {
        Parser { tokens, pos: 0, errors: lex_errors }
    }

    pub fn into_errors(self) -> (e: Vec<SyntaxError>)
        ensures
            e@ == self.errors_view(),
    {
        self.errors
    }

    // ---- token operations ----

    fn cur(&self) -> (t: &Token)
        requires
            self.wf(),
        ensures
            *t == self.tokens@[self.pos as int],
    {
        &self.tokens[self.pos]
    }

    fn cur_kind(&self) -> (k: T)
        requires
            self.wf(),
        ensures
            k == self.kind(),
    {
        self.tokens[self.pos].kind
    }

    fn at(&self, kind: T) -> (r: bool)
        requires
            self.wf(),
        ensures
            r == (self.kind() == kind),
    {
        self.tokens[self.pos].kind == kind
    }

    fn bump(&mut self) -> (tok: Token)
        requires
            old(self).wf(),
        ensures
            final(self).keeps(*old(self)),
            final(self).errors == old(self).errors,
            tok == old(self).tokens@[old(self).pos as int],
            old(self).kind() != T::Eof ==> final(self).pos == old(self).pos + 1,
            old(self).kind() == T::Eof ==> final(self).pos == old(self).pos,
    {
        let tok = copy_token(&self.tokens[self.pos]);
        if self.pos < self.tokens.len() - 1 {
            self.pos = self.pos + 1;
        }
        tok
    }

    fn eat(&mut self, kind: T) -> (r: bool)
        requires
            old(self).wf(),
            kind != T::Eof,
        ensures
            final(self).keeps(*old(self)),
            final(self).errors == old(self).errors,
            r == (old(self).kind() == kind),
            r ==> final(self).pos == old(self).pos + 1,
            !r ==> final(self).pos == old(self).pos,
    {
        if self.at(kind) {
            self.bump();
            true
        } else {
            false
        }
    }

    fn skip_newlines(&mut self)
        requires
            old(self).wf(),
        ensures
            final(self).keeps(*old(self)),
            final(self).errors == old(self).errors,
            final(self).kind() != T::Newline,
            old(self).kind() == T::Newline ==> final(self).pos > old(self).pos,
            old(self).kind() != T::Newline ==> final(self).pos == old(self).pos,
    {
        while self.at(T::Newline)
            invariant
                self.keeps(*old(self)),
                self.errors == old(self).errors,
                old(self).kind() == T::Newline ==> self.pos > old(self).pos || self.pos == old(self).pos && self.kind() == T::Newline,
                old(self).kind() != T::Newline ==> self.pos == old(self).pos,
            decreases self.tokens@.len() - self.pos,
        {
            self.bump();
        }
    }

    /// If the next token after line breaks is `kind`, skips the breaks and
    /// answers true; otherwise leaves the position unchanged.
    fn at_after_newlines(&mut self, kind: T) -> (r: bool)
        requires
            old(self).wf(),
        ensures
            final(self).keeps(*old(self)),
            final(self).errors == old(self).errors,
            r ==> final(self).kind() == kind,
            !r ==> final(self).pos == old(self).pos,
    {
        let save = self.pos;
        self.skip_newlines();
        if self.at(kind) {
            true
        } else {
            self.pos = save;
            false
        }
    }

    // ---- error reporting ----

    fn error(&mut self, code: &'static str, message: String, span: Span, fix: FixHint)
        requires
            old(self).wf(),
        ensures
            final(self).keeps(*old(self)),
            final(self).pos == old(self).pos,
            final(self).errors@ == old(self).errors@.push(SyntaxError { code, message, span, fix }),
    {
        self.errors.push(SyntaxError { code, message, span, fix });
    }

    /// Requires `kind`; when it is missing, reports KEI-E0101 with an insertion fix.
    fn expect(&mut self, kind: T) -> (r: bool)
        requires
            old(self).wf(),
            kind != T::Eof,
        ensures
            final(self).keeps(*old(self)),
            r == (old(self).kind() == kind),
            r ==> final(self).pos == old(self).pos + 1,
            !r ==> final(self).pos == old(self).pos,
            !r ==> final(self).errors@.len() == old(self).errors@.len() + 1,
    {
        if self.eat(kind) {
            return true;
        }
        let found = copy_token(self.cur());
        let lit = match kind.literal() {
            Some(t) => t,
            None => kind.describe(),
        };
        let fix = FixHint::replace(cat3("Insert '", lit, "'"), Span::point(found.span.start), owned(lit));
        let label = found.found_label();
        self.error(error::UNEXPECTED_TOKEN, cat4("expected '", lit, "', found ", label.as_str()), found.span, fix);
        false
    }

    /// Requires an identifier. A reserved word is reported as KEI-E0102 and
    /// then taken as the identifier anyway (recovery).
    fn expect_ident(&mut self, what: &str) -> (r: Option<Ident>)
        requires
            old(self).wf(),
        ensures
            r is None ==> final(self).errors@.len() > old(self).errors@.len(),
            final(self).keeps(*old(self)),
            r is Some <==> (old(self).kind() == T::Ident || spec_is_keyword(old(self).kind())),
            r is Some ==> final(self).pos == old(self).pos + 1,
            r is None ==> final(self).pos == old(self).pos,
            r matches Some(id) ==> id.name == old(self).tokens@[old(self).pos as int].text
                && id.span == old(self).tokens@[old(self).pos as int].span,
    {
        let tok = copy_token(self.cur());
        if tok.kind == T::Ident {
            self.bump();
            Some(Ident { name: tok.text, span: tok.span })
        } else if tok.kind.is_keyword() {
            let fix = FixHint::replace(cat3("Rename to '", tok.text.as_str(), "_'"), tok.span, cat2(tok.text.as_str(), "_"));
            self.error(error::RESERVED_IDENT,
                cat4("'", tok.text.as_str(), "' is a reserved keyword and cannot be used as ", what),
                tok.span, fix);
            self.bump();
            Some(Ident { name: tok.text, span: tok.span })
        } else {
            let label = tok.found_label();
            self.error(error::UNEXPECTED_TOKEN, cat4("expected ", what, ", found ", label.as_str()),
                tok.span, FixHint::direction(cat3("Write ", what, " here")));
            None
        }
    }

    /// The member name after `.`. Names spelt like keywords are allowed here
    /// (contextual keywords, e.g. `Audit.Log.record(...)`).
    fn expect_member_ident(&mut self) -> (r: Option<Ident>)
        requires
            old(self).wf(),
        ensures
            final(self).keeps(*old(self)),
            r is Some ==> final(self).pos == old(self).pos + 1,
            r is None ==> final(self).pos == old(self).pos,
            r is Some <==> (old(self).kind() == T::Ident || spec_is_keyword(old(self).kind())),
            r matches Some(id) ==> id.name == old(self).tokens@[old(self).pos as int].text
                && id.span == old(self).tokens@[old(self).pos as int].span,
            r is Some ==> final(self).errors == old(self).errors,
            r is None ==> final(self).errors@.len() == old(self).errors@.len() + 1,
    {
        let tok = copy_token(self.cur());
        if tok.kind == T::Ident || tok.kind.is_keyword() {
            self.bump();
            return Some(Ident { name: tok.text, span: tok.span });
        }
        let label = tok.found_label();
        self.error(error::UNEXPECTED_TOKEN, cat2("expected a field name, found ", label.as_str()),
            tok.span, FixHint::direction(owned("Write a field name here")));
        None
    }

    fn unclosed_delimiter(&mut self, open: &str, open_span: Span, close: &str)
        requires
            old(self).wf(),
        ensures
            final(self).keeps(*old(self)),
            final(self).pos == old(self).pos,
            final(self).errors@.len() == old(self).errors@.len() + 1,
    {
        let here = self.cur().span;
        self.error(error::UNCLOSED_DELIMITER,
            cat5("unclosed '", open, "': missing '", close, "' before end of file"),
            open_span,
            FixHint::replace(cat3("Insert '", close, "'"), Span::point(here.start), owned(close)));
    }

    // ---- recovery ----

    /// Skips to the next declaration keyword at brace depth zero, or to the end.
    fn recover_to_decl(&mut self)
        requires
            old(self).wf(),
        ensures
            final(self).keeps(*old(self)),
            final(self).errors == old(self).errors,
            final(self).kind() == T::Eof || starts_decl(final(self).kind()),
    {
        let mut depth: u32 = 0;
        loop
            invariant
                self.keeps(*old(self)),
                self.errors == old(self).errors,
            ensures
                self.keeps(*old(self)),
                self.errors == old(self).errors,
                self.kind() == T::Eof || starts_decl(self.kind()),
            decreases self.tokens@.len() - self.pos,
        {
            let k = self.cur_kind();
            if k == T::Eof {
                return;
            } else if (k == T::Module || k == T::Import || k == T::Type || k == T::Record || k == T::Enum || k == T::Func
                || k == T::Extern) && depth == 0 {
                return;
            } else if k == T::LBrace {
                depth = if depth < u32::MAX { depth + 1 } else { depth };
                self.bump();
            } else if k == T::RBrace {
                depth = if depth > 0 { depth - 1 } else { 0 };
                self.bump();
            } else {
                self.bump();
            }
        }
    }

    /// Skips to the end of the statement (line break, `}` or end), stepping
    /// over nested braces.
    fn recover_to_stmt_end(&mut self)
        requires
            old(self).wf(),
        ensures
            final(self).keeps(*old(self)),
            final(self).errors == old(self).errors,
            old(self).kind() != T::Eof && old(self).kind() != T::RBrace ==> final(self).pos > old(self).pos,
    {
        let mut depth: u32 = 0;
        loop
            invariant
                self.keeps(*old(self)),
                self.errors == old(self).errors,
                self.pos == old(self).pos ==> depth == 0,
            decreases self.tokens@.len() - self.pos,
        {
            let k = self.cur_kind();
            if k == T::Eof {
                return;
            } else if k == T::Newline && depth == 0 {
                self.bump();
                self.skip_newlines();
                return;
            } else if k == T::RBrace && depth == 0 {
                return;
            } else if k == T::LBrace {
                depth = if depth < u32::MAX { depth + 1 } else { depth };
                self.bump();
            } else if k == T::RBrace {
                depth = depth - 1;
                self.bump();
            } else {
                self.bump();
            }
        }
    }

    /// Recovery inside a field or variant list: up to a line break, `,`, `}` or the end.
    fn recover_in_braces(&mut self)
        requires
            old(self).wf(),
        ensures
            final(self).keeps(*old(self)),
            final(self).errors == old(self).errors,
            stops_in_braces(old(self).kind()) ==> final(self).pos == old(self).pos,
            !stops_in_braces(old(self).kind()) ==> final(self).pos > old(self).pos,
    {
        loop
            invariant
                self.keeps(*old(self)),
                self.errors == old(self).errors,
                stops_in_braces(old(self).kind()) ==> self.pos == old(self).pos,
                self.pos == old(self).pos || self.pos > old(self).pos,
                !stops_in_braces(old(self).kind()) && self.pos == old(self).pos ==> self.kind() == old(self).kind(),
            decreases self.tokens@.len() - self.pos,
        {
            let k = self.cur_kind();
            if k == T::Eof || k == T::Newline || k == T::Comma || k == T::RBrace {
                return;
            }
            self.bump();
        }
    }

    /// Recovery inside an argument or parameter list: up to `,`, `)`, a line break or the end.
    fn recover_in_parens(&mut self)
        requires
            old(self).wf(),
        ensures
            final(self).keeps(*old(self)),
            final(self).errors == old(self).errors,
            stops_in_parens(old(self).kind()) ==> final(self).pos == old(self).pos,
            !stops_in_parens(old(self).kind()) ==> final(self).pos > old(self).pos,
    {
        loop
            invariant
                self.keeps(*old(self)),
                self.errors == old(self).errors,
                stops_in_parens(old(self).kind()) ==> self.pos == old(self).pos,
                !stops_in_parens(old(self).kind()) && self.pos == old(self).pos ==> self.kind() == old(self).kind(),
            decreases self.tokens@.len() - self.pos,
        {
            let k = self.cur_kind();
            if k == T::Eof || k == T::Newline || k == T::Comma || k == T::RParen {
                return;
            }
            self.bump();
        }
    }
}

impl Parser {
    // ---- module ----

    /// Parses a whole module, declaration by declaration.
    pub fn parse_module(&mut self) -> (m: Module)
        requires
            old(self).wf(),
        ensures
            final(self).wf(),
            final(self).token_view() == old(self).token_view(),
            final(self).errors_view().len() >= old(self).errors_view().len(),
            forall|i: int| 0 <= i < old(self).errors_view().len() ==> final(self).errors_view()[i] == old(self).errors_view()[i],
            final(self).token_view()[final(self).position() as int].kind == T::Eof,
    {
        let start = self.cur().span;
        let mut decl: Option<ModuleDecl> = None;
        let mut imports: Vec<Import> = Vec::new();
        let mut items: Vec<Item> = Vec::new();

        self.skip_newlines();
        if self.at(T::Module) {
            decl = self.parse_module_decl();
        }

        loop
            invariant
                self.keeps(*old(self)),
            ensures
                self.keeps(*old(self)),
                self.kind() == T::Eof,
            decreases self.tokens@.len() - self.pos,
        {
            self.skip_newlines();
            let k = self.cur_kind();
            if k == T::Eof {
                break;
            } else if k == T::Import {
                if let Some(import) = self.parse_import() {
                    imports.push(import);
                }
            } else if k == T::Type {
                if let Some(item) = self.parse_type_alias() {
                    items.push(Item::TypeAlias(item));
                }
            } else if k == T::Record {
                if let Some(item) = self.parse_record() {
                    items.push(Item::Record(item));
                }
            } else if k == T::Enum {
                if let Some(item) = self.parse_enum() {
                    items.push(Item::Enum(item));
                }
            } else if k == T::Func {
                if let Some(item) = self.parse_func() {
                    items.push(Item::Func(item));
                }
            } else if k == T::Extern {
                if let Some(item) = self.parse_extern() {
                    items.push(Item::Extern(item));
                }
            } else if k == T::Module {
                let tok = copy_token(self.cur());
                self.error(error::UNEXPECTED_TOKEN,
                    owned("duplicate 'module' declaration: a file declares its module at most once"),
                    tok.span, FixHint::direction(owned("Remove this 'module' declaration")));
                self.bump();
                self.recover_to_decl();
            } else {
                let tok = copy_token(self.cur());
                let label = tok.found_label();
                self.error(error::UNEXPECTED_TOKEN,
                    cat2("expected a declaration (func, record, enum, type, or import), found ", label.as_str()),
                    tok.span,
                    FixHint::direction(owned("Start a declaration with 'func', 'record', 'enum', 'type', or 'import'")));
                self.bump();
                self.recover_to_decl();
            }
        }

        let end = self.cur().span;
        Module { decl, imports, items, span: start.to(end) }
    }

    fn parse_path(&mut self, what: &str) -> (r: Option<Vec<Ident>>)
        requires
            old(self).wf(),
        ensures
            r is None ==> final(self).errors@.len() > old(self).errors@.len(),
            final(self).keeps(*old(self)),
            r matches Some(p) ==> p@.len() > 0 && final(self).pos > old(self).pos,
    {
        let first = self.expect_ident(what)?;
        let mut path: Vec<Ident> = Vec::new();
        path.push(first);
        while self.eat(T::Dot)
            invariant
                self.keeps(*old(self)),
                self.pos > old(self).pos,
                path@.len() > 0,
            decreases self.tokens@.len() - self.pos,
        {
            let next = self.expect_ident(what)?;
            path.push(next);
        }
        Some(path)
    }

    fn parse_module_decl(&mut self) -> (r: Option<ModuleDecl>)
        requires
            old(self).wf(),
            old(self).kind() == T::Module,
        ensures
            final(self).keeps(*old(self)),
            final(self).pos > old(self).pos,
    {
        let kw = self.bump();
        let path = match self.parse_path("a module path segment") {
            Some(path) => path,
            None => {
                self.recover_to_decl();
                return None;
            },
        };
        let end = path[path.len() - 1].span;
        Some(ModuleDecl { path, span: kw.span.to(end) })
    }

    fn parse_import(&mut self) -> (r: Option<Import>)
        requires
            old(self).wf(),
            old(self).kind() == T::Import,
        ensures
            final(self).keeps(*old(self)),
            final(self).pos > old(self).pos,
    {
        let kw = self.bump();
        let path = match self.parse_path("a module path segment") {
            Some(path) => path,
            None => {
                self.recover_to_decl();
                return None;
            },
        };
        let mut names: Vec<Ident> = Vec::new();
        let mut alias: Option<Ident> = None;
        let mut end = path[path.len() - 1].span;

        if self.at(T::LBrace) {
            let open = self.bump();
            self.skip_newlines();
            while !self.at(T::RBrace)
                invariant
                    self.keeps(*old(self)),
                    self.pos > old(self).pos,
                decreases self.tokens@.len() - self.pos,
            {
                if self.at(T::Eof) {
                    self.unclosed_delimiter("{", open.span, "}");
                    break;
                }
                let ghost p0 = self.pos;
                match self.expect_ident("an imported name") {
                    Some(name) => names.push(name),
                    None => {
                        self.recover_in_braces();
                    },
                }
                self.eat(T::Comma);
                self.skip_newlines();
                assert(self.pos > p0);
            }
            end = self.cur().span;
            self.eat(T::RBrace);
        } else if self.eat(T::As) {
            alias = self.expect_ident("an import alias");
            if let Some(a) = &alias {
                end = a.span;
            }
        }

        Some(Import { path, names, alias, span: kw.span.to(end) })
    }

    // ---- type declarations ----

    fn parse_type_alias(&mut self) -> (r: Option<TypeAlias>)
        requires
            old(self).wf(),
            old(self).kind() == T::Type,
        ensures
            final(self).keeps(*old(self)),
            final(self).pos > old(self).pos,
    {
        let kw = self.bump();
        let name = match self.expect_ident("a type name") {
            Some(name) => name,
            None => {
                self.recover_to_decl();
                return None;
            },
        };
        if !self.expect(T::Eq) && !self.at(T::Ident) {
            self.recover_to_decl();
            return None;
        }
        let ty = match self.parse_type() {
            Some(ty) => ty,
            None => {
                self.recover_to_decl();
                return None;
            },
        };
        let mut tag: Option<String> = None;
        let mut end = ty.span;
        if self.eat(T::Tagged) {
            if self.at(T::Str) {
                let tok = self.bump();
                end = tok.span;
                tag = Some(tok.text);
            } else {
                let tok = copy_token(self.cur());
                let label = tok.found_label();
                self.error(error::UNEXPECTED_TOKEN,
                    cat2("expected a string literal after 'tagged', found ", label.as_str()),
                    tok.span,
                    FixHint::direction(owned("Write the tag as a string literal, e.g. tagged \"AccountId\"")));
            }
        }
        Some(TypeAlias { name, ty, tag, span: kw.span.to(end) })
    }

    fn parse_type(&mut self) -> (r: Option<Type>)
        requires
            old(self).wf(),
        ensures
            r is None ==> final(self).errors@.len() > old(self).errors@.len(),
            final(self).keeps(*old(self)),
            r is Some ==> final(self).pos > old(self).pos,
        decreases old(self).tokens@.len() - old(self).pos,
    {
        let first = self.expect_ident("a type name")?;
        let start = first.span;
        let mut end = first.span;
        let mut path: Vec<Ident> = Vec::new();
        path.push(first);
        while self.eat(T::Dot)
            invariant
                self.keeps(*old(self)),
                self.pos > old(self).pos,
                path@.len() > 0,
            decreases self.tokens@.len() - self.pos,
        {
            let next = self.expect_ident("a type name")?;
            end = next.span;
            path.push(next);
        }
        let mut args: Vec<Type> = Vec::new();
        if self.eat(T::Lt) {
            loop
                invariant
                    self.keeps(*old(self)),
                    self.pos > old(self).pos,
                decreases self.tokens@.len() - self.pos,
            {
                let arg = self.parse_type()?;
                args.push(arg);
                if !self.eat(T::Comma) {
                    break;
                }
            }
            end = self.cur().span;
            self.expect(T::Gt);
        }
        Some(Type { path, args, span: start.to(end) })
    }

    // ---- record / enum ----

    /// Reads a `{ name: Type ... }` field list (separated by line breaks or
    /// commas) whose opening brace was consumed; answers the span of what closed it.
    fn parse_field_list(&mut self, open_span: Span, fields: &mut Vec<FieldDef>) -> (close: Span)
        requires
            old(self).wf(),
        ensures
            final(self).keeps(*old(self)),
            old(fields)@.is_prefix_of(final(fields)@),
            final(self).errors@.len() > old(self).errors@.len() || {
                &&& final(self).pos > old(self).pos
                &&& final(self).tokens@[final(self).pos - 1].kind == T::RBrace
                &&& close == final(self).tokens@[final(self).pos - 1].span
            },
    {
        loop
            invariant
                self.keeps(*old(self)),
                old(fields)@.is_prefix_of(fields@),
            decreases self.tokens@.len() - self.pos,
        {
            self.skip_newlines();
            if self.at(T::RBrace) {
                let close = self.bump();
                return close.span;
            }
            if self.at(T::Eof) {
                self.unclosed_delimiter("{", open_span, "}");
                return self.cur().span;
            }
            let ghost p0 = self.pos;
            let name = match self.expect_ident("a field name") {
                Some(name) => name,
                None => {
                    self.recover_in_braces();
                    self.eat(T::Comma);
                    assert(self.pos > p0);
                    continue;
                },
            };
            if !self.expect(T::Colon) && !self.at(T::Ident) {
                self.recover_in_braces();
                self.eat(T::Comma);
                continue;
            }
            let ty = match self.parse_type() {
                Some(ty) => ty,
                None => {
                    self.recover_in_braces();
                    self.eat(T::Comma);
                    continue;
                },
            };
            let span = name.span.to(ty.span);
            let ghost f0 = fields@;
            fields.push(FieldDef { name, ty, span });
            proof { assert(old(fields)@.is_prefix_of(fields@)) by { assert(fields@.subrange(0, f0.len() as int) =~= f0); } }
            self.eat(T::Comma);
        }
    }

    fn parse_record(&mut self) -> (r: Option<RecordDecl>)
        requires
            old(self).wf(),
            old(self).kind() == T::Record,
        ensures
            final(self).keeps(*old(self)),
            final(self).pos > old(self).pos,
    {
        let kw = self.bump();
        let name = match self.expect_ident("a record name") {
            Some(name) => name,
            None => {
                self.recover_to_decl();
                return None;
            },
        };
        if !self.at(T::LBrace) {
            self.expect(T::LBrace);
            self.recover_to_decl();
            return None;
        }
        let open = self.bump();
        let mut fields: Vec<FieldDef> = Vec::new();
        let end = self.parse_field_list(open.span, &mut fields);
        Some(RecordDecl { name, fields, span: kw.span.to(end) })
    }

    fn parse_enum(&mut self) -> (r: Option<EnumDecl>)
        requires
            old(self).wf(),
            old(self).kind() == T::Enum,
        ensures
            final(self).keeps(*old(self)),
            final(self).pos > old(self).pos,
    {
        let kw = self.bump();
        let name = match self.expect_ident("an enum name") {
            Some(name) => name,
            None => {
                self.recover_to_decl();
                return None;
            },
        };
        if !self.at(T::LBrace) {
            self.expect(T::LBrace);
            self.recover_to_decl();
            return None;
        }
        let open = self.bump();
        let mut variants: Vec<Variant> = Vec::new();
        let end_span;
        loop
            invariant
                self.keeps(*old(self)),
                self.pos > old(self).pos,
            decreases self.tokens@.len() - self.pos,
        {
            self.skip_newlines();
            if self.at(T::RBrace) {
                end_span = self.bump().span;
                break;
            }
            if self.at(T::Eof) {
                self.unclosed_delimiter("{", open.span, "}");
                end_span = self.cur().span;
                break;
            }
            let ghost p0 = self.pos;
            match self.parse_variant() {
                Some(variant) => variants.push(variant),
                None => {
                    self.recover_in_braces();
                },
            }
            self.eat(T::Comma);
            assert(self.pos > p0);
        }
        Some(EnumDecl { name, variants, span: kw.span.to(end_span) })
    }

    fn parse_variant(&mut self) -> (r: Option<Variant>)
        requires
            old(self).wf(),
        ensures
            final(self).keeps(*old(self)),
            r is Some ==> final(self).pos > old(self).pos,
            r is None ==> final(self).pos == old(self).pos,
            r is Some <==> (old(self).kind() == T::Ident || spec_is_keyword(old(self).kind())),
            r is None ==> final(self).errors@.len() > old(self).errors@.len(),
    {
        let name = self.expect_ident("a variant name")?;
        let mut end = name.span;
        let payload = if self.at(T::LParen) {
            let open = self.bump();
            let mut types: Vec<Type> = Vec::new();
            loop
                invariant
                    self.keeps(*old(self)),
                    self.pos > old(self).pos,
                decreases self.tokens@.len() - self.pos,
            {
                self.skip_newlines();
                if self.at(T::RParen) {
                    break;
                }
                if self.at(T::Eof) {
                    self.unclosed_delimiter("(", open.span, ")");
                    break;
                }
                match self.parse_type() {
                    Some(ty) => types.push(ty),
                    None => {
                        self.recover_in_braces();
                        break;
                    },
                }
                if !self.eat(T::Comma) {
                    break;
                }
            }
            end = self.cur().span;
            self.expect(T::RParen);
            VariantPayload::Tuple { types }
        } else if self.at(T::LBrace) {
            let open = self.bump();
            let mut fields: Vec<FieldDef> = Vec::new();
            end = self.parse_field_list(open.span, &mut fields);
            VariantPayload::Record { fields }
        } else {
            VariantPayload::Unit
        };
        let span = name.span.to(end);
        Some(Variant { name, payload, span })
    }
}

impl Parser {
    // ---- func ----

    fn parse_func(&mut self) -> (r: Option<FuncDecl>)
        requires
            old(self).wf(),
            old(self).kind() == T::Func,
        ensures
            final(self).keeps(*old(self)),
            final(self).pos > old(self).pos,
            r is Some <==> func_head_ok(old(self).tokens@, old(self).pos as int),
            r matches Some(f) ==> f.name.name == old(self).tokens@[old(self).pos + 1].text
                && f.name.span == old(self).tokens@[old(self).pos + 1].span,
            r is None ==> final(self).errors@.len() > old(self).errors@.len(),
    {
        let kw = self.bump();
        let name = match self.expect_ident("a function name") {
            Some(name) => name,
            None => {
                self.recover_to_decl();
                return None;
            },
        };
        if !self.expect(T::LParen) {
            self.recover_to_decl();
            return None;
        }
        let params = self.parse_params();

        let mut ret: Option<Type> = None;
        if self.at_after_newlines(T::Arrow) {
            self.bump();
            ret = self.parse_type();
            if ret.is_none() {
                self.recover_to_stmt_end();
            }
        }

        let mut uses: Vec<EffectRef> = Vec::new();
        let mut pre_clauses: Vec<Expr> = Vec::new();
        let mut post_clauses: Vec<Expr> = Vec::new();
        loop
            invariant
                self.keeps(*old(self)),
                self.pos > old(self).pos,
            decreases self.tokens@.len() - self.pos,
        {
            let save = self.pos;
            self.skip_newlines();
            let k = self.cur_kind();
            if k == T::Uses {
                self.bump();
                self.parse_effect_list(&mut uses);
            } else if k == T::Requires {
                self.bump();
                self.parse_clause_expr(&mut pre_clauses);
            } else if k == T::Ensures {
                self.bump();
                self.parse_clause_expr(&mut post_clauses);
            } else if k == T::Ident {
                let tok = copy_token(self.cur());
                match nearest_clause_keyword(tok.text.as_str()) {
                    Some(kw_text) => {
                        self.error(error::UNKNOWN_CLAUSE,
                            cat3("unknown clause '", tok.text.as_str(), "': contract clauses are 'uses', 'requires', and 'ensures'"),
                            tok.span,
                            FixHint::replace(cat5("Replace '", tok.text.as_str(), "' with '", kw_text, "'"), tok.span, owned(kw_text)));
                        self.bump();
                        if crate::text::str_eq(kw_text, "uses") {
                            self.parse_effect_list(&mut uses);
                        } else if crate::text::str_eq(kw_text, "requires") {
                            self.parse_clause_expr(&mut pre_clauses);
                        } else {
                            self.parse_clause_expr(&mut post_clauses);
                        }
                    },
                    None => {
                        self.pos = save;
                        break;
                    },
                }
            } else {
                if !self.at(T::LBrace) {
                    self.pos = save;
                }
                break;
            }
        }

        self.skip_newlines();
        let body = if self.at(T::LBrace) {
            self.parse_block()
        } else {
            let tok = copy_token(self.cur());
            let label = tok.found_label();
            self.error(error::UNEXPECTED_TOKEN,
                cat2("expected '{' to start the function body, found ", label.as_str()),
                tok.span,
                FixHint::replace(owned("Insert '{'"), Span::point(tok.span.start), owned("{")));
            self.recover_to_decl();
            Block { stmts: Vec::new(), span: Span::point(tok.span.start) }
        };

        let span = kw.span.to(body.span);
        Some(FuncDecl { name, params, ret, uses, requires: pre_clauses, ensures: post_clauses, body, span })
    }

    fn parse_params(&mut self) -> (params: Vec<Param>)
        requires
            old(self).wf(),
            old(self).pos > 0,
        ensures
            final(self).keeps(*old(self)),
            final(self).errors@.len() > old(self).errors@.len() || {
                &&& final(self).pos > old(self).pos
                &&& final(self).tokens@[final(self).pos - 1].kind == T::RParen
            },
    {
        let open_span = self.tokens[self.pos - 1].span;
        let mut params: Vec<Param> = Vec::new();
        loop
            invariant
                self.keeps(*old(self)),
            decreases self.tokens@.len() - self.pos,
        {
            self.skip_newlines();
            if self.at(T::RParen) {
                self.bump();
                return params;
            }
            if self.at(T::Eof) {
                self.unclosed_delimiter("(", open_span, ")");
                return params;
            }
            // A declaration keyword not followed by ':' starts the next
            // declaration: the '(' is taken as unclosed.
            let k = self.cur_kind();
            if (k == T::Module || k == T::Import || k == T::Type || k == T::Record || k == T::Enum || k == T::Func)
                && !(self.pos < self.tokens.len() - 1 && self.tokens[self.pos + 1].kind == T::Colon)
            {
                self.unclosed_delimiter("(", open_span, ")");
                return params;
            }
            let ghost p0 = self.pos;
            let name = match self.expect_ident("a parameter name") {
                Some(name) => name,
                None => {
                    self.recover_in_parens();
                    // A stray ',' would otherwise stop the recovery in place.
                    self.eat(T::Comma);
                    assert(self.pos > p0);
                    continue;
                },
            };
            if !self.expect(T::Colon) && !self.at(T::Ident) {
                self.recover_in_parens();
                continue;
            }
            let ty = match self.parse_type() {
                Some(ty) => ty,
                None => {
                    self.recover_in_parens();
                    continue;
                },
            };
            let span = name.span.to(ty.span);
            params.push(Param { name, ty, span });
            self.skip_newlines();
            let k = self.cur_kind();
            if k == T::Comma {
                self.bump();
            } else if k == T::RParen {
            } else {
                // Taken as a missing ')': the parameter list ends here.
                let tok = copy_token(self.cur());
                let label = tok.found_label();
                self.error(error::UNEXPECTED_TOKEN,
                    cat2("expected ',' or ')' in parameter list, found ", label.as_str()),
                    tok.span,
                    FixHint::replace(owned("Insert ')'"), Span::point(tok.span.start), owned(")")));
                return params;
            }
        }
    }

    fn parse_effect_list(&mut self, uses: &mut Vec<EffectRef>)
        requires
            old(self).wf(),
        ensures
            final(self).keeps(*old(self)),
            old(uses)@.is_prefix_of(final(uses)@),
            final(uses)@.len() > old(uses)@.len() || final(self).errors@.len() > old(self).errors@.len(),
    {
        loop
            invariant
                self.keeps(*old(self)),
                old(uses)@.is_prefix_of(uses@),
            decreases self.tokens@.len() - self.pos,
        {
            match self.parse_path("an effect name") {
                Some(path) => {
                    let start = path[0].span;
                    let end = path[path.len() - 1].span;
                    let ghost u0 = uses@;
                    uses.push(EffectRef { path, span: start.to(end) });
                    proof { assert(uses@.subrange(0, u0.len() as int) =~= u0); }
                },
                None => {
                    self.recover_to_stmt_end();
                    return;
                },
            }
            if !self.eat(T::Comma) {
                return;
            }
        }
    }

    fn parse_clause_expr(&mut self, out: &mut Vec<Expr>)
        requires
            old(self).wf(),
        ensures
            final(self).keeps(*old(self)),
    {
        match self.parse_expr(false) {
            Some(expr) => out.push(expr),
            None => self.recover_to_stmt_end(),
        }
    }

    // ---- statements ----

    fn parse_block(&mut self) -> (b: Block)
        requires
            old(self).wf(),
            old(self).kind() == T::LBrace,
        ensures
            final(self).keeps(*old(self)),
            final(self).pos > old(self).pos,
        decreases old(self).tokens@.len() - old(self).pos, 30nat,
    {
        let open = self.bump();
        let mut stmts: Vec<Stmt> = Vec::new();
        let end_span;
        loop
            invariant
                self.keeps(*old(self)),
                self.pos > old(self).pos,
            decreases self.tokens@.len() - self.pos,
        {
            self.skip_newlines();
            if self.at(T::RBrace) {
                end_span = self.bump().span;
                break;
            }
            if self.at(T::Eof) {
                self.unclosed_delimiter("{", open.span, "}");
                end_span = self.cur().span;
                break;
            }
            let ghost p0 = self.pos;
            match self.parse_stmt() {
                Some(stmt) => {
                    stmts.push(stmt);
                    self.expect_stmt_end();
                },
                None => {
                    self.recover_to_stmt_end();
                },
            }
            assert(self.pos > p0);
        }
        Block { stmts, span: open.span.to(end_span) }
    }

    fn expect_stmt_end(&mut self)
        requires
            old(self).wf(),
        ensures
            final(self).keeps(*old(self)),
            old(self).kind() == T::Newline ==> final(self).errors == old(self).errors
                && final(self).pos > old(self).pos && final(self).kind() != T::Newline,
            old(self).kind() == T::RBrace || old(self).kind() == T::Eof ==> *final(self) == *old(self),
            old(self).kind() != T::Newline && old(self).kind() != T::RBrace && old(self).kind() != T::Eof ==> {
                &&& final(self).errors@.len() == old(self).errors@.len() + 1
                &&& final(self).errors@.last().code@ == error::UNEXPECTED_TOKEN@
            },
    {
        let k = self.cur_kind();
        if k == T::Newline {
            self.bump();
            self.skip_newlines();
        } else if k == T::RBrace || k == T::Eof {
        } else {
            let tok = copy_token(self.cur());
            let label = tok.found_label();
            self.error(error::UNEXPECTED_TOKEN,
                cat2("expected a line break after this statement, found ", label.as_str()),
                tok.span,
                FixHint::replace(owned("Insert a line break"), Span::point(tok.span.start), owned("\n")));
            self.recover_to_stmt_end();
        }
    }

    fn parse_stmt(&mut self) -> (r: Option<Stmt>)
        requires
            old(self).wf(),
        ensures
            r is None ==> final(self).errors@.len() > old(self).errors@.len(),
            final(self).keeps(*old(self)),
            r is Some ==> final(self).pos > old(self).pos,
        decreases old(self).tokens@.len() - old(self).pos, 29nat,
    {
        let k = self.cur_kind();
        if k == T::Let {
            match self.parse_let() {
                Some(s) => Some(Stmt::Let(s)),
                None => None,
            }
        } else if k == T::If {
            match self.parse_if() {
                Some(s) => Some(Stmt::If(s)),
                None => None,
            }
        } else if k == T::Return {
            match self.parse_return() {
                Some(s) => Some(Stmt::Return(s)),
                None => None,
            }
        } else {
            let expr = self.parse_expr(false)?;
            let span = expr.span();
            Some(Stmt::Expr(ExprStmt { expr, span }))
        }
    }

    fn parse_let(&mut self) -> (r: Option<LetStmt>)
        requires
            old(self).wf(),
            old(self).kind() == T::Let,
        ensures
            r is None ==> final(self).errors@.len() > old(self).errors@.len(),
            final(self).keeps(*old(self)),
            final(self).pos > old(self).pos,
        decreases old(self).tokens@.len() - old(self).pos, 27nat,
    {
        let kw = self.bump();
        let name = self.expect_ident("a variable name")?;
        let ty = if self.eat(T::Colon) {
            Some(self.parse_type()?)
        } else {
            None
        };
        if !self.expect(T::Eq) && !is_expr_start(self.cur_kind()) {
            return None;
        }
        let value = self.parse_expr(false)?;
        let mut end = value.span();
        let mut else_fail: Option<Expr> = None;
        if self.at(T::Else) {
            self.bump();
            self.expect(T::Fail);
            let fail_expr = self.parse_expr(false)?;
            end = fail_expr.span();
            else_fail = Some(fail_expr);
        }
        Some(LetStmt { name, ty, value, else_fail, span: kw.span.to(end) })
    }

    fn parse_if(&mut self) -> (r: Option<IfStmt>)
        requires
            old(self).wf(),
            old(self).kind() == T::If,
        ensures
            r is None ==> final(self).errors@.len() > old(self).errors@.len(),
            final(self).keeps(*old(self)),
            final(self).pos > old(self).pos,
        decreases old(self).tokens@.len() - old(self).pos, 28nat,
    {
        let kw = self.bump();
        let cond = self.parse_expr(true)?;
        if !self.at(T::LBrace) {
            let tok = copy_token(self.cur());
            let label = tok.found_label();
            self.error(error::UNEXPECTED_TOKEN,
                cat2("expected '{' after the if condition, found ", label.as_str()),
                tok.span,
                FixHint::replace(owned("Insert '{'"), Span::point(tok.span.start), owned("{")));
            return None;
        }
        let then_block = self.parse_block();
        let mut end = then_block.span;
        let mut else_branch: Option<ElseBranch> = None;
        if self.at_after_newlines(T::Else) {
            self.bump();
            if self.at(T::If) {
                let nested = self.parse_if()?;
                end = nested.span;
                else_branch = Some(ElseBranch::If(Box::new(nested)));
            } else if self.at(T::LBrace) {
                let block = self.parse_block();
                end = block.span;
                else_branch = Some(ElseBranch::Block(block));
            } else {
                let tok = copy_token(self.cur());
                let label = tok.found_label();
                self.error(error::UNEXPECTED_TOKEN,
                    cat2("expected 'if' or '{' after 'else', found ", label.as_str()),
                    tok.span,
                    FixHint::replace(owned("Insert '{'"), Span::point(tok.span.start), owned("{")));
            }
        }
        Some(IfStmt { cond, then_block, else_branch, span: kw.span.to(end) })
    }

    fn parse_return(&mut self) -> (r: Option<ReturnStmt>)
        requires
            old(self).wf(),
            old(self).kind() == T::Return,
        ensures
            r is None ==> final(self).errors@.len() > old(self).errors@.len(),
            final(self).keeps(*old(self)),
            final(self).pos > old(self).pos,
        decreases old(self).tokens@.len() - old(self).pos, 27nat,
    {
        let kw = self.bump();
        let mut span = kw.span;
        let k = self.cur_kind();
        let value = if k == T::Newline || k == T::RBrace || k == T::Eof {
            None
        } else {
            let expr = self.parse_expr(false)?;
            span = kw.span.to(expr.span());
            Some(expr)
        };
        Some(ReturnStmt { value, span })
    }

    // ---- expressions ----

    /// One step of a left-grouping loop at level `l`: joining `lhs` (parsed
    /// from `start.pos`) with `rhs` (parsed from `p1`, just after the operator)
    /// keeps every misgrouping backed by a parenthesis.
    proof fn lemma_grouping_step(&self, start: Parser, lhs: Expr, rhs: Expr, e: Expr, l: nat, p1: nat)
        requires
            self.tokens@ == start.tokens@,
            start.pos < p1 < self.pos,
            binary_below(lhs, l) ==> start.kind() == T::LParen,
            misgrouped(lhs, l) ==> paren_between(start.tokens@, start.pos as int, p1 as int),
            binary_below(rhs, l + 1) ==> self.tokens@[p1 as int].kind == T::LParen,
            e is Binary,
            bin_level(e->Binary_op) == l,
            *e->Binary_lhs == lhs,
            *e->Binary_rhs == rhs,
        ensures
            !binary_below(e, l),
            misgrouped(e, l) ==> self.paren_since(start),
    {
        if binary_below(lhs, l) {
            assert(start.tokens@[start.pos as int].kind == T::LParen);
        }
        if binary_below(rhs, l + 1) {
            assert(start.tokens@[p1 as int].kind == T::LParen);
        }
    }

    fn parse_expr(&mut self, no_struct: bool) -> (r: Option<Expr>)
        requires
            old(self).wf(),
        ensures
            r is None ==> final(self).errors@.len() > old(self).errors@.len(),
            final(self).keeps(*old(self)),
            r is Some ==> final(self).pos > old(self).pos,
        decreases old(self).tokens@.len() - old(self).pos, 10nat,
    {
        self.parse_implies(no_struct)
    }

    fn binary(op: BinOp, lhs: Expr, rhs: Expr) -> (e: Expr)
        ensures
            e is Binary,
            e->Binary_op == op,
            *e->Binary_lhs == lhs,
            *e->Binary_rhs == rhs,
    {
        let span = lhs.span().to(rhs.span());
        Expr::Binary { op, lhs: Box::new(lhs), rhs: Box::new(rhs), span }
    }

    fn parse_implies(&mut self, no_struct: bool) -> (r: Option<Expr>)
        requires
            old(self).wf(),
        ensures
            r is None ==> final(self).errors@.len() > old(self).errors@.len(),
            final(self).keeps(*old(self)),
            r is Some ==> final(self).pos > old(self).pos,
            // `implies` groups to the right: `a implies b implies c` is
            // `a implies (b implies c)`.
            r is Some ==> final(self).kind() != T::Implies,
            r is Some && implies_misgrouped(r->0) ==> old(self).kind() == T::LParen,
        decreases old(self).tokens@.len() - old(self).pos, 9nat,
    {
        let lhs = self.parse_or(no_struct)?;
        if self.at(T::Implies) {
            self.bump();
            // right-associative
            let rhs = self.parse_implies(no_struct)?;
            return Some(Self::binary(BinOp::Implies, lhs, rhs));
        }
        Some(lhs)
    }

    fn parse_or(&mut self, no_struct: bool) -> (r: Option<Expr>)
        requires
            old(self).wf(),
        ensures
            r is None ==> final(self).errors@.len() > old(self).errors@.len(),
            final(self).keeps(*old(self)),
            r is Some ==> final(self).pos > old(self).pos,
            // `||` groups to the left.
            r is Some ==> final(self).kind() != T::OrOr,
            r is Some && binary_below(r->0, 1) ==> old(self).kind() == T::LParen,
            r is Some && misgrouped(r->0, 1)
                ==> final(self).paren_since(*old(self)),
        decreases old(self).tokens@.len() - old(self).pos, 8nat,
    {
        let mut lhs = self.parse_cmp(no_struct)?;
        loop
            invariant
                self.keeps(*old(self)),
                self.pos > old(self).pos,
                binary_below(lhs, 1) ==> old(self).kind() == T::LParen,
                misgrouped(lhs, 1) ==> self.paren_since(*old(self)),
            decreases self.tokens@.len() - self.pos,
        {
            if !self.at(T::OrOr) {
                return Some(lhs);
            }
            self.bump();
            let ghost p1 = self.position();
            let rhs = self.parse_cmp(no_struct)?;
            let ghost (l0, r0) = (lhs, rhs);
            lhs = Self::binary(BinOp::Or, lhs, rhs);
            proof { self.lemma_grouping_step(*old(self), l0, r0, lhs, 1, p1); }
        }
    }

    fn parse_cmp(&mut self, no_struct: bool) -> (r: Option<Expr>)
        requires
            old(self).wf(),
        ensures
            r is None ==> final(self).errors@.len() > old(self).errors@.len(),
            final(self).keeps(*old(self)),
            r is Some ==> final(self).pos > old(self).pos,
            // Comparisons group to the left.
            r is Some ==> !is_comparison_token(final(self).kind()),
            r is Some && binary_below(r->0, 2) ==> old(self).kind() == T::LParen,
            r is Some && misgrouped(r->0, 2)
                ==> final(self).paren_since(*old(self)),
        decreases old(self).tokens@.len() - old(self).pos, 7nat,
    {
        let mut lhs = self.parse_add(no_struct)?;
        loop
            invariant
                self.keeps(*old(self)),
                self.pos > old(self).pos,
                binary_below(lhs, 2) ==> old(self).kind() == T::LParen,
                misgrouped(lhs, 2) ==> self.paren_since(*old(self)),
            decreases self.tokens@.len() - self.pos,
        {
            let k = self.cur_kind();
            let op = if k == T::EqEq { BinOp::Eq }
                else if k == T::NotEq { BinOp::Ne }
                else if k == T::Lt { BinOp::Lt }
                else if k == T::Gt { BinOp::Gt }
                else if k == T::Le { BinOp::Le }
                else if k == T::Ge { BinOp::Ge }
                else { return Some(lhs); };
            self.bump();
            let ghost p1 = self.position();
            let rhs = self.parse_add(no_struct)?;
            let ghost (l0, r0) = (lhs, rhs);
            lhs = Self::binary(op, lhs, rhs);
            proof { self.lemma_grouping_step(*old(self), l0, r0, lhs, 2, p1); }
        }
    }

    fn parse_add(&mut self, no_struct: bool) -> (r: Option<Expr>)
        requires
            old(self).wf(),
        ensures
            r is None ==> final(self).errors@.len() > old(self).errors@.len(),
            final(self).keeps(*old(self)),
            r is Some ==> final(self).pos > old(self).pos,
            // `+` and `-` group to the left: every one of them at this level
            // is taken, and `a - b - c` is `(a - b) - c`; a right operand
            // that is itself a sum or difference was written in parentheses.
            r is Some ==> final(self).kind() != T::Plus && final(self).kind() != T::Minus,
            r is Some && binary_below(r->0, 3) ==> old(self).kind() == T::LParen,
            r is Some && misgrouped(r->0, 3)
                ==> final(self).paren_since(*old(self)),
        decreases old(self).tokens@.len() - old(self).pos, 6nat,
    {
        let mut lhs = self.parse_mul(no_struct)?;
        loop
            invariant
                self.keeps(*old(self)),
                self.pos > old(self).pos,
                binary_below(lhs, 3) ==> old(self).kind() == T::LParen,
                misgrouped(lhs, 3) ==> self.paren_since(*old(self)),
            decreases self.tokens@.len() - self.pos,
        {
            let k = self.cur_kind();
            let op = if k == T::Plus { BinOp::Add }
                else if k == T::Minus { BinOp::Sub }
                else { return Some(lhs); };
            self.bump();
            let ghost p1 = self.position();
            let rhs = self.parse_mul(no_struct)?;
            let ghost (l0, r0) = (lhs, rhs);
            lhs = Self::binary(op, lhs, rhs);
            proof { self.lemma_grouping_step(*old(self), l0, r0, lhs, 3, p1); }
        }
    }

    fn parse_mul(&mut self, no_struct: bool) -> (r: Option<Expr>)
        requires
            old(self).wf(),
        ensures
            r is None ==> final(self).errors@.len() > old(self).errors@.len(),
            final(self).keeps(*old(self)),
            r is Some ==> final(self).pos > old(self).pos,
            // `*`, `/` and `%` group to the left, like `+` and `-`.
            r is Some ==> final(self).kind() != T::Star && final(self).kind() != T::Slash && final(self).kind() != T::Percent,
            r is Some && binary_below(r->0, 4) ==> old(self).kind() == T::LParen,
            r is Some && misgrouped(r->0, 4)
                ==> final(self).paren_since(*old(self)),
        decreases old(self).tokens@.len() - old(self).pos, 5nat,
    {
        let mut lhs = self.parse_unary(no_struct)?;
        loop
            invariant
                self.keeps(*old(self)),
                self.pos > old(self).pos,
                binary_below(lhs, 4) ==> old(self).kind() == T::LParen,
                misgrouped(lhs, 4) ==> self.paren_since(*old(self)),
            decreases self.tokens@.len() - self.pos,
        {
            let k = self.cur_kind();
            let op = if k == T::Star { BinOp::Mul }
                else if k == T::Slash { BinOp::Div }
                else if k == T::Percent { BinOp::Rem }
                else { return Some(lhs); };
            self.bump();
            let ghost p1 = self.position();
            let rhs = self.parse_unary(no_struct)?;
            let ghost (l0, r0) = (lhs, rhs);
            lhs = Self::binary(op, lhs, rhs);
            proof { self.lemma_grouping_step(*old(self), l0, r0, lhs, 4, p1); }
        }
    }

    fn parse_unary(&mut self, no_struct: bool) -> (r: Option<Expr>)
        requires
            old(self).wf(),
        ensures
            r is None ==> final(self).errors@.len() > old(self).errors@.len(),
            final(self).keeps(*old(self)),
            r is Some ==> final(self).pos > old(self).pos,
            r is Some && r->0 is Binary ==> old(self).kind() == T::LParen,
        decreases old(self).tokens@.len() - old(self).pos, 4nat,
    {
        let k = self.cur_kind();
        let op = if k == T::Minus {
            UnaryOp::Neg
        } else if k == T::Bang {
            UnaryOp::Not
        } else {
            return self.parse_postfix(no_struct);
        };
        let tok = self.bump();
        let expr = self.parse_unary(no_struct)?;
        let span = tok.span.to(expr.span());
        Some(Expr::Unary { op, expr: Box::new(expr), span })
    }

    fn parse_postfix(&mut self, no_struct: bool) -> (r: Option<Expr>)
        requires
            old(self).wf(),
        ensures
            r is None ==> final(self).errors@.len() > old(self).errors@.len(),
            final(self).keeps(*old(self)),
            r is Some ==> final(self).pos > old(self).pos,
            r is Some && r->0 is Binary ==> old(self).kind() == T::LParen,
        decreases old(self).tokens@.len() - old(self).pos, 3nat,
    {
        let mut expr = self.parse_primary()?;
        loop
            invariant
                self.keeps(*old(self)),
                self.pos > old(self).pos,
                expr is Binary ==> old(self).kind() == T::LParen,
            decreases self.tokens@.len() - self.pos,
        {
            let ghost p0 = self.pos;
            let k = self.cur_kind();
            if k == T::Dot {
                self.bump();
                let name = self.expect_member_ident()?;
                let span = expr.span().to(name.span);
                expr = Expr::Field { base: Box::new(expr), name, span };
                assert(self.pos > p0);
            } else if k == T::LParen {
                let open = self.bump();
                let mut args: Vec<Expr> = Vec::new();
                loop
                    invariant
                        self.keeps(*old(self)),
                        self.pos > old(self).pos,
                        self.pos > p0,
                    decreases self.tokens@.len() - self.pos,
                {
                    self.skip_newlines();
                    if self.at(T::RParen) {
                        break;
                    }
                    if self.at(T::Eof) {
                        self.unclosed_delimiter("(", open.span, ")");
                        break;
                    }
                    let arg = self.parse_expr(false)?;
                    args.push(arg);
                    self.skip_newlines();
                    if !self.eat(T::Comma) {
                        break;
                    }
                }
                let close = self.cur().span;
                self.expect(T::RParen);
                let span = expr.span().to(close);
                expr = Expr::Call { callee: Box::new(expr), args, span };
                assert(self.pos > p0);
            } else if k == T::LBrace && !no_struct {
                let path = match path_of(&expr) {
                    Some(path) => path,
                    None => { return Some(expr); },
                };
                expr = self.parse_record_lit(path)?;
                assert(self.pos > p0);
            } else {
                return Some(expr);
            }
        }
    }

    fn parse_record_lit(&mut self, path: Vec<Ident>) -> (r: Option<Expr>)
        requires
            old(self).wf(),
            old(self).kind() == T::LBrace,
            path@.len() > 0,
        ensures
            r is None ==> final(self).errors@.len() > old(self).errors@.len(),
            final(self).keeps(*old(self)),
            final(self).pos > old(self).pos,
            r is Some ==> r->0 is RecordLit,
        decreases old(self).tokens@.len() - old(self).pos, 2nat,
    {
        let open = self.bump();
        let start = path[0].span;
        let mut fields: Vec<RecordLitField> = Vec::new();
        let end;
        loop
            invariant
                self.keeps(*old(self)),
                self.pos > old(self).pos,
            decreases self.tokens@.len() - self.pos,
        {
            self.skip_newlines();
            if self.at(T::RBrace) {
                end = self.bump().span;
                break;
            }
            if self.at(T::Eof) {
                self.unclosed_delimiter("{", open.span, "}");
                end = self.cur().span;
                break;
            }
            let ghost p0 = self.pos;
            let name = match self.expect_ident("a field name") {
                Some(name) => name,
                None => {
                    self.recover_in_braces();
                    self.eat(T::Comma);
                    assert(self.pos > p0);
                    continue;
                },
            };
            let mut span = name.span;
            let value = if self.eat(T::Colon) {
                let expr = self.parse_expr(false)?;
                span = span.to(expr.span());
                Some(expr)
            } else {
                None
            };
            fields.push(RecordLitField { name, value, span });
            self.skip_newlines();
            if !self.eat(T::Comma) && !self.at(T::RBrace) && !self.at(T::Eof) {
                let tok = copy_token(self.cur());
                let label = tok.found_label();
                self.error(error::UNEXPECTED_TOKEN,
                    cat2("expected ',' or '}' in record literal, found ", label.as_str()),
                    tok.span,
                    FixHint::replace(owned("Insert ','"), Span::point(tok.span.start), owned(",")));
                self.recover_in_braces();
            }
        }
        Some(Expr::RecordLit { path, fields, span: start.to(end) })
    }

    fn parse_primary(&mut self) -> (r: Option<Expr>)
        requires
            old(self).wf(),
        ensures
            r is None ==> final(self).errors@.len() > old(self).errors@.len(),
            final(self).keeps(*old(self)),
            r is Some ==> final(self).pos > old(self).pos,
            r is Some && r->0 is Binary ==> old(self).kind() == T::LParen,
        decreases old(self).tokens@.len() - old(self).pos, 1nat,
    {
        let tok = copy_token(self.cur());
        let k = tok.kind;
        if k == T::Int {
            self.bump();
            let digits = chars_of(tok.text.as_str());
            let value = if all_digits_exec(&digits) {
                match parse_i64_digits(&digits) {
                    Some(v) => v,
                    None => 0,
                }
            } else {
                0
            };
            Some(Expr::Int { value, span: tok.span })
        } else if k == T::Str {
            self.bump();
            Some(Expr::Str { value: tok.text, span: tok.span })
        } else if k == T::True || k == T::False {
            self.bump();
            Some(Expr::Bool { value: k == T::True, span: tok.span })
        } else if k == T::Ident {
            self.bump();
            Some(Expr::Name { name: tok.text, span: tok.span })
        } else if k == T::LParen {
            self.bump();
            let expr = self.parse_expr(false)?;
            self.expect(T::RParen);
            Some(expr)
        } else if k == T::Match {
            self.parse_match()
        } else if k == T::LBracket {
            let open = self.bump();
            let mut elements: Vec<Expr> = Vec::new();
            loop
                invariant
                    self.keeps(*old(self)),
                    self.pos > old(self).pos,
                decreases self.tokens@.len() - self.pos,
            {
                self.skip_newlines();
                if self.at(T::RBracket) {
                    break;
                }
                if self.at(T::Eof) {
                    self.unclosed_delimiter("[", open.span, "]");
                    break;
                }
                let element = self.parse_expr(false)?;
                elements.push(element);
                self.skip_newlines();
                if !self.eat(T::Comma) {
                    break;
                }
            }
            let close = self.cur().span;
            self.expect(T::RBracket);
            Some(Expr::ListLit { elements, span: open.span.to(close) })
        } else if k == T::Type || k == T::Record || k == T::Enum || k == T::Module || k == T::Import
            || k == T::Tagged || k == T::As || k == T::Uses || k == T::Requires || k == T::Ensures
        {
            // Reserved words that cannot start a statement are taken as an
            // intended identifier (recovery).
            let fix = FixHint::replace(cat3("Rename to '", tok.text.as_str(), "_'"), tok.span, cat2(tok.text.as_str(), "_"));
            self.error(error::RESERVED_IDENT,
                cat3("'", tok.text.as_str(), "' is a reserved keyword and cannot be used as an expression"),
                tok.span, fix);
            self.bump();
            Some(Expr::Name { name: tok.text, span: tok.span })
        } else {
            let label = tok.found_label();
            self.error(error::UNEXPECTED_TOKEN, cat2("expected an expression, found ", label.as_str()),
                tok.span, FixHint::direction(owned("Write an expression here")));
            None
        }
    }
}

fn all_digits_exec(v: &Vec<char>) -> (r: bool)
    ensures
        r == all_digits(v@),
{
    let mut i: usize = 0;
    while i < v.len()
        invariant
            i <= v.len(),
            forall|j: int| 0 <= j < i ==> crate::lexer::is_digit(#[trigger] v@[j]),
        decreases v.len() - i,
    {
        if !('0' <= v[i] && v[i] <= '9') {
            return false;
        }
        i = i + 1;
    }
    true
}

/// Whether a token can start an expression.
fn is_expr_start(kind: T) -> bool {
    kind == T::Ident || kind == T::Int || kind == T::Str || kind == T::True || kind == T::False
        || kind == T::LParen || kind == T::LBracket || kind == T::Minus || kind == T::Bang
}

/// The identifiers of a pure path expression (`A.B.C`), if it is one.
pub open spec fn ident_path(e: Expr) -> Option<Seq<Ident>>
    decreases e,
{
    match e {
        Expr::Name { name, span } => Some(seq![Ident { name, span }]),
        Expr::Field { base, name, .. } => match ident_path(*base) {
            Some(p) => Some(p.push(name)),
            None => None,
        },
        _ => None,
    }
}

/// The identifier path of a pure path expression (`A.B.C`); used to decide
/// whether `{` starts a record literal.
fn path_of(expr: &Expr) -> (r: Option<Vec<Ident>>)
    ensures
        r matches Some(p) ==> p@.len() > 0,
        r is Some == ident_path(*expr) is Some,
        r matches Some(p) ==> p@ == ident_path(*expr)->0,
    decreases expr,
{
    match expr {
        Expr::Name { name, span } => {
            let mut v: Vec<Ident> = Vec::new();
            v.push(Ident { name: name.clone(), span: *span });
            Some(v)
        },
        Expr::Field { base, name, .. } => {
            let mut path = path_of(base)?;
            path.push(copy_ident(name));
            Some(path)
        },
        _ => None,
    }
}

/// The clause keyword nearest to `text` within edit distance two, the
/// earliest of `uses`, `requires`, `ensures` on ties (misspelling detection).
pub open spec fn spec_nearest_clause_keyword(text: Seq<char>) -> Option<Seq<char>> {
    let d0 = edit_distance(text, "uses"@);
    let d1 = edit_distance(text, "requires"@);
    let d2 = edit_distance(text, "ensures"@);
    if d0 <= 2 && d0 <= d1 && d0 <= d2 {
        Some("uses"@)
    } else if d1 <= 2 && (d1 <= d2 || d2 > 2) {
        Some("requires"@)
    } else if d2 <= 2 {
        Some("ensures"@)
    } else {
        None
    }
}

fn nearest_clause_keyword(text: &str) -> (r: Option<&'static str>)
    ensures
        r matches Some(t) ==> spec_nearest_clause_keyword(text@) == Some(t@),
        r is None ==> spec_nearest_clause_keyword(text@) is None,
{
    proof {
        reveal_strlit("uses");
        reveal_strlit("requires");
        reveal_strlit("ensures");
    }
    // Every keyword has at most 8 characters, so a longer text is more
    // than two edits away from all of them.
    if chars_of(text).len() > 10 {
        proof {
            lemma_edit_distance_lower_bound(text@, "uses"@);
            lemma_edit_distance_lower_bound(text@, "requires"@);
            lemma_edit_distance_lower_bound(text@, "ensures"@);
        }
        return None;
    }
    let d0 = levenshtein(text, "uses");
    let d1 = levenshtein(text, "requires");
    let d2 = levenshtein(text, "ensures");
    if d0 <= 2 && d0 <= d1 && d0 <= d2 {
        Some("uses")
    } else if d1 <= 2 && (d1 <= d2 || d2 > 2) {
        Some("requires")
    } else if d2 <= 2 {
        Some("ensures")
    } else {
        None
    }
}

pub open spec fn stops_in_braces(k: T) -> bool {
    k == T::Eof || k == T::Newline || k == T::Comma || k == T::RBrace
}

pub open spec fn stops_in_parens(k: T) -> bool {
    k == T::Eof || k == T::Newline || k == T::Comma || k == T::RParen
}

impl Parser {
    // ---- extern ----

    /// `extern [query] Path.name(params) [-> Type] [uses Effect, ...]`: the
    /// signature of an outside function.
    fn parse_extern(&mut self) -> (r: Option<ExternDecl>)
        requires
            old(self).wf(),
            old(self).kind() == T::Extern,
        ensures
            final(self).keeps(*old(self)),
            final(self).pos > old(self).pos,
    {
        let kw = self.bump();
        let mut query = false;
        if self.at(T::Ident) && self.pos < self.tokens.len() - 1 && self.tokens[self.pos + 1].kind == T::Ident {
            let tok = copy_token(self.cur());
            if crate::text::str_eq(tok.text.as_str(), "query") {
                query = true;
                self.bump();
            }
        }
        let path = match self.parse_path("an external function name") {
            Some(p) => p,
            None => {
                self.recover_to_decl();
                return None;
            },
        };
        if !self.expect(T::LParen) {
            self.recover_to_decl();
            return None;
        }
        let params = self.parse_params();
        let mut ret: Option<Type> = None;
        if self.at(T::Arrow) {
            self.bump();
            ret = self.parse_type();
            if ret.is_none() {
                self.recover_to_stmt_end();
            }
        }
        let mut uses: Vec<EffectRef> = Vec::new();
        if self.at(T::Uses) {
            self.bump();
            self.parse_effect_list(&mut uses);
        }
        let end = self.tokens[self.pos - 1].span;
        Some(ExternDecl { query, path, params, ret, uses, span: kw.span.to(end) })
    }

    // ---- match ----

    /// `match <scrutinee> { <pattern> => <expr>, ... }`; arms are separated by
    /// `,` or line breaks.
    fn parse_match(&mut self) -> (r: Option<Expr>)
        requires
            old(self).wf(),
            old(self).kind() == T::Match,
        ensures
            r is None ==> final(self).errors@.len() > old(self).errors@.len(),
            final(self).keeps(*old(self)),
            final(self).pos > old(self).pos,
            r is Some ==> r->0 is Match,
        decreases old(self).tokens@.len() - old(self).pos, 0nat,
    {
        let kw = self.bump();
        let scrutinee = self.parse_expr(true)?;
        self.skip_newlines();
        if !self.at(T::LBrace) {
            self.expect(T::LBrace);
            return None;
        }
        let open = self.bump();
        let mut arms: Vec<MatchArm> = Vec::new();
        let end;
        loop
            invariant
                self.keeps(*old(self)),
                self.pos > old(self).pos,
            decreases self.tokens@.len() - self.pos,
        {
            self.skip_newlines();
            if self.at(T::RBrace) {
                end = self.bump().span;
                break;
            }
            if self.at(T::Eof) {
                self.unclosed_delimiter("{", open.span, "}");
                end = self.cur().span;
                break;
            }
            let p0 = self.pos;
            let pattern = match self.parse_pattern() {
                Some(p) => p,
                None => {
                    self.recover_in_braces();
                    self.eat(T::Comma);
                    if self.pos == p0 {
                        self.bump();
                    }
                    continue;
                },
            };
            if !self.expect(T::FatArrow) {
                self.recover_in_braces();
                self.eat(T::Comma);
                continue;
            }
            let body = self.parse_expr(false)?;
            let span = pattern.span.to(body.span());
            arms.push(MatchArm { pattern, body, span });
            if !self.eat(T::Comma) && !self.at(T::Newline) && !self.at(T::RBrace) && !self.at(T::Eof) {
                let tok = copy_token(self.cur());
                let label = tok.found_label();
                self.error(error::UNEXPECTED_TOKEN,
                    cat2("expected ',' or '}' after a match arm, found ", label.as_str()),
                    tok.span,
                    FixHint::replace(owned("Insert ','"), Span::point(tok.span.start), owned(",")));
                self.recover_in_braces();
            }
        }
        Some(Expr::Match { scrutinee: Box::new(scrutinee), arms, span: kw.span.to(end) })
    }

    /// `Path`, `Path(a, b)` or `Path { a, b }`.
    fn parse_pattern(&mut self) -> (r: Option<Pattern>)
        requires
            old(self).wf(),
        ensures
            r is None ==> final(self).errors@.len() > old(self).errors@.len(),
            final(self).keeps(*old(self)),
            r is Some ==> final(self).pos > old(self).pos,
    {
        let path = self.parse_path("a pattern")?;
        let start = path[0].span;
        let mut end = path[path.len() - 1].span;
        let payload = if self.at(T::LParen) {
            let open = self.bump();
            let mut bindings: Vec<Ident> = Vec::new();
            loop
                invariant
                    self.keeps(*old(self)),
                    self.pos > old(self).pos,
                decreases self.tokens@.len() - self.pos,
            {
                if self.at(T::RParen) {
                    end = self.bump().span;
                    break;
                }
                if self.at(T::Eof) || self.at(T::Newline) {
                    self.unclosed_delimiter("(", open.span, ")");
                    break;
                }
                match self.expect_ident("a binding name") {
                    Some(b) => bindings.push(b),
                    None => {
                        self.recover_in_parens();
                        if !self.eat(T::Comma) {
                            break;
                        }
                        continue;
                    },
                }
                if !self.eat(T::Comma) {
                    let close = self.cur().span;
                    if self.expect(T::RParen) {
                        end = close;
                    }
                    break;
                }
            }
            PatternPayload::Tuple { bindings }
        } else if self.at(T::LBrace) {
            let open = self.bump();
            let mut fields: Vec<Ident> = Vec::new();
            loop
                invariant
                    self.keeps(*old(self)),
                    self.pos > old(self).pos,
                decreases self.tokens@.len() - self.pos,
            {
                if self.at(T::RBrace) {
                    end = self.bump().span;
                    break;
                }
                if self.at(T::Eof) || self.at(T::Newline) {
                    self.unclosed_delimiter("{", open.span, "}");
                    break;
                }
                match self.expect_ident("a field name") {
                    Some(f) => fields.push(f),
                    None => {
                        self.recover_in_braces();
                        if !self.eat(T::Comma) {
                            break;
                        }
                        continue;
                    },
                }
                if !self.eat(T::Comma) {
                    let close = self.cur().span;
                    if self.expect(T::RBrace) {
                        end = close;
                    }
                    break;
                }
            }
            PatternPayload::Record { fields }
        } else {
            PatternPayload::Unit
        };
        Some(Pattern { path, payload, span: start.to(end) })
    }
}

} // verus!
