//! The Kei syntax tree. Every node keeps its source span; the tree knows
//! nothing about types.
use vstd::prelude::*;
use crate::span::Span;

verus! {

#[derive(Debug, Clone, PartialEq, Eq)]
pub struct Ident {
    pub name: String,
    pub span: Span,
}

/// The root of one parsed source file.
#[derive(Debug, PartialEq, Eq)]
pub struct Module {
    pub decl: Option<ModuleDecl>,
    pub imports: Vec<Import>,
    pub items: Vec<Item>,
    pub span: Span,
}

/// `module payments.transfer`
#[derive(Debug, Clone, PartialEq, Eq)]
pub struct ModuleDecl {
    pub path: Vec<Ident>,
    pub span: Span,
}

/// `import core.money { Money }` / `import infra.database as Database`
#[derive(Debug, PartialEq, Eq)]
pub struct Import {
    pub path: Vec<Ident>,
    /// The names listed in `{ ... }`; empty for a whole-module import.
    pub names: Vec<Ident>,
    pub alias: Option<Ident>,
    pub span: Span,
}

#[derive(Debug, PartialEq, Eq)]
pub enum Item {
    TypeAlias(TypeAlias),
    Record(RecordDecl),
    Enum(EnumDecl),
    Func(FuncDecl),
    Extern(ExternDecl),
}

/// The signature of an outside function, e.g. `extern Time.now() -> Int uses Clock`.
#[derive(Debug, PartialEq, Eq)]
pub struct ExternDecl {
    /// A side-effect-free observer (`extern query ...`), callable from contracts.
    pub query: bool,
    pub path: Vec<Ident>,
    pub params: Vec<Param>,
    pub ret: Option<Type>,
    pub uses: Vec<EffectRef>,
    pub span: Span,
}

/// `type AccountId = String tagged "AccountId"`
#[derive(Debug, PartialEq, Eq)]
pub struct TypeAlias {
    pub name: Ident,
    pub ty: Type,
    /// The phantom tag (`tagged "..."`).
    pub tag: Option<String>,
    pub span: Span,
}

#[derive(Debug, PartialEq, Eq)]
pub struct RecordDecl {
    pub name: Ident,
    pub fields: Vec<FieldDef>,
    pub span: Span,
}

#[derive(Debug, PartialEq, Eq)]
pub struct FieldDef {
    pub name: Ident,
    pub ty: Type,
    pub span: Span,
}

#[derive(Debug, PartialEq, Eq)]
pub struct EnumDecl {
    pub name: Ident,
    pub variants: Vec<Variant>,
    pub span: Span,
}

#[derive(Debug, PartialEq, Eq)]
pub struct Variant {
    pub name: Ident,
    pub payload: VariantPayload,
    pub span: Span,
}

#[derive(Debug, PartialEq, Eq)]
pub enum VariantPayload {
    /// `Timeout`
    Unit,
    /// `NotFound(AccountId)`
    Tuple { types: Vec<Type> },
    /// `InsufficientFunds { needed: Money, had: Money }`
    Record { fields: Vec<FieldDef> },
}

#[derive(Debug, PartialEq, Eq)]
pub struct FuncDecl {
    pub name: Ident,
    pub params: Vec<Param>,
    pub ret: Option<Type>,
    pub uses: Vec<EffectRef>,
    pub requires: Vec<Expr>,
    pub ensures: Vec<Expr>,
    pub body: Block,
    pub span: Span,
}

#[derive(Debug, PartialEq, Eq)]
pub struct Param {
    pub name: Ident,
    pub ty: Type,
    pub span: Span,
}

/// One effect of a `uses` clause, e.g. `Database.Write`.
#[derive(Debug, PartialEq, Eq)]
pub struct EffectRef {
    pub path: Vec<Ident>,
    pub span: Span,
}

/// A type reference such as `Result<TransferReceipt, TransferError>`.
#[derive(Debug, PartialEq, Eq)]
pub struct Type {
    pub path: Vec<Ident>,
    pub args: Vec<Type>,
    pub span: Span,
}

#[derive(Debug, PartialEq, Eq)]
pub struct Block {
    pub stmts: Vec<Stmt>,
    pub span: Span,
}

#[derive(Debug, PartialEq, Eq)]
pub enum Stmt {
    Let(LetStmt),
    If(IfStmt),
    Return(ReturnStmt),
    Expr(ExprStmt),
}

/// `let x: T = expr else fail expr`
#[derive(Debug, PartialEq, Eq)]
pub struct LetStmt {
    pub name: Ident,
    pub ty: Option<Type>,
    pub value: Expr,
    /// The failure value of `else fail <expr>`.
    pub else_fail: Option<Expr>,
    pub span: Span,
}

#[derive(Debug, PartialEq, Eq)]
pub struct IfStmt {
    pub cond: Expr,
    pub then_block: Block,
    pub else_branch: Option<ElseBranch>,
    pub span: Span,
}

#[derive(Debug, PartialEq, Eq)]
pub enum ElseBranch {
    If(Box<IfStmt>),
    Block(Block),
}

#[derive(Debug, PartialEq, Eq)]
pub struct ReturnStmt {
    pub value: Option<Expr>,
    pub span: Span,
}

#[derive(Debug, PartialEq, Eq)]
pub struct ExprStmt {
    pub expr: Expr,
    pub span: Span,
}

#[derive(Debug, PartialEq, Eq)]
pub enum Expr {
    Int { value: i64, span: Span },
    Str { value: String, span: Span },
    Bool { value: bool, span: Span },
    Name { name: String, span: Span },
    /// `expr.field`
    Field { base: Box<Expr>, name: Ident, span: Span },
    /// `callee(args...)`
    Call { callee: Box<Expr>, args: Vec<Expr>, span: Span },
    Unary { op: UnaryOp, expr: Box<Expr>, span: Span },
    Binary { op: BinOp, lhs: Box<Expr>, rhs: Box<Expr>, span: Span },
    /// `Path { field: expr, shorthand }`
    RecordLit { path: Vec<Ident>, fields: Vec<RecordLitField>, span: Span },
    /// `match <scrutinee> { <pattern> => <expr>, ... }`
    Match { scrutinee: Box<Expr>, arms: Vec<MatchArm>, span: Span },
    /// `[a, b, c]`
    ListLit { elements: Vec<Expr>, span: Span },
}

/// The span of an expression node.
pub open spec fn expr_span(e: Expr) -> Span {
    match e {
        Expr::Int { span, .. } => span,
        Expr::Str { span, .. } => span,
        Expr::Bool { span, .. } => span,
        Expr::Name { span, .. } => span,
        Expr::Field { span, .. } => span,
        Expr::Call { span, .. } => span,
        Expr::Unary { span, .. } => span,
        Expr::Binary { span, .. } => span,
        Expr::RecordLit { span, .. } => span,
        Expr::Match { span, .. } => span,
        Expr::ListLit { span, .. } => span,
    }
}

impl Expr {
    pub fn span(&self) -> (s: Span)
        ensures
            s == expr_span(*self),
    {
        match self {
            Expr::Int { span, .. } => *span,
            Expr::Str { span, .. } => *span,
            Expr::Bool { span, .. } => *span,
            Expr::Name { span, .. } => *span,
            Expr::Field { span, .. } => *span,
            Expr::Call { span, .. } => *span,
            Expr::Unary { span, .. } => *span,
            Expr::Binary { span, .. } => *span,
            Expr::RecordLit { span, .. } => *span,
            Expr::Match { span, .. } => *span,
            Expr::ListLit { span, .. } => *span,
        }
    }
}

/// One arm of a `match`: `<pattern> => <body>`.
#[derive(Debug, PartialEq, Eq)]
pub struct MatchArm {
    pub pattern: Pattern,
    pub body: Expr,
    pub span: Span,
}

/// A one-level constructor pattern. `path` is the constructor (`Some` / `None`
/// / `Ok` / `Err` or `Enum.Variant`); `payload` is the binding shape.
#[derive(Debug, PartialEq, Eq)]
pub struct Pattern {
    pub path: Vec<Ident>,
    pub payload: PatternPayload,
    pub span: Span,
}

#[derive(Debug, PartialEq, Eq)]
pub enum PatternPayload {
    /// `None` / `E.Unit`
    Unit,
    /// `Some(x)` / `Ok(x)` / `E.V(a, b)`
    Tuple { bindings: Vec<Ident> },
    /// `E.V { a, b }`
    Record { fields: Vec<Ident> },
}

#[derive(Debug, PartialEq, Eq)]
pub struct RecordLitField {
    pub name: Ident,
    /// `None` for the shorthand form (`Transfer { from, to }`).
    pub value: Option<Expr>,
    pub span: Span,
}

#[derive(Debug, Clone, Copy, PartialEq, Eq, Structural)]
pub enum UnaryOp {
    Neg,
    Not,
}

#[derive(Debug, Clone, Copy, PartialEq, Eq, Structural)]
pub enum BinOp {
    Eq,
    Ne,
    Lt,
    Gt,
    Le,
    Ge,
    Add,
    Sub,
    Mul,
    Div,
    Rem,
    Or,
    Implies,
}

} // verus!
