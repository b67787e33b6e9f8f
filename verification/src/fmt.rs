//! The canonical layout of Kei source. The output depends on the syntax tree
//! alone (spans only place the `//` comments): two-space indentation, one
//! declaration per chunk with a blank line between chunks (consecutive
//! `extern` lines form one chunk), the fewest parentheses that keep the
//! tree, and every comment kept, in source order.
use vstd::prelude::*;
use crate::ast::{BinOp, Block, EffectRef, ElseBranch, EnumDecl, Expr, ExternDecl, FieldDef, FuncDecl, IfStmt, Import, Item, LetStmt, MatchArm,
    Module, Param, RecordDecl, RecordLitField, Stmt, Type, TypeAlias, UnaryOp, Variant, VariantPayload};
use crate::notation::{names_text, path_text, pattern_text, string_literal};
use crate::span::Span;
use crate::syntax::Comment;
use crate::text::{int_text, push_char, push_i64, push_str, repeat_text};

verus! {

broadcast use vstd::string::group_string_axioms;

// ---------------------------------------------------------------------------
// Types
// ---------------------------------------------------------------------------

/// `a.b.C<X, Y>`
pub open spec fn fmt_type(t: Type) -> Seq<char>
    decreases t, 1nat,
{
    path_text(t.path@, t.path@.len()) + if t.args@.len() == 0 {
        Seq::<char>::empty()
    } else {
        "<"@ + fmt_types(t.args@, t.args@.len()) + ">"@
    }
}

/// The first `n` types, joined with `, `.
pub open spec fn fmt_types(ts: Seq<Type>, n: nat) -> Seq<char>
    decreases ts, n,
{
    if n == 0 || n > ts.len() {
        Seq::empty()
    } else if n == 1 {
        fmt_type(ts[0])
    } else {
        fmt_types(ts, (n - 1) as nat) + ", "@ + fmt_type(ts[n - 1])
    }
}

fn push_type(s: &mut String, t: &Type)
    ensures
        final(s)@ == old(s)@ + fmt_type(*t),
    decreases *t, 1nat,
{
    let ghost s0 = s@;
    crate::notation::push_path(s, &t.path);
    if t.args.len() > 0 {
        push_str(s, "<");
        push_types(s, &t.args);
        push_str(s, ">");
    }
    assert(s@ =~= s0 + fmt_type(*t));
}

fn push_types(s: &mut String, ts: &Vec<Type>)
    ensures
        final(s)@ == old(s)@ + fmt_types(ts@, ts@.len()),
    decreases ts@, 0nat,
{
    let ghost s0 = s@;
    let mut i: usize = 0;
    while i < ts.len()
        invariant
            i <= ts@.len(),
            s@ == s0 + fmt_types(ts@, i as nat),
        decreases ts@.len() - i,
    {
        if i > 0 {
            push_str(s, ", ");
        }
        assert(decreases_to!(ts@ => ts@[i as int]));
        push_type(s, &ts[i]);
        proof {
            if i > 0 {
                assert(s@ =~= s0 + (fmt_types(ts@, i as nat) + ", "@ + fmt_type(ts@[i as int])));
            } else {
                assert(s@ =~= s0 + fmt_type(ts@[0]));
            }
        }
        i = i + 1;
    }
}

// ---------------------------------------------------------------------------
// Expressions
// ---------------------------------------------------------------------------

/// Binding strength of a binary operator (larger binds tighter).
pub open spec fn fmt_bin_prec(op: BinOp) -> nat {
    match op {
        BinOp::Implies => 1,
        BinOp::Or => 2,
        BinOp::Eq | BinOp::Ne | BinOp::Lt | BinOp::Gt | BinOp::Le | BinOp::Ge => 3,
        BinOp::Add | BinOp::Sub => 4,
        BinOp::Mul | BinOp::Div | BinOp::Rem => 5,
    }
}

/// Binding strength of an expression: unary 5, postfix forms 6, atoms 7.
pub open spec fn fmt_prec(e: Expr) -> nat {
    match e {
        Expr::Binary { op, .. } => fmt_bin_prec(op),
        Expr::Unary { .. } => 5,
        Expr::Field { .. } | Expr::Call { .. } | Expr::RecordLit { .. } => 6,
        _ => 7,
    }
}

/// The level of the next indentation step (saturating).
pub open spec fn deeper(level: usize) -> usize {
    if level < usize::MAX { (level + 1) as usize } else { level }
}

/// `level` indentation steps.
pub open spec fn indent_text(level: usize) -> Seq<char> {
    repeat_text("  "@, level as nat)
}

/// Whether `e` needs parentheses where the context asks for binding strength
/// `min` (and forbids a bare record literal when `no_struct`, as in an `if`
/// condition or a `match` scrutinee).
pub open spec fn needs_parens(e: Expr, min: nat, no_struct: bool) -> bool {
    fmt_prec(e) < min || (no_struct && e is RecordLit)
}

/// The layout of `e` in a context of binding strength `min`; `level` is the
/// indentation of the line the expression starts on (a `match` spans lines).
pub open spec fn fmt_expr(e: Expr, min: nat, no_struct: bool, level: usize) -> Seq<char>
    decreases e, 1nat,
{
    if needs_parens(e, min, no_struct) {
        "("@ + fmt_bare(e, false, level) + ")"@
    } else {
        fmt_bare(e, no_struct, level)
    }
}

pub open spec fn fmt_bare(e: Expr, no_struct: bool, level: usize) -> Seq<char>
    decreases e, 0nat,
{
    match e {
        Expr::Int { value, .. } => int_text(value as int),
        Expr::Str { value, .. } => string_literal(value@),
        Expr::Bool { value, .. } => if value { "true"@ } else { "false"@ },
        Expr::Name { name, .. } => name@,
        Expr::Field { base, name, .. } => fmt_expr(*base, 6, no_struct, level) + "."@ + name.name@,
        Expr::Call { callee, args, .. } =>
            fmt_expr(*callee, 6, no_struct, level) + "("@ + fmt_args(args@, args@.len(), level) + ")"@,
        Expr::Unary { op, expr, .. } =>
            (match op { UnaryOp::Neg => "-"@, UnaryOp::Not => "!"@ }) + fmt_expr(*expr, 6, no_struct, level),
        Expr::Binary { op, lhs, rhs, .. } => {
            let p = fmt_bin_prec(op);
            let lmin = if op == BinOp::Implies { p + 1 } else { p };
            let rmin = if op == BinOp::Implies { p } else { p + 1 };
            fmt_expr(*lhs, lmin, no_struct, level) + " "@ + crate::notation::bin_op_text(op) + " "@
                + fmt_expr(*rhs, rmin, no_struct, level)
        },
        Expr::RecordLit { path, fields, .. } => if fields@.len() == 0 {
            path_text(path@, path@.len()) + " {}"@
        } else {
            path_text(path@, path@.len()) + " { "@ + fmt_fields(fields@, fields@.len(), level) + " }"@
        },
        Expr::Match { scrutinee, arms, .. } =>
            "match "@ + fmt_expr(*scrutinee, 0, true, level) + " {\n"@ + fmt_arms(arms@, arms@.len(), level)
                + indent_text(level) + "}"@,
        Expr::ListLit { elements, .. } => "["@ + fmt_args(elements@, elements@.len(), level) + "]"@,
    }
}

/// The first `n` expressions, each at the loosest strength, joined with `, `.
pub open spec fn fmt_args(es: Seq<Expr>, n: nat, level: usize) -> Seq<char>
    decreases es, n,
{
    if n == 0 || n > es.len() {
        Seq::empty()
    } else if n == 1 {
        fmt_expr(es[0], 0, false, level)
    } else {
        fmt_args(es, (n - 1) as nat, level) + ", "@ + fmt_expr(es[n - 1], 0, false, level)
    }
}

pub open spec fn fmt_field(f: RecordLitField, level: usize) -> Seq<char>
    decreases f, 0nat,
{
    match f.value {
        Some(v) => f.name.name@ + ": "@ + fmt_expr(v, 0, false, level),
        None => f.name.name@,
    }
}

pub open spec fn fmt_fields(fs: Seq<RecordLitField>, n: nat, level: usize) -> Seq<char>
    decreases fs, n,
{
    if n == 0 || n > fs.len() {
        Seq::empty()
    } else if n == 1 {
        fmt_field(fs[0], level)
    } else {
        fmt_fields(fs, (n - 1) as nat, level) + ", "@ + fmt_field(fs[n - 1], level)
    }
}

/// The first `n` arms, one line each, one step deeper than `level`.
pub open spec fn fmt_arms(arms: Seq<MatchArm>, n: nat, level: usize) -> Seq<char>
    decreases arms, n,
{
    if n == 0 || n > arms.len() {
        Seq::empty()
    } else {
        fmt_arms(arms, (n - 1) as nat, level) + indent_text(deeper(level)) + pattern_text(arms[n - 1].pattern)
            + " => "@ + fmt_expr(arms[n - 1].body, 0, false, deeper(level)) + "\n"@
    }
}

fn fmt_bin_prec_of(op: BinOp) -> (p: u8)
    ensures
        p == fmt_bin_prec(op),
{
    match op {
        BinOp::Implies => 1,
        BinOp::Or => 2,
        BinOp::Eq | BinOp::Ne | BinOp::Lt | BinOp::Gt | BinOp::Le | BinOp::Ge => 3,
        BinOp::Add | BinOp::Sub => 4,
        BinOp::Mul | BinOp::Div | BinOp::Rem => 5,
    }
}

fn fmt_prec_of(e: &Expr) -> (p: u8)
    ensures
        p == fmt_prec(*e),
{
    match e {
        Expr::Binary { op, .. } => fmt_bin_prec_of(*op),
        Expr::Unary { .. } => 5,
        Expr::Field { .. } | Expr::Call { .. } | Expr::RecordLit { .. } => 6,
        _ => 7,
    }
}

fn push_indent(s: &mut String, level: usize)
    ensures
        final(s)@ == old(s)@ + indent_text(level),
{
    let ghost s0 = s@;
    let mut k: usize = 0;
    while k < level
        invariant
            k <= level,
            s@ == s0 + repeat_text("  "@, k as nat),
        decreases level - k,
    {
        push_str(s, "  ");
        assert(s@ =~= s0 + repeat_text("  "@, (k + 1) as nat));
        k = k + 1;
    }
}

fn next_level(level: usize) -> (r: usize)
    ensures
        r == deeper(level),
{
    if level < usize::MAX { level + 1 } else { level }
}

fn push_expr(s: &mut String, e: &Expr, min: u8, no_struct: bool, level: usize)
    ensures
        final(s)@ == old(s)@ + fmt_expr(*e, min as nat, no_struct, level),
    decreases *e, 1nat,
{
    let ghost s0 = s@;
    let is_record = match e {
        Expr::RecordLit { .. } => true,
        _ => false,
    };
    if fmt_prec_of(e) < min || (no_struct && is_record) {
        push_str(s, "(");
        push_bare(s, e, false, level);
        push_str(s, ")");
        assert(s@ =~= s0 + ("("@ + fmt_bare(*e, false, level) + ")"@));
    } else {
        push_bare(s, e, no_struct, level);
    }
}

fn push_bare(s: &mut String, e: &Expr, no_struct: bool, level: usize)
    ensures
        final(s)@ == old(s)@ + fmt_bare(*e, no_struct, level),
    decreases *e, 0nat,
{
    let ghost s0 = s@;
    match e {
        Expr::Int { value, .. } => push_i64(s, *value),
        Expr::Str { value, .. } => crate::notation::push_string_literal(s, value.as_str()),
        Expr::Bool { value, .. } => {
            if *value { push_str(s, "true"); } else { push_str(s, "false"); }
        },
        Expr::Name { name, .. } => push_str(s, name.as_str()),
        Expr::Field { base, name, .. } => {
            push_expr(s, base, 6, no_struct, level);
            push_str(s, ".");
            push_str(s, name.name.as_str());
            assert(s@ =~= s0 + (fmt_expr(**base, 6, no_struct, level) + "."@ + name.name@));
        },
        Expr::Call { callee, args, .. } => {
            push_expr(s, callee, 6, no_struct, level);
            push_str(s, "(");
            push_args(s, args, level);
            push_str(s, ")");
            assert(s@ =~= s0 + (fmt_expr(**callee, 6, no_struct, level) + "("@ + fmt_args(args@, args@.len(), level) + ")"@));
        },
        Expr::Unary { op, expr, .. } => {
            match op {
                UnaryOp::Neg => push_str(s, "-"),
                UnaryOp::Not => push_str(s, "!"),
            }
            push_expr(s, expr, 6, no_struct, level);
            assert(s@ =~= s0 + ((match *op { UnaryOp::Neg => "-"@, UnaryOp::Not => "!"@ }) + fmt_expr(**expr, 6, no_struct, level)));
        },
        Expr::Binary { op, lhs, rhs, .. } => {
            let p = fmt_bin_prec_of(*op);
            let is_implies = match op { BinOp::Implies => true, _ => false };
            let lmin: u8 = if is_implies { p + 1 } else { p };
            let rmin: u8 = if is_implies { p } else { p + 1 };
            push_expr(s, lhs, lmin, no_struct, level);
            push_str(s, " ");
            push_str(s, crate::notation::bin_op_str(*op));
            push_str(s, " ");
            push_expr(s, rhs, rmin, no_struct, level);
            assert(s@ =~= s0 + (fmt_expr(**lhs, lmin as nat, no_struct, level) + " "@ + crate::notation::bin_op_text(*op) + " "@
                + fmt_expr(**rhs, rmin as nat, no_struct, level)));
        },
        Expr::RecordLit { path, fields, .. } => {
            crate::notation::push_path(s, path);
            if fields.len() == 0 {
                push_str(s, " {}");
                assert(s@ =~= s0 + (path_text(path@, path@.len()) + " {}"@));
            } else {
                push_str(s, " { ");
                push_fields(s, fields, level);
                push_str(s, " }");
                assert(s@ =~= s0 + (path_text(path@, path@.len()) + " { "@ + fmt_fields(fields@, fields@.len(), level) + " }"@));
            }
        },
        Expr::Match { scrutinee, arms, .. } => {
            push_str(s, "match ");
            push_expr(s, scrutinee, 0, true, level);
            push_str(s, " {\n");
            push_arms(s, arms, level);
            push_indent(s, level);
            push_str(s, "}");
            assert(s@ =~= s0 + ("match "@ + fmt_expr(**scrutinee, 0, true, level) + " {\n"@ + fmt_arms(arms@, arms@.len(), level)
                + indent_text(level) + "}"@));
        },
        Expr::ListLit { elements, .. } => {
            push_str(s, "[");
            push_args(s, elements, level);
            push_str(s, "]");
            assert(s@ =~= s0 + ("["@ + fmt_args(elements@, elements@.len(), level) + "]"@));
        },
    }
}

fn push_args(s: &mut String, es: &Vec<Expr>, level: usize)
    ensures
        final(s)@ == old(s)@ + fmt_args(es@, es@.len(), level),
    decreases es@, 0nat,
{
    let ghost s0 = s@;
    let mut i: usize = 0;
    while i < es.len()
        invariant
            i <= es@.len(),
            s@ == s0 + fmt_args(es@, i as nat, level),
        decreases es@.len() - i,
    {
        if i > 0 {
            push_str(s, ", ");
        }
        assert(decreases_to!(es@ => es@[i as int]));
        push_expr(s, &es[i], 0, false, level);
        proof {
            if i > 0 {
                assert(s@ =~= s0 + (fmt_args(es@, i as nat, level) + ", "@ + fmt_expr(es@[i as int], 0, false, level)));
            } else {
                assert(s@ =~= s0 + fmt_expr(es@[0], 0, false, level));
            }
        }
        i = i + 1;
    }
}

fn push_fields(s: &mut String, fs: &Vec<RecordLitField>, level: usize)
    ensures
        final(s)@ == old(s)@ + fmt_fields(fs@, fs@.len(), level),
    decreases fs@, 0nat,
{
    let ghost s0 = s@;
    let mut i: usize = 0;
    while i < fs.len()
        invariant
            i <= fs@.len(),
            s@ == s0 + fmt_fields(fs@, i as nat, level),
        decreases fs@.len() - i,
    {
        if i > 0 {
            push_str(s, ", ");
        }
        let ghost s1 = s@;
        let f = &fs[i];
        push_str(s, f.name.name.as_str());
        match &f.value {
            Some(v) => {
                push_str(s, ": ");
                assert(decreases_to!(fs@ => fs@[i as int]));
                assert(decreases_to!(fs@[i as int] => fs@[i as int].value));
                push_expr(s, v, 0, false, level);
            },
            None => {},
        }
        assert(s@ =~= s1 + fmt_field(fs@[i as int], level));
        proof {
            if i > 0 {
                assert(s@ =~= s0 + (fmt_fields(fs@, i as nat, level) + ", "@ + fmt_field(fs@[i as int], level)));
            } else {
                assert(s@ =~= s0 + fmt_field(fs@[0], level));
            }
        }
        i = i + 1;
    }
}

fn push_arms(s: &mut String, arms: &Vec<MatchArm>, level: usize)
    ensures
        final(s)@ == old(s)@ + fmt_arms(arms@, arms@.len(), level),
    decreases arms@, 0nat,
{
    let ghost s0 = s@;
    let inner = next_level(level);
    let mut i: usize = 0;
    while i < arms.len()
        invariant
            i <= arms@.len(),
            inner == deeper(level),
            s@ == s0 + fmt_arms(arms@, i as nat, level),
        decreases arms@.len() - i,
    {
        push_indent(s, inner);
        let p = crate::notation::contract_pattern_text(&arms[i].pattern);
        push_str(s, p.as_str());
        push_str(s, " => ");
        assert(decreases_to!(arms@ => arms@[i as int]));
        assert(decreases_to!(arms@[i as int] => arms@[i as int].body));
        push_expr(s, &arms[i].body, 0, false, inner);
        push_str(s, "\n");
        assert(s@ =~= s0 + fmt_arms(arms@, (i + 1) as nat, level));
        i = i + 1;
    }
}

/// The layout of `e` in a context of binding strength `min`.
fn expr_string(e: &Expr, min: u8, no_struct: bool, level: usize) -> (r: String)
    ensures
        r@ == fmt_expr(*e, min as nat, no_struct, level),
{
    let mut s = String::new();
    push_expr(&mut s, e, min, no_struct, level);
    assert(Seq::<char>::empty() + fmt_expr(*e, min as nat, no_struct, level) =~= fmt_expr(*e, min as nat, no_struct, level));
    s
}

// ---------------------------------------------------------------------------
// Declarations and statements, as laid out when no comment is left to place
// ---------------------------------------------------------------------------

pub open spec fn fmt_param(p: Param) -> Seq<char> {
    p.name.name@ + ": "@ + fmt_type(p.ty)
}

pub open spec fn fmt_params(ps: Seq<Param>, n: nat) -> Seq<char>
    decreases n,
{
    if n == 0 || n > ps.len() {
        Seq::empty()
    } else if n == 1 {
        fmt_param(ps[0])
    } else {
        fmt_params(ps, (n - 1) as nat) + ", "@ + fmt_param(ps[n - 1])
    }
}

pub open spec fn fmt_effects(us: Seq<EffectRef>, n: nat) -> Seq<char>
    decreases n,
{
    if n == 0 || n > us.len() {
        Seq::empty()
    } else if n == 1 {
        path_text(us[0].path@, us[0].path@.len())
    } else {
        fmt_effects(us, (n - 1) as nat) + ", "@ + path_text(us[n - 1].path@, us[n - 1].path@.len())
    }
}

/// `import a.b { X, Y }` / `import a.b as B` / `import a.b`
pub open spec fn fmt_import(i: Import) -> Seq<char> {
    "import "@ + path_text(i.path@, i.path@.len()) + if i.names@.len() > 0 {
        " { "@ + names_text(i.names@, i.names@.len(), ", "@) + " }"@
    } else {
        match i.alias {
            Some(a) => " as "@ + a.name@,
            None => Seq::<char>::empty(),
        }
    }
}

pub open spec fn fmt_imports(is: Seq<Import>, n: nat) -> Seq<char>
    decreases n,
{
    if n == 0 || n > is.len() {
        Seq::empty()
    } else if n == 1 {
        fmt_import(is[0])
    } else {
        fmt_imports(is, (n - 1) as nat) + "\n"@ + fmt_import(is[n - 1])
    }
}

/// `extern [query] a.f(x: T) -> R uses E`
pub open spec fn fmt_extern(d: ExternDecl) -> Seq<char> {
    (if d.query { "extern query "@ } else { "extern "@ }) + path_text(d.path@, d.path@.len())
        + "("@ + fmt_params(d.params@, d.params@.len()) + ")"@
        + (match d.ret { Some(t) => " -> "@ + fmt_type(t), None => Seq::<char>::empty() })
        + (if d.uses@.len() > 0 { " uses "@ + fmt_effects(d.uses@, d.uses@.len()) } else { Seq::<char>::empty() })
}

/// `type A = T [tagged "tag"]`
pub open spec fn fmt_alias(a: TypeAlias) -> Seq<char> {
    "type "@ + a.name.name@ + " = "@ + fmt_type(a.ty) + match a.tag {
        Some(t) => " tagged "@ + string_literal(t@),
        None => Seq::<char>::empty(),
    }
}

pub open spec fn fmt_field_def(f: FieldDef) -> Seq<char> {
    f.name.name@ + ": "@ + fmt_type(f.ty)
}

pub open spec fn fmt_field_defs(fs: Seq<FieldDef>, n: nat) -> Seq<char>
    decreases n,
{
    if n == 0 || n > fs.len() {
        Seq::empty()
    } else if n == 1 {
        fmt_field_def(fs[0])
    } else {
        fmt_field_defs(fs, (n - 1) as nat) + ", "@ + fmt_field_def(fs[n - 1])
    }
}

pub open spec fn fmt_variant(v: Variant) -> Seq<char> {
    match v.payload {
        VariantPayload::Unit => v.name.name@,
        VariantPayload::Tuple { types } => v.name.name@ + "("@ + fmt_types(types@, types@.len()) + ")"@,
        VariantPayload::Record { fields } => if fields@.len() == 0 {
            v.name.name@ + " {}"@
        } else {
            v.name.name@ + " { "@ + fmt_field_defs(fields@, fields@.len()) + " }"@
        },
    }
}

/// `let x: T = e [else fail f]`
pub open spec fn fmt_let(l: LetStmt, level: usize) -> Seq<char> {
    "let "@ + l.name.name@ + (match l.ty { Some(t) => ": "@ + fmt_type(t), None => Seq::<char>::empty() })
        + " = "@ + fmt_expr(l.value, 0, false, level)
        + (match l.else_fail { Some(f) => " else fail "@ + fmt_expr(f, 0, false, level), None => Seq::<char>::empty() })
}

/// A type annotation on a `let` is never lost: annotating `let x = e` with a
/// type `T` inserts exactly `: T` (the formatted type) right after the name
/// and leaves the rest of the line unchanged, so an annotated statement and
/// the same statement without the annotation never format alike.
pub proof fn law_let_annotation_kept(l: LetStmt, t: Type, level: usize)
    ensures
        ({
            let bare = LetStmt { name: l.name, ty: None, value: l.value, else_fail: l.else_fail, span: l.span };
            let typed = LetStmt { name: l.name, ty: Some(t), value: l.value, else_fail: l.else_fail, span: l.span };
            let k: int = 4 + l.name.name@.len() as int;
            &&& fmt_let(typed, level) == fmt_let(bare, level).subrange(0, k) + ": "@ + fmt_type(t)
                    + fmt_let(bare, level).subrange(k, fmt_let(bare, level).len() as int)
            &&& fmt_let(typed, level) != fmt_let(bare, level)
        }),
{
    reveal_strlit("let ");
    reveal_strlit(": ");
    let bare = LetStmt { name: l.name, ty: None, value: l.value, else_fail: l.else_fail, span: l.span };
    let typed = LetStmt { name: l.name, ty: Some(t), value: l.value, else_fail: l.else_fail, span: l.span };
    let k: int = 4 + l.name.name@.len() as int;
    let head = "let "@ + l.name.name@;
    let tail = " = "@ + fmt_expr(l.value, 0, false, level)
        + (match l.else_fail { Some(f) => " else fail "@ + fmt_expr(f, 0, false, level), None => Seq::<char>::empty() });
    assert(fmt_let(bare, level) =~= head + tail);
    assert(fmt_let(typed, level) =~= head + ": "@ + fmt_type(t) + tail);
    assert(head.len() == k);
    assert(fmt_let(bare, level).subrange(0, k) =~= head);
    assert(fmt_let(bare, level).subrange(k, fmt_let(bare, level).len() as int) =~= tail);
    assert(fmt_let(typed, level).len() > fmt_let(bare, level).len());
}

/// An `else fail` clause on a `let` is never lost: adding `else fail f` to a
/// statement appends exactly ` else fail ` and the formatted `f` to its text.
pub proof fn law_let_else_fail_kept(l: LetStmt, f: Expr, level: usize)
    ensures
        ({
            let plain = LetStmt { name: l.name, ty: l.ty, value: l.value, else_fail: None, span: l.span };
            let failing = LetStmt { name: l.name, ty: l.ty, value: l.value, else_fail: Some(f), span: l.span };
            fmt_let(failing, level) == fmt_let(plain, level) + " else fail "@ + fmt_expr(f, 0, false, level)
        }),
{
    let plain = LetStmt { name: l.name, ty: l.ty, value: l.value, else_fail: None, span: l.span };
    let failing = LetStmt { name: l.name, ty: l.ty, value: l.value, else_fail: Some(f), span: l.span };
    assert(fmt_let(failing, level) =~= fmt_let(plain, level) + " else fail "@ + fmt_expr(f, 0, false, level));
}

/// A block whose first line continues the current one; its statements sit
/// one step deeper than `level`, its `}` at `level`.
pub open spec fn fmt_block(b: Block, level: usize) -> Seq<char>
    decreases b, 0nat,
{
    if b.stmts@.len() == 0 {
        "{}"@
    } else {
        "{\n"@ + fmt_stmts(b.stmts@, b.stmts@.len(), level) + indent_text(level) + "}"@
    }
}

pub open spec fn fmt_stmts(ss: Seq<Stmt>, n: nat, level: usize) -> Seq<char>
    decreases ss, n,
{
    if n == 0 || n > ss.len() {
        Seq::empty()
    } else {
        fmt_stmts(ss, (n - 1) as nat, level) + indent_text(deeper(level)) + fmt_stmt(ss[n - 1], deeper(level)) + "\n"@
    }
}

pub open spec fn fmt_stmt(s: Stmt, level: usize) -> Seq<char>
    decreases s, 0nat,
{
    match s {
        Stmt::Let(l) => fmt_let(l, level),
        Stmt::Return(r) => match r.value {
            Some(v) => "return "@ + fmt_expr(v, 0, false, level),
            None => "return"@,
        },
        Stmt::Expr(e) => fmt_expr(e.expr, 0, false, level),
        Stmt::If(i) => fmt_if(i, level),
    }
}

pub open spec fn fmt_if(i: IfStmt, level: usize) -> Seq<char>
    decreases i, 0nat,
{
    "if "@ + fmt_expr(i.cond, 0, true, level) + " "@ + fmt_block(i.then_block, level) + match i.else_branch {
        None => Seq::<char>::empty(),
        Some(ElseBranch::Block(b)) => " else "@ + fmt_block(b, level),
        Some(ElseBranch::If(n)) => " else "@ + fmt_if(*n, level),
    }
}

/// The contract clauses of one kind, each on a line of its own.
pub open spec fn fmt_clauses(es: Seq<Expr>, n: nat, kw: Seq<char>) -> Seq<char>
    decreases n,
{
    if n == 0 || n > es.len() {
        Seq::empty()
    } else {
        fmt_clauses(es, (n - 1) as nat, kw) + "\n  "@ + kw + " "@ + fmt_expr(es[n - 1], 0, false, 1)
    }
}

pub open spec fn has_clauses(f: FuncDecl) -> bool {
    f.uses@.len() > 0 || f.requires@.len() > 0 || f.ensures@.len() > 0
}

pub open spec fn fmt_func(f: FuncDecl) -> Seq<char> {
    "func "@ + f.name.name@ + "("@ + fmt_params(f.params@, f.params@.len()) + ")"@
        + (match f.ret { Some(t) => " -> "@ + fmt_type(t), None => Seq::<char>::empty() })
        + (if f.uses@.len() > 0 { "\n  uses "@ + fmt_effects(f.uses@, f.uses@.len()) } else { Seq::<char>::empty() })
        + fmt_clauses(f.requires@, f.requires@.len(), "requires"@)
        + fmt_clauses(f.ensures@, f.ensures@.len(), "ensures"@)
        + (if has_clauses(f) { "\n"@ } else { " "@ })
        + fmt_block(f.body, 0)
}

/// Lines `"  " + text(x) + "\n"` for the first `n` members.
pub open spec fn fmt_member_lines(fs: Seq<FieldDef>, n: nat) -> Seq<char>
    decreases n,
{
    if n == 0 || n > fs.len() {
        Seq::empty()
    } else {
        fmt_member_lines(fs, (n - 1) as nat) + "  "@ + fmt_field_def(fs[n - 1]) + "\n"@
    }
}

pub open spec fn fmt_variant_lines(vs: Seq<Variant>, n: nat) -> Seq<char>
    decreases n,
{
    if n == 0 || n > vs.len() {
        Seq::empty()
    } else {
        fmt_variant_lines(vs, (n - 1) as nat) + "  "@ + fmt_variant(vs[n - 1]) + "\n"@
    }
}

pub open spec fn fmt_record(r: RecordDecl) -> Seq<char> {
    if r.fields@.len() == 0 {
        "record "@ + r.name.name@ + " {}"@
    } else {
        "record "@ + r.name.name@ + " {\n"@ + fmt_member_lines(r.fields@, r.fields@.len()) + "}"@
    }
}

pub open spec fn fmt_enum(e: EnumDecl) -> Seq<char> {
    if e.variants@.len() == 0 {
        "enum "@ + e.name.name@ + " {}"@
    } else {
        "enum "@ + e.name.name@ + " {\n"@ + fmt_variant_lines(e.variants@, e.variants@.len()) + "}"@
    }
}

pub open spec fn fmt_item(it: Item) -> Seq<char> {
    match it {
        Item::TypeAlias(a) => fmt_alias(a),
        Item::Record(r) => fmt_record(r),
        Item::Enum(e) => fmt_enum(e),
        Item::Func(f) => fmt_func(f),
        Item::Extern(d) => fmt_extern(d),
    }
}

/// The module declaration and the imports (one chunk each).
pub open spec fn fmt_head(m: Module) -> Seq<char> {
    (match m.decl { Some(d) => "module "@ + path_text(d.path@, d.path@.len()), None => Seq::<char>::empty() })
        + if m.imports@.len() > 0 {
            (if m.decl is Some { "\n\n"@ } else { Seq::<char>::empty() }) + fmt_imports(m.imports@, m.imports@.len())
        } else {
            Seq::<char>::empty()
        }
}

pub open spec fn has_head(m: Module) -> bool {
    m.decl is Some || m.imports@.len() > 0
}

/// What separates item `i` from what precedes it: a blank line, except
/// between two `extern` lines (one line break) and before a first item with
/// nothing before it.
pub open spec fn item_sep(m: Module, i: int) -> Seq<char> {
    if i == 0 {
        if has_head(m) { "\n\n"@ } else { Seq::empty() }
    } else if m.items@[i - 1] is Extern && m.items@[i] is Extern {
        "\n"@
    } else {
        "\n\n"@
    }
}

pub open spec fn fmt_items(m: Module, n: nat) -> Seq<char>
    decreases n,
{
    if n == 0 || n > m.items@.len() {
        Seq::empty()
    } else {
        fmt_items(m, (n - 1) as nat) + item_sep(m, n - 1) + fmt_item(m.items@[n - 1])
    }
}

/// The canonical text of a module without comments: empty for an empty
/// module, else ending with exactly one line break.
pub open spec fn module_text(m: Module) -> Seq<char> {
    let body = fmt_head(m) + fmt_items(m, m.items@.len());
    if body.len() > 0 && body.last() != '\n' { body + "\n"@ } else { body }
}

// ---------------------------------------------------------------------------
// The formatter: the layout above, with the `//` comments placed back
// ---------------------------------------------------------------------------

/// Every comment among the first `n` appears in `out` as `//` and its text,
/// at `offs[i]`, in source order.
pub open spec fn comments_kept(out: Seq<char>, cs: Seq<Comment>, offs: Seq<int>, n: nat) -> bool {
    &&& n <= cs.len()
    &&& offs.len() == n
    &&& forall|i: int| 0 <= i < n ==> 0 <= #[trigger] offs[i] && offs[i] + 2 + cs[i].text@.len() <= out.len()
        && out.subrange(offs[i], offs[i] + 2 + cs[i].text@.len()) == "//"@ + cs[i].text@
    &&& forall|i: int, j: int| 0 <= i < j < n ==> #[trigger] offs[i] < #[trigger] offs[j]
}

struct Fmt {
    out: String,
    /// The next comment to place.
    cursor: usize,
    /// A blank line is owed before the next chunk.
    need_separator: bool,
    /// The last source line of the last top-level element written.
    last_top_line: Option<u32>,
    offs: Ghost<Seq<int>>,
}

spec fn fmt_wf(f: Fmt, cs: Seq<Comment>) -> bool {
    comments_kept(f.out@, cs, f.offs@, f.cursor as nat)
}

/// No comment is left to place.
spec fn quiet(f: Fmt, cs: Seq<Comment>) -> bool {
    f.cursor >= cs.len()
}

/// `f1` continues `f0`: comments only consumed, none left means none placed.
spec fn moved(f0: Fmt, f1: Fmt, cs: Seq<Comment>) -> bool {
    &&& fmt_wf(f1, cs)
    &&& f1.cursor >= f0.cursor
}

impl Fmt {
    fn new() -> (f: Fmt)
        ensures
            f.out@ == Seq::<char>::empty(),
            f.cursor == 0,
            !f.need_separator,
            f.offs@ == Seq::<int>::empty(),
    {
        Fmt { out: String::new(), cursor: 0, need_separator: false, last_top_line: None, offs: Ghost(Seq::empty()) }
    }

    fn push(&mut self, cs: &Vec<Comment>, s: &str)
        requires
            fmt_wf(*old(self), cs@),
        ensures
            fmt_wf(*final(self), cs@),
            final(self).out@ == old(self).out@ + s@,
            final(self).cursor == old(self).cursor,
            final(self).offs == old(self).offs,
            final(self).need_separator == old(self).need_separator,
            final(self).last_top_line == old(self).last_top_line,
    {
        let ghost o0 = self.out@;
        self.out.append(s);
        proof {
            assert forall|i: int| 0 <= i < self.cursor implies 0 <= #[trigger] self.offs@[i]
                && self.offs@[i] + 2 + cs@[i].text@.len() <= self.out@.len()
                && self.out@.subrange(self.offs@[i], self.offs@[i] + 2 + cs@[i].text@.len()) == "//"@ + cs@[i].text@ by {
                assert(self.out@.subrange(self.offs@[i], self.offs@[i] + 2 + cs@[i].text@.len())
                    =~= o0.subrange(self.offs@[i], self.offs@[i] + 2 + cs@[i].text@.len()));
            }
        }
    }

    fn indent(&mut self, cs: &Vec<Comment>, level: usize)
        requires
            fmt_wf(*old(self), cs@),
        ensures
            fmt_wf(*final(self), cs@),
            final(self).out@ == old(self).out@ + indent_text(level),
            final(self).cursor == old(self).cursor,
            final(self).offs == old(self).offs,
            final(self).need_separator == old(self).need_separator,
            final(self).last_top_line == old(self).last_top_line,
    {
        let mut t = String::new();
        push_indent(&mut t, level);
        assert(t@ =~= indent_text(level));
        self.push(cs, t.as_str());
    }

    /// Places the next comment (`//` and its text) at the end of the output.
    fn put_comment(&mut self, cs: &Vec<Comment>)
        requires
            fmt_wf(*old(self), cs@),
            old(self).cursor < cs@.len(),
        ensures
            fmt_wf(*final(self), cs@),
            final(self).cursor == old(self).cursor + 1,
            final(self).need_separator == old(self).need_separator,
            final(self).last_top_line == old(self).last_top_line,
    {
        let ghost at = self.out@.len() as int;
        let n = cs.len();
        let ghost offs0 = self.offs@;
        proof {
            assert forall|i: int| 0 <= i < self.cursor implies #[trigger] offs0[i] < at by {
                assert(self.offs@[i] + 2 + cs@[i].text@.len() <= at);
            }
        }
        let c = &cs[self.cursor];
        self.push(cs, "//");
        self.push(cs, c.text.as_str());
        let ghost o1 = self.out@;
        proof {
            reveal_strlit("//");
            assert(o1.subrange(at, at + 2 + c.text@.len()) =~= "//"@ + c.text@);
        }
        let ghost k = self.cursor as int;
        self.offs = Ghost(self.offs@.push(at));
        self.cursor = self.cursor + 1;
        proof {
            assert forall|i: int| 0 <= i < self.cursor implies 0 <= #[trigger] self.offs@[i]
                && self.offs@[i] + 2 + cs@[i].text@.len() <= self.out@.len()
                && self.out@.subrange(self.offs@[i], self.offs@[i] + 2 + cs@[i].text@.len()) == "//"@ + cs@[i].text@ by {
                if i < k {
                    assert(self.offs@[i] == offs0[i]);
                }
            }
            assert forall|i: int, j: int| 0 <= i < j < self.cursor implies #[trigger] self.offs@[i] < #[trigger] self.offs@[j] by {
                if j < k {
                    assert(self.offs@[i] == offs0[i] && self.offs@[j] == offs0[j]);
                } else {
                    assert(self.offs@[i] == offs0[i]);
                    assert(offs0[i] < at);
                }
            }
        }
    }

    fn write_separator_if_needed(&mut self, cs: &Vec<Comment>)
        requires
            fmt_wf(*old(self), cs@),
        ensures
            fmt_wf(*final(self), cs@),
            final(self).out@ == old(self).out@ + (if old(self).need_separator { "\n\n"@ } else { Seq::<char>::empty() }),
            final(self).cursor == old(self).cursor,
            !final(self).need_separator,
            final(self).last_top_line == old(self).last_top_line,
    {
        if self.need_separator {
            self.push(cs, "\n\n");
            self.need_separator = false;
        } else {
            assert(self.out@ =~= self.out@ + Seq::<char>::empty());
        }
    }

    /// Places the comments that start before `start_line`, each on a line of
    /// its own at `level`.
    fn flush_leading(&mut self, cs: &Vec<Comment>, start_line: u32, level: usize)
        requires
            fmt_wf(*old(self), cs@),
        ensures
            moved(*old(self), *final(self), cs@),
            quiet(*old(self), cs@) ==> final(self).out@ == old(self).out@,
            final(self).need_separator == old(self).need_separator,
            final(self).last_top_line == old(self).last_top_line,
            final(self).cursor >= cs@.len() || cs@[final(self).cursor as int].span.start.line >= start_line,
    {
        while self.cursor < cs.len() && cs[self.cursor].span.start.line < start_line
            invariant
                moved(*old(self), *self, cs@),
                quiet(*old(self), cs@) ==> self.out@ == old(self).out@,
                self.need_separator == old(self).need_separator,
                self.last_top_line == old(self).last_top_line,
            decreases cs@.len() - self.cursor,
        {
            self.indent(cs, level);
            self.put_comment(cs);
            self.push(cs, "\n");
        }
    }

    /// Places the next comment after the output when it sits on `line`.
    fn flush_trailing_on(&mut self, cs: &Vec<Comment>, line: u32)
        requires
            fmt_wf(*old(self), cs@),
        ensures
            moved(*old(self), *final(self), cs@),
            quiet(*old(self), cs@) ==> final(self).out@ == old(self).out@,
            final(self).need_separator == old(self).need_separator,
            final(self).last_top_line == old(self).last_top_line,
    {
        if self.cursor < cs.len() && cs[self.cursor].span.start.line == line {
            self.push(cs, " ");
            self.put_comment(cs);
        }
    }

    /// Places every comment left, one per line at `level`.
    fn flush_remaining(&mut self, cs: &Vec<Comment>, level: usize)
        requires
            fmt_wf(*old(self), cs@),
        ensures
            fmt_wf(*final(self), cs@),
            final(self).cursor == cs@.len(),
            quiet(*old(self), cs@) ==> final(self).out@ == old(self).out@,
    {
        let mut first = true;
        while self.cursor < cs.len()
            invariant
                fmt_wf(*self, cs@),
                self.cursor >= old(self).cursor,
                quiet(*old(self), cs@) ==> self.out@ == old(self).out@,
            decreases cs@.len() - self.cursor,
        {
            if !first {
                self.push(cs, "\n");
            }
            first = false;
            self.indent(cs, level);
            self.put_comment(cs);
        }
    }
}

// ---------------------------------------------------------------------------
// Text of single-line constructs
// ---------------------------------------------------------------------------

fn type_string(t: &Type) -> (r: String)
    ensures
        r@ == fmt_type(*t),
{
    let mut s = String::new();
    push_type(&mut s, t);
    assert(s@ =~= fmt_type(*t));
    s
}

fn push_params(s: &mut String, ps: &Vec<Param>)
    ensures
        final(s)@ == old(s)@ + fmt_params(ps@, ps@.len()),
{
    let ghost s0 = s@;
    let mut i: usize = 0;
    while i < ps.len()
        invariant
            i <= ps@.len(),
            s@ == s0 + fmt_params(ps@, i as nat),
        decreases ps@.len() - i,
    {
        if i > 0 {
            push_str(s, ", ");
        }
        push_str(s, ps[i].name.name.as_str());
        push_str(s, ": ");
        push_type(s, &ps[i].ty);
        proof {
            if i > 0 {
                assert(s@ =~= s0 + (fmt_params(ps@, i as nat) + ", "@ + fmt_param(ps@[i as int])));
            } else {
                assert(s@ =~= s0 + fmt_param(ps@[0]));
            }
        }
        i = i + 1;
    }
}

fn push_effects(s: &mut String, us: &Vec<EffectRef>)
    ensures
        final(s)@ == old(s)@ + fmt_effects(us@, us@.len()),
{
    let ghost s0 = s@;
    let mut i: usize = 0;
    while i < us.len()
        invariant
            i <= us@.len(),
            s@ == s0 + fmt_effects(us@, i as nat),
        decreases us@.len() - i,
    {
        if i > 0 {
            push_str(s, ", ");
        }
        crate::notation::push_path(s, &us[i].path);
        proof {
            if i > 0 {
                assert(s@ =~= s0 + (fmt_effects(us@, i as nat) + ", "@ + path_text(us@[i as int].path@, us@[i as int].path@.len())));
            } else {
                assert(s@ =~= s0 + path_text(us@[0].path@, us@[0].path@.len()));
            }
        }
        i = i + 1;
    }
}

fn import_string(i: &Import) -> (r: String)
    ensures
        r@ == fmt_import(*i),
{
    let mut s = String::new();
    push_str(&mut s, "import ");
    crate::notation::push_path(&mut s, &i.path);
    if i.names.len() > 0 {
        push_str(&mut s, " { ");
        crate::notation::push_names(&mut s, &i.names, ", ");
        push_str(&mut s, " }");
    } else if let Some(a) = &i.alias {
        push_str(&mut s, " as ");
        push_str(&mut s, a.name.as_str());
    }
    assert(s@ =~= fmt_import(*i));
    s
}

fn extern_string(d: &ExternDecl) -> (r: String)
    ensures
        r@ == fmt_extern(*d),
{
    let mut s = String::new();
    push_str(&mut s, if d.query { "extern query " } else { "extern " });
    crate::notation::push_path(&mut s, &d.path);
    push_str(&mut s, "(");
    push_params(&mut s, &d.params);
    push_str(&mut s, ")");
    if let Some(t) = &d.ret {
        push_str(&mut s, " -> ");
        push_type(&mut s, t);
    }
    if d.uses.len() > 0 {
        push_str(&mut s, " uses ");
        push_effects(&mut s, &d.uses);
    }
    assert(s@ =~= fmt_extern(*d));
    s
}

fn alias_string(a: &TypeAlias) -> (r: String)
    ensures
        r@ == fmt_alias(*a),
{
    let mut s = String::new();
    push_str(&mut s, "type ");
    push_str(&mut s, a.name.name.as_str());
    push_str(&mut s, " = ");
    push_type(&mut s, &a.ty);
    if let Some(tag) = &a.tag {
        push_str(&mut s, " tagged ");
        crate::notation::push_string_literal(&mut s, tag.as_str());
    }
    assert(s@ =~= fmt_alias(*a));
    s
}

fn push_field_def(s: &mut String, f: &FieldDef)
    ensures
        final(s)@ == old(s)@ + fmt_field_def(*f),
{
    let ghost s0 = s@;
    push_str(s, f.name.name.as_str());
    push_str(s, ": ");
    push_type(s, &f.ty);
    assert(s@ =~= s0 + fmt_field_def(*f));
}

fn variant_string(v: &Variant) -> (r: String)
    ensures
        r@ == fmt_variant(*v),
{
    let mut s = String::new();
    push_str(&mut s, v.name.name.as_str());
    match &v.payload {
        VariantPayload::Unit => {},
        VariantPayload::Tuple { types } => {
            push_str(&mut s, "(");
            push_types(&mut s, types);
            push_str(&mut s, ")");
        },
        VariantPayload::Record { fields } => {
            if fields.len() == 0 {
                push_str(&mut s, " {}");
            } else {
                push_str(&mut s, " { ");
                let ghost s1 = s@;
                let mut i: usize = 0;
                while i < fields.len()
                    invariant
                        i <= fields@.len(),
                        s@ == s1 + fmt_field_defs(fields@, i as nat),
                    decreases fields@.len() - i,
                {
                    if i > 0 {
                        push_str(&mut s, ", ");
                    }
                    push_field_def(&mut s, &fields[i]);
                    proof {
                        if i > 0 {
                            assert(s@ =~= s1 + (fmt_field_defs(fields@, i as nat) + ", "@ + fmt_field_def(fields@[i as int])));
                        } else {
                            assert(s@ =~= s1 + fmt_field_def(fields@[0]));
                        }
                    }
                    i = i + 1;
                }
                push_str(&mut s, " }");
            }
        },
    }
    assert(s@ =~= fmt_variant(*v));
    s
}

fn let_string(l: &LetStmt, level: usize) -> (r: String)
    ensures
        r@ == fmt_let(*l, level),
{
    let mut s = String::new();
    push_str(&mut s, "let ");
    push_str(&mut s, l.name.name.as_str());
    if let Some(t) = &l.ty {
        push_str(&mut s, ": ");
        push_type(&mut s, t);
    }
    push_str(&mut s, " = ");
    push_expr(&mut s, &l.value, 0, false, level);
    if let Some(f) = &l.else_fail {
        push_str(&mut s, " else fail ");
        push_expr(&mut s, f, 0, false, level);
    }
    assert(s@ =~= fmt_let(*l, level));
    s
}

fn stmt_span(s: &Stmt) -> (r: Span)
{
    match s {
        Stmt::Let(l) => l.span,
        Stmt::If(i) => i.span,
        Stmt::Return(r) => r.span,
        Stmt::Expr(e) => e.span,
    }
}

fn item_span(it: &Item) -> (r: Span)
{
    match it {
        Item::TypeAlias(a) => a.span,
        Item::Record(r) => r.span,
        Item::Enum(e) => e.span,
        Item::Func(f) => f.span,
        Item::Extern(d) => d.span,
    }
}

// ---------------------------------------------------------------------------
// Items, blocks and statements
// ---------------------------------------------------------------------------

impl Fmt {
    fn emit_record(&mut self, cs: &Vec<Comment>, r: &RecordDecl)
        requires
            fmt_wf(*old(self), cs@),
        ensures
            moved(*old(self), *final(self), cs@),
            quiet(*old(self), cs@) ==> final(self).out@ == old(self).out@ + fmt_record(*r),
            final(self).need_separator == old(self).need_separator,
            final(self).last_top_line == old(self).last_top_line,
    {
        let ghost o0 = self.out@;
        self.push(cs, "record ");
        self.push(cs, r.name.name.as_str());
        if r.fields.len() == 0 {
            self.push(cs, " {}");
            assert(self.out@ =~= o0 + fmt_record(*r));
            return;
        }
        self.push(cs, " {");
        self.push(cs, "\n");
        let mut i: usize = 0;
        while i < r.fields.len()
            invariant
                i <= r.fields@.len(),
                moved(*old(self), *self, cs@),
                quiet(*old(self), cs@) ==> self.out@ == o0 + "record "@ + r.name.name@ + " {"@ + "\n"@ + fmt_member_lines(r.fields@, i as nat),
                self.need_separator == old(self).need_separator,
                self.last_top_line == old(self).last_top_line,
            decreases r.fields@.len() - i,
        {
            let field = &r.fields[i];
            let ghost o1 = self.out@;
            self.flush_leading(cs, field.span.start.line, 1);
            self.indent(cs, 1);
            let mut t = String::new();
            push_field_def(&mut t, field);
            self.push(cs, t.as_str());
            self.flush_trailing_on(cs, field.span.end.line);
            self.push(cs, "\n");
            proof {
                reveal_with_fuel(repeat_text, 2);
                if quiet(*old(self), cs@) {
                    assert(t@ =~= fmt_field_def(r.fields@[i as int]));
                    assert(self.out@ =~= o1 + "  "@ + fmt_field_def(r.fields@[i as int]) + "\n"@);
                }
            }
            i = i + 1;
        }
        self.flush_leading(cs, r.span.end.line, 1);
        self.push(cs, "}");
        proof {
            reveal_strlit(" {\n");
            reveal_strlit(" {");
            reveal_strlit("\n");
        }
        assert(quiet(*old(self), cs@) ==> self.out@ =~= o0 + fmt_record(*r));
    }

    fn emit_enum(&mut self, cs: &Vec<Comment>, e: &EnumDecl)
        requires
            fmt_wf(*old(self), cs@),
        ensures
            moved(*old(self), *final(self), cs@),
            quiet(*old(self), cs@) ==> final(self).out@ == old(self).out@ + fmt_enum(*e),
            final(self).need_separator == old(self).need_separator,
            final(self).last_top_line == old(self).last_top_line,
    {
        let ghost o0 = self.out@;
        self.push(cs, "enum ");
        self.push(cs, e.name.name.as_str());
        if e.variants.len() == 0 {
            self.push(cs, " {}");
            assert(self.out@ =~= o0 + fmt_enum(*e));
            return;
        }
        self.push(cs, " {");
        self.push(cs, "\n");
        let mut i: usize = 0;
        while i < e.variants.len()
            invariant
                i <= e.variants@.len(),
                moved(*old(self), *self, cs@),
                quiet(*old(self), cs@) ==> self.out@ == o0 + "enum "@ + e.name.name@ + " {"@ + "\n"@ + fmt_variant_lines(e.variants@, i as nat),
                self.need_separator == old(self).need_separator,
                self.last_top_line == old(self).last_top_line,
            decreases e.variants@.len() - i,
        {
            let v = &e.variants[i];
            let ghost o1 = self.out@;
            self.flush_leading(cs, v.span.start.line, 1);
            self.indent(cs, 1);
            let t = variant_string(v);
            self.push(cs, t.as_str());
            self.flush_trailing_on(cs, v.span.end.line);
            self.push(cs, "\n");
            proof {
                reveal_with_fuel(repeat_text, 2);
                if quiet(*old(self), cs@) {
                    assert(self.out@ =~= o1 + "  "@ + fmt_variant(e.variants@[i as int]) + "\n"@);
                }
            }
            i = i + 1;
        }
        self.flush_leading(cs, e.span.end.line, 1);
        self.push(cs, "}");
        proof {
            reveal_strlit(" {\n");
            reveal_strlit(" {");
            reveal_strlit("\n");
        }
        assert(quiet(*old(self), cs@) ==> self.out@ =~= o0 + fmt_enum(*e));
    }

    /// A block; with `close_trailing`, a comment on the line of its `}` is
    /// placed after it.
    fn emit_block_inner(&mut self, cs: &Vec<Comment>, b: &Block, level: usize, close_trailing: bool)
        requires
            fmt_wf(*old(self), cs@),
        ensures
            moved(*old(self), *final(self), cs@),
            quiet(*old(self), cs@) ==> final(self).out@ == old(self).out@ + fmt_block(*b, level),
            final(self).need_separator == old(self).need_separator,
            final(self).last_top_line == old(self).last_top_line,
        decreases *b,
    {
        let ghost o0 = self.out@;
        let inner = next_level(level);
        if b.stmts.len() == 0 {
            let has_inside = self.cursor < cs.len() && cs[self.cursor].span.start.line < b.span.end.line;
            if !has_inside {
                self.push(cs, "{}");
                if close_trailing {
                    self.flush_trailing_on(cs, b.span.end.line);
                }
                assert(quiet(*old(self), cs@) ==> self.out@ =~= o0 + fmt_block(*b, level));
                return;
            }
            self.push(cs, "{");
            self.flush_trailing_on(cs, b.span.start.line);
            self.push(cs, "\n");
            self.flush_leading(cs, b.span.end.line, inner);
            self.indent(cs, level);
            self.push(cs, "}");
            if close_trailing {
                self.flush_trailing_on(cs, b.span.end.line);
            }
            return;
        }
        self.push(cs, "{");
        self.flush_trailing_on(cs, b.span.start.line);
        self.push(cs, "\n");
        let mut i: usize = 0;
        while i < b.stmts.len()
            invariant
                i <= b.stmts@.len(),
                inner == deeper(level),
                moved(*old(self), *self, cs@),
                quiet(*old(self), cs@) ==> self.out@ == o0 + "{"@ + "\n"@ + fmt_stmts(b.stmts@, i as nat, level),
                self.need_separator == old(self).need_separator,
                self.last_top_line == old(self).last_top_line,
            decreases b.stmts@.len() - i,
        {
            let s = &b.stmts[i];
            let span = stmt_span(s);
            let ghost o1 = self.out@;
            self.flush_leading(cs, span.start.line, inner);
            self.indent(cs, inner);
            assert(decreases_to!(b.stmts@ => b.stmts@[i as int]));
            self.emit_stmt(cs, s, inner);
            self.flush_trailing_on(cs, span.end.line);
            self.push(cs, "\n");
            proof {
                if quiet(*old(self), cs@) {
                    assert(self.out@ =~= o1 + indent_text(inner) + fmt_stmt(b.stmts@[i as int], inner) + "\n"@);
                }
            }
            i = i + 1;
        }
        self.flush_leading(cs, b.span.end.line, inner);
        self.indent(cs, level);
        self.push(cs, "}");
        if close_trailing {
            self.flush_trailing_on(cs, b.span.end.line);
        }
        proof {
            reveal_strlit("{\n");
            reveal_strlit("{");
            reveal_strlit("\n");
        }
        assert(quiet(*old(self), cs@) ==> self.out@ =~= o0 + fmt_block(*b, level));
    }

    fn emit_stmt(&mut self, cs: &Vec<Comment>, s: &Stmt, level: usize)
        requires
            fmt_wf(*old(self), cs@),
        ensures
            moved(*old(self), *final(self), cs@),
            quiet(*old(self), cs@) ==> final(self).out@ == old(self).out@ + fmt_stmt(*s, level),
            final(self).need_separator == old(self).need_separator,
            final(self).last_top_line == old(self).last_top_line,
        decreases *s,
    {
        let ghost o0 = self.out@;
        match s {
            Stmt::Let(l) => {
                let t = let_string(l, level);
                self.push(cs, t.as_str());
            },
            Stmt::Return(r) => match &r.value {
                Some(v) => {
                    self.push(cs, "return ");
                    let t = expr_string(v, 0, false, level);
                    self.push(cs, t.as_str());
                    assert(self.out@ =~= o0 + fmt_stmt(*s, level));
                },
                None => self.push(cs, "return"),
            },
            Stmt::Expr(e) => {
                let t = expr_string(&e.expr, 0, false, level);
                self.push(cs, t.as_str());
            },
            Stmt::If(i) => self.emit_if(cs, i, level),
        }
    }

    fn emit_if(&mut self, cs: &Vec<Comment>, i: &IfStmt, level: usize)
        requires
            fmt_wf(*old(self), cs@),
        ensures
            moved(*old(self), *final(self), cs@),
            quiet(*old(self), cs@) ==> final(self).out@ == old(self).out@ + fmt_if(*i, level),
            final(self).need_separator == old(self).need_separator,
            final(self).last_top_line == old(self).last_top_line,
        decreases *i,
    {
        let ghost o0 = self.out@;
        self.push(cs, "if ");
        let c = expr_string(&i.cond, 0, true, level);
        self.push(cs, c.as_str());
        self.push(cs, " ");
        let has_else = i.else_branch.is_some();
        self.emit_block_inner(cs, &i.then_block, level, !has_else);
        let ghost o1 = self.out@;
        match &i.else_branch {
            None => {
                assert(quiet(*old(self), cs@) ==> self.out@ =~= o0 + fmt_if(*i, level));
            },
            Some(branch) => {
                let close_line = i.then_block.span.end.line;
                let has_close_trailing = self.cursor < cs.len() && cs[self.cursor].span.start.line == close_line;
                if has_close_trailing {
                    self.flush_trailing_on(cs, close_line);
                    self.push(cs, "\n");
                    self.indent(cs, level);
                } else {
                    self.push(cs, " ");
                }
                self.push(cs, "else ");
                let ghost o2 = self.out@;
                match branch {
                    ElseBranch::Block(b) => self.emit_block_inner(cs, b, level, true),
                    ElseBranch::If(n) => self.emit_if(cs, n, level),
                }
                proof {
                    if quiet(*old(self), cs@) {
                        reveal_strlit(" else ");
                        reveal_strlit(" ");
                        reveal_strlit("else ");
                        assert(o2 =~= o1 + " else "@);
                        assert(self.out@ =~= o0 + fmt_if(*i, level));
                    }
                }
            },
        }
    }
}

impl Fmt {
    fn emit_clauses(&mut self, cs: &Vec<Comment>, es: &Vec<Expr>, kw: &str)
        requires
            fmt_wf(*old(self), cs@),
        ensures
            moved(*old(self), *final(self), cs@),
            quiet(*old(self), cs@) ==> final(self).out@ == old(self).out@ + fmt_clauses(es@, es@.len(), kw@),
            final(self).need_separator == old(self).need_separator,
            final(self).last_top_line == old(self).last_top_line,
    {
        let ghost o0 = self.out@;
        let mut i: usize = 0;
        while i < es.len()
            invariant
                i <= es@.len(),
                moved(*old(self), *self, cs@),
                quiet(*old(self), cs@) ==> self.out@ == o0 + fmt_clauses(es@, i as nat, kw@),
                self.need_separator == old(self).need_separator,
                self.last_top_line == old(self).last_top_line,
            decreases es@.len() - i,
        {
            let e = &es[i];
            let ghost o1 = self.out@;
            self.push(cs, "\n");
            let span = e.span();
            self.flush_leading(cs, span.start.line, 1);
            self.indent(cs, 1);
            self.push(cs, kw);
            self.push(cs, " ");
            let t = expr_string(e, 0, false, 1);
            self.push(cs, t.as_str());
            self.flush_trailing_on(cs, span.end.line);
            proof {
                if quiet(*old(self), cs@) {
                    lemma_line_start();
                    assert(self.out@ =~= o1 + "\n"@ + indent_text(1) + kw@ + " "@ + fmt_expr(es@[i as int], 0, false, 1));
                }
            }
            i = i + 1;
        }
    }

    fn emit_uses(&mut self, cs: &Vec<Comment>, uses: &Vec<EffectRef>)
        requires
            fmt_wf(*old(self), cs@),
        ensures
            moved(*old(self), *final(self), cs@),
            quiet(*old(self), cs@) ==> final(self).out@ == old(self).out@
                + (if uses@.len() > 0 { "\n  uses "@ + fmt_effects(uses@, uses@.len()) } else { Seq::<char>::empty() }),
            final(self).need_separator == old(self).need_separator,
            final(self).last_top_line == old(self).last_top_line,
    {
        let ghost o0 = self.out@;
        if uses.len() > 0 {
            self.push(cs, "\n");
            self.flush_leading(cs, uses[0].span.start.line, 1);
            self.indent(cs, 1);
            self.push(cs, "uses ");
            let mut t = String::new();
            push_effects(&mut t, uses);
            self.push(cs, t.as_str());
            self.flush_trailing_on(cs, uses[uses.len() - 1].span.end.line);
            proof {
                if quiet(*old(self), cs@) {
                    lemma_line_start();
                    reveal_strlit("\n  uses ");
                    reveal_strlit("uses ");
                    assert(self.out@ =~= o0 + ("\n"@ + indent_text(1) + "uses "@ + fmt_effects(uses@, uses@.len())));
                    assert("\n"@ + indent_text(1) + "uses "@ =~= "\n  uses "@);
                }
            }
        } else {
            assert(self.out@ =~= o0 + Seq::<char>::empty());
        }
    }

    #[verifier::rlimit(40)]
    fn emit_func(&mut self, cs: &Vec<Comment>, f: &FuncDecl)
        requires
            fmt_wf(*old(self), cs@),
        ensures
            moved(*old(self), *final(self), cs@),
            quiet(*old(self), cs@) ==> final(self).out@ == old(self).out@ + fmt_func(*f),
            final(self).need_separator == old(self).need_separator,
            final(self).last_top_line == old(self).last_top_line,
    {
        let ghost o0 = self.out@;
        let mut head = String::new();
        push_str(&mut head, "func ");
        push_str(&mut head, f.name.name.as_str());
        push_str(&mut head, "(");
        push_params(&mut head, &f.params);
        push_str(&mut head, ")");
        if let Some(ret) = &f.ret {
            push_str(&mut head, " -> ");
            push_type(&mut head, ret);
        }
        self.push(cs, head.as_str());
        let ghost o1 = self.out@;
        let clauses = f.uses.len() > 0 || f.requires.len() > 0 || f.ensures.len() > 0;
        let sig_end_line = match &f.ret {
            Some(r) => r.span.end.line,
            None => if f.params.len() > 0 { f.params[f.params.len() - 1].span.end.line } else { f.name.span.end.line },
        };
        if clauses {
            self.flush_trailing_on(cs, sig_end_line);
        }
        self.emit_uses(cs, &f.uses);
        let ghost o2 = self.out@;
        self.emit_clauses(cs, &f.requires, "requires");
        self.emit_clauses(cs, &f.ensures, "ensures");
        let ghost o3 = self.out@;
        if clauses {
            self.push(cs, "\n");
        } else {
            self.push(cs, " ");
        }
        let ghost o4 = self.out@;
        self.emit_block_inner(cs, &f.body, 0, true);
        proof {
            if quiet(*old(self), cs@) {
                assert(head@ =~= "func "@ + f.name.name@ + "("@ + fmt_params(f.params@, f.params@.len()) + ")"@
                    + (match f.ret { Some(t) => " -> "@ + fmt_type(t), None => Seq::<char>::empty() }));
                assert(self.out@ =~= o0 + fmt_func(*f));
            }
        }
    }

    fn emit_item(&mut self, cs: &Vec<Comment>, it: &Item)
        requires
            fmt_wf(*old(self), cs@),
        ensures
            moved(*old(self), *final(self), cs@),
            quiet(*old(self), cs@) ==> final(self).out@ == old(self).out@ + fmt_item(*it),
            final(self).need_separator == old(self).need_separator,
            final(self).last_top_line == old(self).last_top_line,
    {
        match it {
            Item::TypeAlias(a) => {
                let t = alias_string(a);
                self.push(cs, t.as_str());
            },
            Item::Record(r) => self.emit_record(cs, r),
            Item::Enum(e) => self.emit_enum(cs, e),
            Item::Func(f) => self.emit_func(cs, f),
            Item::Extern(d) => {
                let t = extern_string(d);
                self.push(cs, t.as_str());
            },
        }
    }

    fn emit_module(&mut self, cs: &Vec<Comment>, m: &Module)
        requires
            fmt_wf(*old(self), cs@),
            old(self).out@.len() == 0,
            !old(self).need_separator,
        ensures
            moved(*old(self), *final(self), cs@),
            quiet(*old(self), cs@) ==> final(self).out@ == fmt_head(*m) + fmt_items(*m, m.items@.len()),
    {
        let first_line: Option<u32> = match &m.decl {
            Some(d) => Some(d.span.start.line),
            None => if m.imports.len() > 0 {
                Some(m.imports[0].span.start.line)
            } else if m.items.len() > 0 {
                Some(item_span(&m.items[0]).start.line)
            } else {
                None
            },
        };
        if let Some(l) = first_line {
            self.flush_leading(cs, l, 0);
        }
        if let Some(d) = &m.decl {
            self.write_separator_if_needed(cs);
            self.push(cs, "module ");
            let mut t = String::new();
            crate::notation::push_path(&mut t, &d.path);
            self.push(cs, t.as_str());
            self.flush_trailing_on(cs, d.span.end.line);
            self.need_separator = true;
            self.last_top_line = Some(d.span.end.line);
        }
        let ghost o1 = self.out@;
        if m.imports.len() > 0 {
            self.write_separator_if_needed(cs);
            let ghost o2 = self.out@;
            let mut i: usize = 0;
            while i < m.imports.len()
                invariant
                    i <= m.imports@.len(),
                    moved(*old(self), *self, cs@),
                    quiet(*old(self), cs@) ==> self.out@ == o2 + fmt_imports(m.imports@, i as nat),
                decreases m.imports@.len() - i,
            {
                let imp = &m.imports[i];
                let ghost o3 = self.out@;
                if i > 0 {
                    self.push(cs, "\n");
                }
                self.flush_leading(cs, imp.span.start.line, 0);
                let t = import_string(imp);
                self.push(cs, t.as_str());
                self.flush_trailing_on(cs, imp.span.end.line);
                self.last_top_line = Some(imp.span.end.line);
                proof {
                    if quiet(*old(self), cs@) {
                        if i > 0 {
                            assert(self.out@ =~= o2 + (fmt_imports(m.imports@, i as nat) + "\n"@ + fmt_import(m.imports@[i as int])));
                        } else {
                            assert(self.out@ =~= o2 + fmt_import(m.imports@[0]));
                        }
                    }
                }
                i = i + 1;
            }
            self.need_separator = true;
        }
        proof {
            if quiet(*old(self), cs@) {
                assert(self.out@ =~= fmt_head(*m));
            }
        }
        let ghost oh = self.out@;
        let mut i: usize = 0;
        while i < m.items.len()
            invariant
                i <= m.items@.len(),
                moved(*old(self), *self, cs@),
                quiet(*old(self), cs@) ==> self.out@ == oh + fmt_items(*m, i as nat),
                quiet(*old(self), cs@) ==> oh == fmt_head(*m),
                self.need_separator == (has_head(*m) || i > 0),
            decreases m.items@.len() - i,
        {
            let it = &m.items[i];
            let span = item_span(it);
            let ghost o3 = self.out@;
            let glued = match it {
                Item::Extern(_) => i > 0 && match &m.items[i - 1] {
                    Item::Extern(_) => true,
                    _ => false,
                },
                _ => false,
            };
            if glued {
                self.push(cs, "\n");
            } else {
                self.write_separator_if_needed(cs);
            }
            let ghost o4 = self.out@;
            self.flush_leading(cs, span.start.line, 0);
            self.emit_item(cs, it);
            self.flush_trailing_on(cs, span.end.line);
            self.last_top_line = Some(span.end.line);
            self.need_separator = true;
            proof {
                if quiet(*old(self), cs@) {
                    assert(o4 =~= o3 + item_sep(*m, i as int));
                    assert(self.out@ =~= oh + fmt_items(*m, (i + 1) as nat));
                }
            }
            i = i + 1;
        }
    }

    /// Places the comments left after the last element (a blank line first
    /// when the source had one) and ends the text with one line break.
    fn finish(self, cs: &Vec<Comment>) -> (r: String)
        requires
            fmt_wf(self, cs@),
        ensures
            exists|offs: Seq<int>| comments_kept(r@, cs@, offs, cs@.len()),
            quiet(self, cs@) ==> r@ == (if self.out@.len() > 0 && self.out@.last() != '\n' {
                self.out@ + "\n"@
            } else {
                self.out@
            }),
    {
        let mut f = self;
        let ghost o0 = f.out@;
        if f.cursor < cs.len() {
            let comment_line = cs[f.cursor].span.start.line;
            let gap: u32 = match f.last_top_line {
                Some(l) => comment_line.saturating_sub(l),
                None => 0,
            };
            if !ends_with_newline_or_empty(&f.out) {
                f.push(cs, "\n");
            }
            if gap >= 2 && !is_empty_text(&f.out) {
                f.push(cs, "\n");
            }
            f.need_separator = false;
            f.flush_remaining(cs, 0);
        } else {
            assert(f.cursor == cs@.len());
        }
        let ghost o1 = f.out@;
        if !ends_with_newline_or_empty(&f.out) {
            f.push(cs, "\n");
        }
        assert(comments_kept(f.out@, cs@, f.offs@, cs@.len()));
        f.out
    }
}

fn is_empty_text(s: &String) -> (r: bool)
    ensures
        r == (s@.len() == 0),
{
    let cs = crate::text::chars_of(s.as_str());
    cs.len() == 0
}

/// A line break and one indentation step: `"\n"` then `"  "`.
proof fn lemma_line_start()
    ensures
        "\n"@ + indent_text(1) == "\n  "@,
        "\n"@ + indent_text(1) + "uses "@ == "\n  uses "@,
{
    reveal_with_fuel(repeat_text, 2);
    reveal_strlit("\n");
    reveal_strlit("  ");
    reveal_strlit("\n  ");
    reveal_strlit("uses ");
    reveal_strlit("\n  uses ");
    assert("\n"@ + indent_text(1) =~= "\n  "@);
    assert("\n"@ + indent_text(1) + "uses "@ =~= "\n  uses "@);
}

/// Whether `s` is empty or ends with a line break.
fn ends_with_newline_or_empty(s: &String) -> (r: bool)
    ensures
        r == (s@.len() == 0 || s@.last() == '\n'),
{
    let cs = crate::text::chars_of(s.as_str());
    cs.len() == 0 || cs[cs.len() - 1] == '\n'
}

/// Lays out `m`, placing the comments `cs` (in source order) back.
fn format_with_comments(m: &Module, cs: &Vec<Comment>) -> (r: String)
    ensures
        exists|offs: Seq<int>| comments_kept(r@, cs@, offs, cs@.len()),
        cs@.len() == 0 ==> r@ == module_text(*m),
{
    let mut f = Fmt::new();
    f.emit_module(cs, m);
    f.finish(cs)
}

/// The canonical text of a parsed module, without comments; empty for an
/// empty module.
pub fn format_module(module: &Module) -> (r: String)
    ensures
        r@ == module_text(*module),
{
    let cs: Vec<Comment> = Vec::new();
    format_with_comments(module, &cs)
}

/// `t` is the layout of some module with its comments placed back: each
/// comment appears, in order, and without comments `t` is the module's
/// canonical text.
pub open spec fn is_layout_of_some_module(t: Seq<char>) -> bool {
    exists|m: Module, cs: Seq<Comment>, offs: Seq<int>|
        #![trigger comments_kept(t, cs, offs, cs.len()), module_text(m)] {
        &&& comments_kept(t, cs, offs, cs.len())
        &&& (cs.len() == 0 ==> t == module_text(m))
    }
}

/// Formats source text. A text with syntax errors is not rewritten: the
/// errors are returned. The `//` comments are kept, in source order.
pub fn format_source(source: &str) -> (r: Result<String, Vec<crate::error::SyntaxError>>)
    requires
        source@.len() < crate::lexer::max_source_len(),
    ensures
        r matches Err(e) ==> e@.len() > 0,
        r matches Ok(t) ==> is_layout_of_some_module(t@),
{
    let result = crate::syntax::parse_module(source);
    if result.errors.len() > 0 {
        return Err(result.errors);
    }
    let t = format_with_comments(&result.module, &result.comments);
    proof {
        let offs = choose|offs: Seq<int>| comments_kept(t@, result.comments@, offs, result.comments@.len());
        assert(comments_kept(t@, result.comments@, offs, result.comments@.len()));
        assert(module_text(result.module) == module_text(result.module));
        assert(is_layout_of_some_module(t@));
    }
    Ok(t)
}

} // verus!
