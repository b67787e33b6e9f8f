//! The single canonical Kei source notation of contract expressions and
//! patterns. The verification report and the runtime violation message must
//! agree byte for byte, so both take their text from here.
use vstd::prelude::*;
use crate::ast::{BinOp, Expr, Ident, MatchArm, Pattern, PatternPayload, RecordLitField, UnaryOp};
use crate::text::{int_text, push_char, push_i64, push_str};

verus! {

broadcast use vstd::string::group_string_axioms;

/// Binding strength (larger binds tighter): Implies < Or < equality <
/// ordering < additive < multiplicative; postfix forms count as 6.
pub open spec fn bin_prec(op: BinOp) -> nat {
    match op {
        BinOp::Implies => 0,
        BinOp::Or => 1,
        BinOp::Eq | BinOp::Ne => 2,
        BinOp::Lt | BinOp::Gt | BinOp::Le | BinOp::Ge => 3,
        BinOp::Add | BinOp::Sub => 4,
        BinOp::Mul | BinOp::Div | BinOp::Rem => 5,
    }
}

pub open spec fn bin_op_text(op: BinOp) -> Seq<char> {
    match op {
        BinOp::Eq => "=="@,
        BinOp::Ne => "!="@,
        BinOp::Lt => "<"@,
        BinOp::Gt => ">"@,
        BinOp::Le => "<="@,
        BinOp::Ge => ">="@,
        BinOp::Add => "+"@,
        BinOp::Sub => "-"@,
        BinOp::Mul => "*"@,
        BinOp::Div => "/"@,
        BinOp::Rem => "%"@,
        BinOp::Or => "||"@,
        BinOp::Implies => "implies"@,
    }
}

/// A string literal with the escapes the lexer understands (`\" \\ \n \t \r`).
pub open spec fn escape(s: Seq<char>) -> Seq<char>
    decreases s.len(),
{
    if s.len() == 0 {
        Seq::empty()
    } else {
        let c = s.last();
        escape(s.drop_last()) + (if c == '"' { seq!['\\', '"'] }
            else if c == '\\' { seq!['\\', '\\'] }
            else if c == '\n' { seq!['\\', 'n'] }
            else if c == '\t' { seq!['\\', 't'] }
            else if c == '\r' { seq!['\\', 'r'] }
            else { seq![c] })
    }
}

pub open spec fn string_literal(s: Seq<char>) -> Seq<char> {
    seq!['"'] + escape(s) + seq!['"']
}

/// The names of a path joined with `.`, over the first `n` segments.
pub open spec fn path_text(p: Seq<Ident>, n: nat) -> Seq<char>
    decreases n,
{
    if n == 0 {
        Seq::empty()
    } else if n == 1 {
        p[0].name@
    } else {
        path_text(p, (n - 1) as nat) + "."@ + p[n - 1].name@
    }
}

/// The names of `p` joined with `sep`, over the first `n`.
pub open spec fn names_text(p: Seq<Ident>, n: nat, sep: Seq<char>) -> Seq<char>
    decreases n,
{
    if n == 0 {
        Seq::empty()
    } else if n == 1 {
        p[0].name@
    } else {
        names_text(p, (n - 1) as nat, sep) + sep + p[n - 1].name@
    }
}

/// The canonical text of an expression.
pub open spec fn expr_text(e: Expr) -> Seq<char>
    decreases e, 0nat,
{
    match e {
        Expr::Int { value, .. } => int_text(value as int),
        Expr::Str { value, .. } => string_literal(value@),
        Expr::Bool { value, .. } => if value { "true"@ } else { "false"@ },
        Expr::Name { name, .. } => name@,
        Expr::Field { base, name, .. } => child_text(*base, 6) + "."@ + name.name@,
        Expr::Call { callee, args, .. } => child_text(*callee, 6) + "("@ + exprs_text(args@, args@.len()) + ")"@,
        Expr::Unary { op, expr, .. } => (match op { UnaryOp::Neg => "-"@, UnaryOp::Not => "!"@ }) + child_text(*expr, 6),
        Expr::Binary { op, lhs, rhs, .. } => {
            let p = bin_prec(op);
            let lmin = if op == BinOp::Implies { p + 1 } else { p };
            let rmin = if op == BinOp::Implies { p } else { p + 1 };
            child_text(*lhs, lmin) + " "@ + bin_op_text(op) + " "@ + child_text(*rhs, rmin)
        },
        Expr::RecordLit { path, fields, .. } =>
            path_text(path@, path@.len()) + " { "@ + fields_text(fields@, fields@.len()) + " }"@,
        Expr::Match { scrutinee, arms, .. } =>
            "match "@ + expr_text(*scrutinee) + " { "@ + arms_text(arms@, arms@.len()) + " }"@,
        Expr::ListLit { elements, .. } => "["@ + exprs_text(elements@, elements@.len()) + "]"@,
    }
}

/// A subexpression in a context of binding strength `parent`: wrapped in
/// parentheses only when it is a binary expression binding more loosely.
pub open spec fn child_text(e: Expr, parent: nat) -> Seq<char>
    decreases e, 1nat,
{
    match e {
        Expr::Binary { op, .. } => if bin_prec(op) < parent {
            "("@ + expr_text(e) + ")"@
        } else {
            expr_text(e)
        },
        _ => expr_text(e),
    }
}

/// The first `n` expressions, joined with `, `.
pub open spec fn exprs_text(es: Seq<Expr>, n: nat) -> Seq<char>
    decreases es, n,
{
    if n == 0 || n > es.len() {
        Seq::empty()
    } else if n == 1 {
        expr_text(es[0])
    } else {
        exprs_text(es, (n - 1) as nat) + ", "@ + expr_text(es[n - 1])
    }
}

pub open spec fn field_text(f: RecordLitField) -> Seq<char>
    decreases f, 0nat,
{
    match f.value {
        None => f.name.name@,
        Some(v) => f.name.name@ + ": "@ + expr_text(v),
    }
}

/// The first `n` record literal fields, joined with `, `.
pub open spec fn fields_text(fs: Seq<RecordLitField>, n: nat) -> Seq<char>
    decreases fs, n,
{
    if n == 0 || n > fs.len() {
        Seq::empty()
    } else if n == 1 {
        field_text(fs[0])
    } else {
        fields_text(fs, (n - 1) as nat) + ", "@ + field_text(fs[n - 1])
    }
}

/// The first `n` match arms, joined with `, `.
pub open spec fn arms_text(arms: Seq<MatchArm>, n: nat) -> Seq<char>
    decreases arms, n,
{
    if n == 0 || n > arms.len() {
        Seq::empty()
    } else if n == 1 {
        pattern_text(arms[0].pattern) + " => "@ + expr_text(arms[0].body)
    } else {
        arms_text(arms, (n - 1) as nat) + ", "@ + pattern_text(arms[n - 1].pattern) + " => "@ + expr_text(arms[n - 1].body)
    }
}

/// The canonical text of a pattern.
pub open spec fn pattern_text(p: Pattern) -> Seq<char> {
    let head = path_text(p.path@, p.path@.len());
    match p.payload {
        PatternPayload::Unit => head,
        PatternPayload::Tuple { bindings } => head + "("@ + names_text(bindings@, bindings@.len(), ", "@) + ")"@,
        PatternPayload::Record { fields } => head + " { "@ + names_text(fields@, fields@.len(), ", "@) + " }"@,
    }
}

fn bin_prec_exec(op: BinOp) -> (p: u8)
    ensures
        p == bin_prec(op),
{
    match op {
        BinOp::Implies => 0,
        BinOp::Or => 1,
        BinOp::Eq | BinOp::Ne => 2,
        BinOp::Lt | BinOp::Gt | BinOp::Le | BinOp::Ge => 3,
        BinOp::Add | BinOp::Sub => 4,
        BinOp::Mul | BinOp::Div | BinOp::Rem => 5,
    }
}

pub fn bin_op_str(op: BinOp) -> (r: &'static str)
    ensures
        r@ == bin_op_text(op),
{
    match op {
        BinOp::Eq => "==",
        BinOp::Ne => "!=",
        BinOp::Lt => "<",
        BinOp::Gt => ">",
        BinOp::Le => "<=",
        BinOp::Ge => ">=",
        BinOp::Add => "+",
        BinOp::Sub => "-",
        BinOp::Mul => "*",
        BinOp::Div => "/",
        BinOp::Rem => "%",
        BinOp::Or => "||",
        BinOp::Implies => "implies",
    }
}

/// The canonical Kei source text of a contract expression, with the fewest
/// parentheses that keep its structure.
pub fn contract_expr_text(e: &Expr) -> (r: String)
    ensures
        r@ == expr_text(*e),
{
    let mut s = String::new();
    push_expr(&mut s, e);
    assert(Seq::<char>::empty() + expr_text(*e) =~= expr_text(*e));
    s
}

/// Appends the canonical text of `e`.
pub fn push_expr(s: &mut String, e: &Expr)
    ensures
        final(s)@ == old(s)@ + expr_text(*e),
    decreases *e, 0nat,
{
    let ghost s0 = s@;
    match e {
        Expr::Int { value, .. } => {
            push_i64(s, *value);
        },
        Expr::Str { value, .. } => {
            push_string_literal(s, value.as_str());
        },
        Expr::Bool { value, .. } => {
            if *value { push_str(s, "true"); } else { push_str(s, "false"); }
        },
        Expr::Name { name, .. } => {
            push_str(s, name.as_str());
        },
        Expr::Field { base, name, .. } => {
            push_child(s, base, 6);
            push_str(s, ".");
            push_str(s, name.name.as_str());
            assert(s@ =~= s0 + (child_text(**base, 6) + "."@ + name.name@));
        },
        Expr::Call { callee, args, .. } => {
            push_child(s, callee, 6);
            push_str(s, "(");
            push_exprs(s, args);
            push_str(s, ")");
            assert(s@ =~= s0 + (child_text(**callee, 6) + "("@ + exprs_text(args@, args@.len()) + ")"@));
        },
        Expr::Unary { op, expr, .. } => {
            match op {
                UnaryOp::Neg => push_str(s, "-"),
                UnaryOp::Not => push_str(s, "!"),
            }
            push_child(s, expr, 6);
            assert(s@ =~= s0 + ((match *op { UnaryOp::Neg => "-"@, UnaryOp::Not => "!"@ }) + child_text(**expr, 6)));
        },
        Expr::Binary { op, lhs, rhs, .. } => {
            let p = bin_prec_exec(*op);
            let is_implies = match op { BinOp::Implies => true, _ => false };
            let lmin: u8 = if is_implies { p + 1 } else { p };
            let rmin: u8 = if is_implies { p } else { p + 1 };
            push_child(s, lhs, lmin);
            push_str(s, " ");
            push_str(s, bin_op_str(*op));
            push_str(s, " ");
            push_child(s, rhs, rmin);
            assert(s@ =~= s0 + (child_text(**lhs, lmin as nat) + " "@ + bin_op_text(*op) + " "@ + child_text(**rhs, rmin as nat)));
        },
        Expr::RecordLit { path, fields, .. } => {
            push_path(s, path);
            push_str(s, " { ");
            push_fields(s, fields);
            push_str(s, " }");
            assert(s@ =~= s0 + (path_text(path@, path@.len()) + " { "@ + fields_text(fields@, fields@.len()) + " }"@));
        },
        Expr::Match { scrutinee, arms, .. } => {
            push_str(s, "match ");
            push_expr(s, scrutinee);
            push_str(s, " { ");
            push_arms(s, arms);
            push_str(s, " }");
            assert(s@ =~= s0 + ("match "@ + expr_text(**scrutinee) + " { "@ + arms_text(arms@, arms@.len()) + " }"@));
        },
        Expr::ListLit { elements, .. } => {
            push_str(s, "[");
            push_exprs(s, elements);
            push_str(s, "]");
            assert(s@ =~= s0 + ("["@ + exprs_text(elements@, elements@.len()) + "]"@));
        },
    }
}

fn push_child(s: &mut String, e: &Expr, parent: u8)
    ensures
        final(s)@ == old(s)@ + child_text(*e, parent as nat),
    decreases *e, 1nat,
{
    let ghost s0 = s@;
    let wrap = match e {
        Expr::Binary { op, .. } => bin_prec_exec(*op) < parent,
        _ => false,
    };
    if wrap {
        push_str(s, "(");
        push_expr(s, e);
        push_str(s, ")");
        assert(s@ =~= s0 + ("("@ + expr_text(*e) + ")"@));
    } else {
        push_expr(s, e);
    }
}

fn push_exprs(s: &mut String, es: &Vec<Expr>)
    ensures
        final(s)@ == old(s)@ + exprs_text(es@, es@.len()),
    decreases es@, 0nat,
{
    let ghost s0 = s@;
    let mut i: usize = 0;
    while i < es.len()
        invariant
            i <= es@.len(),
            s@ == s0 + exprs_text(es@, i as nat),
        decreases es@.len() - i,
    {
        if i > 0 {
            push_str(s, ", ");
        }
        assert(decreases_to!(es@ => es@[i as int]));
        push_expr(s, &es[i]);
        proof {
            if i > 0 {
                assert(s@ =~= s0 + (exprs_text(es@, i as nat) + ", "@ + expr_text(es@[i as int])));
            } else {
                assert(s@ =~= s0 + expr_text(es@[0]));
            }
        }
        i = i + 1;
    }
}

fn push_fields(s: &mut String, fs: &Vec<RecordLitField>)
    ensures
        final(s)@ == old(s)@ + fields_text(fs@, fs@.len()),
    decreases fs@, 0nat,
{
    let ghost s0 = s@;
    let mut i: usize = 0;
    while i < fs.len()
        invariant
            i <= fs@.len(),
            s@ == s0 + fields_text(fs@, i as nat),
        decreases fs@.len() - i,
    {
        if i > 0 {
            push_str(s, ", ");
        }
        let f = &fs[i];
        let ghost s1 = s@;
        push_str(s, f.name.name.as_str());
        match &f.value {
            None => {},
            Some(v) => {
                push_str(s, ": ");
                assert(decreases_to!(fs@ => fs@[i as int]));
                assert(decreases_to!(fs@[i as int] => fs@[i as int].value));
                push_expr(s, v);
            },
        }
        assert(s@ =~= s1 + field_text(fs@[i as int]));
        proof {
            if i > 0 {
                assert(s@ =~= s0 + (fields_text(fs@, i as nat) + ", "@ + field_text(fs@[i as int])));
            } else {
                assert(s@ =~= s0 + field_text(fs@[0]));
            }
        }
        i = i + 1;
    }
}

fn push_arms(s: &mut String, arms: &Vec<MatchArm>)
    ensures
        final(s)@ == old(s)@ + arms_text(arms@, arms@.len()),
    decreases arms@, 0nat,
{
    let ghost s0 = s@;
    let mut i: usize = 0;
    while i < arms.len()
        invariant
            i <= arms@.len(),
            s@ == s0 + arms_text(arms@, i as nat),
        decreases arms@.len() - i,
    {
        if i > 0 {
            push_str(s, ", ");
        }
        let arm = &arms[i];
        let ghost s1 = s@;
        push_pattern(s, &arm.pattern);
        push_str(s, " => ");
        assert(decreases_to!(arms@ => arms@[i as int]));
        push_expr(s, &arm.body);
        proof {
            if i > 0 {
                assert(s@ =~= s0 + (arms_text(arms@, i as nat) + ", "@ + pattern_text(arm.pattern) + " => "@ + expr_text(arm.body)));
            } else {
                assert(s@ =~= s0 + (pattern_text(arms@[0].pattern) + " => "@ + expr_text(arms@[0].body)));
            }
        }
        i = i + 1;
    }
}

/// Appends the names of `p` joined with `.`.
pub fn push_path(s: &mut String, p: &Vec<Ident>)
    ensures
        final(s)@ == old(s)@ + path_text(p@, p@.len()),
{
    let ghost s0 = s@;
    let mut i: usize = 0;
    while i < p.len()
        invariant
            i <= p@.len(),
            s@ == s0 + path_text(p@, i as nat),
        decreases p@.len() - i,
    {
        if i > 0 {
            push_str(s, ".");
        }
        push_str(s, p[i].name.as_str());
        proof {
            if i > 0 {
                assert(s@ =~= s0 + (path_text(p@, i as nat) + "."@ + p@[i as int].name@));
            } else {
                assert(s@ =~= s0 + p@[0].name@);
            }
        }
        i = i + 1;
    }
}

/// Appends the names of `p` joined with `sep`.
pub fn push_names(s: &mut String, p: &Vec<Ident>, sep: &str)
    ensures
        final(s)@ == old(s)@ + names_text(p@, p@.len(), sep@),
{
    let ghost s0 = s@;
    let mut i: usize = 0;
    while i < p.len()
        invariant
            i <= p@.len(),
            s@ == s0 + names_text(p@, i as nat, sep@),
        decreases p@.len() - i,
    {
        if i > 0 {
            push_str(s, sep);
        }
        push_str(s, p[i].name.as_str());
        proof {
            if i > 0 {
                assert(s@ =~= s0 + (names_text(p@, i as nat, sep@) + sep@ + p@[i as int].name@));
            } else {
                assert(s@ =~= s0 + p@[0].name@);
            }
        }
        i = i + 1;
    }
}

fn push_pattern(s: &mut String, pat: &Pattern)
    ensures
        final(s)@ == old(s)@ + pattern_text(*pat),
{
    let ghost s0 = s@;
    push_path(s, &pat.path);
    match &pat.payload {
        PatternPayload::Unit => {},
        PatternPayload::Tuple { bindings } => {
            push_str(s, "(");
            push_names(s, bindings, ", ");
            push_str(s, ")");
        },
        PatternPayload::Record { fields } => {
            push_str(s, " { ");
            push_names(s, fields, ", ");
            push_str(s, " }");
        },
    }
    assert(s@ =~= s0 + pattern_text(*pat));
}

/// The canonical Kei source text of a pattern.
pub fn contract_pattern_text(pat: &Pattern) -> (r: String)
    ensures
        r@ == pattern_text(*pat),
{
    let mut s = String::new();
    push_pattern(&mut s, pat);
    assert(Seq::<char>::empty() + pattern_text(*pat) =~= pattern_text(*pat));
    s
}

/// Appends `value` as a quoted, escaped string literal.
pub fn push_string_literal(s: &mut String, value: &str)
    ensures
        final(s)@ == old(s)@ + string_literal(value@),
{
    let ghost s0 = s@;
    let cs = crate::text::chars_of(value);
    push_char(s, '"');
    let mut i: usize = 0;
    while i < cs.len()
        invariant
            i <= cs@.len(),
            cs@ == value@,
            s@ == s0 + seq!['"'] + escape(cs@.take(i as int)),
        decreases cs@.len() - i,
    {
        let c = cs[i];
        if c == '"' {
            push_str(s, "\\\"");
        } else if c == '\\' {
            push_str(s, "\\\\");
        } else if c == '\n' {
            push_str(s, "\\n");
        } else if c == '\t' {
            push_str(s, "\\t");
        } else if c == '\r' {
            push_str(s, "\\r");
        } else {
            push_char(s, c);
        }
        proof {
            reveal_strlit("\\\"");
            reveal_strlit("\\\\");
            reveal_strlit("\\n");
            reveal_strlit("\\t");
            reveal_strlit("\\r");
            assert(cs@.take(i + 1).drop_last() =~= cs@.take(i as int));
            assert(cs@.take(i + 1).last() == c);
        }
        i = i + 1;
    }
    push_char(s, '"');
    assert(cs@.take(cs@.len() as int) =~= cs@);
    assert(s@ =~= s0 + string_literal(value@));
}

/// The quoted, escaped string literal of `value`.
pub fn contract_string_literal(value: &str) -> (r: String)
    ensures
        r@ == string_literal(value@),
{
    let mut s = String::new();
    push_string_literal(&mut s, value);
    assert(Seq::<char>::empty() + string_literal(value@) =~= string_literal(value@));
    s
}

} // verus!
