//! Contract classification: constant folding of contract expressions and the
//! verification level each clause reaches, plus the contract report.
use vstd::prelude::*;
use crate::ast::{BinOp, Expr, FuncDecl, Item, Module, Type, UnaryOp};
use crate::diagnostic::{Fix, Position, Span};
use crate::notation::{contract_expr_text, expr_text};
use crate::report::{ContractInfo, ContractKind, Verification};
use crate::text::{owned, str_eq};

verus! {

broadcast use vstd::string::group_string_axioms;

/// A folded constant.
#[derive(Debug, PartialEq, Eq)]
pub enum ConstVal {
    Int(i64),
    Bool(bool),
    Str(String),
}

pub open spec fn checked_neg(n: i64) -> Option<i64> {
    if n == i64::MIN { None } else { Some((-n) as i64) }
}

/// The constant a variable-free pure expression folds to, if any.
/// Arithmetic follows 64-bit checked semantics: overflow does not fold.
pub open spec fn const_value(e: Expr) -> Option<ConstVal>
    decreases e,
{
    match e {
        Expr::Int { value, .. } => Some(ConstVal::Int(value)),
        Expr::Bool { value, .. } => Some(ConstVal::Bool(value)),
        Expr::Str { value, .. } => Some(ConstVal::Str(value)),
        Expr::Unary { op, expr, .. } => match (op, const_value(*expr)) {
            (UnaryOp::Neg, Some(ConstVal::Int(n))) => match checked_neg(n) {
                Some(m) => Some(ConstVal::Int(m)),
                None => None,
            },
            (UnaryOp::Not, Some(ConstVal::Bool(b))) => Some(ConstVal::Bool(!b)),
            _ => None,
        },
        Expr::Binary { op, lhs, rhs, .. } => match (const_value(*lhs), const_value(*rhs)) {
            (Some(l), Some(r)) => fold_binary(op, l, r),
            _ => None,
        },
        _ => None,
    }
}

pub open spec fn int_result(r: Option<i64>) -> Option<ConstVal> {
    match r {
        Some(v) => Some(ConstVal::Int(v)),
        None => None,
    }
}

/// `a - (a / b) * b` with truncating division, each step checked.
pub open spec fn checked_rem(a: i64, b: i64) -> Option<i64> {
    match a.checked_div(b) {
        Some(q) => match q.checked_mul(b) {
            Some(m) => a.checked_sub(m),
            None => None,
        },
        None => None,
    }
}

/// Folding of one binary operator over two constants.
pub open spec fn fold_binary(op: BinOp, l: ConstVal, r: ConstVal) -> Option<ConstVal> {
    match (op, l, r) {
        (BinOp::Add, ConstVal::Int(a), ConstVal::Int(b)) => int_result(a.checked_add(b)),
        (BinOp::Sub, ConstVal::Int(a), ConstVal::Int(b)) => int_result(a.checked_sub(b)),
        (BinOp::Mul, ConstVal::Int(a), ConstVal::Int(b)) => int_result(a.checked_mul(b)),
        (BinOp::Div, ConstVal::Int(a), ConstVal::Int(b)) => if b != 0 { int_result(a.checked_div(b)) } else { None },
        (BinOp::Rem, ConstVal::Int(a), ConstVal::Int(b)) => if b != 0 { int_result(checked_rem(a, b)) } else { None },
        (BinOp::Eq, ConstVal::Int(a), ConstVal::Int(b)) => Some(ConstVal::Bool(a == b)),
        (BinOp::Ne, ConstVal::Int(a), ConstVal::Int(b)) => Some(ConstVal::Bool(a != b)),
        (BinOp::Lt, ConstVal::Int(a), ConstVal::Int(b)) => Some(ConstVal::Bool(a < b)),
        (BinOp::Gt, ConstVal::Int(a), ConstVal::Int(b)) => Some(ConstVal::Bool(a > b)),
        (BinOp::Le, ConstVal::Int(a), ConstVal::Int(b)) => Some(ConstVal::Bool(a <= b)),
        (BinOp::Ge, ConstVal::Int(a), ConstVal::Int(b)) => Some(ConstVal::Bool(a >= b)),
        (BinOp::Eq, ConstVal::Bool(a), ConstVal::Bool(b)) => Some(ConstVal::Bool(a == b)),
        (BinOp::Ne, ConstVal::Bool(a), ConstVal::Bool(b)) => Some(ConstVal::Bool(a != b)),
        (BinOp::Eq, ConstVal::Str(a), ConstVal::Str(b)) => Some(ConstVal::Bool(a@ == b@)),
        (BinOp::Ne, ConstVal::Str(a), ConstVal::Str(b)) => Some(ConstVal::Bool(a@ != b@)),
        (BinOp::Or, ConstVal::Bool(a), ConstVal::Bool(b)) => Some(ConstVal::Bool(a || b)),
        (BinOp::Implies, ConstVal::Bool(a), ConstVal::Bool(b)) => Some(ConstVal::Bool(!a || b)),
        _ => None,
    }
}

/// Folds a variable-free pure expression; `None` when it cannot be folded.
pub fn const_eval(expr: &Expr) -> (r: Option<ConstVal>)
    ensures
        r == const_value(*expr),
    decreases *expr,
{
    match expr {
        Expr::Int { value, .. } => Some(ConstVal::Int(*value)),
        Expr::Bool { value, .. } => Some(ConstVal::Bool(*value)),
        Expr::Str { value, .. } => Some(ConstVal::Str(value.clone())),
        Expr::Unary { op, expr, .. } => {
            let v = const_eval(expr);
            match (op, v) {
                (UnaryOp::Neg, Some(ConstVal::Int(n))) => {
                    if n == i64::MIN { None } else { Some(ConstVal::Int(-n)) }
                },
                (UnaryOp::Not, Some(ConstVal::Bool(b))) => Some(ConstVal::Bool(!b)),
                _ => None,
            }
        },
        Expr::Binary { op, lhs, rhs, .. } => {
            let l = const_eval(lhs);
            let r = const_eval(rhs);
            match (l, r) {
                (Some(l), Some(r)) => fold_binary_exec(*op, l, r),
                _ => None,
            }
        },
        _ => None,
    }
}

fn int_result_exec(r: Option<i64>) -> (c: Option<ConstVal>)
    ensures
        c == int_result(r),
{
    match r {
        Some(v) => Some(ConstVal::Int(v)),
        None => None,
    }
}

fn fold_binary_exec(op: BinOp, l: ConstVal, r: ConstVal) -> (c: Option<ConstVal>)
    ensures
        c == fold_binary(op, l, r),
{
    match (op, l, r) {
        (BinOp::Add, ConstVal::Int(a), ConstVal::Int(b)) => int_result_exec(a.checked_add(b)),
        (BinOp::Sub, ConstVal::Int(a), ConstVal::Int(b)) => int_result_exec(a.checked_sub(b)),
        (BinOp::Mul, ConstVal::Int(a), ConstVal::Int(b)) => int_result_exec(a.checked_mul(b)),
        (BinOp::Div, ConstVal::Int(a), ConstVal::Int(b)) => {
            if b != 0 { int_result_exec(a.checked_div(b)) } else { None }
        },
        (BinOp::Rem, ConstVal::Int(a), ConstVal::Int(b)) => {
            if b != 0 {
                let r = match a.checked_div(b) {
                    Some(q) => match q.checked_mul(b) {
                        Some(m) => a.checked_sub(m),
                        None => None,
                    },
                    None => None,
                };
                int_result_exec(r)
            } else {
                None
            }
        },
        (BinOp::Eq, ConstVal::Int(a), ConstVal::Int(b)) => Some(ConstVal::Bool(a == b)),
        (BinOp::Ne, ConstVal::Int(a), ConstVal::Int(b)) => Some(ConstVal::Bool(a != b)),
        (BinOp::Lt, ConstVal::Int(a), ConstVal::Int(b)) => Some(ConstVal::Bool(a < b)),
        (BinOp::Gt, ConstVal::Int(a), ConstVal::Int(b)) => Some(ConstVal::Bool(a > b)),
        (BinOp::Le, ConstVal::Int(a), ConstVal::Int(b)) => Some(ConstVal::Bool(a <= b)),
        (BinOp::Ge, ConstVal::Int(a), ConstVal::Int(b)) => Some(ConstVal::Bool(a >= b)),
        (BinOp::Eq, ConstVal::Bool(a), ConstVal::Bool(b)) => Some(ConstVal::Bool(a == b)),
        (BinOp::Ne, ConstVal::Bool(a), ConstVal::Bool(b)) => Some(ConstVal::Bool(a != b)),
        (BinOp::Eq, ConstVal::Str(a), ConstVal::Str(b)) => Some(ConstVal::Bool(a == b)),
        (BinOp::Ne, ConstVal::Str(a), ConstVal::Str(b)) => Some(ConstVal::Bool(!(a == b))),
        (BinOp::Or, ConstVal::Bool(a), ConstVal::Bool(b)) => Some(ConstVal::Bool(a || b)),
        (BinOp::Implies, ConstVal::Bool(a), ConstVal::Bool(b)) => Some(ConstVal::Bool(!a || b)),
        _ => None,
    }
}

/// The three-way classification of a contract by constant folding, shared by
/// the verification report and the always-false contract error.
#[derive(Debug, Clone, Copy, PartialEq, Eq, Structural)]
pub enum ContractTruth {
    /// Folds to `true`: holds at compile time.
    AlwaysTrue,
    /// Folds to `false`: always violated.
    AlwaysFalse,
    /// Cannot be folded (it mentions variables, say): decided at run time.
    Unknown,
}

pub open spec fn spec_classify(e: Expr) -> ContractTruth {
    match const_value(e) {
        Some(ConstVal::Bool(true)) => ContractTruth::AlwaysTrue,
        Some(ConstVal::Bool(false)) => ContractTruth::AlwaysFalse,
        _ => ContractTruth::Unknown,
    }
}

pub fn classify_contract(expr: &Expr) -> (r: ContractTruth)
    ensures
        r == spec_classify(*expr),
{
    match const_eval(expr) {
        Some(ConstVal::Bool(true)) => ContractTruth::AlwaysTrue,
        Some(ConstVal::Bool(false)) => ContractTruth::AlwaysFalse,
        _ => ContractTruth::Unknown,
    }
}

/// A contract that folds to `true` is `static`; every other contract is left
/// to a runtime assertion (an always-false one is rejected at check time).
pub fn verification_of(expr: &Expr) -> (r: Verification)
    ensures
        r == Verification::Static <==> const_value(*expr) == Some(ConstVal::Bool(true)),
        r != Verification::Static ==> r == Verification::Runtime,
{
    match classify_contract(expr) {
        ContractTruth::AlwaysTrue => Verification::Static,
        ContractTruth::AlwaysFalse | ContractTruth::Unknown => Verification::Runtime,
    }
}

/// A fix that only names its direction.
pub fn direction(title: String) -> (f: Fix)
    ensures
        f.title == title,
        f.edits@.len() == 0,
{
    Fix { title, edits: Vec::new() }
}

/// Whether a type is a scalar built-in (`Int`, `Bool`, `String`).
pub fn is_scalar_type(t: &Type) -> (r: bool)
    ensures
        r == (t.path@.len() == 1 && t.args@.len() == 0
            && (t.path@[0].name@ == "Int"@ || t.path@[0].name@ == "Bool"@ || t.path@[0].name@ == "String"@)),
{
    if t.path.len() != 1 || t.args.len() != 0 {
        return false;
    }
    let n = t.path[0].name.as_str();
    str_eq(n, "Int") || str_eq(n, "Bool") || str_eq(n, "String")
}

/// The report entry of one contract clause.
pub open spec fn reports_contract(file: Seq<char>, func: Seq<char>, kind: ContractKind, e: Expr, c: ContractInfo) -> bool {
    let s = crate::ast::expr_span(e);
    &&& c.func@ == func
    &&& c.kind == kind
    &&& c.expr@ == expr_text(e)
    &&& (c.verification == Verification::Static <==> const_value(e) == Some(ConstVal::Bool(true)))
    &&& (c.verification != Verification::Static ==> c.verification == Verification::Runtime)
    &&& c.span.file@ == file
    &&& c.span.start == Position { line: s.start.line, col: s.start.col }
    &&& c.span.end == Position { line: s.end.line, col: s.end.col }
}

pub fn contract_info(file: &str, func: &str, kind: ContractKind, expr: &Expr) -> (c: ContractInfo)
    ensures
        reports_contract(file@, func@, kind, *expr, c),
{
    let s = expr.span();
    ContractInfo {
        func: owned(func),
        kind,
        expr: contract_expr_text(expr),
        verification: verification_of(expr),
        span: Span {
            file: owned(file),
            start: Position { line: s.start.line, col: s.start.col },
            end: Position { line: s.end.line, col: s.end.col },
        },
    }
}

/// The contract clauses of one function, `requires` first, in order.
pub open spec fn func_clauses(f: FuncDecl) -> Seq<(ContractKind, Expr)> {
    f.requires@.map_values(|e: Expr| (ContractKind::Requires, e))
        + f.ensures@.map_values(|e: Expr| (ContractKind::Ensures, e))
}

/// The contract clauses of the first `n` items, in source order.
pub open spec fn module_clauses(items: Seq<Item>, n: nat) -> Seq<(Seq<char>, ContractKind, Expr)>
    decreases n,
{
    if n == 0 || n > items.len() {
        Seq::empty()
    } else {
        module_clauses(items, (n - 1) as nat) + match items[n - 1] {
            Item::Func(f) => func_clauses(f).map_values(|c: (ContractKind, Expr)| (f.name.name@, c.0, c.1)),
            _ => Seq::empty(),
        }
    }
}

/// One report entry per contract clause, in source order.
pub fn collect_contracts(file: &str, module: &Module) -> (out: Vec<ContractInfo>)
    ensures
        out@.len() == module_clauses(module.items@, module.items@.len()).len(),
        forall|i: int| 0 <= i < out@.len() ==> {
            let c = module_clauses(module.items@, module.items@.len())[i];
            reports_contract(file@, c.0, c.1, c.2, #[trigger] out@[i])
        },
{
    let mut out: Vec<ContractInfo> = Vec::new();
    let mut k: usize = 0;
    while k < module.items.len()
        invariant
            k <= module.items@.len(),
            out@.len() == module_clauses(module.items@, k as nat).len(),
            forall|i: int| 0 <= i < out@.len() ==> {
                let c = module_clauses(module.items@, k as nat)[i];
                reports_contract(file@, c.0, c.1, c.2, #[trigger] out@[i])
            },
        decreases module.items@.len() - k,
    {
        let ghost before = out@;
        let ghost prev = module_clauses(module.items@, k as nat);
        assert(forall|i: int| 0 <= i < before.len() ==> reports_contract(file@, prev[i].0, prev[i].1, prev[i].2, #[trigger] before[i]));
        match &module.items[k] {
            Item::Func(f) => {
                let ghost fc = func_clauses(*f).map_values(|c: (ContractKind, Expr)| (f.name.name@, c.0, c.1));
                let mut j: usize = 0;
                while j < f.requires.len()
                    invariant
                        j <= f.requires@.len(),
                        out@.len() == before.len() + j,
                        forall|i: int| 0 <= i < before.len() ==> out@[i] == before[i],
                        forall|i: int| 0 <= i < j ==> reports_contract(file@, f.name.name@, ContractKind::Requires, f.requires@[i], #[trigger] out@[before.len() + i]),
                    decreases f.requires@.len() - j,
                {
                    out.push(contract_info(file, f.name.name.as_str(), ContractKind::Requires, &f.requires[j]));
                    j = j + 1;
                }
                let mut j: usize = 0;
                while j < f.ensures.len()
                    invariant
                        j <= f.ensures@.len(),
                        out@.len() == before.len() + f.requires@.len() + j,
                        forall|i: int| 0 <= i < before.len() ==> out@[i] == before[i],
                        forall|i: int| 0 <= i < f.requires@.len() ==> reports_contract(file@, f.name.name@, ContractKind::Requires, f.requires@[i], #[trigger] out@[before.len() + i]),
                        forall|i: int| 0 <= i < j ==> reports_contract(file@, f.name.name@, ContractKind::Ensures, f.ensures@[i], #[trigger] out@[before.len() + f.requires@.len() + i]),
                    decreases f.ensures@.len() - j,
                {
                    out.push(contract_info(file, f.name.name.as_str(), ContractKind::Ensures, &f.ensures[j]));
                    j = j + 1;
                }
                proof {
                    assert(module_clauses(module.items@, (k + 1) as nat) == prev + fc);
                    assert forall|i: int| 0 <= i < out@.len() implies {
                        let c = module_clauses(module.items@, (k + 1) as nat)[i];
                        reports_contract(file@, c.0, c.1, c.2, #[trigger] out@[i])
                    } by {
                        let all = module_clauses(module.items@, (k + 1) as nat);
                        if i >= before.len() {
                            let m = i - before.len();
                            assert(all[i] == fc[m]);
                            if m < f.requires@.len() {
                                assert(func_clauses(*f)[m] == (ContractKind::Requires, f.requires@[m]));
                                assert(out@[before.len() + m] == out@[i]);
                            } else {
                                let q = m - f.requires@.len();
                                assert(func_clauses(*f)[m] == (ContractKind::Ensures, f.ensures@[q]));
                                assert(out@[before.len() + f.requires@.len() + q] == out@[i]);
                            }
                        } else {
                            assert(all[i] == prev[i]);
                            assert(out@[i] == before[i]);
                        }
                    }
                }
            },
            _ => {
                proof {
                    assert(module_clauses(module.items@, (k + 1) as nat) =~= prev);
                }
            },
        }
        k = k + 1;
    }
    out
}

} // verus!
