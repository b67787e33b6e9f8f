//! Checking one function: its `requires` clauses, its `ensures` clauses
//! (where `result` is bound), and its body, statement by statement.
use vstd::prelude::*;
use crate::ast::{self, BinOp, Expr, UnaryOp};
use crate::checkenv::{dup_fields, env_wf, extends, well_reported, Env, FuncSig};
use crate::contracts::{classify_contract, const_value, direction, spec_classify, ConstVal, ContractTruth};
use crate::diagnostic::Diagnostic;
use crate::envbuild::funcs_registered;
use crate::fnstate::{cx_ok, err, st_ok, stepped, Cx, FnState, Mode};
use crate::infer::infer;
use crate::judge::check_assign;
use crate::table::{find_key, has_key, keys_unique, table_insert};
use crate::text::{cat3, cat5, owned, push_str};
use crate::types::{spec_compatible, Ty};

verus! {

broadcast use vstd::string::group_string_axioms;

/// An expression that folds to a `Bool` constant is a literal, a negation,
/// or a comparison or logical operator, all of which are typed `Bool`.
pub proof fn lemma_bool_constant_shape(e: Expr)
    requires
        const_value(e) matches Some(ConstVal::Bool(_)),
    ensures
        e is Bool || (e matches Expr::Unary { op, .. } && op == UnaryOp::Not) || (e matches Expr::Binary { op, .. }
            && !(op == BinOp::Add || op == BinOp::Sub || op == BinOp::Mul || op == BinOp::Div || op == BinOp::Rem)),
{
    match e {
        Expr::Unary { op, expr, .. } => {
            if op == UnaryOp::Neg {
                assert(!(const_value(e) matches Some(ConstVal::Bool(_))));
            }
        },
        Expr::Binary { op, lhs, rhs, .. } => {},
        _ => {},
    }
}

/// A contract clause must be a `Bool` expression (`KEI-E2001`); one that
/// folds to `false` can never hold and is reported (`KEI-E4003`).
fn check_contract_clause(cx: &Cx, st: &mut FnState, clause: &Expr)
    requires
        cx_ok(*cx),
        st_ok(*cx, *old(st)),
        cx.mode != Mode::Body,
    ensures
        stepped(*cx, *old(st), *final(st)),
        spec_classify(*clause) == ContractTruth::AlwaysFalse ==> final(st).diags@.len() > old(st).diags@.len()
            && final(st).diags@.last().code@ == "KEI-E4003"@,
{
    let t = infer(cx, st, clause);
    proof {
        if spec_classify(*clause) == ContractTruth::AlwaysFalse {
            lemma_bool_constant_shape(*clause);
        }
    }
    if !t.compatible(&Ty::Bool) {
        let tt = t.text();
        err(cx, st, "KEI-E2001", cat3("contract clause must be a Bool expression, found '", tt.as_str(), "'"), clause.span(),
            direction(owned("Use a Bool condition")));
    } else if classify_contract(clause) == ContractTruth::AlwaysFalse {
        let kw = if cx.mode == Mode::Requires { "requires" } else { "ensures" };
        err(cx, st, "KEI-E4003", cat3("contract is always false; this '", kw, "' can never be satisfied"), clause.span(),
            direction(owned("Replace the contract with a satisfiable condition")));
    }
}

fn push_scope(cx: &Cx, st: &mut FnState, scope: Vec<(String, Ty)>)
    requires
        st_ok(*cx, *old(st)),
        keys_unique(scope@),
    ensures
        st_ok(*cx, *final(st)),
        final(st).diags == old(st).diags,
        final(st).list_ops == old(st).list_ops,
        final(st).scopes@ == old(st).scopes@.push(scope),
{
    st.scopes.push(scope);
}

fn pop_scope(cx: &Cx, st: &mut FnState)
    requires
        st_ok(*cx, *old(st)),
        old(st).scopes@.len() >= 2,
    ensures
        st_ok(*cx, *final(st)),
        final(st).diags == old(st).diags,
        final(st).list_ops == old(st).list_ops,
        final(st).scopes@ == old(st).scopes@.drop_last(),
{
    st.scopes.pop();
}

/// A block: its statements in a scope of its own.
fn check_block(cx: &Cx, st: &mut FnState, b: &ast::Block)
    requires
        cx_ok(*cx),
        st_ok(*cx, *old(st)),
        cx.mode == Mode::Body,
    ensures
        stepped(*cx, *old(st), *final(st)),
    decreases *b,
{
    push_scope(cx, st, Vec::new());
    let ghost inner = st.scopes@;
    let mut i: usize = 0;
    while i < b.stmts.len()
        invariant
            cx_ok(*cx),
            cx.mode == Mode::Body,
            st_ok(*cx, *st),
            extends(old(st).diags@, st.diags@),
            st.scopes@.len() == old(st).scopes@.len() + 1,
            old(st).scopes@.len() >= 1,
            st.scopes@.drop_last() == old(st).scopes@,
            st.list_ops is Some <==> old(st).list_ops is Some,
        decreases b.stmts@.len() - i,
    {
        assert(decreases_to!(b.stmts@ => b.stmts@[i as int]));
        check_stmt(cx, st, &b.stmts[i]);
        i = i + 1;
    }
    pop_scope(cx, st);
}

/// One statement; a `let` binds its name in the innermost scope.
fn check_stmt(cx: &Cx, st: &mut FnState, s: &ast::Stmt)
    requires
        cx_ok(*cx),
        st_ok(*cx, *old(st)),
        old(st).scopes@.len() >= 2,
        cx.mode == Mode::Body,
    ensures
        st_ok(*cx, *final(st)),
        extends(old(st).diags@, final(st).diags@),
        final(st).scopes@.len() == old(st).scopes@.len(),
        final(st).scopes@.drop_last() == old(st).scopes@.drop_last(),
        final(st).list_ops is Some <==> old(st).list_ops is Some,
        s matches ast::Stmt::Let(l) ==> has_key(final(st).scopes@.last()@, l.name.name@),
    decreases *s,
{
    match s {
        ast::Stmt::Let(l) => check_let(cx, st, l),
        ast::Stmt::If(i) => {
            check_if(cx, st, i);
        },
        ast::Stmt::Return(r) => {
            check_return(cx, st, r);
        },
        ast::Stmt::Expr(e) => {
            infer(cx, st, &e.expr);
        },
    }
}

/// `let`: the value (unwrapped by `else fail`, which needs an `Option` or
/// `Result` value and a function returning `Result`), the annotation, and
/// a name not yet bound in this block (`KEI-E1003`).
fn check_let(cx: &Cx, st: &mut FnState, l: &ast::LetStmt)
    requires
        cx_ok(*cx),
        st_ok(*cx, *old(st)),
        old(st).scopes@.len() >= 2,
    ensures
        st_ok(*cx, *final(st)),
        extends(old(st).diags@, final(st).diags@),
        final(st).scopes@.len() == old(st).scopes@.len(),
        final(st).scopes@.drop_last() == old(st).scopes@.drop_last(),
        final(st).list_ops is Some <==> old(st).list_ops is Some,
        has_key(final(st).scopes@.last()@, l.name.name@),
{
    let value_ty = infer(cx, st, &l.value);
    let mut bound = value_ty;
    if let Some(fail) = &l.else_fail {
        bound = match bound {
            Ty::Option(t) => *t,
            Ty::Result(t, _) => *t,
            Ty::Unknown => Ty::Unknown,
            other => {
                let ot = other.text();
                err(cx, st, "KEI-E2001", cat3("'else fail' requires an Option or Result value, found '", ot.as_str(), "'"),
                    l.value.span(), direction(owned("Unwrap only Option or Result values")));
                Ty::Unknown
            },
        };
        let fail_ty = infer(cx, st, fail);
        match &cx.sig.ret {
            Ty::Result(_, errt) => check_assign(&cx.env.file, &mut st.diags, errt, &fail_ty, fail.span()),
            Ty::Unknown => {},
            other => {
                let ot = other.text();
                let mut m = cat3("'else fail' requires the enclosing function to return Result, but '", cx.fname.as_str(), "' returns '");
                push_str(&mut m, ot.as_str());
                push_str(&mut m, "'");
                err(cx, st, "KEI-E2001", m, fail.span(), direction(owned("Change the return type to Result<..., ...>")));
            },
        }
    }
    if let Some(ann) = &l.ty {
        let ann_ty = cx.env.resolve_ty(ann, &mut st.diags);
        check_assign(&cx.env.file, &mut st.diags, &ann_ty, &bound, l.value.span());
        bound = ann_ty;
    }
    let ghost sc0 = st.scopes@;
    let mut scope = st.scopes.pop().unwrap();
    if find_key(&scope, l.name.name.as_str()).is_some() {
        st.scopes.push(scope);
        assert(st.scopes@ =~= sc0);
        assert(has_key(st.scopes@.last()@, l.name.name@));
        err(cx, st, "KEI-E1003", cat3("duplicate definition of '", l.name.name.as_str(), "' in this block"), l.name.span,
            direction(owned("Rename the new binding")));
    } else {
        table_insert(&mut scope, l.name.name.clone(), bound);
        st.scopes.push(scope);
        assert(st.scopes@.drop_last() =~= sc0.drop_last());
        assert forall|i: int| 0 <= i < st.scopes@.len() implies keys_unique(#[trigger] st.scopes@[i]@) by {
            if i < st.scopes@.len() - 1 {
                assert(st.scopes@[i] == sc0[i]);
            }
        }
    }
}

/// `if`: a `Bool` condition (`KEI-E2001` otherwise) and the branches.
fn check_if(cx: &Cx, st: &mut FnState, i: &ast::IfStmt)
    requires
        cx_ok(*cx),
        st_ok(*cx, *old(st)),
        cx.mode == Mode::Body,
    ensures
        stepped(*cx, *old(st), *final(st)),
    decreases *i,
{
    let cond = infer(cx, st, &i.cond);
    if !cond.compatible(&Ty::Bool) {
        let ct = cond.text();
        err(cx, st, "KEI-E2001", cat3("if condition must be 'Bool', found '", ct.as_str(), "'"), i.cond.span(),
            direction(owned("Use a Bool condition")));
    }
    check_block(cx, st, &i.then_block);
    match &i.else_branch {
        Some(ast::ElseBranch::If(nested)) => check_if(cx, st, nested),
        Some(ast::ElseBranch::Block(b)) => check_block(cx, st, b),
        None => {},
    }
}

/// `return`: a value exactly when the function returns one, of its type.
fn check_return(cx: &Cx, st: &mut FnState, r: &ast::ReturnStmt)
    requires
        cx_ok(*cx),
        st_ok(*cx, *old(st)),
    ensures
        stepped(*cx, *old(st), *final(st)),
        r.value is None && cx.sig.ret is Unit ==> final(st).diags@ == old(st).diags@,
        r.value is None && !(cx.sig.ret is Unit) ==> {
            &&& final(st).diags@.len() == old(st).diags@.len() + 1
            &&& final(st).diags@.last().code@ == "KEI-E2001"@
        },
{
    let ret = &cx.sig.ret;
    let unit = matches!(ret, Ty::Unit);
    match &r.value {
        None => {
            if !unit {
                let rt = ret.text();
                let m = cat5("'", cx.fname.as_str(), "' must return a value of type '", rt.as_str(), "'");
                err(cx, st, "KEI-E2001", m, r.span, direction(cat3("Return a value of type '", rt.as_str(), "'")));
            }
        },
        Some(v) => {
            let t = infer(cx, st, v);
            if unit {
                if !t.compatible(&Ty::Unit) {
                    let tt = t.text();
                    let m = cat5("'", cx.fname.as_str(), "' does not return a value, found '", tt.as_str(), "'");
                    err(cx, st, "KEI-E2001", m, v.span(), direction(owned("Remove the return value or declare a return type")));
                }
            } else {
                check_assign(&cx.env.file, &mut st.diags, ret, &t, v.span());
            }
        },
    }
}

/// Checks one function against its signature: the `requires` clauses, the
/// `ensures` clauses (with `result` bound to the return type), then the
/// body. Diagnostics are appended to `diags`; list method positions to
/// `list_ops` when it is given.
pub fn check_function(
    env: &Env,
    f: &ast::FuncDecl,
    sig: &FuncSig,
    strict_extern: bool,
    diags: &mut Vec<Diagnostic>,
    list_ops: &mut Option<Vec<(u32, u32)>>,
)
    requires
        env_wf(*env),
        funcs_registered(*env),
        well_reported(old(diags)@, env.file@),
        (*old(list_ops)) matches Some(v) ==> v@.no_duplicates(),
    ensures
        well_reported(final(diags)@, env.file@),
        extends(old(diags)@, final(diags)@),
        (*final(list_ops)) is Some <==> (*old(list_ops)) is Some,
        (*final(list_ops)) matches Some(v) ==> v@.no_duplicates(),
        forall|i: int| 0 <= i < f.requires@.len() && spec_classify(#[trigger] f.requires@[i]) == ContractTruth::AlwaysFalse
            ==> exists|k: int| old(diags)@.len() <= k < final(diags)@.len() && (#[trigger] final(diags)@[k]).code@ == "KEI-E4003"@,
        forall|i: int| 0 <= i < f.ensures@.len() && spec_classify(#[trigger] f.ensures@[i]) == ContractTruth::AlwaysFalse
            ==> exists|k: int| old(diags)@.len() <= k < final(diags)@.len() && (#[trigger] final(diags)@[k]).code@ == "KEI-E4003"@,
{
    let mut top: Vec<(String, Ty)> = Vec::new();
    let mut p: usize = 0;
    while p < sig.params.len()
        invariant
            keys_unique(top@),
            p <= sig.params@.len(),
        decreases sig.params@.len() - p,
    {
        table_insert(&mut top, sig.params[p].0.clone(), sig.params[p].1.duplicate());
        p = p + 1;
    }
    let mut scopes: Vec<Vec<(String, Ty)>> = Vec::new();
    scopes.push(top);
    let mut d0: Vec<Diagnostic> = Vec::new();
    std::mem::swap(&mut d0, diags);
    let ops0 = list_ops.take();
    let mut st = FnState { diags: d0, scopes, list_ops: ops0 };
    let ghost start = st.diags@;
    let rcx = Cx { env, sig, fname: &f.name.name, mode: Mode::Requires, strict_extern };
    let mut i: usize = 0;
    while i < f.requires.len()
        invariant
            cx_ok(rcx),
            rcx.mode == Mode::Requires,
            st_ok(rcx, st),
            extends(start, st.diags@),
            st.scopes@.len() == 1,
            st.list_ops is Some <==> ops0 is Some,
            i <= f.requires@.len(),
            forall|j: int| 0 <= j < i && spec_classify(#[trigger] f.requires@[j]) == ContractTruth::AlwaysFalse
                ==> exists|k: int| start.len() <= k < st.diags@.len() && (#[trigger] st.diags@[k]).code@ == "KEI-E4003"@,
        decreases f.requires@.len() - i,
    {
        let ghost before = st.diags@;
        check_contract_clause(&rcx, &mut st, &f.requires[i]);
        proof {
            assert forall|j: int| 0 <= j < i + 1 && spec_classify(#[trigger] f.requires@[j]) == ContractTruth::AlwaysFalse
                implies exists|k: int| start.len() <= k < st.diags@.len() && (#[trigger] st.diags@[k]).code@ == "KEI-E4003"@ by {
                if j < i {
                    let k = choose|k: int| start.len() <= k < before.len() && (#[trigger] before[k]).code@ == "KEI-E4003"@;
                    assert(st.diags@[k] == before[k]);
                } else {
                    assert(st.diags@[st.diags@.len() - 1].code@ == "KEI-E4003"@);
                }
            }
        }
        i = i + 1;
    }
    let ghost after_requires = st.diags@;
    let ecx = Cx { env, sig, fname: &f.name.name, mode: Mode::Ensures, strict_extern };
    let mut ensures_scope: Vec<(String, Ty)> = Vec::new();
    ensures_scope.push((owned("result"), sig.ret.duplicate()));
    st.scopes.push(ensures_scope);
    let mut i: usize = 0;
    while i < f.ensures.len()
        invariant
            cx_ok(ecx),
            ecx.mode == Mode::Ensures,
            st_ok(ecx, st),
            extends(start, st.diags@),
            extends(after_requires, st.diags@),
            st.scopes@.len() == 2,
            st.list_ops is Some <==> ops0 is Some,
            i <= f.ensures@.len(),
            forall|j: int| 0 <= j < i && spec_classify(#[trigger] f.ensures@[j]) == ContractTruth::AlwaysFalse
                ==> exists|k: int| start.len() <= k < st.diags@.len() && (#[trigger] st.diags@[k]).code@ == "KEI-E4003"@,
        decreases f.ensures@.len() - i,
    {
        let ghost before = st.diags@;
        check_contract_clause(&ecx, &mut st, &f.ensures[i]);
        proof {
            assert forall|j: int| 0 <= j < i + 1 && spec_classify(#[trigger] f.ensures@[j]) == ContractTruth::AlwaysFalse
                implies exists|k: int| start.len() <= k < st.diags@.len() && (#[trigger] st.diags@[k]).code@ == "KEI-E4003"@ by {
                if j < i {
                    let k = choose|k: int| start.len() <= k < before.len() && (#[trigger] before[k]).code@ == "KEI-E4003"@;
                    assert(st.diags@[k] == before[k]);
                } else {
                    assert(st.diags@[st.diags@.len() - 1].code@ == "KEI-E4003"@);
                }
            }
        }
        i = i + 1;
    }
    st.scopes.pop();
    let bcx = Cx { env, sig, fname: &f.name.name, mode: Mode::Body, strict_extern };
    let ghost before_body = st.diags@;
    check_block(&bcx, &mut st, &f.body);
    proof {
        assert forall|j: int| 0 <= j < f.requires@.len() && spec_classify(#[trigger] f.requires@[j]) == ContractTruth::AlwaysFalse
            implies exists|k: int| start.len() <= k < st.diags@.len() && (#[trigger] st.diags@[k]).code@ == "KEI-E4003"@ by {
            let k = choose|k: int| start.len() <= k < after_requires.len() && (#[trigger] after_requires[k]).code@ == "KEI-E4003"@;
            assert(st.diags@[k] == after_requires[k]);
        }
        assert forall|j: int| 0 <= j < f.ensures@.len() && spec_classify(#[trigger] f.ensures@[j]) == ContractTruth::AlwaysFalse
            implies exists|k: int| start.len() <= k < st.diags@.len() && (#[trigger] st.diags@[k]).code@ == "KEI-E4003"@ by {
            let k = choose|k: int| start.len() <= k < before_body.len() && (#[trigger] before_body[k]).code@ == "KEI-E4003"@;
            assert(st.diags@[k] == before_body[k]);
        }
    }
    *diags = st.diags;
    *list_ops = st.list_ops;
}

} // verus!
