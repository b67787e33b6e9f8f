//! Semantic checking of one module: name resolution (`KEI-E1xxx`), types
//! (`KEI-E2xxx`), effects (`KEI-E3xxx`) and contract purity (`KEI-E4xxx`).
//! Imported names are opaque unless a resolver finds their definitions;
//! effects come from the `uses` clauses of local functions and externs and
//! propagate through calls to the caller. The diagnostics come out in
//! source order.
use vstd::prelude::*;
use crate::ast::{self, Expr, Item};
use crate::checkenv::{extends, place, placed, reported_in, well_reported, Env, FuncSig};
use crate::contracts::{collect_contracts, const_value, direction, is_scalar_type, module_clauses, reports_contract, spec_classify, ConstVal, ContractTruth};
use crate::diagnostic::{Fix, Position, Span};
use crate::pbt::run_module;
use crate::report::{CheckReport, ContractInfo, ContractKind, Verification};
use crate::diagnostic::{has_fix, Diagnostic, Severity, SuggestedContract};
use crate::envbuild::{building, defined_before, extern_earlier, extern_key, externs_reported, duplicates_reported, effect_unknown, funcs_registered, item_effects_reported, unknown_effects_reported, has_error_at, imports_name, item_ident, lemma_has_error_extends};
use crate::fncheck::check_function;
use crate::imports::{ModuleResolver, NoopResolver};
use crate::notation::{contract_expr_text, expr_text};
use crate::suggest::{lemma_seq_lt_asymmetric, lemma_seq_lt_total, lemma_seq_lt_transitive, seq_lt, str_lt};
use crate::text::{cat2, cat3, owned, push_str};

verus! {

broadcast use vstd::string::group_string_axioms;

/// Checking options. All are off by default, which is the plain check.
#[derive(Debug, Clone, Copy)]
pub struct CheckOptions {
    /// Warn about calls into an imported namespace that have no `extern`
    /// declaration (`KEI-E3004`).
    pub strict_extern: bool,
    /// Generate property-based tests from contracts: the `ensures` of a
    /// pure function rises to `generative` when no counterexample is found,
    /// and a counterexample is reported (`KEI-E4005`).
    pub generative: bool,
    /// Propose a contract for pure functions that have none (`KEI-E4008`
    /// with a `suggested_contract`).
    pub suggest_contracts: bool,
}

impl Default for CheckOptions {
    fn default() -> (r: Self)
        ensures
            !r.strict_extern && !r.generative && !r.suggest_contracts,
    {
        CheckOptions { strict_extern: false, generative: false, suggest_contracts: false }
    }
}

/// `a` comes strictly before `b`: by start line, start column, then code.
pub open spec fn diag_lt(a: Diagnostic, b: Diagnostic) -> bool {
    ||| a.span.start.line < b.span.start.line
    ||| (a.span.start.line == b.span.start.line && a.span.start.col < b.span.start.col)
    ||| (a.span.start.line == b.span.start.line && a.span.start.col == b.span.start.col && seq_lt(a.code@, b.code@))
}

/// `a` starts strictly before `b`.
pub open spec fn start_lt(a: Diagnostic, b: Diagnostic) -> bool {
    a.span.start.line < b.span.start.line || (a.span.start.line == b.span.start.line && a.span.start.col < b.span.start.col)
}

/// The order used: by position and code, or by position only.
pub open spec fn key_lt(a: Diagnostic, b: Diagnostic, by_code: bool) -> bool {
    if by_code { diag_lt(a, b) } else { start_lt(a, b) }
}

/// Diagnostics in order of `key_lt`.
pub open spec fn sorted_by(ds: Seq<Diagnostic>, by_code: bool) -> bool {
    forall|i: int, j: int| 0 <= i < j < ds.len() ==> !key_lt(#[trigger] ds[j], #[trigger] ds[i], by_code)
}

/// Diagnostics in source order (position, then code).
pub open spec fn sorted_diags(ds: Seq<Diagnostic>) -> bool {
    sorted_by(ds, true)
}

/// Diagnostics in order of start position.
pub open spec fn sorted_by_start(ds: Seq<Diagnostic>) -> bool {
    sorted_by(ds, false)
}

proof fn lemma_not_lt_transitive(a: Diagnostic, b: Diagnostic, c: Diagnostic)
    requires
        !diag_lt(b, a),
        !diag_lt(c, b),
    ensures
        !diag_lt(c, a),
{
    if a.span.start.line == b.span.start.line && a.span.start.col == b.span.start.col
        && b.span.start.line == c.span.start.line && b.span.start.col == c.span.start.col {
        if diag_lt(c, a) {
            if a.code@ != b.code@ {
                lemma_seq_lt_total(a.code@, b.code@);
            }
            if b.code@ != c.code@ {
                lemma_seq_lt_total(b.code@, c.code@);
            }
            if a.code@ != b.code@ && b.code@ != c.code@ {
                lemma_seq_lt_transitive(a.code@, b.code@, c.code@);
                lemma_seq_lt_asymmetric(a.code@, c.code@);
            } else if a.code@ == b.code@ {
                if b.code@ != c.code@ {
                    lemma_seq_lt_asymmetric(b.code@, c.code@);
                }
            } else {
                lemma_seq_lt_asymmetric(a.code@, b.code@);
            }
        }
    }
}

fn key_lt_exec(a: &Diagnostic, b: &Diagnostic, by_code: bool) -> (r: bool)
    ensures
        r == key_lt(*a, *b, by_code),
{
    let (al, ac) = (a.span.start.line, a.span.start.col);
    let (bl, bc) = (b.span.start.line, b.span.start.col);
    if al != bl {
        return al < bl;
    }
    if ac != bc {
        return ac < bc;
    }
    by_code && str_lt(a.code.as_str(), b.code.as_str())
}

/// Orders diagnostics by position and code, keeping the original order
/// among equal keys.
pub fn sort_diagnostics(ds: Vec<Diagnostic>) -> (r: Vec<Diagnostic>)
    ensures
        sorted_diags(r@),
        r@.to_multiset() == ds@.to_multiset(),
{
    sort_diagnostics_by(ds, true)
}

/// Orders diagnostics by start position, keeping the original order among
/// equal positions.
pub fn sort_by_start(ds: Vec<Diagnostic>) -> (r: Vec<Diagnostic>)
    ensures
        sorted_by_start(r@),
        r@.to_multiset() == ds@.to_multiset(),
{
    sort_diagnostics_by(ds, false)
}

proof fn lemma_key_not_lt_transitive(a: Diagnostic, b: Diagnostic, c: Diagnostic, by_code: bool)
    requires
        !key_lt(b, a, by_code),
        !key_lt(c, b, by_code),
    ensures
        !key_lt(c, a, by_code),
{
    if by_code {
        lemma_not_lt_transitive(a, b, c);
    }
}

proof fn lemma_key_asymmetric(a: Diagnostic, b: Diagnostic, by_code: bool)
    requires
        key_lt(a, b, by_code),
    ensures
        !key_lt(b, a, by_code),
{
    if by_code && a.span.start.line == b.span.start.line && a.span.start.col == b.span.start.col {
        lemma_seq_lt_asymmetric(a.code@, b.code@);
    }
}

/// Insertion sort by `key_lt`, stable.
fn sort_diagnostics_by(ds: Vec<Diagnostic>, by_code: bool) -> (r: Vec<Diagnostic>)
    ensures
        sorted_by(r@, by_code),
        r@.to_multiset() == ds@.to_multiset(),
{
    let mut rev: Vec<Diagnostic> = Vec::new();
    let mut input = ds;
    let n = input.len();
    while input.len() > 0
        invariant
            rev@.len() + input@.len() == n,
            n == ds@.len(),
            forall|i: int| 0 <= i < input@.len() ==> input@[i] == ds@[i],
            forall|i: int| 0 <= i < rev@.len() ==> rev@[i] == ds@[n - 1 - i],
        decreases input@.len(),
    {
        let d = input.pop().unwrap();
        rev.push(d);
    }
    let mut out: Vec<Diagnostic> = Vec::new();
    let mut k: usize = 0;
    assert(ds@.take(0) =~= Seq::<Diagnostic>::empty());
    while rev.len() > 0
        invariant
            n == ds@.len(),
            k + rev@.len() == n,
            forall|i: int| 0 <= i < rev@.len() ==> rev@[i] == ds@[n - 1 - i],
            sorted_by(out@, by_code),
            out@.to_multiset() == ds@.take(k as int).to_multiset(),
        decreases rev@.len(),
    {
        let d = rev.pop().unwrap();
        assert(d == ds@[k as int]);
        let mut j: usize = out.len();
        while j > 0 && key_lt_exec(&d, &out[j - 1], by_code)
            invariant
                j <= out@.len(),
                sorted_by(out@, by_code),
                forall|m: int| j <= m < out@.len() ==> key_lt(d, #[trigger] out@[m], by_code),
            decreases j,
        {
            j = j - 1;
        }
        let ghost before = out@;
        proof {
            vstd::seq_lib::to_multiset_insert(before, j as int, d);
        }
        out.insert(j, d);
        proof {
            assert(ds@.take(k + 1) =~= ds@.take(k as int).push(ds@[k as int]));
            vstd::seq_lib::to_multiset_build(ds@.take(k as int), ds@[k as int]);
            assert forall|a: int, b: int| 0 <= a < b < out@.len() implies !key_lt(#[trigger] out@[b], #[trigger] out@[a], by_code) by {
                if b < j {
                    assert(out@[a] == before[a] && out@[b] == before[b]);
                } else if b == j {
                    assert(out@[a] == before[a] && out@[b] == d);
                    assert(!key_lt(d, before[j - 1], by_code));
                    if a < j - 1 {
                        assert(!key_lt(before[j - 1], before[a], by_code));
                        lemma_key_not_lt_transitive(before[a], before[j - 1], d, by_code);
                    }
                } else if a < j {
                    assert(out@[a] == before[a] && out@[b] == before[b - 1]);
                } else if a == j {
                    assert(out@[a] == d && out@[b] == before[b - 1]);
                    assert(key_lt(d, before[b - 1], by_code));
                    lemma_key_asymmetric(d, before[b - 1], by_code);
                } else {
                    assert(out@[a] == before[a - 1] && out@[b] == before[b - 1]);
                }
            }
        }
        k = k + 1;
    }
    assert(ds@.take(n as int) =~= ds@);
    out
}

/// The contract proposed for a pure function whose body is `return value`:
/// `result == value`, the value in parentheses when it is a binary
/// expression (so the comparison stays the outermost operator).
pub open spec fn proposed_expr(value: Expr) -> Seq<char> {
    "result == "@ + (if value is Binary { "("@ + expr_text(value) + ")"@ } else { expr_text(value) })
}

/// The proposal for an item: a function with no `uses`, no `ensures`, a
/// scalar return type (`Int`, `Bool`, `String`) and a body that is a single
/// `return <value>`.
pub open spec fn proposal(item: Item) -> Option<Seq<char>> {
    match item {
        Item::Func(f) => {
            if f.uses@.len() == 0 && f.ensures@.len() == 0 && f.body.stmts@.len() == 1 {
                match (f.ret, f.body.stmts@[0]) {
                    (Some(t), ast::Stmt::Return(r)) => {
                        if t.path@.len() == 1 && t.args@.len() == 0
                            && (t.path@[0].name@ == "Int"@ || t.path@[0].name@ == "Bool"@ || t.path@[0].name@ == "String"@) {
                            match r.value {
                                Some(v) => Some(proposed_expr(v)),
                                None => None,
                            }
                        } else {
                            None
                        }
                    },
                    _ => None,
                }
            } else {
                None
            }
        },
        _ => None,
    }
}

/// The proposals for the first `n` items, in order.
pub open spec fn proposals(items: Seq<Item>, n: nat) -> Seq<Seq<char>>
    decreases n,
{
    if n == 0 || n > items.len() {
        Seq::empty()
    } else {
        proposals(items, (n - 1) as nat) + match proposal(items[n - 1]) {
            Some(p) => seq![p],
            None => Seq::empty(),
        }
    }
}

/// Whether `d` proposes `expr` as an `ensures` clause (`KEI-E4008`).
pub open spec fn proposes(d: Diagnostic, expr: Seq<char>) -> bool {
    &&& d.severity == Severity::Warning
    &&& d.code@ == "KEI-E4008"@
    &&& d.suggested_contract matches Some(sc) && sc.kind@ == "ContractMissing"@ && sc.clause@ == "ensures"@ && sc.expr@ == expr
}

/// Proposes an `ensures` for each pure function without a postcondition
/// whose body is a single `return` (see [`proposal`]), as an opt-in warning
/// with a machine-applicable `suggested_contract`.
pub fn suggest_missing_contracts(env: &Env, module: &ast::Module, diags: &mut Vec<Diagnostic>)
    requires
        reported_in(old(diags)@, env.file@),
    ensures
        reported_in(final(diags)@, env.file@),
        extends(old(diags)@, final(diags)@),
        final(diags)@.len() == old(diags)@.len() + proposals(module.items@, module.items@.len()).len(),
        forall|k: int| 0 <= k < proposals(module.items@, module.items@.len()).len()
            ==> proposes(#[trigger] final(diags)@[old(diags)@.len() + k], proposals(module.items@, module.items@.len())[k]),
{
    let ghost d0 = diags@;
    let mut i: usize = 0;
    while i < module.items.len()
        invariant
            reported_in(diags@, env.file@),
            extends(d0, diags@),
            d0 == old(diags)@,
            i <= module.items@.len(),
            diags@.len() == d0.len() + proposals(module.items@, i as nat).len(),
            forall|k: int| 0 <= k < proposals(module.items@, i as nat).len()
                ==> proposes(#[trigger] diags@[d0.len() + k], proposals(module.items@, i as nat)[k]),
        decreases module.items@.len() - i,
    {
        let ghost p = proposal(module.items@[i as int]);
        let ghost before = diags@;
        if let Item::Func(f) = &module.items[i] {
            if f.uses.len() == 0 && f.ensures.len() == 0 && f.body.stmts.len() == 1 {
                if let (Some(t), ast::Stmt::Return(r)) = (&f.ret, &f.body.stmts[0]) {
                    if is_scalar_type(t) {
                        if let Some(value) = &r.value {
                            let text = contract_expr_text(value);
                            let body = if matches!(value, Expr::Binary { .. }) { cat3("(", text.as_str(), ")") } else { text };
                            let expr = cat2("result == ", body.as_str());
                            assert(expr@ == proposed_expr(*value));
                            let msg = cat3("function '", f.name.name.as_str(), "' has no postcondition; an ensures can be derived from its body");
                            let mut fixes = Vec::new();
                            fixes.push(direction(cat3("Add 'ensures ", expr.as_str(), "'")));
                            let d = Diagnostic {
                                severity: Severity::Warning,
                                code: owned("KEI-E4008"),
                                message: msg,
                                span: place(&env.file, f.name.span),
                                fixes,
                                suggested_contract: None,
                            };
                            let d = d.with_suggested_contract(SuggestedContract {
                                kind: owned("ContractMissing"),
                                function: f.name.name.clone(),
                                clause: owned("ensures"),
                                expr,
                            });
                            diags.push(d);
                        }
                    }
                }
            }
        }
        proof {
            let ps = proposals(module.items@, i as nat);
            let ps1 = proposals(module.items@, (i + 1) as nat);
            assert(ps1 == ps + match p { Some(x) => seq![x], None => Seq::<Seq<char>>::empty() });
            assert forall|k: int| 0 <= k < ps1.len() implies proposes(#[trigger] diags@[d0.len() + k], ps1[k]) by {
                if k < ps.len() {
                    assert(diags@[d0.len() + k] == before[d0.len() + k]);
                    assert(ps1[k] == ps[k]);
                }
            }
        }
        i = i + 1;
    }
}

/// Whether an item is a function with a clause that folds to `false`.
pub open spec fn false_clause(item: Item) -> bool {
    match item {
        Item::Func(f) => (exists|j: int| 0 <= j < f.requires@.len() && spec_classify(#[trigger] f.requires@[j]) == ContractTruth::AlwaysFalse)
            || (exists|j: int| 0 <= j < f.ensures@.len() && spec_classify(#[trigger] f.ensures@[j]) == ContractTruth::AlwaysFalse),
        _ => false,
    }
}

/// Whether some diagnostic proposes `expr`.
pub open spec fn proposed_in(ds: Seq<Diagnostic>, expr: Seq<char>) -> bool {
    exists|i: int| 0 <= i < ds.len() && proposes(#[trigger] ds[i], expr)
}

/// Whether some function item has a clause that folds to `false`.
pub open spec fn has_false_clause(items: Seq<Item>) -> bool {
    exists|w: int| 0 <= w < items.len() && false_clause(#[trigger] items[w])
}

/// Every item whose name an import brings in is reported as a clash
/// (`KEI-E1004`) at the item's name.
pub open spec fn import_clashes_reported(items: Seq<Item>, imports: Seq<ast::Import>, ds: Seq<Diagnostic>, file: Seq<char>) -> bool {
    forall|i: int| 0 <= i < items.len() ==> (#[trigger] item_ident(items[i]) matches Some(id) ==>
        (imports_name(imports, id.name@) ==> has_error_at(ds, "KEI-E1004"@, file, id.span)))
}

/// The declaration errors of a module are reported: an item named by an
/// import (`KEI-E1004`); in a module without imports, an item repeating an
/// earlier item's name (`KEI-E1003`); an unknown effect in a function's
/// `uses` clause (`KEI-E3002`); a repeated extern path (`KEI-E3003`), or else
/// a `query` extern that declares effects (`KEI-E3005`).
pub open spec fn env_errors_reported(items: Seq<Item>, imports: Seq<ast::Import>, ds: Seq<Diagnostic>, file: Seq<char>) -> bool {
    &&& import_clashes_reported(items, imports, ds, file)
    &&& imports.len() == 0 ==> duplicates_reported(items, Seq::empty(), ds, file)
    &&& item_effects_reported(items, ds, file)
    &&& externs_reported(items, Seq::empty(), ds, file)
}

/// An error found in `ds` is found in any `ds2` that holds every
/// diagnostic of `ds`.
proof fn lemma_error_kept(ds: Seq<Diagnostic>, ds2: Seq<Diagnostic>, code: Seq<char>, file: Seq<char>, s: crate::span::Span)
    requires
        has_error_at(ds, code, file, s),
        forall|k: int| 0 <= k < ds.len() ==> ds2.contains(#[trigger] ds[k]),
    ensures
        has_error_at(ds2, code, file, s),
{
    let j = choose|j: int| 0 <= j < ds.len() && (#[trigger] ds[j]).code@ == code && ds[j].severity == Severity::Error
        && placed(file, s, ds[j].span);
    assert(ds2.contains(ds[j]));
    let k = choose|k: int| 0 <= k < ds2.len() && ds2[k] == ds[j];
    assert(ds2[k].code@ == code);
}

/// Reported clashes stay reported in any list that holds every diagnostic.
proof fn lemma_clashes_kept(items: Seq<Item>, imports: Seq<ast::Import>, ds: Seq<Diagnostic>, ds2: Seq<Diagnostic>, file: Seq<char>)
    requires
        env_errors_reported(items, imports, ds, file),
        forall|k: int| 0 <= k < ds.len() ==> ds2.contains(#[trigger] ds[k]),
    ensures
        env_errors_reported(items, imports, ds2, file),
{
    assert forall|i: int| 0 <= i < items.len() implies (#[trigger] item_ident(items[i]) matches Some(id) ==>
        (imports_name(imports, id.name@) ==> has_error_at(ds2, "KEI-E1004"@, file, id.span))) by {
        if let Some(id) = item_ident(items[i]) {
            if imports_name(imports, id.name@) {
                lemma_error_kept(ds, ds2, "KEI-E1004"@, file, id.span);
            }
        }
    }
    assert forall|w: int| 0 <= w < items.len() && (#[trigger] items[w]) is Func
        implies unknown_effects_reported(items[w]->Func_0.uses@, ds2, file) by {
        let uses = items[w]->Func_0.uses@;
        assert forall|k: int| #[trigger] effect_unknown(uses, k) implies has_error_at(ds2, "KEI-E3002"@, file, uses[k].span) by {
            lemma_error_kept(ds, ds2, "KEI-E3002"@, file, uses[k].span);
        }
    }
    assert forall|i: int| 0 <= i < items.len() && (#[trigger] items[i]) is Extern implies {
        let e = items[i]->Extern_0;
        let dup = extern_earlier(items, i) || crate::table::has_key(Seq::<(String, crate::checkenv::ExternSig)>::empty(), extern_key(items[i]));
        &&& dup ==> has_error_at(ds2, "KEI-E3003"@, file, e.span)
        &&& !dup && e.query && e.uses@.len() > 0 ==> has_error_at(ds2, "KEI-E3005"@, file, e.span)
    } by {
        let e = items[i]->Extern_0;
        let dup = extern_earlier(items, i) || crate::table::has_key(Seq::<(String, crate::checkenv::ExternSig)>::empty(), extern_key(items[i]));
        if dup {
            lemma_error_kept(ds, ds2, "KEI-E3003"@, file, e.span);
        } else if e.query && e.uses@.len() > 0 {
            lemma_error_kept(ds, ds2, "KEI-E3005"@, file, e.span);
        }
    }
    if imports.len() == 0 {
        assert forall|i: int| 0 <= i < items.len() implies (#[trigger] item_ident(items[i]) matches Some(id) ==>
            (defined_before(items, i, id.name@) && !Seq::<Seq<char>>::empty().contains(id.name@)
                ==> has_error_at(ds2, "KEI-E1003"@, file, id.span))) by {
            if let Some(id) = item_ident(items[i]) {
                if defined_before(items, i, id.name@) && !Seq::<Seq<char>>::empty().contains(id.name@) {
                    lemma_error_kept(ds, ds2, "KEI-E1003"@, file, id.span);
                }
            }
        }
    }
}

/// Checks `module` as `file`, resolving imports through `resolver`.
pub fn check_module_with_resolver<R: ModuleResolver>(file: &str, module: &ast::Module, opts: CheckOptions, resolver: &R)
    -> (r: Vec<Diagnostic>)
    ensures
        reported_in(r@, file@),
        sorted_diags(r@),
        !opts.suggest_contracts ==> forall|i: int| 0 <= i < r@.len() ==> (#[trigger] r@[i]).suggested_contract is None,
        has_false_clause(module.items@) ==> exists|i: int| 0 <= i < r@.len() && (#[trigger] r@[i]).code@ == "KEI-E4003"@,
        opts.suggest_contracts ==> forall|k: int| 0 <= k < proposals(module.items@, module.items@.len()).len()
            ==> proposed_in(r@, #[trigger] proposals(module.items@, module.items@.len())[k]),
        env_errors_reported(module.items@, module.imports@, r@, file@),
{
    let mut diags: Vec<Diagnostic> = Vec::new();
    let (env, sigs) = Env::build(file, module, &mut diags, resolver);
    let ghost built = diags@;
    let mut none: Option<Vec<(u32, u32)>> = None;
    let mut i: usize = 0;
    while i < module.items.len()
        invariant
            building(env, file@, diags@),
            funcs_registered(env),
            sigs@.len() == module.items@.len(),
            forall|w: int| 0 <= w < module.items@.len() ==> ((#[trigger] sigs@[w]) is Some <==> module.items@[w] is Func),
            none is None,
            i <= module.items@.len(),
            forall|w: int| 0 <= w < i && false_clause(#[trigger] module.items@[w])
                ==> exists|k: int| 0 <= k < diags@.len() && (#[trigger] diags@[k]).code@ == "KEI-E4003"@,
            extends(built, diags@),
            env_errors_reported(module.items@, module.imports@, built, file@),
        decreases module.items@.len() - i,
    {
        let ghost before = diags@;
        if let Item::Func(f) = &module.items[i] {
            if let Some(sig) = &sigs[i] {
                check_function(&env, f, sig, opts.strict_extern, &mut diags, &mut none);
            }
        }
        proof {
            assert forall|w: int| 0 <= w < i + 1 && false_clause(#[trigger] module.items@[w])
                implies exists|k: int| 0 <= k < diags@.len() && (#[trigger] diags@[k]).code@ == "KEI-E4003"@ by {
                if w < i {
                    let k = choose|k: int| 0 <= k < before.len() && (#[trigger] before[k]).code@ == "KEI-E4003"@;
                    assert(diags@[k] == before[k]);
                } else {
                    let f = module.items@[w]->Func_0;
                    if exists|j: int| 0 <= j < f.requires@.len() && spec_classify(#[trigger] f.requires@[j]) == ContractTruth::AlwaysFalse {
                        let j = choose|j: int| 0 <= j < f.requires@.len() && spec_classify(#[trigger] f.requires@[j]) == ContractTruth::AlwaysFalse;
                        assert(spec_classify(f.requires@[j]) == ContractTruth::AlwaysFalse);
                    } else {
                        let j = choose|j: int| 0 <= j < f.ensures@.len() && spec_classify(#[trigger] f.ensures@[j]) == ContractTruth::AlwaysFalse;
                        assert(spec_classify(f.ensures@[j]) == ContractTruth::AlwaysFalse);
                    }
                }
            }
        }
        i = i + 1;
    }
    let ghost checked = diags@;
    proof {
        assert forall|k: int| 0 <= k < diags@.len() implies has_fix(#[trigger] diags@[k]) && diags@[k].span.file@ == file@ by {}
    }
    if opts.suggest_contracts {
        suggest_missing_contracts(&env, module, &mut diags);
    }
    let ghost all = diags@;
    proof {
        assert forall|k: int| 0 <= k < built.len() implies all.contains(#[trigger] built[k]) by {
            assert(all[k] == built[k]);
        }
        lemma_clashes_kept(module.items@, module.imports@, built, all, file@);
    }
    let sorted = sort_diagnostics(diags);
    proof {
        broadcast use vstd::seq_lib::group_to_multiset_ensures;
        assert forall|k: int| 0 <= k < all.len() implies sorted@.contains(#[trigger] all[k]) by {
            assert(all.to_multiset().count(all[k]) > 0);
            assert(sorted@.to_multiset().count(all[k]) > 0);
        }
        lemma_clashes_kept(module.items@, module.imports@, all, sorted@, file@);
    }
    proof {
        assert forall|i: int| 0 <= i < module.items@.len() implies (#[trigger] item_ident(module.items@[i]) matches Some(id) ==>
            (imports_name(module.imports@, id.name@) ==> has_error_at(sorted@, "KEI-E1004"@, file@, id.span))) by {
            broadcast use vstd::seq_lib::group_to_multiset_ensures;
            if let Some(id) = item_ident(module.items@[i]) {
                if imports_name(module.imports@, id.name@) {
                    let j = choose|j: int| 0 <= j < all.len() && (#[trigger] all[j]).code@ == "KEI-E1004"@ && all[j].severity == Severity::Error
                        && crate::checkenv::placed(file@, id.span, all[j].span);
                    assert(all.to_multiset().count(all[j]) > 0);
                    assert(sorted@.to_multiset().count(all[j]) > 0);
                    assert(sorted@.contains(all[j]));
                    let k = choose|k: int| 0 <= k < sorted@.len() && sorted@[k] == all[j];
                    assert(sorted@[k].code@ == "KEI-E1004"@);
                }
            }
        }
    }
    proof {
        broadcast use vstd::seq_lib::group_to_multiset_ensures;
        assert(sorted@.to_multiset() == all.to_multiset());
        assert forall|i: int| 0 <= i < sorted@.len() implies has_fix(#[trigger] sorted@[i]) && sorted@[i].span.file@ == file@ by {
            assert(sorted@.to_multiset().count(sorted@[i]) > 0);
            assert(all.to_multiset().count(sorted@[i]) > 0);
            assert(all.contains(sorted@[i]));
        }
        if !opts.suggest_contracts {
            assert forall|i: int| 0 <= i < sorted@.len() implies (#[trigger] sorted@[i]).suggested_contract is None by {
                assert(sorted@.to_multiset().count(sorted@[i]) > 0);
                assert(all.contains(sorted@[i]));
            }
        }
        if has_false_clause(module.items@) {
            let w = choose|w: int| 0 <= w < module.items@.len() && false_clause(#[trigger] module.items@[w]);
            let k = choose|k: int| 0 <= k < checked.len() && (#[trigger] checked[k]).code@ == "KEI-E4003"@;
            assert(all[k] == checked[k]);
            assert(all.to_multiset().count(all[k]) > 0);
            assert(sorted@.to_multiset().count(all[k]) > 0);
            assert(sorted@.contains(all[k]));
        }
        if opts.suggest_contracts {
            let ps = proposals(module.items@, module.items@.len());
            assert forall|k: int| 0 <= k < ps.len() implies proposed_in(sorted@, #[trigger] ps[k]) by {
                let d = all[checked.len() + k];
                assert(proposes(d, ps[k]));
                assert(all.to_multiset().count(d) > 0);
                assert(sorted@.to_multiset().count(d) > 0);
                assert(sorted@.contains(d));
            }
        }
    }
    sorted
}

/// Checks `module` as `file` with `opts` (imports stay opaque).
pub fn check_module_with(file: &str, module: &ast::Module, opts: CheckOptions) -> (r: Vec<Diagnostic>)
    ensures
        reported_in(r@, file@),
        sorted_diags(r@),
        !opts.suggest_contracts ==> forall|i: int| 0 <= i < r@.len() ==> (#[trigger] r@[i]).suggested_contract is None,
        has_false_clause(module.items@) ==> exists|i: int| 0 <= i < r@.len() && (#[trigger] r@[i]).code@ == "KEI-E4003"@,
        opts.suggest_contracts ==> forall|k: int| 0 <= k < proposals(module.items@, module.items@.len()).len()
            ==> proposed_in(r@, #[trigger] proposals(module.items@, module.items@.len())[k]),
        env_errors_reported(module.items@, module.imports@, r@, file@),
{
    check_module_with_resolver(file, module, opts, &NoopResolver)
}

/// Checks `module` as `file` with the default options; `file` is the path
/// relative to the repository root, placed in every diagnostic's span.
pub fn check_module(file: &str, module: &ast::Module) -> (r: Vec<Diagnostic>)
    ensures
        reported_in(r@, file@),
        sorted_diags(r@),
        forall|i: int| 0 <= i < r@.len() ==> (#[trigger] r@[i]).suggested_contract is None,
        has_false_clause(module.items@) ==> exists|i: int| 0 <= i < r@.len() && (#[trigger] r@[i]).code@ == "KEI-E4003"@,
        env_errors_reported(module.items@, module.imports@, r@, file@),
{
    check_module_with(file, module, CheckOptions::default())
}

/// The positions (`line`, `col` of the method name) of the calls that type
/// inference establishes as list method calls, each once, resolving imports
/// through `resolver`.
pub fn list_op_spans_with_resolver<R: ModuleResolver>(module: &ast::Module, resolver: &R) -> (r: Vec<(u32, u32)>)
    ensures
        r@.no_duplicates(),
{
    let mut diags: Vec<Diagnostic> = Vec::new();
    let (env, sigs) = Env::build("", module, &mut diags, resolver);
    let mut ops: Option<Vec<(u32, u32)>> = Some(Vec::new());
    let mut i: usize = 0;
    while i < module.items.len()
        invariant
            building(env, ""@, diags@),
            funcs_registered(env),
            sigs@.len() == module.items@.len(),
            ops is Some,
            ops matches Some(v) ==> v@.no_duplicates(),
            i <= module.items@.len(),
        decreases module.items@.len() - i,
    {
        if let Item::Func(f) = &module.items[i] {
            if let Some(sig) = &sigs[i] {
                check_function(&env, f, sig, false, &mut diags, &mut ops);
            }
        }
        i = i + 1;
    }
    match ops {
        Some(v) => v,
        None => Vec::new(),
    }
}

/// The positions of list method calls (imports stay opaque).
pub fn list_op_spans(module: &ast::Module) -> (r: Vec<(u32, u32)>)
    ensures
        r@.no_duplicates(),
{
    list_op_spans_with_resolver(module, &NoopResolver)
}

/// `b` is `a` with, at most, an `ensures` raised from `runtime` to
/// `generative`.
pub open spec fn same_but_level(a: ContractInfo, b: ContractInfo) -> bool {
    &&& b.func == a.func
    &&& b.kind == a.kind
    &&& b.expr == a.expr
    &&& b.span == a.span
    &&& (b.verification == a.verification || (a.kind == ContractKind::Ensures && a.verification == Verification::Runtime
        && b.verification == Verification::Generative))
}

/// The report entry of a clause, where contract-based testing may have
/// raised an `ensures` from `runtime` to `generative` (when `generative`).
pub open spec fn reports_leveled(file: Seq<char>, func: Seq<char>, kind: ContractKind, e: Expr, c: ContractInfo, generative: bool) -> bool {
    let s = ast::expr_span(e);
    &&& c.func@ == func
    &&& c.kind == kind
    &&& c.expr@ == expr_text(e)
    &&& (c.verification == Verification::Static <==> const_value(e) == Some(ConstVal::Bool(true)))
    &&& (c.verification != Verification::Static ==> (c.verification == Verification::Runtime
        || (generative && kind == ContractKind::Ensures && c.verification == Verification::Generative)))
    &&& c.span.file@ == file
    &&& c.span.start == Position { line: s.start.line, col: s.start.col }
    &&& c.span.end == Position { line: s.end.line, col: s.end.col }
}

fn copy_span(s: &Span) -> (r: Span)
    ensures
        r == *s,
{
    Span { file: s.file.clone(), start: s.start, end: s.end }
}

/// Applies contract-based testing: the `ensures` of a function whose
/// generated tests all pass rise from `runtime` to `generative`; a
/// counterexample is reported (`KEI-E4005`) at the broken clause. The
/// diagnostics stay in source order.
fn apply_generative(file: &str, module: &ast::Module, diagnostics: Vec<Diagnostic>, contracts: Vec<ContractInfo>)
    -> (r: (Vec<Diagnostic>, Vec<ContractInfo>))
    requires
        reported_in(diagnostics@, file@),
    ensures
        reported_in(r.0@, file@),
        sorted_diags(r.0@),
        forall|d: Diagnostic| diagnostics@.contains(d) ==> r.0@.contains(d),
        forall|d: Diagnostic| r.0@.contains(d) && !diagnostics@.contains(d) ==> d.code@ == "KEI-E4005"@ && d.suggested_contract is None,
        r.1@.len() == contracts@.len(),
        forall|i: int| 0 <= i < contracts@.len() ==> same_but_level(contracts@[i], #[trigger] r.1@[i]),
{
    let outcomes = run_module(module);
    let mut diags = diagnostics;
    let mut cs = contracts;
    let ghost d0 = diags@;
    let ghost c0 = cs@;
    let mut k: usize = 0;
    while k < outcomes.len()
        invariant
            reported_in(diags@, file@),
            d0.len() <= diags@.len(),
            forall|i: int| 0 <= i < d0.len() ==> diags@[i] == d0[i],
            forall|i: int| d0.len() <= i < diags@.len() ==> (#[trigger] diags@[i]).code@ == "KEI-E4005"@ && diags@[i].suggested_contract is None,
            cs@.len() == c0.len(),
            forall|i: int| 0 <= i < c0.len() ==> same_but_level(c0[i], #[trigger] cs@[i]),
            k <= outcomes@.len(),
        decreases outcomes@.len() - k,
    {
        let o = &outcomes[k];
        if o.passed {
            let mut next: Vec<ContractInfo> = Vec::new();
            let mut i: usize = 0;
            while i < cs.len()
                invariant
                    cs@.len() == c0.len(),
                    forall|j: int| 0 <= j < c0.len() ==> same_but_level(c0[j], #[trigger] cs@[j]),
                    i <= cs@.len(),
                    next@.len() == i,
                    forall|j: int| 0 <= j < i ==> same_but_level(c0[j], #[trigger] next@[j]),
                decreases cs@.len() - i,
            {
                let c = &cs[i];
                let raise = str_eq_string(&c.func, &o.func) && c.kind == ContractKind::Ensures && c.verification == Verification::Runtime;
                let v = if raise { Verification::Generative } else { c.verification };
                next.push(ContractInfo { func: c.func.clone(), kind: c.kind, expr: c.expr.clone(), verification: v, span: copy_span(&c.span) });
                i = i + 1;
            }
            cs = next;
        } else if let Some(ce) = &o.counterexample {
            let span = Span {
                file: owned(file),
                start: Position { line: ce.clause_span.start.line, col: ce.clause_span.start.col },
                end: Position { line: ce.clause_span.end.line, col: ce.clause_span.end.col },
            };
            let inputs = ce.inputs_text();
            let message = if ce.precondition {
                let mut m = cat3("'", o.func.as_str(), "' throws for a generated input (");
                push_str(&mut m, inputs.as_str());
                push_str(&mut m, "): ");
                push_str(&mut m, ce.clause.as_str());
                m
            } else {
                let mut m = cat3("ensures '", ce.clause.as_str(), "' of '");
                push_str(&mut m, o.func.as_str());
                push_str(&mut m, "' is violated by a generated input (");
                push_str(&mut m, inputs.as_str());
                push_str(&mut m, ")");
                m
            };
            let mut fixes: Vec<Fix> = Vec::new();
            fixes.push(direction(owned("Fix the implementation to satisfy the contract, or correct the contract")));
            diags.push(Diagnostic {
                severity: Severity::Error,
                code: owned("KEI-E4005"),
                message,
                span,
                fixes,
                suggested_contract: None,
            });
        }
        k = k + 1;
    }
    let ghost all = diags@;
    let sorted = sort_diagnostics(diags);
    proof {
        broadcast use vstd::seq_lib::group_to_multiset_ensures;
        assert forall|i: int| 0 <= i < sorted@.len() implies has_fix(#[trigger] sorted@[i]) && sorted@[i].span.file@ == file@ by {
            assert(sorted@.to_multiset().count(sorted@[i]) > 0);
            assert(all.contains(sorted@[i]));
        }
        assert forall|d: Diagnostic| d0.contains(d) implies sorted@.contains(d) by {
            let i = choose|i: int| 0 <= i < d0.len() && d0[i] == d;
            assert(all[i] == d);
            assert(all.to_multiset().count(d) > 0);
        }
        assert forall|d: Diagnostic| sorted@.contains(d) && !d0.contains(d) implies d.code@ == "KEI-E4005"@ && d.suggested_contract is None by {
            assert(sorted@.to_multiset().count(d) > 0);
            assert(all.contains(d));
            let i = choose|i: int| 0 <= i < all.len() && all[i] == d;
            if i < d0.len() {
                assert(all[i] == d0[i]);
                assert(d0[i] == d);
                assert(d0.contains(d));
            } else {
                assert(all[i].code@ == "KEI-E4005"@);
            }
        }
    }
    (sorted, cs)
}

fn str_eq_string(a: &String, b: &String) -> (r: bool)
    ensures
        r == (a@ == b@),
{
    crate::text::str_eq(a.as_str(), b.as_str())
}

/// The structured report of a check with `opts`, resolving imports through
/// `resolver`: the diagnostics, and the verification level of every
/// contract clause. Contract-based testing runs only when asked for and only
/// on a module with no errors.
pub fn check_module_report_with_resolver<R: ModuleResolver>(file: &str, module: &ast::Module, opts: CheckOptions, resolver: &R)
    -> (r: CheckReport)
    ensures
        reported_in(r.diagnostics@, file@),
        sorted_diags(r.diagnostics@),
        has_false_clause(module.items@) ==> exists|i: int| 0 <= i < r.diagnostics@.len() && (#[trigger] r.diagnostics@[i]).code@ == "KEI-E4003"@,
        !opts.suggest_contracts ==> forall|i: int| 0 <= i < r.diagnostics@.len() ==> (#[trigger] r.diagnostics@[i]).suggested_contract is None,
        env_errors_reported(module.items@, module.imports@, r.diagnostics@, file@),
        r.contracts@.len() == module_clauses(module.items@, module.items@.len()).len(),
        forall|i: int| 0 <= i < r.contracts@.len() ==> {
            let c = module_clauses(module.items@, module.items@.len())[i];
            reports_leveled(file@, c.0, c.1, c.2, #[trigger] r.contracts@[i], opts.generative)
        },
{
    let diagnostics = check_module_with_resolver(file, module, opts, resolver);
    let contracts = collect_contracts(file, module);
    let ghost clauses = module_clauses(module.items@, module.items@.len());
    let mut has_error = false;
    let mut i: usize = 0;
    while i < diagnostics.len()
        invariant
            i <= diagnostics@.len(),
        decreases diagnostics@.len() - i,
    {
        if diagnostics[i].severity == Severity::Error {
            has_error = true;
        }
        i = i + 1;
    }
    if opts.generative && !has_error {
        let ghost d0 = diagnostics@;
        let ghost c0 = contracts@;
        let (d, c) = apply_generative(file, module, diagnostics, contracts);
        proof {
            if has_false_clause(module.items@) {
                let k = choose|k: int| 0 <= k < d0.len() && (#[trigger] d0[k]).code@ == "KEI-E4003"@;
                assert(d0.contains(d0[k]));
                assert(d@.contains(d0[k]));
            }
            assert forall|k: int| 0 <= k < d0.len() implies d@.contains(#[trigger] d0[k]) by {
                assert(d0.contains(d0[k]));
            }
            lemma_clashes_kept(module.items@, module.imports@, d0, d@, file@);
            if !opts.suggest_contracts {
                assert forall|k: int| 0 <= k < d@.len() implies (#[trigger] d@[k]).suggested_contract is None by {
                    assert(d@.contains(d@[k]));
                    if d0.contains(d@[k]) {
                        let j = choose|j: int| 0 <= j < d0.len() && d0[j] == d@[k];
                    }
                }
            }
            assert forall|k: int| 0 <= k < c@.len() implies {
                let cl = clauses[k];
                reports_leveled(file@, cl.0, cl.1, cl.2, #[trigger] c@[k], opts.generative)
            } by {
                assert(same_but_level(c0[k], c@[k]));
                assert(reports_contract(file@, clauses[k].0, clauses[k].1, clauses[k].2, c0[k]));
            }
        }
        CheckReport { diagnostics: d, contracts: c }
    } else {
        CheckReport { diagnostics, contracts }
    }
}

/// The structured report of a check with `opts` (imports stay opaque).
pub fn check_module_report_with(file: &str, module: &ast::Module, opts: CheckOptions) -> (r: CheckReport)
    ensures
        reported_in(r.diagnostics@, file@),
        sorted_diags(r.diagnostics@),
        has_false_clause(module.items@) ==> exists|i: int| 0 <= i < r.diagnostics@.len() && (#[trigger] r.diagnostics@[i]).code@ == "KEI-E4003"@,
        env_errors_reported(module.items@, module.imports@, r.diagnostics@, file@),
        r.contracts@.len() == module_clauses(module.items@, module.items@.len()).len(),
        forall|i: int| 0 <= i < r.contracts@.len() ==> {
            let c = module_clauses(module.items@, module.items@.len())[i];
            reports_leveled(file@, c.0, c.1, c.2, #[trigger] r.contracts@[i], opts.generative)
        },
{
    check_module_report_with_resolver(file, module, opts, &NoopResolver)
}

/// The structured report of a check with the default options: every
/// contract is `static` when it folds to `true`, else `runtime`.
pub fn check_module_report(file: &str, module: &ast::Module) -> (r: CheckReport)
    ensures
        reported_in(r.diagnostics@, file@),
        sorted_diags(r.diagnostics@),
        env_errors_reported(module.items@, module.imports@, r.diagnostics@, file@),
        r.contracts@.len() == module_clauses(module.items@, module.items@.len()).len(),
        forall|i: int| 0 <= i < r.contracts@.len() ==> {
            let c = module_clauses(module.items@, module.items@.len())[i];
            reports_leveled(file@, c.0, c.1, c.2, #[trigger] r.contracts@[i], false)
        },
{
    check_module_report_with(file, module, CheckOptions::default())
}

} // verus!
