//! Type inference of expressions, with the checks made on the way: names,
//! members, calls (local, extern, built-in constructors, tagged
//! constructors, enum variants, list methods), record literals, `match`,
//! list literals, unary and binary operators. Every step keeps the state
//! invariant, only appends diagnostics, and leaves the scopes as it found
//! them.
use vstd::prelude::*;
use crate::ast::{self, BinOp, Expr, UnaryOp};
use crate::checkenv::{dotted, dup_fields, dup_tys, extends, kind_of, same_sig, suggest_fix, Env, ExternSig, FuncSig, NameKind, VariantDef};
use crate::contracts::direction;
use crate::fnstate::{
    check_call_effects, cx_ok, err, expect_arity, lookup_scope, record_list_op, scope_lookup, scope_names, st_ok, stepped,
    warn_undeclared_extern, Cx, FnState, Mode,
};
use crate::judge::{check_assign, compare_mismatch, expect_numeric};
use crate::names::{field_on, find_variant, infer_name, list_members, unknown_variant, variant_ref};
use crate::patterns::{check_exhaustiveness, check_pattern, match_shape, MatchShape};
use crate::span;
use crate::table::{contains_str, find_key, has_key, keys_unique, spec_find};
use crate::text::{cat2, cat3, cat5, owned, push_str, str_eq, u64_string};
use crate::types::{spec_compatible, Ty};

verus! {

broadcast use vstd::string::group_string_axioms;

fn push_scope(cx: &Cx, st: &mut FnState, scope: Vec<(String, Ty)>)
    requires
        st_ok(*cx, *old(st)),
        keys_unique(scope@),
    ensures
        st_ok(*cx, *final(st)),
        final(st).diags == old(st).diags,
        final(st).list_ops == old(st).list_ops,
        final(st).scopes@ == old(st).scopes@.push(scope),
{
    st.scopes.push(scope);
}

fn pop_scope(cx: &Cx, st: &mut FnState)
    requires
        st_ok(*cx, *old(st)),
        old(st).scopes@.len() >= 2,
    ensures
        st_ok(*cx, *final(st)),
        final(st).diags == old(st).diags,
        final(st).list_ops == old(st).list_ops,
        final(st).scopes@ == old(st).scopes@.drop_last(),
{
    st.scopes.pop();
}

fn num(n: usize) -> (r: String) {
    u64_string(n as u64)
}

/// The type of an expression.
pub fn infer(cx: &Cx, st: &mut FnState, e: &Expr) -> (r: Ty)
    requires
        cx_ok(*cx),
        st_ok(*cx, *old(st)),
    ensures
        stepped(*cx, *old(st), *final(st)),
        e is Int ==> r == Ty::Int,
        e is Str ==> r == Ty::Str,
        e is Bool ==> r == Ty::Bool,
        e is ListLit ==> r is List,
        (e matches Expr::Binary { op, .. } && !(op == BinOp::Add || op == BinOp::Sub || op == BinOp::Mul
            || op == BinOp::Div || op == BinOp::Rem)) ==> r == Ty::Bool,
        (e matches Expr::Unary { op, .. } && op == UnaryOp::Not) ==> r == Ty::Bool,
    decreases *e, 9nat,
{
    match e {
        Expr::Int { .. } => Ty::Int,
        Expr::Str { .. } => Ty::Str,
        Expr::Bool { .. } => Ty::Bool,
        Expr::Name { name, span } => infer_name(cx, st, name.as_str(), *span),
        Expr::Field { .. } => infer_field(cx, st, e),
        Expr::Call { .. } => infer_call(cx, st, e),
        Expr::Unary { .. } => infer_unary(cx, st, e),
        Expr::Binary { .. } => infer_binary(cx, st, e),
        Expr::RecordLit { .. } => infer_record_lit(cx, st, e),
        Expr::Match { .. } => infer_match(cx, st, e),
        Expr::ListLit { elements, .. } => infer_list_lit(cx, st, elements),
    }
}

/// Infers every argument, for their checks only.
fn infer_args(cx: &Cx, st: &mut FnState, args: &Vec<Expr>, from: usize)
    requires
        cx_ok(*cx),
        st_ok(*cx, *old(st)),
    ensures
        stepped(*cx, *old(st), *final(st)),
    decreases args@, 0nat,
{
    let mut i = from;
    while i < args.len()
        invariant
            cx_ok(*cx),
            stepped(*cx, *old(st), *st),
        decreases args@.len() - i,
    {
        assert(decreases_to!(args@ => args@[i as int]));
        infer(cx, st, &args[i]);
        i = i + 1;
    }
}

/// A list literal: the type of its first element, which every other element
/// must fit (`KEI-E2001` per element otherwise); `List<Unknown>` when it is
/// empty or when an element does not fit (so the same cause is not
/// reported again where the list is used).
fn infer_list_lit(cx: &Cx, st: &mut FnState, elements: &Vec<Expr>) -> (r: Ty)
    requires
        cx_ok(*cx),
        st_ok(*cx, *old(st)),
    ensures
        stepped(*cx, *old(st), *final(st)),
        r is List,
    decreases elements@, 2nat,
{
    if elements.len() == 0 {
        return Ty::List(Box::new(Ty::Unknown));
    }
    assert(decreases_to!(elements@ => elements@[0]));
    let first = infer(cx, st, &elements[0]);
    let mut all_compatible = true;
    let mut i: usize = 1;
    while i < elements.len()
        invariant
            cx_ok(*cx),
            stepped(*cx, *old(st), *st),
            1 <= i,
        decreases elements@.len() - i,
    {
        assert(decreases_to!(elements@ => elements@[i as int]));
        let t = infer(cx, st, &elements[i]);
        let before = st.diags.len();
        check_assign(&cx.env.file, &mut st.diags, &first, &t, elements[i].span());
        if st.diags.len() > before {
            all_compatible = false;
        }
        i = i + 1;
    }
    if all_compatible {
        Ty::List(Box::new(first))
    } else {
        Ty::List(Box::new(Ty::Unknown))
    }
}

/// What a field access's root names, when the root is a bare name that no
/// local binding shadows.
pub open spec fn field_root_kind(e: Expr, scopes: Seq<Vec<(String, Ty)>>, env: Env) -> Option<NameKind> {
    match e {
        Expr::Field { base, .. } => match *base {
            Expr::Name { name, .. } => if scope_lookup(scopes, name@) is None { kind_of(env, name@) } else { None },
            _ => None,
        },
        _ => None,
    }
}

/// A field access, or `Enum.Variant` without a call.
fn infer_field(cx: &Cx, st: &mut FnState, e: &Expr) -> (r: Ty)
    requires
        cx_ok(*cx),
        st_ok(*cx, *old(st)),
        e is Field,
    ensures
        stepped(*cx, *old(st), *final(st)),
        field_root_kind(*e, old(st).scopes@, *cx.env) matches Some(k) && k != NameKind::Enum ==> r == Ty::Unknown,
        field_root_kind(*e, old(st).scopes@, *cx.env) matches Some(k) && k != NameKind::Enum && k != NameKind::Import ==>
            final(st).diags@.len() == old(st).diags@.len() + 1,
        field_root_kind(*e, old(st).scopes@, *cx.env) == Some(NameKind::Import) ==> final(st).diags@ == old(st).diags@,
    decreases *e, 5nat,
{
    let Expr::Field { base, name, .. } = e else {
        return Ty::Unknown;
    };
    if let Expr::Name { name: root, .. } = &**base {
        if lookup_scope(st, root.as_str()).is_none() {
            match cx.env.kind(root.as_str()) {
                Some(NameKind::Enum) => {
                    return variant_ref(cx, st, root, name);
                },
                Some(NameKind::Import) => {
                    return Ty::Unknown;
                },
                Some(NameKind::Record) | Some(NameKind::Alias) => {
                    err(cx, st, "KEI-E2002", cat5("type '", root.as_str(), "' has no member '", name.name.as_str(), "'"), name.span,
                        direction(owned("Access fields on a value, not on the type")));
                    return Ty::Unknown;
                },
                Some(NameKind::Func) => {
                    let mut t = cat3("Write '", root.as_str(), "(...).");
                    push_str(&mut t, name.name.as_str());
                    push_str(&mut t, "'");
                    err(cx, st, "KEI-E2001", cat3("'", root.as_str(), "' is a function; call it before accessing fields"), name.span,
                        direction(t));
                    return Ty::Unknown;
                },
                None => {},
            }
        }
    }
    let base_ty = infer(cx, st, base);
    field_on(cx, st, &base_ty, name)
}

/// The names of a chain of names and field accesses, if the expression is
/// one.
pub open spec fn name_path(e: Expr) -> Option<Seq<Seq<char>>>
    decreases e,
{
    match e {
        Expr::Name { name, .. } => Some(seq![name@]),
        Expr::Field { base, name, .. } => match name_path(*base) {
            Some(p) => Some(p.push(name.name@)),
            None => None,
        },
        _ => None,
    }
}

/// The dotted path of a chain of names and field accesses
/// (`Database.fetchBalance`), if the expression is one.
fn field_path(e: &Expr) -> (r: Option<Vec<String>>)
    ensures
        r matches Some(p) ==> p@.len() >= 1,
        r is Some == name_path(*e) is Some,
        r matches Some(p) ==> crate::table::views_of(p@) == name_path(*e)->0,
    decreases e,
{
    match e {
        Expr::Name { name, .. } => {
            let mut v: Vec<String> = Vec::new();
            v.push(name.clone());
            proof { assert(crate::table::views_of(v@) =~= seq![name@]); }
            Some(v)
        },
        Expr::Field { base, name, .. } => match field_path(base) {
            Some(mut p) => {
                let ghost p0 = p@;
                p.push(name.name.clone());
                proof { assert(crate::table::views_of(p@) =~= crate::table::views_of(p0).push(name.name@)); }
                Some(p)
            },
            None => None,
        },
        _ => None,
    }
}

fn join_dots(p: &Vec<String>) -> (r: String)
    ensures
        r@ == crate::text::joined_with(crate::table::views_of(p@), "."@),
{
    let mut s = String::new();
    let mut i: usize = 0;
    while i < p.len()
        invariant
            i <= p@.len(),
            s@ == crate::text::joined_with(crate::table::views_of(p@).take(i as int), "."@),
        decreases p@.len() - i,
    {
        proof {
            assert(crate::table::views_of(p@).take(i + 1) =~= crate::table::views_of(p@).take(i as int).push(p@[i as int]@));
            crate::text::lemma_joined_push(crate::table::views_of(p@).take(i as int), p@[i as int]@, "."@);
        }
        if i > 0 {
            push_str(&mut s, ".");
        }
        push_str(&mut s, p[i].as_str());
        i = i + 1;
    }
    proof { assert(crate::table::views_of(p@).take(p@.len() as int) =~= crate::table::views_of(p@)); }
    s
}

fn find_extern(env: &Env, key: &str) -> (r: Option<ExternSig>) {
    match find_key(&env.externs, key) {
        Some(i) => Some(env.externs[i].1.duplicate()),
        None => None,
    }
}

/// The name a call's callee is, when it is a bare name.
pub open spec fn callee_name(e: Expr) -> Option<Seq<char>> {
    match e {
        Expr::Call { callee, .. } => match *callee {
            Expr::Name { name, .. } => Some(name@),
            _ => None,
        },
        _ => None,
    }
}

/// The type of a call of a bare name that no local binding shadows: a
/// built-in constructor's, a local function's return type, or `Unknown`
/// for an undefined name.
pub open spec fn named_call_typed(e: Expr, scopes: Seq<Vec<(String, Ty)>>, env: Env, r: Ty) -> bool {
    match callee_name(e) {
        Some(n) => scope_lookup(scopes, n) is None ==> {
            &&& n == "None"@ ==> r == Ty::Option(Box::new(Ty::Unknown))
            &&& n == "Some"@ ==> r is Option
            &&& n == "Ok"@ || n == "Err"@ ==> r is Result
            &&& !builtin_call(n) && kind_of(env, n) == Some(NameKind::Func) ==> r == func_ret(env, n)
            &&& !builtin_call(n) && kind_of(env, n) is None ==> r == Ty::Unknown
        },
        None => true,
    }
}

/// A call expression.
fn infer_call(cx: &Cx, st: &mut FnState, e: &Expr) -> (r: Ty)
    requires
        cx_ok(*cx),
        st_ok(*cx, *old(st)),
        e is Call,
    ensures
        stepped(*cx, *old(st), *final(st)),
        named_call_typed(*e, old(st).scopes@, *cx.env, r),
    decreases *e, 5nat,
{
    let Expr::Call { callee, args, span } = e else {
        return Ty::Unknown;
    };
    let s = *span;
    match &**callee {
        Expr::Name { name, span: nspan } => {
            if lookup_scope(st, name.as_str()).is_none() {
                return call_named(cx, st, name, *nspan, args, s);
            }
            let callee_ty = infer(cx, st, callee);
            call_value(cx, st, &callee_ty, args, s)
        },
        Expr::Field { base, name: vname, .. } => {
            if let Expr::Name { name: root, .. } = &**base {
                if lookup_scope(st, root.as_str()).is_none() && cx.env.kind(root.as_str()) == Some(NameKind::Enum) {
                    return call_variant(cx, st, root.as_str(), vname, args, s);
                }
            }
            if let Some(path) = field_path(callee) {
                if lookup_scope(st, path[0].as_str()).is_none() && cx.env.kind(path[0].as_str()) == Some(NameKind::Import) {
                    let key = join_dots(&path);
                    if let Some(sig) = find_extern(cx.env, key.as_str()) {
                        return call_extern(cx, st, key.as_str(), &sig, args, s);
                    }
                    if cx.strict_extern {
                        warn_undeclared_extern(cx, st, key.as_str(), s);
                    }
                    infer_args(cx, st, args, 0);
                    return Ty::Unknown;
                }
            }
            let base_is_value = match &**base {
                Expr::Name { name, .. } => lookup_scope(st, name.as_str()).is_some(),
                _ => true,
            };
            if base_is_value {
                let base_ty = infer(cx, st, base);
                if let Ty::List(elem) = &base_ty {
                    return list_method(cx, st, elem, vname, args, s);
                }
                let callee_ty = field_on(cx, st, &base_ty, vname);
                return call_value(cx, st, &callee_ty, args, s);
            }
            let callee_ty = infer(cx, st, callee);
            call_value(cx, st, &callee_ty, args, s)
        },
        _ => {
            let callee_ty = infer(cx, st, callee);
            call_value(cx, st, &callee_ty, args, s)
        },
    }
}

/// A call of something that is not a function: the arguments are still
/// checked; a callee of known type is reported (`KEI-E2001`).
fn call_value(cx: &Cx, st: &mut FnState, callee_ty: &Ty, args: &Vec<Expr>, s: span::Span) -> (r: Ty)
    requires
        cx_ok(*cx),
        st_ok(*cx, *old(st)),
    ensures
        stepped(*cx, *old(st), *final(st)),
        r == Ty::Unknown,
    decreases args@, 3nat,
{
    infer_args(cx, st, args, 0);
    if !matches!(callee_ty, Ty::Unknown) {
        let t = callee_ty.text();
        err(cx, st, "KEI-E2001", cat3("expression of type '", t.as_str(), "' is not callable"), s,
            direction(owned("Call a function")));
    }
    Ty::Unknown
}

/// The names a list answers to.
pub open spec fn list_member_name(n: Seq<char>) -> bool {
    n == "get"@ || n == "map"@ || n == "filter"@ || n == "fold"@ || n == "all"@ || n == "any"@
        || n == "isEmpty"@ || n == "length"@
}

/// A list method call (`get`, `map`, `filter`, `fold`, `all`, `any`,
/// `isEmpty`); `length` is a property, not a method.
fn list_method(cx: &Cx, st: &mut FnState, elem: &Ty, method: &ast::Ident, args: &Vec<Expr>, s: span::Span) -> (r: Ty)
    requires
        cx_ok(*cx),
        st_ok(*cx, *old(st)),
    ensures
        stepped(*cx, *old(st), *final(st)),
        method.name@ == "get"@ ==> r == Ty::Option(Box::new(*elem)),
        method.name@ == "filter"@ ==> r == Ty::List(Box::new(*elem)),
        method.name@ == "map"@ ==> r is List,
        method.name@ == "all"@ || method.name@ == "any"@ || method.name@ == "isEmpty"@ ==> r == Ty::Bool,
        method.name@ == "length"@ ==> r == Ty::Int,
        !list_member_name(method.name@) ==> r == Ty::Unknown,
    decreases args@, 3nat,
{
    proof {
        reveal_strlit("get");
        reveal_strlit("map");
        reveal_strlit("filter");
        reveal_strlit("fold");
        reveal_strlit("all");
        reveal_strlit("any");
        reveal_strlit("isEmpty");
        reveal_strlit("length");
        assert("get"@.len() == 3 && "map"@.len() == 3 && "all"@.len() == 3 && "any"@.len() == 3);
        assert("fold"@.len() == 4 && "filter"@.len() == 6 && "length"@.len() == 6 && "isEmpty"@.len() == 7);
        assert("get"@ != "map"@ && "get"@ != "all"@ && "get"@ != "any"@ && "map"@ != "all"@ && "map"@ != "any"@) by {
            assert("get"@[0] != "map"@[0] && "get"@[0] != "all"@[0] && "map"@[0] != "all"@[0]);
        }
        assert("all"@ != "any"@) by { assert("all"@[1] != "any"@[1]); }
        assert("filter"@ != "length"@) by { assert("filter"@[0] != "length"@[0]); }
    }
    record_list_op(st, method.span.start);
    let m = method.name.as_str();
    if str_eq(m, "get") {
        expect_arity(cx, st, m, 1, args.len(), s);
        if args.len() >= 1 {
            assert(decreases_to!(args@ => args@[0]));
            let at = infer(cx, st, &args[0]);
            check_assign(&cx.env.file, &mut st.diags, &Ty::Int, &at, args[0].span());
        }
        infer_args(cx, st, args, 1);
        return Ty::Option(Box::new(elem.duplicate()));
    }
    if str_eq(m, "map") {
        if !expect_arity(cx, st, m, 1, args.len(), s) {
            infer_args(cx, st, args, 0);
            return Ty::List(Box::new(Ty::Unknown));
        }
        let mut params: Vec<Ty> = Vec::new();
        params.push(elem.duplicate());
        let u = check_combinator_fn_arg(cx, st, args, 0, &params, None, "map", s);
        return Ty::List(Box::new(u));
    }
    if str_eq(m, "filter") {
        if expect_arity(cx, st, m, 1, args.len(), s) {
            let mut params: Vec<Ty> = Vec::new();
            params.push(elem.duplicate());
            check_combinator_fn_arg(cx, st, args, 0, &params, Some(Ty::Bool), "filter", s);
        }
        return Ty::List(Box::new(elem.duplicate()));
    }
    if str_eq(m, "fold") {
        if !expect_arity(cx, st, m, 2, args.len(), s) {
            infer_args(cx, st, args, 0);
            return Ty::Unknown;
        }
        assert(decreases_to!(args@ => args@[0]));
        let u = infer(cx, st, &args[0]);
        let mut params: Vec<Ty> = Vec::new();
        params.push(u.duplicate());
        params.push(elem.duplicate());
        check_combinator_fn_arg(cx, st, args, 1, &params, Some(u.duplicate()), "fold", s);
        return u;
    }
    if str_eq(m, "all") || str_eq(m, "any") {
        if expect_arity(cx, st, m, 1, args.len(), s) {
            let mut params: Vec<Ty> = Vec::new();
            params.push(elem.duplicate());
            check_combinator_fn_arg(cx, st, args, 0, &params, Some(Ty::Bool), m, s);
        }
        return Ty::Bool;
    }
    if str_eq(m, "isEmpty") {
        expect_arity(cx, st, m, 0, args.len(), s);
        infer_args(cx, st, args, 0);
        return Ty::Bool;
    }
    if str_eq(m, "length") {
        err(cx, st, "KEI-E2001", owned("'length' is a List property; write 'xs.length' without arguments"), s,
            direction(owned("Remove the call: 'xs.length'")));
        infer_args(cx, st, args, 0);
        return Ty::Int;
    }
    let members = list_members();
    let fix = suggest_fix(&cx.env.file, m, &members, method.span, owned("Use one of: length, isEmpty, get, map, filter, fold, all, any"));
    err(cx, st, "KEI-E2002", cat3("no method '", m, "' on 'List'"), method.span, fix);
    infer_args(cx, st, args, 0);
    Ty::Unknown
}

fn find_sig(env: &Env, name: &str) -> (r: Option<FuncSig>)
    requires
        keys_unique(env.funcs@),
    ensures
        r is Some <==> has_key(env.funcs@, name@),
        r matches Some(sig) ==> sig.ret == func_ret(*env, name@),
{
    match find_key(&env.funcs, name) {
        Some(i) => {
            proof { crate::table::lemma_unique_find(env.funcs@, i as int); }
            Some(env.funcs[i].1.duplicate())
        },
        None => None,
    }
}

/// Whether a called name is a built-in constructor or `old`.
pub open spec fn builtin_call(n: Seq<char>) -> bool {
    n == "Ok"@ || n == "Err"@ || n == "Some"@ || n == "None"@ || n == "old"@
}

/// The return type of the local function `name`.
pub open spec fn func_ret(env: Env, name: Seq<char>) -> Ty {
    env.funcs@[spec_find(env.funcs@, name)->0].1.ret
}

/// The local function a combinator argument names: a bare name that no
/// local binding shadows and that names a function.
pub open spec fn fn_ref_named(arg: Expr, scopes: Seq<Vec<(String, Ty)>>, env: Env) -> Option<Seq<char>> {
    match arg {
        Expr::Name { name, .. } => if scope_lookup(scopes, name@) is None && kind_of(env, name@) == Some(NameKind::Func) {
            Some(name@)
        } else {
            None
        },
        _ => None,
    }
}

/// The function argument of a list combinator: only the name of a local
/// function is accepted (functions are not values); its signature must fit
/// `params` (and `ret`), and its effects count as the caller's.
fn check_combinator_fn_arg(cx: &Cx, st: &mut FnState, args: &Vec<Expr>, k: usize, params: &Vec<Ty>, ret: Option<Ty>, method: &str, s: span::Span)
    -> (r: Ty)
    requires
        cx_ok(*cx),
        st_ok(*cx, *old(st)),
        k < args@.len(),
    ensures
        stepped(*cx, *old(st), *final(st)),
        fn_ref_named(args@[k as int], old(st).scopes@, *cx.env) matches Some(n) ==> r == func_ret(*cx.env, n),
        fn_ref_named(args@[k as int], old(st).scopes@, *cx.env) is None ==> {
            &&& r == Ty::Unknown
            &&& final(st).diags@.len() > old(st).diags@.len()
            &&& final(st).diags@.last().code@ == "KEI-E2001"@
        },
    decreases args@, 1nat,
{
    let arg = &args[k];
    let Expr::Name { name, span: nspan } = arg else {
        assert(decreases_to!(args@ => args@[k as int]));
        infer(cx, st, arg);
        err(cx, st, "KEI-E2001",
            cat3("'", method, "' expects a named function reference here; functions are not first-class values in Kei"), arg.span(),
            direction(owned("Pass a top-level function name, e.g. 'xs.map(toItem)'")));
        return Ty::Unknown;
    };
    let n = name.as_str();
    if lookup_scope(st, n).is_some() || cx.env.kind(n) != Some(NameKind::Func) {
        let mut m = cat5("'", n, "' is not a function; '", method, "' takes a named function reference");
        err(cx, st, "KEI-E2001", m, *nspan, direction(owned("Reference a top-level function by name")));
        return Ty::Unknown;
    }
    let Some(sig) = find_sig(cx.env, n) else {
        return Ty::Unknown;
    };
    if sig.params.len() != params.len() {
        let mut m = cat3("function '", n, "' takes ");
        push_str(&mut m, num(sig.params.len()).as_str());
        push_str(&mut m, " parameter(s), but '");
        push_str(&mut m, method);
        push_str(&mut m, "' passes ");
        push_str(&mut m, num(params.len()).as_str());
        err(cx, st, "KEI-E2001", m, *nspan, direction(owned("Use a function with the expected parameters")));
        return sig.ret;
    }
    let mut i: usize = 0;
    while i < params.len()
        invariant
            cx_ok(*cx),
            stepped(*cx, *old(st), *st),
            sig.params@.len() == params@.len(),
            i <= params@.len(),
        decreases params@.len() - i,
    {
        let pty = &sig.params[i].1;
        let expected = &params[i];
        if !pty.compatible(expected) {
            let et = expected.text();
            let pt = pty.text();
            let mut m = cat5("'", method, "' passes '", et.as_str(), "' to parameter '");
            push_str(&mut m, sig.params[i].0.as_str());
            push_str(&mut m, "' of '");
            push_str(&mut m, n);
            push_str(&mut m, "', which expects '");
            push_str(&mut m, pt.as_str());
            push_str(&mut m, "'");
            err(cx, st, "KEI-E2001", m, *nspan, direction(cat5("Make '", n, "' accept '", et.as_str(), "'")));
        }
        i = i + 1;
    }
    if let Some(er) = &ret {
        if !sig.ret.compatible(er) {
            let et = er.text();
            let rt = sig.ret.text();
            let mut m = cat5("'", method, "' expects the function to return '", et.as_str(), "', but '");
            push_str(&mut m, n);
            push_str(&mut m, "' returns '");
            push_str(&mut m, rt.as_str());
            push_str(&mut m, "'");
            err(cx, st, "KEI-E2001", m, *nspan, direction(cat5("Make '", n, "' return '", et.as_str(), "'")));
        }
    }
    check_call_effects(cx, st, &sig.effects, n, s);
    sig.ret
}

/// The arguments of a built-in constructor (`Ok`, `Err`, `Some`, `None`,
/// `old`): their number is checked (`KEI-E2001`); the type of the first is
/// returned.
fn check_ctor_args(cx: &Cx, st: &mut FnState, name: &str, expected: usize, args: &Vec<Expr>, s: span::Span) -> (r: Ty)
    requires
        cx_ok(*cx),
        st_ok(*cx, *old(st)),
    ensures
        stepped(*cx, *old(st), *final(st)),
        args@.len() == 0 ==> r == Ty::Unknown,
    decreases args@, 2nat,
{
    if args.len() != expected {
        let mut m = cat3("'", name, "' takes exactly ");
        push_str(&mut m, num(expected).as_str());
        push_str(&mut m, " argument(s), found ");
        push_str(&mut m, num(args.len()).as_str());
        err(cx, st, "KEI-E2001", m, s, direction(owned("Adjust the arguments")));
    }
    let mut first = Ty::Unknown;
    let mut i: usize = 0;
    while i < args.len()
        invariant
            cx_ok(*cx),
            stepped(*cx, *old(st), *st),
            args@.len() == 0 ==> first == Ty::Unknown,
        decreases args@.len() - i,
    {
        assert(decreases_to!(args@ => args@[i as int]));
        let t = infer(cx, st, &args[i]);
        if i == 0 {
            first = t;
        }
        i = i + 1;
    }
    first
}

/// A call of a bare name: a built-in constructor, `old(...)`, a local
/// function, a tagged constructor, or an error.
fn call_named(cx: &Cx, st: &mut FnState, name: &String, nspan: span::Span, args: &Vec<Expr>, s: span::Span) -> (r: Ty)
    requires
        cx_ok(*cx),
        st_ok(*cx, *old(st)),
    ensures
        stepped(*cx, *old(st), *final(st)),
        name@ == "Ok"@ ==> (r matches Ty::Result(_, e) && *e == Ty::Unknown),
        name@ == "Err"@ ==> (r matches Ty::Result(o, _) && *o == Ty::Unknown),
        name@ == "Some"@ ==> r is Option,
        name@ == "None"@ ==> r == Ty::Option(Box::new(Ty::Unknown)),
        !builtin_call(name@) && kind_of(*cx.env, name@) == Some(NameKind::Func) ==> r == func_ret(*cx.env, name@),
        !builtin_call(name@) && kind_of(*cx.env, name@) == Some(NameKind::Record) ==> r == Ty::Record(*name),
        !builtin_call(name@) && kind_of(*cx.env, name@) == Some(NameKind::Enum) ==> r == Ty::Enum(*name),
        !builtin_call(name@) && kind_of(*cx.env, name@) == Some(NameKind::Import) ==> r == Ty::Unknown,
        !builtin_call(name@) && kind_of(*cx.env, name@) is None ==> r == Ty::Unknown,
    decreases args@, 4nat,
{
    proof {
        reveal_strlit("Ok");
        reveal_strlit("Err");
        reveal_strlit("Some");
        reveal_strlit("None");
        reveal_strlit("old");
        assert("Ok"@.len() == 2 && "Err"@.len() == 3 && "old"@.len() == 3 && "Some"@.len() == 4 && "None"@.len() == 4);
        assert("Err"@ != "old"@) by { assert("Err"@[0] != "old"@[0]); }
        assert("Some"@ != "None"@) by { assert("Some"@[0] != "None"@[0]); }
    }
    let n = name.as_str();
    if str_eq(n, "Ok") {
        let t = check_ctor_args(cx, st, n, 1, args, s);
        return Ty::Result(Box::new(t), Box::new(Ty::Unknown));
    }
    if str_eq(n, "Err") {
        let t = check_ctor_args(cx, st, n, 1, args, s);
        return Ty::Result(Box::new(Ty::Unknown), Box::new(t));
    }
    if str_eq(n, "Some") {
        let t = check_ctor_args(cx, st, n, 1, args, s);
        return Ty::Option(Box::new(t));
    }
    if str_eq(n, "None") {
        check_ctor_args(cx, st, n, 0, args, s);
        return Ty::Option(Box::new(Ty::Unknown));
    }
    if str_eq(n, "old") {
        if cx.mode != Mode::Ensures {
            err(cx, st, "KEI-E4002", owned("'old(...)' is only available in 'ensures' clauses"), s,
                direction(owned("Move this condition to an 'ensures' clause")));
        }
        return check_ctor_args(cx, st, n, 1, args, s);
    }
    match cx.env.kind(n) {
        Some(NameKind::Func) => call_local(cx, st, n, args, s),
        Some(NameKind::Import) => {
            infer_args(cx, st, args, 0);
            Ty::Unknown
        },
        Some(NameKind::Record) => {
            infer_args(cx, st, args, 0);
            let mut m = cat5("record '", n, "' is constructed with '", n, " { ... }', not a function call");
            err(cx, st, "KEI-E2004", m, s, direction(owned("Use a record literal")));
            Ty::Record(name.clone())
        },
        Some(NameKind::Enum) => {
            infer_args(cx, st, args, 0);
            let m = cat5("enum '", n, "' needs a variant: '", n, ".Variant(...)'");
            err(cx, st, "KEI-E2003", m, s, direction(owned("Name the variant to construct")));
            Ty::Enum(name.clone())
        },
        Some(NameKind::Alias) => {
            if let Some(Ty::Tagged { name: tag, underlying }) = cx.env.alias(n) {
                if args.len() != 1 {
                    infer_args(cx, st, args, 0);
                    let u = underlying.text();
                    let mut m = cat3("tagged constructor '", n, "' takes exactly 1 argument, found ");
                    push_str(&mut m, num(args.len()).as_str());
                    let mut t = cat5("Call '", n, "(<", u.as_str(), ">)' with a single value");
                    err(cx, st, "KEI-E2001", m, s, direction(t));
                    return Ty::Tagged { name: tag, underlying };
                }
                assert(decreases_to!(args@ => args@[0]));
                let arg_ty = infer(cx, st, &args[0]);
                check_assign(&cx.env.file, &mut st.diags, &underlying, &arg_ty, args[0].span());
                return Ty::Tagged { name: tag, underlying };
            }
            infer_args(cx, st, args, 0);
            err(cx, st, "KEI-E2001", cat3("type '", n, "' is not callable"), s, direction(owned("Call a function")));
            Ty::Unknown
        },
        None => {
            infer_args(cx, st, args, 0);
            let mut candidates = scope_names(st);
            let more = cx.env.names_where(true, false);
            let mut i: usize = 0;
            while i < more.len()
                invariant
                    i <= more@.len(),
                decreases more@.len() - i,
            {
                candidates.push(more[i].clone());
                i = i + 1;
            }
            candidates.push(owned("Ok"));
            candidates.push(owned("Err"));
            candidates.push(owned("Some"));
            candidates.push(owned("None"));
            let fix = suggest_fix(&cx.env.file, n, &candidates, nspan, cat3("Define or import '", n, "'"));
            err(cx, st, "KEI-E1001", cat3("undefined name '", n, "'"), nspan, fix);
            Ty::Unknown
        },
    }
}

/// Checks arguments against parameter types, position by position; extra
/// arguments are only inferred.
fn check_args_against(cx: &Cx, st: &mut FnState, params: &Vec<(String, Ty)>, args: &Vec<Expr>)
    requires
        cx_ok(*cx),
        st_ok(*cx, *old(st)),
    ensures
        stepped(*cx, *old(st), *final(st)),
    decreases args@, 2nat,
{
    let mut i: usize = 0;
    while i < args.len()
        invariant
            cx_ok(*cx),
            stepped(*cx, *old(st), *st),
        decreases args@.len() - i,
    {
        assert(decreases_to!(args@ => args@[i as int]));
        let at = infer(cx, st, &args[i]);
        if i < params.len() {
            check_assign(&cx.env.file, &mut st.diags, &params[i].1, &at, args[i].span());
        }
        i = i + 1;
    }
}

/// A call of a local function: arity (`KEI-E2001`), argument types, and
/// the callee's effects against the caller's.
fn call_local(cx: &Cx, st: &mut FnState, name: &str, args: &Vec<Expr>, s: span::Span) -> (r: Ty)
    requires
        cx_ok(*cx),
        st_ok(*cx, *old(st)),
    ensures
        stepped(*cx, *old(st), *final(st)),
        has_key(cx.env.funcs@, name@) ==> r == func_ret(*cx.env, name@),
        !has_key(cx.env.funcs@, name@) ==> r == Ty::Unknown,
    decreases args@, 3nat,
{
    let Some(callee) = find_sig(cx.env, name) else {
        infer_args(cx, st, args, 0);
        return Ty::Unknown;
    };
    if args.len() != callee.params.len() {
        let mut m = cat3("'", name, "' takes ");
        push_str(&mut m, num(callee.params.len()).as_str());
        push_str(&mut m, " argument(s), found ");
        push_str(&mut m, num(args.len()).as_str());
        err(cx, st, "KEI-E2001", m, s, direction(owned("Adjust the arguments")));
    }
    check_args_against(cx, st, &callee.params, args);
    check_call_effects(cx, st, &callee.effects, name, s);
    callee.ret
}

/// A call across the external boundary with an `extern` signature; in a
/// contract only a `query` may be called (`KEI-E4004`).
fn call_extern(cx: &Cx, st: &mut FnState, key: &str, sig: &ExternSig, args: &Vec<Expr>, s: span::Span) -> (r: Ty)
    requires
        cx_ok(*cx),
        st_ok(*cx, *old(st)),
    ensures
        stepped(*cx, *old(st), *final(st)),
        r == sig.ret,
    decreases args@, 3nat,
{
    if args.len() != sig.params.len() {
        let mut m = cat3("external function '", key, "' takes ");
        push_str(&mut m, num(sig.params.len()).as_str());
        push_str(&mut m, " argument(s), found ");
        push_str(&mut m, num(args.len()).as_str());
        err(cx, st, "KEI-E2001", m, s, direction(owned("Adjust the arguments")));
    }
    check_args_against(cx, st, &sig.params, args);
    if cx.mode != Mode::Body && !sig.query {
        let m = cat3("external function '", key,
            "' may only be called in a contract if declared 'extern query'; contracts observe state, they do not act on it");
        err(cx, st, "KEI-E4004", m, s, direction(cat3("Declare 'extern query ", key, "(...)' if it is a pure observer")));
    } else {
        check_call_effects(cx, st, &sig.effects, key, s);
    }
    sig.ret.duplicate()
}

/// `Enum.Variant(...)`: only a variant with a positional payload is
/// constructed this way (`KEI-E2003` otherwise).
fn call_variant(cx: &Cx, st: &mut FnState, e: &str, vname: &ast::Ident, args: &Vec<Expr>, s: span::Span) -> (r: Ty)
    requires
        cx_ok(*cx),
        st_ok(*cx, *old(st)),
    ensures
        stepped(*cx, *old(st), *final(st)),
        crate::names::variant_of(*cx.env, e@, vname.name@) is Some ==> r is Enum && r->Enum_0@ == e@,
        crate::names::variant_of(*cx.env, e@, vname.name@) is None ==> r == Ty::Unknown,
    decreases args@, 3nat,
{
    let v = vname.name.as_str();
    match find_variant(cx.env, e, v) {
        Some(VariantDef::Tuple(tys)) => {
            if args.len() != tys.len() {
                let mut m = cat5("variant '", v, "' of '", e, "' takes ");
                push_str(&mut m, num(tys.len()).as_str());
                push_str(&mut m, " value(s), found ");
                push_str(&mut m, num(args.len()).as_str());
                err(cx, st, "KEI-E2003", m, s, direction(owned("Adjust the payload")));
            }
            let mut params: Vec<(String, Ty)> = Vec::new();
            let mut i: usize = 0;
            while i < tys.len()
                invariant
                    i <= tys@.len(),
                decreases tys@.len() - i,
            {
                params.push((String::new(), tys[i].duplicate()));
                i = i + 1;
            }
            check_args_against(cx, st, &params, args);
            Ty::Enum(owned(e))
        },
        Some(VariantDef::Unit) => {
            infer_args(cx, st, args, 0);
            let mut m = cat5("variant '", v, "' of '", e, "' takes no payload; write '");
            push_str(&mut m, e);
            push_str(&mut m, ".");
            push_str(&mut m, v);
            push_str(&mut m, "'");
            let mut t = cat5("Remove the arguments: '", e, ".", v, "'");
            err(cx, st, "KEI-E2003", m, s, direction(t));
            Ty::Enum(owned(e))
        },
        Some(VariantDef::Record(_)) => {
            infer_args(cx, st, args, 0);
            let mut m = cat5("variant '", v, "' of '", e, "' has named fields; construct it with '");
            push_str(&mut m, e);
            push_str(&mut m, ".");
            push_str(&mut m, v);
            push_str(&mut m, " { ... }'");
            err(cx, st, "KEI-E2003", m, s, direction(owned("Use named fields")));
            Ty::Enum(owned(e))
        },
        None => {
            infer_args(cx, st, args, 0);
            unknown_variant(cx, st, e, vname);
            Ty::Unknown
        },
    }
}

/// Infers the field values of a literal whose type is not known.
fn infer_lit_fields(cx: &Cx, st: &mut FnState, fields: &Vec<ast::RecordLitField>)
    requires
        cx_ok(*cx),
        st_ok(*cx, *old(st)),
    ensures
        stepped(*cx, *old(st), *final(st)),
    decreases fields@, 2nat,
{
    let mut i: usize = 0;
    while i < fields.len()
        invariant
            cx_ok(*cx),
            stepped(*cx, *old(st), *st),
        decreases fields@.len() - i,
    {
        match &fields[i].value {
            Some(v) => {
                assert(decreases_to!(fields@ => fields@[i as int]));
                assert(decreases_to!(fields@[i as int] => fields@[i as int].value));
                infer(cx, st, v);
            },
            None => {
                infer_name(cx, st, fields[i].name.name.as_str(), fields[i].name.span);
            },
        }
        i = i + 1;
    }
}

/// Whether one of the first `n` fields of a literal is named `x`.
pub open spec fn lit_has(fields: Seq<ast::RecordLitField>, n: int, x: Seq<char>) -> bool {
    exists|j: int| 0 <= j < n && #[trigger] fields[j].name.name@ == x
}

/// Whether a field of the definition is absent from the literal.
pub open spec fn lit_misses(def: Seq<(String, Ty)>, fields: Seq<ast::RecordLitField>) -> bool {
    exists|k: int| 0 <= k < def.len() && !lit_has(fields, fields.len() as int, #[trigger] def[k].0@)
}

/// Checks the fields of a record literal against the definition `def`: a
/// repeated field (`KEI-E2004`), an unknown field (`KEI-E2002`), a value of
/// the wrong type, and missing fields (`KEI-E2004`).
fn check_record_fields(cx: &Cx, st: &mut FnState, def: &Vec<(String, Ty)>, fields: &Vec<ast::RecordLitField>, owner: &str, s: span::Span)
    requires
        cx_ok(*cx),
        st_ok(*cx, *old(st)),
    ensures
        stepped(*cx, *old(st), *final(st)),
        lit_misses(def@, fields@) ==> {
            &&& final(st).diags@.len() > old(st).diags@.len()
            &&& final(st).diags@.last().code@ == "KEI-E2004"@
        },
    decreases fields@, 2nat,
{
    let mut seen: Vec<String> = Vec::new();
    let mut i: usize = 0;
    while i < fields.len()
        invariant
            cx_ok(*cx),
            stepped(*cx, *old(st), *st),
            i <= fields@.len(),
            forall|x: Seq<char>| crate::table::views_of(seen@).contains(x) <==> lit_has(fields@, i as int, x),
        decreases fields@.len() - i,
    {
        let f = &fields[i];
        let fname = f.name.name.as_str();
        let ghost seen0 = seen@;
        proof {
            assert forall|x: Seq<char>| lit_has(fields@, i + 1, x) <==> (lit_has(fields@, i as int, x) || x == fields@[i as int].name.name@) by {
                if lit_has(fields@, i + 1, x) {
                    let j = choose|j: int| 0 <= j < i + 1 && #[trigger] fields@[j].name.name@ == x;
                    if j < i {
                        assert(lit_has(fields@, i as int, x));
                    }
                }
                if lit_has(fields@, i as int, x) {
                    let j = choose|j: int| 0 <= j < i && #[trigger] fields@[j].name.name@ == x;
                    assert(fields@[j].name.name@ == x);
                }
                if x == fields@[i as int].name.name@ {
                    assert(fields@[i as int].name.name@ == x);
                }
            }
        }
        proof { crate::table::lemma_views_contains(seen@, fname@); }
        if contains_str(&seen, fname) {
            let mut m = cat5("duplicate field '", fname, "' in '", owner, "' literal");
            err(cx, st, "KEI-E2004", m, f.name.span, direction(owned("Remove the duplicate field")));
        } else {
            seen.push(f.name.name.clone());
            proof {
                assert(crate::table::views_of(seen@) =~= crate::table::views_of(seen0).push(fname@));
            }
            let value_ty = match &f.value {
                Some(v) => {
                    assert(decreases_to!(fields@ => fields@[i as int]));
                    assert(decreases_to!(fields@[i as int] => fields@[i as int].value));
                    infer(cx, st, v)
                },
                None => infer_name(cx, st, fname, f.name.span),
            };
            match find_key(def, fname) {
                Some(j) => check_assign(&cx.env.file, &mut st.diags, &def[j].1, &value_ty, f.span),
                None => {
                    let mut names: Vec<String> = Vec::new();
                    let mut k: usize = 0;
                    while k < def.len()
                        invariant
                            k <= def@.len(),
                        decreases def@.len() - k,
                    {
                        names.push(def[k].0.clone());
                        k = k + 1;
                    }
                    let fix = suggest_fix(&cx.env.file, fname, &names, f.name.span, cat3("Use one of the fields of '", owner, "'"));
                    err(cx, st, "KEI-E2002", cat5("no field '", fname, "' on '", owner, "'"), f.name.span, fix);
                },
            }
        }
        proof {
            assert(crate::table::views_of(seen0).contains(fname@) ==> crate::table::views_of(seen@) =~= crate::table::views_of(seen0));
            assert forall|x: Seq<char>| crate::table::views_of(seen@).contains(x) <==> lit_has(fields@, i + 1, x) by {
                if !crate::table::views_of(seen0).contains(fname@) {
                    assert(crate::table::views_of(seen@) =~= crate::table::views_of(seen0).push(fname@));
                    if crate::table::views_of(seen@).contains(x) && x != fname@ {
                        let m = choose|m: int| 0 <= m < crate::table::views_of(seen@).len() && crate::table::views_of(seen@)[m] == x;
                        assert(crate::table::views_of(seen0)[m] == x);
                    }
                    if crate::table::views_of(seen0).contains(x) {
                        let m = choose|m: int| 0 <= m < crate::table::views_of(seen0).len() && crate::table::views_of(seen0)[m] == x;
                        assert(crate::table::views_of(seen@)[m] == x);
                    }
                    if x == fname@ {
                        assert(crate::table::views_of(seen@)[seen0.len() as int] == x);
                    }
                }
            }
        }
        i = i + 1;
    }
    let mut missing = String::new();
    let mut count: usize = 0;
    let mut k: usize = 0;
    while k < def.len()
        invariant
            k <= def@.len(),
            count <= k,
            forall|x: Seq<char>| crate::table::views_of(seen@).contains(x) <==> lit_has(fields@, fields@.len() as int, x),
            count > 0 <==> exists|k2: int| 0 <= k2 < k && !lit_has(fields@, fields@.len() as int, #[trigger] def@[k2].0@),
        decreases def@.len() - k,
    {
        proof { crate::table::lemma_views_contains(seen@, def@[k as int].0@); }
        if !contains_str(&seen, def[k].0.as_str()) {
            if count > 0 {
                push_str(&mut missing, ", ");
            }
            push_str(&mut missing, "'");
            push_str(&mut missing, def[k].0.as_str());
            push_str(&mut missing, "'");
            count = count + 1;
        }
        k = k + 1;
    }
    if count > 0 {
        let mut m = cat3("missing field(s) ", missing.as_str(), " in '");
        push_str(&mut m, owner);
        push_str(&mut m, "' literal");
        err(cx, st, "KEI-E2004", m, s, direction(owned("Add the missing field(s)")));
    }
}

fn record_def(env: &Env, r: &str) -> (out: Vec<(String, Ty)>) {
    match find_key(&env.records, r) {
        Some(i) => dup_fields(&env.records[i].1),
        None => Vec::new(),
    }
}

/// The one-segment type name of a record literal (`R { ... }`), if it has
/// one.
pub open spec fn lit_type_name(e: Expr) -> Option<ast::Ident> {
    match e {
        Expr::RecordLit { path, .. } => if path@.len() == 1 { Some(path@[0]) } else { None },
        _ => None,
    }
}

/// A record literal `R { ... }` or an enum variant literal `E.V { ... }`.
fn infer_record_lit(cx: &Cx, st: &mut FnState, e: &Expr) -> (r: Ty)
    requires
        cx_ok(*cx),
        st_ok(*cx, *old(st)),
        e is RecordLit,
    ensures
        stepped(*cx, *old(st), *final(st)),
        e->RecordLit_path@.len() == 0 ==> r == Ty::Unknown,
        lit_type_name(*e) matches Some(id) ==> {
            &&& kind_of(*cx.env, id.name@) == Some(NameKind::Record) ==> r == Ty::Record(id.name)
            &&& kind_of(*cx.env, id.name@) == Some(NameKind::Enum) ==> r == Ty::Enum(id.name)
            &&& kind_of(*cx.env, id.name@) == Some(NameKind::Import) ==> r == Ty::Unknown
            &&& kind_of(*cx.env, id.name@) == Some(NameKind::Func) ==> r == Ty::Unknown
            &&& kind_of(*cx.env, id.name@) is None ==> r == Ty::Unknown
        },
    decreases *e, 5nat,
{
    let Expr::RecordLit { path, fields, span } = e else {
        return Ty::Unknown;
    };
    let s = *span;
    if path.len() == 0 {
        infer_lit_fields(cx, st, fields);
        return Ty::Unknown;
    }
    let root = path[0].name.as_str();
    if path.len() == 1 {
        match cx.env.kind(root) {
            Some(NameKind::Record) => {
                let def = record_def(cx.env, root);
                check_record_fields(cx, st, &def, fields, root, s);
                Ty::Record(path[0].name.clone())
            },
            Some(NameKind::Alias) => {
                let resolved = match cx.env.alias(root) {
                    Some(t) => t,
                    None => Ty::Unknown,
                };
                match &resolved {
                    Ty::Record(r) => {
                        let def = record_def(cx.env, r.as_str());
                        check_record_fields(cx, st, &def, fields, r.as_str(), s);
                        resolved
                    },
                    Ty::Unknown => {
                        infer_lit_fields(cx, st, fields);
                        Ty::Unknown
                    },
                    _ => {
                        infer_lit_fields(cx, st, fields);
                        err(cx, st, "KEI-E2004", cat3("'", root, "' is not a record type"), s,
                            direction(owned("Construct a record type here")));
                        Ty::Unknown
                    },
                }
            },
            Some(NameKind::Enum) => {
                infer_lit_fields(cx, st, fields);
                let m = cat5("enum '", root, "' needs a variant: '", root, ".Variant { ... }'");
                err(cx, st, "KEI-E2003", m, s, direction(owned("Name the variant to construct")));
                Ty::Enum(path[0].name.clone())
            },
            Some(NameKind::Import) => {
                infer_lit_fields(cx, st, fields);
                Ty::Unknown
            },
            Some(NameKind::Func) => {
                infer_lit_fields(cx, st, fields);
                err(cx, st, "KEI-E2004", cat3("'", root, "' is not a record type"), s,
                    direction(owned("Construct a record type here")));
                Ty::Unknown
            },
            None => {
                infer_lit_fields(cx, st, fields);
                let candidates = cx.env.names_where(false, true);
                let fix = suggest_fix(&cx.env.file, root, &candidates, path[0].span, cat3("Define or import '", root, "'"));
                err(cx, st, "KEI-E1001", cat3("undefined name '", root, "'"), path[0].span, fix);
                Ty::Unknown
            },
        }
    } else if path.len() == 2 && cx.env.kind(root) == Some(NameKind::Enum) {
        let vname = &path[1];
        let v = vname.name.as_str();
        match find_variant(cx.env, root, v) {
            Some(VariantDef::Record(def)) => {
                let owner = cat3(root, ".", v);
                check_record_fields(cx, st, &def, fields, owner.as_str(), s);
                Ty::Enum(path[0].name.clone())
            },
            Some(VariantDef::Tuple(_)) => {
                infer_lit_fields(cx, st, fields);
                let mut m = cat5("variant '", v, "' of '", root, "' carries a positional payload; construct it with '");
                push_str(&mut m, root);
                push_str(&mut m, ".");
                push_str(&mut m, v);
                push_str(&mut m, "(...)'");
                err(cx, st, "KEI-E2003", m, s, direction(owned("Use positional arguments")));
                Ty::Enum(path[0].name.clone())
            },
            Some(VariantDef::Unit) => {
                infer_lit_fields(cx, st, fields);
                let mut m = cat5("variant '", v, "' of '", root, "' takes no payload; write '");
                push_str(&mut m, root);
                push_str(&mut m, ".");
                push_str(&mut m, v);
                push_str(&mut m, "'");
                err(cx, st, "KEI-E2003", m, s, direction(cat5("Remove the braces: '", root, ".", v, "'")));
                Ty::Enum(path[0].name.clone())
            },
            None => {
                infer_lit_fields(cx, st, fields);
                unknown_variant(cx, st, root, vname);
                Ty::Unknown
            },
        }
    } else if cx.env.kind(root) == Some(NameKind::Import) {
        infer_lit_fields(cx, st, fields);
        Ty::Unknown
    } else {
        let full = dotted(path);
        infer_lit_fields(cx, st, fields);
        if cx.env.kind(root).is_some() {
            err(cx, st, "KEI-E2004", cat3("'", full.as_str(), "' is not a record type"), s,
                direction(owned("Construct a record type here")));
        } else {
            err(cx, st, "KEI-E1001", cat3("undefined name '", full.as_str(), "'"), s,
                direction(cat3("Define or import '", full.as_str(), "'")));
        }
        Ty::Unknown
    }
}

/// A `match` expression: the patterns against the scrutinee's shape, each
/// arm body in a scope holding its bindings, arms of one type
/// (`KEI-E2001`), no arm covering a key twice (`KEI-E2008`), and
/// exhaustiveness (`KEI-E2007`).
fn infer_match(cx: &Cx, st: &mut FnState, e: &Expr) -> (r: Ty)
    requires
        cx_ok(*cx),
        st_ok(*cx, *old(st)),
        e is Match,
    ensures
        stepped(*cx, *old(st), *final(st)),
    decreases *e, 5nat,
{
    let Expr::Match { scrutinee, arms, span } = e else {
        return Ty::Unknown;
    };
    let scrut_ty = infer(cx, st, scrutinee);
    let shape = match_shape(cx.env, &scrut_ty);
    if let MatchShape::NonMatchable(t) = &shape {
        let tt = t.text();
        err(cx, st, "KEI-E2009",
            cat3("cannot match on type '", tt.as_str(), "'; match works on Option, Result, or enum values"), scrutinee.span(),
            direction(owned("Match on an Option, Result, or enum value")));
        let mut i: usize = 0;
        while i < arms.len()
            invariant
                cx_ok(*cx),
                stepped(*cx, *old(st), *st),
                *e is Match,
                e->Match_arms == *arms,
            decreases arms@.len() - i,
        {
            push_scope(cx, st, Vec::new());
            assert(decreases_to!(arms@ => arms@[i as int]));
            assert(decreases_to!(arms@[i as int] => arms@[i as int].body));
            infer(cx, st, &arms[i].body);
            pop_scope(cx, st);
            assert(st.scopes@ =~= old(st).scopes@);
            i = i + 1;
        }
        return Ty::Unknown;
    }
    let mut seen: Vec<String> = Vec::new();
    let mut result_ty = Ty::Unknown;
    let mut have_result = false;
    let mut i: usize = 0;
    while i < arms.len()
        invariant
            cx_ok(*cx),
            stepped(*cx, *old(st), *st),
            *e is Match,
            e->Match_arms == *arms,
        decreases arms@.len() - i,
    {
        let arm = &arms[i];
        let (key, bindings) = check_pattern(cx, st, &arm.pattern, &shape);
        if let Some(k) = key {
            if contains_str(&seen, k.as_str()) {
                err(cx, st, "KEI-E2008", cat3("unreachable match arm: '", k.as_str(), "' is already covered above"), arm.pattern.span,
                    direction(owned("Remove the duplicate arm")));
            } else {
                seen.push(k);
            }
        }
        push_scope(cx, st, bindings);
        assert(decreases_to!(arms@ => arms@[i as int]));
        assert(decreases_to!(arms@[i as int] => arms@[i as int].body));
        let body_ty = infer(cx, st, &arm.body);
        pop_scope(cx, st);
        assert(st.scopes@ =~= old(st).scopes@);
        if !have_result {
            result_ty = body_ty;
            have_result = true;
        } else if !body_ty.compatible(&result_ty) {
            let a = result_ty.text();
            let b = body_ty.text();
            let m = cat5("match arms have incompatible types: expected '", a.as_str(), "', found '", b.as_str(), "'");
            err(cx, st, "KEI-E2001", m, arm.body.span(), direction(owned("Make every arm produce the same type")));
        } else if matches!(result_ty, Ty::Unknown) {
            result_ty = body_ty;
        }
        i = i + 1;
    }
    check_exhaustiveness(cx, st, &shape, &seen, *span);
    result_ty
}

/// A unary operator: `-` on a number, `!` on a `Bool` (`KEI-E2001`
/// otherwise).
fn infer_unary(cx: &Cx, st: &mut FnState, e: &Expr) -> (r: Ty)
    requires
        cx_ok(*cx),
        st_ok(*cx, *old(st)),
        e is Unary,
    ensures
        stepped(*cx, *old(st), *final(st)),
        (e matches Expr::Unary { op, .. } && op == UnaryOp::Not) ==> r == Ty::Bool,
    decreases *e, 5nat,
{
    let Expr::Unary { op, expr, .. } = e else {
        return Ty::Unknown;
    };
    let t = infer(cx, st, expr);
    match op {
        UnaryOp::Neg => {
            if !t.is_numeric() {
                let tt = t.text();
                err(cx, st, "KEI-E2001", cat3("negation requires an Int operand, found '", tt.as_str(), "'"), expr.span(),
                    direction(owned("Use an Int expression")));
                return Ty::Unknown;
            }
            t
        },
        UnaryOp::Not => {
            if !t.compatible(&Ty::Bool) {
                let tt = t.text();
                err(cx, st, "KEI-E2001", cat3("'!' requires a Bool operand, found '", tt.as_str(), "'"), expr.span(),
                    direction(owned("Use a Bool expression")));
            }
            Ty::Bool
        },
    }
}

/// A binary operator. Equality needs compatible, scalar operands
/// (`KEI-E2010` for composite ones); ordering and arithmetic need numbers;
/// `||` and `implies` need `Bool`s. Comparisons and logic are `Bool`.
fn infer_binary(cx: &Cx, st: &mut FnState, e: &Expr) -> (r: Ty)
    requires
        cx_ok(*cx),
        st_ok(*cx, *old(st)),
        e is Binary,
    ensures
        stepped(*cx, *old(st), *final(st)),
        (e matches Expr::Binary { op, .. } && !(op == BinOp::Add || op == BinOp::Sub || op == BinOp::Mul
            || op == BinOp::Div || op == BinOp::Rem)) ==> r == Ty::Bool,
    decreases *e, 5nat,
{
    let Expr::Binary { op, lhs, rhs, span } = e else {
        return Ty::Unknown;
    };
    let s = *span;
    let lt = infer(cx, st, lhs);
    let rt = infer(cx, st, rhs);
    match op {
        BinOp::Eq | BinOp::Ne => {
            if !lt.compatible(&rt) {
                compare_mismatch(&cx.env.file, &mut st.diags, &lt, &rt, s);
            } else if !lt.is_equatable() || !rt.is_equatable() {
                let bad = if !lt.is_equatable() { lt.text() } else { rt.text() };
                let m = cat3("equality is not supported on '", bad.as_str(),
                    "'; == / != compare scalars only (Int, String, Bool, and tagged scalars)");
                err(cx, st, "KEI-E2010", m, s, direction(owned("Compare scalar fields, or use match to inspect the value")));
            }
            Ty::Bool
        },
        BinOp::Lt | BinOp::Gt | BinOp::Le | BinOp::Ge => {
            expect_numeric(&cx.env.file, &mut st.diags, &lt, lhs.span(), "ordering comparison");
            expect_numeric(&cx.env.file, &mut st.diags, &rt, rhs.span(), "ordering comparison");
            if lt.is_numeric() && rt.is_numeric() && !lt.compatible(&rt) {
                compare_mismatch(&cx.env.file, &mut st.diags, &lt, &rt, s);
            }
            Ty::Bool
        },
        BinOp::Add | BinOp::Sub | BinOp::Mul | BinOp::Div | BinOp::Rem => {
            let lok = expect_numeric(&cx.env.file, &mut st.diags, &lt, lhs.span(), "arithmetic");
            let rok = expect_numeric(&cx.env.file, &mut st.diags, &rt, rhs.span(), "arithmetic");
            if lok && rok && !lt.compatible(&rt) {
                compare_mismatch(&cx.env.file, &mut st.diags, &lt, &rt, s);
                return Ty::Unknown;
            }
            if !(lok && rok) {
                return Ty::Unknown;
            }
            if matches!(lt, Ty::Unknown) { rt } else { lt }
        },
        BinOp::Or | BinOp::Implies => {
            let op_text = if matches!(op, BinOp::Or) { "||" } else { "implies" };
            if !lt.compatible(&Ty::Bool) {
                let tt = lt.text();
                err(cx, st, "KEI-E2001", cat5("'", op_text, "' requires Bool operands, found '", tt.as_str(), "'"), lhs.span(),
                    direction(owned("Use Bool expressions")));
            }
            if !rt.compatible(&Ty::Bool) {
                let tt = rt.text();
                err(cx, st, "KEI-E2001", cat5("'", op_text, "' requires Bool operands, found '", tt.as_str(), "'"), rhs.span(),
                    direction(owned("Use Bool expressions")));
            }
            Ty::Bool
        },
    }
}

} // verus!
